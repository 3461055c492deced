//! The outcome of one git invocation, the error shape of a failed or
//! aborted one, and the decisions of the bounded wait for a git child
//! process.
//!
//! Every invocation is bounded by a timeout: the child is polled until it
//! exits or the deadline passes, at which point it is killed and the
//! invocation reported as timed out.

use vstd::prelude::*;

use crate::text::{concat2, decode_trimmed, has_prefix, trimmed_text};

verus! {

/// Timeout applied to every git invocation, in seconds.
pub const GIT_TIMEOUT_SECS: u64 = 30;

/// What a finished git invocation produced.
#[derive(Debug, Clone)]
pub struct GitOutput {
    /// The exit status reported success.
    pub success: bool,
    pub stdout: Vec<u8>,
    pub stderr: Vec<u8>,
}

/// `stdout`, lossily decoded as UTF-8 and trimmed.
pub fn stdout_trimmed(output: &GitOutput) -> (res: String)
    ensures
        res@ == trimmed_text(output.stdout@),
{
    decode_trimmed(output.stdout.as_slice())
}

/// `stderr`, lossily decoded as UTF-8 and trimmed.
pub fn stderr_trimmed(output: &GitOutput) -> (res: String)
    ensures
        res@ == trimmed_text(output.stderr@),
{
    decode_trimmed(output.stderr.as_slice())
}

/// Error shape for a failed/aborted git invocation. `NotFound` and
/// `Timeout` are told apart from an ordinary failure so that the frontend
/// can offer an install hint or a retry.
#[derive(Debug, Clone, PartialEq, Eq)]
pub enum GitError {
    /// The `git` executable could not be found.
    NotFound,
    /// The command exceeded the timeout and was killed.
    Timeout,
    /// Any other spawn/IO failure, passed through as-is.
    Io(String),
}

pub open spec fn not_found_text() -> Seq<char> {
    "GIT_NOT_FOUND: git executable not found on PATH. Please install git and ensure it is available on PATH."@
}

pub open spec fn timeout_text() -> Seq<char> {
    "GIT_TIMEOUT: git command exceeded 30s and was terminated"@
}

/// The wire text of an error: `GIT_NOT_FOUND:` / `GIT_TIMEOUT:` prefixed
/// messages for the two special kinds, the bare message otherwise.
pub open spec fn git_error_text(e: GitError) -> Seq<char> {
    match e {
        GitError::NotFound => not_found_text(),
        GitError::Timeout => timeout_text(),
        GitError::Io(msg) => msg@,
    }
}

impl GitError {
    /// The error's wire text.
    pub fn to_message(&self) -> (res: String)
        ensures
            res@ == git_error_text(*self),
    {
        match self {
            GitError::NotFound => String::from_str(
                "GIT_NOT_FOUND: git executable not found on PATH. Please install git and ensure it is available on PATH.",
            ),
            GitError::Timeout => String::from_str(
                "GIT_TIMEOUT: git command exceeded 30s and was terminated",
            ),
            GitError::Io(msg) => msg.clone(),
        }
    }
}

/// The error for a child process that could not be started.
pub fn spawn_error(not_found: bool, detail: &str) -> (res: GitError)
    ensures
        not_found ==> res == GitError::NotFound,
        !not_found ==> (res matches GitError::Io(m) && m@ == "failed to execute git: "@ + detail@),
{
    if not_found {
        GitError::NotFound
    } else {
        GitError::Io(concat2("failed to execute git: ", detail))
    }
}

/// What polling a running child reported.
#[derive(Debug, Clone, Copy, PartialEq, Eq, Structural)]
pub enum Poll {
    /// The child has exited.
    Exited,
    /// The child is still running.
    Running,
    /// Waiting on the child failed.
    Failed,
}

/// What to do after one poll of the child.
#[derive(Debug, Clone, Copy, PartialEq, Eq, Structural)]
pub enum WaitAction {
    /// Collect the output: the child has exited.
    Collect,
    /// Kill and reap the child, then report `Timeout`.
    KillForTimeout,
    /// Sleep one poll interval and poll again.
    Sleep,
    /// Report the wait failure.
    Abort,
}

/// The decision after one poll, `elapsed_nanos` after the start with a
/// budget of `timeout_nanos`.
pub fn wait_action(poll: Poll, elapsed_nanos: u128, timeout_nanos: u128) -> (res: WaitAction)
    ensures
        poll == Poll::Exited ==> res == WaitAction::Collect,
        poll == Poll::Failed ==> res == WaitAction::Abort,
        poll == Poll::Running ==> (res == if elapsed_nanos >= timeout_nanos {
            WaitAction::KillForTimeout
        } else {
            WaitAction::Sleep
        }),
{
    match poll {
        Poll::Exited => WaitAction::Collect,
        Poll::Failed => WaitAction::Abort,
        Poll::Running => {
            if elapsed_nanos >= timeout_nanos {
                WaitAction::KillForTimeout
            } else {
                WaitAction::Sleep
            }
        },
    }
}

/// The error for a failed wait on the child.
pub fn wait_error(detail: &str) -> (res: GitError)
    ensures
        res matches GitError::Io(m) && m@ == "failed to wait on git: "@ + detail@,
{
    GitError::Io(concat2("failed to wait on git: ", detail))
}


/// The two special kinds carry their documented `GIT_NOT_FOUND:` and
/// `GIT_TIMEOUT:` prefixes; any other error is its bare message.
pub proof fn lemma_error_text_prefixes(msg: String)
    ensures
        has_prefix(git_error_text(GitError::NotFound), "GIT_NOT_FOUND:"@),
        has_prefix(git_error_text(GitError::Timeout), "GIT_TIMEOUT:"@),
        git_error_text(GitError::Io(msg)) == msg@,
{
    reveal_strlit("GIT_NOT_FOUND:");
    reveal_strlit(
        "GIT_NOT_FOUND: git executable not found on PATH. Please install git and ensure it is available on PATH.",
    );
    reveal_strlit("GIT_TIMEOUT:");
    reveal_strlit("GIT_TIMEOUT: git command exceeded 30s and was terminated");
    assert(not_found_text().take(14) =~= "GIT_NOT_FOUND:"@);
    assert(timeout_text().take(12) =~= "GIT_TIMEOUT:"@);
}

} // verus!
