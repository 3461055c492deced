//! The conversation between a request handler and the code that performs
//! its input and output.
//!
//! A handler (the diff summary, one file's two sides, the repository
//! fingerprint, ...) never touches a process or the file system itself.
//! It is a state machine: it asks for one piece of outside work at a time
//! with a [`Request`], is handed the outcome as a [`Reply`], and finally
//! gives its result. Every git command it asks for is read-only, and every
//! `git diff` ends with a `--` pathspec separator.

use vstd::prelude::*;

use crate::process::GitOutput;

verus! {

/// Kind of a working-tree entry, as `symlink_metadata` sees it.
#[derive(Debug, Clone, Copy, PartialEq, Eq, Structural)]
pub enum EntryKind {
    /// A symbolic link (not followed).
    Symlink,
    /// A directory holding a `.git` entry: a submodule checkout.
    SubmoduleCheckout,
    /// Anything else, including a path that does not exist.
    Other,
}

/// One piece of outside work. Paths are relative to the repository
/// directory, unless absolute.
#[derive(Debug, Clone)]
pub enum Request {
    /// `git -C <repository> <args>`.
    Git(Vec<String>),
    /// `git -C <repository>/<dir> <args>`.
    GitIn(String, Vec<String>),
    /// `git --version`, outside any repository.
    GitVersion,
    /// Whether the path exists.
    Exists(String),
    /// Size in bytes of the untracked file at the path.
    FileSize(String),
    /// The whole content of the file at the path.
    ReadFile(String),
    /// At most the given number of first bytes of the file at the path.
    ReadPrefix(String, usize),
    /// What the working-tree entry at the path is.
    Inspect(String),
    /// The target text of the symbolic link at the path.
    ReadLink(String),
    /// Size in bytes of the working-tree file at the path; none when it
    /// does not exist.
    WorktreeSize(String),
    /// Modification time of `FETCH_HEAD` in the git directory at the path.
    FetchHeadTime(String),
}

/// Mathematical model of a [`Request`].
pub enum RequestView {
    Git(Seq<Seq<char>>),
    GitIn(Seq<char>, Seq<Seq<char>>),
    GitVersion,
    Exists(Seq<char>),
    FileSize(Seq<char>),
    ReadFile(Seq<char>),
    ReadPrefix(Seq<char>, usize),
    Inspect(Seq<char>),
    ReadLink(Seq<char>),
    WorktreeSize(Seq<char>),
    FetchHeadTime(Seq<char>),
}

impl View for Request {
    type V = RequestView;

    open spec fn view(&self) -> RequestView {
        match self {
            Request::Git(a) => RequestView::Git(a.deep_view()),
            Request::GitIn(d, a) => RequestView::GitIn(d@, a.deep_view()),
            Request::GitVersion => RequestView::GitVersion,
            Request::Exists(p) => RequestView::Exists(p@),
            Request::FileSize(p) => RequestView::FileSize(p@),
            Request::ReadFile(p) => RequestView::ReadFile(p@),
            Request::ReadPrefix(p, n) => RequestView::ReadPrefix(p@, *n),
            Request::Inspect(p) => RequestView::Inspect(p@),
            Request::ReadLink(p) => RequestView::ReadLink(p@),
            Request::WorktreeSize(p) => RequestView::WorktreeSize(p@),
            Request::FetchHeadTime(p) => RequestView::FetchHeadTime(p@),
        }
    }
}

/// The outcome of one [`Request`]. An `Err` holds the message of the
/// failure: for `Git`, the text of the invocation error
/// ([`crate::process::GitError`]); for `Size`, `MaybeSize`, and `Bytes`
/// answering `ReadFile`, the I/O error's own text; for `Bytes` answering
/// `ReadPrefix`, for `Link` and for `Time`, the whole message.
#[derive(Debug)]
pub enum Reply {
    /// Answers `Git`, `GitIn` and `GitVersion`.
    Git(Result<GitOutput, String>),
    /// Answers `Exists`.
    Exists(bool),
    /// Answers `FileSize`.
    Size(Result<u64, String>),
    /// Answers `ReadFile` and `ReadPrefix`.
    Bytes(Result<Vec<u8>, String>),
    /// Answers `Inspect`.
    Kind(EntryKind),
    /// Answers `ReadLink`, with the target lossily decoded.
    Link(Result<String, String>),
    /// Answers `WorktreeSize`.
    MaybeSize(Result<Option<u64>, String>),
    /// Answers `FetchHeadTime`: seconds and nanoseconds since the Unix
    /// epoch, none when `FETCH_HEAD` does not exist.
    Time(Result<Option<(i64, u32)>, String>),
}

/// Which [`Reply`] variant answers a request.
#[derive(Debug, Clone, Copy, PartialEq, Eq, Structural)]
pub enum ReplyKind {
    Git,
    Exists,
    Size,
    Bytes,
    Kind,
    Link,
    MaybeSize,
    Time,
}

impl RequestView {
    /// The reply variant that answers this request.
    pub open spec fn reply_kind(self) -> ReplyKind {
        match self {
            RequestView::Git(_) => ReplyKind::Git,
            RequestView::GitIn(_, _) => ReplyKind::Git,
            RequestView::GitVersion => ReplyKind::Git,
            RequestView::Exists(_) => ReplyKind::Exists,
            RequestView::FileSize(_) => ReplyKind::Size,
            RequestView::ReadFile(_) => ReplyKind::Bytes,
            RequestView::ReadPrefix(_, _) => ReplyKind::Bytes,
            RequestView::Inspect(_) => ReplyKind::Kind,
            RequestView::ReadLink(_) => ReplyKind::Link,
            RequestView::WorktreeSize(_) => ReplyKind::MaybeSize,
            RequestView::FetchHeadTime(_) => ReplyKind::Time,
        }
    }
}

impl Reply {
    /// The variant of this reply.
    pub open spec fn kind(&self) -> ReplyKind {
        match self {
            Reply::Git(_) => ReplyKind::Git,
            Reply::Exists(_) => ReplyKind::Exists,
            Reply::Size(_) => ReplyKind::Size,
            Reply::Bytes(_) => ReplyKind::Bytes,
            Reply::Kind(_) => ReplyKind::Kind,
            Reply::Link(_) => ReplyKind::Link,
            Reply::MaybeSize(_) => ReplyKind::MaybeSize,
            Reply::Time(_) => ReplyKind::Time,
        }
    }

    /// Content read from a file fits the line counter's 64-bit total.
    pub open spec fn within_limits(&self) -> bool {
        match self {
            Reply::Bytes(Ok(b)) => b@.len() <= i64::MAX,
            _ => true,
        }
    }
}

/// What a handler does next: ask for outside work, handing back its own
/// state to be stepped with the reply, or finish with its result.
#[derive(Debug)]
pub enum Step<J, T> {
    Ask(J, Request),
    Done(Result<T, String>),
}

/// Mathematical model of a [`Step`].
pub enum StepView<JV, V> {
    Ask(JV, RequestView),
    Done(Result<V, Seq<char>>),
}

impl<J: View, T: View> View for Step<J, T> {
    type V = StepView<J::V, T::V>;

    open spec fn view(&self) -> StepView<J::V, T::V> {
        match self {
            Step::Ask(j, r) => StepView::Ask(j@, r@),
            Step::Done(Ok(v)) => StepView::Done(Ok(v@)),
            Step::Done(Err(e)) => StepView::Done(Err(e@)),
        }
    }
}

// ---------------------------------------------------------------------------
// read-only git
/// The git subcommand of an argument list: the first argument after any
/// leading `-c <name>=<value>` pairs.
pub open spec fn git_subcommand(args: Seq<Seq<char>>) -> Seq<char>
    decreases args.len(),
{
    if args.len() >= 2 && args[0] == "-c"@ {
        git_subcommand(args.skip(2))
    } else if args.len() > 0 {
        args[0]
    } else {
        seq![]
    }
}

/// The git subcommands a handler may run: none of them writes to the
/// repository, its index, its working tree or its configuration.
pub open spec fn read_only_subcommand(c: Seq<char>) -> bool {
    ||| c == "rev-parse"@
    ||| c == "check-ref-format"@
    ||| c == "show-ref"@
    ||| c == "symbolic-ref"@
    ||| c == "merge-base"@
    ||| c == "diff"@
    ||| c == "ls-files"@
    ||| c == "ls-tree"@
    ||| c == "cat-file"@
    ||| c == "show"@
    ||| c == "status"@
    ||| c == "for-each-ref"@
}

/// A read-only git argument list; a `git diff` one ends with `--`.
pub open spec fn safe_git_args(args: Seq<Seq<char>>) -> bool {
    &&& read_only_subcommand(git_subcommand(args))
    &&& git_subcommand(args) == "diff"@ ==> args.len() > 0 && args.last() == "--"@
}

/// A request that runs git runs it read-only.
pub open spec fn safe_request(r: RequestView) -> bool {
    match r {
        RequestView::Git(a) => safe_git_args(a),
        RequestView::GitIn(_, a) => safe_git_args(a),
        _ => true,
    }
}

/// A step that asks for outside work asks only for safe work.
pub open spec fn safe_step<JV, V>(s: StepView<JV, V>) -> bool {
    match s {
        StepView::Ask(_, r) => safe_request(r),
        StepView::Done(_) => true,
    }
}

/// The read-only subcommands are no `-c` option, and all but `diff` differ
/// from `diff`.
pub(crate) proof fn lemma_subcommand_literals()
    ensures
        "rev-parse"@ != "-c"@ && "rev-parse"@ != "diff"@,
        "check-ref-format"@ != "-c"@ && "check-ref-format"@ != "diff"@,
        "show-ref"@ != "-c"@ && "show-ref"@ != "diff"@,
        "symbolic-ref"@ != "-c"@ && "symbolic-ref"@ != "diff"@,
        "merge-base"@ != "-c"@ && "merge-base"@ != "diff"@,
        "ls-files"@ != "-c"@ && "ls-files"@ != "diff"@,
        "ls-tree"@ != "-c"@ && "ls-tree"@ != "diff"@,
        "cat-file"@ != "-c"@ && "cat-file"@ != "diff"@,
        "show"@ != "-c"@ && "show"@ != "diff"@,
        "status"@ != "-c"@ && "status"@ != "diff"@,
        "for-each-ref"@ != "-c"@ && "for-each-ref"@ != "diff"@,
        "diff"@ != "-c"@,
{
    reveal_strlit("-c");
    reveal_strlit("diff");
    reveal_strlit("rev-parse");
    reveal_strlit("check-ref-format");
    reveal_strlit("show-ref");
    reveal_strlit("symbolic-ref");
    reveal_strlit("merge-base");
    reveal_strlit("ls-files");
    reveal_strlit("ls-tree");
    reveal_strlit("cat-file");
    reveal_strlit("show");
    reveal_strlit("status");
    reveal_strlit("for-each-ref");
    assert("-c"@.len() == 2);
    assert("diff"@.len() == 4);
    assert("rev-parse"@.len() == 9);
    assert("check-ref-format"@.len() == 16);
    assert("show-ref"@.len() == 8);
    assert("symbolic-ref"@.len() == 12);
    assert("merge-base"@.len() == 10);
    assert("ls-files"@.len() == 8);
    assert("ls-tree"@.len() == 7);
    assert("cat-file"@.len() == 8);
    assert("status"@.len() == 6);
    assert("for-each-ref"@.len() == 12);
    assert("show"@[1] != "diff"@[1]);
    assert("show"@[0] != "-c"@[0]);
}

/// An argument list led by a read-only subcommand other than `diff` is
/// safe.
pub(crate) proof fn lemma_plain_safe(args: Seq<Seq<char>>)
    requires
        args.len() > 0,
        read_only_subcommand(args[0]),
        args[0] != "diff"@,
    ensures
        safe_git_args(args),
{
    lemma_subcommand_literals();
}

} // verus!
