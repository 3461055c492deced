//! Validating a repository path and the change-detection fingerprint, as
//! state machines.
//!
//! [`RepoJob`] checks that the path is inside a working tree, then reads
//! its root, the checked-out branch, whether HEAD has a commit, and the git
//! version. [`FingerprintJob`] normalizes `target` and `source`, resolves
//! them and HEAD (an unresolvable HEAD counts as empty), and takes `git
//! status --porcelain -z --untracked-files=all`; [`fingerprint_digest`]
//! turns those into the fingerprint.

use vstd::prelude::*;

use crate::process::GitOutput;
use crate::refs::{normalize_ref, normalize_step, ref_check_args, ref_check_args_spec, RefStep, RefStepView};
use crate::repo::{
    check_status_output, check_work_tree, fingerprint_head, fingerprint_hex, hex_alphabet, hex_digits, lemma_hex_digits_shape, not_work_tree_text, repo_info,
    repo_toplevel, resolve_sha,
};
use crate::session::{
    git_subcommand, lemma_plain_safe, lemma_subcommand_literals, safe_git_args, safe_request,
    safe_step, Reply, ReplyKind, Request, RequestView, Step, StepView,
};
use crate::text::trimmed_text;
use crate::types::{FingerprintParams, RepoInfo, RepoInfoView};
use std::collections::hash_map::DefaultHasher;
use std::hash::Hasher;
use vstd::std_specs::hash::DefaultHasherAdditionalSpecFns;

verus! {

// ---------------------------------------------------------------------------
// validating a repository
/// Where a [`RepoJob`] stands: what it waits for.
#[derive(Debug, Clone, Copy, PartialEq, Eq, Structural)]
pub enum RepoStage {
    /// `git rev-parse --is-inside-work-tree`.
    WorkTree,
    /// `git rev-parse --show-toplevel`.
    Toplevel,
    /// `git symbolic-ref --quiet --short HEAD`, in the root.
    Symbolic,
    /// `git rev-parse --verify --quiet HEAD`, in the root.
    HeadVerify,
    /// `git --version`.
    Version,
}

/// The state of one validation.
pub struct RepoJob {
    stage: RepoStage,
    toplevel: String,
    symbolic: GitOutput,
    head_verify: GitOutput,
}

/// Mathematical model of a [`RepoJob`].
pub struct RepoJobView {
    pub stage: RepoStage,
    pub toplevel: Seq<char>,
    /// Whether `symbolic-ref` succeeded, and its output.
    pub on_branch: bool,
    pub branch_out: Seq<u8>,
    /// Whether HEAD resolved.
    pub has_commits: bool,
}

impl View for RepoJob {
    type V = RepoJobView;

    closed spec fn view(&self) -> RepoJobView {
        RepoJobView {
            stage: self.stage,
            toplevel: self.toplevel@,
            on_branch: self.symbolic.success,
            branch_out: self.symbolic.stdout@,
            has_commits: self.head_verify.success,
        }
    }
}

/// A transition of a validation.
pub type RepoMove = StepView<RepoJobView, RepoInfoView>;

/// `git rev-parse --is-inside-work-tree`.
pub open spec fn work_tree_args() -> Seq<Seq<char>> {
    seq!["rev-parse"@, "--is-inside-work-tree"@]
}

/// `git rev-parse --show-toplevel`.
pub open spec fn toplevel_args() -> Seq<Seq<char>> {
    seq!["rev-parse"@, "--show-toplevel"@]
}

/// `git rev-parse --verify --quiet HEAD`.
pub open spec fn head_verify_args() -> Seq<Seq<char>> {
    seq!["rev-parse"@, "--verify"@, "--quiet"@, "HEAD"@]
}

/// The repository information from the root and the three answers.
pub open spec fn repo_info_of(j: RepoJobView, version: GitOutput) -> RepoInfoView {
    RepoInfoView {
        toplevel: j.toplevel,
        current_branch: if j.on_branch {
            Some(trimmed_text(j.branch_out))
        } else {
            None
        },
        is_detached: !j.on_branch,
        has_commits: j.has_commits,
        git_version: trimmed_text(version.stdout@),
    }
}

/// The first transition of a validation.
pub open spec fn repo_start() -> RepoMove {
    StepView::Ask(
        RepoJobView {
            stage: RepoStage::WorkTree,
            toplevel: seq![],
            on_branch: false,
            branch_out: seq![],
            has_commits: false,
        },
        RequestView::Git(work_tree_args()),
    )
}

/// The transition of a validation on one reply.
pub open spec fn repo_next(j: RepoJobView, reply: Reply) -> RepoMove {
    match reply {
        Reply::Git(Err(e)) => StepView::Done(Err(e@)),
        Reply::Git(Ok(out)) => match j.stage {
            RepoStage::WorkTree => if trimmed_text(out.stdout@) == "true"@ {
                StepView::Ask(
                    RepoJobView { stage: RepoStage::Toplevel, ..j },
                    RequestView::Git(toplevel_args()),
                )
            } else {
                StepView::Done(Err(not_work_tree_text()))
            },
            RepoStage::Toplevel => if out.success {
                let t = trimmed_text(out.stdout@);
                StepView::Ask(
                    RepoJobView { stage: RepoStage::Symbolic, toplevel: t, ..j },
                    RequestView::GitIn(t, crate::summary_job::symbolic_ref_args()),
                )
            } else {
                StepView::Done(
                    Err("failed to resolve repository root: "@ + trimmed_text(out.stderr@)),
                )
            },
            RepoStage::Symbolic => StepView::Ask(
                RepoJobView {
                    stage: RepoStage::HeadVerify,
                    on_branch: out.success,
                    branch_out: out.stdout@,
                    ..j
                },
                RequestView::GitIn(j.toplevel, head_verify_args()),
            ),
            RepoStage::HeadVerify => StepView::Ask(
                RepoJobView { stage: RepoStage::Version, has_commits: out.success, ..j },
                RequestView::GitVersion,
            ),
            RepoStage::Version => StepView::Done(
                Ok(repo_info_of(j, out)),
            ),
        },
        _ => StepView::Done(Err(seq![])),
    }
}

/// Every request of a validation is read-only and answered by `Git`.
pub open spec fn repo_good(m: RepoMove) -> bool {
    match m {
        StepView::Ask(_, r) => r.reply_kind() == ReplyKind::Git && safe_request(r),
        StepView::Done(_) => true,
    }
}

proof fn lemma_repo_args_safe()
    ensures
        safe_git_args(work_tree_args()),
        safe_git_args(toplevel_args()),
        safe_git_args(head_verify_args()),
        safe_git_args(crate::summary_job::symbolic_ref_args()),
{
    lemma_subcommand_literals();
    lemma_plain_safe(work_tree_args());
    lemma_plain_safe(toplevel_args());
    lemma_plain_safe(head_verify_args());
    lemma_plain_safe(crate::summary_job::symbolic_ref_args());
}

fn empty_output() -> (res: GitOutput)
    ensures
        !res.success,
        res.stdout@.len() == 0,
{
    GitOutput { success: false, stdout: Vec::new(), stderr: Vec::new() }
}

impl RepoJob {
    /// Starts validating a repository path (already known to be a
    /// directory).
    pub fn start() -> (res: Step<RepoJob, RepoInfo>)
        ensures
            res@ == repo_start(),
            repo_good(res@),
            safe_step(res@),
    {
        let j = RepoJob {
            stage: RepoStage::WorkTree,
            toplevel: String::new(),
            symbolic: empty_output(),
            head_verify: empty_output(),
        };
        let args = vec![String::from_str("rev-parse"), String::from_str("--is-inside-work-tree")];
        proof {
            assert(j@.toplevel =~= Seq::<char>::empty());
            assert(j@.branch_out =~= Seq::<u8>::empty());
            assert(args.deep_view() =~= work_tree_args());
            lemma_repo_args_safe();
        }
        Step::Ask(j, Request::Git(args))
    }

    /// Steps the validation with the reply to its last request.
    pub fn step(self, reply: Reply) -> (res: Step<RepoJob, RepoInfo>)
        requires
            reply.kind() == ReplyKind::Git,
        ensures
            res@ == repo_next(self@, reply),
            repo_good(res@),
            safe_step(res@),
    {
        proof {
            lemma_repo_args_safe();
        }
        let ghost j0 = self@;
        match reply {
            Reply::Git(Err(e)) => Step::Done(Err(e)),
            Reply::Git(Ok(out)) => match self.stage {
                RepoStage::WorkTree => match check_work_tree(&out) {
                    Ok(()) => {
                        let args = vec![
                            String::from_str("rev-parse"),
                            String::from_str("--show-toplevel"),
                        ];
                        assert(args.deep_view() =~= toplevel_args());
                        let mut j = self;
                        j.stage = RepoStage::Toplevel;
                        Step::Ask(j, Request::Git(args))
                    },
                    Err(e) => Step::Done(Err(e)),
                },
                RepoStage::Toplevel => match repo_toplevel(&out) {
                    Ok(t) => {
                        let args = vec![
                            String::from_str("symbolic-ref"),
                            String::from_str("--quiet"),
                            String::from_str("--short"),
                            String::from_str("HEAD"),
                        ];
                        assert(args.deep_view() =~= crate::summary_job::symbolic_ref_args());
                        let dir = t.clone();
                        let mut j = self;
                        j.stage = RepoStage::Symbolic;
                        j.toplevel = t;
                        Step::Ask(j, Request::GitIn(dir, args))
                    },
                    Err(e) => Step::Done(Err(e)),
                },
                RepoStage::Symbolic => {
                    let args = vec![
                        String::from_str("rev-parse"),
                        String::from_str("--verify"),
                        String::from_str("--quiet"),
                        String::from_str("HEAD"),
                    ];
                    assert(args.deep_view() =~= head_verify_args());
                    let dir = self.toplevel.clone();
                    let mut j = self;
                    j.stage = RepoStage::HeadVerify;
                    j.symbolic = out;
                    Step::Ask(j, Request::GitIn(dir, args))
                },
                RepoStage::HeadVerify => {
                    let mut j = self;
                    j.stage = RepoStage::Version;
                    j.head_verify = out;
                    Step::Ask(j, Request::GitVersion)
                },
                RepoStage::Version => {
                    let RepoJob { toplevel, symbolic, head_verify, .. } = self;
                    Step::Done(Ok(repo_info(toplevel, &symbolic, &head_verify, &out)))
                },
            },
            _ => Step::Done(Err(String::new())),
        }
    }
}

// ---------------------------------------------------------------------------
// the fingerprint
/// What the fingerprint is computed from.
#[derive(Debug)]
pub struct FingerprintInputs {
    /// Object ids of `target`, `source` and HEAD (empty when HEAD does
    /// not resolve).
    pub target_sha: String,
    pub source_sha: String,
    pub head_sha: String,
    /// Output of `git status --porcelain -z --untracked-files=all`.
    pub status: Vec<u8>,
}

/// Mathematical model of [`FingerprintInputs`].
pub struct FingerprintInputsView {
    pub target_sha: Seq<char>,
    pub source_sha: Seq<char>,
    pub head_sha: Seq<char>,
    pub status: Seq<u8>,
}

impl View for FingerprintInputs {
    type V = FingerprintInputsView;

    open spec fn view(&self) -> FingerprintInputsView {
        FingerprintInputsView {
            target_sha: self.target_sha@,
            source_sha: self.source_sha@,
            head_sha: self.head_sha@,
            status: self.status@,
        }
    }
}

/// Where a [`FingerprintJob`] stands: what it waits for.
#[derive(Debug, Clone, Copy, PartialEq, Eq, Structural)]
pub enum FingerprintStage {
    Target,
    Source,
    TargetSha,
    SourceSha,
    HeadSha,
    Status,
}

/// The state of one fingerprint request.
pub struct FingerprintJob {
    target_raw: String,
    source_raw: String,
    stage: FingerprintStage,
    answers: Vec<bool>,
    target: String,
    source: String,
    target_sha: String,
    source_sha: String,
    head_sha: String,
}

/// Mathematical model of a [`FingerprintJob`].
pub struct FingerprintJobView {
    pub target_raw: Seq<char>,
    pub source_raw: Seq<char>,
    pub stage: FingerprintStage,
    pub answers: Seq<bool>,
    pub target: Seq<char>,
    pub source: Seq<char>,
    pub target_sha: Seq<char>,
    pub source_sha: Seq<char>,
    pub head_sha: Seq<char>,
}

impl View for FingerprintJob {
    type V = FingerprintJobView;

    closed spec fn view(&self) -> FingerprintJobView {
        FingerprintJobView {
            target_raw: self.target_raw@,
            source_raw: self.source_raw@,
            stage: self.stage,
            answers: self.answers@,
            target: self.target@,
            source: self.source@,
            target_sha: self.target_sha@,
            source_sha: self.source_sha@,
            head_sha: self.head_sha@,
        }
    }
}

/// A transition of a fingerprint request.
pub type FingerprintMove = StepView<FingerprintJobView, FingerprintInputsView>;

/// `git rev-parse --verify --quiet <rev>`.
pub open spec fn verify_args(rev: Seq<char>) -> Seq<Seq<char>> {
    seq!["rev-parse"@, "--verify"@, "--quiet"@, rev]
}

/// `git -c core.fsmonitor=false status --porcelain -z --untracked-files=all`.
pub open spec fn status_args() -> Seq<Seq<char>> {
    seq![
        "-c"@,
        "core.fsmonitor=false"@,
        "status"@,
        "--porcelain"@,
        "-z"@,
        "--untracked-files=all"@,
    ]
}

/// Ask for `git <args>`, waiting in `stage`.
pub open spec fn fp_ask(j: FingerprintJobView, stage: FingerprintStage, args: Seq<Seq<char>>) -> FingerprintMove {
    StepView::Ask(FingerprintJobView { stage: stage, ..j }, RequestView::Git(args))
}

/// The next check normalizing `source`, or resolving `target` next.
pub open spec fn fp_source_next(j: FingerprintJobView) -> FingerprintMove {
    match normalize_step(j.source_raw, j.answers) {
        RefStepView::Done(Err(e)) => StepView::Done(Err(e)),
        RefStepView::Done(Ok(s)) => fp_ask(
            FingerprintJobView { source: s, answers: seq![], ..j },
            FingerprintStage::TargetSha,
            verify_args(j.target),
        ),
        step => fp_ask(j, FingerprintStage::Source, ref_check_args_spec(step)),
    }
}

/// The next check normalizing `target`, or its outcome.
pub open spec fn fp_target_next(j: FingerprintJobView) -> FingerprintMove {
    match normalize_step(j.target_raw, j.answers) {
        RefStepView::Done(Err(e)) => StepView::Done(Err(e)),
        RefStepView::Done(Ok(t)) => fp_source_next(FingerprintJobView { target: t, answers: seq![], ..j }),
        step => fp_ask(j, FingerprintStage::Target, ref_check_args_spec(step)),
    }
}

/// The object id `git rev-parse --verify --quiet <rev>` resolved, or the
/// error.
pub open spec fn resolved_sha(out: GitOutput, rev: Seq<char>) -> Result<Seq<char>, Seq<char>> {
    if out.success {
        Ok(trimmed_text(out.stdout@))
    } else {
        Err("failed to resolve '"@ + rev + "': "@ + trimmed_text(out.stderr@))
    }
}

/// HEAD's object id: empty when it does not resolve, for whatever reason.
pub open spec fn head_sha_of(r: Result<GitOutput, String>) -> Seq<char> {
    match r {
        Ok(out) => if out.success {
            trimmed_text(out.stdout@)
        } else {
            seq![]
        },
        Err(_) => seq![],
    }
}

/// The first transition of a fingerprint request.
pub open spec fn fingerprint_start(target: Seq<char>, source: Seq<char>) -> FingerprintMove {
    fp_target_next(
        FingerprintJobView {
            target_raw: target,
            source_raw: source,
            stage: FingerprintStage::Target,
            answers: seq![],
            target: seq![],
            source: seq![],
            target_sha: seq![],
            source_sha: seq![],
            head_sha: seq![],
        },
    )
}

/// The transition of a fingerprint request on one reply.
pub open spec fn fingerprint_next(j: FingerprintJobView, reply: Reply) -> FingerprintMove {
    match reply {
        Reply::Git(r) => match j.stage {
            FingerprintStage::HeadSha => fp_ask(
                FingerprintJobView { head_sha: head_sha_of(r), ..j },
                FingerprintStage::Status,
                status_args(),
            ),
            _ => match r {
                Err(e) => StepView::Done(Err(e@)),
                Ok(out) => match j.stage {
                    FingerprintStage::Target => fp_target_next(
                        FingerprintJobView { answers: j.answers.push(out.success), ..j },
                    ),
                    FingerprintStage::Source => fp_source_next(
                        FingerprintJobView { answers: j.answers.push(out.success), ..j },
                    ),
                    FingerprintStage::TargetSha => match resolved_sha(out, j.target) {
                        Err(e) => StepView::Done(Err(e)),
                        Ok(s) => fp_ask(
                            FingerprintJobView { target_sha: s, ..j },
                            FingerprintStage::SourceSha,
                            verify_args(j.source),
                        ),
                    },
                    FingerprintStage::SourceSha => match resolved_sha(out, j.source) {
                        Err(e) => StepView::Done(Err(e)),
                        Ok(s) => fp_ask(
                            FingerprintJobView { source_sha: s, ..j },
                            FingerprintStage::HeadSha,
                            verify_args("HEAD"@),
                        ),
                    },
                    _ => if out.success {
                        StepView::Done(
                            Ok(
                                FingerprintInputsView {
                                    target_sha: j.target_sha,
                                    source_sha: j.source_sha,
                                    head_sha: j.head_sha,
                                    status: out.stdout@,
                                },
                            ),
                        )
                    } else {
                        StepView::Done(Err("git status failed: "@ + trimmed_text(out.stderr@)))
                    },
                },
            },
        },
        _ => StepView::Done(Err(seq![])),
    }
}

/// Every request of a fingerprint is read-only and answered by `Git`.
pub open spec fn fingerprint_good(m: FingerprintMove) -> bool {
    match m {
        StepView::Ask(_, r) => r.reply_kind() == ReplyKind::Git && safe_request(r),
        StepView::Done(_) => true,
    }
}

proof fn lemma_fingerprint_args_safe(rev: Seq<char>, step: RefStepView)
    ensures
        safe_git_args(verify_args(rev)),
        safe_git_args(status_args()),
        (step is CheckFormat || step is CheckExists) ==> safe_git_args(ref_check_args_spec(step)),
{
    lemma_subcommand_literals();
    lemma_plain_safe(verify_args(rev));
    if step is CheckFormat || step is CheckExists {
        lemma_plain_safe(ref_check_args_spec(step));
    }
    reveal_strlit("status");
    let a = status_args();
    assert(a.skip(2)[0] == "status"@);
    assert(git_subcommand(a.skip(2)) == a.skip(2)[0]);
    assert(git_subcommand(a) == git_subcommand(a.skip(2)));
}

fn verify_args_exec(rev: &str) -> (res: Vec<String>)
    ensures
        res.deep_view() == verify_args(rev@),
        safe_git_args(res.deep_view()),
{
    let v = vec![
        String::from_str("rev-parse"),
        String::from_str("--verify"),
        String::from_str("--quiet"),
        String::from_str(rev),
    ];
    proof {
        assert(v.deep_view() =~= verify_args(rev@));
        lemma_fingerprint_args_safe(rev@, RefStepView::Done(Err(seq![])));
    }
    v
}

impl FingerprintJob {
    fn fp_source_next_exec(self) -> (res: Step<FingerprintJob, FingerprintInputs>)
        ensures
            res@ == fp_source_next(self@),
            fingerprint_good(res@),
    {
        let ghost j0 = self@;
        let step = normalize_ref(self.source_raw.as_str(), self.answers.as_slice());
        let ghost sv = step@;
        proof {
            lemma_fingerprint_args_safe(seq![], sv);
        }
        match step {
            RefStep::Done(Err(e)) => Step::Done(Err(e)),
            RefStep::Done(Ok(s)) => {
                let args = verify_args_exec(self.target.as_str());
                let ghost s_v = s@;
                let mut j = self;
                j.source = s;
                j.answers = Vec::new();
                j.stage = FingerprintStage::TargetSha;
                assert(j@ == FingerprintJobView {
                    source: s_v,
                    answers: seq![],
                    stage: FingerprintStage::TargetSha,
                    ..j0
                });
                Step::Ask(j, Request::Git(args))
            },
            RefStep::Check(c) => {
                let args = ref_check_args(&c);
                let mut j = self;
                j.stage = FingerprintStage::Source;
                Step::Ask(j, Request::Git(args))
            },
        }
    }

    fn fp_target_next_exec(self) -> (res: Step<FingerprintJob, FingerprintInputs>)
        ensures
            res@ == fp_target_next(self@),
            fingerprint_good(res@),
    {
        let ghost j0 = self@;
        let step = normalize_ref(self.target_raw.as_str(), self.answers.as_slice());
        let ghost sv = step@;
        proof {
            lemma_fingerprint_args_safe(seq![], sv);
        }
        match step {
            RefStep::Done(Err(e)) => Step::Done(Err(e)),
            RefStep::Done(Ok(t)) => {
                let ghost t_v = t@;
                let mut j = self;
                j.target = t;
                j.answers = Vec::new();
                assert(j@ == FingerprintJobView { target: t_v, answers: seq![], ..j0 });
                j.fp_source_next_exec()
            },
            RefStep::Check(c) => {
                let args = ref_check_args(&c);
                let mut j = self;
                j.stage = FingerprintStage::Target;
                Step::Ask(j, Request::Git(args))
            },
        }
    }

    /// Starts a fingerprint request (its repository already known to be a
    /// directory).
    pub fn start(params: &FingerprintParams) -> (res: Step<FingerprintJob, FingerprintInputs>)
        ensures
            res@ == fingerprint_start(params.target@, params.source@),
            fingerprint_good(res@),
            safe_step(res@),
    {
        let j = FingerprintJob {
            target_raw: params.target.clone(),
            source_raw: params.source.clone(),
            stage: FingerprintStage::Target,
            answers: Vec::new(),
            target: String::new(),
            source: String::new(),
            target_sha: String::new(),
            source_sha: String::new(),
            head_sha: String::new(),
        };
        assert(j@.answers =~= Seq::<bool>::empty());
        j.fp_target_next_exec()
    }

    /// Steps the request with the reply to its last request.
    pub fn step(self, reply: Reply) -> (res: Step<FingerprintJob, FingerprintInputs>)
        requires
            reply.kind() == ReplyKind::Git,
        ensures
            res@ == fingerprint_next(self@, reply),
            fingerprint_good(res@),
            safe_step(res@),
    {
        let ghost j0 = self@;
        proof {
            lemma_fingerprint_args_safe("HEAD"@, RefStepView::Done(Err(seq![])));
        }
        match reply {
            Reply::Git(r) => {
                if self.stage == FingerprintStage::HeadSha {
                    let ghost expected = head_sha_of(r);
                    let resolved = match r {
                        Ok(out) => resolve_sha(&out, "HEAD"),
                        Err(e) => Err(e),
                    };
                    let head = fingerprint_head(resolved);
                    assert(head@ =~= expected);
                    let args = vec![
                        String::from_str("-c"),
                        String::from_str("core.fsmonitor=false"),
                        String::from_str("status"),
                        String::from_str("--porcelain"),
                        String::from_str("-z"),
                        String::from_str("--untracked-files=all"),
                    ];
                    assert(args.deep_view() =~= status_args());
                    let mut j = self;
                    j.head_sha = head;
                    j.stage = FingerprintStage::Status;
                    return Step::Ask(j, Request::Git(args));
                }
                match r {
                    Err(e) => Step::Done(Err(e)),
                    Ok(out) => match self.stage {
                        FingerprintStage::Target => {
                            let mut j = self;
                            j.answers.push(out.success);
                            j.fp_target_next_exec()
                        },
                        FingerprintStage::Source => {
                            let mut j = self;
                            j.answers.push(out.success);
                            j.fp_source_next_exec()
                        },
                        FingerprintStage::TargetSha => match resolve_sha(&out, self.target.as_str()) {
                            Err(e) => Step::Done(Err(e)),
                            Ok(s) => {
                                let args = verify_args_exec(self.source.as_str());
                                let mut j = self;
                                j.target_sha = s;
                                j.stage = FingerprintStage::SourceSha;
                                Step::Ask(j, Request::Git(args))
                            },
                        },
                        FingerprintStage::SourceSha => match resolve_sha(&out, self.source.as_str()) {
                            Err(e) => Step::Done(Err(e)),
                            Ok(s) => {
                                let args = verify_args_exec("HEAD");
                                let mut j = self;
                                j.source_sha = s;
                                j.stage = FingerprintStage::HeadSha;
                                Step::Ask(j, Request::Git(args))
                            },
                        },
                        _ => match check_status_output(&out) {
                            Err(e) => Step::Done(Err(e)),
                            Ok(()) => {
                                let FingerprintJob { target_sha, source_sha, head_sha, .. } = self;
                                Step::Done(
                                    Ok(
                                        FingerprintInputs {
                                            target_sha,
                                            source_sha,
                                            head_sha,
                                            status: out.stdout,
                                        },
                                    ),
                                )
                            },
                        },
                    },
                }
            },
            _ => Step::Done(Err(String::new())),
        }
    }
}

/// The byte writes the fingerprint hashes: each object id followed by
/// `0xff`, then the status output's length (8 bytes, little-endian) and
/// the status output itself.
pub open spec fn fingerprint_writes(v: FingerprintInputsView) -> Seq<Seq<u8>> {
    seq![
        vstd::utf8::encode_utf8(v.target_sha),
        seq![0xffu8],
        vstd::utf8::encode_utf8(v.source_sha),
        seq![0xffu8],
        vstd::utf8::encode_utf8(v.head_sha),
        seq![0xffu8],
        vstd::bytes::spec_u64_to_le_bytes(v.status.len() as u64),
        v.status,
    ]
}

/// The fingerprint: `DefaultHasher` over [`fingerprint_writes`], as 16
/// lowercase hexadecimal digits.
pub fn fingerprint_digest(inputs: &FingerprintInputs) -> (res: String)
    ensures
        res@ == fingerprint_of(inputs@),
{
    let ff: Vec<u8> = vec![0xffu8];
    let mut hasher = DefaultHasher::new();
    hasher.write(inputs.target_sha.as_str().as_bytes());
    hasher.write(ff.as_slice());
    hasher.write(inputs.source_sha.as_str().as_bytes());
    hasher.write(ff.as_slice());
    hasher.write(inputs.head_sha.as_str().as_bytes());
    hasher.write(ff.as_slice());
    let n = inputs.status.len() as u64;
    let len_bytes = vstd::bytes::u64_to_le_bytes(n);
    hasher.write(len_bytes.as_slice());
    hasher.write(inputs.status.as_slice());
    assert(ff@ =~= seq![0xffu8]);
    assert(len_bytes@ == vstd::bytes::spec_u64_to_le_bytes(inputs@.status.len() as u64));
    assert(hasher@[0] == vstd::utf8::encode_utf8(inputs@.target_sha));
    assert(hasher@[1] == seq![0xffu8]);
    assert(hasher@ =~= fingerprint_writes(inputs@));
    fingerprint_hex(hasher.finish())
}

/// The fingerprint of the inputs gathered from a repository: 16
/// lowercase hexadecimal digits of `DefaultHasher` over
/// [`fingerprint_writes`].
pub open spec fn fingerprint_of(v: FingerprintInputsView) -> Seq<char> {
    hex_digits(DefaultHasher::spec_finish(fingerprint_writes(v)) as nat, 16)
}

/// A fingerprint is always 16 lowercase hexadecimal digits, and a
/// repository whose refs, HEAD and status are unchanged (equal inputs)
/// gets the same fingerprint again.
pub proof fn lemma_fingerprint_shape_and_stability(a: FingerprintInputsView, b: FingerprintInputsView)
    requires
        a == b,
    ensures
        fingerprint_of(a) == fingerprint_of(b),
        fingerprint_of(a).len() == 16,
        forall|i: int| 0 <= i < 16 ==> hex_alphabet().contains(#[trigger] fingerprint_of(a)[i]),
{
    lemma_hex_digits_shape(DefaultHasher::spec_finish(fingerprint_writes(a)) as nat, 16);
}

/// Different inputs give different byte writes: each of the object ids
/// of target, source and HEAD, and the status output, is recoverable from
/// what the fingerprint hashes. In particular inputs that differ only in
/// the target's object id are hashed differently.
pub proof fn lemma_fingerprint_writes_injective(a: FingerprintInputsView, b: FingerprintInputsView)
    requires
        fingerprint_writes(a) == fingerprint_writes(b),
    ensures
        a == b,
{
    broadcast use vstd::utf8::encode_utf8_decode_utf8;

    let wa = fingerprint_writes(a);
    let wb = fingerprint_writes(b);
    assert(wa[0] == wb[0]);
    assert(wa[2] == wb[2]);
    assert(wa[4] == wb[4]);
    assert(wa[7] == wb[7]);
    assert(vstd::utf8::decode_utf8(wa[0]) == a.target_sha);
    assert(vstd::utf8::decode_utf8(wb[0]) == b.target_sha);
    assert(vstd::utf8::decode_utf8(wa[2]) == a.source_sha);
    assert(vstd::utf8::decode_utf8(wb[2]) == b.source_sha);
    assert(vstd::utf8::decode_utf8(wa[4]) == a.head_sha);
    assert(vstd::utf8::decode_utf8(wb[4]) == b.head_sha);
}

} // verus!
