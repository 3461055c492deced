//! The diff summary of two branches, as a state machine.
//!
//! [`SummaryJob::start`] takes the request's parameters and
//! [`SummaryJob::step`] each reply. In order, the job
//! 1. checks for a merge or rebase in progress (a warning),
//! 2. normalizes `target`, then `source`, to fully-qualified refs,
//! 3. for the `staged`/`unstaged` scopes, falls back to `committed` (with a
//!    warning) unless `source` is the checked-out branch,
//! 4. finds the merge base in merge-base mode (none: an empty summary with
//!    a warning) and its short form,
//! 5. runs `git diff` for `--name-status`, `--numstat` (with `-w` when
//!    hiding whitespace) and `--raw`, merges the first two and marks
//!    submodules from the third,
//! 6. in the `unstaged` scope, adds up to [`UNTRACKED_LIMIT`] untracked
//!    files, counting the rest,
//! 7. totals the additions and deletions.

use vstd::prelude::*;

use crate::parse::{
    lemma_name_status_records_shape, lemma_numstat_records_shape, merge_entries, merged_files,
    name_status_records, nul_tokens, numstat_records, parse_name_status, parse_numstat,
};
use crate::process::GitOutput;
use crate::refs::{normalize_ref, normalize_step, ref_check_args, ref_check_args_spec, RefStep, RefStepView};
use crate::session::{
    git_subcommand, lemma_plain_safe, lemma_subcommand_literals, safe_git_args, safe_request,
    safe_step, Reply, ReplyKind, Request, RequestView, Step, StepView,
};
use crate::summary::{
    additions_total, assemble_summary, cap_untracked, check_diff_output, compute_merge_base,
    deletions_total, detect_in_progress_operation, diff_args, diff_args_spec, effective_scope,
    empty_summary, git_path_exists, hide_whitespace, in_progress_step, list_untracked_paths,
    mark_submodule_entries, merge_base_outcome, parse_raw_submodule_paths, raw_submodule_paths,
    scope_args_spec, scope_diff_args, scope_fallback_warning, short_sha, source_is_head,
    symbolic_ref_short, totals_fit, untracked_entry, untracked_entry_spec, with_submodule_status,
    InProgressStep, InProgressView, BINARY_SNIFF_BYTES, MAX_FILE_DIFF_BYTES, UNTRACKED_LIMIT,
};
use crate::text::trimmed_text;
use crate::types::{
    CompareMode, DiffFile, DiffFileView, DiffParams, DiffSummary, DiffSummaryView, SourceScope,
};

verus! {

/// Where a [`SummaryJob`] stands: what it waits for.
#[derive(Debug, Clone, Copy, PartialEq, Eq, Structural)]
pub enum SummaryStage {
    /// `git rev-parse --git-path <name>` of an in-progress marker.
    InProgressPath,
    /// Whether that marker exists.
    InProgressExists,
    /// A check normalizing `target`.
    Target,
    /// A check normalizing `source`.
    Source,
    /// `git symbolic-ref --quiet --short HEAD`.
    Head,
    /// `git merge-base --all <target> <source>`.
    MergeBase,
    /// `git rev-parse --short <merge base>`.
    ShortSha,
    /// `git diff --name-status`.
    NameStatus,
    /// `git diff --numstat`.
    Numstat,
    /// `git diff --raw`.
    Raw,
    /// `git ls-files --others --exclude-standard -z`.
    LsFiles,
    /// The size of the current untracked file.
    UntrackedSize,
    /// The content (or a prefix) of the current untracked file.
    UntrackedRead,
}

/// The state of one diff summary request.
pub struct SummaryJob {
    target_raw: String,
    source_raw: String,
    mode: CompareMode,
    requested: SourceScope,
    ignore_ws: bool,
    stage: SummaryStage,
    answers: Vec<bool>,
    target: String,
    source: String,
    scope: SourceScope,
    base_rev: String,
    merge_base: Option<String>,
    scope_args: Vec<String>,
    name_status: Vec<u8>,
    files: Vec<DiffFile>,
    untracked: Vec<String>,
    omitted: Option<u32>,
    index: usize,
    size: u64,
    warnings: Vec<String>,
}

/// Mathematical model of a [`SummaryJob`].
pub struct SummaryJobView {
    /// `target` and `source` as requested.
    pub target_raw: Seq<char>,
    pub source_raw: Seq<char>,
    pub mode: CompareMode,
    /// The scope asked for.
    pub requested: SourceScope,
    /// Whether whitespace-only changes are hidden.
    pub ignore_ws: bool,
    pub stage: SummaryStage,
    /// Answers to the checks of the detection or normalization under way.
    pub answers: Seq<bool>,
    /// `target` and `source` normalized.
    pub target: Seq<char>,
    pub source: Seq<char>,
    /// The scope in effect.
    pub scope: SourceScope,
    /// The merge base found.
    pub base_rev: Seq<char>,
    /// Its short form, reported in merge-base mode.
    pub merge_base: Option<Seq<char>>,
    /// The diff operands of the scope.
    pub scope_args: Seq<Seq<char>>,
    /// Output of the name-status run.
    pub name_status: Seq<u8>,
    /// The file list so far.
    pub files: Seq<DiffFileView>,
    /// The untracked paths kept.
    pub untracked: Seq<Seq<char>>,
    /// How many untracked paths were left out.
    pub omitted: Option<u32>,
    /// The untracked path being read.
    pub index: usize,
    /// Its size.
    pub size: u64,
    pub warnings: Seq<Seq<char>>,
}

impl View for SummaryJob {
    type V = SummaryJobView;

    closed spec fn view(&self) -> SummaryJobView {
        SummaryJobView {
            target_raw: self.target_raw@,
            source_raw: self.source_raw@,
            mode: self.mode,
            requested: self.requested,
            ignore_ws: self.ignore_ws,
            stage: self.stage,
            answers: self.answers@,
            target: self.target@,
            source: self.source@,
            scope: self.scope,
            base_rev: self.base_rev@,
            merge_base: self.merge_base.deep_view(),
            scope_args: self.scope_args.deep_view(),
            name_status: self.name_status@,
            files: self.files.deep_view(),
            untracked: self.untracked.deep_view(),
            omitted: self.omitted,
            index: self.index,
            size: self.size,
            warnings: self.warnings.deep_view(),
        }
    }
}

/// A transition: the job's next state and what it does next.
pub type SummaryMove = StepView<SummaryJobView, DiffSummaryView>;

// ---------------------------------------------------------------------------
// the transition function
/// The reply a job in this state waits for.
pub open spec fn summary_awaits(j: SummaryJobView) -> ReplyKind {
    match j.stage {
        SummaryStage::InProgressExists => ReplyKind::Exists,
        SummaryStage::UntrackedSize => ReplyKind::Size,
        SummaryStage::UntrackedRead => ReplyKind::Bytes,
        _ => ReplyKind::Git,
    }
}

/// No entry of `files` is an untracked file.
pub open spec fn no_untracked(files: Seq<DiffFileView>) -> bool {
    forall|k: int| 0 <= k < files.len() ==> (#[trigger] files[k]).is_untracked != Some(true)
}

/// What holds of a job throughout: no merge base is reported in tips mode;
/// the scope in effect is the one asked for or `committed`; and outside
/// the `unstaged` scope no untracked file is listed or counted.
pub open spec fn summary_inv(j: SummaryJobView) -> bool {
    &&& j.mode == CompareMode::Tips ==> j.merge_base is None
    &&& (j.scope == j.requested || j.scope == SourceScope::Committed)
    &&& j.scope != SourceScope::Unstaged ==> j.omitted is None && no_untracked(j.files)
}

/// The job's own invariant: [`summary_inv`]; HEAD is asked about only for
/// a working-tree scope; untracked files are listed only in the
/// `unstaged` scope, and one is read only while one is left.
pub open spec fn summary_wf(j: SummaryJobView) -> bool {
    &&& summary_inv(j)
    &&& j.stage == SummaryStage::Head ==> j.requested != SourceScope::Committed
    &&& (j.stage == SummaryStage::MergeBase || j.stage == SummaryStage::ShortSha) ==> j.mode
        == CompareMode::MergeBase
    &&& !(j.stage == SummaryStage::Raw || j.stage == SummaryStage::LsFiles || j.stage
        == SummaryStage::UntrackedSize || j.stage == SummaryStage::UntrackedRead) ==> j.files.len()
        == 0 && j.omitted is None
    &&& j.index <= j.untracked.len()
    &&& (j.stage == SummaryStage::LsFiles || j.stage == SummaryStage::UntrackedSize || j.stage
        == SummaryStage::UntrackedRead) ==> j.scope == SourceScope::Unstaged
    &&& (j.stage == SummaryStage::UntrackedSize || j.stage == SummaryStage::UntrackedRead) ==> j.index
        < j.untracked.len()
}

/// What every summary satisfies: no merge base in tips mode, and no
/// untracked file (listed or counted) unless the `unstaged` scope was
/// asked for.
pub open spec fn summary_law(mode: CompareMode, requested: SourceScope, s: DiffSummaryView) -> bool {
    &&& mode == CompareMode::Tips ==> s.merge_base is None
    &&& requested != SourceScope::Unstaged ==> s.omitted_untracked is None && no_untracked(s.files)
}

/// A transition that finishes with a summary gives one satisfying
/// [`summary_law`] for the job's mode and requested scope.
pub open spec fn law_kept(j: SummaryJobView, m: SummaryMove) -> bool {
    m matches StepView::Done(Ok(s)) ==> summary_law(j.mode, j.requested, s)
}

/// `j` waiting in `stage`.
pub open spec fn with_stage(j: SummaryJobView, stage: SummaryStage) -> SummaryJobView {
    SummaryJobView { stage: stage, ..j }
}

/// Ask for `r`, waiting in `stage`.
pub open spec fn ask(j: SummaryJobView, stage: SummaryStage, r: RequestView) -> SummaryMove {
    StepView::Ask(with_stage(j, stage), r)
}

/// Finish with the error `e`.
pub open spec fn fail(e: Seq<char>) -> SummaryMove {
    StepView::Done(Err(e))
}

/// `w` with `extra` appended, if any.
pub open spec fn push_warning(w: Seq<Seq<char>>, extra: Option<Seq<char>>) -> Seq<Seq<char>> {
    match extra {
        Some(t) => w.push(t),
        None => w,
    }
}

/// `git rev-parse --git-path <name>`.
pub open spec fn git_path_args(name: Seq<char>) -> Seq<Seq<char>> {
    seq!["rev-parse"@, "--git-path"@, name]
}

/// `git symbolic-ref --quiet --short HEAD`.
pub open spec fn symbolic_ref_args() -> Seq<Seq<char>> {
    seq!["symbolic-ref"@, "--quiet"@, "--short"@, "HEAD"@]
}

/// `git merge-base --all <target> <source>`.
pub open spec fn merge_base_args(target: Seq<char>, source: Seq<char>) -> Seq<Seq<char>> {
    seq!["merge-base"@, "--all"@, target, source]
}

/// `git rev-parse --short <sha>`.
pub open spec fn short_sha_args(sha: Seq<char>) -> Seq<Seq<char>> {
    seq!["rev-parse"@, "--short"@, sha]
}

/// `git ls-files --others --exclude-standard -z`.
pub open spec fn ls_files_args() -> Seq<Seq<char>> {
    seq!["ls-files"@, "--others"@, "--exclude-standard"@, "-z"@]
}

/// The error of a failed `git diff` run.
pub open spec fn diff_failure(stat_flag: Seq<char>, out: GitOutput) -> Seq<char> {
    "git diff "@ + stat_flag + " failed: "@ + trimmed_text(out.stderr@)
}

/// The error for line totals beyond 64 bits.
pub open spec fn totals_overflow_text() -> Seq<char> {
    "diff line totals do not fit in a 64-bit integer"@
}

/// The summary of the files gathered.
pub open spec fn summary_of(j: SummaryJobView) -> DiffSummaryView {
    DiffSummaryView {
        files: j.files,
        files_changed: j.files.len() as usize,
        additions: additions_total(j.files) as i64,
        deletions: deletions_total(j.files) as i64,
        omitted_untracked: j.omitted,
        warnings: j.warnings,
        merge_base: j.merge_base,
    }
}

/// The summary of branches with no merge base: no files.
pub open spec fn empty_summary_of(warnings: Seq<Seq<char>>) -> DiffSummaryView {
    DiffSummaryView {
        files: seq![],
        files_changed: 0,
        additions: 0,
        deletions: 0,
        omitted_untracked: None,
        warnings: warnings,
        merge_base: None,
    }
}

/// Finish with the summary of the files gathered, when its totals fit.
pub open spec fn finish(j: SummaryJobView) -> SummaryMove {
    if totals_fit(j.files) {
        StepView::Done(Ok(summary_of(j)))
    } else {
        fail(totals_overflow_text())
    }
}

/// The untracked paths kept: the first [`UNTRACKED_LIMIT`].
pub open spec fn kept_untracked(all: Seq<Seq<char>>) -> Seq<Seq<char>> {
    if all.len() <= UNTRACKED_LIMIT {
        all
    } else {
        all.take(UNTRACKED_LIMIT as int)
    }
}

/// How many untracked paths are left out, if any.
pub open spec fn omitted_untracked(all: Seq<Seq<char>>) -> Option<u32> {
    if all.len() <= UNTRACKED_LIMIT {
        None
    } else {
        Some((all.len() - UNTRACKED_LIMIT) as u32)
    }
}

/// Measure the next untracked file, or finish.
pub open spec fn untracked_next(j: SummaryJobView) -> SummaryMove {
    if j.index < j.untracked.len() {
        ask(j, SummaryStage::UntrackedSize, RequestView::FileSize(j.untracked[j.index as int]))
    } else {
        finish(j)
    }
}

/// List the untracked files in the `unstaged` scope, else finish.
pub open spec fn after_raw(j: SummaryJobView) -> SummaryMove {
    if j.scope == SourceScope::Unstaged {
        ask(j, SummaryStage::LsFiles, RequestView::Git(ls_files_args()))
    } else {
        finish(j)
    }
}

/// Run `git diff --name-status` against `base`, reporting `mb` as the merge base.
pub open spec fn base_ready(j: SummaryJobView, base: Seq<char>, mb: Option<Seq<char>>) -> SummaryMove {
    let sa = scope_args_spec(j.scope, base, j.source);
    ask(
        SummaryJobView { scope_args: sa, merge_base: mb, ..j },
        SummaryStage::NameStatus,
        RequestView::Git(diff_args_spec("--name-status"@, sa, false)),
    )
}

/// With the scope fixed: find the merge base, or in tips mode diff against the target.
pub open spec fn scope_fixed(j: SummaryJobView) -> SummaryMove {
    match j.mode {
        CompareMode::MergeBase => ask(
            j,
            SummaryStage::MergeBase,
            RequestView::Git(merge_base_args(j.target, j.source)),
        ),
        CompareMode::Tips => base_ready(j, j.target, None),
    }
}

/// The checked-out branch is `current`: keep the scope asked for or fall back to `committed`.
pub open spec fn head_answered(j: SummaryJobView, current: Option<Seq<char>>) -> SummaryMove {
    if source_is_head(j.source, current) {
        scope_fixed(SummaryJobView { scope: j.requested, ..j })
    } else {
        scope_fixed(
            SummaryJobView {
                scope: SourceScope::Committed,
                warnings: j.warnings.push(scope_fallback_warning(j.source_raw, current)),
                ..j
            },
        )
    }
}

/// With both refs normalized: ask for HEAD unless the scope is `committed`.
pub open spec fn after_source(j: SummaryJobView) -> SummaryMove {
    if j.requested == SourceScope::Committed {
        scope_fixed(SummaryJobView { scope: SourceScope::Committed, ..j })
    } else {
        ask(j, SummaryStage::Head, RequestView::Git(symbolic_ref_args()))
    }
}

/// The next check normalizing `source`, or its outcome.
pub open spec fn source_next(j: SummaryJobView) -> SummaryMove {
    match normalize_step(j.source_raw, j.answers) {
        RefStepView::Done(Err(e)) => fail(e),
        RefStepView::Done(Ok(s)) => after_source(SummaryJobView { source: s, answers: seq![], ..j }),
        step => ask(j, SummaryStage::Source, RequestView::Git(ref_check_args_spec(step))),
    }
}

/// The next check normalizing `target`, or its outcome.
pub open spec fn target_next(j: SummaryJobView) -> SummaryMove {
    match normalize_step(j.target_raw, j.answers) {
        RefStepView::Done(Err(e)) => fail(e),
        RefStepView::Done(Ok(t)) => source_next(SummaryJobView { target: t, answers: seq![], ..j }),
        step => ask(j, SummaryStage::Target, RequestView::Git(ref_check_args_spec(step))),
    }
}

/// The next in-progress marker to check, or on to `target` with the warning.
pub open spec fn in_progress_next(j: SummaryJobView) -> SummaryMove {
    match in_progress_step(j.answers) {
        InProgressView::CheckPath(name) => ask(
            j,
            SummaryStage::InProgressPath,
            RequestView::Git(git_path_args(name)),
        ),
        InProgressView::Done(w) => target_next(
            SummaryJobView { warnings: push_warning(j.warnings, w), answers: seq![], ..j },
        ),
    }
}

/// The merge base: an error, none (an empty summary) or its short form next.
pub open spec fn merge_base_answered(j: SummaryJobView, out: GitOutput) -> SummaryMove {
    let (r, w) = merge_base_outcome(out);
    let j2 = SummaryJobView { warnings: push_warning(j.warnings, w), ..j };
    match r {
        Err(e) => fail(e),
        Ok(None) => StepView::Done(Ok(empty_summary_of(j2.warnings))),
        Ok(Some(b)) => ask(
            SummaryJobView { base_rev: b, ..j2 },
            SummaryStage::ShortSha,
            RequestView::Git(short_sha_args(b)),
        ),
    }
}

/// The merge base's short form: on to the diffs.
pub open spec fn short_sha_answered(j: SummaryJobView, out: GitOutput) -> SummaryMove {
    if out.success {
        base_ready(j, j.base_rev, Some(trimmed_text(out.stdout@)))
    } else {
        fail("failed to abbreviate '"@ + j.base_rev + "': "@ + trimmed_text(out.stderr@))
    }
}

/// The name-status output: run `--numstat` next.
pub open spec fn name_status_answered(j: SummaryJobView, out: GitOutput) -> SummaryMove {
    if !out.success {
        fail(diff_failure("--name-status"@, out))
    } else {
        ask(
            SummaryJobView { name_status: out.stdout@, ..j },
            SummaryStage::Numstat,
            RequestView::Git(diff_args_spec("--numstat"@, j.scope_args, j.ignore_ws)),
        )
    }
}

/// The numstat output: parse both, merge them, run `--raw` next.
pub open spec fn numstat_answered(j: SummaryJobView, out: GitOutput) -> SummaryMove {
    if !out.success {
        fail(diff_failure("--numstat"@, out))
    } else {
        match name_status_records(nul_tokens(j.name_status)) {
            Err(e) => fail(e),
            Ok(ns) => match numstat_records(nul_tokens(out.stdout@)) {
                Err(e) => fail(e),
                Ok(nu) => match merged_files(ns, nu, j.ignore_ws) {
                    Err(e) => fail(e),
                    Ok(files) => ask(
                        SummaryJobView { files: files, ..j },
                        SummaryStage::Raw,
                        RequestView::Git(diff_args_spec("--raw"@, j.scope_args, false)),
                    ),
                },
            },
        }
    }
}

/// `files` with the entries at submodule paths reclassified.
pub open spec fn marked_files(files: Seq<DiffFileView>, paths: Seq<Seq<char>>) -> Seq<DiffFileView> {
    Seq::new(files.len(), |k: int| with_submodule_status(files[k], paths))
}

/// The raw output: mark the submodule entries.
pub open spec fn raw_answered(j: SummaryJobView, out: GitOutput) -> SummaryMove {
    if !out.success {
        fail(diff_failure("--raw"@, out))
    } else {
        match raw_submodule_paths(nul_tokens(out.stdout@)) {
            Err(e) => fail(e),
            Ok(paths) => after_raw(SummaryJobView { files: marked_files(j.files, paths), ..j }),
        }
    }
}

/// The untracked paths: keep the first ones, count the rest.
pub open spec fn ls_files_answered(j: SummaryJobView, out: GitOutput) -> SummaryMove {
    if !out.success {
        fail("git ls-files failed: "@ + trimmed_text(out.stderr@))
    } else {
        let all = nul_tokens(out.stdout@);
        untracked_next(
            SummaryJobView {
                untracked: kept_untracked(all),
                omitted: omitted_untracked(all),
                index: 0,
                ..j
            },
        )
    }
}

/// The size of the untracked file: read it whole, or only sniff an oversized one.
pub open spec fn size_answered(j: SummaryJobView, r: Result<u64, String>) -> SummaryMove {
    let rel = j.untracked[j.index as int];
    match r {
        Err(e) => fail("failed to stat untracked file '"@ + rel + "': "@ + e@),
        Ok(n) => ask(
            SummaryJobView { size: n, ..j },
            SummaryStage::UntrackedRead,
            if n > MAX_FILE_DIFF_BYTES {
                RequestView::ReadPrefix(rel, BINARY_SNIFF_BYTES)
            } else {
                RequestView::ReadFile(rel)
            },
        ),
    }
}

/// The content of the untracked file: add its entry.
pub open spec fn read_answered(j: SummaryJobView, r: Result<Vec<u8>, String>) -> SummaryMove {
    let rel = j.untracked[j.index as int];
    match r {
        Err(e) => fail(
            if j.size > MAX_FILE_DIFF_BYTES {
                e@
            } else {
                "failed to read untracked file '"@ + rel + "': "@ + e@
            },
        ),
        Ok(b) => untracked_next(
            SummaryJobView {
                files: j.files.push(untracked_entry_spec(rel, j.size, b@)),
                index: (j.index + 1) as usize,
                ..j
            },
        ),
    }
}

/// The transition of a job on one reply.
pub open spec fn summary_next(j: SummaryJobView, reply: Reply) -> SummaryMove {
    match reply {
        Reply::Git(Err(e)) => fail(e@),
        Reply::Git(Ok(out)) => match j.stage {
            SummaryStage::InProgressPath => if out.success {
                ask(
                    j,
                    SummaryStage::InProgressExists,
                    RequestView::Exists(trimmed_text(out.stdout@)),
                )
            } else {
                in_progress_next(SummaryJobView { answers: j.answers.push(false), ..j })
            },
            SummaryStage::Target => target_next(
                SummaryJobView { answers: j.answers.push(out.success), ..j },
            ),
            SummaryStage::Source => source_next(
                SummaryJobView { answers: j.answers.push(out.success), ..j },
            ),
            SummaryStage::Head => head_answered(
                j,
                if out.success {
                    Some(trimmed_text(out.stdout@))
                } else {
                    None
                },
            ),
            SummaryStage::MergeBase => merge_base_answered(j, out),
            SummaryStage::ShortSha => short_sha_answered(j, out),
            SummaryStage::NameStatus => name_status_answered(j, out),
            SummaryStage::Numstat => numstat_answered(j, out),
            SummaryStage::Raw => raw_answered(j, out),
            SummaryStage::LsFiles => ls_files_answered(j, out),
            _ => fail(seq![]),
        },
        Reply::Exists(b) => in_progress_next(SummaryJobView { answers: j.answers.push(b), ..j }),
        Reply::Size(r) => size_answered(j, r),
        Reply::Bytes(r) => read_answered(j, r),
        _ => fail(seq![]),
    }
}

/// The first transition: from the request's parameters.
pub open spec fn summary_start(
    target: Seq<char>,
    source: Seq<char>,
    mode: CompareMode,
    scope: SourceScope,
    ignore_ws: bool,
) -> SummaryMove {
    in_progress_next(
        SummaryJobView {
            target_raw: target,
            source_raw: source,
            mode: mode,
            requested: scope,
            ignore_ws: ignore_ws,
            stage: SummaryStage::InProgressPath,
            answers: seq![],
            target: seq![],
            source: seq![],
            scope: scope,
            base_rev: seq![],
            merge_base: None,
            scope_args: seq![],
            name_status: seq![],
            files: seq![],
            untracked: seq![],
            omitted: None,
            index: 0,
            size: 0,
            warnings: seq![],
        },
    )
}


// ---------------------------------------------------------------------------
// safety of the requests
/// A transition that asks for work leaves a well-formed job waiting for
/// the reply to a read-only request.
pub open spec fn good_move(m: SummaryMove) -> bool {
    match m {
        StepView::Ask(j, r) => summary_wf(j) && summary_awaits(j) == r.reply_kind() && safe_request(r),
        StepView::Done(_) => true,
    }
}

/// Every `git diff` run by the summary is read-only and ends with `--`.
pub proof fn lemma_diff_args_safe(stat_flag: Seq<char>, scope_args: Seq<Seq<char>>, ignore_ws: bool)
    ensures
        safe_git_args(diff_args_spec(stat_flag, scope_args, ignore_ws)),
{
    lemma_subcommand_literals();
    let a = diff_args_spec(stat_flag, scope_args, ignore_ws);
    assert(a[0] == "-c"@ && a[2] == "-c"@ && a[4] == "diff"@);
    let a2 = a.skip(2);
    let a4 = a2.skip(2);
    assert(a2[0] == "-c"@);
    assert(a4[0] == "diff"@);
    assert(git_subcommand(a4) == a4[0]);
    assert(git_subcommand(a2) == git_subcommand(a4));
    assert(git_subcommand(a) == git_subcommand(a2));
    assert(a.last() == "--"@);
}

proof fn lemma_ref_check_args_safe(step: RefStepView)
    requires
        step is CheckFormat || step is CheckExists,
    ensures
        safe_git_args(ref_check_args_spec(step)),
{
    lemma_subcommand_literals();
    lemma_plain_safe(ref_check_args_spec(step));
}

proof fn lemma_fixed_args_safe(name: Seq<char>, t: Seq<char>, s: Seq<char>)
    ensures
        safe_git_args(git_path_args(name)),
        safe_git_args(symbolic_ref_args()),
        safe_git_args(merge_base_args(t, s)),
        safe_git_args(short_sha_args(name)),
        safe_git_args(ls_files_args()),
{
    lemma_subcommand_literals();
    lemma_plain_safe(git_path_args(name));
    lemma_plain_safe(symbolic_ref_args());
    lemma_plain_safe(merge_base_args(t, s));
    lemma_plain_safe(short_sha_args(name));
    lemma_plain_safe(ls_files_args());
}

proof fn lemma_all_args_safe()
    ensures
        forall|name: Seq<char>| #[trigger] safe_git_args(git_path_args(name)),
        forall|t: Seq<char>, s: Seq<char>| #[trigger] safe_git_args(merge_base_args(t, s)),
        forall|sha: Seq<char>| #[trigger] safe_git_args(short_sha_args(sha)),
        forall|f: Seq<char>, sa: Seq<Seq<char>>, w: bool| #[trigger] safe_git_args(
            diff_args_spec(f, sa, w),
        ),
        forall|step: RefStepView|
            (step is CheckFormat || step is CheckExists) ==> #[trigger] safe_git_args(
                ref_check_args_spec(step),
            ),
        safe_git_args(symbolic_ref_args()),
        safe_git_args(ls_files_args()),
{
    assert forall|name: Seq<char>| #[trigger] safe_git_args(git_path_args(name)) by {
        lemma_fixed_args_safe(name, seq![], seq![]);
    }
    assert forall|t: Seq<char>, s: Seq<char>| #[trigger] safe_git_args(merge_base_args(t, s)) by {
        lemma_fixed_args_safe(seq![], t, s);
    }
    assert forall|sha: Seq<char>| #[trigger] safe_git_args(short_sha_args(sha)) by {
        lemma_fixed_args_safe(sha, seq![], seq![]);
    }
    assert forall|f: Seq<char>, sa: Seq<Seq<char>>, w: bool| #[trigger] safe_git_args(
        diff_args_spec(f, sa, w),
    ) by {
        lemma_diff_args_safe(f, sa, w);
    }
    assert forall|step: RefStepView|
        (step is CheckFormat || step is CheckExists) implies #[trigger] safe_git_args(
            ref_check_args_spec(step),
        ) by {
        lemma_ref_check_args_safe(step);
    }
    lemma_fixed_args_safe(seq![], seq![], seq![]);
}

proof fn lemma_scope_fixed_safe(j: SummaryJobView)
    ensures
        safe_step(scope_fixed(j)),
{
    lemma_all_args_safe();
}

proof fn lemma_source_next_safe(j: SummaryJobView)
    ensures
        safe_step(source_next(j)),
{
    lemma_all_args_safe();
    if let RefStepView::Done(Ok(s)) = normalize_step(j.source_raw, j.answers) {
        let j2 = SummaryJobView { source: s, answers: seq![], ..j };
        lemma_scope_fixed_safe(SummaryJobView { scope: SourceScope::Committed, ..j2 });
    }
}

proof fn lemma_target_next_safe(j: SummaryJobView)
    ensures
        safe_step(target_next(j)),
{
    lemma_all_args_safe();
    if let RefStepView::Done(Ok(t)) = normalize_step(j.target_raw, j.answers) {
        lemma_source_next_safe(SummaryJobView { target: t, answers: seq![], ..j });
    }
}

proof fn lemma_in_progress_next_safe(j: SummaryJobView)
    ensures
        safe_step(in_progress_next(j)),
{
    lemma_all_args_safe();
    if let InProgressView::Done(w) = in_progress_step(j.answers) {
        lemma_target_next_safe(
            SummaryJobView { warnings: push_warning(j.warnings, w), answers: seq![], ..j },
        );
    }
}

/// Every transition asks only for read-only work, whatever the reply and
/// whatever state the job is in.
pub proof fn lemma_summary_next_safe(j: SummaryJobView, reply: Reply)
    ensures
        safe_step(summary_next(j, reply)),
{
    lemma_all_args_safe();
    match reply {
        Reply::Git(Ok(out)) => {
            if j.stage == SummaryStage::InProgressPath && !out.success {
                lemma_in_progress_next_safe(SummaryJobView { answers: j.answers.push(false), ..j });
            } else if j.stage == SummaryStage::Target {
                lemma_target_next_safe(SummaryJobView { answers: j.answers.push(out.success), ..j });
            } else if j.stage == SummaryStage::Source {
                lemma_source_next_safe(SummaryJobView { answers: j.answers.push(out.success), ..j });
            } else if j.stage == SummaryStage::Head {
                let cur = if out.success {
                    Some(trimmed_text(out.stdout@))
                } else {
                    None
                };
                lemma_scope_fixed_safe(SummaryJobView { scope: j.requested, ..j });
                lemma_scope_fixed_safe(
                    SummaryJobView {
                        scope: SourceScope::Committed,
                        warnings: j.warnings.push(scope_fallback_warning(j.source_raw, cur)),
                        ..j
                    },
                );
            }
        },
        Reply::Exists(b) => {
            lemma_in_progress_next_safe(SummaryJobView { answers: j.answers.push(b), ..j });
        },
        _ => {},
    }
}

/// The first transition asks only for read-only work.
pub proof fn lemma_summary_start_safe(
    target: Seq<char>,
    source: Seq<char>,
    mode: CompareMode,
    scope: SourceScope,
    ignore_ws: bool,
)
    ensures
        safe_step(summary_start(target, source, mode, scope, ignore_ws)),
{
    lemma_all_args_safe();
    let j = SummaryJobView {
        target_raw: target,
        source_raw: source,
        mode: mode,
        requested: scope,
        ignore_ws: ignore_ws,
        stage: SummaryStage::InProgressPath,
        answers: seq![],
        target: seq![],
        source: seq![],
        scope: scope,
        base_rev: seq![],
        merge_base: None,
        scope_args: seq![],
        name_status: seq![],
        files: seq![],
        untracked: seq![],
        omitted: None,
        index: 0,
        size: 0,
        warnings: seq![],
    };
    lemma_in_progress_next_safe(j);
}

// ---------------------------------------------------------------------------
// the executable machine
/// Whether every running total of the additions and deletions of `files`
/// fits in an `i64`.
#[verifier::spinoff_prover]
fn totals_within_range(files: &Vec<DiffFile>) -> (res: bool)
    ensures
        res == totals_fit(files.deep_view()),
{
    let ghost fv = files.deep_view();
    let mut a: i64 = 0;
    let mut d: i64 = 0;
    let mut i: usize = 0;
    assert(fv.take(0) =~= Seq::<DiffFileView>::empty());
    while i < files.len()
        invariant
            fv == files.deep_view(),
            i <= files@.len(),
            a == additions_total(fv.take(i as int)),
            d == deletions_total(fv.take(i as int)),
            forall|k: int|
                0 <= k <= i ==> i64::MIN <= #[trigger] additions_total(fv.take(k)) <= i64::MAX
                    && i64::MIN <= deletions_total(fv.take(k)) <= i64::MAX,
        decreases files.len() - i,
    {
        let ghost next = fv.take(i + 1);
        assert(next.drop_last() =~= fv.take(i as int));
        assert(next.last() == files@[i as int]@);
        let x = match files[i].additions {
            Some(v) => v,
            None => 0,
        };
        let y = match files[i].deletions {
            Some(v) => v,
            None => 0,
        };
        assert(additions_total(next) == additions_total(fv.take(i as int)) + x);
        assert(deletions_total(next) == deletions_total(fv.take(i as int)) + y);
        match (a.checked_add(x), d.checked_add(y)) {
            (Some(a2), Some(d2)) => {
                a = a2;
                d = d2;
                assert(i64::MIN <= additions_total(fv.take(i + 1)) <= i64::MAX && i64::MIN
                    <= deletions_total(fv.take(i + 1)) <= i64::MAX);
            },
            _ => {
                assert(!(i64::MIN <= additions_total(next) <= i64::MAX && i64::MIN <= deletions_total(
                    next,
                ) <= i64::MAX));
                return false;
            },
        }
        i += 1;
    }
    true
}

impl SummaryJob {
    fn into_ask(self, stage: SummaryStage, r: Request) -> (res: Step<SummaryJob, DiffSummary>)
        requires
            summary_wf(with_stage(self@, stage)),
            summary_awaits(with_stage(self@, stage)) == r@.reply_kind(),
            safe_request(r@),
        ensures
            res@ == ask(self@, stage, r@),
            good_move(res@),
    {
        let mut j = self;
        j.stage = stage;
        Step::Ask(j, r)
    }

    fn finish_exec(self) -> (res: Step<SummaryJob, DiffSummary>)
        requires
            summary_inv(self@),
        ensures
            res@ == finish(self@),
            good_move(res@),
            law_kept(self@, res@),
    {
        let ghost j0 = self@;
        if totals_within_range(&self.files) {
            let SummaryJob { files, omitted, warnings, merge_base, .. } = self;
            let ghost fv = files.deep_view();
            proof {
                assert(fv.take(fv.len() as int) =~= fv);
                assert(i64::MIN <= additions_total(fv.take(fv.len() as int)) <= i64::MAX);
            }
            let s = assemble_summary(files, omitted, warnings, merge_base);
            assert(s@ == summary_of(j0));
            Step::Done(Ok(s))
        } else {
            Step::Done(Err(String::from_str("diff line totals do not fit in a 64-bit integer")))
        }
    }

    fn untracked_next_exec(self) -> (res: Step<SummaryJob, DiffSummary>)
        requires
            summary_inv(self@),
            self@.scope == SourceScope::Unstaged,
            self@.index <= self@.untracked.len(),
        ensures
            res@ == untracked_next(self@),
            good_move(res@),
            law_kept(self@, res@),
    {
        if self.index < self.untracked.len() {
            let p = self.untracked[self.index].clone();
            assert(p@ == self@.untracked[self.index as int]);
            self.into_ask(SummaryStage::UntrackedSize, Request::FileSize(p))
        } else {
            self.finish_exec()
        }
    }

    fn after_raw_exec(self) -> (res: Step<SummaryJob, DiffSummary>)
        requires
            summary_wf(self@),
        ensures
            res@ == after_raw(self@),
            good_move(res@),
            law_kept(self@, res@),
    {
        if self.scope == SourceScope::Unstaged {
            let args = vec![
                String::from_str("ls-files"),
                String::from_str("--others"),
                String::from_str("--exclude-standard"),
                String::from_str("-z"),
            ];
            proof {
                assert(args.deep_view() =~= ls_files_args());
                lemma_fixed_args_safe(seq![], seq![], seq![]);
            }
            self.into_ask(SummaryStage::LsFiles, Request::Git(args))
        } else {
            self.finish_exec()
        }
    }

    fn base_ready_exec(self, base: String, mb: Option<String>) -> (res: Step<SummaryJob, DiffSummary>)
        requires
            self@.mode == CompareMode::Tips ==> mb is None,
            self@.files.len() == 0,
            self@.omitted is None,
            summary_wf(self@),
        ensures
            res@ == base_ready(self@, base@, mb.deep_view()),
            good_move(res@),
            law_kept(self@, res@),
    {
        let ghost j0 = self@;
        let ghost mbv = mb.deep_view();
        let sa = scope_diff_args(self.scope, base.as_str(), self.source.as_str());
        let args = diff_args("--name-status", &sa, false);
        let mut j = self;
        j.scope_args = sa;
        j.merge_base = mb;
        proof {
            lemma_diff_args_safe("--name-status"@, sa.deep_view(), false);
            assert(j@ == SummaryJobView { scope_args: sa.deep_view(), merge_base: mbv, ..j0 });
        }
        j.into_ask(SummaryStage::NameStatus, Request::Git(args))
    }

    fn scope_fixed_exec(self) -> (res: Step<SummaryJob, DiffSummary>)
        requires
            self@.files.len() == 0,
            self@.omitted is None,
            summary_wf(self@),
        ensures
            res@ == scope_fixed(self@),
            good_move(res@),
            law_kept(self@, res@),
    {
        match self.mode {
            CompareMode::MergeBase => {
                let args = vec![
                    String::from_str("merge-base"),
                    String::from_str("--all"),
                    self.target.clone(),
                    self.source.clone(),
                ];
                proof {
                    assert(args.deep_view() =~= merge_base_args(self@.target, self@.source));
                    lemma_fixed_args_safe(seq![], self@.target, self@.source);
                }
                self.into_ask(SummaryStage::MergeBase, Request::Git(args))
            },
            CompareMode::Tips => {
                let t = self.target.clone();
                self.base_ready_exec(t, None)
            },
        }
    }

    fn head_answered_exec(self, current: Option<String>) -> (res: Step<SummaryJob, DiffSummary>)
        requires
            self@.files.len() == 0,
            self@.omitted is None,
            summary_wf(self@),
            self@.stage == SummaryStage::Head,
            self@.requested != SourceScope::Committed,
        ensures
            res@ == head_answered(self@, current.deep_view()),
            good_move(res@),
            law_kept(self@, res@),
    {
        let ghost j0 = self@;
        let ghost cv = current.deep_view();
        let (scope, w) = effective_scope(
            self.requested,
            self.source.as_str(),
            self.source_raw.as_str(),
            current,
        );
        let ghost wv = w.deep_view();
        let mut j = self;
        j.scope = scope;
        match w {
            Some(t) => {
                j.warnings.push(t);
            },
            None => {},
        }
        proof {
            if source_is_head(j0.source, cv) {
                assert(j@ == SummaryJobView { scope: j0.requested, ..j0 });
            } else {
                assert(j@.warnings =~= j0.warnings.push(scope_fallback_warning(j0.source_raw, cv)));
                assert(j@ == SummaryJobView {
                    scope: SourceScope::Committed,
                    warnings: j0.warnings.push(scope_fallback_warning(j0.source_raw, cv)),
                    ..j0
                });
            }
        }
        j.scope_fixed_exec()
    }

    fn after_source_exec(self) -> (res: Step<SummaryJob, DiffSummary>)
        requires
            self@.files.len() == 0,
            self@.omitted is None,
            summary_wf(self@),
        ensures
            res@ == after_source(self@),
            good_move(res@),
            law_kept(self@, res@),
    {
        if self.requested == SourceScope::Committed {
            let mut j = self;
            j.scope = SourceScope::Committed;
            j.scope_fixed_exec()
        } else {
            let args = vec![
                String::from_str("symbolic-ref"),
                String::from_str("--quiet"),
                String::from_str("--short"),
                String::from_str("HEAD"),
            ];
            proof {
                assert(args.deep_view() =~= symbolic_ref_args());
                lemma_fixed_args_safe(seq![], seq![], seq![]);
            }
            self.into_ask(SummaryStage::Head, Request::Git(args))
        }
    }

    fn source_next_exec(self) -> (res: Step<SummaryJob, DiffSummary>)
        requires
            self@.files.len() == 0,
            self@.omitted is None,
            summary_wf(self@),
        ensures
            res@ == source_next(self@),
            good_move(res@),
            law_kept(self@, res@),
    {
        let ghost j0 = self@;
        let step = normalize_ref(self.source_raw.as_str(), self.answers.as_slice());
        let ghost sv = step@;
        match step {
            RefStep::Done(Err(e)) => Step::Done(Err(e)),
            RefStep::Done(Ok(s)) => {
                let ghost s_v = s@;
                let mut j = self;
                j.source = s;
                j.answers = Vec::new();
                assert(j@ == SummaryJobView { source: s_v, answers: seq![], ..j0 });
                j.after_source_exec()
            },
            RefStep::Check(c) => {
                let args = ref_check_args(&c);
                proof {
                    lemma_ref_check_args_safe(sv);
                }
                self.into_ask(SummaryStage::Source, Request::Git(args))
            },
        }
    }

    fn target_next_exec(self) -> (res: Step<SummaryJob, DiffSummary>)
        requires
            self@.files.len() == 0,
            self@.omitted is None,
            summary_wf(self@),
        ensures
            res@ == target_next(self@),
            good_move(res@),
            law_kept(self@, res@),
    {
        let ghost j0 = self@;
        let step = normalize_ref(self.target_raw.as_str(), self.answers.as_slice());
        let ghost sv = step@;
        match step {
            RefStep::Done(Err(e)) => Step::Done(Err(e)),
            RefStep::Done(Ok(t)) => {
                let ghost t_v = t@;
                let mut j = self;
                j.target = t;
                j.answers = Vec::new();
                assert(j@ == SummaryJobView { target: t_v, answers: seq![], ..j0 });
                j.source_next_exec()
            },
            RefStep::Check(c) => {
                let args = ref_check_args(&c);
                proof {
                    lemma_ref_check_args_safe(sv);
                }
                self.into_ask(SummaryStage::Target, Request::Git(args))
            },
        }
    }

    fn in_progress_next_exec(self) -> (res: Step<SummaryJob, DiffSummary>)
        requires
            self@.files.len() == 0,
            self@.omitted is None,
            summary_wf(self@),
        ensures
            res@ == in_progress_next(self@),
            good_move(res@),
            law_kept(self@, res@),
    {
        let ghost j0 = self@;
        let step = detect_in_progress_operation(self.answers.as_slice());
        let ghost sv = step@;
        match step {
            InProgressStep::CheckPath(name) => {
                let ghost nv = name@;
                let args = vec![String::from_str("rev-parse"), String::from_str("--git-path"), name];
                proof {
                    assert(args.deep_view() =~= git_path_args(nv));
                    lemma_fixed_args_safe(nv, seq![], seq![]);
                }
                self.into_ask(SummaryStage::InProgressPath, Request::Git(args))
            },
            InProgressStep::Done(w) => {
                let ghost wv = w.deep_view();
                let mut j = self;
                match w {
                    Some(t) => {
                        j.warnings.push(t);
                    },
                    None => {},
                }
                j.answers = Vec::new();
                proof {
                    assert(j@.warnings =~= push_warning(j0.warnings, wv));
                    assert(j@ == SummaryJobView {
                        warnings: push_warning(j0.warnings, wv),
                        answers: seq![],
                        ..j0
                    });
                }
                j.target_next_exec()
            },
        }
    }

    fn merge_base_answered_exec(self, out: GitOutput) -> (res: Step<SummaryJob, DiffSummary>)
        requires
            self@.stage == SummaryStage::MergeBase,
            self@.files.len() == 0,
            self@.omitted is None,
            summary_wf(self@),
        ensures
            res@ == merge_base_answered(self@, out),
            good_move(res@),
            law_kept(self@, res@),
    {
        let ghost j0 = self@;
        let mut j = self;
        let r = compute_merge_base(&out, &mut j.warnings);
        let ghost j2 = SummaryJobView {
            warnings: push_warning(j0.warnings, merge_base_outcome(out).1),
            ..j0
        };
        assert(j@ == j2);
        match r {
            Err(e) => Step::Done(Err(e)),
            Ok(None) => {
                let s = empty_summary(j.warnings);
                assert(s.files.deep_view() =~= Seq::<DiffFileView>::empty());
                Step::Done(Ok(s))
            },
            Ok(Some(b)) => {
                let ghost bv = b@;
                let args = vec![String::from_str("rev-parse"), String::from_str("--short"), b.clone()];
                j.base_rev = b;
                proof {
                    assert(args.deep_view() =~= short_sha_args(bv));
                    lemma_fixed_args_safe(bv, seq![], seq![]);
                    assert(j@ == SummaryJobView { base_rev: bv, ..j2 });
                }
                j.into_ask(SummaryStage::ShortSha, Request::Git(args))
            },
        }
    }

    fn short_sha_answered_exec(self, out: GitOutput) -> (res: Step<SummaryJob, DiffSummary>)
        requires
            self@.stage == SummaryStage::ShortSha,
            self@.files.len() == 0,
            self@.omitted is None,
            summary_wf(self@),
        ensures
            res@ == short_sha_answered(self@, out),
            good_move(res@),
            law_kept(self@, res@),
    {
        match short_sha(&out, self.base_rev.as_str()) {
            Ok(short) => {
                let b = self.base_rev.clone();
                self.base_ready_exec(b, Some(short))
            },
            Err(e) => Step::Done(Err(e)),
        }
    }

    fn name_status_answered_exec(self, out: GitOutput) -> (res: Step<SummaryJob, DiffSummary>)
        requires
            self@.files.len() == 0,
            self@.omitted is None,
            summary_wf(self@),
        ensures
            res@ == name_status_answered(self@, out),
            good_move(res@),
            law_kept(self@, res@),
    {
        let ghost j0 = self@;
        match check_diff_output(&out, "--name-status") {
            Err(e) => Step::Done(Err(e)),
            Ok(()) => {
                let args = diff_args("--numstat", &self.scope_args, self.ignore_ws);
                let mut j = self;
                j.name_status = out.stdout;
                proof {
                    lemma_diff_args_safe("--numstat"@, j0.scope_args, j0.ignore_ws);
                    assert(j@ == SummaryJobView { name_status: out.stdout@, ..j0 });
                }
                j.into_ask(SummaryStage::Numstat, Request::Git(args))
            },
        }
    }

    fn numstat_answered_exec(self, out: GitOutput) -> (res: Step<SummaryJob, DiffSummary>)
        requires
            self@.files.len() == 0,
            self@.omitted is None,
            summary_wf(self@),
        ensures
            res@ == numstat_answered(self@, out),
            good_move(res@),
            law_kept(self@, res@),
    {
        let ghost j0 = self@;
        match check_diff_output(&out, "--numstat") {
            Err(e) => Step::Done(Err(e)),
            Ok(()) => {
                let ns = parse_name_status(self.name_status.as_slice());
                match ns {
                    Err(e) => Step::Done(Err(e)),
                    Ok(ns) => {
                        let nu = parse_numstat(out.stdout.as_slice());
                        match nu {
                            Err(e) => Step::Done(Err(e)),
                            Ok(nu) => {
                                proof {
                                    crate::parse::lemma_merged_files_binary_flag(
                                        ns.deep_view(),
                                        nu.deep_view(),
                                        j0.ignore_ws,
                                    );
                                    lemma_name_status_records_shape(nul_tokens(j0.name_status));
                                    lemma_numstat_records_shape(nul_tokens(out.stdout@));
                                    crate::parse::lemma_well_formed_records_merge(
                                        ns.deep_view(),
                                        nu.deep_view(),
                                        j0.ignore_ws,
                                    );
                                    assert forall|k: int| 0 <= k < nu@.len() implies crate::parse::numstat_well_formed(
                                        #[trigger] nu@[k]@,
                                    ) by {
                                        assert(nu@[k]@ == nu.deep_view()[k]);
                                    }
                                }
                                let merged = merge_entries(ns, nu, self.ignore_ws);
                                match merged {
                                    Err(e) => Step::Done(Err(e)),
                                    Ok(files) => {
                                        let ghost fv = files.deep_view();
                                        let args = diff_args("--raw", &self.scope_args, false);
                                        let mut j = self;
                                        j.files = files;
                                        proof {
                                            lemma_diff_args_safe("--raw"@, j0.scope_args, false);
                                            assert(j@ == SummaryJobView { files: fv, ..j0 });
                                        }
                                        j.into_ask(SummaryStage::Raw, Request::Git(args))
                                    },
                                }
                            },
                        }
                    },
                }
            },
        }
    }

    fn raw_answered_exec(self, out: GitOutput) -> (res: Step<SummaryJob, DiffSummary>)
        requires
            summary_wf(self@),
        ensures
            res@ == raw_answered(self@, out),
            good_move(res@),
            law_kept(self@, res@),
    {
        let ghost j0 = self@;
        match check_diff_output(&out, "--raw") {
            Err(e) => Step::Done(Err(e)),
            Ok(()) => match parse_raw_submodule_paths(out.stdout.as_slice()) {
                Err(e) => Step::Done(Err(e)),
                Ok(paths) => {
                    let mut j = self;
                    mark_submodule_entries(&mut j.files, &paths);
                    proof {
                        let m = marked_files(j0.files, paths.deep_view());
                        assert forall|k: int| 0 <= k < m.len() implies #[trigger] j@.files[k] == m[k] by {
                            assert(j@.files[k] == j.files@[k]@);
                        }
                        assert(j@.files =~= m);
                        assert(j@ == SummaryJobView { files: m, ..j0 });
                    }
                    j.after_raw_exec()
                },
            },
        }
    }

    fn ls_files_answered_exec(self, out: GitOutput) -> (res: Step<SummaryJob, DiffSummary>)
        requires
            summary_wf(self@),
            self@.stage == SummaryStage::LsFiles,
        ensures
            res@ == ls_files_answered(self@, out),
            good_move(res@),
            law_kept(self@, res@),
    {
        let ghost j0 = self@;
        match list_untracked_paths(&out) {
            Err(e) => Step::Done(Err(e)),
            Ok(all) => {
                let ghost allv = all.deep_view();
                let ghost all_seq = all@;
                let (kept, omitted) = cap_untracked(all);
                let mut j = self;
                j.untracked = kept;
                j.omitted = omitted;
                j.index = 0;
                proof {
                    assert(j@.untracked =~= kept_untracked(allv));
                    assert(j@ == SummaryJobView {
                        untracked: kept_untracked(allv),
                        omitted: omitted_untracked(allv),
                        index: 0,
                        ..j0
                    });
                }
                j.untracked_next_exec()
            },
        }
    }

    fn size_answered_exec(self, r: Result<u64, String>) -> (res: Step<SummaryJob, DiffSummary>)
        requires
            summary_wf(self@),
            self@.stage == SummaryStage::UntrackedSize,
        ensures
            res@ == size_answered(self@, r),
            good_move(res@),
            law_kept(self@, res@),
    {
        let ghost j0 = self@;
        let rel = self.untracked[self.index].clone();
        assert(rel@ == j0.untracked[j0.index as int]);
        match r {
            Err(e) => {
                let mut m = String::from_str("failed to stat untracked file '");
                m.append(rel.as_str());
                m.append("': ");
                m.append(e.as_str());
                Step::Done(Err(m))
            },
            Ok(n) => {
                let req = if n > MAX_FILE_DIFF_BYTES {
                    Request::ReadPrefix(rel, BINARY_SNIFF_BYTES)
                } else {
                    Request::ReadFile(rel)
                };
                let mut j = self;
                j.size = n;
                j.into_ask(SummaryStage::UntrackedRead, req)
            },
        }
    }

    fn read_answered_exec(self, r: Result<Vec<u8>, String>) -> (res: Step<SummaryJob, DiffSummary>)
        requires
            summary_wf(self@),
            self@.stage == SummaryStage::UntrackedRead,
            r matches Ok(b) ==> b@.len() <= i64::MAX,
        ensures
            res@ == read_answered(self@, r),
            good_move(res@),
            law_kept(self@, res@),
    {
        let ghost j0 = self@;
        let rel = self.untracked[self.index].clone();
        assert(rel@ == j0.untracked[j0.index as int]);
        match r {
            Err(e) => {
                if self.size > MAX_FILE_DIFF_BYTES {
                    Step::Done(Err(e))
                } else {
                    let mut m = String::from_str("failed to read untracked file '");
                    m.append(rel.as_str());
                    m.append("': ");
                    m.append(e.as_str());
                    Step::Done(Err(m))
                }
            },
            Ok(b) => {
                assert(self.untracked.deep_view().len() == self.untracked@.len());
                let n = self.untracked.len();
                assert(self.index < n);
                let entry = untracked_entry(rel.as_str(), self.size, b.as_slice());
                let mut j = self;
                j.files.push(entry);
                j.index = j.index + 1;
                proof {
                    assert(j@.files =~= j0.files.push(untracked_entry_spec(rel@, j0.size, b@)));
                }
                j.untracked_next_exec()
            },
        }
    }

    /// Starts a diff summary request.
    pub fn start(params: &DiffParams) -> (res: Step<SummaryJob, DiffSummary>)
        ensures
            res@ == summary_start(
                params.target@,
                params.source@,
                params.compare_mode,
                params.source_scope,
                match params.options.ignore_whitespace {
                    Some(b) => b,
                    None => true,
                },
            ),
            good_move(res@),
            safe_step(res@),
            res@ matches StepView::Done(Ok(s)) ==> summary_law(
                params.compare_mode,
                params.source_scope,
                s,
            ),
    {
        let j = SummaryJob {
            target_raw: params.target.clone(),
            source_raw: params.source.clone(),
            mode: params.compare_mode,
            requested: params.source_scope,
            ignore_ws: hide_whitespace(&params.options),
            stage: SummaryStage::InProgressPath,
            answers: Vec::new(),
            target: String::new(),
            source: String::new(),
            scope: params.source_scope,
            base_rev: String::new(),
            merge_base: None,
            scope_args: Vec::new(),
            name_status: Vec::new(),
            files: Vec::new(),
            untracked: Vec::new(),
            omitted: None,
            index: 0,
            size: 0,
            warnings: Vec::new(),
        };
        proof {
            assert(j@.answers =~= Seq::<bool>::empty());
            assert(j@.scope_args =~= Seq::<Seq<char>>::empty());
            assert(j@.files =~= Seq::<DiffFileView>::empty());
            assert(j@.untracked =~= Seq::<Seq<char>>::empty());
            assert(j@.warnings =~= Seq::<Seq<char>>::empty());
            assert(j@.name_status =~= Seq::<u8>::empty());
        }
        j.in_progress_next_exec()
    }

    /// Steps the job with the reply to its last request.
    pub fn step(self, reply: Reply) -> (res: Step<SummaryJob, DiffSummary>)
        requires
            summary_wf(self@),
            summary_awaits(self@) == reply.kind(),
            reply.within_limits(),
        ensures
            res@ == summary_next(self@, reply),
            good_move(res@),
            law_kept(self@, res@),
            safe_step(res@),
    {
        let ghost j0 = self@;
        match reply {
            Reply::Git(Err(e)) => Step::Done(Err(e)),
            Reply::Git(Ok(out)) => match self.stage {
                SummaryStage::InProgressPath => match git_path_exists(&out) {
                    Some(p) => self.into_ask(SummaryStage::InProgressExists, Request::Exists(p)),
                    None => {
                        let mut j = self;
                        j.answers.push(false);
                        j.in_progress_next_exec()
                    },
                },
                SummaryStage::Target => {
                    let mut j = self;
                    j.answers.push(out.success);
                    j.target_next_exec()
                },
                SummaryStage::Source => {
                    let mut j = self;
                    j.answers.push(out.success);
                    j.source_next_exec()
                },
                SummaryStage::Head => {
                    let current = symbolic_ref_short(&out);
                    self.head_answered_exec(current)
                },
                SummaryStage::MergeBase => self.merge_base_answered_exec(out),
                SummaryStage::ShortSha => self.short_sha_answered_exec(out),
                SummaryStage::NameStatus => self.name_status_answered_exec(out),
                SummaryStage::Numstat => self.numstat_answered_exec(out),
                SummaryStage::Raw => self.raw_answered_exec(out),
                SummaryStage::LsFiles => self.ls_files_answered_exec(out),
                _ => Step::Done(Err(String::new())),
            },
            Reply::Exists(b) => {
                let mut j = self;
                j.answers.push(b);
                j.in_progress_next_exec()
            },
            Reply::Size(r) => self.size_answered_exec(r),
            Reply::Bytes(r) => self.read_answered_exec(r),
            _ => Step::Done(Err(String::new())),
        }
    }
}

} // verus!
