//! What a summary lists, over whole runs against a modelled repository:
//! the reconciliation of the repository's own `git diff --name-status` and
//! `git diff --numstat` output over the summary's diff operands, with
//! submodule entries reclassified by `git diff --raw`, and after those only
//! untracked files.

use vstd::prelude::*;

use crate::parse::{
    lemma_merged_files_binary_flag, merged_files, name_status_records, nul_tokens, numstat_records,
};
use crate::refs::{normalize_step, ref_check_args_spec, RefStepView};
use crate::session::{Reply, RequestView, StepView};
use crate::summary::{
    diff_args_spec, in_progress_step, merge_base_outcome, raw_submodule_paths, scope_args_spec,
    scope_fallback_warning, source_is_head, untracked_entry_spec, InProgressView,
};
use crate::summary_fallback::{
    answers_in_kind, check_passes, head_branch, lemma_repo_normalized, normalizing_source,
    repo_answers, repo_normalized, summary_run,
};
use crate::summary_job::{
    after_source, base_ready, in_progress_next, kept_untracked, marked_files, merge_base_args,
    no_untracked, omitted_untracked, push_warning, scope_fixed, source_next, summary_awaits,
    summary_next, summary_start, symbolic_ref_args, target_next, untracked_next, SummaryJobView,
    SummaryMove, SummaryStage,
};
use crate::text::trimmed_text;
use crate::types::{CompareMode, DiffFileView, DiffSummaryView, SourceScope};

verus! {

/// The standard output of the repository's answer to `git diff` with
/// `flag` over the operands `sa`.
pub open spec fn diff_output(
    repo: spec_fn(RequestView) -> Reply,
    flag: Seq<char>,
    sa: Seq<Seq<char>>,
    ignore_ws: bool,
) -> Seq<u8> {
    match repo(RequestView::Git(diff_args_spec(flag, sa, ignore_ws))) {
        Reply::Git(Ok(out)) => out.stdout@,
        _ => seq![],
    }
}

/// The repository's name-status and numstat diffs over `sa`, parsed and
/// reconciled (numstat gaps allowed exactly when whitespace is ignored).
pub open spec fn merged_diff(
    repo: spec_fn(RequestView) -> Reply,
    sa: Seq<Seq<char>>,
    ignore_ws: bool,
) -> Result<Seq<DiffFileView>, Seq<char>> {
    match name_status_records(nul_tokens(diff_output(repo, "--name-status"@, sa, false))) {
        Err(e) => Err(e),
        Ok(ns) => match numstat_records(nul_tokens(diff_output(repo, "--numstat"@, sa, ignore_ws))) {
            Err(e) => Err(e),
            Ok(nu) => merged_files(ns, nu, ignore_ws),
        },
    }
}

/// The tracked files of the repository's diffs over `sa`: the reconciled
/// diffs with submodule entries reclassified by the raw diff.
pub open spec fn diff_files(
    repo: spec_fn(RequestView) -> Reply,
    sa: Seq<Seq<char>>,
    ignore_ws: bool,
) -> Option<Seq<DiffFileView>> {
    match merged_diff(repo, sa, ignore_ws) {
        Ok(files) => match raw_submodule_paths(nul_tokens(diff_output(repo, "--raw"@, sa, false))) {
            Ok(p) => Some(marked_files(files, p)),
            Err(_) => None,
        },
        Err(_) => None,
    }
}

/// `files` opens with `changes`, and every file after those is untracked.
pub open spec fn changes_then_untracked(files: Seq<DiffFileView>, changes: Seq<DiffFileView>) -> bool {
    &&& changes.len() <= files.len()
    &&& files.take(changes.len() as int) == changes
    &&& forall|i: int| changes.len() <= i < files.len() ==> (#[trigger] files[i]).is_untracked == Some(true)
}

/// A summary request: target and source as given, the compare mode, the
/// scope asked for, and whether whitespace-only changes are hidden.
pub struct SummaryQuery {
    pub target: Seq<char>,
    pub source: Seq<char>,
    pub mode: CompareMode,
    pub scope: SourceScope,
    pub ignore_ws: bool,
}

/// The branch the repository reports checked out (`None` when detached).
pub open spec fn repo_head(repo: spec_fn(RequestView) -> Reply) -> Option<Seq<char>> {
    match repo(RequestView::Git(symbolic_ref_args())) {
        Reply::Git(Ok(out)) => head_branch(out),
        _ => None,
    }
}

/// The scope a summary of the normalized `source` uses: the one asked for
/// when `source` is the checked-out branch, `committed` otherwise.
pub open spec fn scope_in_effect(
    repo: spec_fn(RequestView) -> Reply,
    requested: SourceScope,
    source: Seq<char>,
) -> SourceScope {
    if requested == SourceScope::Committed || !source_is_head(source, repo_head(repo)) {
        SourceScope::Committed
    } else {
        requested
    }
}

/// The repository's `git merge-base --all` answer for `t` and `s`.
pub open spec fn repo_merge_base(
    repo: spec_fn(RequestView) -> Reply,
    t: Seq<char>,
    s: Seq<char>,
) -> Result<Option<Seq<char>>, Seq<char>> {
    match repo(RequestView::Git(merge_base_args(t, s))) {
        Reply::Git(Ok(out)) => merge_base_outcome(out).0,
        _ => Err(seq![]),
    }
}

/// The revision the diffs start from: the target in tips mode, the merge
/// base in merge-base mode.
pub open spec fn diff_base(
    repo: spec_fn(RequestView) -> Reply,
    mode: CompareMode,
    t: Seq<char>,
    s: Seq<char>,
) -> Option<Seq<char>> {
    match mode {
        CompareMode::Tips => Some(t),
        CompareMode::MergeBase => match repo_merge_base(repo, t, s) {
            Ok(Some(b)) => Some(b),
            _ => None,
        },
    }
}

/// The diff operands of the request `q` on `repo`: for the target and
/// source as the repository normalizes them, the operands of the scope in
/// effect over the base (`<base> <source>`, `--cached <base>` or
/// `<base>`).
pub open spec fn requested_operands(repo: spec_fn(RequestView) -> Reply, q: SummaryQuery) -> Option<
    Seq<Seq<char>>,
> {
    match (repo_normalized(repo, q.target), repo_normalized(repo, q.source)) {
        (Some(t), Some(s)) => match diff_base(repo, q.mode, t, s) {
            Some(b) => Some(scope_args_spec(scope_in_effect(repo, q.scope, s), b, s)),
            None => None,
        },
        _ => None,
    }
}

/// Whether untracked files belong in the summary: the scope in effect is
/// `unstaged`.
pub open spec fn untracked_listed(repo: spec_fn(RequestView) -> Reply, q: SummaryQuery) -> bool {
    match repo_normalized(repo, q.source) {
        Some(s) => scope_in_effect(repo, q.scope, s) == SourceScope::Unstaged,
        None => false,
    }
}

/// The branches of a merge-base request have no merge base.
pub open spec fn no_merge_base(repo: spec_fn(RequestView) -> Reply, q: SummaryQuery) -> bool {
    &&& q.mode == CompareMode::MergeBase
    &&& match (repo_normalized(repo, q.target), repo_normalized(repo, q.source)) {
        (Some(t), Some(s)) => repo_merge_base(repo, t, s) == Ok::<Option<Seq<char>>, Seq<char>>(None),
        _ => false,
    }
}

/// What the summary `s` of the request `q` lists: for the requested diff
/// operands, the repository's own changes followed by untracked files only,
/// and exactly those changes with nothing omitted unless untracked files
/// belong in it; or nothing, when the branches have no merge base.
pub open spec fn lists_repository_diff(s: DiffSummaryView, repo: spec_fn(RequestView) -> Reply, q: SummaryQuery) -> bool {
    match requested_operands(repo, q) {
        Some(sa) => match diff_files(repo, sa, q.ignore_ws) {
            Some(t) => changes_then_untracked(s.files, t) && (!untracked_listed(repo, q) ==> s.files == t
                && s.omitted_untracked is None),
            None => false,
        },
        None => no_merge_base(repo, q) && s.files.len() == 0 && s.merge_base is None
            && s.omitted_untracked is None,
    }
}

/// The job serves the request `q`.
pub open spec fn job_of(j: SummaryJobView, q: SummaryQuery) -> bool {
    &&& j.target_raw == q.target
    &&& j.source_raw == q.source
    &&& j.mode == q.mode
    &&& j.requested == q.scope
    &&& j.ignore_ws == q.ignore_ws
}

/// The job holds the target and source as the repository normalizes them.
pub open spec fn refs_normalized(j: SummaryJobView, repo: spec_fn(RequestView) -> Reply) -> bool {
    &&& repo_normalized(repo, j.target_raw) == Some(j.target)
    &&& repo_normalized(repo, j.source_raw) == Some(j.source)
}

/// Past the HEAD check: the refs normalized and the scope in effect fixed.
pub open spec fn scope_settled(j: SummaryJobView, repo: spec_fn(RequestView) -> Reply) -> bool {
    &&& refs_normalized(j, repo)
    &&& j.scope == scope_in_effect(repo, j.requested, j.source)
}

/// A stage that lists untracked files.
pub open spec fn untracked_stage(stage: SummaryStage) -> bool {
    stage == SummaryStage::LsFiles || stage == SummaryStage::UntrackedSize || stage
        == SummaryStage::UntrackedRead
}

/// How far a job serving `q` and waiting with request `r` has got.
pub open spec fn diff_progress(
    j: SummaryJobView,
    r: RequestView,
    repo: spec_fn(RequestView) -> Reply,
    q: SummaryQuery,
) -> bool {
    let sa = j.scope_args;
    &&& job_of(j, q)
    &&& summary_awaits(j) == r.reply_kind()
    &&& !untracked_stage(j.stage) ==> j.omitted is None
    &&& match j.stage {
        SummaryStage::Target => j.answers == repo_answers(repo, q.target, j.answers.len()) && r
            == RequestView::Git(ref_check_args_spec(normalize_step(q.target, j.answers))),
        SummaryStage::Source => repo_normalized(repo, q.target) == Some(j.target)
            && normalizing_source(repo, j, r),
        SummaryStage::Head => refs_normalized(j, repo) && r == RequestView::Git(symbolic_ref_args())
            && q.scope != SourceScope::Committed,
        SummaryStage::MergeBase => scope_settled(j, repo) && q.mode == CompareMode::MergeBase && r
            == RequestView::Git(merge_base_args(j.target, j.source)),
        SummaryStage::ShortSha => scope_settled(j, repo) && q.mode == CompareMode::MergeBase
            && repo_merge_base(repo, j.target, j.source) == Ok::<Option<Seq<char>>, Seq<char>>(
            Some(j.base_rev),
        ),
        SummaryStage::NameStatus => scope_settled(j, repo) && requested_operands(repo, q) == Some(sa)
            && r == RequestView::Git(diff_args_spec("--name-status"@, sa, false)),
        SummaryStage::Numstat => scope_settled(j, repo) && requested_operands(repo, q) == Some(sa) && r
            == RequestView::Git(diff_args_spec("--numstat"@, sa, q.ignore_ws)) && j.name_status
            == diff_output(repo, "--name-status"@, sa, false),
        SummaryStage::Raw => scope_settled(j, repo) && requested_operands(repo, q) == Some(sa) && r
            == RequestView::Git(diff_args_spec("--raw"@, sa, false)) && merged_diff(repo, sa, q.ignore_ws)
            == Ok::<Seq<DiffFileView>, Seq<char>>(j.files),
        SummaryStage::LsFiles | SummaryStage::UntrackedSize | SummaryStage::UntrackedRead => scope_settled(
            j,
            repo,
        ) && j.scope == SourceScope::Unstaged && requested_operands(repo, q) == Some(sa) && (diff_files(
            repo,
            sa,
            q.ignore_ws,
        ) matches Some(t) && changes_then_untracked(j.files, t)),
        _ => true,
    }
}

/// A move of a run of `q` so far: a job on its way, or an outcome listing
/// what the repository's diffs say.
pub open spec fn diff_move(m: SummaryMove, repo: spec_fn(RequestView) -> Reply, q: SummaryQuery) -> bool {
    match m {
        StepView::Ask(j, r) => diff_progress(j, r, repo, q),
        StepView::Done(Ok(s)) => lists_repository_diff(s, repo, q),
        StepView::Done(Err(_)) => true,
    }
}

proof fn lemma_base_ready_diff(
    j: SummaryJobView,
    base: Seq<char>,
    mb: Option<Seq<char>>,
    repo: spec_fn(RequestView) -> Reply,
    q: SummaryQuery,
)
    requires
        job_of(j, q),
        scope_settled(j, repo),
        j.omitted is None,
        diff_base(repo, q.mode, j.target, j.source) == Some(base),
    ensures
        diff_move(base_ready(j, base, mb), repo, q),
{
    assert(requested_operands(repo, q) == Some(scope_args_spec(j.scope, base, j.source)));
}

proof fn lemma_scope_fixed_diff(j: SummaryJobView, repo: spec_fn(RequestView) -> Reply, q: SummaryQuery)
    requires
        job_of(j, q),
        scope_settled(j, repo),
        j.omitted is None,
    ensures
        diff_move(scope_fixed(j), repo, q),
{
    if q.mode == CompareMode::Tips {
        lemma_base_ready_diff(j, j.target, None, repo, q);
    }
}

proof fn lemma_after_source_diff(j: SummaryJobView, repo: spec_fn(RequestView) -> Reply, q: SummaryQuery)
    requires
        job_of(j, q),
        refs_normalized(j, repo),
        j.omitted is None,
    ensures
        diff_move(after_source(j), repo, q),
{
    if j.requested == SourceScope::Committed {
        lemma_scope_fixed_diff(SummaryJobView { scope: SourceScope::Committed, ..j }, repo, q);
    }
}

proof fn lemma_source_next_diff(j: SummaryJobView, repo: spec_fn(RequestView) -> Reply, q: SummaryQuery)
    requires
        job_of(j, q),
        repo_normalized(repo, q.target) == Some(j.target),
        j.answers == repo_answers(repo, q.source, j.answers.len()),
        j.omitted is None,
    ensures
        diff_move(source_next(j), repo, q),
{
    if let RefStepView::Done(Ok(src)) = normalize_step(j.source_raw, j.answers) {
        lemma_repo_normalized(repo, q.source, j.answers.len());
        lemma_after_source_diff(SummaryJobView { source: src, answers: seq![], ..j }, repo, q);
    }
}

proof fn lemma_target_next_diff(j: SummaryJobView, repo: spec_fn(RequestView) -> Reply, q: SummaryQuery)
    requires
        job_of(j, q),
        j.answers == repo_answers(repo, q.target, j.answers.len()),
        j.omitted is None,
    ensures
        diff_move(target_next(j), repo, q),
{
    if let RefStepView::Done(Ok(t)) = normalize_step(j.target_raw, j.answers) {
        lemma_repo_normalized(repo, q.target, j.answers.len());
        assert(repo_answers(repo, q.source, 0) =~= Seq::<bool>::empty());
        lemma_source_next_diff(SummaryJobView { target: t, answers: seq![], ..j }, repo, q);
    }
}

proof fn lemma_in_progress_next_diff(j: SummaryJobView, repo: spec_fn(RequestView) -> Reply, q: SummaryQuery)
    requires
        job_of(j, q),
        j.omitted is None,
    ensures
        diff_move(in_progress_next(j), repo, q),
{
    if let InProgressView::Done(w) = in_progress_step(j.answers) {
        assert(repo_answers(repo, q.target, 0) =~= Seq::<bool>::empty());
        lemma_target_next_diff(
            SummaryJobView { warnings: push_warning(j.warnings, w), answers: seq![], ..j },
            repo,
            q,
        );
    }
}

proof fn lemma_untracked_next_diff(
    j: SummaryJobView,
    repo: spec_fn(RequestView) -> Reply,
    q: SummaryQuery,
    changes: Seq<DiffFileView>,
)
    requires
        job_of(j, q),
        scope_settled(j, repo),
        j.scope == SourceScope::Unstaged,
        requested_operands(repo, q) == Some(j.scope_args),
        diff_files(repo, j.scope_args, j.ignore_ws) == Some(changes),
        changes_then_untracked(j.files, changes),
    ensures
        diff_move(untracked_next(j), repo, q),
{
}

proof fn lemma_diff_step(j: SummaryJobView, r: RequestView, repo: spec_fn(RequestView) -> Reply, q: SummaryQuery)
    requires
        diff_progress(j, r, repo, q),
        answers_in_kind(repo),
    ensures
        diff_move(summary_next(j, repo(r)), repo, q),
{
    let reply = repo(r);
    assert(reply.kind() == r.reply_kind());
    let sa = j.scope_args;
    let ws = q.ignore_ws;
    match reply {
        Reply::Git(Ok(out)) => {
            if j.stage == SummaryStage::InProgressPath && !out.success {
                lemma_in_progress_next_diff(SummaryJobView { answers: j.answers.push(false), ..j }, repo, q);
            } else if j.stage == SummaryStage::Target {
                let n = j.answers.len();
                assert(check_passes(repo, normalize_step(q.target, j.answers)) == out.success);
                assert(repo_answers(repo, q.target, n + 1) == j.answers.push(out.success));
                lemma_target_next_diff(SummaryJobView { answers: j.answers.push(out.success), ..j }, repo, q);
            } else if j.stage == SummaryStage::Source {
                let n = j.answers.len();
                assert(check_passes(repo, normalize_step(q.source, j.answers)) == out.success);
                assert(repo_answers(repo, q.source, n + 1) == j.answers.push(out.success));
                lemma_source_next_diff(SummaryJobView { answers: j.answers.push(out.success), ..j }, repo, q);
            } else if j.stage == SummaryStage::Head {
                let cur = head_branch(out);
                assert(repo_head(repo) == cur);
                if source_is_head(j.source, cur) {
                    lemma_scope_fixed_diff(SummaryJobView { scope: j.requested, ..j }, repo, q);
                } else {
                    lemma_scope_fixed_diff(
                        SummaryJobView {
                            scope: SourceScope::Committed,
                            warnings: j.warnings.push(scope_fallback_warning(j.source_raw, cur)),
                            ..j
                        },
                        repo,
                        q,
                    );
                }
            } else if j.stage == SummaryStage::MergeBase {
                assert(repo_merge_base(repo, j.target, j.source) == merge_base_outcome(out).0);
            } else if j.stage == SummaryStage::ShortSha {
                lemma_base_ready_diff(j, j.base_rev, Some(trimmed_text(out.stdout@)), repo, q);
            } else if j.stage == SummaryStage::NameStatus {
                assert(diff_output(repo, "--name-status"@, sa, false) == out.stdout@);
            } else if j.stage == SummaryStage::Numstat {
                assert(diff_output(repo, "--numstat"@, sa, ws) == out.stdout@);
            } else if j.stage == SummaryStage::Raw {
                assert(diff_output(repo, "--raw"@, sa, false) == out.stdout@);
                if let Ok(p) = raw_submodule_paths(nul_tokens(out.stdout@)) {
                    let files = marked_files(j.files, p);
                    assert(diff_files(repo, sa, ws) == Some(files));
                    assert(files.take(files.len() as int) =~= files);
                }
            } else if j.stage == SummaryStage::LsFiles {
                let all = nul_tokens(out.stdout@);
                let t = diff_files(repo, sa, ws)->Some_0;
                lemma_untracked_next_diff(
                    SummaryJobView {
                        untracked: kept_untracked(all),
                        omitted: omitted_untracked(all),
                        index: 0,
                        ..j
                    },
                    repo,
                    q,
                    t,
                );
            }
        },
        Reply::Exists(b) => {
            lemma_in_progress_next_diff(SummaryJobView { answers: j.answers.push(b), ..j }, repo, q);
        },
        Reply::Bytes(Ok(b)) => {
            let t = diff_files(repo, sa, ws)->Some_0;
            let rel = j.untracked[j.index as int];
            let e = untracked_entry_spec(rel, j.size, b@);
            let files = j.files.push(e);
            assert(files.take(t.len() as int) =~= j.files.take(t.len() as int));
            assert(files[files.len() - 1] == e);
            lemma_untracked_next_diff(
                SummaryJobView { files: files, index: (j.index + 1) as usize, ..j },
                repo,
                q,
                t,
            );
        },
        _ => {},
    }
}

proof fn lemma_diff_run(m: SummaryMove, repo: spec_fn(RequestView) -> Reply, q: SummaryQuery, n: nat)
    requires
        diff_move(m, repo, q),
        answers_in_kind(repo),
    ensures
        summary_run(m, repo, n) matches Some(Ok(s)) ==> lists_repository_diff(s, repo, q),
    decreases n,
{
    if let StepView::Ask(j, r) = m {
        if n > 0 {
            lemma_diff_step(j, r, repo, q);
            lemma_diff_run(summary_next(j, repo(r)), repo, q, (n - 1) as nat);
        }
    }
}

/// The files of the repository's diffs are all tracked.
pub proof fn lemma_diff_files_tracked(repo: spec_fn(RequestView) -> Reply, sa: Seq<Seq<char>>, ignore_ws: bool)
    ensures
        diff_files(repo, sa, ignore_ws) matches Some(t) ==> no_untracked(t),
{
    if let Ok(files) = merged_diff(repo, sa, ignore_ws) {
        let ns = name_status_records(nul_tokens(diff_output(repo, "--name-status"@, sa, false)))->Ok_0;
        let nu = numstat_records(nul_tokens(diff_output(repo, "--numstat"@, sa, ignore_ws)))->Ok_0;
        lemma_merged_files_binary_flag(ns, nu, ignore_ws);
        if let Some(t) = diff_files(repo, sa, ignore_ws) {
            assert forall|k: int| 0 <= k < t.len() implies (#[trigger] t[k]).is_untracked != Some(true) by {
                assert(files[k].is_untracked is None);
            }
        }
    }
}

/// A summary of a repository lists, for the diff operands its request
/// names (the scope in effect over the target or merge base and the source,
/// as the repository normalizes them), first exactly the files of the
/// repository's own `git diff --name-status` and `--numstat` output,
/// reconciled by path (numstat gaps allowed only when whitespace is
/// ignored) with submodule entries reclassified by `git diff --raw`, and
/// after them untracked files only, which appear, and are counted as
/// omitted, only in the `unstaged` scope in effect. When the branches have
/// no merge base it lists nothing.
pub proof fn lemma_summary_lists_repository_diff(
    target: Seq<char>,
    source: Seq<char>,
    mode: CompareMode,
    scope: SourceScope,
    ignore_ws: bool,
    repo: spec_fn(RequestView) -> Reply,
    n: nat,
)
    requires
        answers_in_kind(repo),
    ensures
        summary_run(summary_start(target, source, mode, scope, ignore_ws), repo, n) matches Some(Ok(s))
            ==> lists_repository_diff(
            s,
            repo,
            (SummaryQuery { target, source, mode, scope, ignore_ws }),
        ),
{
    let q = SummaryQuery { target, source, mode, scope, ignore_ws };
    lemma_diff_run(summary_start(target, source, mode, scope, ignore_ws), repo, q, n);
}

} // verus!
