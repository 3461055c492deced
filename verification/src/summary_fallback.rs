//! Whole runs of a summary against a modelled repository. A repository is
//! modelled as the answer it gives to each request; a run feeds a summary
//! job the repository's answers until it finishes or runs out of steps.
//!
//! Two laws are stated over runs here: every request a run makes is
//! read-only, and a summary asked for in a working-tree scope
//! (`staged`/`unstaged`) of a source that is not the checked-out branch
//! comes out as the `committed` summary of the same repository, with one
//! warning more.

use vstd::prelude::*;

use crate::parse::nul_tokens;
use crate::process::GitOutput;
use crate::refs::{
    lemma_normalize_needs_at_most_three_checks, lemma_normalize_outcome_is_stable, normalize_step,
    ref_check_args_spec, RefStepView,
};
use crate::session::{safe_request, safe_step, Reply, RequestView, StepView};
use crate::summary::{
    in_progress_step, merge_base_outcome, raw_submodule_paths, scope_fallback_warning,
    source_is_head, untracked_entry_spec, InProgressView,
};
use crate::summary_job::{
    after_source, base_ready, finish, in_progress_next, lemma_summary_next_safe, lemma_summary_start_safe, kept_untracked, marked_files,
    no_untracked, omitted_untracked, push_warning, scope_fixed, source_next, summary_awaits, summary_next,
    summary_of, summary_start, symbolic_ref_args, target_next, untracked_next, with_stage,
    SummaryJobView, SummaryMove, SummaryStage,
};
use crate::summary_diffs::{
    lemma_diff_files_tracked, lemma_summary_lists_repository_diff, repo_head, requested_operands,
    untracked_listed, SummaryQuery,
};
use crate::text::trimmed_text;
use crate::types::{CompareMode, DiffSummaryView, SourceScope};

verus! {

/// A repository answers each request with a reply of the kind it asks
/// for.
pub open spec fn answers_in_kind(repo: spec_fn(RequestView) -> Reply) -> bool {
    forall|r: RequestView| #[trigger] repo(r).kind() == r.reply_kind()
}

/// The outcome of feeding the job behind `m` the answers of `repo`, within
/// `fuel` requests; `None` when it needs more.
pub open spec fn summary_run(
    m: SummaryMove,
    repo: spec_fn(RequestView) -> Reply,
    fuel: nat,
) -> Option<Result<DiffSummaryView, Seq<char>>>
    decreases fuel,
{
    match m {
        StepView::Done(r) => Some(r),
        StepView::Ask(j, req) => if fuel == 0 {
            None
        } else {
            summary_run(summary_next(j, repo(req)), repo, (fuel - 1) as nat)
        },
    }
}

/// The requests a run makes of the repository, in order, within `fuel`
/// answers (the last one possibly unanswered).
pub open spec fn summary_requests(
    m: SummaryMove,
    repo: spec_fn(RequestView) -> Reply,
    fuel: nat,
) -> Seq<RequestView>
    decreases fuel,
{
    match m {
        StepView::Done(_) => seq![],
        StepView::Ask(j, req) => seq![req] + if fuel == 0 {
            seq![]
        } else {
            summary_requests(summary_next(j, repo(req)), repo, (fuel - 1) as nat)
        },
    }
}

proof fn lemma_requests_safe(m: SummaryMove, repo: spec_fn(RequestView) -> Reply, n: nat)
    requires
        safe_step(m),
    ensures
        forall|i: int|
            0 <= i < summary_requests(m, repo, n).len() ==> safe_request(
                #[trigger] summary_requests(m, repo, n)[i],
            ),
    decreases n,
{
    if let StepView::Ask(j, r) = m {
        if n > 0 {
            let next = summary_next(j, repo(r));
            lemma_summary_next_safe(j, repo(r));
            lemma_requests_safe(next, repo, (n - 1) as nat);
            let rest = summary_requests(next, repo, (n - 1) as nat);
            assert forall|i: int|
                0 <= i < summary_requests(m, repo, n).len() implies safe_request(
                #[trigger] summary_requests(m, repo, n)[i],
            ) by {
                if i > 0 {
                    assert(summary_requests(m, repo, n)[i] == rest[i - 1]);
                }
            }
        } else {
            assert(summary_requests(m, repo, n) =~= seq![r]);
        }
    }
}

/// Whatever the repository answers, every request a summary run makes of
/// it is read-only: each git command is one of the read-only subcommands,
/// and each `git diff` ends with `--`; the rest are reads of files.
pub proof fn lemma_summary_run_read_only(
    target: Seq<char>,
    source: Seq<char>,
    mode: CompareMode,
    scope: SourceScope,
    ignore_ws: bool,
    repo: spec_fn(RequestView) -> Reply,
    n: nat,
)
    ensures
        forall|i: int|
            0 <= i < summary_requests(summary_start(target, source, mode, scope, ignore_ws), repo, n).len()
                ==> safe_request(
                #[trigger] summary_requests(summary_start(target, source, mode, scope, ignore_ws), repo, n)[i],
            ),
{
    lemma_summary_start_safe(target, source, mode, scope, ignore_ws);
    lemma_requests_safe(summary_start(target, source, mode, scope, ignore_ws), repo, n);
}

/// The branch `git symbolic-ref --quiet --short HEAD` reports.
pub open spec fn head_branch(out: GitOutput) -> Option<Seq<char>> {
    if out.success {
        Some(trimmed_text(out.stdout@))
    } else {
        None
    }
}

/// `base` with `extra` inserted at position `k`.
pub open spec fn inserted(base: Seq<Seq<char>>, extra: Seq<char>, k: int) -> Seq<Seq<char>> {
    base.take(k).push(extra) + base.skip(k)
}

/// `s` with the warning `extra` inserted at position `k`.
pub open spec fn summary_with(s: DiffSummaryView, extra: Seq<char>, k: int) -> DiffSummaryView {
    DiffSummaryView { warnings: inserted(s.warnings, extra, k), ..s }
}

/// `r`, a summary with the warning `extra` inserted at position `k`, or
/// the same error.
pub open spec fn result_with(
    r: Result<DiffSummaryView, Seq<char>>,
    extra: Seq<char>,
    k: int,
) -> Result<DiffSummaryView, Seq<char>> {
    match r {
        Ok(s) => Ok(summary_with(s, extra, k)),
        Err(e) => Err(e),
    }
}

/// `rf` is `rc` with one more warning, `extra`, somewhere among the
/// others; or both are the same error.
pub open spec fn one_warning_more(
    rf: Result<DiffSummaryView, Seq<char>>,
    rc: Result<DiffSummaryView, Seq<char>>,
    extra: Seq<char>,
) -> bool {
    match rc {
        Err(e) => rf == Err::<DiffSummaryView, Seq<char>>(e),
        Ok(sc) => exists|k: int|
            0 <= k <= sc.warnings.len() && rf == Ok::<DiffSummaryView, Seq<char>>(
                #[trigger] summary_with(sc, extra, k),
            ),
    }
}

// ---------------------------------------------------------------------------
// after the HEAD check
/// A stage after the HEAD check.
pub open spec fn past_head(stage: SummaryStage) -> bool {
    !(stage == SummaryStage::InProgressPath || stage == SummaryStage::InProgressExists || stage
        == SummaryStage::Target || stage == SummaryStage::Source || stage == SummaryStage::Head)
}

/// Two jobs past the HEAD check that differ only in the scope asked for
/// and in the warning `extra`, which `f` carries at position `k`.
pub open spec fn fallback_pair(f: SummaryJobView, c: SummaryJobView, extra: Seq<char>, k: int) -> bool {
    &&& 0 <= k <= c.warnings.len()
    &&& past_head(c.stage)
    &&& f == SummaryJobView { requested: f.requested, warnings: inserted(c.warnings, extra, k), ..c }
}

/// Moves of such a pair: the same request from a pair again, or the same
/// outcome up to the one warning.
pub open spec fn fallback_moves(mf: SummaryMove, mc: SummaryMove, extra: Seq<char>, k: int) -> bool {
    match mc {
        StepView::Ask(jc, rc) => mf matches StepView::Ask(jf, rf) && rf == rc && fallback_pair(
            jf,
            jc,
            extra,
            k,
        ) && summary_awaits(jc) == rc.reply_kind(),
        StepView::Done(r) => mf == StepView::<SummaryJobView, DiffSummaryView>::Done(
            result_with(r, extra, k),
        ) && (r matches Ok(s) ==> 0 <= k <= s.warnings.len()),
    }
}

proof fn lemma_inserted_push(base: Seq<Seq<char>>, extra: Seq<char>, k: int, w: Option<Seq<char>>)
    requires
        0 <= k <= base.len(),
    ensures
        push_warning(inserted(base, extra, k), w) == inserted(push_warning(base, w), extra, k),
        0 <= k <= push_warning(base, w).len(),
{
    if let Some(t) = w {
        assert(inserted(base, extra, k).push(t) =~= inserted(base.push(t), extra, k));
    }
}

proof fn lemma_pair_asks(f: SummaryJobView, c: SummaryJobView, extra: Seq<char>, k: int, st: SummaryStage)
    requires
        fallback_pair(f, c, extra, k),
        past_head(st),
    ensures
        fallback_pair(with_stage(f, st), with_stage(c, st), extra, k),
{
}

proof fn lemma_finish(f: SummaryJobView, c: SummaryJobView, extra: Seq<char>, k: int)
    requires
        fallback_pair(f, c, extra, k),
    ensures
        fallback_moves(finish(f), finish(c), extra, k),
{
    assert(summary_of(f) == summary_with(summary_of(c), extra, k));
}

proof fn lemma_untracked_next(f: SummaryJobView, c: SummaryJobView, extra: Seq<char>, k: int)
    requires
        fallback_pair(f, c, extra, k),
    ensures
        fallback_moves(untracked_next(f), untracked_next(c), extra, k),
{
    lemma_finish(f, c, extra, k);
}

proof fn lemma_base_ready(
    f: SummaryJobView,
    c: SummaryJobView,
    extra: Seq<char>,
    k: int,
    base: Seq<char>,
    mb: Option<Seq<char>>,
)
    requires
        0 <= k <= c.warnings.len(),
        f == (SummaryJobView {
            requested: f.requested,
            stage: f.stage,
            warnings: inserted(c.warnings, extra, k),
            ..c
        }),
    ensures
        fallback_moves(base_ready(f, base, mb), base_ready(c, base, mb), extra, k),
{
}

/// The scope fixed: from here the two jobs make the same requests.
proof fn lemma_scope_fixed(f: SummaryJobView, c: SummaryJobView, extra: Seq<char>, k: int)
    requires
        0 <= k <= c.warnings.len(),
        f == (SummaryJobView {
            requested: f.requested,
            stage: f.stage,
            warnings: inserted(c.warnings, extra, k),
            ..c
        }),
    ensures
        fallback_moves(scope_fixed(f), scope_fixed(c), extra, k),
{
    lemma_base_ready(f, c, extra, k, c.target, None);
}

proof fn lemma_fallback_step(f: SummaryJobView, c: SummaryJobView, extra: Seq<char>, k: int, reply: Reply)
    requires
        fallback_pair(f, c, extra, k),
        reply.kind() == summary_awaits(c),
    ensures
        fallback_moves(summary_next(f, reply), summary_next(c, reply), extra, k),
{
    match reply {
        Reply::Git(Ok(out)) => {
            if c.stage == SummaryStage::MergeBase {
                let w = merge_base_outcome(out).1;
                lemma_inserted_push(c.warnings, extra, k, w);
                let f2 = SummaryJobView { warnings: push_warning(f.warnings, w), ..f };
                let c2 = SummaryJobView { warnings: push_warning(c.warnings, w), ..c };
                assert(fallback_pair(f2, c2, extra, k));
                if let Ok(Some(b)) = merge_base_outcome(out).0 {
                    lemma_pair_asks(
                        SummaryJobView { base_rev: b, ..f2 },
                        SummaryJobView { base_rev: b, ..c2 },
                        extra,
                        k,
                        SummaryStage::ShortSha,
                    );
                }
            } else if c.stage == SummaryStage::ShortSha {
                lemma_base_ready(f, c, extra, k, c.base_rev, Some(trimmed_text(out.stdout@)));
            } else if c.stage == SummaryStage::Raw {
                let paths = raw_submodule_paths(nul_tokens(out.stdout@));
                if let Ok(p) = paths {
                    let f2 = SummaryJobView { files: marked_files(f.files, p), ..f };
                    let c2 = SummaryJobView { files: marked_files(c.files, p), ..c };
                    lemma_finish(f2, c2, extra, k);
                    lemma_pair_asks(f2, c2, extra, k, SummaryStage::LsFiles);
                }
            } else if c.stage == SummaryStage::LsFiles {
                let all = nul_tokens(out.stdout@);
                let f2 = SummaryJobView {
                    untracked: kept_untracked(all),
                    omitted: omitted_untracked(all),
                    index: 0,
                    ..f
                };
                let c2 = SummaryJobView {
                    untracked: kept_untracked(all),
                    omitted: omitted_untracked(all),
                    index: 0,
                    ..c
                };
                lemma_untracked_next(f2, c2, extra, k);
            }
        },
        Reply::Bytes(Ok(b)) => {
            if c.index < c.untracked.len() {
                let rel = c.untracked[c.index as int];
                let e = untracked_entry_spec(rel, c.size, b@);
                let f2 = SummaryJobView {
                    files: f.files.push(e),
                    index: (f.index + 1) as usize,
                    ..f
                };
                let c2 = SummaryJobView {
                    files: c.files.push(e),
                    index: (c.index + 1) as usize,
                    ..c
                };
                lemma_untracked_next(f2, c2, extra, k);
            }
        },
        _ => {},
    }
}

/// After the HEAD check, the runs of a pair end alike: the same error, or
/// the same summary up to the one warning.
proof fn lemma_fallback_run(
    mf: SummaryMove,
    mc: SummaryMove,
    repo: spec_fn(RequestView) -> Reply,
    extra: Seq<char>,
    k: int,
    n: nat,
)
    requires
        fallback_moves(mf, mc, extra, k),
        answers_in_kind(repo),
    ensures
        summary_run(mc, repo, n) matches Some(rc) ==> summary_run(mf, repo, n) == Some(
            result_with(rc, extra, k),
        ),
        summary_run(mc, repo, n) matches Some(Ok(s)) ==> 0 <= k <= s.warnings.len(),
    decreases n,
{
    if let StepView::Ask(jc, req) = mc {
        if n > 0 {
            let jf = mf->Ask_0;
            assert(repo(req).kind() == req.reply_kind());
            lemma_fallback_step(jf, jc, extra, k, repo(req));
            lemma_fallback_run(
                summary_next(jf, repo(req)),
                summary_next(jc, repo(req)),
                repo,
                extra,
                k,
                (n - 1) as nat,
            );
        }
    }
}

// ---------------------------------------------------------------------------
// up to the HEAD check
/// Whether the repository's answer to the ref check `step` is a success.
pub open spec fn check_passes(repo: spec_fn(RequestView) -> Reply, step: RefStepView) -> bool {
    repo(RequestView::Git(ref_check_args_spec(step))) matches Reply::Git(Ok(out)) && out.success
}

/// The repository's answers to the first `n` checks of normalizing `raw`.
pub open spec fn repo_answers(repo: spec_fn(RequestView) -> Reply, raw: Seq<char>, n: nat) -> Seq<bool>
    decreases n,
{
    if n == 0 {
        seq![]
    } else {
        let prev = repo_answers(repo, raw, (n - 1) as nat);
        prev.push(check_passes(repo, normalize_step(raw, prev)))
    }
}

/// The ref the repository normalizes `raw` to, if any.
pub open spec fn repo_normalized(repo: spec_fn(RequestView) -> Reply, raw: Seq<char>) -> Option<Seq<char>> {
    match normalize_step(raw, repo_answers(repo, raw, 3)) {
        RefStepView::Done(Ok(s)) => Some(s),
        _ => None,
    }
}

proof fn lemma_repo_answers_prefix(repo: spec_fn(RequestView) -> Reply, raw: Seq<char>, k: nat, n: nat)
    requires
        k <= n,
    ensures
        repo_answers(repo, raw, n).len() == n,
        repo_answers(repo, raw, n) == repo_answers(repo, raw, k) + repo_answers(repo, raw, n).skip(k as int),
    decreases n,
{
    if n > 0 {
        if k < n {
            lemma_repo_answers_prefix(repo, raw, k, (n - 1) as nat);
        } else {
            lemma_repo_answers_prefix(repo, raw, 0, (n - 1) as nat);
        }
    }
    assert(repo_answers(repo, raw, n) =~= repo_answers(repo, raw, k) + repo_answers(repo, raw, n).skip(k as int)) by {
        if k < n {
            let prev = repo_answers(repo, raw, (n - 1) as nat);
            assert(prev == repo_answers(repo, raw, k) + prev.skip(k as int));
            assert(repo_answers(repo, raw, n).skip(k as int) =~= prev.skip(k as int).push(repo_answers(repo, raw, n).last()));
        }
    }
}

/// An outcome reached with the repository's first answers is the
/// repository's normalization.
pub(crate) proof fn lemma_repo_normalized(repo: spec_fn(RequestView) -> Reply, raw: Seq<char>, k: nat)
    requires
        normalize_step(raw, repo_answers(repo, raw, k)) is Done,
    ensures
        normalize_step(raw, repo_answers(repo, raw, k)) matches RefStepView::Done(Ok(s)) ==> repo_normalized(repo, raw) == Some(s),
{
    if k <= 3 {
        lemma_repo_answers_prefix(repo, raw, k, 3);
        lemma_normalize_outcome_is_stable(raw, repo_answers(repo, raw, k), repo_answers(repo, raw, 3).skip(k as int));
    } else {
        lemma_repo_answers_prefix(repo, raw, 3, k);
        lemma_repo_answers_prefix(repo, raw, 3, 3);
        lemma_normalize_needs_at_most_three_checks(raw, repo_answers(repo, raw, 3));
        lemma_normalize_outcome_is_stable(raw, repo_answers(repo, raw, 3), repo_answers(repo, raw, k).skip(3));
    }
}

/// Two jobs before the HEAD check, alike but for the scope: `f` asked for
/// a working-tree scope, `c` for `committed`.
pub open spec fn alike_before_head(f: SummaryJobView, c: SummaryJobView) -> bool {
    &&& c.requested == SourceScope::Committed
    &&& c.scope == SourceScope::Committed
    &&& f.requested != SourceScope::Committed
    &&& f.scope == f.requested
    &&& f == SummaryJobView { requested: f.requested, scope: f.scope, ..c }
}

/// A stage before the HEAD check.
pub open spec fn before_head(stage: SummaryStage) -> bool {
    stage == SummaryStage::InProgressPath || stage == SummaryStage::InProgressExists || stage
        == SummaryStage::Target || stage == SummaryStage::Source
}

/// A job normalizing its source has the repository's answers so far and
/// asks for the next check.
pub open spec fn normalizing_source(repo: spec_fn(RequestView) -> Reply, j: SummaryJobView, r: RequestView) -> bool {
    &&& j.answers == repo_answers(repo, j.source_raw, j.answers.len())
    &&& r == RequestView::Git(ref_check_args_spec(normalize_step(j.source_raw, j.answers)))
}

/// Moves before the HEAD check: the same request from alike jobs, or the
/// same error.
pub open spec fn moves_before_head(repo: spec_fn(RequestView) -> Reply, mf: SummaryMove, mc: SummaryMove) -> bool {
    match mc {
        StepView::Ask(jc, rc) => mf matches StepView::Ask(jf, rf) && rf == rc && alike_before_head(jf, jc)
            && before_head(jc.stage) && summary_awaits(jc) == rc.reply_kind() && (jc.stage
            == SummaryStage::Source ==> normalizing_source(repo, jc, rc)),
        StepView::Done(r) => r is Err && mf == mc,
    }
}

/// The moves at the HEAD check: `f` asks which branch is checked out,
/// while `c` goes on with the committed scope.
pub open spec fn moves_at_head(repo: spec_fn(RequestView) -> Reply, mf: SummaryMove, mc: SummaryMove) -> bool {
    &&& mf matches StepView::Ask(hf, r)
    &&& r == RequestView::Git(symbolic_ref_args())
    &&& hf.stage == SummaryStage::Head
    &&& hf.requested != SourceScope::Committed
    &&& repo_normalized(repo, hf.source_raw) == Some(hf.source)
    &&& mc == scope_fixed(
        SummaryJobView { requested: SourceScope::Committed, scope: SourceScope::Committed, ..hf },
    )
}

proof fn lemma_scope_fixed_ignores_stage(j: SummaryJobView, st: SummaryStage)
    ensures
        scope_fixed(j) == scope_fixed((SummaryJobView { stage: st, ..j })),
{
}

proof fn lemma_after_source(repo: spec_fn(RequestView) -> Reply, f: SummaryJobView, c: SummaryJobView)
    requires
        alike_before_head(f, c),
        repo_normalized(repo, c.source_raw) == Some(c.source),
    ensures
        moves_at_head(repo, after_source(f), after_source(c)),
{
    let hf = with_stage(f, SummaryStage::Head);
    lemma_scope_fixed_ignores_stage(
        SummaryJobView { scope: SourceScope::Committed, ..c },
        SummaryStage::Head,
    );
    assert(SummaryJobView { scope: SourceScope::Committed, stage: SummaryStage::Head, ..c }
        == SummaryJobView { requested: SourceScope::Committed, scope: SourceScope::Committed, ..hf });
}

proof fn lemma_source_next(repo: spec_fn(RequestView) -> Reply, f: SummaryJobView, c: SummaryJobView)
    requires
        alike_before_head(f, c),
        c.answers == repo_answers(repo, c.source_raw, c.answers.len()),
    ensures
        moves_before_head(repo, source_next(f), source_next(c)) || moves_at_head(
            repo,
            source_next(f),
            source_next(c),
        ),
{
    if let RefStepView::Done(Ok(s)) = normalize_step(c.source_raw, c.answers) {
        lemma_repo_normalized(repo, c.source_raw, c.answers.len());
        lemma_after_source(
            repo,
            SummaryJobView { source: s, answers: seq![], ..f },
            SummaryJobView { source: s, answers: seq![], ..c },
        );
    }
}

proof fn lemma_target_next(repo: spec_fn(RequestView) -> Reply, f: SummaryJobView, c: SummaryJobView)
    requires
        alike_before_head(f, c),
    ensures
        moves_before_head(repo, target_next(f), target_next(c)) || moves_at_head(
            repo,
            target_next(f),
            target_next(c),
        ),
{
    if let RefStepView::Done(Ok(t)) = normalize_step(c.target_raw, c.answers) {
        assert(repo_answers(repo, c.source_raw, 0) =~= Seq::<bool>::empty());
        lemma_source_next(
            repo,
            SummaryJobView { target: t, answers: seq![], ..f },
            SummaryJobView { target: t, answers: seq![], ..c },
        );
    }
}

proof fn lemma_in_progress_next(repo: spec_fn(RequestView) -> Reply, f: SummaryJobView, c: SummaryJobView)
    requires
        alike_before_head(f, c),
    ensures
        moves_before_head(repo, in_progress_next(f), in_progress_next(c)) || moves_at_head(
            repo,
            in_progress_next(f),
            in_progress_next(c),
        ),
{
    if let InProgressView::Done(w) = in_progress_step(c.answers) {
        lemma_target_next(
            repo,
            SummaryJobView { warnings: push_warning(f.warnings, w), answers: seq![], ..f },
            SummaryJobView { warnings: push_warning(c.warnings, w), answers: seq![], ..c },
        );
    }
}

proof fn lemma_step_before_head(
    repo: spec_fn(RequestView) -> Reply,
    f: SummaryJobView,
    c: SummaryJobView,
    r: RequestView,
)
    requires
        alike_before_head(f, c),
        before_head(c.stage),
        repo(r).kind() == summary_awaits(c),
        c.stage == SummaryStage::Source ==> normalizing_source(repo, c, r),
    ensures
        moves_before_head(repo, summary_next(f, repo(r)), summary_next(c, repo(r))) || moves_at_head(
            repo,
            summary_next(f, repo(r)),
            summary_next(c, repo(r)),
        ),
{
    let reply = repo(r);
    match reply {
        Reply::Git(Ok(out)) => {
            if c.stage == SummaryStage::InProgressPath && !out.success {
                lemma_in_progress_next(
                    repo,
                    SummaryJobView { answers: f.answers.push(false), ..f },
                    SummaryJobView { answers: c.answers.push(false), ..c },
                );
            } else if c.stage == SummaryStage::Target {
                lemma_target_next(
                    repo,
                    SummaryJobView { answers: f.answers.push(out.success), ..f },
                    SummaryJobView { answers: c.answers.push(out.success), ..c },
                );
            } else if c.stage == SummaryStage::Source {
                let n = c.answers.len();
                assert(check_passes(repo, normalize_step(c.source_raw, c.answers)) == out.success);
                assert(repo_answers(repo, c.source_raw, n + 1) == c.answers.push(out.success));
                lemma_source_next(
                    repo,
                    SummaryJobView { answers: f.answers.push(out.success), ..f },
                    SummaryJobView { answers: c.answers.push(out.success), ..c },
                );
            }
        },
        Reply::Exists(b) => {
            lemma_in_progress_next(
                repo,
                SummaryJobView { answers: f.answers.push(b), ..f },
                SummaryJobView { answers: c.answers.push(b), ..c },
            );
        },
        _ => {},
    }
}

/// The repository's checked-out branch (or detached HEAD), as
/// `git symbolic-ref` reports it, is not the ref it normalizes the source
/// name `raw` to.
pub open spec fn head_elsewhere(repo: spec_fn(RequestView) -> Reply, raw: Seq<char>, out: GitOutput) -> bool {
    &&& repo(RequestView::Git(symbolic_ref_args())) == Reply::Git(Ok(out))
    &&& repo_normalized(repo, raw) matches Some(s) ==> !source_is_head(s, head_branch(out))
}

proof fn lemma_run_before_head(
    mf: SummaryMove,
    mc: SummaryMove,
    repo: spec_fn(RequestView) -> Reply,
    raw: Seq<char>,
    out: GitOutput,
    n: nat,
)
    requires
        moves_before_head(repo, mf, mc) || moves_at_head(repo, mf, mc),
        mf matches StepView::Ask(jf, _) ==> jf.source_raw == raw,
        head_elsewhere(repo, raw, out),
        answers_in_kind(repo),
    ensures
        summary_run(mc, repo, n) matches Some(rc) ==> summary_run(mf, repo, n + 1) matches Some(rf)
            && one_warning_more(rf, rc, scope_fallback_warning(raw, head_branch(out))),
    decreases n,
{
    let extra = scope_fallback_warning(raw, head_branch(out));
    if moves_at_head(repo, mf, mc) {
        let hf = mf->Ask_0;
        let cur = head_branch(out);
        assert(!source_is_head(hf.source, cur));
        let a = SummaryJobView { scope: SourceScope::Committed, warnings: hf.warnings.push(extra), ..hf };
        let b = SummaryJobView { requested: SourceScope::Committed, scope: SourceScope::Committed, ..hf };
        let k = b.warnings.len() as int;
        assert(inserted(b.warnings, extra, k) =~= hf.warnings.push(extra));
        lemma_scope_fixed(a, b, extra, k);
        assert(summary_next(hf, repo(RequestView::Git(symbolic_ref_args()))) == scope_fixed(a));
        lemma_fallback_run(scope_fixed(a), mc, repo, extra, k, n);
        if let Some(Ok(sc)) = summary_run(mc, repo, n) {
            assert(summary_run(mf, repo, n + 1) == Some(
                Ok::<DiffSummaryView, Seq<char>>(summary_with(sc, extra, k)),
            ));
        }
    } else if let StepView::Ask(jc, req) = mc {
        if n > 0 {
            let jf = mf->Ask_0;
            assert(repo(req).kind() == req.reply_kind());
            lemma_step_before_head(repo, jf, jc, req);
            lemma_run_before_head(
                summary_next(jf, repo(req)),
                summary_next(jc, repo(req)),
                repo,
                raw,
                out,
                (n - 1) as nat,
            );
        }
    }
}

/// A summary asked for in the `staged` or `unstaged` scope of a source
/// that is not the checked-out branch is the `committed` summary of the
/// same repository, with one warning more: that the source is not the
/// checked-out branch and the scope was fixed to `committed` (or the same
/// error). The working-tree run makes one request more, the HEAD check.
/// Neither summary lists or counts an untracked file.
pub proof fn lemma_fallback_matches_committed(
    target: Seq<char>,
    source: Seq<char>,
    mode: CompareMode,
    scope: SourceScope,
    ignore_ws: bool,
    repo: spec_fn(RequestView) -> Reply,
    head: GitOutput,
    n: nat,
)
    requires
        scope != SourceScope::Committed,
        answers_in_kind(repo),
        head_elsewhere(repo, source, head),
    ensures
        summary_run(summary_start(target, source, mode, SourceScope::Committed, ignore_ws), repo, n)
            matches Some(rc) ==> summary_run(
            summary_start(target, source, mode, scope, ignore_ws),
            repo,
            n + 1,
        ) matches Some(rf) && one_warning_more(rf, rc, scope_fallback_warning(source, head_branch(head))),
        summary_run(summary_start(target, source, mode, SourceScope::Committed, ignore_ws), repo, n)
            matches Some(Ok(sc)) ==> sc.omitted_untracked is None && no_untracked(sc.files),
        summary_run(summary_start(target, source, mode, scope, ignore_ws), repo, n + 1) matches Some(
            Ok(sf),
        ) ==> sf.omitted_untracked is None && no_untracked(sf.files),
{
    let mf = summary_start(target, source, mode, scope, ignore_ws);
    let mc = summary_start(target, source, mode, SourceScope::Committed, ignore_ws);
    let f0 = SummaryJobView {
        target_raw: target,
        source_raw: source,
        mode: mode,
        requested: scope,
        ignore_ws: ignore_ws,
        stage: SummaryStage::InProgressPath,
        answers: seq![],
        target: seq![],
        source: seq![],
        scope: scope,
        base_rev: seq![],
        merge_base: None,
        scope_args: seq![],
        name_status: seq![],
        files: seq![],
        untracked: seq![],
        omitted: None,
        index: 0,
        size: 0,
        warnings: seq![],
    };
    let c0 = SummaryJobView { requested: SourceScope::Committed, scope: SourceScope::Committed, ..f0 };
    assert(mf == in_progress_next(f0));
    assert(mc == in_progress_next(c0));
    lemma_in_progress_next(repo, f0, c0);
    lemma_run_before_head(mf, mc, repo, source, head, n);
    let qc = SummaryQuery { target, source, mode, scope: SourceScope::Committed, ignore_ws };
    let qf = SummaryQuery { target, source, mode, scope, ignore_ws };
    lemma_summary_lists_repository_diff(target, source, mode, SourceScope::Committed, ignore_ws, repo, n);
    lemma_summary_lists_repository_diff(target, source, mode, scope, ignore_ws, repo, n + 1);
    assert(repo_head(repo) == head_branch(head));
    assert(!untracked_listed(repo, qc));
    assert(!untracked_listed(repo, qf));
    if let Some(sa) = requested_operands(repo, qc) {
        lemma_diff_files_tracked(repo, sa, ignore_ws);
    }
    if let Some(sa) = requested_operands(repo, qf) {
        lemma_diff_files_tracked(repo, sa, ignore_ws);
    }
}

} // verus!
