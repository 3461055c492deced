//! Whole runs of a file request against a modelled repository, and the
//! size guard stated over them: a file is reported as too large only with
//! the guard on and a side over [`MAX_FILE_DIFF_BYTES`], and never with
//! `force`; and a working-tree file that does not exist comes back with
//! no head text.

use vstd::prelude::*;

use crate::file_diff::{PathStyle, ResolvedView, SideView, SpecialModeView};
use crate::file_job::{
    begin_base, begin_head, file_next, file_start, sides_ready, source_next, target_next,
    FileJobView, FileMove, FileStage,
};
use crate::session::{EntryKind, Reply, RequestView, StepView};
use crate::summary::MAX_FILE_DIFF_BYTES;
use crate::types::{CompareMode, FileContentsView, SourceScope};

verus! {

/// The outcome of feeding the file job behind `m` the answers of `repo`,
/// within `fuel` requests; `None` when it needs more.
pub open spec fn file_run(
    m: FileMove,
    repo: spec_fn(RequestView) -> Reply,
    fuel: nat,
) -> Option<Result<FileContentsView, Seq<char>>>
    decreases fuel,
{
    match m {
        StepView::Done(r) => Some(r),
        StepView::Ask(j, req) => if fuel == 0 {
            None
        } else {
            file_run(file_next(j, repo(req)), repo, (fuel - 1) as nat)
        },
    }
}

/// The result obeys the size guard: it is marked too large only when the
/// guard is on (`force` off) and its size is over the guard, so never
/// with `force`.
pub open spec fn guard_obeyed(fc: FileContentsView, force: bool) -> bool {
    fc.is_too_large is Some ==> fc.is_too_large == Some(true) && !force && (fc.size_bytes matches Some(
        n,
    ) && n > MAX_FILE_DIFF_BYTES)
}

/// A side read so far obeys the size guard.
pub open spec fn side_obeys_guard(r: ResolvedView, force: bool) -> bool {
    r matches ResolvedView::TooLarge(n) ==> !force && n > MAX_FILE_DIFF_BYTES
}

/// A move of a run with `force` as given: a job whose base side obeys the
/// guard, or a result that does.
pub open spec fn guard_move(m: FileMove, force: bool) -> bool {
    match m {
        StepView::Ask(j, _) => j.force == force && side_obeys_guard(j.base_result, force),
        StepView::Done(Ok(fc)) => guard_obeyed(fc, force),
        StepView::Done(Err(_)) => true,
    }
}

proof fn lemma_guard_step(j: FileJobView, reply: Reply)
    requires
        side_obeys_guard(j.base_result, j.force),
    ensures
        guard_move(file_next(j, reply), j.force),
{
}

proof fn lemma_guard_run(m: FileMove, repo: spec_fn(RequestView) -> Reply, force: bool, n: nat)
    requires
        guard_move(m, force),
    ensures
        file_run(m, repo, n) matches Some(Ok(fc)) ==> guard_obeyed(fc, force),
    decreases n,
{
    if let StepView::Ask(j, r) = m {
        if n > 0 {
            lemma_guard_step(j, repo(r));
            lemma_guard_run(file_next(j, repo(r)), repo, force, (n - 1) as nat);
        }
    }
}

/// Over a whole run, a file is reported as too large only without `force`
/// and with its size over the guard; with `force` it never is.
pub proof fn lemma_size_guard_over_runs(
    target: Seq<char>,
    source: Seq<char>,
    mode: CompareMode,
    scope: SourceScope,
    path: Seq<char>,
    old_path: Option<Seq<char>>,
    force: bool,
    style: PathStyle,
    repo: spec_fn(RequestView) -> Reply,
    n: nat,
)
    ensures
        file_run(file_start(target, source, mode, scope, path, old_path, force, style), repo, n)
            matches Some(Ok(fc)) ==> guard_obeyed(fc, force),
{
    lemma_guard_run(file_start(target, source, mode, scope, path, old_path, force, style), repo, force, n);
}

// ---------------------------------------------------------------------------
// a working-tree file that is gone
/// How far an `unstaged` request for `path` has got, in a repository where
/// nothing exists at `path` in the working tree: the head side is the
/// working-tree file, found to be a plain (absent) entry, and the only
/// requests about it are what it is and how large.
pub open spec fn gone_progress(j: FileJobView, r: RequestView, path: Seq<char>) -> bool {
    let sides = j.head_side == SideView::WorkingTree(path) && j.base_side is Blob;
    &&& j.scope == SourceScope::Unstaged
    &&& j.path == path
    &&& match j.stage {
        FileStage::Target | FileStage::Source | FileStage::MergeBase => true,
        FileStage::LookupMode => sides && !j.on_head,
        FileStage::Inspect => sides && j.on_head && r == RequestView::Inspect(path),
        FileStage::Probe | FileStage::Show => sides && !j.on_head && j.head_mode
            == SpecialModeView::Normal,
        FileStage::WorktreeSize => sides && j.on_head && j.head_mode == SpecialModeView::Normal && r
            == RequestView::WorktreeSize(path),
        _ => false,
    }
}

/// A move of such a request: a job on its way, or a result without head
/// text.
pub open spec fn gone_move(m: FileMove, path: Seq<char>) -> bool {
    match m {
        StepView::Ask(j, r) => gone_progress(j, r, path),
        StepView::Done(Ok(fc)) => fc.head is None,
        StepView::Done(Err(_)) => true,
    }
}

/// The repository reports nothing at `path` in the working tree: no
/// symlink or submodule checkout, and no file to measure.
pub open spec fn worktree_path_gone(repo: spec_fn(RequestView) -> Reply, path: Seq<char>) -> bool {
    &&& repo(RequestView::Inspect(path)) == Reply::Kind(EntryKind::Other)
    &&& repo(RequestView::WorktreeSize(path)) == Reply::MaybeSize(Ok(None))
}

proof fn lemma_gone_begin_head(j: FileJobView, path: Seq<char>)
    requires
        j.scope == SourceScope::Unstaged,
        j.path == path,
        j.head_side == SideView::WorkingTree(path),
        j.base_side is Blob,
        j.head_mode == SpecialModeView::Normal,
    ensures
        gone_move(begin_head(j), path),
{
}

proof fn lemma_gone_begin_base(j: FileJobView, path: Seq<char>)
    requires
        j.scope == SourceScope::Unstaged,
        j.path == path,
        j.head_side == SideView::WorkingTree(path),
        j.base_side is Blob,
        j.head_mode == SpecialModeView::Normal,
    ensures
        gone_move(begin_base(j), path),
{
    if let SpecialModeView::Submodule(sha) = j.base_mode {
        lemma_gone_begin_head(
            FileJobView { base_result: crate::file_job::submodule_bytes(sha), ..j },
            path,
        );
    }
}

proof fn lemma_gone_sides_ready(j: FileJobView, base: Seq<char>, path: Seq<char>)
    requires
        j.scope == SourceScope::Unstaged,
        j.path == path,
    ensures
        gone_move(sides_ready(j, base), path),
{
}

proof fn lemma_gone_source_next(j: FileJobView, path: Seq<char>)
    requires
        j.scope == SourceScope::Unstaged,
        j.path == path,
    ensures
        gone_move(source_next(j), path),
{
    if let crate::refs::RefStepView::Done(Ok(s)) = crate::refs::normalize_step(j.source_raw, j.answers) {
        let j2 = FileJobView { source: s, answers: seq![], ..j };
        if j2.mode == CompareMode::Tips {
            lemma_gone_sides_ready(j2, j2.target, path);
        }
    }
}

proof fn lemma_gone_target_next(j: FileJobView, path: Seq<char>)
    requires
        j.scope == SourceScope::Unstaged,
        j.path == path,
    ensures
        gone_move(target_next(j), path),
{
    if let crate::refs::RefStepView::Done(Ok(t)) = crate::refs::normalize_step(j.target_raw, j.answers) {
        lemma_gone_source_next(FileJobView { target: t, answers: seq![], ..j }, path);
    }
}

proof fn lemma_gone_step(j: FileJobView, r: RequestView, repo: spec_fn(RequestView) -> Reply, path: Seq<char>)
    requires
        gone_progress(j, r, path),
        worktree_path_gone(repo, path),
    ensures
        gone_move(file_next(j, repo(r)), path),
{
    let reply = repo(r);
    if j.stage == FileStage::Target {
        if let Reply::Git(Ok(out)) = reply {
            lemma_gone_target_next(FileJobView { answers: j.answers.push(out.success), ..j }, path);
        }
    } else if j.stage == FileStage::Source {
        if let Reply::Git(Ok(out)) = reply {
            lemma_gone_source_next(FileJobView { answers: j.answers.push(out.success), ..j }, path);
        }
    } else if j.stage == FileStage::MergeBase {
        if let Reply::Git(Ok(out)) = reply {
            if let Ok(Some(b)) = crate::summary::merge_base_outcome(out).0 {
                lemma_gone_sides_ready(j, b, path);
            }
        }
    } else if j.stage == FileStage::Inspect {
        let j2 = FileJobView {
            head_mode: SpecialModeView::Normal,
            note: crate::file_diff::note_spec(j.base_mode, SpecialModeView::Normal),
            ..j
        };
        lemma_gone_begin_base(j2, path);
    } else if j.stage == FileStage::Probe {
        if let Reply::Git(Ok(out)) = reply {
            match crate::file_diff::probe_spec(out, j.blob) {
                Ok(crate::file_diff::Probe::Missing) => {
                    lemma_gone_begin_head(FileJobView { base_result: ResolvedView::Missing, ..j }, path);
                },
                Ok(crate::file_diff::Probe::Size(n)) => {
                    lemma_gone_begin_head(FileJobView { base_result: ResolvedView::TooLarge(n), ..j }, path);
                },
                _ => {},
            }
        }
    } else if j.stage == FileStage::Show {
        if let Reply::Git(Ok(out)) = reply {
            lemma_gone_begin_head(FileJobView { base_result: ResolvedView::Bytes(out.stdout@), ..j }, path);
        }
    }
}

proof fn lemma_gone_run(m: FileMove, repo: spec_fn(RequestView) -> Reply, path: Seq<char>, n: nat)
    requires
        gone_move(m, path),
        worktree_path_gone(repo, path),
    ensures
        file_run(m, repo, n) matches Some(Ok(fc)) ==> fc.head is None,
    decreases n,
{
    if let StepView::Ask(j, r) = m {
        if n > 0 {
            lemma_gone_step(j, r, repo, path);
            lemma_gone_run(file_next(j, repo(r)), repo, path, (n - 1) as nat);
        }
    }
}

/// In the `unstaged` scope the head side is the working-tree file: when
/// nothing exists at the path there (the file was deleted and the deletion
/// not staged), the result has no head text, whatever the base side holds.
pub proof fn lemma_deleted_worktree_file_has_no_head(
    target: Seq<char>,
    source: Seq<char>,
    mode: CompareMode,
    path: Seq<char>,
    old_path: Option<Seq<char>>,
    force: bool,
    style: PathStyle,
    repo: spec_fn(RequestView) -> Reply,
    n: nat,
)
    requires
        worktree_path_gone(repo, path),
    ensures
        file_run(
            file_start(target, source, mode, SourceScope::Unstaged, path, old_path, force, style),
            repo,
            n,
        ) matches Some(Ok(fc)) ==> fc.head is None,
{
    let m = file_start(target, source, mode, SourceScope::Unstaged, path, old_path, force, style);
    let j = FileJobView {
        path: path,
        old_path: old_path,
        target_raw: target,
        source_raw: source,
        mode: mode,
        scope: SourceScope::Unstaged,
        force: force,
        stage: FileStage::Target,
        answers: seq![],
        target: seq![],
        source: seq![],
        base_side: SideView::WorkingTree(seq![]),
        head_side: SideView::WorkingTree(seq![]),
        base_mode: SpecialModeView::Normal,
        head_mode: SpecialModeView::Normal,
        note: None,
        on_head: false,
        blob: seq![],
        base_result: ResolvedView::Missing,
    };
    lemma_gone_target_next(j, path);
    assert(m is Done || m == target_next(j));
    lemma_gone_run(m, repo, path, n);
}

} // verus!
