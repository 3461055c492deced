//! Both sides' full text of one file, as a state machine.
//!
//! [`FileJob::start`] takes the request and [`FileJob::step`] each reply.
//! In order, the job
//! 1. rejects a path (or old path) that is empty, holds NUL, is absolute
//!    or climbs out of the repository,
//! 2. normalizes `target`, then `source`,
//! 3. finds the base revision: the merge base (an error when there is
//!    none) or the target tip,
//! 4. detects a submodule or symlink on the base side, then the head side,
//! 5. reads the base side, then the head side: a submodule's content is
//!    synthesized, a working-tree symlink's is its target text, and
//!    anything else is probed for its size first, so that an oversized
//!    side is never read unless forced,
//! 6. assembles the result: the size alone for an oversized side, the
//!    binary flag alone for binary content, else both texts.

use vstd::prelude::*;

use crate::file_diff::{
    blob_mode_spec, blob_special_mode, exceeds_size_guard, file_contents, file_contents_spec,
    file_diff_base, file_diff_sides, lookup_mode, mode_lookup_spec, note_spec, probe_blob, probe_spec,
    relative_path_check, shown_blob, sides_spec, special_note, submodule_content, submodule_text,
    validate_repo_relative_path, PathStyle, Probe, ResolvedSide, ResolvedView, Side, SideView, SpecialMode,
    SpecialModeView,
};
use crate::process::{stdout_trimmed, GitOutput};
use crate::refs::{normalize_ref, normalize_step, ref_check_args, ref_check_args_spec, RefStep, RefStepView};
use crate::session::{
    lemma_plain_safe, lemma_subcommand_literals, safe_git_args, safe_request, safe_step, EntryKind,
    Reply, ReplyKind, Request, RequestView, Step, StepView,
};
use crate::summary::{compute_merge_base, merge_base_outcome, MAX_FILE_DIFF_BYTES};
use crate::summary_job::merge_base_args;
use crate::text::{concat2, trimmed_text};
use crate::types::{CompareMode, DiffParams, FileContents, FileContentsView, SourceScope};

verus! {

/// Where a [`FileJob`] stands: what it waits for.
#[derive(Debug, Clone, Copy, PartialEq, Eq, Structural)]
pub enum FileStage {
    /// A check normalizing `target`.
    Target,
    /// A check normalizing `source`.
    Source,
    /// `git merge-base --all <target> <source>`.
    MergeBase,
    /// `git ls-tree` / `git ls-files -s` of a blob side.
    LookupMode,
    /// What the working-tree side is.
    Inspect,
    /// `git rev-parse --short HEAD` inside a submodule checkout.
    SubmoduleSha,
    /// `git cat-file -s` of a blob side.
    Probe,
    /// `git show` of a blob side.
    Show,
    /// The target of a working-tree symlink.
    Link,
    /// The size of a working-tree file.
    WorktreeSize,
    /// The content of a working-tree file.
    WorktreeRead,
}

/// The state of one file request.
pub struct FileJob {
    path: String,
    old_path: Option<String>,
    target_raw: String,
    source_raw: String,
    mode: CompareMode,
    scope: SourceScope,
    force: bool,
    stage: FileStage,
    answers: Vec<bool>,
    target: String,
    source: String,
    base_side: Side,
    head_side: Side,
    base_mode: SpecialMode,
    head_mode: SpecialMode,
    note: Option<String>,
    on_head: bool,
    blob: String,
    base_result: ResolvedSide,
}

/// Mathematical model of a [`FileJob`].
pub struct FileJobView {
    pub path: Seq<char>,
    pub old_path: Option<Seq<char>>,
    pub target_raw: Seq<char>,
    pub source_raw: Seq<char>,
    pub mode: CompareMode,
    pub scope: SourceScope,
    /// Whether the size guard is off.
    pub force: bool,
    pub stage: FileStage,
    /// Answers to the checks of the normalization under way.
    pub answers: Seq<bool>,
    pub target: Seq<char>,
    pub source: Seq<char>,
    pub base_side: SideView,
    pub head_side: SideView,
    pub base_mode: SpecialModeView,
    pub head_mode: SpecialModeView,
    pub note: Option<Seq<char>>,
    /// Whether the side being handled is the head side.
    pub on_head: bool,
    /// `<rev>:<path>` of the blob side being read.
    pub blob: Seq<char>,
    /// The base side's content, once read.
    pub base_result: ResolvedView,
}

impl View for FileJob {
    type V = FileJobView;

    closed spec fn view(&self) -> FileJobView {
        FileJobView {
            path: self.path@,
            old_path: self.old_path.deep_view(),
            target_raw: self.target_raw@,
            source_raw: self.source_raw@,
            mode: self.mode,
            scope: self.scope,
            force: self.force,
            stage: self.stage,
            answers: self.answers@,
            target: self.target@,
            source: self.source@,
            base_side: self.base_side@,
            head_side: self.head_side@,
            base_mode: self.base_mode@,
            head_mode: self.head_mode@,
            note: self.note.deep_view(),
            on_head: self.on_head,
            blob: self.blob@,
            base_result: self.base_result@,
        }
    }
}

/// A transition: the job's next state and request, or its result.
pub type FileMove = StepView<FileJobView, FileContentsView>;

// ---------------------------------------------------------------------------
// the transition function
/// The reply a job in this state waits for.
pub open spec fn file_awaits(j: FileJobView) -> ReplyKind {
    match j.stage {
        FileStage::Inspect => ReplyKind::Kind,
        FileStage::Link => ReplyKind::Link,
        FileStage::WorktreeSize => ReplyKind::MaybeSize,
        FileStage::WorktreeRead => ReplyKind::Bytes,
        _ => ReplyKind::Git,
    }
}

/// The side being handled.
pub open spec fn current_side(j: FileJobView) -> SideView {
    if j.on_head {
        j.head_side
    } else {
        j.base_side
    }
}

/// The job's own invariant: a blob is asked about only for a blob side, a
/// working-tree entry only for a working-tree side.
pub open spec fn file_wf(j: FileJobView) -> bool {
    &&& (j.stage == FileStage::LookupMode || j.stage == FileStage::Probe || j.stage
        == FileStage::Show) ==> current_side(j) is Blob
    &&& (j.stage == FileStage::Inspect || j.stage == FileStage::SubmoduleSha || j.stage
        == FileStage::Link || j.stage == FileStage::WorktreeSize || j.stage
        == FileStage::WorktreeRead) ==> current_side(j) is WorkingTree
}

/// Ask for `r`, waiting in `stage`.
pub open spec fn ask(j: FileJobView, stage: FileStage, r: RequestView) -> FileMove {
    StepView::Ask(FileJobView { stage: stage, ..j }, r)
}

/// Finish with the error `e`.
pub open spec fn fail(e: Seq<char>) -> FileMove {
    StepView::Done(Err(e))
}

/// The error when the branches share no merge base.
pub open spec fn no_merge_base_error() -> Seq<char> {
    "no merge base found between target and source (unrelated histories?)"@
}

/// `git ls-files -s -z -- <path>` for the index (empty `rev`), else `git
/// ls-tree -z <rev> -- <path>`.
pub open spec fn lookup_args(rev: Seq<char>, path: Seq<char>) -> Seq<Seq<char>> {
    if rev.len() == 0 {
        seq!["ls-files"@, "-s"@, "-z"@, "--"@, path]
    } else {
        seq!["ls-tree"@, "-z"@, rev, "--"@, path]
    }
}

/// `git rev-parse --short HEAD`, run inside a submodule checkout.
pub open spec fn submodule_head_args() -> Seq<Seq<char>> {
    seq!["rev-parse"@, "--short"@, "HEAD"@]
}

/// The synthesized content of a submodule side.
pub open spec fn submodule_bytes(sha: Option<Seq<char>>) -> ResolvedView {
    ResolvedView::Bytes(vstd::utf8::encode_utf8(submodule_text(sha)))
}

/// The result once both sides are read.
pub open spec fn finished(j: FileJobView, head: ResolvedView) -> FileMove {
    StepView::Done(Ok(file_contents_spec(j.path, j.base_result, head, j.note)))
}

/// Starts reading one side: a blob is probed, a working-tree symlink's
/// target is read, any other working-tree file is measured.
pub open spec fn side_request(j: FileJobView, on_head: bool) -> FileMove {
    let j2 = FileJobView { on_head: on_head, ..j };
    let m = if on_head {
        j.head_mode
    } else {
        j.base_mode
    };
    match current_side(j2) {
        SideView::Blob { rev, path } => {
            let b = rev + ":"@ + path;
            ask(
                FileJobView { blob: b, ..j2 },
                FileStage::Probe,
                RequestView::Git(seq!["cat-file"@, "-s"@, b]),
            )
        },
        SideView::WorkingTree(p) => if m is Symlink {
            ask(j2, FileStage::Link, RequestView::ReadLink(p))
        } else {
            ask(j2, FileStage::WorktreeSize, RequestView::WorktreeSize(p))
        },
    }
}

/// Read the head side, synthesizing a submodule's content.
pub open spec fn begin_head(j: FileJobView) -> FileMove {
    match j.head_mode {
        SpecialModeView::Submodule(sha) => finished(j, submodule_bytes(sha)),
        _ => side_request(j, true),
    }
}

/// Read the base side, synthesizing a submodule's content.
pub open spec fn begin_base(j: FileJobView) -> FileMove {
    match j.base_mode {
        SpecialModeView::Submodule(sha) => begin_head(
            FileJobView { base_result: submodule_bytes(sha), ..j },
        ),
        _ => side_request(j, false),
    }
}

/// The side being read has content `r`.
pub open spec fn resolved(j: FileJobView, r: ResolvedView) -> FileMove {
    if j.on_head {
        finished(j, r)
    } else {
        begin_head(FileJobView { base_result: r, ..j })
    }
}

/// Starts detecting the mode of one side.
pub open spec fn mode_request(j: FileJobView, on_head: bool) -> FileMove {
    let j2 = FileJobView { on_head: on_head, ..j };
    match current_side(j2) {
        SideView::Blob { rev, path } => ask(
            j2,
            FileStage::LookupMode,
            RequestView::Git(lookup_args(rev, path)),
        ),
        SideView::WorkingTree(p) => ask(j2, FileStage::Inspect, RequestView::Inspect(p)),
    }
}

/// The side being handled has mode `m`.
pub open spec fn mode_found(j: FileJobView, m: SpecialModeView) -> FileMove {
    if j.on_head {
        begin_base(FileJobView { head_mode: m, note: note_spec(j.base_mode, m), ..j })
    } else {
        mode_request(FileJobView { base_mode: m, ..j }, true)
    }
}

/// The base revision is `base_rev`: place both sides and detect their modes.
pub open spec fn sides_ready(j: FileJobView, base_rev: Seq<char>) -> FileMove {
    let (b, h) = sides_spec(j.scope, base_rev, j.source, j.path, j.old_path);
    mode_request(FileJobView { base_side: b, head_side: h, ..j }, false)
}

/// With both refs normalized: find the base revision.
pub open spec fn after_source(j: FileJobView) -> FileMove {
    match j.mode {
        CompareMode::MergeBase => ask(
            j,
            FileStage::MergeBase,
            RequestView::Git(merge_base_args(j.target, j.source)),
        ),
        CompareMode::Tips => sides_ready(j, j.target),
    }
}

/// The next check normalizing `source`, or its outcome.
pub open spec fn source_next(j: FileJobView) -> FileMove {
    match normalize_step(j.source_raw, j.answers) {
        RefStepView::Done(Err(e)) => fail(e),
        RefStepView::Done(Ok(s)) => after_source(FileJobView { source: s, answers: seq![], ..j }),
        step => ask(j, FileStage::Source, RequestView::Git(ref_check_args_spec(step))),
    }
}

/// The next check normalizing `target`, or its outcome.
pub open spec fn target_next(j: FileJobView) -> FileMove {
    match normalize_step(j.target_raw, j.answers) {
        RefStepView::Done(Err(e)) => fail(e),
        RefStepView::Done(Ok(t)) => source_next(FileJobView { target: t, answers: seq![], ..j }),
        step => ask(j, FileStage::Target, RequestView::Git(ref_check_args_spec(step))),
    }
}

/// The merge base: the base revision, or an error.
pub open spec fn merge_base_answered(j: FileJobView, out: GitOutput) -> FileMove {
    match merge_base_outcome(out).0 {
        Err(e) => fail(e),
        Ok(None) => fail(no_merge_base_error()),
        Ok(Some(b)) => sides_ready(j, b),
    }
}

/// The looked-up mode of a blob side.
pub open spec fn lookup_answered(j: FileJobView, out: GitOutput) -> FileMove {
    match current_side(j) {
        SideView::Blob { rev, path } => match mode_lookup_spec(out, rev, path) {
            Err(e) => fail(e),
            Ok(l) => mode_found(j, blob_mode_spec(l)),
        },
        SideView::WorkingTree(_) => fail(seq![]),
    }
}

/// What the working-tree side is; a submodule checkout is asked for its commit.
pub open spec fn inspect_answered(j: FileJobView, k: EntryKind) -> FileMove {
    match k {
        EntryKind::Symlink => mode_found(j, SpecialModeView::Symlink),
        EntryKind::SubmoduleCheckout => match current_side(j) {
            SideView::WorkingTree(p) => ask(
                j,
                FileStage::SubmoduleSha,
                RequestView::GitIn(p, submodule_head_args()),
            ),
            SideView::Blob { .. } => fail(seq![]),
        },
        EntryKind::Other => mode_found(j, SpecialModeView::Normal),
    }
}

/// The checked-out commit of a submodule: unknown when git could not be
/// run or failed.
pub open spec fn submodule_sha(r: Result<GitOutput, String>) -> Option<Seq<char>> {
    match r {
        Ok(out) => if out.success {
            Some(trimmed_text(out.stdout@))
        } else {
            None
        },
        Err(_) => None,
    }
}

/// A blob side's probe: absent, oversized, or shown next.
pub open spec fn probe_answered(j: FileJobView, out: GitOutput) -> FileMove {
    match probe_spec(out, j.blob) {
        Err(e) => fail(e),
        Ok(Probe::Missing) => resolved(j, ResolvedView::Missing),
        Ok(Probe::Size(n)) => if !j.force && n > MAX_FILE_DIFF_BYTES {
            resolved(j, ResolvedView::TooLarge(n))
        } else {
            ask(j, FileStage::Show, RequestView::Git(seq!["show"@, j.blob]))
        },
    }
}

/// A blob side's content.
pub open spec fn show_answered(j: FileJobView, out: GitOutput) -> FileMove {
    if out.success {
        resolved(j, ResolvedView::Bytes(out.stdout@))
    } else {
        fail("git show "@ + j.blob + " failed: "@ + trimmed_text(out.stderr@))
    }
}

/// A working-tree side's size: absent, oversized, or read next.
pub open spec fn size_answered(j: FileJobView, r: Result<Option<u64>, String>) -> FileMove {
    match r {
        Err(e) => fail("failed to stat working tree file: "@ + e@),
        Ok(None) => resolved(j, ResolvedView::Missing),
        Ok(Some(n)) => if !j.force && n > MAX_FILE_DIFF_BYTES {
            resolved(j, ResolvedView::TooLarge(n))
        } else {
            match current_side(j) {
                SideView::WorkingTree(p) => ask(j, FileStage::WorktreeRead, RequestView::ReadFile(p)),
                SideView::Blob { .. } => fail(seq![]),
            }
        },
    }
}

/// The transition of a job on one reply.
pub open spec fn file_next(j: FileJobView, reply: Reply) -> FileMove {
    match j.stage {
        FileStage::SubmoduleSha => match reply {
            Reply::Git(r) => mode_found(j, SpecialModeView::Submodule(submodule_sha(r))),
            _ => fail(seq![]),
        },
        FileStage::Inspect => match reply {
            Reply::Kind(k) => inspect_answered(j, k),
            _ => fail(seq![]),
        },
        FileStage::Link => match reply {
            Reply::Link(Err(e)) => fail(e@),
            Reply::Link(Ok(t)) => resolved(j, ResolvedView::Bytes(vstd::utf8::encode_utf8(t@))),
            _ => fail(seq![]),
        },
        FileStage::WorktreeSize => match reply {
            Reply::MaybeSize(r) => size_answered(j, r),
            _ => fail(seq![]),
        },
        FileStage::WorktreeRead => match reply {
            Reply::Bytes(Err(e)) => fail("failed to read working tree file: "@ + e@),
            Reply::Bytes(Ok(b)) => resolved(j, ResolvedView::Bytes(b@)),
            _ => fail(seq![]),
        },
        _ => match reply {
            Reply::Git(Err(e)) => fail(e@),
            Reply::Git(Ok(out)) => match j.stage {
                FileStage::Target => target_next(
                    FileJobView { answers: j.answers.push(out.success), ..j },
                ),
                FileStage::Source => source_next(
                    FileJobView { answers: j.answers.push(out.success), ..j },
                ),
                FileStage::MergeBase => merge_base_answered(j, out),
                FileStage::LookupMode => lookup_answered(j, out),
                FileStage::Probe => probe_answered(j, out),
                FileStage::Show => show_answered(j, out),
                _ => fail(seq![]),
            },
            _ => fail(seq![]),
        },
    }
}

/// The first transition: from the request's parameters.
pub open spec fn file_start(
    target: Seq<char>,
    source: Seq<char>,
    mode: CompareMode,
    scope: SourceScope,
    path: Seq<char>,
    old_path: Option<Seq<char>>,
    force: bool,
    style: PathStyle,
) -> FileMove {
    let j = FileJobView {
        path: path,
        old_path: old_path,
        target_raw: target,
        source_raw: source,
        mode: mode,
        scope: scope,
        force: force,
        stage: FileStage::Target,
        answers: seq![],
        target: seq![],
        source: seq![],
        base_side: SideView::WorkingTree(seq![]),
        head_side: SideView::WorkingTree(seq![]),
        base_mode: SpecialModeView::Normal,
        head_mode: SpecialModeView::Normal,
        note: None,
        on_head: false,
        blob: seq![],
        base_result: ResolvedView::Missing,
    };
    match relative_path_check(style, path) {
        Err(e) => fail(e),
        Ok(_) => match old_path {
            Some(op) => match relative_path_check(style, op) {
                Err(e) => fail(e),
                Ok(_) => target_next(j),
            },
            None => target_next(j),
        },
    }
}


// ---------------------------------------------------------------------------
// safety of the requests
/// A transition that asks for work leaves a well-formed job waiting for
/// the reply to a read-only request.
pub open spec fn good_move(m: FileMove) -> bool {
    match m {
        StepView::Ask(j, r) => file_wf(j) && file_awaits(j) == r.reply_kind() && safe_request(r),
        StepView::Done(_) => true,
    }
}

proof fn lemma_file_args_safe(rev: Seq<char>, path: Seq<char>, blob: Seq<char>)
    ensures
        safe_git_args(lookup_args(rev, path)),
        safe_git_args(seq!["cat-file"@, "-s"@, blob]),
        safe_git_args(seq!["show"@, blob]),
        safe_git_args(submodule_head_args()),
{
    lemma_subcommand_literals();
    lemma_plain_safe(lookup_args(rev, path));
    lemma_plain_safe(seq!["cat-file"@, "-s"@, blob]);
    lemma_plain_safe(seq!["show"@, blob]);
    lemma_plain_safe(submodule_head_args());
}

proof fn lemma_ref_and_base_args_safe(step: RefStepView, t: Seq<char>, s: Seq<char>)
    ensures
        (step is CheckFormat || step is CheckExists) ==> safe_git_args(ref_check_args_spec(step)),
        safe_git_args(merge_base_args(t, s)),
{
    lemma_subcommand_literals();
    if step is CheckFormat || step is CheckExists {
        lemma_plain_safe(ref_check_args_spec(step));
    }
    lemma_plain_safe(merge_base_args(t, s));
}

// ---------------------------------------------------------------------------
// laws
/// A path or old path that fails validation is refused before anything is
/// asked of git or the file system.
pub proof fn lemma_invalid_path_asks_nothing(
    target: Seq<char>,
    source: Seq<char>,
    mode: CompareMode,
    scope: SourceScope,
    path: Seq<char>,
    old_path: Option<Seq<char>>,
    force: bool,
    style: PathStyle,
)
    requires
        relative_path_check(style, path) is Err || (old_path matches Some(op) && relative_path_check(
            style,
            op,
        ) is Err),
    ensures
        file_start(target, source, mode, scope, path, old_path, force, style) matches StepView::Done(
            Err(_),
        ),
{
}

/// The reply reports the side being read as larger than the size guard.
pub open spec fn reports_oversized(j: FileJobView, reply: Reply) -> bool {
    match reply {
        Reply::Git(Ok(out)) => j.stage == FileStage::Probe && match probe_spec(out, j.blob) {
            Ok(Probe::Size(n)) => n > MAX_FILE_DIFF_BYTES,
            _ => false,
        },
        Reply::MaybeSize(Ok(Some(n))) => j.stage == FileStage::WorktreeSize && n
            > MAX_FILE_DIFF_BYTES,
        _ => false,
    }
}

/// A request for a side's content: `git show` of a blob or a read of a
/// working-tree file.
pub open spec fn reads_content(r: RequestView) -> bool {
    match r {
        RequestView::ReadFile(_) => true,
        RequestView::Git(a) => a.len() > 0 && a[0] == "show"@,
        _ => false,
    }
}

/// The size guard: once a side turns out larger than the guard and `force`
/// is off, its content is never asked for. The job goes on with the other
/// side, or answers with the size alone.
pub proof fn lemma_size_guard_blocks_reads(j: FileJobView, reply: Reply)
    requires
        !j.force,
        reports_oversized(j, reply),
    ensures
        file_next(j, reply) matches StepView::Ask(_, r) ==> !reads_content(r),
        file_next(j, reply) matches StepView::Done(Ok(fc)) ==> fc.is_too_large == Some(true)
            && fc.base is None && fc.head is None,
{
    reveal_strlit("cat-file");
    reveal_strlit("show");
    assert("cat-file"@.len() != "show"@.len());
}

// ---------------------------------------------------------------------------
// the executable machine
fn copy_side(s: &Side) -> (res: Side)
    ensures
        res@ == s@,
{
    match s {
        Side::Blob { rev, path } => Side::Blob { rev: rev.clone(), path: path.clone() },
        Side::WorkingTree(p) => Side::WorkingTree(p.clone()),
    }
}

fn copy_opt_string(o: &Option<String>) -> (res: Option<String>)
    ensures
        res.deep_view() == o.deep_view(),
{
    match o {
        Some(s) => Some(s.clone()),
        None => None,
    }
}

fn lookup_args_exec(rev: &String, path: &String) -> (res: Vec<String>)
    ensures
        res.deep_view() == lookup_args(rev@, path@),
{
    let v = if rev.as_str().is_empty() {
        vec![
            String::from_str("ls-files"),
            String::from_str("-s"),
            String::from_str("-z"),
            String::from_str("--"),
            path.clone(),
        ]
    } else {
        vec![
            String::from_str("ls-tree"),
            String::from_str("-z"),
            rev.clone(),
            String::from_str("--"),
            path.clone(),
        ]
    };
    assert(v.deep_view() =~= lookup_args(rev@, path@));
    v
}

fn submodule_sha_exec(r: Result<GitOutput, String>) -> (res: Option<String>)
    ensures
        res.deep_view() == submodule_sha(r),
{
    match r {
        Ok(out) => if out.success {
            Some(stdout_trimmed(&out))
        } else {
            None
        },
        Err(_) => None,
    }
}

impl FileJob {
    fn into_ask(self, stage: FileStage, r: Request) -> (res: Step<FileJob, FileContents>)
        requires
            file_wf(FileJobView { stage: stage, ..self@ }),
            file_awaits(FileJobView { stage: stage, ..self@ }) == r@.reply_kind(),
            safe_request(r@),
        ensures
            res@ == ask(self@, stage, r@),
            good_move(res@),
    {
        let mut j = self;
        j.stage = stage;
        Step::Ask(j, r)
    }

    /// A copy of the side being handled.
    fn current(&self) -> (res: Side)
        ensures
            res@ == current_side(self@),
    {
        if self.on_head {
            copy_side(&self.head_side)
        } else {
            copy_side(&self.base_side)
        }
    }

    fn finished_exec(self, head: ResolvedSide) -> (res: Step<FileJob, FileContents>)
        ensures
            res@ == finished(self@, head@),
    {
        let FileJob { path, base_result, note, .. } = self;
        Step::Done(Ok(file_contents(path, base_result, head, note)))
    }

    fn side_request_exec(self, on_head: bool) -> (res: Step<FileJob, FileContents>)
        ensures
            res@ == side_request(self@, on_head),
            good_move(res@),
    {
        let ghost j0 = self@;
        let link = match (if on_head {
            &self.head_mode
        } else {
            &self.base_mode
        }) {
            SpecialMode::Symlink => true,
            _ => false,
        };
        let mut j = self;
        j.on_head = on_head;
        assert(j@ == FileJobView { on_head: on_head, ..j0 });
        let side = j.current();
        match side {
            Side::Blob { rev, path } => {
                let b = Side::blob_spec(rev.as_str(), path.as_str());
                let args = vec![String::from_str("cat-file"), String::from_str("-s"), b.clone()];
                let ghost bv = b@;
                let ghost j1 = j@;
                j.blob = b;
                proof {
                    assert(args.deep_view() =~= seq!["cat-file"@, "-s"@, bv]);
                    lemma_file_args_safe(seq![], seq![], bv);
                    assert(j@ == FileJobView { blob: bv, ..j1 });
                }
                j.into_ask(FileStage::Probe, Request::Git(args))
            },
            Side::WorkingTree(p) => {
                if link {
                    j.into_ask(FileStage::Link, Request::ReadLink(p))
                } else {
                    j.into_ask(FileStage::WorktreeSize, Request::WorktreeSize(p))
                }
            },
        }
    }

    fn begin_head_exec(self) -> (res: Step<FileJob, FileContents>)
        ensures
            res@ == begin_head(self@),
            good_move(res@),
    {
        let sub = match &self.head_mode {
            SpecialMode::Submodule(sha) => Some(submodule_content(sha)),
            _ => None,
        };
        match sub {
            Some(bytes) => self.finished_exec(ResolvedSide::Bytes(bytes)),
            None => self.side_request_exec(true),
        }
    }

    fn begin_base_exec(self) -> (res: Step<FileJob, FileContents>)
        ensures
            res@ == begin_base(self@),
            good_move(res@),
    {
        let ghost j0 = self@;
        let sub = match &self.base_mode {
            SpecialMode::Submodule(sha) => Some(submodule_content(sha)),
            _ => None,
        };
        match sub {
            Some(bytes) => {
                let ghost r = ResolvedView::Bytes(bytes@);
                let mut j = self;
                j.base_result = ResolvedSide::Bytes(bytes);
                assert(j@ == FileJobView { base_result: r, ..j0 });
                j.begin_head_exec()
            },
            None => self.side_request_exec(false),
        }
    }

    fn resolved_exec(self, r: ResolvedSide) -> (res: Step<FileJob, FileContents>)
        ensures
            res@ == resolved(self@, r@),
            good_move(res@),
    {
        let ghost j0 = self@;
        if self.on_head {
            self.finished_exec(r)
        } else {
            let ghost rv = r@;
            let mut j = self;
            j.base_result = r;
            assert(j@ == FileJobView { base_result: rv, ..j0 });
            j.begin_head_exec()
        }
    }

    fn mode_request_exec(self, on_head: bool) -> (res: Step<FileJob, FileContents>)
        ensures
            res@ == mode_request(self@, on_head),
            good_move(res@),
    {
        let ghost j0 = self@;
        let mut j = self;
        j.on_head = on_head;
        assert(j@ == FileJobView { on_head: on_head, ..j0 });
        let side = j.current();
        match side {
            Side::Blob { rev, path } => {
                let args = lookup_args_exec(&rev, &path);
                proof {
                    lemma_file_args_safe(rev@, path@, seq![]);
                }
                j.into_ask(FileStage::LookupMode, Request::Git(args))
            },
            Side::WorkingTree(p) => j.into_ask(FileStage::Inspect, Request::Inspect(p)),
        }
    }

    fn mode_found_exec(self, m: SpecialMode) -> (res: Step<FileJob, FileContents>)
        ensures
            res@ == mode_found(self@, m@),
            good_move(res@),
    {
        let ghost j0 = self@;
        let ghost mv = m@;
        if self.on_head {
            let note = special_note(&self.base_mode, &m);
            let ghost nv = note.deep_view();
            let mut j = self;
            j.head_mode = m;
            j.note = note;
            assert(j@ == FileJobView { head_mode: mv, note: nv, ..j0 });
            j.begin_base_exec()
        } else {
            let mut j = self;
            j.base_mode = m;
            assert(j@ == FileJobView { base_mode: mv, ..j0 });
            j.mode_request_exec(true)
        }
    }

    fn sides_ready_exec(self, base_rev: String) -> (res: Step<FileJob, FileContents>)
        ensures
            res@ == sides_ready(self@, base_rev@),
            good_move(res@),
    {
        let ghost j0 = self@;
        let old = copy_opt_string(&self.old_path);
        let (b, h) = file_diff_sides(
            self.scope,
            base_rev,
            self.source.clone(),
            self.path.as_str(),
            old,
        );
        let ghost bv = b@;
        let ghost hv = h@;
        let mut j = self;
        j.base_side = b;
        j.head_side = h;
        assert(j@ == FileJobView { base_side: bv, head_side: hv, ..j0 });
        j.mode_request_exec(false)
    }

    fn after_source_exec(self) -> (res: Step<FileJob, FileContents>)
        ensures
            res@ == after_source(self@),
            good_move(res@),
    {
        match self.mode {
            CompareMode::MergeBase => {
                let args = vec![
                    String::from_str("merge-base"),
                    String::from_str("--all"),
                    self.target.clone(),
                    self.source.clone(),
                ];
                proof {
                    assert(args.deep_view() =~= merge_base_args(self@.target, self@.source));
                    lemma_ref_and_base_args_safe(RefStepView::Done(Err(seq![])), self@.target, self@.source);
                }
                self.into_ask(FileStage::MergeBase, Request::Git(args))
            },
            CompareMode::Tips => {
                let t = self.target.clone();
                self.sides_ready_exec(t)
            },
        }
    }

    fn source_next_exec(self) -> (res: Step<FileJob, FileContents>)
        ensures
            res@ == source_next(self@),
            good_move(res@),
    {
        let ghost j0 = self@;
        let step = normalize_ref(self.source_raw.as_str(), self.answers.as_slice());
        let ghost sv = step@;
        match step {
            RefStep::Done(Err(e)) => Step::Done(Err(e)),
            RefStep::Done(Ok(s)) => {
                let ghost s_v = s@;
                let mut j = self;
                j.source = s;
                j.answers = Vec::new();
                assert(j@ == FileJobView { source: s_v, answers: seq![], ..j0 });
                j.after_source_exec()
            },
            RefStep::Check(c) => {
                let args = ref_check_args(&c);
                proof {
                    lemma_ref_and_base_args_safe(sv, seq![], seq![]);
                }
                self.into_ask(FileStage::Source, Request::Git(args))
            },
        }
    }

    fn target_next_exec(self) -> (res: Step<FileJob, FileContents>)
        ensures
            res@ == target_next(self@),
            good_move(res@),
    {
        let ghost j0 = self@;
        let step = normalize_ref(self.target_raw.as_str(), self.answers.as_slice());
        let ghost sv = step@;
        match step {
            RefStep::Done(Err(e)) => Step::Done(Err(e)),
            RefStep::Done(Ok(t)) => {
                let ghost t_v = t@;
                let mut j = self;
                j.target = t;
                j.answers = Vec::new();
                assert(j@ == FileJobView { target: t_v, answers: seq![], ..j0 });
                j.source_next_exec()
            },
            RefStep::Check(c) => {
                let args = ref_check_args(&c);
                proof {
                    lemma_ref_and_base_args_safe(sv, seq![], seq![]);
                }
                self.into_ask(FileStage::Target, Request::Git(args))
            },
        }
    }

    fn merge_base_answered_exec(self, out: GitOutput) -> (res: Step<FileJob, FileContents>)
        ensures
            res@ == merge_base_answered(self@, out),
            good_move(res@),
    {
        let mut scratch: Vec<String> = Vec::new();
        match compute_merge_base(&out, &mut scratch) {
            Err(e) => Step::Done(Err(e)),
            Ok(mb) => match file_diff_base(CompareMode::MergeBase, &self.target, mb) {
                Err(e) => Step::Done(Err(e)),
                Ok(b) => self.sides_ready_exec(b),
            },
        }
    }

    fn lookup_answered_exec(self, out: GitOutput) -> (res: Step<FileJob, FileContents>)
        ensures
            res@ == lookup_answered(self@, out),
            good_move(res@),
    {
        let side = self.current();
        match side {
            Side::Blob { rev, path } => match lookup_mode(&out, rev.as_str(), path.as_str()) {
                Err(e) => Step::Done(Err(e)),
                Ok(l) => {
                    let m = blob_special_mode(l);
                    self.mode_found_exec(m)
                },
            },
            Side::WorkingTree(_) => Step::Done(Err(String::new())),
        }
    }

    fn inspect_answered_exec(self, k: EntryKind) -> (res: Step<FileJob, FileContents>)
        ensures
            res@ == inspect_answered(self@, k),
            good_move(res@),
    {
        match k {
            EntryKind::Symlink => self.mode_found_exec(SpecialMode::Symlink),
            EntryKind::SubmoduleCheckout => {
                let side = self.current();
                match side {
                    Side::WorkingTree(p) => {
                        let args = vec![
                            String::from_str("rev-parse"),
                            String::from_str("--short"),
                            String::from_str("HEAD"),
                        ];
                        proof {
                            assert(args.deep_view() =~= submodule_head_args());
                            lemma_file_args_safe(seq![], seq![], seq![]);
                        }
                        self.into_ask(FileStage::SubmoduleSha, Request::GitIn(p, args))
                    },
                    Side::Blob { .. } => Step::Done(Err(String::new())),
                }
            },
            EntryKind::Other => self.mode_found_exec(SpecialMode::Normal),
        }
    }

    fn probe_answered_exec(self, out: GitOutput) -> (res: Step<FileJob, FileContents>)
        requires
            file_wf(self@),
            self@.stage == FileStage::Probe,
        ensures
            res@ == probe_answered(self@, out),
            good_move(res@),
    {
        match probe_blob(&out, self.blob.as_str()) {
            Err(e) => Step::Done(Err(e)),
            Ok(Probe::Missing) => self.resolved_exec(ResolvedSide::Missing),
            Ok(Probe::Size(n)) => {
                if exceeds_size_guard(n, self.force) {
                    self.resolved_exec(ResolvedSide::TooLarge(n))
                } else {
                    let args = vec![String::from_str("show"), self.blob.clone()];
                    proof {
                        assert(args.deep_view() =~= seq!["show"@, self@.blob]);
                        lemma_file_args_safe(seq![], seq![], self@.blob);
                    }
                    self.into_ask(FileStage::Show, Request::Git(args))
                }
            },
        }
    }

    fn show_answered_exec(self, out: GitOutput) -> (res: Step<FileJob, FileContents>)
        ensures
            res@ == show_answered(self@, out),
            good_move(res@),
    {
        match shown_blob(out, self.blob.as_str()) {
            Err(e) => Step::Done(Err(e)),
            Ok(b) => self.resolved_exec(ResolvedSide::Bytes(b)),
        }
    }

    fn size_answered_exec(self, r: Result<Option<u64>, String>) -> (res: Step<FileJob, FileContents>)
        requires
            file_wf(self@),
            self@.stage == FileStage::WorktreeSize,
        ensures
            res@ == size_answered(self@, r),
            good_move(res@),
    {
        match r {
            Err(e) => Step::Done(Err(concat2("failed to stat working tree file: ", e.as_str()))),
            Ok(None) => self.resolved_exec(ResolvedSide::Missing),
            Ok(Some(n)) => {
                if exceeds_size_guard(n, self.force) {
                    self.resolved_exec(ResolvedSide::TooLarge(n))
                } else {
                    let side = self.current();
                    match side {
                        Side::WorkingTree(p) => self.into_ask(
                            FileStage::WorktreeRead,
                            Request::ReadFile(p),
                        ),
                        Side::Blob { .. } => Step::Done(Err(String::new())),
                    }
                }
            },
        }
    }

    /// Starts a request for both sides of `path` (read under `old_path` on
    /// the base side of a rename); `force` turns the size guard off, and
    /// `style` gives the path conventions of the platform.
    pub fn start(
        params: &DiffParams,
        path: String,
        old_path: Option<String>,
        force: bool,
        style: PathStyle,
    ) -> (res: Step<FileJob, FileContents>)
        ensures
            res@ == file_start(
                params.target@,
                params.source@,
                params.compare_mode,
                params.source_scope,
                path@,
                old_path.deep_view(),
                force,
                style,
            ),
            good_move(res@),
            safe_step(res@),
    {
        if let Err(e) = validate_repo_relative_path(path.as_str(), style) {
            return Step::Done(Err(e));
        }
        if let Some(op) = &old_path {
            if let Err(e) = validate_repo_relative_path(op.as_str(), style) {
                return Step::Done(Err(e));
            }
        }
        let j = FileJob {
            path,
            old_path,
            target_raw: params.target.clone(),
            source_raw: params.source.clone(),
            mode: params.compare_mode,
            scope: params.source_scope,
            force,
            stage: FileStage::Target,
            answers: Vec::new(),
            target: String::new(),
            source: String::new(),
            base_side: Side::WorkingTree(String::new()),
            head_side: Side::WorkingTree(String::new()),
            base_mode: SpecialMode::Normal,
            head_mode: SpecialMode::Normal,
            note: None,
            on_head: false,
            blob: String::new(),
            base_result: ResolvedSide::Missing,
        };
        proof {
            assert(j@.answers =~= Seq::<bool>::empty());
        }
        j.target_next_exec()
    }

    /// Steps the job with the reply to its last request.
    pub fn step(self, reply: Reply) -> (res: Step<FileJob, FileContents>)
        requires
            file_wf(self@),
            file_awaits(self@) == reply.kind(),
        ensures
            res@ == file_next(self@, reply),
            good_move(res@),
            safe_step(res@),
    {
        match self.stage {
            FileStage::SubmoduleSha => match reply {
                Reply::Git(r) => {
                    let sha = submodule_sha_exec(r);
                    self.mode_found_exec(SpecialMode::Submodule(sha))
                },
                _ => Step::Done(Err(String::new())),
            },
            FileStage::Inspect => match reply {
                Reply::Kind(k) => self.inspect_answered_exec(k),
                _ => Step::Done(Err(String::new())),
            },
            FileStage::Link => match reply {
                Reply::Link(Err(e)) => Step::Done(Err(e)),
                Reply::Link(Ok(t)) => {
                    let bytes = vstd::slice::slice_to_vec(t.as_str().as_bytes());
                    self.resolved_exec(ResolvedSide::Bytes(bytes))
                },
                _ => Step::Done(Err(String::new())),
            },
            FileStage::WorktreeSize => match reply {
                Reply::MaybeSize(r) => self.size_answered_exec(r),
                _ => Step::Done(Err(String::new())),
            },
            FileStage::WorktreeRead => match reply {
                Reply::Bytes(Err(e)) => Step::Done(
                    Err(concat2("failed to read working tree file: ", e.as_str())),
                ),
                Reply::Bytes(Ok(b)) => self.resolved_exec(ResolvedSide::Bytes(b)),
                _ => Step::Done(Err(String::new())),
            },
            _ => match reply {
                Reply::Git(Err(e)) => Step::Done(Err(e)),
                Reply::Git(Ok(out)) => match self.stage {
                    FileStage::Target => {
                        let mut j = self;
                        j.answers.push(out.success);
                        j.target_next_exec()
                    },
                    FileStage::Source => {
                        let mut j = self;
                        j.answers.push(out.success);
                        j.source_next_exec()
                    },
                    FileStage::MergeBase => self.merge_base_answered_exec(out),
                    FileStage::LookupMode => self.lookup_answered_exec(out),
                    FileStage::Probe => self.probe_answered_exec(out),
                    FileStage::Show => self.show_answered_exec(out),
                    _ => Step::Done(Err(String::new())),
                },
                _ => Step::Done(Err(String::new())),
            },
        }
    }
}

} // verus!
