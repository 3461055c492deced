//! Values exchanged with the frontend: repository info, diff parameters,
//! the diff summary, branch lists and one file's two sides.

use vstd::prelude::*;

verus! {

/// Result of validating a repository path.
#[derive(Debug, Clone)]
pub struct RepoInfo {
    /// Normalized repository root (`git rev-parse --show-toplevel`).
    pub toplevel: String,
    /// `None` when HEAD is detached.
    pub current_branch: Option<String>,
    pub is_detached: bool,
    /// `false` for a fresh repository with no commits yet (unborn HEAD).
    pub has_commits: bool,
    pub git_version: String,
}

/// Mathematical model of a [`RepoInfo`].
pub struct RepoInfoView {
    pub toplevel: Seq<char>,
    pub current_branch: Option<Seq<char>>,
    pub is_detached: bool,
    pub has_commits: bool,
    pub git_version: Seq<char>,
}

impl View for RepoInfo {
    type V = RepoInfoView;

    open spec fn view(&self) -> RepoInfoView {
        RepoInfoView {
            toplevel: self.toplevel@,
            current_branch: self.current_branch.deep_view(),
            is_detached: self.is_detached,
            has_commits: self.has_commits,
            git_version: self.git_version@,
        }
    }
}

/// Comparison basis: against the merge base of the two branches, or
/// against the target tip itself.
#[derive(Debug, Clone, Copy, PartialEq, Eq, Structural)]
pub enum CompareMode {
    MergeBase,
    Tips,
}

/// How much of the source side's working tree is included in the diff.
#[derive(Debug, Clone, Copy, PartialEq, Eq, Structural)]
pub enum SourceScope {
    Committed,
    Staged,
    Unstaged,
}

#[derive(Debug, Clone)]
pub struct DiffOptions {
    /// `None` means "hide whitespace", the default.
    pub ignore_whitespace: Option<bool>,
    /// Patch context size; the full-text view does not use it.
    pub context_lines: Option<u32>,
}

impl Default for DiffOptions {
    fn default() -> (res: Self)
        ensures
            res.ignore_whitespace is None,
            res.context_lines is None,
    {
        DiffOptions { ignore_whitespace: None, context_lines: None }
    }
}

#[derive(Debug, Clone)]
pub struct DiffParams {
    pub repo_path: String,
    pub target: String,
    pub source: String,
    pub compare_mode: CompareMode,
    pub source_scope: SourceScope,
    pub options: DiffOptions,
}

/// Parameters of the cheap "has anything changed?" digest.
#[derive(Debug, Clone)]
pub struct FingerprintParams {
    pub repo_path: String,
    pub target: String,
    pub source: String,
}

#[derive(Debug, Clone, Copy, PartialEq, Eq, Structural)]
pub enum DiffFileStatus {
    Added,
    Modified,
    Deleted,
    Renamed,
    Typechange,
    Unmerged,
    Submodule,
    Other,
}

#[derive(Debug, Clone)]
pub struct DiffFile {
    pub path: String,
    pub old_path: Option<String>,
    pub status: DiffFileStatus,
    /// `None` for binary files.
    pub additions: Option<i64>,
    /// `None` for binary files.
    pub deletions: Option<i64>,
    pub is_binary: bool,
    pub is_untracked: Option<bool>,
}

/// Mathematical model of a [`DiffFile`].
pub struct DiffFileView {
    pub path: Seq<char>,
    pub old_path: Option<Seq<char>>,
    pub status: DiffFileStatus,
    pub additions: Option<i64>,
    pub deletions: Option<i64>,
    pub is_binary: bool,
    pub is_untracked: Option<bool>,
}

impl View for DiffFile {
    type V = DiffFileView;

    open spec fn view(&self) -> DiffFileView {
        DiffFileView {
            path: self.path@,
            old_path: self.old_path.deep_view(),
            status: self.status,
            additions: self.additions,
            deletions: self.deletions,
            is_binary: self.is_binary,
            is_untracked: self.is_untracked,
        }
    }
}

impl DeepView for DiffFile {
    type V = DiffFileView;

    open spec fn deep_view(&self) -> DiffFileView {
        self@
    }
}

#[derive(Debug, Clone)]
pub struct DiffTotals {
    pub files_changed: usize,
    pub additions: i64,
    pub deletions: i64,
}

#[derive(Debug, Clone)]
pub struct DiffSummary {
    pub files: Vec<DiffFile>,
    pub summary: DiffTotals,
    pub omitted_untracked: Option<u32>,
    pub warnings: Vec<String>,
    /// Short SHA of the fork point in merge-base mode, `None` in tips mode.
    pub merge_base: Option<String>,
}

/// Mathematical model of a [`DiffSummary`].
pub struct DiffSummaryView {
    pub files: Seq<DiffFileView>,
    pub files_changed: usize,
    pub additions: i64,
    pub deletions: i64,
    pub omitted_untracked: Option<u32>,
    pub warnings: Seq<Seq<char>>,
    pub merge_base: Option<Seq<char>>,
}

impl View for DiffSummary {
    type V = DiffSummaryView;

    open spec fn view(&self) -> DiffSummaryView {
        DiffSummaryView {
            files: self.files.deep_view(),
            files_changed: self.summary.files_changed,
            additions: self.summary.additions,
            deletions: self.summary.deletions,
            omitted_untracked: self.omitted_untracked,
            warnings: self.warnings.deep_view(),
            merge_base: self.merge_base.deep_view(),
        }
    }
}

/// One branch entry of a branch list.
#[derive(Debug, Clone)]
pub struct BranchRef {
    /// Display name (e.g. `origin/main`).
    pub short: String,
    /// Fully-qualified (`refs/heads/...` / `refs/remotes/...`).
    pub full: String,
    pub is_remote: bool,
}

/// Mathematical model of a [`BranchRef`].
pub struct BranchRefView {
    pub short: Seq<char>,
    pub full: Seq<char>,
    pub is_remote: bool,
}

impl View for BranchRef {
    type V = BranchRefView;

    open spec fn view(&self) -> BranchRefView {
        BranchRefView { short: self.short@, full: self.full@, is_remote: self.is_remote }
    }
}

impl DeepView for BranchRef {
    type V = BranchRefView;

    open spec fn deep_view(&self) -> BranchRefView {
        self@
    }
}

/// Local and remote-tracking branches, the checked-out branch and the
/// last-fetch time.
#[derive(Debug, Clone)]
pub struct BranchList {
    pub local: Vec<BranchRef>,
    pub remote: Vec<BranchRef>,
    /// `None` on a detached HEAD (an unborn branch still has its name).
    pub current: Option<String>,
    /// `FETCH_HEAD` modification time as RFC 3339, `None` if never fetched.
    pub last_fetch: Option<String>,
}

/// Mathematical model of a [`BranchList`].
pub struct BranchListView {
    pub local: Seq<BranchRefView>,
    pub remote: Seq<BranchRefView>,
    pub current: Option<Seq<char>>,
    pub last_fetch: Option<Seq<char>>,
}

impl View for BranchList {
    type V = BranchListView;

    open spec fn view(&self) -> BranchListView {
        BranchListView {
            local: self.local.deep_view(),
            remote: self.remote.deep_view(),
            current: self.current.deep_view(),
            last_fetch: self.last_fetch.deep_view(),
        }
    }
}

/// Both sides' full text for one file.
#[derive(Debug, Clone)]
pub struct FileContents {
    pub path: String,
    /// `None` for an added file, or when the size guard / binary check
    /// suppressed content.
    pub base: Option<String>,
    /// `None` for a deleted file, or when the size guard / binary check
    /// suppressed content.
    pub head: Option<String>,
    pub is_binary: bool,
    /// `Some(true)` when the size guard tripped and `force` was not set.
    pub is_too_large: Option<bool>,
    /// Size in bytes of the larger oversized side, with `is_too_large`.
    pub size_bytes: Option<u64>,
    pub note: Option<String>,
}

/// Mathematical model of [`FileContents`].
pub struct FileContentsView {
    pub path: Seq<char>,
    pub base: Option<Seq<char>>,
    pub head: Option<Seq<char>>,
    pub is_binary: bool,
    pub is_too_large: Option<bool>,
    pub size_bytes: Option<u64>,
    pub note: Option<Seq<char>>,
}

impl View for FileContents {
    type V = FileContentsView;

    open spec fn view(&self) -> FileContentsView {
        FileContentsView {
            path: self.path@,
            base: self.base.deep_view(),
            head: self.head.deep_view(),
            is_binary: self.is_binary,
            is_too_large: self.is_too_large,
            size_bytes: self.size_bytes,
            note: self.note.deep_view(),
        }
    }
}

} // verus!
