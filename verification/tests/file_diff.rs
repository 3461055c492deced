use branch_diff_viewer::file_diff::{
    file_contents, is_missing_path_error, lookup_mode, probe_blob, special_note,
    submodule_content, validate_repo_relative_path, PathStyle, Probe, ResolvedSide, Side, SpecialMode,
};
use branch_diff_viewer::file_job::FileJob;
use branch_diff_viewer::process::GitOutput;
use branch_diff_viewer::session::{EntryKind, Reply, Request, Step};
use branch_diff_viewer::types::{CompareMode, DiffOptions, DiffParams, FileContents, SourceScope};

const MB: &str = "3333333333333333333333333333333333333333";
const HEAD_REV: &str = "refs/heads/feature";

enum Worktree {
    File(Vec<u8>),
    Link(String),
    Checkout(String),
}

/// One stored object: mode, object id and content.
struct Blob {
    rev: String,
    path: String,
    mode: String,
    sha: String,
    content: Vec<u8>,
}

struct FakeTree {
    blobs: Vec<Blob>,
    worktree: Vec<(String, Worktree)>,
    requests: Vec<String>,
}

fn git_ok(stdout: &[u8]) -> Reply {
    Reply::Git(Ok(GitOutput { success: true, stdout: stdout.to_vec(), stderr: Vec::new() }))
}

fn git_failed(stderr: &str) -> Reply {
    Reply::Git(Ok(GitOutput { success: false, stdout: Vec::new(), stderr: stderr.as_bytes().to_vec() }))
}

impl FakeTree {
    fn new() -> FakeTree {
        FakeTree { blobs: Vec::new(), worktree: Vec::new(), requests: Vec::new() }
    }

    fn blob(&mut self, rev: &str, path: &str, content: &[u8]) {
        self.blobs.push(Blob {
            rev: rev.to_string(),
            path: path.to_string(),
            mode: "100644".to_string(),
            sha: "abcdef0123".to_string(),
            content: content.to_vec(),
        });
    }

    fn special(&mut self, rev: &str, path: &str, mode: &str, sha: &str, content: &[u8]) {
        self.blobs.push(Blob {
            rev: rev.to_string(),
            path: path.to_string(),
            mode: mode.to_string(),
            sha: sha.to_string(),
            content: content.to_vec(),
        });
    }

    fn find(&self, rev: &str, path: &str) -> Option<&Blob> {
        self.blobs.iter().find(|b| b.rev == rev && b.path == path)
    }

    fn find_spec(&self, spec: &str) -> Option<&Blob> {
        let (rev, path) = spec.split_once(':').unwrap();
        self.find(rev, path)
    }

    fn wt(&self, path: &str) -> Option<&Worktree> {
        self.worktree.iter().find(|(p, _)| p == path).map(|(_, w)| w)
    }

    fn answer(&mut self, req: &Request) -> Reply {
        self.requests.push(format!("{req:?}"));
        match req {
            Request::Git(args) => {
                let a: Vec<&str> = args.iter().map(|s| s.as_str()).collect();
                match a[0] {
                    "check-ref-format" => git_ok(b""),
                    "show-ref" => {
                        if a[3] == "refs/heads/main" || a[3] == "refs/heads/feature" {
                            git_ok(b"")
                        } else {
                            git_failed("")
                        }
                    },
                    "merge-base" => git_ok(format!("{MB}\n").as_bytes()),
                    "ls-files" => match self.find("", a[4]) {
                        Some(b) => git_ok(format!("{} {} 0\t{}\0", b.mode, b.sha, b.path).as_bytes()),
                        None => git_ok(b""),
                    },
                    "ls-tree" => match self.find(a[2], a[4]) {
                        Some(b) => {
                            let kind = if b.mode == "160000" { "commit" } else { "blob" };
                            git_ok(format!("{} {} {}\t{}\0", b.mode, kind, b.sha, b.path).as_bytes())
                        },
                        None => git_ok(b""),
                    },
                    "cat-file" => match self.find_spec(a[2]) {
                        Some(b) => git_ok(format!("{}\n", b.content.len()).as_bytes()),
                        None => git_failed(&format!("fatal: path '{}' does not exist in 'x'", a[2])),
                    },
                    "show" => match self.find_spec(a[1]) {
                        Some(b) => git_ok(&b.content.clone()),
                        None => git_failed("fatal: bad object"),
                    },
                    other => panic!("unexpected git {other}"),
                }
            },
            Request::GitIn(dir, _) => match self.wt(dir) {
                Some(Worktree::Checkout(sha)) => git_ok(format!("{}\n", &sha[..7]).as_bytes()),
                _ => git_failed("fatal: not a git repository"),
            },
            Request::Inspect(p) => Reply::Kind(match self.wt(p) {
                Some(Worktree::Link(_)) => EntryKind::Symlink,
                Some(Worktree::Checkout(_)) => EntryKind::SubmoduleCheckout,
                _ => EntryKind::Other,
            }),
            Request::ReadLink(p) => match self.wt(p) {
                Some(Worktree::Link(t)) => Reply::Link(Ok(t.clone())),
                _ => Reply::Link(Err("not a link".to_string())),
            },
            Request::WorktreeSize(p) => match self.wt(p) {
                Some(Worktree::File(c)) => Reply::MaybeSize(Ok(Some(c.len() as u64))),
                _ => Reply::MaybeSize(Ok(None)),
            },
            Request::ReadFile(p) => match self.wt(p) {
                Some(Worktree::File(c)) => Reply::Bytes(Ok(c.clone())),
                _ => Reply::Bytes(Err("No such file or directory (os error 2)".to_string())),
            },
            other => panic!("unexpected request {other:?}"),
        }
    }
}

fn params(scope: SourceScope) -> DiffParams {
    DiffParams {
        repo_path: "/repo".to_string(),
        target: "main".to_string(),
        source: "feature".to_string(),
        compare_mode: CompareMode::MergeBase,
        source_scope: scope,
        options: DiffOptions { ignore_whitespace: Some(false), context_lines: None },
    }
}

fn run(p: &DiffParams, path: &str, old_path: Option<&str>, force: bool, tree: &mut FakeTree) -> Result<FileContents, String> {
    let mut step = FileJob::start(p, path.to_string(), old_path.map(|s| s.to_string()), force, PathStyle::Unix);
    loop {
        match step {
            Step::Ask(job, req) => {
                let reply = tree.answer(&req);
                step = job.step(reply);
            },
            Step::Done(r) => return r,
        }
    }
}

#[test]
fn get_file_diff_fetches_both_sides_for_a_modified_file() {
    let mut t = FakeTree::new();
    t.blob(MB, "modified.txt", b"line1\nline2\n");
    t.blob(HEAD_REV, "modified.txt", b"line1\nline2 changed\n");
    let fc = run(&params(SourceScope::Committed), "modified.txt", None, false, &mut t).unwrap();
    assert_eq!(fc.path, "modified.txt");
    assert_eq!(fc.base.as_deref(), Some("line1\nline2\n"));
    assert_eq!(fc.head.as_deref(), Some("line1\nline2 changed\n"));
    assert!(!fc.is_binary);
    assert_eq!(fc.is_too_large, None);
    assert_eq!(fc.note, None);
}

#[test]
fn get_file_diff_handles_added_and_deleted_files() {
    let mut t = FakeTree::new();
    t.blob(HEAD_REV, "added.txt", b"new content\n");
    t.blob(MB, "deleted.txt", b"bye\n");
    let added = run(&params(SourceScope::Committed), "added.txt", None, false, &mut t).unwrap();
    assert_eq!(added.base, None);
    assert_eq!(added.head.as_deref(), Some("new content\n"));
    let deleted = run(&params(SourceScope::Committed), "deleted.txt", None, false, &mut t).unwrap();
    assert_eq!(deleted.base.as_deref(), Some("bye\n"));
    assert_eq!(deleted.head, None);
}

#[test]
fn get_file_diff_uses_old_path_for_base_side_on_rename() {
    let mut t = FakeTree::new();
    let text: &[u8] = b"rename me\nkeep me stable\nline three\n";
    t.blob(MB, "old_name.txt", text);
    t.blob(HEAD_REV, "new_name.txt", text);
    let fc = run(&params(SourceScope::Committed), "new_name.txt", Some("old_name.txt"), false, &mut t).unwrap();
    assert_eq!(fc.base.as_deref(), Some("rename me\nkeep me stable\nline three\n"));
    assert_eq!(fc.head.as_deref(), Some("rename me\nkeep me stable\nline three\n"));
}

#[test]
fn get_file_diff_distinguishes_staged_from_unstaged_scope() {
    let mut t = FakeTree::new();
    t.blob(MB, "divergent.txt", b"base\n");
    t.blob("", "divergent.txt", b"staged\n");
    t.worktree.push(("divergent.txt".to_string(), Worktree::File(b"unstaged\n".to_vec())));
    let staged = run(&params(SourceScope::Staged), "divergent.txt", None, false, &mut t).unwrap();
    assert_eq!(staged.base.as_deref(), Some("base\n"));
    assert_eq!(staged.head.as_deref(), Some("staged\n"));
    let unstaged = run(&params(SourceScope::Unstaged), "divergent.txt", None, false, &mut t).unwrap();
    assert_eq!(unstaged.base.as_deref(), Some("base\n"));
    assert_eq!(unstaged.head.as_deref(), Some("unstaged\n"));
}

#[test]
fn get_file_diff_applies_size_guard_and_force_override() {
    let mut t = FakeTree::new();
    t.blob(MB, "big.txt", b"small\n");
    let big = vec![b'x'; 1_048_577];
    t.worktree.push(("big.txt".to_string(), Worktree::File(big.clone())));
    let guarded = run(&params(SourceScope::Unstaged), "big.txt", None, false, &mut t).unwrap();
    assert_eq!(guarded.base, None);
    assert_eq!(guarded.head, None);
    assert_eq!(guarded.is_too_large, Some(true));
    assert_eq!(guarded.size_bytes, Some(big.len() as u64));
    assert!(!t.requests.iter().any(|r| r.starts_with("ReadFile")));

    let forced = run(&params(SourceScope::Unstaged), "big.txt", None, true, &mut t).unwrap();
    assert_eq!(forced.base.as_deref(), Some("small\n"));
    assert_eq!(forced.head.as_deref().map(|s| s.len()), Some(big.len()));
    assert_eq!(forced.is_too_large, None);
}

#[test]
fn oversized_blob_is_probed_but_never_shown() {
    let mut t = FakeTree::new();
    t.blob(MB, "big.txt", &vec![b'y'; 2_000_000]);
    t.blob(HEAD_REV, "big.txt", b"tiny\n");
    let fc = run(&params(SourceScope::Committed), "big.txt", None, false, &mut t).unwrap();
    assert_eq!(fc.is_too_large, Some(true));
    assert_eq!(fc.size_bytes, Some(2_000_000));
    assert!(!t.requests.iter().any(|r| r.contains("\"show\", \"3333")));
}

#[test]
fn get_file_diff_detects_binary_content() {
    let mut t = FakeTree::new();
    t.blob(MB, "bin.dat", b"hello\n");
    t.blob(HEAD_REV, "bin.dat", &[0u8, 159, 146, 150, 0, 1, 2, 3]);
    let fc = run(&params(SourceScope::Committed), "bin.dat", None, false, &mut t).unwrap();
    assert!(fc.is_binary);
    assert_eq!(fc.base, None);
    assert_eq!(fc.head, None);
}

#[test]
fn get_file_diff_rejects_path_traversal() {
    let mut t = FakeTree::new();
    let err = run(&params(SourceScope::Unstaged), "../../../../etc/passwd", None, false, &mut t).unwrap_err();
    assert!(err.contains("traversal"), "unexpected error: {err}");
    let err_old = run(&params(SourceScope::Unstaged), "a.txt", Some("../secret"), false, &mut t).unwrap_err();
    assert!(err_old.contains("traversal"), "unexpected error: {err_old}");
    assert!(t.requests.is_empty(), "nothing may be asked for a rejected path");
}

#[test]
fn get_file_diff_returns_submodule_note_and_subproject_commit_line() {
    let mut t = FakeTree::new();
    let sha = "2".repeat(40);
    t.special(HEAD_REV, "sub", "160000", &sha, b"");
    let fc = run(&params(SourceScope::Committed), "sub", None, false, &mut t).unwrap();
    assert_eq!(fc.note.as_deref(), Some("submodule"));
    assert_eq!(fc.base, None);
    assert_eq!(fc.head.as_deref(), Some(format!("Subproject commit {sha}\n").as_str()));
    assert!(!fc.is_binary);
    assert_eq!(fc.is_too_large, None);
}

#[test]
fn working_tree_submodule_checkout_reports_its_commit() {
    let mut t = FakeTree::new();
    let sha = "4".repeat(40);
    t.special(MB, "sub", "160000", &sha, b"");
    t.worktree.push(("sub".to_string(), Worktree::Checkout("5".repeat(40))));
    let fc = run(&params(SourceScope::Unstaged), "sub", None, false, &mut t).unwrap();
    assert_eq!(fc.note.as_deref(), Some("submodule"));
    assert_eq!(fc.base.as_deref(), Some(format!("Subproject commit {sha}\n").as_str()));
    assert_eq!(fc.head.as_deref(), Some("Subproject commit 5555555\n"));
}

#[test]
fn get_file_diff_returns_symlink_note_for_a_committed_symlink() {
    let mut t = FakeTree::new();
    t.special(HEAD_REV, "link.txt", "120000", "abc", b"target/path.txt");
    let fc = run(&params(SourceScope::Committed), "link.txt", None, false, &mut t).unwrap();
    assert_eq!(fc.note.as_deref(), Some("symlink"));
    assert_eq!(fc.base, None);
    assert_eq!(fc.head.as_deref(), Some("target/path.txt"));
}

#[test]
fn get_file_diff_working_tree_symlink_reads_link_text_not_followed_content() {
    let mut t = FakeTree::new();
    t.blob(MB, "link.txt", b"was a regular file\n");
    t.worktree.push(("link.txt".to_string(), Worktree::Link("real_target.txt".to_string())));
    let fc = run(&params(SourceScope::Unstaged), "link.txt", None, false, &mut t).unwrap();
    assert_eq!(fc.note.as_deref(), Some("symlink"));
    assert_eq!(fc.head.as_deref(), Some("real_target.txt"));
    assert_eq!(fc.base.as_deref(), Some("was a regular file\n"));
}

#[test]
fn tips_mode_reads_the_base_at_the_target_tip() {
    let mut t = FakeTree::new();
    t.blob("refs/heads/main", "a.txt", b"main tip\n");
    t.blob(HEAD_REV, "a.txt", b"feature\n");
    let mut p = params(SourceScope::Committed);
    p.compare_mode = CompareMode::Tips;
    let fc = run(&p, "a.txt", None, false, &mut t).unwrap();
    assert_eq!(fc.base.as_deref(), Some("main tip\n"));
    assert!(!t.requests.iter().any(|r| r.contains("merge-base")));
}

#[test]
fn blob_failures_are_reported_with_git_message() {
    let out = GitOutput { success: false, stdout: Vec::new(), stderr: b"fatal: bad object\n".to_vec() };
    assert_eq!(probe_blob(&out, "x:y").unwrap_err(), "git cat-file -s x:y failed: fatal: bad object");
    let missing = GitOutput {
        success: false,
        stdout: Vec::new(),
        stderr: b"fatal: path 'y' exists on disk, but not in 'x'\n".to_vec(),
    };
    assert_eq!(probe_blob(&missing, "x:y").unwrap(), Probe::Missing);
    let size = GitOutput { success: true, stdout: b"42\n".to_vec(), stderr: Vec::new() };
    assert_eq!(probe_blob(&size, "x:y").unwrap(), Probe::Size(42));
    let junk = GitOutput { success: true, stdout: b"4x2\n".to_vec(), stderr: Vec::new() };
    assert_eq!(probe_blob(&junk, "x:y").unwrap_err(), "unexpected `git cat-file -s` output: '4x2'");
    assert!(is_missing_path_error("fatal: path 'a' does not exist in 'HEAD'"));
    assert!(!is_missing_path_error("fatal: bad revision"));
}

#[test]
fn mode_lookup_reads_ls_tree_and_ls_files_lines() {
    let tree = GitOutput {
        success: true,
        stdout: b"160000 commit 1234abcd\tsub\0".to_vec(),
        stderr: Vec::new(),
    };
    assert_eq!(
        lookup_mode(&tree, "HEAD", "sub").unwrap(),
        Some(("160000".to_string(), "1234abcd".to_string()))
    );
    let index = GitOutput { success: true, stdout: b"120000 beef 0\tlink\0".to_vec(), stderr: Vec::new() };
    assert_eq!(
        lookup_mode(&index, "", "link").unwrap(),
        Some(("120000".to_string(), "beef".to_string()))
    );
    let none = GitOutput { success: true, stdout: Vec::new(), stderr: Vec::new() };
    assert_eq!(lookup_mode(&none, "HEAD", "x").unwrap(), None);
    let failed = GitOutput { success: false, stdout: Vec::new(), stderr: b"fatal: nope".to_vec() };
    assert_eq!(
        lookup_mode(&failed, "", "x").unwrap_err(),
        "failed to look up mode for 'x' at '<index>': fatal: nope"
    );
}

#[test]
fn path_validation_cases() {
    let u = PathStyle::Unix;
    assert_eq!(validate_repo_relative_path("", u).unwrap_err(), "path must not be empty");
    assert_eq!(validate_repo_relative_path("a\0b", u).unwrap_err(), "path must not contain a NUL byte");
    assert!(validate_repo_relative_path("/etc/passwd", u).unwrap_err().contains("traversal"));
    assert!(validate_repo_relative_path("a/../b", u).unwrap_err().contains("traversal"));
    assert!(validate_repo_relative_path("..", u).is_err());
    assert!(validate_repo_relative_path("a/./b.txt", u).is_ok());
    assert!(validate_repo_relative_path("a..b/c", u).is_ok());
    assert!(validate_repo_relative_path("日本語/ファイル.txt", u).is_ok());
}

#[test]
fn path_validation_follows_the_platform_style() {
    let u = PathStyle::Unix;
    let w = PathStyle::Windows;
    assert_eq!(
        validate_repo_relative_path("..\\x", w).unwrap_err(),
        "path must be repository-relative with no traversal: '..\\x'"
    );
    assert!(validate_repo_relative_path("a\\..\\..\\b", w).is_err());
    assert!(validate_repo_relative_path("\\x", w).is_err());
    assert!(validate_repo_relative_path("C:x", w).is_err());
    assert!(validate_repo_relative_path("c:\\x", w).is_err());
    assert!(validate_repo_relative_path("/x", w).is_err());
    assert!(validate_repo_relative_path("a\\b.txt", w).is_ok());
    assert!(validate_repo_relative_path("a..\\b", w).is_ok());
    assert!(validate_repo_relative_path("1:x", w).is_ok());
    assert!(validate_repo_relative_path("..\\x", u).is_ok());
    assert!(validate_repo_relative_path("C:x", u).is_ok());
}

#[test]
fn notes_and_synthesized_content() {
    assert_eq!(Side::blob_spec("HEAD", "a.txt"), "HEAD:a.txt");
    assert_eq!(Side::blob_spec("", "a.txt"), ":a.txt");
    assert_eq!(
        special_note(&SpecialMode::Symlink, &SpecialMode::Submodule(None)).as_deref(),
        Some("submodule")
    );
    assert_eq!(special_note(&SpecialMode::Normal, &SpecialMode::Symlink).as_deref(), Some("symlink"));
    assert_eq!(special_note(&SpecialMode::Normal, &SpecialMode::Normal), None);
    assert_eq!(submodule_content(&None), b"Subproject commit unknown\n".to_vec());
    assert_eq!(submodule_content(&Some("abc".to_string())), b"Subproject commit abc\n".to_vec());
}

#[test]
fn file_contents_prefers_size_then_binary_then_text() {
    let fc = file_contents(
        "p".to_string(),
        ResolvedSide::TooLarge(5),
        ResolvedSide::TooLarge(9),
        None,
    );
    assert_eq!(fc.size_bytes, Some(9));
    assert_eq!(fc.is_too_large, Some(true));
    let bin = file_contents("p".to_string(), ResolvedSide::Bytes(vec![0]), ResolvedSide::Missing, None);
    assert!(bin.is_binary);
    assert_eq!(bin.head, None);
    let text = file_contents(
        "p".to_string(),
        ResolvedSide::Missing,
        ResolvedSide::Bytes(vec![0xff, b'a']),
        Some("n".to_string()),
    );
    assert_eq!(text.base, None);
    assert_eq!(text.head.as_deref(), Some("\u{fffd}a"));
    assert_eq!(text.note.as_deref(), Some("n"));
}
