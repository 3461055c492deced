use branch_diff_viewer::process::GitOutput;
use branch_diff_viewer::repo::{
    check_status_output, check_work_tree, fingerprint_head, fingerprint_hex, repo_toplevel, resolve_sha,
};
use branch_diff_viewer::repo_job::{fingerprint_digest, FingerprintInputs, FingerprintJob, RepoJob};
use branch_diff_viewer::session::{Reply, Request, Step};
use branch_diff_viewer::types::{FingerprintParams, RepoInfo};

fn git_ok(stdout: &[u8]) -> Reply {
    Reply::Git(Ok(GitOutput { success: true, stdout: stdout.to_vec(), stderr: Vec::new() }))
}

fn git_failed(stdout: &[u8], stderr: &str) -> Reply {
    Reply::Git(Ok(GitOutput { success: false, stdout: stdout.to_vec(), stderr: stderr.as_bytes().to_vec() }))
}

/// A repository as the validation sees it.
struct FakeRepo {
    inside_work_tree: Option<&'static str>,
    branch: Option<&'static str>,
    has_commits: bool,
    dirs: Vec<String>,
}

impl FakeRepo {
    fn answer(&mut self, req: &Request) -> Reply {
        match req {
            Request::Git(a) if a[1] == "--is-inside-work-tree" => match self.inside_work_tree {
                Some(out) => git_ok(out.as_bytes()),
                None => git_failed(b"", "fatal: not a git repository (or any of the parent directories): .git"),
            },
            Request::Git(a) if a[1] == "--show-toplevel" => git_ok(b"/work/repo\n"),
            Request::GitIn(dir, a) if a[0] == "symbolic-ref" => {
                self.dirs.push(dir.clone());
                match self.branch {
                    Some(b) => git_ok(format!("{b}\n").as_bytes()),
                    None => git_failed(b"", ""),
                }
            },
            Request::GitIn(dir, a) if a[1] == "--verify" => {
                self.dirs.push(dir.clone());
                if self.has_commits { git_ok(b"abc\n") } else { git_failed(b"", "") }
            },
            Request::GitVersion => git_ok(b"git version 2.50.1\n"),
            other => panic!("unexpected request {other:?}"),
        }
    }
}

fn validate(repo: &mut FakeRepo) -> Result<RepoInfo, String> {
    let mut step = RepoJob::start();
    loop {
        match step {
            Step::Ask(job, req) => {
                let reply = repo.answer(&req);
                step = job.step(reply);
            },
            Step::Done(r) => return r,
        }
    }
}

#[test]
fn validate_repo_detects_working_tree_and_head() {
    let mut repo = FakeRepo { inside_work_tree: Some("true\n"), branch: Some("main"), has_commits: true, dirs: Vec::new() };
    let info = validate(&mut repo).unwrap();
    assert_eq!(info.current_branch.as_deref(), Some("main"));
    assert!(!info.is_detached);
    assert!(info.has_commits);
    assert!(info.git_version.to_lowercase().contains("git version"));
    assert_eq!(info.toplevel, "/work/repo");
    assert_eq!(repo.dirs, vec!["/work/repo".to_string(), "/work/repo".to_string()]);
}

#[test]
fn validate_repo_rejects_non_repo_path() {
    let mut repo = FakeRepo { inside_work_tree: None, branch: None, has_commits: false, dirs: Vec::new() };
    let err = validate(&mut repo).unwrap_err();
    assert!(err.contains("not a git working tree"), "unexpected error: {err}");
}

#[test]
fn validate_repo_rejects_bare_repository() {
    let mut repo = FakeRepo { inside_work_tree: Some("false\n"), branch: None, has_commits: false, dirs: Vec::new() };
    let err = validate(&mut repo).unwrap_err();
    assert!(err.contains("not a git working tree"), "unexpected error: {err}");
}

#[test]
fn validate_repo_detects_unborn_branch() {
    let mut repo = FakeRepo { inside_work_tree: Some("true\n"), branch: Some("main"), has_commits: false, dirs: Vec::new() };
    let info = validate(&mut repo).unwrap();
    assert!(!info.has_commits);
    assert_eq!(info.current_branch.as_deref(), Some("main"));
    assert!(!info.is_detached);
}

#[test]
fn validate_repo_reports_detached_head() {
    let mut repo = FakeRepo { inside_work_tree: Some("true\n"), branch: None, has_commits: true, dirs: Vec::new() };
    let info = validate(&mut repo).unwrap();
    assert_eq!(info.current_branch, None);
    assert!(info.is_detached);
}

#[test]
fn validation_pieces() {
    let yes = GitOutput { success: true, stdout: b" true \n".to_vec(), stderr: Vec::new() };
    assert!(check_work_tree(&yes).is_ok());
    let failed = GitOutput { success: false, stdout: Vec::new(), stderr: b"fatal: x\n".to_vec() };
    assert_eq!(repo_toplevel(&failed).unwrap_err(), "failed to resolve repository root: fatal: x");
    assert_eq!(resolve_sha(&failed, "main").unwrap_err(), "failed to resolve 'main': fatal: x");
    assert_eq!(check_status_output(&failed).unwrap_err(), "git status failed: fatal: x");
    assert_eq!(fingerprint_head(Err("nope".to_string())), "");
    assert_eq!(fingerprint_head(Ok("abc".to_string())), "abc");
}

/// A repository as the fingerprint sees it.
struct FakeState {
    main: &'static str,
    feature: &'static str,
    head: Option<&'static str>,
    status: Vec<u8>,
}

impl FakeState {
    fn answer(&self, req: &Request) -> Reply {
        let a = match req {
            Request::Git(a) => a,
            other => panic!("unexpected request {other:?}"),
        };
        match a[0].as_str() {
            "check-ref-format" => git_ok(b""),
            "show-ref" => if a[3] == "refs/heads/main" || a[3] == "refs/heads/feature" { git_ok(b"") } else { git_failed(b"", "") },
            "rev-parse" => match a[3].as_str() {
                "refs/heads/main" => git_ok(format!("{}\n", self.main).as_bytes()),
                "refs/heads/feature" => git_ok(format!("{}\n", self.feature).as_bytes()),
                _ => match self.head {
                    Some(h) => git_ok(format!("{h}\n").as_bytes()),
                    None => git_failed(b"", ""),
                },
            },
            "-c" => {
                assert_eq!(a[2], "status");
                git_ok(&self.status)
            },
            other => panic!("unexpected git {other}"),
        }
    }
}

fn fingerprint(state: &FakeState) -> Result<String, String> {
    let params = FingerprintParams { repo_path: "/repo".to_string(), target: "main".to_string(), source: "feature".to_string() };
    let mut step = FingerprintJob::start(&params);
    loop {
        match step {
            Step::Ask(job, req) => {
                let reply = state.answer(&req);
                step = job.step(reply);
            },
            Step::Done(r) => return r.map(|inputs| fingerprint_digest(&inputs)),
        }
    }
}

fn base_state() -> FakeState {
    FakeState { main: "aaaa", feature: "bbbb", head: Some("bbbb"), status: Vec::new() }
}

#[test]
fn get_repo_fingerprint_is_stable_when_nothing_changes() {
    let fp1 = fingerprint(&base_state()).unwrap();
    let fp2 = fingerprint(&base_state()).unwrap();
    assert_eq!(fp1, fp2);
    assert_eq!(fp1.len(), 16);
    assert!(fp1.chars().all(|c| c.is_ascii_hexdigit() && !c.is_ascii_uppercase()));
}

#[test]
fn get_repo_fingerprint_changes_when_source_gets_a_new_commit() {
    let before = fingerprint(&base_state()).unwrap();
    let mut s = base_state();
    s.feature = "cccc";
    s.head = Some("cccc");
    let after = fingerprint(&s).unwrap();
    assert_ne!(before, after);
}

#[test]
fn get_repo_fingerprint_changes_when_working_tree_changes_without_a_commit() {
    let mut s = base_state();
    s.status = b" M a.txt\0".to_vec();
    let before = fingerprint(&s).unwrap();
    s.status = b"MM a.txt\0".to_vec();
    let after = fingerprint(&s).unwrap();
    assert_ne!(before, after);
}

#[test]
fn get_repo_fingerprint_changes_when_a_new_untracked_file_appears() {
    let before = fingerprint(&base_state()).unwrap();
    let mut s = base_state();
    s.status = b"?? new_untracked.txt\0".to_vec();
    let after = fingerprint(&s).unwrap();
    assert_ne!(before, after);
}

#[test]
fn fingerprint_tolerates_an_unborn_head() {
    let mut s = base_state();
    s.head = None;
    assert!(fingerprint(&s).is_ok());
}

#[test]
fn fingerprint_hashes_exactly_its_inputs() {
    let a = FingerprintInputs {
        target_sha: "a".to_string(),
        source_sha: "b".to_string(),
        head_sha: String::new(),
        status: b"x".to_vec(),
    };
    let b = FingerprintInputs {
        target_sha: "a".to_string(),
        source_sha: "b".to_string(),
        head_sha: String::new(),
        status: b"x".to_vec(),
    };
    assert_eq!(fingerprint_digest(&a), fingerprint_digest(&b));
    let c = FingerprintInputs { target_sha: "ab".to_string(), source_sha: String::new(), ..b };
    assert_ne!(fingerprint_digest(&a), fingerprint_digest(&c));
}

#[test]
fn fingerprint_hex_is_sixteen_zero_padded_digits() {
    assert_eq!(fingerprint_hex(0), "0000000000000000");
    assert_eq!(fingerprint_hex(255), "00000000000000ff");
    assert_eq!(fingerprint_hex(u64::MAX), "ffffffffffffffff");
    assert_eq!(fingerprint_hex(0x0123_4567_89ab_cdef), "0123456789abcdef");
}

#[test]
fn fingerprint_errors_when_source_does_not_resolve() {
    let params = FingerprintParams { repo_path: "/repo".to_string(), target: "main".to_string(), source: "gone".to_string() };
    let state = base_state();
    let mut step = FingerprintJob::start(&params);
    let err = loop {
        match step {
            Step::Ask(job, req) => {
                let reply = state.answer(&req);
                step = job.step(reply);
            },
            Step::Done(r) => break r.unwrap_err(),
        }
    };
    assert!(err.starts_with("branch not found: 'gone'"));
}
