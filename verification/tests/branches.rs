use branch_diff_viewer::branches::{last_fetch_text, parse_branch_refs, BranchesJob};
use branch_diff_viewer::process::GitOutput;
use branch_diff_viewer::session::{Reply, Request, Step};
use branch_diff_viewer::types::BranchList;

fn git_ok(stdout: &[u8]) -> Reply {
    Reply::Git(Ok(GitOutput { success: true, stdout: stdout.to_vec(), stderr: Vec::new() }))
}

fn git_failed(stderr: &str) -> Reply {
    Reply::Git(Ok(GitOutput { success: false, stdout: Vec::new(), stderr: stderr.as_bytes().to_vec() }))
}

const REFS: &[u8] = b"feature\0refs/heads/feature\0\nmain\0refs/heads/main\0\norigin\0refs/remotes/origin/HEAD\0refs/remotes/origin/main\norigin/feature\0refs/remotes/origin/feature\0\norigin/main\0refs/remotes/origin/main\0\n";

struct FakeRepo {
    branch: Option<&'static str>,
    fetch_head: Option<(i64, u32)>,
    asked_fetch_head_in: Vec<String>,
}

impl FakeRepo {
    fn answer(&mut self, req: &Request) -> Reply {
        match req {
            Request::Git(a) if a[0] == "for-each-ref" => git_ok(REFS),
            Request::Git(a) if a[0] == "symbolic-ref" => match self.branch {
                Some(b) => git_ok(format!("{b}\n").as_bytes()),
                None => git_failed(""),
            },
            Request::Git(a) if a[1] == "--git-dir" => git_ok(b".git\n"),
            Request::FetchHeadTime(dir) => {
                self.asked_fetch_head_in.push(dir.clone());
                Reply::Time(Ok(self.fetch_head))
            },
            other => panic!("unexpected request {other:?}"),
        }
    }
}

fn list(repo: &mut FakeRepo) -> Result<BranchList, String> {
    let mut step = BranchesJob::start();
    loop {
        match step {
            Step::Ask(job, req) => {
                let reply = repo.answer(&req);
                step = job.step(reply);
            },
            Step::Done(r) => return r,
        }
    }
}

#[test]
fn classifies_local_and_remote_and_excludes_origin_head() {
    let mut repo = FakeRepo { branch: Some("main"), fetch_head: None, asked_fetch_head_in: Vec::new() };
    let result = list(&mut repo).unwrap();
    let local: Vec<&str> = result.local.iter().map(|b| b.short.as_str()).collect();
    assert_eq!(local, vec!["feature", "main"]);
    assert!(result.local.iter().all(|b| !b.is_remote && b.full.starts_with("refs/heads/")));
    let remote: Vec<&str> = result.remote.iter().map(|b| b.short.as_str()).collect();
    assert_eq!(remote, vec!["origin/feature", "origin/main"]);
    assert!(!remote.contains(&"origin/HEAD"));
    assert!(!remote.contains(&"origin"));
    assert!(result.remote.iter().all(|b| b.is_remote && b.full.starts_with("refs/remotes/")));
    assert_eq!(result.current.as_deref(), Some("main"));
}

#[test]
fn reports_none_current_on_detached_head() {
    let mut repo = FakeRepo { branch: None, fetch_head: None, asked_fetch_head_in: Vec::new() };
    let result = list(&mut repo).unwrap();
    assert_eq!(result.current, None);
}

#[test]
fn last_fetch_is_none_when_fetch_head_absent_and_set_after_it_exists() {
    let mut repo = FakeRepo { branch: Some("main"), fetch_head: None, asked_fetch_head_in: Vec::new() };
    let before = list(&mut repo).unwrap();
    assert_eq!(before.last_fetch, None);
    assert_eq!(repo.asked_fetch_head_in, vec![".git".to_string()]);

    let mut repo2 = FakeRepo { branch: Some("main"), fetch_head: Some((1_700_000_000, 5)), asked_fetch_head_in: Vec::new() };
    let after = list(&mut repo2).unwrap();
    assert_eq!(after.last_fetch.as_deref(), Some("2023-11-14T22:13:20.000000005+00:00"));
}

#[test]
fn last_fetch_renders_rfc3339() {
    assert_eq!(last_fetch_text(0, 0).unwrap(), "1970-01-01T00:00:00+00:00");
    assert_eq!(last_fetch_text(1_700_000_000, 0).unwrap(), "2023-11-14T22:13:20+00:00");
    assert_eq!(
        last_fetch_text(i64::MAX, 0).unwrap_err(),
        "FETCH_HEAD mtime is out of the representable range"
    );
}

#[test]
fn last_fetch_covers_chrono_whole_range() {
    assert_eq!(last_fetch_text(-1, 0).unwrap(), "1969-12-31T23:59:59+00:00");
    assert_eq!(last_fetch_text(-8_334_601_228_800, 0).unwrap(), "-262143-01-01T00:00:00+00:00");
    assert_eq!(last_fetch_text(8_210_266_876_799, 0).unwrap(), "+262142-12-31T23:59:59+00:00");
    assert_eq!(last_fetch_text(59, 1_500_000_000).unwrap(), "1970-01-01T00:00:60.500+00:00");
    let out_of_range = "FETCH_HEAD mtime is out of the representable range";
    assert_eq!(last_fetch_text(-8_334_601_228_801, 0).unwrap_err(), out_of_range);
    assert_eq!(last_fetch_text(8_210_266_876_800, 0).unwrap_err(), out_of_range);
    assert_eq!(last_fetch_text(58, 1_000_000_000).unwrap_err(), out_of_range);
    assert_eq!(last_fetch_text(59, 2_000_000_000).unwrap_err(), out_of_range);
}

#[test]
fn last_fetch_renders_every_instant_up_to_year_9999() {
    assert_eq!(last_fetch_text(253_402_300_799, 0).unwrap(), "9999-12-31T23:59:59+00:00");
    assert_eq!(last_fetch_text(1, 500_000_000).unwrap(), "1970-01-01T00:00:01.500+00:00");
    assert_eq!(last_fetch_text(59, 999_999_999).unwrap(), "1970-01-01T00:00:59.999999999+00:00");
}

#[test]
fn for_each_ref_failure_is_reported() {
    let step = BranchesJob::start();
    match step {
        Step::Ask(job, _) => match job.step(git_failed("fatal: not a git repository\n")) {
            Step::Done(Err(e)) => assert_eq!(e, "git for-each-ref failed: fatal: not a git repository"),
            _ => panic!("expected an error"),
        },
        Step::Done(_) => panic!("expected a request"),
    }
}

#[test]
fn parse_skips_blank_and_nameless_lines() {
    let (local, remote) = parse_branch_refs(b"\n\nx\0\0\nmain\0refs/heads/main\0\n");
    assert_eq!(local.len(), 1);
    assert_eq!(local[0].short, "main");
    assert!(remote.is_empty());
}
