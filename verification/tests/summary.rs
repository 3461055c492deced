use branch_diff_viewer::process::GitOutput;
use branch_diff_viewer::session::{Reply, Request, Step};
use branch_diff_viewer::summary::{
    count_lines, detect_in_progress_operation, git_path_exists, looks_binary, untracked_entry,
    InProgressStep, UNTRACKED_LIMIT,
};
use branch_diff_viewer::summary_job::SummaryJob;
use branch_diff_viewer::types::{
    CompareMode, DiffFileStatus, DiffOptions, DiffParams, DiffSummary, SourceScope,
};

const MB_SHA: &str = "1111111111111111111111111111111111111111";

/// A repository answering the summary's requests from fixed outputs.
struct FakeRepo {
    markers: Vec<String>,
    refs: Vec<String>,
    head: Option<String>,
    merge_bases: String,
    name_status: Vec<u8>,
    numstat: Vec<u8>,
    numstat_ignoring_ws: Vec<u8>,
    raw: Vec<u8>,
    untracked: Vec<(String, Vec<u8>)>,
    git_log: Vec<Vec<String>>,
}

fn git_ok(stdout: &[u8]) -> Reply {
    Reply::Git(Ok(GitOutput { success: true, stdout: stdout.to_vec(), stderr: Vec::new() }))
}

fn git_failed(stderr: &str) -> Reply {
    Reply::Git(Ok(GitOutput { success: false, stdout: Vec::new(), stderr: stderr.as_bytes().to_vec() }))
}

impl FakeRepo {
    fn new() -> FakeRepo {
        FakeRepo {
            markers: Vec::new(),
            refs: vec!["refs/heads/main".to_string(), "refs/heads/feature".to_string()],
            head: Some("feature".to_string()),
            merge_bases: format!("{MB_SHA}\n"),
            name_status: b"M\0a.txt\0".to_vec(),
            numstat: b"1\t1\ta.txt\0".to_vec(),
            numstat_ignoring_ws: b"1\t1\ta.txt\0".to_vec(),
            raw: b":100644 100644 aaa bbb M\0a.txt\0".to_vec(),
            untracked: Vec::new(),
            git_log: Vec::new(),
        }
    }

    fn content(&self, path: &str) -> Vec<u8> {
        self.untracked.iter().find(|(p, _)| p == path).map(|(_, c)| c.clone()).unwrap()
    }

    fn answer(&mut self, req: &Request) -> Reply {
        match req {
            Request::Git(args) => {
                self.git_log.push(args.clone());
                let a: Vec<&str> = args.iter().map(|s| s.as_str()).collect();
                if a.len() == 3 && a[0] == "rev-parse" && a[1] == "--git-path" {
                    return git_ok(format!(".git/{}\n", a[2]).as_bytes());
                }
                if a[0] == "check-ref-format" {
                    return if a[2].contains("..") { git_failed("") } else { git_ok(b"") };
                }
                if a[0] == "show-ref" {
                    return if self.refs.iter().any(|r| r == a[3]) { git_ok(b"") } else { git_failed("") };
                }
                if a[0] == "symbolic-ref" {
                    return match &self.head {
                        Some(b) => git_ok(format!("{b}\n").as_bytes()),
                        None => git_failed("fatal: ref HEAD is not a symbolic ref"),
                    };
                }
                if a[0] == "merge-base" {
                    return if self.merge_bases.is_empty() {
                        git_failed("")
                    } else {
                        git_ok(self.merge_bases.as_bytes())
                    };
                }
                if a[0] == "rev-parse" && a[1] == "--short" {
                    return git_ok(format!("{}\n", &a[2][..7]).as_bytes());
                }
                if a.contains(&"diff") {
                    if a.contains(&"--name-status") {
                        return git_ok(&self.name_status);
                    }
                    if a.contains(&"--numstat") {
                        return if a.contains(&"-w") {
                            git_ok(&self.numstat_ignoring_ws)
                        } else {
                            git_ok(&self.numstat)
                        };
                    }
                    return git_ok(&self.raw);
                }
                if a[0] == "ls-files" {
                    let mut out = Vec::new();
                    for (p, _) in &self.untracked {
                        out.extend_from_slice(p.as_bytes());
                        out.push(0);
                    }
                    return git_ok(&out);
                }
                panic!("unexpected git request {a:?}")
            },
            Request::Exists(p) => Reply::Exists(self.markers.iter().any(|m| format!(".git/{m}") == *p)),
            Request::FileSize(p) => Reply::Size(Ok(self.content(p).len() as u64)),
            Request::ReadFile(p) => Reply::Bytes(Ok(self.content(p))),
            Request::ReadPrefix(p, n) => {
                let c = self.content(p);
                Reply::Bytes(Ok(c[..c.len().min(*n)].to_vec()))
            },
            other => panic!("unexpected request {other:?}"),
        }
    }
}

fn params(target: &str, source: &str) -> DiffParams {
    DiffParams {
        repo_path: "/repo".to_string(),
        target: target.to_string(),
        source: source.to_string(),
        compare_mode: CompareMode::MergeBase,
        source_scope: SourceScope::Committed,
        options: DiffOptions { ignore_whitespace: Some(false), context_lines: None },
    }
}

fn run(p: &DiffParams, repo: &mut FakeRepo) -> Result<DiffSummary, String> {
    let mut step = SummaryJob::start(p);
    loop {
        match step {
            Step::Ask(job, req) => {
                let reply = repo.answer(&req);
                step = job.step(reply);
            },
            Step::Done(r) => return r,
        }
    }
}

fn diff_runs(repo: &FakeRepo) -> Vec<Vec<String>> {
    repo.git_log.iter().filter(|a| a.iter().any(|s| s == "diff")).cloned().collect()
}

#[test]
fn get_diff_summary_warns_when_merge_in_progress() {
    let mut repo = FakeRepo::new();
    repo.markers.push("MERGE_HEAD".to_string());
    let summary = run(&params("main", "feature"), &mut repo).unwrap();
    assert!(
        summary.warnings.iter().any(|w| w.contains("merge is in progress")),
        "expected merge-in-progress warning, got {:?}",
        summary.warnings
    );
}

#[test]
fn get_diff_summary_warns_when_rebase_in_progress() {
    let mut repo = FakeRepo::new();
    repo.markers.push("rebase-merge".to_string());
    let summary = run(&params("main", "feature"), &mut repo).unwrap();
    assert!(
        summary.warnings.iter().any(|w| w.contains("rebase is in progress")),
        "expected rebase-in-progress warning, got {:?}",
        summary.warnings
    );
    let mut repo2 = FakeRepo::new();
    repo2.markers.push("rebase-apply".to_string());
    let summary2 = run(&params("main", "feature"), &mut repo2).unwrap();
    assert!(summary2.warnings.iter().any(|w| w.contains("rebase is in progress")));
}

#[test]
fn get_diff_summary_has_no_in_progress_warning_on_a_clean_repo() {
    let mut repo = FakeRepo::new();
    let summary = run(&params("main", "feature"), &mut repo).unwrap();
    assert!(
        !summary.warnings.iter().any(|w| w.contains("in progress")),
        "unexpected in-progress warning on a clean repo: {:?}",
        summary.warnings
    );
}

#[test]
fn get_diff_summary_exposes_merge_base_sha_for_merge_base_mode_and_null_for_tips() {
    let mut repo = FakeRepo::new();
    let mb_summary = run(&params("main", "feature"), &mut repo).unwrap();
    assert_eq!(mb_summary.merge_base.as_deref(), Some(&MB_SHA[..7]));

    let mut repo2 = FakeRepo::new();
    let mut tips = params("main", "feature");
    tips.compare_mode = CompareMode::Tips;
    let tips_summary = run(&tips, &mut repo2).unwrap();
    assert_eq!(tips_summary.merge_base, None);
    assert!(!repo2.git_log.iter().any(|a| a[0] == "merge-base"));
}

#[test]
fn get_diff_summary_matches_manual_git_diff_across_scope_and_compare_mode() {
    for mode in [CompareMode::MergeBase, CompareMode::Tips] {
        let base = match mode {
            CompareMode::MergeBase => MB_SHA.to_string(),
            CompareMode::Tips => "refs/heads/main".to_string(),
        };
        for scope in [SourceScope::Committed, SourceScope::Staged, SourceScope::Unstaged] {
            let mut repo = FakeRepo::new();
            repo.untracked.push(("untracked.txt".to_string(), b"brand new\n".to_vec()));
            let mut p = params("main", "feature");
            p.compare_mode = mode;
            p.source_scope = scope;
            let summary = run(&p, &mut repo).unwrap();
            assert!(summary.warnings.is_empty(), "{:?}", summary.warnings);

            let scope_args: Vec<String> = match scope {
                SourceScope::Committed => vec![base.clone(), "refs/heads/feature".to_string()],
                SourceScope::Staged => vec!["--cached".to_string(), base.clone()],
                SourceScope::Unstaged => vec![base.clone()],
            };
            let expected = |flag: &str| {
                let mut v: Vec<String> = [
                    "-c",
                    "core.quotepath=false",
                    "-c",
                    "core.fsmonitor=false",
                    "diff",
                    "--no-color",
                    "--no-ext-diff",
                    "-M",
                    "-z",
                    flag,
                ]
                .iter()
                .map(|s| s.to_string())
                .collect();
                v.extend(scope_args.iter().cloned());
                v.push("--".to_string());
                v
            };
            let runs = diff_runs(&repo);
            assert_eq!(runs, vec![expected("--name-status"), expected("--numstat"), expected("--raw")]);

            let untracked: Vec<&str> = summary
                .files
                .iter()
                .filter(|f| f.is_untracked == Some(true))
                .map(|f| f.path.as_str())
                .collect();
            if scope == SourceScope::Unstaged {
                assert_eq!(untracked, vec!["untracked.txt"]);
            } else {
                assert!(untracked.is_empty());
            }
            let total_add: i64 = summary.files.iter().map(|f| f.additions.unwrap_or(0)).sum();
            let total_del: i64 = summary.files.iter().map(|f| f.deletions.unwrap_or(0)).sum();
            assert_eq!(summary.summary.files_changed, summary.files.len());
            assert_eq!(summary.summary.additions, total_add);
            assert_eq!(summary.summary.deletions, total_del);
        }
    }
}

#[test]
fn get_diff_summary_reports_added_modified_deleted_binary_rename_and_japanese_paths() {
    let mut repo = FakeRepo::new();
    repo.name_status = "A\x00added.txt\x00A\x00日本語ファイル.txt\x00M\x00modified.txt\x00D\x00deleted.txt\x00R087\x00old_name.txt\x00new_name.txt\x00A\x00image.bin\x00"
        .as_bytes()
        .to_vec();
    repo.numstat = "1\t0\tadded.txt\x001\t0\t日本語ファイル.txt\x001\t1\tmodified.txt\x000\t1\tdeleted.txt\x001\t1\t\x00old_name.txt\x00new_name.txt\x00-\t-\timage.bin\x00"
        .as_bytes()
        .to_vec();
    repo.raw = b"".to_vec();
    let summary = run(&params("main", "feature"), &mut repo).unwrap();
    assert!(summary.warnings.is_empty(), "unexpected warnings: {:?}", summary.warnings);
    let find = |p: &str| summary.files.iter().find(|f| f.path == p).unwrap();

    let added = find("added.txt");
    assert_eq!(added.status, DiffFileStatus::Added);
    assert!(!added.is_binary);
    assert_eq!(added.additions, Some(1));
    assert_eq!(added.deletions, Some(0));
    let jp = find("日本語ファイル.txt");
    assert_eq!(jp.status, DiffFileStatus::Added);
    assert!(!jp.is_binary);
    let modified = find("modified.txt");
    assert_eq!(modified.status, DiffFileStatus::Modified);
    assert_eq!((modified.additions, modified.deletions), (Some(1), Some(1)));
    let deleted = find("deleted.txt");
    assert_eq!(deleted.status, DiffFileStatus::Deleted);
    assert_eq!(deleted.deletions, Some(1));
    let renamed = find("new_name.txt");
    assert_eq!(renamed.status, DiffFileStatus::Renamed);
    assert_eq!(renamed.old_path.as_deref(), Some("old_name.txt"));
    let binary = find("image.bin");
    assert!(binary.is_binary);
    assert_eq!((binary.additions, binary.deletions), (None, None));
    assert_eq!(summary.summary.files_changed, 6);
    assert_eq!(summary.files.len(), 6);
    assert_eq!(summary.summary.additions, 4);
    assert_eq!(summary.summary.deletions, 3);
}

#[test]
fn get_diff_summary_applies_ignore_whitespace_when_requested() {
    let mut repo = FakeRepo::new();
    repo.name_status = b"M\0ws.txt\0".to_vec();
    repo.numstat = b"1\t1\tws.txt\0".to_vec();
    repo.numstat_ignoring_ws = b"".to_vec();
    repo.raw = b"".to_vec();
    let mut p = params("main", "feature");
    p.options.ignore_whitespace = Some(true);
    let summary = run(&p, &mut repo).unwrap();
    assert!(summary.files.is_empty(), "{:?}", summary.files);

    let mut repo2 = FakeRepo::new();
    repo2.name_status = b"M\0ws.txt\0".to_vec();
    repo2.numstat = b"1\t1\tws.txt\0".to_vec();
    repo2.numstat_ignoring_ws = b"".to_vec();
    repo2.raw = b"".to_vec();
    let mut p2 = params("main", "feature");
    p2.options.ignore_whitespace = Some(false);
    let summary2 = run(&p2, &mut repo2).unwrap();
    assert_eq!(summary2.files.len(), 1);
}

#[test]
fn hiding_whitespace_is_the_default() {
    let mut repo = FakeRepo::new();
    let mut p = params("main", "feature");
    p.options = DiffOptions { ignore_whitespace: None, context_lines: None };
    run(&p, &mut repo).unwrap();
    let runs = diff_runs(&repo);
    assert!(!runs[0].contains(&"-w".to_string()));
    assert!(runs[1].contains(&"-w".to_string()));
    assert!(!runs[2].contains(&"-w".to_string()));
}

#[test]
fn get_diff_summary_falls_back_to_committed_when_source_is_not_head() {
    for scope in [SourceScope::Staged, SourceScope::Unstaged] {
        let mut repo = FakeRepo::new();
        repo.head = Some("main".to_string());
        repo.untracked.push(("u.txt".to_string(), b"x\n".to_vec()));
        let mut p = params("main", "feature");
        p.source_scope = scope;
        let summary = run(&p, &mut repo).unwrap();
        assert_eq!(
            summary.warnings,
            vec![
                "source \"feature\" is not the checked-out branch (HEAD is main) — scope fixed to committed"
                    .to_string()
            ]
        );
        assert_eq!(summary.files.len(), 1);
        assert_eq!(summary.files[0].path, "a.txt");
        assert_eq!(summary.files[0].is_untracked, None);
        assert_eq!(summary.omitted_untracked, None);
    }

    let mut repo = FakeRepo::new();
    let mut ok = params("main", "refs/heads/feature");
    ok.source_scope = SourceScope::Staged;
    let ok_summary = run(&ok, &mut repo).unwrap();
    assert!(ok_summary.warnings.is_empty(), "{:?}", ok_summary.warnings);

    let mut detached = FakeRepo::new();
    detached.head = None;
    let mut dp = params("main", "feature");
    dp.source_scope = SourceScope::Unstaged;
    let d_summary = run(&dp, &mut detached).unwrap();
    assert!(d_summary.warnings[0].contains("(HEAD is detached)"));
}

#[test]
fn get_diff_summary_normalizes_short_remote_tracking_source_and_locks_scope() {
    let mut repo = FakeRepo::new();
    repo.refs.push("refs/remotes/origin/feature".to_string());
    repo.untracked.push(("u.txt".to_string(), b"x\n".to_vec()));
    let mut p = params("main", "origin/feature");
    p.source_scope = SourceScope::Unstaged;
    let summary = run(&p, &mut repo).unwrap();
    assert!(summary.warnings.iter().any(|w| w.contains("not the checked-out branch")));
    assert!(summary.files.iter().all(|f| f.is_untracked != Some(true)));
    assert!(diff_runs(&repo)[0].contains(&"refs/remotes/origin/feature".to_string()));
}

#[test]
fn get_diff_summary_rejects_dash_prefixed_and_nonexistent_refs() {
    let mut repo = FakeRepo::new();
    let dash_err = run(&params("-main", "main"), &mut repo).unwrap_err();
    assert!(dash_err.contains("must not start with '-'"), "unexpected error: {dash_err}");

    let mut repo2 = FakeRepo::new();
    let missing_err = run(&params("main", "does-not-exist"), &mut repo2).unwrap_err();
    assert!(missing_err.contains("not found"), "unexpected error: {missing_err}");
    assert_eq!(
        missing_err,
        "branch not found: 'does-not-exist' (checked refs/heads/does-not-exist and refs/remotes/does-not-exist)"
    );
}

#[test]
fn get_diff_summary_merges_untracked_files_and_caps_at_100() {
    let mut repo = FakeRepo::new();
    for i in 0..105 {
        repo.untracked.push((format!("untracked_{i:03}.txt"), format!("line one\nline two {i}\n").into_bytes()));
    }
    let mut p = params("main", "feature");
    p.source_scope = SourceScope::Unstaged;
    let summary = run(&p, &mut repo).unwrap();
    let untracked: Vec<_> = summary.files.iter().filter(|f| f.is_untracked == Some(true)).collect();
    assert_eq!(untracked.len(), UNTRACKED_LIMIT);
    assert_eq!(summary.omitted_untracked, Some(5));
    for f in &untracked {
        assert_eq!(f.status, DiffFileStatus::Added);
        assert_eq!(f.deletions, Some(0));
        assert_eq!(f.additions, Some(2));
        assert!(!f.is_binary);
    }
    assert_eq!(untracked[0].path, "untracked_000.txt");
    assert_eq!(untracked[99].path, "untracked_099.txt");
}

#[test]
fn get_diff_summary_untracked_entries_null_additions_for_binary_and_oversized_files() {
    let mut repo = FakeRepo::new();
    repo.untracked.push(("binary_untracked.bin".to_string(), vec![0u8, 1, 2, 3, 0, 4]));
    repo.untracked.push(("big_untracked.txt".to_string(), vec![b'x'; 1_048_577]));
    let mut p = params("main", "feature");
    p.source_scope = SourceScope::Unstaged;
    let summary = run(&p, &mut repo).unwrap();
    let binary = summary.files.iter().find(|f| f.path == "binary_untracked.bin").unwrap();
    assert!(binary.is_binary);
    assert_eq!(binary.additions, None);
    assert_eq!(binary.deletions, Some(0));
    let big = summary.files.iter().find(|f| f.path == "big_untracked.txt").unwrap();
    assert!(!big.is_binary);
    assert_eq!(big.additions, None);
    assert_eq!(big.deletions, Some(0));
}

#[test]
fn oversized_untracked_file_is_only_sniffed() {
    let mut repo = FakeRepo::new();
    repo.untracked.push(("big.txt".to_string(), vec![b'x'; 2_000_000]));
    let mut p = params("main", "feature");
    p.source_scope = SourceScope::Unstaged;
    let mut step = SummaryJob::start(&p);
    let mut saw_prefix = false;
    loop {
        match step {
            Step::Ask(job, req) => {
                if let Request::ReadPrefix(path, n) = &req {
                    assert_eq!(path, "big.txt");
                    assert_eq!(*n, 8000);
                    saw_prefix = true;
                }
                assert!(!matches!(req, Request::ReadFile(_)));
                let reply = repo.answer(&req);
                step = job.step(reply);
            },
            Step::Done(r) => {
                assert!(r.is_ok());
                break;
            },
        }
    }
    assert!(saw_prefix);
}

#[test]
fn get_diff_summary_warns_on_multiple_merge_bases() {
    let mut repo = FakeRepo::new();
    repo.merge_bases = format!("{MB_SHA}\n2222222222222222222222222222222222222222\n");
    let summary = run(&params("main", "feature"), &mut repo).unwrap();
    assert!(summary.warnings.iter().any(|w| w.contains("multiple merge bases")), "{:?}", summary.warnings);
    assert_eq!(summary.merge_base.as_deref(), Some(&MB_SHA[..7]));
}

#[test]
fn unrelated_histories_give_an_empty_summary_with_a_warning() {
    let mut repo = FakeRepo::new();
    repo.merge_bases = String::new();
    let summary = run(&params("main", "feature"), &mut repo).unwrap();
    assert!(summary.files.is_empty());
    assert_eq!(summary.summary.files_changed, 0);
    assert_eq!(summary.merge_base, None);
    assert_eq!(
        summary.warnings,
        vec!["no merge base found between target and source (unrelated histories?)".to_string()]
    );
    assert!(diff_runs(&repo).is_empty());
}

#[test]
fn get_diff_summary_classifies_submodule_entries() {
    let mut repo = FakeRepo::new();
    repo.name_status = b"A\0sub\0M\0a.txt\0".to_vec();
    repo.numstat = b"1\t0\tsub\x001\t1\ta.txt\x00".to_vec();
    repo.raw = b":000000 160000 0000 1111 A\0sub\0:100644 100644 aaa bbb M\0a.txt\0".to_vec();
    let summary = run(&params("main", "feature"), &mut repo).unwrap();
    let sub = summary.files.iter().find(|f| f.path == "sub").unwrap();
    assert_eq!(sub.status, DiffFileStatus::Submodule);
    let a = summary.files.iter().find(|f| f.path == "a.txt").unwrap();
    assert_eq!(a.status, DiffFileStatus::Modified);
}

#[test]
fn a_failing_git_diff_is_reported() {
    let mut repo = FakeRepo::new();
    let mut step = SummaryJob::start(&params("main", "feature"));
    let err = loop {
        match step {
            Step::Ask(job, req) => {
                let reply = match &req {
                    Request::Git(a) if a.contains(&"--numstat".to_string()) => git_failed("fatal: bad revision\n"),
                    _ => repo.answer(&req),
                };
                step = job.step(reply);
            },
            Step::Done(r) => break r.unwrap_err(),
        }
    };
    assert_eq!(err, "git diff --numstat failed: fatal: bad revision");
}

#[test]
fn a_git_invocation_error_aborts_the_summary() {
    let step = SummaryJob::start(&params("main", "feature"));
    match step {
        Step::Ask(job, _) => match job.step(Reply::Git(Err("GIT_TIMEOUT: git command exceeded 30s and was terminated".to_string()))) {
            Step::Done(Err(e)) => assert!(e.starts_with("GIT_TIMEOUT:")),
            _ => panic!("expected the error"),
        },
        Step::Done(_) => panic!("expected a request"),
    }
}

#[test]
fn in_progress_checks_run_in_order() {
    assert_eq!(detect_in_progress_operation(&[]), InProgressStep::CheckPath("MERGE_HEAD".to_string()));
    assert_eq!(detect_in_progress_operation(&[false]), InProgressStep::CheckPath("rebase-merge".to_string()));
    assert_eq!(detect_in_progress_operation(&[false, false]), InProgressStep::CheckPath("rebase-apply".to_string()));
    assert_eq!(detect_in_progress_operation(&[false, false, false]), InProgressStep::Done(None));
    match detect_in_progress_operation(&[true]) {
        InProgressStep::Done(Some(w)) => assert!(w.contains("MERGE_HEAD present")),
        other => panic!("{other:?}"),
    }
    let failed = GitOutput { success: false, stdout: b"x".to_vec(), stderr: Vec::new() };
    assert_eq!(git_path_exists(&failed), None);
    let ok = GitOutput { success: true, stdout: b" .git/MERGE_HEAD\n".to_vec(), stderr: Vec::new() };
    assert_eq!(git_path_exists(&ok).as_deref(), Some(".git/MERGE_HEAD"));
}

#[test]
fn count_lines_counts_a_trailing_partial_line() {
    assert_eq!(count_lines(b""), 0);
    assert_eq!(count_lines(b"a"), 1);
    assert_eq!(count_lines(b"a\n"), 1);
    assert_eq!(count_lines(b"a\nb"), 2);
    assert_eq!(count_lines(b"\n\n"), 2);
}

#[test]
fn binary_sniff_only_looks_at_the_first_8000_bytes() {
    assert!(!looks_binary(b"plain text"));
    assert!(looks_binary(&[1, 0, 2]));
    let mut late = vec![b'a'; 8000];
    late.push(0);
    assert!(!looks_binary(&late));
    let mut edge = vec![b'a'; 7999];
    edge.push(0);
    assert!(looks_binary(&edge));
}

#[test]
fn untracked_entry_shapes() {
    let text = untracked_entry("t.txt", 4, b"a\nb\n");
    assert_eq!(text.status, DiffFileStatus::Added);
    assert_eq!((text.additions, text.deletions), (Some(2), Some(0)));
    assert_eq!(text.is_untracked, Some(true));
    assert!(!text.is_binary);
    let big = untracked_entry("big", 2_000_000, &[0, 1]);
    assert!(big.is_binary);
    assert_eq!(big.additions, None);
}

#[test]
fn every_git_request_of_a_summary_is_read_only() {
    let read_only = [
        "rev-parse", "check-ref-format", "show-ref", "symbolic-ref", "merge-base", "diff", "ls-files",
    ];
    for scope in [SourceScope::Committed, SourceScope::Staged, SourceScope::Unstaged] {
        let mut repo = FakeRepo::new();
        repo.untracked.push(("u.txt".to_string(), b"x\n".to_vec()));
        let mut p = params("main", "feature");
        p.source_scope = scope;
        run(&p, &mut repo).unwrap();
        for args in &repo.git_log {
            let mut i = 0;
            while args[i] == "-c" {
                i += 2;
            }
            assert!(read_only.contains(&args[i].as_str()), "{args:?}");
            if args[i] == "diff" {
                assert_eq!(args.last().map(|s| s.as_str()), Some("--"));
            }
        }
    }
}
