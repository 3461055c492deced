use branch_diff_viewer::refs::{normalize_ref, RefCheck, RefStep};

/// Runs the normalization against a repository described by which checks
/// succeed: `format_ok` for the syntax check and `existing` for the refs
/// that exist.
fn run(raw: &str, format_ok: bool, existing: &[&str]) -> Result<String, String> {
    let mut answers = Vec::new();
    loop {
        match normalize_ref(raw, &answers) {
            RefStep::Check(RefCheck::Format(_)) => answers.push(format_ok),
            RefStep::Check(RefCheck::Exists(r)) => answers.push(existing.contains(&r.as_str())),
            RefStep::Done(result) => return result,
        }
    }
}

#[test]
fn normalizes_short_local_branch_to_refs_heads() {
    let existing = ["refs/heads/main", "refs/heads/feature"];
    assert_eq!(run("main", true, &existing).unwrap(), "refs/heads/main");
    assert_eq!(run("feature", true, &existing).unwrap(), "refs/heads/feature");
}

#[test]
fn normalizes_short_remote_tracking_branch_to_refs_remotes_when_no_local_match() {
    let existing = ["refs/heads/main", "refs/remotes/origin/release"];
    assert_eq!(run("origin/release", true, &existing).unwrap(), "refs/remotes/origin/release");
}

#[test]
fn prefers_local_branch_over_remote_tracking_branch_of_the_same_short_name() {
    let existing = ["refs/heads/shared", "refs/remotes/shared"];
    assert_eq!(run("shared", true, &existing).unwrap(), "refs/heads/shared");
}

#[test]
fn passes_through_already_fully_qualified_refs() {
    assert_eq!(run("refs/heads/main", true, &[]).unwrap(), "refs/heads/main");
    assert_eq!(run("refs/remotes/o/x", true, &[]).unwrap(), "refs/remotes/o/x");
}

#[test]
fn rejects_nonexistent_short_branch() {
    let err = run("does-not-exist", true, &["refs/heads/main"]).unwrap_err();
    assert!(err.contains("not found"), "unexpected error: {err}");
    assert_eq!(
        err,
        "branch not found: 'does-not-exist' (checked refs/heads/does-not-exist and refs/remotes/does-not-exist)"
    );
}

#[test]
fn rejects_ref_starting_with_dash() {
    let err = run("-foo", true, &[]).unwrap_err();
    assert!(err.contains("must not start with '-'"), "unexpected error: {err}");
}

#[test]
fn rejects_illegal_ref_syntax() {
    // `git check-ref-format` refuses each of these names.
    for bad in ["a..b", "foo.lock", "foo bar", "foo~1", "foo^HEAD"] {
        let err = run(bad, false, &[]).unwrap_err();
        assert!(
            err.contains("invalid ref name") || err.contains("not found"),
            "expected '{bad}' to be rejected, got: {err}"
        );
        assert_eq!(err, format!("invalid ref name: '{bad}'"));
    }
}

#[test]
fn rejects_empty_ref() {
    let err = run("", true, &[]).unwrap_err();
    assert!(err.contains("empty"), "unexpected error: {err}");
}

#[test]
fn asks_checks_in_order_and_settles_within_three() {
    assert_eq!(normalize_ref("main", &[]), RefStep::Check(RefCheck::Format("main".into())));
    assert_eq!(
        normalize_ref("main", &[true]),
        RefStep::Check(RefCheck::Exists("refs/heads/main".into()))
    );
    assert_eq!(
        normalize_ref("main", &[true, false]),
        RefStep::Check(RefCheck::Exists("refs/remotes/main".into()))
    );
    assert!(matches!(normalize_ref("main", &[true, false, false]), RefStep::Done(Err(_))));
    // Extra answers after the outcome do not change it.
    assert_eq!(
        normalize_ref("main", &[true, true, false, false]),
        RefStep::Done(Ok("refs/heads/main".into()))
    );
    // The dash check comes before any git check.
    assert!(matches!(normalize_ref("-x", &[]), RefStep::Done(Err(_))));
}

#[test]
fn normalizing_a_normalized_ref_gives_it_back() {
    let repo = ["refs/remotes/origin/dev"];
    let once = run("origin/dev", true, &repo).unwrap();
    assert_eq!(once, "refs/remotes/origin/dev");
    assert_eq!(run(&once, true, &repo).unwrap(), once);
    assert_eq!(normalize_ref(&once, &[true]), RefStep::Done(Ok(once.clone())));
}
