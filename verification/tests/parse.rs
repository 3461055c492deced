use branch_diff_viewer::parse::{
    merge_entries, parse_name_status, parse_numstat, split_nul, NameStatusEntry, NumstatEntry,
};
use branch_diff_viewer::types::DiffFileStatus;

#[test]
fn parses_simple_name_status_records() {
    let raw = b"A\0new.txt\0M\0changed.txt\0D\0removed.txt\0";
    let entries = parse_name_status(raw).unwrap();
    assert_eq!(
        entries,
        vec![
            NameStatusEntry { status_code: "A".into(), paths: vec!["new.txt".into()] },
            NameStatusEntry { status_code: "M".into(), paths: vec!["changed.txt".into()] },
            NameStatusEntry { status_code: "D".into(), paths: vec!["removed.txt".into()] },
        ]
    );
}

#[test]
fn parses_rename_name_status_record() {
    let raw = b"R100\0old.txt\0new.txt\0";
    let entries = parse_name_status(raw).unwrap();
    assert_eq!(
        entries,
        vec![NameStatusEntry {
            status_code: "R100".into(),
            paths: vec!["old.txt".into(), "new.txt".into()]
        }]
    );
}

#[test]
fn parses_numstat_with_binary_and_rename_records() {
    let raw = b"3\t1\ta.txt\05\t2\t\0old.txt\0new.txt\0-\t-\timg.png\0";
    let entries = parse_numstat(raw).unwrap();
    assert_eq!(
        entries,
        vec![
            NumstatEntry { additions: Some(3), deletions: Some(1), paths: vec!["a.txt".into()] },
            NumstatEntry {
                additions: Some(5),
                deletions: Some(2),
                paths: vec!["old.txt".into(), "new.txt".into()]
            },
            NumstatEntry { additions: None, deletions: None, paths: vec!["img.png".into()] },
        ]
    );
}

#[test]
fn merge_entries_rejects_mismatched_paths_when_gaps_disallowed() {
    let ns = vec![NameStatusEntry { status_code: "M".into(), paths: vec!["a.txt".into()] }];
    let nu = vec![NumstatEntry { additions: Some(1), deletions: Some(0), paths: vec!["b.txt".into()] }];
    let err = merge_entries(ns, nu, false).unwrap_err();
    assert!(err.contains("no matching record"), "unexpected error: {err}");
}

#[test]
fn merge_entries_drops_whitespace_only_files_when_gaps_allowed() {
    let ns = vec![NameStatusEntry { status_code: "M".into(), paths: vec!["ws.txt".into()] }];
    let nu = vec![];
    let files = merge_entries(ns, nu, true).unwrap();
    assert!(files.is_empty());
}

#[test]
fn merge_entries_maps_status_and_binary_flag() {
    let ns = vec![
        NameStatusEntry { status_code: "A".into(), paths: vec!["a.txt".into()] },
        NameStatusEntry { status_code: "R095".into(), paths: vec!["old.txt".into(), "new.txt".into()] },
    ];
    let nu = vec![
        NumstatEntry { additions: None, deletions: None, paths: vec!["a.txt".into()] },
        NumstatEntry {
            additions: Some(4),
            deletions: Some(1),
            paths: vec!["old.txt".into(), "new.txt".into()],
        },
    ];
    let files = merge_entries(ns, nu, false).unwrap();
    assert_eq!(files[0].status, DiffFileStatus::Added);
    assert!(files[0].is_binary);
    assert_eq!(files[1].status, DiffFileStatus::Renamed);
    assert_eq!(files[1].old_path.as_deref(), Some("old.txt"));
    assert_eq!(files[1].path, "new.txt");
    assert!(!files[1].is_binary);
}

// --- further cases -----------------------------------------------------------

#[test]
fn split_nul_drops_empty_tokens_and_decodes_lossily() {
    let tokens = split_nul(b"\0\0a\0\0b c\0tail");
    assert_eq!(tokens, vec!["a", "b c", "tail"]);
    assert!(split_nul(b"").is_empty());
    assert!(split_nul(b"\0\0\0").is_empty());
    // An invalid UTF-8 byte becomes U+FFFD rather than being kept raw.
    let lossy = split_nul(b"x\xffy\0");
    assert_eq!(lossy, vec!["x\u{fffd}y"]);
}

#[test]
fn name_status_reports_truncated_records() {
    let err = parse_name_status(b"R100\0old.txt\0").unwrap_err();
    assert_eq!(
        err,
        "malformed --name-status output: expected old/new path after status 'R100'"
    );
    let err = parse_name_status(b"M\0").unwrap_err();
    assert_eq!(err, "malformed --name-status output: expected path after status 'M'");
    let copy = parse_name_status(b"C75\0a\0b\0").unwrap();
    assert_eq!(copy[0].paths, vec!["a", "b"]);
    assert!(parse_name_status(b"").unwrap().is_empty());
}

#[test]
fn numstat_reports_each_malformed_field() {
    assert_eq!(parse_numstat(b"3\0").unwrap_err(), "numstat record missing deletions field");
    assert_eq!(parse_numstat(b"3\t1\0").unwrap_err(), "numstat record missing path field");
    assert_eq!(
        parse_numstat(b"3\t1\t\0").unwrap_err(),
        "numstat record is a rename/copy but is missing the old path"
    );
    assert_eq!(
        parse_numstat(b"3\t1\t\0old\0").unwrap_err(),
        "numstat record is a rename/copy but is missing the new path"
    );
    assert_eq!(parse_numstat(b"x\t1\tf\0").unwrap_err(), "invalid numstat count: 'x'");
    assert_eq!(parse_numstat(b"1\t-2a\tf\0").unwrap_err(), "invalid numstat count: '-2a'");
}

#[test]
fn numstat_counts_follow_i64_parsing() {
    let e = parse_numstat(b"+7\t-0\tf\0").unwrap();
    assert_eq!(e[0].additions, Some(7));
    assert_eq!(e[0].deletions, Some(0));
    let e = parse_numstat(b"9223372036854775807\t-9223372036854775808\tf\0").unwrap();
    assert_eq!(e[0].additions, Some(i64::MAX));
    assert_eq!(e[0].deletions, Some(i64::MIN));
    assert!(parse_numstat(b"9223372036854775808\t0\tf\0").is_err());
    assert!(parse_numstat(b"+\t0\tf\0").is_err());
    assert!(parse_numstat(b"\t0\tf\0").is_err());
    // A path may itself contain a tab: only the first two tabs split.
    let e = parse_numstat(b"1\t2\ta\tb\0").unwrap();
    assert_eq!(e[0].paths, vec!["a\tb"]);
}

#[test]
fn merge_entries_reports_path_mismatch_with_both_lists() {
    let ns = vec![NameStatusEntry { status_code: "R100".into(), paths: vec!["x".into(), "n".into()] }];
    let nu = vec![NumstatEntry { additions: Some(1), deletions: Some(1), paths: vec!["n".into()] }];
    let err = merge_entries(ns, nu, false).unwrap_err();
    assert_eq!(err, "name-status/numstat path mismatch for 'n': [\"x\", \"n\"] vs [\"n\"]");
}

#[test]
fn merge_entries_uses_the_last_numstat_record_for_a_path() {
    let ns = vec![NameStatusEntry { status_code: "M".into(), paths: vec!["a".into()] }];
    let nu = vec![
        NumstatEntry { additions: Some(1), deletions: Some(1), paths: vec!["a".into()] },
        NumstatEntry { additions: Some(7), deletions: Some(8), paths: vec!["a".into()] },
    ];
    let files = merge_entries(ns, nu, false).unwrap();
    assert_eq!(files[0].additions, Some(7));
    assert_eq!(files[0].deletions, Some(8));
}

#[test]
fn merge_entries_maps_every_status_letter() {
    let codes = [
        ("A", DiffFileStatus::Added),
        ("M", DiffFileStatus::Modified),
        ("D", DiffFileStatus::Deleted),
        ("T", DiffFileStatus::Typechange),
        ("U", DiffFileStatus::Unmerged),
        ("X", DiffFileStatus::Other),
    ];
    for (code, status) in codes {
        let ns = vec![NameStatusEntry { status_code: code.into(), paths: vec!["f".into()] }];
        let nu = vec![NumstatEntry { additions: Some(0), deletions: Some(0), paths: vec!["f".into()] }];
        let files = merge_entries(ns, nu, false).unwrap();
        assert_eq!(files[0].status, status);
        assert_eq!(files[0].old_path, None);
        assert_eq!(files[0].is_untracked, None);
    }
    let ns = vec![NameStatusEntry { status_code: "C50".into(), paths: vec!["o".into(), "n".into()] }];
    let nu = vec![NumstatEntry { additions: Some(0), deletions: None, paths: vec!["o".into(), "n".into()] }];
    let files = merge_entries(ns, nu, false).unwrap();
    assert_eq!(files[0].status, DiffFileStatus::Renamed);
    assert!(files[0].is_binary);
    let ns = vec![NameStatusEntry { status_code: "".into(), paths: vec!["f".into()] }];
    let nu = vec![NumstatEntry { additions: Some(0), deletions: Some(0), paths: vec!["f".into()] }];
    assert_eq!(merge_entries(ns, nu, false).unwrap_err(), "empty status code in name-status output");
}

#[test]
fn strict_and_lenient_merges_agree_when_every_record_matches() {
    let ns = parse_name_status(b"M\0a\0R90\0b\0c\0").unwrap();
    let nu = parse_numstat(b"1\t2\ta\x003\t4\t\0b\0c\0").unwrap();
    let strict = merge_entries(ns.clone(), nu.clone(), false).unwrap();
    let lenient = merge_entries(ns, nu, true).unwrap();
    assert_eq!(strict.len(), 2);
    assert_eq!(lenient.len(), 2);
    for (s, l) in strict.iter().zip(lenient.iter()) {
        assert_eq!(s.path, l.path);
        assert_eq!(s.status, l.status);
        assert_eq!(s.additions, l.additions);
    }
}

fn name_status_printed(entries: &[NameStatusEntry]) -> Vec<u8> {
    let mut out = Vec::new();
    for e in entries {
        out.extend_from_slice(e.status_code.as_bytes());
        out.push(0);
        for p in &e.paths {
            out.extend_from_slice(p.as_bytes());
            out.push(0);
        }
    }
    out
}

fn count_printed(c: Option<i64>) -> String {
    match c {
        None => "-".to_string(),
        Some(n) => n.to_string(),
    }
}

fn numstat_printed(entries: &[NumstatEntry]) -> Vec<u8> {
    let mut out = Vec::new();
    for e in entries {
        let head = format!("{}\t{}\t", count_printed(e.additions), count_printed(e.deletions));
        out.extend_from_slice(head.as_bytes());
        if e.paths.len() == 1 {
            out.extend_from_slice(e.paths[0].as_bytes());
            out.push(0);
        } else {
            out.push(0);
            for p in &e.paths {
                out.extend_from_slice(p.as_bytes());
                out.push(0);
            }
        }
    }
    out
}

#[test]
fn printed_name_status_records_parse_back() {
    let entries = vec![
        NameStatusEntry { status_code: "M".into(), paths: vec!["src/main.rs".into()] },
        NameStatusEntry { status_code: "R087".into(), paths: vec!["old name.txt".into(), "新しい.txt".into()] },
        NameStatusEntry { status_code: "C100".into(), paths: vec!["a\tb".into(), "c".into()] },
        NameStatusEntry { status_code: "D".into(), paths: vec!["gone".into()] },
    ];
    assert_eq!(parse_name_status(&name_status_printed(&entries)).unwrap(), entries);
}

#[test]
fn printed_numstat_records_parse_back() {
    let entries = vec![
        NumstatEntry { additions: Some(12), deletions: Some(0), paths: vec!["a.txt".into()] },
        NumstatEntry { additions: None, deletions: None, paths: vec!["img.png".into()] },
        NumstatEntry { additions: Some(3), deletions: Some(4), paths: vec!["old".into(), "new".into()] },
        NumstatEntry { additions: Some(1), deletions: Some(2), paths: vec!["tab\tin name".into()] },
        NumstatEntry { additions: Some(i64::MAX), deletions: Some(-7), paths: vec!["edge".into()] },
    ];
    assert_eq!(parse_numstat(&numstat_printed(&entries)).unwrap(), entries);
}
