use branch_diff_viewer::recent::{
    recent_from_bytes, recent_to_bytes, update_recent, validate_recent_path, RECENT_LIMIT,
};

/// The recent-projects file, kept in memory.
struct Store {
    file: Option<Vec<u8>>,
}

impl Store {
    fn get(&self) -> Vec<String> {
        match &self.file {
            Some(bytes) => recent_from_bytes(bytes),
            None => Vec::new(),
        }
    }

    fn add(&mut self, path: &str) -> Result<Vec<String>, String> {
        validate_recent_path(path)?;
        let list = update_recent(self.get(), path);
        self.file = Some(recent_to_bytes(&list)?);
        Ok(list)
    }
}

#[test]
fn get_recent_projects_is_empty_when_file_missing() {
    let store = Store { file: None };
    assert!(store.get().is_empty());
}

#[test]
fn add_recent_project_prepends_newest_first() {
    let mut store = Store { file: None };
    store.add("/repo/a").unwrap();
    store.add("/repo/b").unwrap();
    assert_eq!(store.get(), vec!["/repo/b", "/repo/a"]);
}

#[test]
fn add_recent_project_dedupes_by_moving_existing_entry_to_front() {
    let mut store = Store { file: None };
    store.add("/repo/a").unwrap();
    store.add("/repo/b").unwrap();
    store.add("/repo/a").unwrap();
    assert_eq!(store.get(), vec!["/repo/a", "/repo/b"]);
}

#[test]
fn add_recent_project_caps_at_ten_dropping_the_oldest() {
    let mut store = Store { file: None };
    for i in 0..12 {
        store.add(&format!("/repo/{i}")).unwrap();
    }
    let list = store.get();
    assert_eq!(list.len(), RECENT_LIMIT);
    assert_eq!(list[0], "/repo/11");
    assert_eq!(list[RECENT_LIMIT - 1], "/repo/2");
    assert!(!list.contains(&"/repo/0".to_string()));
    assert!(!list.contains(&"/repo/1".to_string()));
}

#[test]
fn add_recent_project_rejects_empty_path() {
    let mut store = Store { file: None };
    let err = store.add("").unwrap_err();
    assert!(err.contains("empty"), "unexpected error: {err}");
    assert!(store.file.is_none());
}

#[test]
fn a_corrupt_file_reads_as_empty() {
    assert!(recent_from_bytes(b"not json").is_empty());
    assert!(recent_from_bytes(b"{\"a\": 1}").is_empty());
    assert_eq!(recent_from_bytes(b"[\"/x\", \"/y\"]"), vec!["/x", "/y"]);
}

#[test]
fn the_stored_list_reads_back_unchanged() {
    let list = vec!["/a \"quoted\"".to_string(), "/日本語".to_string(), "\\back\\slash".to_string()];
    let bytes = recent_to_bytes(&list).unwrap();
    assert_eq!(recent_from_bytes(&bytes), list);
    assert!(String::from_utf8(bytes).unwrap().contains('\n'));
}

#[test]
fn reopening_the_newest_project_changes_nothing() {
    let list = vec!["/a".to_string(), "/b".to_string()];
    assert_eq!(update_recent(list.clone(), "/a"), list);
}
