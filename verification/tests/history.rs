use ezcurl::{check_version, HistoryError, HistoryStore, HISTORY_VERSION};
use std::path::PathBuf;

#[test]
fn store_keeps_its_path() {
    let store = HistoryStore::new(PathBuf::from("/tmp/ezcurl/history.json"));
    assert_eq!(store.path(), Some(&PathBuf::from("/tmp/ezcurl/history.json")));
}

#[test]
fn in_memory_store_has_no_path() {
    let store = HistoryStore::in_memory();
    assert!(store.path().is_none());
}

#[test]
fn only_the_current_version_is_read() {
    assert_eq!(HISTORY_VERSION, 1);
    assert!(check_version(HISTORY_VERSION).is_ok());
    assert!(matches!(check_version(2), Err(HistoryError::UnsupportedVersion(2))));
    assert!(matches!(check_version(0), Err(HistoryError::UnsupportedVersion(0))));
}
