use tui_preview::fs::Entry;
use tui_preview::ui::search::{filter_files, SearchState};

fn entry(name: &str) -> Entry {
    Entry { path: name.to_string(), name: name.to_string(), is_dir: false, size: 0, is_symlink: false, symlink_target: None }
}

#[test]
fn filter_substring() {
    let files = vec![entry("ARCHITECTURE.md"), entry("BACKEND.md"), entry("README.md")];
    let res = filter_files(&files, "arch");
    assert_eq!(res, vec![0]);
}

#[test]
fn empty_query_all() {
    let files = vec![entry("a"), entry("b")];
    let res = filter_files(&files, "");
    assert_eq!(res.len(), 2);
}

#[test]
fn filter_is_case_insensitive_both_ways() {
    let files = vec![entry("Photo.JPG"), entry("notes.md"), entry("photos")];
    assert_eq!(filter_files(&files, "PHOTO"), vec![0, 2]);
    assert_eq!(filter_files(&files, "zzz"), Vec::<usize>::new());
}

#[test]
fn search_state_editing() {
    let mut s = SearchState::new();
    assert!(!s.active);
    s.enter();
    assert!(s.active);
    s.push('a');
    s.push('b');
    assert_eq!(s.query, "ab");
    s.pop();
    assert_eq!(s.query, "a");
    s.pop();
    s.pop();
    assert_eq!(s.query, "");
    s.push('x');
    s.exit();
    assert!(!s.active);
    assert_eq!(s.query, "");
}
