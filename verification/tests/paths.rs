use tree_sitter_dynamic::find_in_path;

#[test]
fn find_in_path_returns_first_existing_candidate() {
    let subdirs = vec!["/a".to_string(), "/b".to_string(), "/c/".to_string()];
    let found = find_in_path(&subdirs, "parser.so", |p: &String| {
        p == "/b/parser.so" || p == "/c/parser.so"
    });
    assert_eq!(found, Some("/b/parser.so".to_string()));
}

#[test]
fn find_in_path_joins_with_trailing_separator() {
    let subdirs = vec!["/c/".to_string()];
    let found = find_in_path(&subdirs, "x", |_p: &String| true);
    assert_eq!(found, Some("/c/x".to_string()));
}

#[test]
fn find_in_path_absolute_filename_replaces_directory() {
    let subdirs = vec!["/c".to_string()];
    let found = find_in_path(&subdirs, "/etc/x", |_p: &String| true);
    assert_eq!(found, Some("/etc/x".to_string()));
}

#[test]
fn find_in_path_none_when_nothing_exists() {
    let subdirs = vec!["/a".to_string(), "/b".to_string()];
    let mut asked = Vec::new();
    let cell = std::cell::RefCell::new(&mut asked);
    let found = find_in_path(&subdirs, "f", |p: &String| {
        cell.borrow_mut().push(p.clone());
        false
    });
    assert_eq!(found, None);
    assert_eq!(asked, vec!["/a/f".to_string(), "/b/f".to_string()]);
}

#[test]
fn find_in_path_empty_directory() {
    let found = find_in_path(&Vec::new(), "f", |_p: &String| true);
    assert_eq!(found, None);
}
