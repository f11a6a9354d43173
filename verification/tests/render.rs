use tree_sitter_dynamic::highlight::{basic_capture_names, standard_capture_names};
use tree_sitter_dynamic::render::{refuses_encoding, StyleSheet};

fn sheet() -> StyleSheet {
    StyleSheet::new(
        "\x1b[".to_string(),
        "\x1b[0m".to_string(),
        vec![
            ("keyword".to_string(), "35m".to_string()),
            ("string".to_string(), "32m".to_string()),
        ],
    )
    .unwrap()
}

#[test]
fn style_sheet_refuses_repeated_names() {
    let theme = vec![
        ("keyword".to_string(), "35m".to_string()),
        ("string".to_string(), "32m".to_string()),
        ("keyword".to_string(), "31m".to_string()),
    ];
    assert!(StyleSheet::new(String::new(), String::new(), theme).is_none());
    let s = sheet();
    assert_eq!(s.prefix(), "\x1b[");
    assert_eq!(s.end(), "\x1b[0m");
    assert_eq!(s.theme().len(), 2);
}

#[test]
fn capture_name_lists() {
    let names = standard_capture_names();
    assert_eq!(names.len(), 52);
    assert_eq!(names[0], "attribute");
    assert_eq!(names[14], "keyword");
    assert_eq!(names[51], "variable.parameter");
    let basic = basic_capture_names();
    assert_eq!(basic.len(), 18);
    assert_eq!(basic[2], "function.builtin");
}

#[test]
fn style_lookup() {
    let s = sheet();
    assert_eq!(s.style("string"), Some("32m".to_string()));
    assert_eq!(s.style("comment"), None);
}

#[test]
fn highlight_start_styled() {
    let s = sheet();
    assert_eq!(s.highlight_start(14, false), "\x1b[35m");
    assert_eq!(s.highlight_start(14, true), "\x1b[35m(keyword ");
}

#[test]
fn highlight_start_unstyled() {
    let s = sheet();
    assert_eq!(s.highlight_start(3, false), "");
    assert_eq!(s.highlight_start(3, true), "(comment ");
}

#[test]
fn highlight_end_output() {
    let s = sheet();
    assert_eq!(s.highlight_end(false), "\x1b[0m");
    assert_eq!(s.highlight_end(true), ")\x1b[0m");
}

#[test]
fn only_binary_is_refused() {
    assert!(refuses_encoding("binary"));
    assert!(!refuses_encoding("utf-8"));
    assert!(!refuses_encoding("us-ascii"));
}
