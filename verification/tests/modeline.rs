use tree_sitter_dynamic::Modeline;

fn names(m: &Modeline) -> Vec<&str> {
    m.inherits.iter().map(|s| s.as_str()).collect()
}

#[test]
fn test_modeline() {
    let s = r#";; inherits: typescript, tsx
;; extends
"#;

    let modeline = Modeline::get(s);

    assert_eq!(
        modeline,
        Modeline {
            inherits: vec![String::from("typescript"), String::from("tsx")],
            extends: false
        }
    )
}

#[test]
fn modeline_of_empty_source_is_empty() {
    let m = Modeline::get("");
    assert!(m.inherits.is_empty());
    assert!(!m.extends);
}

#[test]
fn modeline_stops_at_first_code_line() {
    let s = "; inherits: c\n(identifier) @variable\n; inherits: cpp\n";
    assert_eq!(names(&Modeline::get(s)), vec!["c"]);
}

#[test]
fn modeline_text_after_code_line_is_ignored() {
    let head = ";; inherits: ecma\n";
    let a = Modeline::get(head);
    let b = Modeline::get(&format!("{head}(comment) @comment\n;; inherits: jsx"));
    assert_eq!(a, b);
    assert_eq!(names(&a), vec!["ecma"]);
}

#[test]
fn modeline_reads_several_lines_in_order() {
    let s = "; inherits: a,b\n;;; inherits: c\n";
    assert_eq!(names(&Modeline::get(s)), vec!["a", "b", "c"]);
}

#[test]
fn modeline_handles_crlf_lines() {
    let s = "; inherits: html_tags\r\n; extends\r\n";
    assert_eq!(names(&Modeline::get(s)), vec!["html_tags"]);
}

#[test]
fn modeline_needs_space_after_inherits() {
    assert!(Modeline::get(";inherits:c").inherits.is_empty());
    assert_eq!(names(&Modeline::get(";inherits: c")), vec!["c"]);
}

#[test]
fn modeline_keeps_empty_pieces() {
    let s = ";; inherits: a,, b ,\n";
    assert_eq!(names(&Modeline::get(s)), vec!["a", "", "b", ""]);
}

#[test]
fn modeline_removes_semicolons_inside_names() {
    let s = "; inherits: ty;pe;script , t;sx\n";
    assert_eq!(names(&Modeline::get(s)), vec!["typescript", "tsx"]);
}

#[test]
fn modeline_removes_every_inherits_marker() {
    let s = "; inherits: a, inherits:b\n";
    assert_eq!(names(&Modeline::get(s)), vec!["a", "b"]);
}

#[test]
fn modeline_ignores_other_comments() {
    let s = ";; a comment\n;; inherits: rust\n";
    assert_eq!(names(&Modeline::get(s)), vec!["rust"]);
}

#[test]
fn modeline_names_are_clean() {
    let s = ";\tinherits:  x\u{2003}, y\t\n";
    for name in Modeline::get(s).inherits {
        assert!(!name.contains(',') && !name.contains(';'));
        assert_eq!(name.trim(), name);
    }
    assert_eq!(names(&Modeline::get(s)), vec!["x", "y"]);
}

#[test]
fn modeline_unicode_whitespace_is_trimmed() {
    let s = "; inherits: \u{00a0}lua\u{3000}\n";
    assert_eq!(names(&Modeline::get(s)), vec!["lua"]);
}

#[test]
fn modeline_final_line_without_newline() {
    assert_eq!(names(&Modeline::get("; inherits: go")), vec!["go"]);
}

#[test]
fn modeline_final_newline_changes_nothing() {
    for s in ["; inherits: a, b", "; inherits: a\n", "", "code\n; inherits: x", "; inherits: a\r", "\r"] {
        assert_eq!(Modeline::get(s), Modeline::get(&format!("{s}\n")));
    }
}

#[test]
fn modeline_never_extends() {
    assert!(!Modeline::get(";; extends\n;; inherits: a\n").extends);
}
