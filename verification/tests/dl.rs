use tree_sitter_dynamic::DlError;

#[test]
fn dl_error_keeps_message() {
    let e = DlError::new("libfoo.so: cannot open shared object file".to_string());
    assert_eq!(e.message(), "libfoo.so: cannot open shared object file");
}
