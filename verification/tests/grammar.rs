use tree_sitter_dynamic::paths::{extension, file_name, path_join};
use tree_sitter_dynamic::grammar::{
    bundled_dir_name, bundled_parser_path, bundled_query_path, concat_all, config_language,
    detect_in_package, detected_language, file_extension, language_symbol_name,
    after_parser_check, next_grammar_candidate, not_found_message, parser_path, query_paths, ConfigStep, DetectError,
    Detection, Grammar, TreeSitterConfig,
};

fn config(path: Option<&str>, file_types: &[&str]) -> TreeSitterConfig {
    TreeSitterConfig {
        path: path.map(|p| p.to_string()),
        highlights: vec![],
        injections: vec![],
        locals: vec![],
        file_types: file_types.iter().map(|s| s.to_string()).collect(),
    }
}

#[test]
fn config_language_from_path() {
    let l = config_language("/g/tree-sitter-typescript", &Some("tsx".to_string()));
    assert_eq!(l, Some("tsx".to_string()));
    let l = config_language("/g/tree-sitter-typescript", &Some("grammars/typescript/".to_string()));
    assert_eq!(l, Some("typescript".to_string()));
}

#[test]
fn config_language_from_directory() {
    let l = config_language("/g/tree-sitter-javascript", &None);
    assert_eq!(l, Some("javascript".to_string()));
}

#[test]
fn config_language_strips_only_leading_prefix() {
    let l = config_language("/g/tree-sitter-tree-sitter-x", &None);
    assert_eq!(l, Some("tree-sitter-x".to_string()));
}

#[test]
fn config_language_missing() {
    assert_eq!(config_language("/g/javascript", &None), None);
    assert_eq!(config_language("/g/x", &Some("..".to_string())), None);
    assert_eq!(config_language("/", &None), None);
}

#[test]
fn detected_language_removes_every_prefix() {
    let l = detected_language("/g/tree-sitter-tree-sitter-x", &None);
    assert_eq!(l, Some("x".to_string()));
    let l = detected_language("/g/javascript", &None);
    assert_eq!(l, Some("javascript".to_string()));
    let l = detected_language("/g/tree-sitter-rust", &Some("sub/rusty".to_string()));
    assert_eq!(l, Some("rusty".to_string()));
}

#[test]
fn detected_language_agrees_with_loading() {
    for dir in ["/g/tree-sitter-rust", "/g/tree-sitter-c_sharp"] {
        assert_eq!(detected_language(dir, &None), config_language(dir, &None));
    }
}

#[test]
fn parser_path_with_and_without_path() {
    assert_eq!(
        parser_path("/g/tree-sitter-typescript", &Some("tsx".to_string()), "tsx"),
        "/g/tree-sitter-typescript/tsx/parser.so"
    );
    assert_eq!(parser_path("/g/tree-sitter-rust", &None, "rust"), "/g/tree-sitter-rust/rust.so");
}

#[test]
fn next_candidate_skips_other_languages() {
    let configs = vec![config(Some("typescript"), &["ts"]), config(Some("tsx"), &["tsx"])];
    match next_grammar_candidate("tsx", "/g/tree-sitter-typescript", &configs, 0) {
        ConfigStep::Candidate { index, parser } => {
            assert_eq!(index, 1);
            assert_eq!(parser, "/g/tree-sitter-typescript/tsx/parser.so");
        }
        _ => panic!("expected a candidate"),
    }
    match next_grammar_candidate("tsx", "/g/tree-sitter-typescript", &configs, 2) {
        ConfigStep::Exhausted => {}
        _ => panic!("expected exhaustion"),
    }
    match next_grammar_candidate("rust", "/g/tree-sitter-typescript", &configs, 0) {
        ConfigStep::Exhausted => {}
        _ => panic!("expected exhaustion"),
    }
}

#[test]
fn next_candidate_reports_unnamed_configuration() {
    let configs = vec![config(None, &["js"]), config(Some("js"), &[])];
    match next_grammar_candidate("js", "/g/javascript", &configs, 0) {
        ConfigStep::Unnamed { index } => assert_eq!(index, 0),
        _ => panic!("expected an unnamed configuration"),
    }
}

#[test]
fn next_candidate_from_directory_name() {
    let configs = vec![config(None, &["rs"])];
    match next_grammar_candidate("rust", "/g/tree-sitter-rust", &configs, 0) {
        ConfigStep::Candidate { index, parser } => {
            assert_eq!(index, 0);
            assert_eq!(parser, "/g/tree-sitter-rust/rust.so");
        }
        _ => panic!("expected a candidate"),
    }
}

#[test]
fn detect_first_configuration_wins() {
    let configs = vec![
        config(Some("typescript"), &["ts", "mts"]),
        config(Some("tsx"), &["tsx", "ts"]),
    ];
    match detect_in_package("ts", "/g/tree-sitter-typescript", &configs) {
        Detection::Found(name) => assert_eq!(name, "typescript"),
        _ => panic!("expected a language"),
    }
    match detect_in_package("tsx", "/g/tree-sitter-typescript", &configs) {
        Detection::Found(name) => assert_eq!(name, "tsx"),
        _ => panic!("expected a language"),
    }
    match detect_in_package("rs", "/g/tree-sitter-typescript", &configs) {
        Detection::NotFound => {}
        _ => panic!("expected no language"),
    }
}

#[test]
fn detect_unnamed() {
    let configs = vec![config(Some(".."), &["x"])];
    match detect_in_package("x", "/g/tree-sitter-x", &configs) {
        Detection::Unnamed => {}
        _ => panic!("expected an unnamed configuration"),
    }
}

#[test]
fn extension_of_files() {
    assert_eq!(file_extension("/src/main.rs").ok(), Some("rs".to_string()));
    assert_eq!(file_extension("archive.tar.gz").ok(), Some("gz".to_string()));
    assert!(matches!(file_extension(".bashrc"), Err(DetectError::NoExtension)));
    assert!(matches!(file_extension("Makefile"), Err(DetectError::NoExtension)));
}

#[test]
fn detect_error_messages() {
    assert_eq!(DetectError::NoExtension.message(), "Couldn't get extension");
    assert_eq!(
        DetectError::NoLanguage("xyz".to_string()).message(),
        "Could not find language for .xyz"
    );
    assert_eq!(not_found_message("cobol"), "Couldn't find language cobol");
}

#[test]
fn queries_concatenate_in_order() {
    let parts = vec!["(a) @x\n".to_string(), "".to_string(), "(b) @y\n".to_string()];
    assert_eq!(concat_all(&parts), "(a) @x\n(b) @y\n");
    let g = Grammar::new("p.so".to_string(), &parts, &vec![], &vec!["l".to_string()]);
    assert_eq!(g.parser, "p.so");
    assert_eq!(g.highlights, "(a) @x\n(b) @y\n");
    assert_eq!(g.injections, "");
    assert_eq!(g.locals, "l");
}

#[test]
fn query_files_are_relative_to_package() {
    let rels = vec!["queries/highlights.scm".to_string(), "/abs/q.scm".to_string()];
    assert_eq!(
        query_paths("/g/tree-sitter-c", &rels),
        vec!["/g/tree-sitter-c/queries/highlights.scm".to_string(), "/abs/q.scm".to_string()]
    );
}

#[test]
fn names_of_symbols_and_bundled_grammars() {
    assert_eq!(language_symbol_name("javascript"), "tree_sitter_javascript");
    assert_eq!(bundled_dir_name("html"), "tree-sitter-html-grammar");
    assert_eq!(bundled_parser_path("/nix/g", "html"), "/nix/g/tree-sitter-html-grammar/parser");
    assert_eq!(
        bundled_query_path("/nix/g", "html", "locals.scm"),
        "/nix/g/tree-sitter-html-grammar/queries/locals.scm"
    );
}

#[test]
fn join_rules() {
    assert_eq!(path_join("/a", "b"), "/a/b");
    assert_eq!(path_join("/a/", "b"), "/a/b");
    assert_eq!(path_join("", "b"), "b");
    assert_eq!(path_join("/a", "/b"), "/b");
    assert_eq!(path_join("a", ""), "a/");
    for (base, path) in [("/a", "b"), ("/a/", "b"), ("", "b"), ("/a", "/b"), ("a", ""), ("x/y", "z/w")] {
        let std_joined = std::path::Path::new(base).join(path);
        assert_eq!(path_join(base, path), std_joined.to_str().unwrap());
    }
    for p in ["a.rs", ".bashrc", "a.", "..x", "dir/a.b.c", "x/..", "noext", "/"] {
        let std_ext = std::path::Path::new(p).extension().map(|e| e.to_str().unwrap().to_string());
        assert_eq!(extension(p), std_ext);
    }
}

#[test]
fn file_name_matches_std() {
    let cases = [
        "/usr/bin/", "tmp/foo.txt", "foo.txt/.", "foo.txt/.//", "foo.txt/..", "/", "", ".", "..",
        "./a", "a//b", "a/./", "...", "a/../b", "tree-sitter-rust",
    ];
    for p in cases {
        let std_name = std::path::Path::new(p).file_name().map(|n| n.to_str().unwrap().to_string());
        assert_eq!(file_name(p), std_name, "{p}");
    }
}

#[test]
fn missing_parser_scans_on() {
    let configs = vec![
        config(Some("tsx"), &["tsx"]),
        config(Some("typescript"), &["ts"]),
        config(Some("tsx"), &["tsx"]),
    ];
    let dir = "/g/tree-sitter-typescript";
    let parser = "/g/tree-sitter-typescript/tsx/parser.so".to_string();
    match after_parser_check("tsx", dir, &configs, 0, parser.clone(), true) {
        ConfigStep::Load { index, parser: p } => {
            assert_eq!(index, 0);
            assert_eq!(p, parser);
        }
        _ => panic!("expected the grammar to load"),
    }
    match after_parser_check("tsx", dir, &configs, 0, parser.clone(), false) {
        ConfigStep::Candidate { index, parser: p } => {
            assert_eq!(index, 2);
            assert_eq!(p, parser);
        }
        _ => panic!("expected the next candidate"),
    }
    match after_parser_check("tsx", dir, &configs, 2, parser, false) {
        ConfigStep::Exhausted => {}
        _ => panic!("expected exhaustion"),
    }
}
