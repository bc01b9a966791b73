use funclens::language::{JS_BASE_QUERY, JS_FIELD_PATTERN, PYTHON_QUERY, RUST_QUERY, TS_FIELD_PATTERN};
use funclens::{Lang, LangError, LangId};

fn rust() -> tree_sitter::Language {
    tree_sitter_rust::LANGUAGE.into()
}

#[test]
fn a_query_with_both_captures_builds() {
    let lang = Lang::new(LangId::Rust, rust(), "(function_item name: (identifier) @name) @func");
    assert_eq!(lang.id, LangId::Rust);
    assert_eq!(lang.query_text, "(function_item name: (identifier) @name) @func");
    assert_eq!(lang.func_capture, 1);
    assert_eq!(lang.name_capture, 0);
}

#[test]
fn a_query_that_does_not_compile_is_invalid() {
    match Lang::try_new(LangId::Go, rust(), "(no_such_node) @func") {
        Err(LangError::InvalidQuery { label, .. }) => assert_eq!(label, "go"),
        Err(e) => panic!("unexpected error for {}", e.label()),
        Ok(_) => panic!("query compiled"),
    }
}

#[test]
fn a_missing_func_capture_is_reported_first() {
    match Lang::try_new(LangId::Rust, rust(), "(identifier) @other") {
        Err(LangError::MissingCapture { label, capture }) => {
            assert_eq!(label, "rust");
            assert_eq!(capture, "func");
        }
        _ => panic!("expected a missing capture"),
    }
}

#[test]
fn a_missing_name_capture_is_reported() {
    match Lang::try_new(LangId::Python, rust(), "(function_item) @func") {
        Err(LangError::MissingCapture { label, capture }) => {
            assert_eq!(label, "python");
            assert_eq!(capture, "name");
        }
        _ => panic!("expected a missing capture"),
    }
}

#[test]
fn the_first_capture_of_a_repeated_name_is_used() {
    let text = "(function_item name: (identifier) @name) @func (struct_item name: (type_identifier) @name) @func";
    let query = tree_sitter::Query::new(&rust(), text).unwrap();
    let lang = Lang::from_query(LangId::Rust, rust(), query, text);
    assert_eq!(lang.query_text, text);
    assert_eq!(lang.name_capture, 0);
    assert_eq!(lang.func_capture, 1);
}

#[test]
fn each_language_is_built_from_its_own_query() {
    assert_eq!(LangId::Rust.build().ok().unwrap().query_text, RUST_QUERY);
    assert_eq!(LangId::Python.build().ok().unwrap().query_text, PYTHON_QUERY);
    assert_eq!(LangId::JavaScript.build().ok().unwrap().query_text, format!("{JS_BASE_QUERY}\n{JS_FIELD_PATTERN}"));
    assert_eq!(LangId::Tsx.build().ok().unwrap().query_text, format!("{JS_BASE_QUERY}\n{TS_FIELD_PATTERN}"));
}

#[test]
fn try_new_reports_each_fault() {
    // The original's three failing examples: no @name, no @func, invalid.
    match Lang::try_new(LangId::Rust, rust(), "(function_item) @func") {
        Err(LangError::MissingCapture { capture, .. }) => assert_eq!(capture, "name"),
        _ => panic!("expected a missing @name"),
    }
    match Lang::try_new(LangId::Rust, rust(), "(function_item name: (identifier) @name)") {
        Err(LangError::MissingCapture { capture, .. }) => assert_eq!(capture, "func"),
        _ => panic!("expected a missing @func"),
    }
    assert!(matches!(
        Lang::try_new(LangId::Rust, rust(), "(function_item"),
        Err(LangError::InvalidQuery { .. })
    ));
    let ok = Lang::try_new(LangId::Rust, rust(), "(function_item name: (identifier) @name) @func");
    assert!(ok.is_ok());
}
