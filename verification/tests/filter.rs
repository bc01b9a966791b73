use funclens::{eligible, ExtFilter};

fn strings(v: &[&str]) -> Vec<String> {
    v.iter().map(|s| s.to_string()).collect()
}

#[test]
fn empty_filter_accepts_everything() {
    let f = ExtFilter::new();
    for ext in ["rs", "py", "txt", ""] {
        assert!(f.accepts(ext));
    }
}

#[test]
fn inclusion_list_restricts() {
    let f = ExtFilter { included: strings(&["rs", "py"]), excluded: vec![] };
    assert!(f.accepts("rs"));
    assert!(f.accepts("py"));
    assert!(!f.accepts("go"));
    assert!(!f.accepts("RS"));
}

#[test]
fn exclusion_takes_precedence() {
    let f = ExtFilter { included: strings(&["rs", "py"]), excluded: strings(&["rs"]) };
    assert!(!f.accepts("rs"));
    assert!(f.accepts("py"));
    let f = ExtFilter { included: vec![], excluded: strings(&["go"]) };
    assert!(!f.accepts("go"));
    assert!(f.accepts("c"));
}

#[test]
fn eligible_needs_extension_filter_and_language() {
    let all = ExtFilter::new();
    assert!(eligible(Some("rs"), &all));
    assert!(!eligible(Some("txt"), &all));
    assert!(!eligible(None, &all));
    let no_rust = ExtFilter { included: vec![], excluded: strings(&["rs"]) };
    assert!(!eligible(Some("rs"), &no_rust));
    assert!(eligible(Some("go"), &no_rust));
    let only_txt = ExtFilter { included: strings(&["txt"]), excluded: vec![] };
    assert!(!eligible(Some("txt"), &only_txt));
    assert!(!eligible(Some("rs"), &only_txt));
}

#[test]
fn default_filter_is_empty() {
    let f = ExtFilter::default();
    assert!(f.included.is_empty());
    assert!(f.excluded.is_empty());
    assert!(f.accepts("zig"));
}
