use funclens::{for_extension, language_for, supports_extension, LangId};

const TABLE: &[(&str, LangId)] = &[
    ("rs", LangId::Rust),
    ("py", LangId::Python),
    ("pyi", LangId::Python),
    ("js", LangId::JavaScript),
    ("jsx", LangId::JavaScript),
    ("mjs", LangId::JavaScript),
    ("cjs", LangId::JavaScript),
    ("ts", LangId::TypeScript),
    ("mts", LangId::TypeScript),
    ("cts", LangId::TypeScript),
    ("tsx", LangId::Tsx),
    ("go", LangId::Go),
    ("c", LangId::C),
    ("h", LangId::C),
    ("cc", LangId::Cpp),
    ("cpp", LangId::Cpp),
    ("cxx", LangId::Cpp),
    ("hpp", LangId::Cpp),
    ("hh", LangId::Cpp),
    ("hxx", LangId::Cpp),
    ("java", LangId::Java),
    ("rb", LangId::Ruby),
    ("cs", LangId::CSharp),
    ("sh", LangId::Bash),
    ("bash", LangId::Bash),
    ("php", LangId::Php),
    ("zig", LangId::Zig),
    ("lua", LangId::Lua),
    ("kt", LangId::Kotlin),
    ("kts", LangId::Kotlin),
    ("swift", LangId::Swift),
    ("scala", LangId::Scala),
    ("sc", LangId::Scala),
    ("ex", LangId::Elixir),
    ("exs", LangId::Elixir),
    ("ml", LangId::OCaml),
    ("hs", LangId::Haskell),
    ("dart", LangId::Dart),
    ("jl", LangId::Julia),
    ("r", LangId::R),
    ("R", LangId::R),
    ("pl", LangId::Perl),
    ("pm", LangId::Perl),
];

#[test]
fn every_listed_extension_selects_its_language() {
    for (ext, id) in TABLE {
        assert_eq!(language_for(ext), Some(*id), "extension {ext}");
        assert!(supports_extension(ext), "extension {ext}");
    }
}

#[test]
fn twenty_five_languages_are_supported() {
    let mut ids: Vec<LangId> = TABLE.iter().map(|(_, id)| *id).collect();
    ids.dedup();
    assert_eq!(ids.len(), 25);
}

#[test]
fn matching_is_case_sensitive() {
    assert_eq!(language_for("RS"), None);
    assert_eq!(language_for("Py"), None);
    assert!(!supports_extension("RS"));
    // Both spellings of R are listed.
    assert_eq!(language_for("R"), Some(LangId::R));
    assert_eq!(language_for("r"), Some(LangId::R));
}

#[test]
fn unknown_and_empty_extensions_are_unsupported() {
    for ext in ["", "txt", "md", ".rs", "rs ", "rss", "c++", "toml"] {
        assert_eq!(language_for(ext), None, "extension {ext:?}");
        assert!(!supports_extension(ext), "extension {ext:?}");
        assert!(for_extension(ext).is_none(), "extension {ext:?}");
    }
}

#[test]
fn every_language_builds() {
    for (ext, id) in TABLE {
        match for_extension(ext) {
            Some(Ok(lang)) => assert_eq!(lang.id, *id),
            Some(Err(e)) => panic!("{} failed to build", e.label()),
            None => panic!("{ext} unsupported"),
        }
    }
}

#[test]
fn capture_indices_point_at_func_and_name() {
    let lang = for_extension("rs").unwrap().unwrap();
    let names = lang.query.capture_names();
    assert_eq!(names[lang.func_capture as usize], "func");
    assert_eq!(names[lang.name_capture as usize], "name");
    let lang = for_extension("ex").unwrap().unwrap();
    let names = lang.query.capture_names();
    assert_eq!(names[lang.func_capture as usize], "func");
    assert_eq!(names[lang.name_capture as usize], "name");
}
