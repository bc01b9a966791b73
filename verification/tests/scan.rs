use funclens::{functions_in_file, scan, text_in, CountMode, ExtFilter, Function, SourceFile};

fn found(path: &str, ext: &str, source: &str, mode: CountMode) -> Vec<(String, usize)> {
    let fs: Vec<Function> = match functions_in_file(path, Some(ext), Some(source), mode) {
        Ok(v) => v,
        Err(e) => panic!("{} failed to build", e.label()),
    };
    for f in &fs {
        assert_eq!(f.path, path);
    }
    let mut v: Vec<(String, usize)> = fs.into_iter().map(|f| (f.name, f.lines)).collect();
    v.sort();
    v
}

fn pairs(v: &[(&str, usize)]) -> Vec<(String, usize)> {
    let mut v: Vec<(String, usize)> = v.iter().map(|(n, l)| (n.to_string(), *l)).collect();
    v.sort();
    v
}

const RUST: &str = "fn a() {}

fn b() {
    // c
    let x = 1;

}

impl S {
    fn m(&self) -> u32 {
        1
    }
}
";

#[test]
fn rust_functions_and_methods() {
    assert_eq!(found("x.rs", "rs", RUST, CountMode::Physical), pairs(&[("a", 1), ("b", 5), ("m", 3)]));
    assert_eq!(found("x.rs", "rs", RUST, CountMode::Logical), pairs(&[("a", 1), ("b", 3), ("m", 3)]));
}

#[test]
fn python_nested_defs_and_comments() {
    let src = "def f(x):\n    # comment\n    return x\n\nclass C:\n    def g(self):\n\n        pass\n";
    assert_eq!(found("x.py", "py", src, CountMode::Physical), pairs(&[("f", 3), ("g", 3)]));
    assert_eq!(found("x.py", "py", src, CountMode::Logical), pairs(&[("f", 2), ("g", 2)]));
}

#[test]
fn javascript_named_arrow_and_method() {
    let src = "function a() { return 1; }\nconst b = () => {\n  return 2;\n};\nclass K {\n  m() {}\n  f = () => 1;\n}\n[1].map(function () { return 3; });\n";
    assert_eq!(found("x.js", "js", src, CountMode::Physical), pairs(&[("a", 1), ("b", 3), ("m", 1), ("f", 1)]));
}

#[test]
fn typescript_and_tsx_field_arrows() {
    let src = "class K {\n  f = () => {\n    return 1;\n  };\n  m(): number { return 2; }\n}\n";
    assert_eq!(found("x.ts", "ts", src, CountMode::Physical), pairs(&[("f", 3), ("m", 1)]));
    assert_eq!(found("x.tsx", "tsx", src, CountMode::Physical), pairs(&[("f", 3), ("m", 1)]));
}

#[test]
fn elixir_definitions_only() {
    let src = "defmodule M do\n  def f(a) do\n    a\n  end\n  defp g do\n    1\n  end\n  if true do\n    :ok\n  end\nend\n";
    assert_eq!(found("x.ex", "ex", src, CountMode::Physical), pairs(&[("f", 3), ("g", 3)]));
}

#[test]
fn go_functions_and_methods() {
    let src = "package main\n\nfunc A() {\n}\n\nfunc (s S) B() int {\n\treturn 1\n}\n";
    assert_eq!(found("x.go", "go", src, CountMode::Physical), pairs(&[("A", 2), ("B", 3)]));
}

#[test]
fn c_plain_and_pointer_returning() {
    let src = "int main(void) {\n  return 0;\n}\nchar *p(void) { return 0; }\n";
    assert_eq!(found("x.c", "c", src, CountMode::Physical), pairs(&[("main", 3), ("p", 1)]));
}

#[test]
fn unsupported_missing_or_unreadable_files_yield_nothing() {
    let none = functions_in_file("x", None, Some(RUST), CountMode::Physical).ok().unwrap();
    assert!(none.is_empty());
    let txt = functions_in_file("x.txt", Some("txt"), Some(RUST), CountMode::Physical).ok().unwrap();
    assert!(txt.is_empty());
    let unreadable = functions_in_file("x.rs", Some("rs"), None, CountMode::Physical).ok().unwrap();
    assert!(unreadable.is_empty());
    let empty = functions_in_file("x.rs", Some("rs"), Some(""), CountMode::Physical).ok().unwrap();
    assert!(empty.is_empty());
}

fn file(path: &str, ext: Option<&str>, contents: Option<&str>) -> SourceFile {
    SourceFile {
        path: path.to_string(),
        extension: ext.map(|e| e.to_string()),
        contents: contents.map(|c| c.to_string()),
    }
}

#[test]
fn scan_honours_the_filter() {
    let files = vec![
        file("a.rs", Some("rs"), Some(RUST)),
        file("b.py", Some("py"), Some("def h():\n    pass\n")),
        file("notes.txt", Some("txt"), Some("fn z() {}")),
        file("Makefile", None, Some("fn z() {}")),
    ];
    let all = scan(&files, &ExtFilter::new(), CountMode::Physical).ok().unwrap();
    let mut names: Vec<(String, String)> = all.iter().map(|f| (f.path.clone(), f.name.clone())).collect();
    names.sort();
    assert_eq!(
        names,
        vec![
            ("a.rs".to_string(), "a".to_string()),
            ("a.rs".to_string(), "b".to_string()),
            ("a.rs".to_string(), "m".to_string()),
            ("b.py".to_string(), "h".to_string()),
        ]
    );
    let only_py = ExtFilter { included: vec!["py".to_string()], excluded: vec![] };
    let py = scan(&files, &only_py, CountMode::Physical).ok().unwrap();
    assert_eq!(py.len(), 1);
    assert_eq!(py[0].name, "h");
    let no_rs = ExtFilter { included: vec!["rs".to_string()], excluded: vec!["rs".to_string()] };
    assert!(scan(&files, &no_rs, CountMode::Physical).ok().unwrap().is_empty());
}

#[test]
fn text_in_takes_a_utf8_byte_range() {
    let src = "fn héllo() {}".as_bytes();
    assert_eq!(text_in(src, 3, 9), Some("héllo"));
    assert_eq!(text_in(src, 0, 0), Some(""));
    assert_eq!(text_in(src, 0, src.len()), Some("fn héllo() {}"));
    // Out of range, reversed, or cutting a character in two.
    assert_eq!(text_in(src, 3, src.len() + 1), None);
    assert_eq!(text_in(src, 9, 3), None);
    assert_eq!(text_in(src, 3, 5), None);
    assert_eq!(text_in(&[0xff, 0x41], 0, 2), None);
}

#[test]
fn scan_keeps_file_order_and_skips_unread_files() {
    let files = vec![
        file("b.py", Some("py"), Some("def h():\n    pass\n")),
        file("skip.rs", Some("rs"), None),
        file("a.rs", Some("rs"), Some("fn a() {}\n")),
    ];
    let all = scan(&files, &ExtFilter::new(), CountMode::Physical).ok().unwrap();
    let seen: Vec<(&str, &str)> = all.iter().map(|f| (f.path.as_str(), f.name.as_str())).collect();
    assert_eq!(seen, vec![("b.py", "h"), ("a.rs", "a")]);
}
