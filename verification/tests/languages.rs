use funclens::{functions_in_file, CountMode, Function};

fn found(ext: &str, source: &str) -> Vec<(String, usize)> {
    let path = format!("x.{ext}");
    let fs: Vec<Function> = match functions_in_file(&path, Some(ext), Some(source), CountMode::Physical) {
        Ok(v) => v,
        Err(e) => panic!("{} failed to build", e.label()),
    };
    let mut v: Vec<(String, usize)> = fs.into_iter().map(|f| (f.name, f.lines)).collect();
    v.sort();
    v
}

fn pairs(v: &[(&str, usize)]) -> Vec<(String, usize)> {
    let mut v: Vec<(String, usize)> = v.iter().map(|(n, l)| (n.to_string(), *l)).collect();
    v.sort();
    v
}

#[test]
fn haskell_reports_each_clause() {
    let src = "f 0 = 1\nf n = n * f (n - 1)\n\ng x =\n  x\n";
    assert_eq!(found("hs", src), pairs(&[("f", 1), ("f", 1), ("g", 2)]));
}

#[test]
fn ocaml_counts_only_lets_with_parameters() {
    let src = "let v = 1\n\nlet f x =\n  x + 1\n";
    assert_eq!(found("ml", src), pairs(&[("f", 2)]));
}

#[test]
fn swift_initializers_are_not_reported() {
    let src = "class K {\n  init() {\n  }\n  func m() {\n  }\n}\n";
    assert_eq!(found("swift", src), pairs(&[("m", 2)]));
}

#[test]
fn lua_skips_assigned_anonymous_functions() {
    let src = "function a()\nend\nlocal t = {}\nfunction t.b()\nend\nfunction t:c()\nend\nx = function() end\n";
    assert_eq!(found("lua", src), pairs(&[("a", 2), ("t.b", 2), ("t:c", 2)]));
}

#[test]
fn java_methods_and_constructors() {
    let src = "class K {\n  K() {}\n  int m() {\n    return 1;\n  }\n}\n";
    assert_eq!(found("java", src), pairs(&[("K", 1), ("m", 3)]));
}

#[test]
fn ruby_methods_and_singleton_methods() {
    let src = "def a\n  1\nend\ndef self.b; end\n";
    assert_eq!(found("rb", src), pairs(&[("a", 3), ("b", 1)]));
}

#[test]
fn csharp_methods_constructors_and_local_functions() {
    let src = "class K {\n  K() {}\n  void M() {\n    int L() { return 1; }\n  }\n}\n";
    assert_eq!(found("cs", src), pairs(&[("K", 1), ("L", 1), ("M", 3)]));
}

#[test]
fn bash_both_function_forms() {
    let src = "f() {\n  echo hi\n}\nfunction g {\n  echo\n}\n";
    assert_eq!(found("sh", src), pairs(&[("f", 3), ("g", 3)]));
}

#[test]
fn php_functions_and_methods() {
    let src = "<?php\nfunction f() {\n  return 1;\n}\nclass K {\n  public function m() {}\n}\n";
    assert_eq!(found("php", src), pairs(&[("f", 3), ("m", 1)]));
}

#[test]
fn zig_functions() {
    let src = "fn a() void {}\npub fn b() void {\n}\n";
    assert_eq!(found("zig", src), pairs(&[("a", 1), ("b", 2)]));
}

#[test]
fn kotlin_functions() {
    let src = "fun a() = 1\nfun b() {\n}\n";
    assert_eq!(found("kt", src), pairs(&[("a", 1), ("b", 2)]));
}

#[test]
fn scala_definitions() {
    let src = "object O {\n  def a(): Int = 1\n  def b(): Unit = {\n  }\n}\n";
    assert_eq!(found("scala", src), pairs(&[("a", 1), ("b", 2)]));
}

#[test]
fn dart_functions_and_methods() {
    let src = "int a() => 1;\nclass K {\n  void m() {\n  }\n}\n";
    assert_eq!(found("dart", src), pairs(&[("a", 1), ("m", 2)]));
}

#[test]
fn julia_long_and_assignment_forms() {
    let src = "function f(x)\n  x\nend\ng(x) = x + h(x)\n";
    assert_eq!(found("jl", src), pairs(&[("f", 3), ("g", 1)]));
}

#[test]
fn r_functions_bound_to_names() {
    let src = "f <- function(x) {\n  x\n}\ng = function() 1\n";
    assert_eq!(found("R", src), pairs(&[("f", 3), ("g", 1)]));
}

#[test]
fn perl_subroutines() {
    let src = "sub f {\n  return 1;\n}";
    assert_eq!(found("pl", src), pairs(&[("f", 3)]));
}

#[test]
fn cpp_qualified_destructor_reference_and_operator() {
    let src = "int K::m() {\n  return 1;\n}\nK::~K() {}\nint& r() { static int x; return x; }\nbool operator==(A a, B b) { return true; }\n";
    assert_eq!(
        found("cpp", src),
        pairs(&[("K::m", 3), ("K::~K", 1), ("r", 1), ("operator==", 1)])
    );
}

#[test]
fn anonymous_javascript_functions_are_skipped() {
    let src = "[1].map(function () { return 3; });\n(() => 1)();\n";
    assert_eq!(found("js", src), pairs(&[]));
}
