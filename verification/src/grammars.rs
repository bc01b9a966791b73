//! The tree-sitter grammars, one unverified wrapper per grammar. Each turns the
//! crate's `LanguageFn` into a `tree_sitter::Language`. The grammars are
//! opaque to the library; of the TypeScript and TSX grammars, which share one
//! crate and one query, the node types that tell them apart are stated.

use vstd::prelude::*;
use crate::sitter::compiles;

verus! {

/// `tree_sitter_rust::LANGUAGE` as a `tree_sitter::Language`: the Rust grammar.
#[verifier::external_body]
pub(crate) fn rust_grammar() -> tree_sitter::Language {
    tree_sitter_rust::LANGUAGE.into()
}

/// `tree_sitter_python::LANGUAGE` as a `tree_sitter::Language`: the Python grammar.
#[verifier::external_body]
pub(crate) fn python_grammar() -> tree_sitter::Language {
    tree_sitter_python::LANGUAGE.into()
}

/// `tree_sitter_javascript::LANGUAGE` as a `tree_sitter::Language`: the JavaScript grammar.
#[verifier::external_body]
pub(crate) fn javascript_grammar() -> tree_sitter::Language {
    tree_sitter_javascript::LANGUAGE.into()
}

/// `tree_sitter_typescript::LANGUAGE_TYPESCRIPT` as a `tree_sitter::Language`: the TypeScript grammar.
#[verifier::external_body]
///
/// It has the node type `type_assertion` (`<Type>expr`) and no `jsx_element`
/// (see the crate's `typescript/src/node-types.json`), so a query naming the
/// first compiles against it and one naming the second does not.
pub(crate) fn typescript_grammar() -> (r: tree_sitter::Language)
    ensures
        compiles(r, "(type_assertion) @node"@),
        !compiles(r, "(jsx_element) @node"@),
{
    tree_sitter_typescript::LANGUAGE_TYPESCRIPT.into()
}

/// `tree_sitter_typescript::LANGUAGE_TSX` as a `tree_sitter::Language`: the TSX grammar.
#[verifier::external_body]
///
/// It has the node type `jsx_element` and no `type_assertion` (see the
/// crate's `tsx/src/node-types.json`), so a query naming the first compiles
/// against it and one naming the second does not.
pub(crate) fn tsx_grammar() -> (r: tree_sitter::Language)
    ensures
        compiles(r, "(jsx_element) @node"@),
        !compiles(r, "(type_assertion) @node"@),
{
    tree_sitter_typescript::LANGUAGE_TSX.into()
}

/// `tree_sitter_go::LANGUAGE` as a `tree_sitter::Language`: the Go grammar.
#[verifier::external_body]
pub(crate) fn go_grammar() -> tree_sitter::Language {
    tree_sitter_go::LANGUAGE.into()
}

/// `tree_sitter_c::LANGUAGE` as a `tree_sitter::Language`: the C grammar.
#[verifier::external_body]
pub(crate) fn c_grammar() -> tree_sitter::Language {
    tree_sitter_c::LANGUAGE.into()
}

/// `tree_sitter_cpp::LANGUAGE` as a `tree_sitter::Language`: the C++ grammar.
#[verifier::external_body]
pub(crate) fn cpp_grammar() -> tree_sitter::Language {
    tree_sitter_cpp::LANGUAGE.into()
}

/// `tree_sitter_java::LANGUAGE` as a `tree_sitter::Language`: the Java grammar.
#[verifier::external_body]
pub(crate) fn java_grammar() -> tree_sitter::Language {
    tree_sitter_java::LANGUAGE.into()
}

/// `tree_sitter_ruby::LANGUAGE` as a `tree_sitter::Language`: the Ruby grammar.
#[verifier::external_body]
pub(crate) fn ruby_grammar() -> tree_sitter::Language {
    tree_sitter_ruby::LANGUAGE.into()
}

/// `tree_sitter_c_sharp::LANGUAGE` as a `tree_sitter::Language`: the C# grammar.
#[verifier::external_body]
pub(crate) fn csharp_grammar() -> tree_sitter::Language {
    tree_sitter_c_sharp::LANGUAGE.into()
}

/// `tree_sitter_bash::LANGUAGE` as a `tree_sitter::Language`: the Bash grammar.
#[verifier::external_body]
pub(crate) fn bash_grammar() -> tree_sitter::Language {
    tree_sitter_bash::LANGUAGE.into()
}

/// `tree_sitter_php::LANGUAGE_PHP` as a `tree_sitter::Language`: the PHP grammar.
#[verifier::external_body]
pub(crate) fn php_grammar() -> tree_sitter::Language {
    tree_sitter_php::LANGUAGE_PHP.into()
}

/// `tree_sitter_zig::LANGUAGE` as a `tree_sitter::Language`: the Zig grammar.
#[verifier::external_body]
pub(crate) fn zig_grammar() -> tree_sitter::Language {
    tree_sitter_zig::LANGUAGE.into()
}

/// `tree_sitter_lua::LANGUAGE` as a `tree_sitter::Language`: the Lua grammar.
#[verifier::external_body]
pub(crate) fn lua_grammar() -> tree_sitter::Language {
    tree_sitter_lua::LANGUAGE.into()
}

/// `tree_sitter_kotlin_ng::LANGUAGE` as a `tree_sitter::Language`: the Kotlin grammar.
#[verifier::external_body]
pub(crate) fn kotlin_grammar() -> tree_sitter::Language {
    tree_sitter_kotlin_ng::LANGUAGE.into()
}

/// `tree_sitter_swift::LANGUAGE` as a `tree_sitter::Language`: the Swift grammar.
#[verifier::external_body]
pub(crate) fn swift_grammar() -> tree_sitter::Language {
    tree_sitter_swift::LANGUAGE.into()
}

/// `tree_sitter_scala::LANGUAGE` as a `tree_sitter::Language`: the Scala grammar.
#[verifier::external_body]
pub(crate) fn scala_grammar() -> tree_sitter::Language {
    tree_sitter_scala::LANGUAGE.into()
}

/// `tree_sitter_elixir::LANGUAGE` as a `tree_sitter::Language`: the Elixir grammar.
#[verifier::external_body]
pub(crate) fn elixir_grammar() -> tree_sitter::Language {
    tree_sitter_elixir::LANGUAGE.into()
}

/// `tree_sitter_ocaml::LANGUAGE_OCAML` as a `tree_sitter::Language`: the OCaml grammar.
#[verifier::external_body]
pub(crate) fn ocaml_grammar() -> tree_sitter::Language {
    tree_sitter_ocaml::LANGUAGE_OCAML.into()
}

/// `tree_sitter_haskell::LANGUAGE` as a `tree_sitter::Language`: the Haskell grammar.
#[verifier::external_body]
pub(crate) fn haskell_grammar() -> tree_sitter::Language {
    tree_sitter_haskell::LANGUAGE.into()
}

/// `tree_sitter_dart::LANGUAGE` as a `tree_sitter::Language`: the Dart grammar.
#[verifier::external_body]
pub(crate) fn dart_grammar() -> tree_sitter::Language {
    tree_sitter_dart::LANGUAGE.into()
}

/// `tree_sitter_julia::LANGUAGE` as a `tree_sitter::Language`: the Julia grammar.
#[verifier::external_body]
pub(crate) fn julia_grammar() -> tree_sitter::Language {
    tree_sitter_julia::LANGUAGE.into()
}

/// `tree_sitter_r::LANGUAGE` as a `tree_sitter::Language`: the R grammar.
#[verifier::external_body]
pub(crate) fn r_grammar() -> tree_sitter::Language {
    tree_sitter_r::LANGUAGE.into()
}

/// `tree_sitter_perl::LANGUAGE` as a `tree_sitter::Language`: the Perl grammar.
#[verifier::external_body]
pub(crate) fn perl_grammar() -> tree_sitter::Language {
    tree_sitter_perl::LANGUAGE.into()
}

} // verus!
