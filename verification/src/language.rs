//! Languages as the scan uses them: a grammar, the compiled query that locates
//! function definitions, and the indices of the query's two captures.

use vstd::prelude::*;
use vstd::string::StringExecFns;
use crate::grammars::{rust_grammar,python_grammar,javascript_grammar,typescript_grammar,tsx_grammar,go_grammar,c_grammar,cpp_grammar,java_grammar,ruby_grammar,csharp_grammar,bash_grammar,php_grammar,zig_grammar,lua_grammar,kotlin_grammar,swift_grammar,scala_grammar,elixir_grammar,ocaml_grammar,haskell_grammar,dart_grammar,julia_grammar,r_grammar,perl_grammar};
use crate::registry::{lang_of, specs, registry, LangId, LangSpec};
use crate::sitter::{capture_index_for_name, capture_names, compile_query, compiled_captures, compiles, origin_of};

verus! {

/// `names[i]` is the first occurrence of `name` in `names`.
pub open spec fn first_at(names: Seq<Seq<char>>, name: Seq<char>, i: int) -> bool {
    &&& 0 <= i < names.len()
    &&& names[i] == name
    &&& forall|j: int| 0 <= j < i ==> names[j] != name
}

/// `name` does not occur in `names`.
pub open spec fn absent(names: Seq<Seq<char>>, name: Seq<char>) -> bool {
    forall|j: int| 0 <= j < names.len() ==> names[j] != name
}

/// The query text `text` builds a language with grammar `g`: it compiles
/// against `g`, and the query has both a `func` and a `name` capture.
pub open spec fn builds(g: tree_sitter::Language, text: Seq<char>) -> bool {
    &&& compiles(g, text)
    &&& !absent(compiled_captures(g, text), "func"@)
    &&& !absent(compiled_captures(g, text), "name"@)
}

/// What is known of the grammar of language `id`: TypeScript's has
/// `<Type>expr` type assertions and no JSX elements, TSX's the reverse (the
/// two share one query, so only their grammars tell them apart).
pub open spec fn grammar_fits(id: LangId, g: tree_sitter::Language) -> bool {
    match id {
        LangId::TypeScript => compiles(g, "(type_assertion) @node"@) && !compiles(g, "(jsx_element) @node"@),
        LangId::Tsx => compiles(g, "(jsx_element) @node"@) && !compiles(g, "(type_assertion) @node"@),
        _ => true,
    }
}

/// `r` is the outcome of building language `id` from its grammar and its
/// query text: on success a language with that id, text and grammar and with
/// its captures located; on failure an error about `id`, which comes only
/// when the text does not build with a grammar.
pub open spec fn built(r: Result<Lang, LangError>, id: LangId) -> bool {
    match r {
        Ok(l) => l.id == id && l.wf() && l.query_text@ == query_text_of(id) && builds(
            l.language,
            query_text_of(id),
        ) && grammar_fits(id, l.language),
        Err(e) => e.error_label()@ == label_of(id) && exists|g: tree_sitter::Language|
            #![trigger builds(g, query_text_of(id))]
            !builds(g, query_text_of(id)),
    }
}

/// The name a language is reported under in errors.
pub open spec fn label_of(id: LangId) -> Seq<char> {
    match id {
        LangId::Rust => "rust"@,
        LangId::Python => "python"@,
        LangId::JavaScript => "javascript"@,
        LangId::TypeScript => "typescript"@,
        LangId::Tsx => "tsx"@,
        LangId::Go => "go"@,
        LangId::C => "c"@,
        LangId::Cpp => "cpp"@,
        LangId::Java => "java"@,
        LangId::Ruby => "ruby"@,
        LangId::CSharp => "csharp"@,
        LangId::Bash => "bash"@,
        LangId::Php => "php"@,
        LangId::Zig => "zig"@,
        LangId::Lua => "lua"@,
        LangId::Kotlin => "kotlin"@,
        LangId::Swift => "swift"@,
        LangId::Scala => "scala"@,
        LangId::Elixir => "elixir"@,
        LangId::OCaml => "ocaml"@,
        LangId::Haskell => "haskell"@,
        LangId::Dart => "dart"@,
        LangId::Julia => "julia"@,
        LangId::R => "r"@,
        LangId::Perl => "perl"@,
    }
}

impl LangId {
    /// The name this language is reported under in errors.
    pub fn label(self) -> (r: &'static str)
        ensures
            r@ == label_of(self),
    {
        match self {
            LangId::Rust => "rust",
            LangId::Python => "python",
            LangId::JavaScript => "javascript",
            LangId::TypeScript => "typescript",
            LangId::Tsx => "tsx",
            LangId::Go => "go",
            LangId::C => "c",
            LangId::Cpp => "cpp",
            LangId::Java => "java",
            LangId::Ruby => "ruby",
            LangId::CSharp => "csharp",
            LangId::Bash => "bash",
            LangId::Php => "php",
            LangId::Zig => "zig",
            LangId::Lua => "lua",
            LangId::Kotlin => "kotlin",
            LangId::Swift => "swift",
            LangId::Scala => "scala",
            LangId::Elixir => "elixir",
            LangId::OCaml => "ocaml",
            LangId::Haskell => "haskell",
            LangId::Dart => "dart",
            LangId::Julia => "julia",
            LangId::R => "r",
            LangId::Perl => "perl",
        }
    }

    /// Builds the language: its grammar, and its query compiled against it.
    pub fn build(self) -> (r: Result<Lang, LangError>)
        ensures
            built(r, self),
    {
        match self {
            LangId::Rust => rust_lang(),
            LangId::Python => python_lang(),
            LangId::JavaScript => javascript_lang(),
            LangId::TypeScript => typescript_lang(),
            LangId::Tsx => tsx_lang(),
            LangId::Go => go_lang(),
            LangId::C => c_lang(),
            LangId::Cpp => cpp_lang(),
            LangId::Java => java_lang(),
            LangId::Ruby => ruby_lang(),
            LangId::CSharp => csharp_lang(),
            LangId::Bash => bash_lang(),
            LangId::Php => php_lang(),
            LangId::Zig => zig_lang(),
            LangId::Lua => lua_lang(),
            LangId::Kotlin => kotlin_lang(),
            LangId::Swift => swift_lang(),
            LangId::Scala => scala_lang(),
            LangId::Elixir => elixir_lang(),
            LangId::OCaml => ocaml_lang(),
            LangId::Haskell => haskell_lang(),
            LangId::Dart => dart_lang(),
            LangId::Julia => julia_lang(),
            LangId::R => r_lang(),
            LangId::Perl => perl_lang(),
        }
    }
}

/// Why a language could not be built. Each is a fault in the registry's own
/// queries, never in the files being scanned.
#[derive(Debug)]
pub enum LangError {
    /// The query does not compile against the grammar.
    InvalidQuery { label: &'static str, error: tree_sitter::QueryError },
    /// The query lacks one of the two captures `@func` and `@name`.
    MissingCapture { label: &'static str, capture: &'static str },
}

impl LangError {
    /// The language the error is about.
    pub open spec fn error_label(&self) -> &'static str {
        match self {
            LangError::InvalidQuery { label, .. } => *label,
            LangError::MissingCapture { label, .. } => *label,
        }
    }

    /// The language the error is about.
    pub fn label(&self) -> (r: &'static str)
        ensures
            r == self.error_label(),
    {
        match self {
            LangError::InvalidQuery { label, .. } => label,
            LangError::MissingCapture { label, .. } => label,
        }
    }
}

/// A supported language: its grammar, the query that locates function
/// definitions, and the indices of the query's two captures, `@func` (the whole
/// definition, whose row span gives the line count) and `@name` (the identifier
/// reported to the user).
pub struct Lang {
    pub id: LangId,
    pub language: tree_sitter::Language,
    /// The text `query` was compiled from.
    pub query_text: String,
    pub query: tree_sitter::Query,
    /// Index of the `@func` capture within `query`.
    pub func_capture: u32,
    /// Index of the `@name` capture within `query`.
    pub name_capture: u32,
}

impl Lang {
    /// The query was compiled from `query_text` against `language`, and the
    /// two capture indices are where the query's captures `func` and `name`
    /// first occur.
    pub open spec fn wf(&self) -> bool {
        &&& origin_of(self.query) == (self.language, self.query_text@)
        &&& first_at(capture_names(self.query), "func"@, self.func_capture as int)
        &&& first_at(capture_names(self.query), "name"@, self.name_capture as int)
    }

    /// Compiles `query_source` against `language` and locates its `@func` and
    /// `@name` captures. The text must build with the grammar (compile, and
    /// have both captures): anything else is a fault in the registry, not a
    /// runtime condition; `try_new` is the form that reports it.
    pub fn new(id: LangId, language: tree_sitter::Language, query_source: &str) -> (l: Lang)
        requires
            builds(language, query_source@),
        ensures
            l.id == id,
            l.wf(),
            l.language == language,
            l.query_text@ == query_source@,
    {
        // `builds` says the text compiles, so the compiled query is there.
        let query = compile_query(&language, query_source).unwrap();
        Lang::from_query(id, language, query, query_source)
    }

    /// Builds the language from `query`, compiled from `query_text` against
    /// `language`, locating its `@func` and `@name` captures, which it must
    /// have.
    pub fn from_query(
        id: LangId,
        language: tree_sitter::Language,
        query: tree_sitter::Query,
        query_text: &str,
    ) -> (l: Lang)
        requires
            origin_of(query) == (language, query_text@),
            !absent(capture_names(query), "func"@),
            !absent(capture_names(query), "name"@),
        ensures
            l.id == id,
            l.wf(),
            l.language == language,
            l.query == query,
            l.query_text@ == query_text@,
    {
        let func_capture = capture_index(&query, "func");
        let name_capture = capture_index(&query, "name");
        Lang {
            id,
            language,
            query_text: String::from_str(query_text),
            query,
            func_capture,
            name_capture,
        }
    }

    /// Compiles `query_source` against `language` and locates its `@func` and
    /// `@name` captures, reporting what fails: `InvalidQuery` when the text
    /// does not compile, and otherwise `MissingCapture` for `func` when the
    /// query lacks it, else for `name`. Succeeds exactly when the text builds
    /// with the grammar.
    pub fn try_new(id: LangId, language: tree_sitter::Language, query_source: &str) -> (r: Result<
        Lang,
        LangError,
    >)
        ensures
            r is Ok <==> builds(language, query_source@),
            r matches Ok(l) ==> l.id == id && l.wf() && l.language == language && l.query_text@
                == query_source@,
            r matches Err(e) ==> e.error_label()@ == label_of(id),
            (r matches Err(LangError::InvalidQuery { .. })) <==> !compiles(language, query_source@),
            r matches Err(LangError::MissingCapture { capture, .. }) ==> capture@ == (if absent(
                compiled_captures(language, query_source@),
                "func"@,
            ) {
                "func"@
            } else {
                "name"@
            }),
    {
        let query = match compile_query(&language, query_source) {
            Ok(q) => q,
            Err(error) => {
                return Err(LangError::InvalidQuery { label: id.label(), error });
            },
        };
        if capture_index_for_name(&query, "func").is_none() {
            return Err(LangError::MissingCapture { label: id.label(), capture: "func" });
        }
        if capture_index_for_name(&query, "name").is_none() {
            return Err(LangError::MissingCapture { label: id.label(), capture: "name" });
        }
        Ok(Lang::from_query(id, language, query, query_source))
    }
}

/// The index of the first capture named `name` in `query`, which must have
/// one.
pub fn capture_index(query: &tree_sitter::Query, name: &str) -> (i: u32)
    requires
        !absent(capture_names(*query), name@),
    ensures
        first_at(capture_names(*query), name@, i as int),
{
    capture_index_for_name(query, name).unwrap()
}

impl LangSpec {
    /// Builds this entry's language.
    pub fn lang(&self) -> (r: Result<Lang, LangError>)
        ensures
            built(r, self.id),
    {
        self.id.build()
    }
}

/// Return the language for a file extension, or `None` if unsupported.
///
/// `extension` is the part after the final dot, without the dot, and is
/// matched case-sensitively against the registry. Only the selected language
/// is built; building fails only on a fault in the registry's own query.
pub fn for_extension(extension: &str) -> (r: Option<Result<Lang, LangError>>)
    ensures
        r is None <==> lang_of(extension@) is None,
        r matches Some(x) ==> (lang_of(extension@) matches Some(id) && built(x, id)),
{
    let table = specs();
    let mut i: usize = 0;
    assert(registry().subrange(0, registry().len() as int) =~= registry());
    while i < table.len()
        invariant
            table@.len() == registry().len(),
            forall|k: int| 0 <= k < table@.len() ==> #[trigger] table@[k].entry() == registry()[k],
            i <= table@.len(),
            lang_of(extension@) == crate::registry::first_listing(
                registry().subrange(i as int, registry().len() as int),
                extension@,
            ),
        decreases table@.len() - i,
    {
        let ghost rest = registry().subrange(i as int, registry().len() as int);
        assert(table@[i as int].entry() == registry()[i as int]);
        if table[i].matches(extension) {
            return Some(table[i].lang());
        }
        assert(rest.drop_first() =~= registry().subrange(i + 1, registry().len() as int));
        i += 1;
    }
    None
}

/// The TypeScript and TSX languages are built with different grammars:
/// TypeScript's reads `<Type>expr` as a type assertion, TSX's reads `<Tag>`
/// as a JSX element.
pub proof fn law_typescript_and_tsx_grammars_differ(ts: Lang, tsx: Lang)
    requires
        built(Ok(ts), LangId::TypeScript),
        built(Ok(tsx), LangId::Tsx),
    ensures
        ts.language != tsx.language,
        compiles(ts.language, "(type_assertion) @node"@),
        !compiles(ts.language, "(jsx_element) @node"@),
        compiles(tsx.language, "(jsx_element) @node"@),
        !compiles(tsx.language, "(type_assertion) @node"@),
{
}

/// Builds language `id` from `language` and its query text.
fn build_with(id: LangId, language: tree_sitter::Language, text: &str) -> (r: Result<Lang, LangError>)
    requires
        text@ == query_text_of(id),
        grammar_fits(id, language),
    ensures
        built(r, id),
{
    let ghost g = language;
    let r = Lang::try_new(id, language, text);
    proof {
        if r is Err {
            assert(!builds(g, query_text_of(id)));
        }
    }
    r
}

/// `a`, `b` and `c` joined.
fn join3(a: &str, b: &str, c: &str) -> (r: String)
    ensures
        r@ == a@ + b@ + c@,
{
    String::from_str(a).concat(b).concat(c)
}

fn rust_lang() -> (r: Result<Lang, LangError>)
    ensures
        built(r, LangId::Rust),
{
    build_with(LangId::Rust, rust_grammar(), RUST_QUERY)
}

fn python_lang() -> (r: Result<Lang, LangError>)
    ensures
        built(r, LangId::Python),
{
    build_with(LangId::Python, python_grammar(), PYTHON_QUERY)
}

fn javascript_lang() -> (r: Result<Lang, LangError>)
    ensures
        built(r, LangId::JavaScript),
{
    let query = join3(JS_BASE_QUERY, "\n", JS_FIELD_PATTERN);
    build_with(LangId::JavaScript, javascript_grammar(), query.as_str())
}

fn typescript_lang() -> (r: Result<Lang, LangError>)
    ensures
        built(r, LangId::TypeScript),
{
    let query = join3(JS_BASE_QUERY, "\n", TS_FIELD_PATTERN);
    build_with(LangId::TypeScript, typescript_grammar(), query.as_str())
}

fn tsx_lang() -> (r: Result<Lang, LangError>)
    ensures
        built(r, LangId::Tsx),
{
    let query = join3(JS_BASE_QUERY, "\n", TS_FIELD_PATTERN);
    build_with(LangId::Tsx, tsx_grammar(), query.as_str())
}

fn go_lang() -> (r: Result<Lang, LangError>)
    ensures
        built(r, LangId::Go),
{
    build_with(LangId::Go, go_grammar(), GO_QUERY)
}

fn c_lang() -> (r: Result<Lang, LangError>)
    ensures
        built(r, LangId::C),
{
    build_with(LangId::C, c_grammar(), C_QUERY)
}

fn cpp_lang() -> (r: Result<Lang, LangError>)
    ensures
        built(r, LangId::Cpp),
{
    build_with(LangId::Cpp, cpp_grammar(), CPP_QUERY)
}

fn java_lang() -> (r: Result<Lang, LangError>)
    ensures
        built(r, LangId::Java),
{
    build_with(LangId::Java, java_grammar(), JAVA_QUERY)
}

fn ruby_lang() -> (r: Result<Lang, LangError>)
    ensures
        built(r, LangId::Ruby),
{
    build_with(LangId::Ruby, ruby_grammar(), RUBY_QUERY)
}

fn csharp_lang() -> (r: Result<Lang, LangError>)
    ensures
        built(r, LangId::CSharp),
{
    build_with(LangId::CSharp, csharp_grammar(), CSHARP_QUERY)
}

fn bash_lang() -> (r: Result<Lang, LangError>)
    ensures
        built(r, LangId::Bash),
{
    build_with(LangId::Bash, bash_grammar(), BASH_QUERY)
}

fn php_lang() -> (r: Result<Lang, LangError>)
    ensures
        built(r, LangId::Php),
{
    build_with(LangId::Php, php_grammar(), PHP_QUERY)
}

fn zig_lang() -> (r: Result<Lang, LangError>)
    ensures
        built(r, LangId::Zig),
{
    build_with(LangId::Zig, zig_grammar(), ZIG_QUERY)
}

fn lua_lang() -> (r: Result<Lang, LangError>)
    ensures
        built(r, LangId::Lua),
{
    build_with(LangId::Lua, lua_grammar(), LUA_QUERY)
}

fn kotlin_lang() -> (r: Result<Lang, LangError>)
    ensures
        built(r, LangId::Kotlin),
{
    build_with(LangId::Kotlin, kotlin_grammar(), KOTLIN_QUERY)
}

fn swift_lang() -> (r: Result<Lang, LangError>)
    ensures
        built(r, LangId::Swift),
{
    build_with(LangId::Swift, swift_grammar(), SWIFT_QUERY)
}

fn scala_lang() -> (r: Result<Lang, LangError>)
    ensures
        built(r, LangId::Scala),
{
    build_with(LangId::Scala, scala_grammar(), SCALA_QUERY)
}

fn elixir_lang() -> (r: Result<Lang, LangError>)
    ensures
        built(r, LangId::Elixir),
{
    build_with(LangId::Elixir, elixir_grammar(), ELIXIR_QUERY)
}

fn ocaml_lang() -> (r: Result<Lang, LangError>)
    ensures
        built(r, LangId::OCaml),
{
    build_with(LangId::OCaml, ocaml_grammar(), OCAML_QUERY)
}

fn haskell_lang() -> (r: Result<Lang, LangError>)
    ensures
        built(r, LangId::Haskell),
{
    build_with(LangId::Haskell, haskell_grammar(), HASKELL_QUERY)
}

fn dart_lang() -> (r: Result<Lang, LangError>)
    ensures
        built(r, LangId::Dart),
{
    build_with(LangId::Dart, dart_grammar(), DART_QUERY)
}

fn julia_lang() -> (r: Result<Lang, LangError>)
    ensures
        built(r, LangId::Julia),
{
    build_with(LangId::Julia, julia_grammar(), JULIA_QUERY)
}

fn r_lang() -> (r: Result<Lang, LangError>)
    ensures
        built(r, LangId::R),
{
    build_with(LangId::R, r_grammar(), R_QUERY)
}

fn perl_lang() -> (r: Result<Lang, LangError>)
    ensures
        built(r, LangId::Perl),
{
    build_with(LangId::Perl, perl_grammar(), PERL_QUERY)
}

/// In Elixir a definition is a macro call whose target is `def`/`defp` (etc.),
/// structurally identical to `if`/`for`/`with` blocks. The `#any-of?` predicate
/// is what separates them; the head is either a call (`def f(a) do`) or a bare
/// identifier (`def f do`).
pub const ELIXIR_QUERY: &'static str = r#"
    ((call
        target: (identifier) @kw
        (arguments [
            (call target: (identifier) @name)
            (identifier) @name
        ])
        (do_block)) @func
     (#any-of? @kw "def" "defp" "defmacro" "defmacrop"))
"#;

/// JavaScript/TypeScript functions take several shapes. Named declarations and
/// class methods carry their own name; arrow and anonymous function expressions
/// borrow the name of the variable they are assigned to. Class-field arrows are
/// handled by a grammar-specific pattern appended to this base.
pub const JS_BASE_QUERY: &'static str = "
    (function_declaration name: (identifier) @name) @func
    (generator_function_declaration name: (identifier) @name) @func
    (method_definition name: (property_identifier) @name) @func
    (variable_declarator
        name: (identifier) @name
        value: [(arrow_function) (function_expression)] @func)
";

pub const JS_FIELD_PATTERN: &'static str =
    "(field_definition property: (property_identifier) @name value: (arrow_function) @func)";

pub const TS_FIELD_PATTERN: &'static str =
    "(public_field_definition name: (property_identifier) @name value: (arrow_function) @func)";

/// C function definitions, including those returning a pointer (where the name
/// sits one level deeper, under a `pointer_declarator`).
pub const C_QUERY: &'static str = "
    (function_definition
        declarator: (function_declarator declarator: (identifier) @name)) @func
    (function_definition
        declarator: (pointer_declarator
            (function_declarator declarator: (identifier) @name))) @func
";

/// C++ adds member functions, qualified names, operators, and destructors, plus
/// pointer- and reference-returning forms.
pub const CPP_QUERY: &'static str = "
    (function_definition
        declarator: (function_declarator declarator: [
            (identifier) (field_identifier) (qualified_identifier)
            (destructor_name) (operator_name)
        ] @name)) @func
    (function_definition
        declarator: (pointer_declarator (function_declarator declarator: [
            (identifier) (field_identifier) (qualified_identifier) (operator_name)
        ] @name))) @func
    (function_definition
        declarator: (reference_declarator (function_declarator declarator: [
            (identifier) (field_identifier) (qualified_identifier) (operator_name)
        ] @name))) @func
";

/// The query text that locates `id`'s function definitions.
pub open spec fn query_text_of(id: LangId) -> Seq<char> {
    match id {
        LangId::Rust => RUST_QUERY@,
        LangId::Python => PYTHON_QUERY@,
        LangId::JavaScript => JS_BASE_QUERY@ + "\n"@ + JS_FIELD_PATTERN@,
        LangId::TypeScript => JS_BASE_QUERY@ + "\n"@ + TS_FIELD_PATTERN@,
        LangId::Tsx => JS_BASE_QUERY@ + "\n"@ + TS_FIELD_PATTERN@,
        LangId::Go => GO_QUERY@,
        LangId::C => C_QUERY@,
        LangId::Cpp => CPP_QUERY@,
        LangId::Java => JAVA_QUERY@,
        LangId::Ruby => RUBY_QUERY@,
        LangId::CSharp => CSHARP_QUERY@,
        LangId::Bash => BASH_QUERY@,
        LangId::Php => PHP_QUERY@,
        LangId::Zig => ZIG_QUERY@,
        LangId::Lua => LUA_QUERY@,
        LangId::Kotlin => KOTLIN_QUERY@,
        LangId::Swift => SWIFT_QUERY@,
        LangId::Scala => SCALA_QUERY@,
        LangId::Elixir => ELIXIR_QUERY@,
        LangId::OCaml => OCAML_QUERY@,
        LangId::Haskell => HASKELL_QUERY@,
        LangId::Dart => DART_QUERY@,
        LangId::Julia => JULIA_QUERY@,
        LangId::R => R_QUERY@,
        LangId::Perl => PERL_QUERY@,
    }
}

/// Free functions and methods inside `impl` blocks.
pub const RUST_QUERY: &'static str = "(function_item name: (identifier) @name) @func";

/// Top-level functions and methods; nested defs are matched too, which
/// is the behaviour we want for a per-function line count.
pub const PYTHON_QUERY: &'static str = "(function_definition name: (identifier) @name) @func";

/// The query that locates Go function definitions.
pub const GO_QUERY: &'static str = "(function_declaration name: (identifier) @name) @func
         (method_declaration name: (field_identifier) @name) @func";

/// The query that locates Java function definitions.
pub const JAVA_QUERY: &'static str = "(method_declaration name: (identifier) @name) @func
         (constructor_declaration name: (identifier) @name) @func";

/// `name:` accepts identifiers, operators, and setters alike.
pub const RUBY_QUERY: &'static str = "(method name: (_) @name) @func
         (singleton_method name: (_) @name) @func";

/// The query that locates C# function definitions.
pub const CSHARP_QUERY: &'static str = "(method_declaration name: (identifier) @name) @func
         (constructor_declaration name: (identifier) @name) @func
         (local_function_statement name: (identifier) @name) @func";

/// The query that locates Bash function definitions.
pub const BASH_QUERY: &'static str = "(function_definition name: (word) @name) @func";

/// The query that locates PHP function definitions.
pub const PHP_QUERY: &'static str = "(function_definition name: (name) @name) @func
         (method_declaration name: (name) @name) @func";

/// One node covers free functions, `pub fn`, and struct methods.
pub const ZIG_QUERY: &'static str = "(function_declaration name: (identifier) @name) @func";

/// The wildcard name accepts plain, `tbl.method`, and `tbl:method`
/// forms; the assigned-anonymous form (`x = function() end`) is left
/// out, in keeping with the no-anonymous-functions policy.
pub const LUA_QUERY: &'static str = "(function_declaration name: (_) @name) @func";

/// The query that locates Kotlin function definitions.
pub const KOTLIN_QUERY: &'static str = "(function_declaration name: (identifier) @name) @func";

/// Initializers carry no name node and so are not reported.
pub const SWIFT_QUERY: &'static str = "(function_declaration name: (simple_identifier) @name) @func";

/// The query that locates Scala function definitions.
pub const SCALA_QUERY: &'static str = "(function_definition name: (identifier) @name) @func";

/// A let-binding is a function only if it takes a parameter, which
/// distinguishes `let f x = ...` from a plain `let v = ...` value.
pub const OCAML_QUERY: &'static str = "(value_definition (let_binding pattern: (value_name) @name (parameter)) @func)";

/// Each equation is its own node, so a multi-clause function is reported
/// once per clause.
pub const HASKELL_QUERY: &'static str = "(function name: (variable) @name) @func";

/// The query that locates Dart function definitions.
pub const DART_QUERY: &'static str = "(function_declaration (function_signature name: (identifier) @name)) @func
         (method_declaration
            (method_signature (function_signature name: (identifier) @name))) @func";

/// Long form (`function f(...)`) and assignment form (`f(x) = ...`);
/// the anchor keeps the assignment's left-hand call from matching a call
/// on the right-hand side.
pub const JULIA_QUERY: &'static str = "(function_definition (signature (call_expression (identifier) @name))) @func
         (assignment . (call_expression (identifier) @name)) @func";

/// Functions are values bound with `<-` or `=`; the name is the
/// left-hand identifier, the line span the function literal.
pub const R_QUERY: &'static str = "(binary_operator lhs: (identifier) @name rhs: (function_definition) @func)";

/// The query that locates Perl function definitions.
pub const PERL_QUERY: &'static str = "(function_definition name: (identifier) @name) @func";

} // verus!
