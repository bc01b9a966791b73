//! The registry of supported languages: which file extensions select which
//! language. Nothing here compiles a grammar or a query.

use vstd::prelude::*;
use crate::text::str_eq;

verus! {

/// A supported language.
#[derive(Clone, Copy, PartialEq, Eq, Structural, Debug, Hash)]
pub enum LangId {
    Rust,
    Python,
    JavaScript,
    TypeScript,
    Tsx,
    Go,
    C,
    Cpp,
    Java,
    Ruby,
    CSharp,
    Bash,
    Php,
    Zig,
    Lua,
    Kotlin,
    Swift,
    Scala,
    Elixir,
    OCaml,
    Haskell,
    Dart,
    Julia,
    R,
    Perl,
}

/// Entry `i` of the registry: a language with the extensions (without the
/// dot) that select it.
pub open spec fn registry_entry(i: int) -> (Seq<Seq<char>>, LangId) {
    if i == 0 {
        (seq!["rs"@], LangId::Rust)
    } else if i == 1 {
        (seq!["py"@, "pyi"@], LangId::Python)
    } else if i == 2 {
        (seq!["js"@, "jsx"@, "mjs"@, "cjs"@], LangId::JavaScript)
    } else if i == 3 {
        (seq!["ts"@, "mts"@, "cts"@], LangId::TypeScript)
    } else if i == 4 {
        (seq!["tsx"@], LangId::Tsx)
    } else if i == 5 {
        (seq!["go"@], LangId::Go)
    } else if i == 6 {
        (seq!["c"@, "h"@], LangId::C)
    } else if i == 7 {
        (seq!["cc"@, "cpp"@, "cxx"@, "hpp"@, "hh"@, "hxx"@], LangId::Cpp)
    } else if i == 8 {
        (seq!["java"@], LangId::Java)
    } else if i == 9 {
        (seq!["rb"@], LangId::Ruby)
    } else if i == 10 {
        (seq!["cs"@], LangId::CSharp)
    } else if i == 11 {
        (seq!["sh"@, "bash"@], LangId::Bash)
    } else if i == 12 {
        (seq!["php"@], LangId::Php)
    } else if i == 13 {
        (seq!["zig"@], LangId::Zig)
    } else if i == 14 {
        (seq!["lua"@], LangId::Lua)
    } else if i == 15 {
        (seq!["kt"@, "kts"@], LangId::Kotlin)
    } else if i == 16 {
        (seq!["swift"@], LangId::Swift)
    } else if i == 17 {
        (seq!["scala"@, "sc"@], LangId::Scala)
    } else if i == 18 {
        (seq!["ex"@, "exs"@], LangId::Elixir)
    } else if i == 19 {
        (seq!["ml"@], LangId::OCaml)
    } else if i == 20 {
        (seq!["hs"@], LangId::Haskell)
    } else if i == 21 {
        (seq!["dart"@], LangId::Dart)
    } else if i == 22 {
        (seq!["jl"@], LangId::Julia)
    } else if i == 23 {
        (seq!["r"@, "R"@], LangId::R)
    } else {
        (seq!["pl"@, "pm"@], LangId::Perl)
    }
}

/// The registry in order: each language with the extensions that select it.
pub open spec fn registry() -> Seq<(Seq<Seq<char>>, LangId)> {
    Seq::new(25, |i: int| registry_entry(i))
}

/// Some entry of `table` lists `ext`.
pub open spec fn listed(table: Seq<(Seq<Seq<char>>, LangId)>, ext: Seq<char>) -> bool {
    exists|i: int| 0 <= i < table.len() && #[trigger] table[i].0.contains(ext)
}

/// The language of the first entry of `table` that lists `ext`.
pub open spec fn first_listing(table: Seq<(Seq<Seq<char>>, LangId)>, ext: Seq<char>) -> Option<
    LangId,
>
    decreases table.len(),
{
    if table.len() == 0 {
        None
    } else if table[0].0.contains(ext) {
        Some(table[0].1)
    } else {
        first_listing(table.drop_first(), ext)
    }
}

/// The language that `ext` selects, matched case-sensitively: the first
/// registry entry that lists it.
pub open spec fn lang_of(ext: Seq<char>) -> Option<LangId> {
    first_listing(registry(), ext)
}

/// A registry entry: the extensions that select a language.
pub struct LangSpec {
    /// File extensions (without the dot) that map to this language.
    pub extensions: Vec<&'static str>,
    pub id: LangId,
}

impl LangSpec {
    /// The entry as plain values.
    pub open spec fn entry(&self) -> (Seq<Seq<char>>, LangId) {
        (self.extensions@.map_values(|e: &'static str| e@), self.id)
    }

    pub fn new(extensions: Vec<&'static str>, id: LangId) -> (s: LangSpec)
        ensures
            s.extensions@ == extensions@,
            s.id == id,
    {
        LangSpec { extensions, id }
    }

    /// Whether this entry lists `extension`.
    pub fn matches(&self, extension: &str) -> (r: bool)
        ensures
            r == self.entry().0.contains(extension@),
    {
        let mut i: usize = 0;
        while i < self.extensions.len()
            invariant
                i <= self.extensions@.len(),
                forall|k: int| 0 <= k < i ==> self.extensions@[k]@ != extension@,
            decreases self.extensions@.len() - i,
        {
            if str_eq(self.extensions[i], extension) {
                assert(self.entry().0[i as int] == extension@);
                return true;
            }
            i += 1;
        }
        assert(!self.entry().0.contains(extension@)) by {
            if self.entry().0.contains(extension@) {
                let k = choose|k: int|
                    0 <= k < self.entry().0.len() && self.entry().0[k] == extension@;
                assert(self.extensions@[k]@ == extension@);
            }
        }
        false
    }
}

/// The registry as executable data, entry for entry the same as `registry()`.
pub fn specs() -> (s: Vec<LangSpec>)
    ensures
        s@.len() == registry().len(),
        forall|i: int| 0 <= i < s@.len() ==> #[trigger] s@[i].entry() == registry()[i],
{
    let s = vec![
        LangSpec::new(vec!["rs"], LangId::Rust),
        LangSpec::new(vec!["py", "pyi"], LangId::Python),
        LangSpec::new(vec!["js", "jsx", "mjs", "cjs"], LangId::JavaScript),
        LangSpec::new(vec!["ts", "mts", "cts"], LangId::TypeScript),
        LangSpec::new(vec!["tsx"], LangId::Tsx),
        LangSpec::new(vec!["go"], LangId::Go),
        LangSpec::new(vec!["c", "h"], LangId::C),
        LangSpec::new(vec!["cc", "cpp", "cxx", "hpp", "hh", "hxx"], LangId::Cpp),
        LangSpec::new(vec!["java"], LangId::Java),
        LangSpec::new(vec!["rb"], LangId::Ruby),
        LangSpec::new(vec!["cs"], LangId::CSharp),
        LangSpec::new(vec!["sh", "bash"], LangId::Bash),
        LangSpec::new(vec!["php"], LangId::Php),
        LangSpec::new(vec!["zig"], LangId::Zig),
        LangSpec::new(vec!["lua"], LangId::Lua),
        LangSpec::new(vec!["kt", "kts"], LangId::Kotlin),
        LangSpec::new(vec!["swift"], LangId::Swift),
        LangSpec::new(vec!["scala", "sc"], LangId::Scala),
        LangSpec::new(vec!["ex", "exs"], LangId::Elixir),
        LangSpec::new(vec!["ml"], LangId::OCaml),
        LangSpec::new(vec!["hs"], LangId::Haskell),
        LangSpec::new(vec!["dart"], LangId::Dart),
        LangSpec::new(vec!["jl"], LangId::Julia),
        LangSpec::new(vec!["r", "R"], LangId::R),
        LangSpec::new(vec!["pl", "pm"], LangId::Perl),
    ];
    assert forall|i: int| 0 <= i < s@.len() implies #[trigger] s@[i].entry() == registry()[i] by {
        assert(s@[i].entry().0 =~= registry()[i].0);
    }
    s
}

/// Return the language that `extension` selects, or `None` if unsupported.
///
/// `extension` is the part after the final dot, without the dot, and is
/// matched case-sensitively against the registry.
pub fn language_for(extension: &str) -> (r: Option<LangId>)
    ensures
        r == lang_of(extension@),
{
    let table = specs();
    let mut i: usize = 0;
    assert(registry().subrange(0, registry().len() as int) =~= registry());
    while i < table.len()
        invariant
            table@.len() == registry().len(),
            forall|k: int| 0 <= k < table@.len() ==> #[trigger] table@[k].entry() == registry()[k],
            i <= table@.len(),
            lang_of(extension@) == first_listing(registry().subrange(i as int, registry().len() as int), extension@),
        decreases table@.len() - i,
    {
        let ghost rest = registry().subrange(i as int, registry().len() as int);
        assert(table@[i as int].entry() == registry()[i as int]);
        if table[i].matches(extension) {
            return Some(table[i].id);
        }
        assert(rest.drop_first() =~= registry().subrange(i + 1, registry().len() as int));
        i += 1;
    }
    None
}

/// Return whether `extension` maps to a supported language without compiling
/// that language's query.
pub fn supports_extension(extension: &str) -> (r: bool)
    ensures
        r == listed(registry(), extension@),
{
    let table = specs();
    let mut i: usize = 0;
    while i < table.len()
        invariant
            table@.len() == registry().len(),
            forall|k: int| 0 <= k < table@.len() ==> #[trigger] table@[k].entry() == registry()[k],
            i <= table@.len(),
            forall|k: int| 0 <= k < i ==> !(#[trigger] registry()[k].0.contains(extension@)),
        decreases table@.len() - i,
    {
        assert(table@[i as int].entry() == registry()[i as int]);
        if table[i].matches(extension) {
            return true;
        }
        i += 1;
    }
    false
}

/// An extension is listed in a table exactly when the table's first listing
/// of it exists.
pub proof fn lemma_listed_iff_first_listing(table: Seq<(Seq<Seq<char>>, LangId)>, ext: Seq<char>)
    ensures
        listed(table, ext) <==> first_listing(table, ext) is Some,
    decreases table.len(),
{
    if table.len() > 0 {
        lemma_listed_iff_first_listing(table.drop_first(), ext);
        if listed(table, ext) && !table[0].0.contains(ext) {
            let i = choose|i: int| 0 <= i < table.len() && #[trigger] table[i].0.contains(ext);
            assert(table.drop_first()[i - 1] == table[i]);
        }
        if listed(table.drop_first(), ext) {
            let i = choose|i: int|
                0 <= i < table.drop_first().len() && #[trigger] table.drop_first()[i].0.contains(ext);
            assert(table[i + 1] == table.drop_first()[i]);
        }
    }
}

/// `supports_extension(e)` holds exactly when `language_for(e)` (and so
/// `for_extension(e)`) finds a language: the cheap check never disagrees with
/// the lookup.
pub proof fn law_supports_iff_found(ext: Seq<char>)
    ensures
        listed(registry(), ext) <==> lang_of(ext) is Some,
{
    lemma_listed_iff_first_listing(registry(), ext);
}

/// The first listing of `ext` is entry `i` when entry `i` lists it and no
/// earlier entry does.
pub proof fn lemma_first_listing_at(table: Seq<(Seq<Seq<char>>, LangId)>, ext: Seq<char>, i: int)
    requires
        0 <= i < table.len(),
        table[i].0.contains(ext),
        forall|k: int| 0 <= k < i ==> !(#[trigger] table[k].0.contains(ext)),
    ensures
        first_listing(table, ext) == Some(table[i].1),
    decreases i,
{
    if i > 0 {
        assert(!table[0].0.contains(ext));
        let rest = table.drop_first();
        assert forall|k: int| 0 <= k < i - 1 implies !(#[trigger] rest[k].0.contains(ext)) by {
            assert(rest[k] == table[k + 1]);
        }
        lemma_first_listing_at(rest, ext, i - 1);
    }
}

/// A number that tells apart the extensions of the registry: their length
/// and first, second and last characters.
spec fn ext_key(e: Seq<char>) -> int {
    e.len() * 0x1000000 + (e[0] as int) * 0x10000 + (if e.len() > 1 {
        e[1] as int
    } else {
        0
    }) * 0x100 + (e[e.len() - 1] as int)
}

/// The characters of every extension the registry lists.
proof fn lemma_registry_spelling()
    ensures
        "rs"@ == seq!['r', 's'],
        "py"@ == seq!['p', 'y'],
        "pyi"@ == seq!['p', 'y', 'i'],
        "js"@ == seq!['j', 's'],
        "jsx"@ == seq!['j', 's', 'x'],
        "mjs"@ == seq!['m', 'j', 's'],
        "cjs"@ == seq!['c', 'j', 's'],
        "ts"@ == seq!['t', 's'],
        "mts"@ == seq!['m', 't', 's'],
        "cts"@ == seq!['c', 't', 's'],
        "tsx"@ == seq!['t', 's', 'x'],
        "go"@ == seq!['g', 'o'],
        "c"@ == seq!['c'],
        "h"@ == seq!['h'],
        "cc"@ == seq!['c', 'c'],
        "cpp"@ == seq!['c', 'p', 'p'],
        "cxx"@ == seq!['c', 'x', 'x'],
        "hpp"@ == seq!['h', 'p', 'p'],
        "hh"@ == seq!['h', 'h'],
        "hxx"@ == seq!['h', 'x', 'x'],
        "java"@ == seq!['j', 'a', 'v', 'a'],
        "rb"@ == seq!['r', 'b'],
        "cs"@ == seq!['c', 's'],
        "sh"@ == seq!['s', 'h'],
        "bash"@ == seq!['b', 'a', 's', 'h'],
        "php"@ == seq!['p', 'h', 'p'],
        "zig"@ == seq!['z', 'i', 'g'],
        "lua"@ == seq!['l', 'u', 'a'],
        "kt"@ == seq!['k', 't'],
        "kts"@ == seq!['k', 't', 's'],
        "swift"@ == seq!['s', 'w', 'i', 'f', 't'],
        "scala"@ == seq!['s', 'c', 'a', 'l', 'a'],
        "sc"@ == seq!['s', 'c'],
        "ex"@ == seq!['e', 'x'],
        "exs"@ == seq!['e', 'x', 's'],
        "ml"@ == seq!['m', 'l'],
        "hs"@ == seq!['h', 's'],
        "dart"@ == seq!['d', 'a', 'r', 't'],
        "jl"@ == seq!['j', 'l'],
        "r"@ == seq!['r'],
        "R"@ == seq!['R'],
        "pl"@ == seq!['p', 'l'],
        "pm"@ == seq!['p', 'm'],
{
    reveal_strlit("rs");
    reveal_strlit("py");
    reveal_strlit("pyi");
    reveal_strlit("js");
    reveal_strlit("jsx");
    reveal_strlit("mjs");
    reveal_strlit("cjs");
    reveal_strlit("ts");
    reveal_strlit("mts");
    reveal_strlit("cts");
    reveal_strlit("tsx");
    reveal_strlit("go");
    reveal_strlit("c");
    reveal_strlit("h");
    reveal_strlit("cc");
    reveal_strlit("cpp");
    reveal_strlit("cxx");
    reveal_strlit("hpp");
    reveal_strlit("hh");
    reveal_strlit("hxx");
    reveal_strlit("java");
    reveal_strlit("rb");
    reveal_strlit("cs");
    reveal_strlit("sh");
    reveal_strlit("bash");
    reveal_strlit("php");
    reveal_strlit("zig");
    reveal_strlit("lua");
    reveal_strlit("kt");
    reveal_strlit("kts");
    reveal_strlit("swift");
    reveal_strlit("scala");
    reveal_strlit("sc");
    reveal_strlit("ex");
    reveal_strlit("exs");
    reveal_strlit("ml");
    reveal_strlit("hs");
    reveal_strlit("dart");
    reveal_strlit("jl");
    reveal_strlit("r");
    reveal_strlit("R");
    reveal_strlit("pl");
    reveal_strlit("pm");
}

/// The extensions of entry `i` are listed by no earlier entry: the keys of
/// the registry's extensions tell them apart.
#[verifier::spinoff_prover]
#[verifier::rlimit(100)]
proof fn lemma_entry_unshadowed(i: int, j: int)
    requires
        0 <= i < registry().len(),
        0 <= j < registry_entry(i).0.len(),
    ensures
        forall|k: int| 0 <= k < i ==> !(#[trigger] registry_entry(k).0.contains(registry_entry(i).0[j])),
{
    lemma_registry_spelling();
    let e = registry_entry(i).0[j];
    assert forall|k: int| 0 <= k < i implies !(#[trigger] registry_entry(k).0.contains(e)) by {
        if registry_entry(k).0.contains(e) {
            let m = choose|m: int| 0 <= m < registry_entry(k).0.len() && registry_entry(k).0[m] == e;
            assert(ext_key(registry_entry(k).0[m]) != ext_key(e));
        }
    }
}

/// Every extension the registry lists selects the language it is listed
/// under: no entry shadows another, so the order of the registry does not
/// matter.
pub proof fn law_listed_extension_selects_its_language(i: int, j: int)
    requires
        0 <= i < registry().len(),
        0 <= j < registry()[i].0.len(),
    ensures
        lang_of(registry()[i].0[j]) == Some(registry()[i].1),
{
    let e = registry()[i].0[j];
    lemma_entry_unshadowed(i, j);
    assert forall|k: int| 0 <= k < i implies !(#[trigger] registry()[k].0.contains(e)) by {
        assert(registry()[k] == registry_entry(k));
    }
    lemma_first_listing_at(registry(), e, i);
}

} // verus!
