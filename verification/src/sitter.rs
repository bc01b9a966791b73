//! The calls into tree-sitter (and the one into `std::str`) that the library
//! makes, each behind an `external_body` wrapper whose contract is taken on
//! trust.
//!
//! Parse trees, queries and matches are opaque here: the library reads from them
//! only plain values (rows, byte offsets, kinds, flags) and keeps its own model of
//! what it reads.

use vstd::prelude::*;
use vstd::string::StringSliceAdditionalSpecFns;
use streaming_iterator::StreamingIterator;

verus! {

/// A tree-sitter grammar.
#[verifier::external_type_specification]
#[verifier::external_body]
pub struct ExLanguage(tree_sitter::Language);

/// A compiled tree-sitter query.
#[verifier::external_type_specification]
#[verifier::external_body]
pub struct ExQuery(tree_sitter::Query);

/// Why a query failed to compile.
#[verifier::external_type_specification]
#[verifier::external_body]
pub struct ExQueryError(tree_sitter::QueryError);

/// A tree-sitter parser.
#[verifier::external_type_specification]
#[verifier::external_body]
pub struct ExParser(tree_sitter::Parser);

/// Why a parser refused a grammar.
#[verifier::external_type_specification]
#[verifier::external_body]
pub struct ExLanguageError(tree_sitter::LanguageError);

/// A parse tree.
#[verifier::external_type_specification]
#[verifier::external_body]
pub struct ExTree(tree_sitter::Tree);

/// A node of a parse tree.
#[verifier::external_type_specification]
#[verifier::external_body]
pub struct ExNode<'tree>(tree_sitter::Node<'tree>);

/// The state of a query run over a tree.
#[verifier::external_type_specification]
#[verifier::external_body]
pub struct ExQueryCursor(tree_sitter::QueryCursor);

/// The matches of one query run over a tree, handed out one at a time.
///
/// tree-sitter's `QueryMatches` cannot be declared here (its generic
/// parameters are bound by tree-sitter's `TextProvider` trait), so the run is
/// held in this opaque struct and reached only through `query_matches` and
/// `next_match`.
#[verifier::external_body]
pub struct MatchRun<'query, 'tree: 'query, 'src> {
    matches: tree_sitter::QueryMatches<'query, 'tree, &'src [u8], &'src [u8]>,
}

/// One match of a query.
#[verifier::external_type_specification]
#[verifier::external_body]
pub struct ExQueryMatch<'cursor, 'tree>(tree_sitter::QueryMatch<'cursor, 'tree>);

/// Why a byte string is not UTF-8.
#[verifier::external_type_specification]
#[verifier::external_body]
pub struct ExUtf8Error(core::str::Utf8Error);

/// The capture names a compiled query holds, in the order of their indices.
pub uninterp spec fn capture_names(query: tree_sitter::Query) -> Seq<Seq<char>>;

/// Whether the query text `source` compiles against `language`.
pub uninterp spec fn compiles(language: tree_sitter::Language, source: Seq<char>) -> bool;

/// The capture names of the query that `source` compiles to against
/// `language`, in the order of their indices.
pub uninterp spec fn compiled_captures(language: tree_sitter::Language, source: Seq<char>) -> Seq<
    Seq<char>,
>;

/// The grammar and the query text a compiled query was compiled from.
pub uninterp spec fn origin_of(query: tree_sitter::Query) -> (tree_sitter::Language, Seq<char>);

/// `Query::new`: compiles `source` against `language`. It succeeds exactly
/// when the text compiles against that grammar; the query it builds holds the
/// patterns of `source` for `language`, with the capture names that the text
/// gives.
#[verifier::external_body]
pub(crate) fn compile_query(
    language: &tree_sitter::Language,
    source: &str,
) -> (r: Result<tree_sitter::Query, tree_sitter::QueryError>)
    ensures
        r is Ok <==> compiles(*language, source@),
        r matches Ok(q) ==> capture_names(q) == compiled_captures(*language, source@) && origin_of(q)
            == (*language, source@),
{
    tree_sitter::Query::new(language, source)
}

/// `Query::capture_index_for_name`: the position of the first capture named
/// `name` among the query's capture names, or `None` when no capture has that
/// name. (A query holds fewer than 2^32 captures, so the position fits.)
#[verifier::external_body]
pub(crate) fn capture_index_for_name(query: &tree_sitter::Query, name: &str) -> (r: Option<u32>)
    ensures
        match r {
            Some(i) => i < capture_names(*query).len() && capture_names(*query)[i as int]
                == name@ && forall|j: int|
                0 <= j < i ==> capture_names(*query)[j] != name@,
            None => forall|j: int|
                0 <= j < capture_names(*query).len() ==> capture_names(*query)[j] != name@,
        },
{
    query.capture_index_for_name(name)
}

/// `Parser::new`.
#[verifier::external_body]
pub(crate) fn new_parser() -> tree_sitter::Parser {
    tree_sitter::Parser::new()
}

/// Whether a grammar's ABI version is one the tree-sitter runtime supports.
pub uninterp spec fn abi_supported(language: tree_sitter::Language) -> bool;

/// The grammar a parser parses with, if it has been given one.
pub uninterp spec fn parser_grammar(parser: tree_sitter::Parser) -> Option<tree_sitter::Language>;

/// The grammar a tree was parsed with.
pub uninterp spec fn tree_grammar(tree: tree_sitter::Tree) -> tree_sitter::Language;

/// `Parser::set_language`: succeeds exactly when the grammar's ABI version is
/// one the runtime supports, and then the parser parses with that grammar.
#[verifier::external_body]
pub(crate) fn set_parser_language(
    parser: &mut tree_sitter::Parser,
    language: &tree_sitter::Language,
) -> (r: Result<(), tree_sitter::LanguageError>)
    ensures
        r is Ok <==> abi_supported(*language),
        r is Ok ==> parser_grammar(*final(parser)) == Some(*language),
{
    parser.set_language(language)
}

/// The text a tree was parsed from: the bytes its nodes' byte ranges index.
pub uninterp spec fn parsed_text(tree: tree_sitter::Tree) -> Seq<u8>;

/// `Parser::parse` with no previous tree. `None` only when the parser has no
/// grammar (no timeout or cancellation is ever set here); a tree it returns
/// is the parse of `source` with the parser's grammar.
#[verifier::external_body]
pub(crate) fn parse_source(parser: &mut tree_sitter::Parser, source: &str) -> (r: Option<
    tree_sitter::Tree,
>)
    ensures
        parser_grammar(*old(parser)) is Some ==> r is Some,
        r matches Some(t) ==> parsed_text(t) == source.spec_bytes() && parser_grammar(*old(parser))
            == Some(tree_grammar(t)),
{
    parser.parse(source, None)
}

/// `QueryCursor::new`.
#[verifier::external_body]
pub(crate) fn new_query_cursor() -> tree_sitter::QueryCursor {
    tree_sitter::QueryCursor::new()
}

/// The matches a run of `query` over the whole of `tree` hands out, in
/// order, each given by its captures: only the matches that pass the query's
/// text predicates.
pub uninterp spec fn matches_of(query: tree_sitter::Query, tree: tree_sitter::Tree) -> Seq<
    Seq<(u32, tree_sitter::Node<'static>)>,
>;

/// The matches a run has still to hand out, each given by its captures.
pub uninterp spec fn remaining(run: MatchRun) -> Seq<Seq<(u32, tree_sitter::Node<'static>)>>;

/// `QueryCursor::matches`: starts running `query` over the whole of `tree`
/// (from `Tree::root_node`), reading node text from `source`. The run slices
/// `source` by the byte ranges of the tree's nodes when it evaluates the
/// query's text predicates, so `source` must be the text the tree was parsed
/// from.
#[verifier::external_body]
pub(crate) fn query_matches<'query, 'tree: 'query, 'src>(
    cursor: &'query mut tree_sitter::QueryCursor,
    query: &'query tree_sitter::Query,
    tree: &'tree tree_sitter::Tree,
    source: &'src [u8],
) -> (r: MatchRun<'query, 'tree, 'src>)
    requires
        parsed_text(*tree) == source@,
    ensures
        remaining(r) == matches_of(*query, *tree),
{
    MatchRun { matches: cursor.matches(query, tree.root_node(), source) }
}

/// `StreamingIterator::next` on the matches of a query run: the next match
/// that passes the query's text predicates (`#eq?`, `#any-of?`, ...), or
/// `None` once they are exhausted. A `MatchRun` is only made by
/// `query_matches`, whose `requires` ties the run's text to its tree, so the
/// predicates read only bytes within that text.
#[verifier::external_body]
pub(crate) fn next_match<'a, 'query, 'tree, 'src>(
    run: &'a mut MatchRun<'query, 'tree, 'src>,
) -> (r: Option<&'a tree_sitter::QueryMatch<'query, 'tree>>)
    ensures
        remaining(*old(run)).len() == 0 ==> r is None,
        remaining(*old(run)).len() > 0 ==> (r matches Some(m) && captures_of(*m) == remaining(
            *old(run),
        )[0]),
        remaining(*old(run)).len() > 0 ==> remaining(*final(run)) == remaining(*old(run)).drop_first(),
{
    run.matches.next()
}

/// The captures of a match, in order: each capture's index and node.
pub uninterp spec fn captures_of(m: tree_sitter::QueryMatch) -> Seq<(u32, tree_sitter::Node<'static>)>;

/// The first node among `captures` captured under `index`.
pub open spec fn first_capture(captures: Seq<(u32, tree_sitter::Node<'static>)>, index: u32) -> Option<
    tree_sitter::Node<'static>,
>
    decreases captures.len(),
{
    if captures.len() == 0 {
        None
    } else if captures[0].0 == index {
        Some(captures[0].1)
    } else {
        first_capture(captures.drop_first(), index)
    }
}

/// `QueryMatch::nodes_for_capture_index`, first item: the first node the match
/// captured under `index`, if any.
#[verifier::external_body]
pub(crate) fn first_node_for_capture<'cursor, 'tree>(
    m: &tree_sitter::QueryMatch<'cursor, 'tree>,
    index: u32,
) -> (r: Option<tree_sitter::Node<'tree>>)
    ensures
        r == first_capture(captures_of(*m), index),
{
    m.nodes_for_capture_index(index).next()
}

/// The grammar type name of a node.
pub uninterp spec fn kind_of(node: tree_sitter::Node) -> Seq<char>;

/// Whether a node is an "extra" of its grammar.
pub uninterp spec fn is_extra_of(node: tree_sitter::Node) -> bool;

/// The row (0-based line) where a node starts.
pub uninterp spec fn start_row_of(node: tree_sitter::Node) -> usize;

/// The row (0-based line) where a node ends.
pub uninterp spec fn end_row_of(node: tree_sitter::Node) -> usize;

/// The byte offset where a node starts in the text its tree was parsed from.
pub uninterp spec fn start_byte_of(node: tree_sitter::Node) -> usize;

/// The byte offset where a node ends in the text its tree was parsed from.
pub uninterp spec fn end_byte_of(node: tree_sitter::Node) -> usize;

/// How many children a node has.
pub uninterp spec fn child_count_of(node: tree_sitter::Node) -> usize;

/// A node's child at an index (`None` past the last one).
pub uninterp spec fn child_of(node: tree_sitter::Node, index: u32) -> Option<tree_sitter::Node>;

/// How many nodes a node's subtree holds, itself included (what
/// `Node::descendant_count` reports).
pub uninterp spec fn descendants_of(node: tree_sitter::Node) -> usize;

/// `Node::kind`: the node's grammar type name.
#[verifier::external_body]
pub(crate) fn node_kind(node: tree_sitter::Node) -> (r: &'static str)
    ensures
        r@ == kind_of(node),
{
    node.kind()
}

/// `Node::is_extra`: whether the node is an "extra" of the grammar, such as a
/// comment.
#[verifier::external_body]
pub(crate) fn node_is_extra(node: tree_sitter::Node) -> (r: bool)
    ensures
        r == is_extra_of(node),
{
    node.is_extra()
}

/// `Node::start_position`, its row.
#[verifier::external_body]
pub(crate) fn node_start_row(node: tree_sitter::Node) -> (r: usize)
    ensures
        r == start_row_of(node),
{
    node.start_position().row
}

/// `Node::end_position`, its row. A node ends where it starts plus its
/// extent, so never on an earlier row.
#[verifier::external_body]
pub(crate) fn node_end_row(node: tree_sitter::Node) -> (r: usize)
    ensures
        r == end_row_of(node),
        start_row_of(node) <= r,
{
    node.end_position().row
}

/// `Node::start_byte`.
#[verifier::external_body]
pub(crate) fn node_start_byte(node: tree_sitter::Node) -> (r: usize)
    ensures
        r == start_byte_of(node),
{
    node.start_byte()
}

/// `Node::end_byte`.
#[verifier::external_body]
pub(crate) fn node_end_byte(node: tree_sitter::Node) -> (r: usize)
    ensures
        r == end_byte_of(node),
{
    node.end_byte()
}

/// `Node::child_count`.
#[verifier::external_body]
pub(crate) fn node_child_count(node: tree_sitter::Node) -> (r: usize)
    ensures
        r == child_count_of(node),
{
    node.child_count()
}

/// `Node::child`: the child at `index`, or `None` past the last one. A
/// child's subtree is part of its parent's, without the parent, so it holds
/// fewer nodes; and the children of a node lie within its rows (the first
/// starts where the parent starts, each later one after the one before, and
/// together they end where the parent ends).
#[verifier::external_body]
pub(crate) fn node_child<'tree>(node: tree_sitter::Node<'tree>, index: u32) -> (r: Option<
    tree_sitter::Node<'tree>,
>)
    ensures
        r == child_of(node, index),
        r matches Some(c) ==> descendants_of(c) < descendants_of(node),
        r matches Some(c) ==> start_row_of(node) <= start_row_of(c) && end_row_of(c) <= end_row_of(node),
{
    node.child(index)
}

/// `std::str::from_utf8`: succeeds exactly on valid UTF-8, with a string whose
/// bytes are the input.
#[verifier::external_body]
pub(crate) fn str_from_utf8(bytes: &[u8]) -> (r: Result<&str, core::str::Utf8Error>)
    ensures
        r is Ok <==> vstd::utf8::valid_utf8(bytes@),
        r matches Ok(s) ==> s.spec_bytes() == bytes@,
{
    core::str::from_utf8(bytes)
}

} // verus!
