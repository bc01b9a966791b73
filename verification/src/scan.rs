//! Finding every function definition in a set of source files.
//!
//! The walk over the directory tree and the reading of files happen outside
//! the library; here each file's text is parsed with its language's grammar,
//! the language's query locates the definitions, and each match becomes a
//! `Function` record.

use vstd::prelude::*;
use vstd::string::StringSliceAdditionalSpecFns;
use crate::filter::ExtFilter;
use crate::language::{for_extension, label_of, Lang, LangError};
use crate::registry::{lang_of, listed, registry, supports_extension};
use crate::rows::{code_rows, count_code_rows, law_logical_at_most_physical, physical_lines, row_span, span_lines, FlatNode};
use crate::text::{contains_bytes, str_contains};
use crate::language::built;
use crate::sitter::{
    abi_supported, captures_of, first_capture, matches_of, remaining, child_count_of, child_of, descendants_of, end_byte_of, end_row_of, first_node_for_capture,
    is_extra_of, kind_of, new_parser, new_query_cursor, next_match, node_child, node_child_count,
    node_end_byte, node_end_row, node_is_extra, node_kind, node_start_byte, node_start_row,
    parse_source, parsed_text, tree_grammar, query_matches, set_parser_language, start_byte_of, start_row_of,
    str_from_utf8,
};

verus! {

/// How a function's line count is measured.
#[derive(Clone, Copy, PartialEq, Eq, Structural, Debug)]
pub enum CountMode {
    /// Every line the definition spans, blanks and comments included.
    Physical,
    /// Only lines carrying code: blank and comment-only lines are excluded.
    Logical,
}

/// One function definition found in the source tree.
pub struct Function {
    /// The definition's line count under the active `CountMode`. A one-line
    /// function counts as 1.
    pub lines: usize,
    pub name: String,
    pub path: String,
}

/// A `Function` as plain values.
pub struct FunctionView {
    pub lines: usize,
    pub name: Seq<char>,
    pub path: Seq<char>,
}

impl View for Function {
    type V = FunctionView;

    open spec fn view(&self) -> FunctionView {
        FunctionView { lines: self.lines, name: self.name@, path: self.path@ }
    }
}

impl Function {
    pub fn new(lines: usize, name: &str, path: &str) -> (f: Function)
        ensures
            f.lines == lines,
            f.name@ == name@,
            f.path@ == path@,
    {
        Function { lines, name: name.to_owned(), path: path.to_owned() }
    }
}

/// A file the walk found: its path, its extension (the part after the final
/// dot, if the name has one) and its text (`None` when it could not be read as
/// UTF-8).
pub struct SourceFile {
    pub path: String,
    pub extension: Option<String>,
    pub contents: Option<String>,
}

/// What `eligible` decides: the file has an extension, the filter accepts it
/// and it selects a supported language.
pub open spec fn spec_eligible(extension: Option<Seq<char>>, filter: &ExtFilter) -> bool {
    match extension {
        Some(e) => filter.spec_accepts(e) && listed(registry(), e),
        None => false,
    }
}

/// Whether a file with this extension is scanned.
pub fn eligible(extension: Option<&str>, filter: &ExtFilter) -> (r: bool)
    ensures
        r == spec_eligible(
            match extension {
                Some(e) => Some(e@),
                None => None,
            },
            filter,
        ),
{
    match extension {
        Some(ext) => filter.accepts(ext) && supports_extension(ext),
        None => false,
    }
}

/// The model of node `n` at depth `d`: a comment when the grammar marks it
/// an extra or its type name contains "comment".
pub open spec fn flat_of(n: tree_sitter::Node, d: int) -> FlatNode {
    FlatNode {
        comment: is_extra_of(n) || contains_bytes(
            vstd::utf8::encode_utf8(kind_of(n)),
            "comment".spec_bytes(),
        ),
        start_row: start_row_of(n),
        end_row: end_row_of(n),
        depth: d as usize,
    }
}

/// The subtree of `n`, taken at depth `d`, in preorder: `n` itself, then the
/// subtrees of its children in order, one level deeper.
pub open spec fn walk(n: tree_sitter::Node, d: int) -> Seq<FlatNode>
    decreases descendants_of(n), child_count_of(n) + 1,
{
    seq![flat_of(n, d)] + walk_kids(n, d, 0)
}

/// The subtrees of the children of `n` from index `k` on, in order, at depth
/// `d + 1`. (A child's subtree is always smaller than its parent's, as
/// `node_child` states; the guard only makes the recursion well founded.)
pub open spec fn walk_kids(n: tree_sitter::Node, d: int, k: int) -> Seq<FlatNode>
    decreases descendants_of(n), child_count_of(n) - k,
{
    if k >= child_count_of(n) {
        Seq::empty()
    } else {
        match child_of(n, k as u32) {
            Some(c) => if descendants_of(c) < descendants_of(n) {
                walk(c, d + 1) + walk_kids(n, d, k + 1)
            } else {
                walk_kids(n, d, k + 1)
            },
            None => walk_kids(n, d, k + 1),
        }
    }
}

/// A walk reads the node it starts from first, with that node's own rows,
/// the depth it was asked for, and as a comment exactly when the grammar
/// marks the node an extra or its type name contains "comment".
pub proof fn law_walk_reads_the_node(n: tree_sitter::Node, d: int)
    requires
        0 <= d <= usize::MAX,
    ensures
        walk(n, d).len() >= 1,
        walk(n, d)[0].start_row == start_row_of(n),
        walk(n, d)[0].end_row == end_row_of(n),
        walk(n, d)[0].depth == d,
        walk(n, d)[0].comment == (is_extra_of(n) || contains_bytes(
            vstd::utf8::encode_utf8(kind_of(n)),
            "comment".spec_bytes(),
        )),
{
    assert(walk(n, d) == seq![flat_of(n, d)] + walk_kids(n, d, 0));
}

/// The walk of the children of `n` from index `k` on holds, as a contiguous
/// run, the whole walk of child `i` (any child at or after `k`, all of which
/// hold fewer nodes than `n`).
proof fn lemma_kids_hold_child(n: tree_sitter::Node, d: int, k: int, i: int)
    requires
        0 <= k <= i < child_count_of(n),
        child_of(n, i as u32) is Some,
        descendants_of(child_of(n, i as u32)->0) < descendants_of(n),
    ensures
        ({
            let w = walk(child_of(n, i as u32)->0, d + 1);
            let all = walk_kids(n, d, k);
            exists|o: int| 0 <= o && o + w.len() <= all.len() && #[trigger] all.subrange(o, o + w.len()) == w
        }),
    decreases i - k,
{
    let c = child_of(n, i as u32)->0;
    let w = walk(c, d + 1);
    let all = walk_kids(n, d, k);
    if k == i {
        assert(all == w + walk_kids(n, d, k + 1));
        let o: int = 0;
        assert(all.subrange(o, o + w.len()) =~= w);
    } else {
        lemma_kids_hold_child(n, d, k + 1, i);
        let rest = walk_kids(n, d, k + 1);
        let o = choose|o: int| 0 <= o && o + w.len() <= rest.len() && #[trigger] rest.subrange(o, o + w.len()) == w;
        let head = match child_of(n, k as u32) {
            Some(ck) => if descendants_of(ck) < descendants_of(n) {
                walk(ck, d + 1)
            } else {
                Seq::<FlatNode>::empty()
            },
            None => Seq::<FlatNode>::empty(),
        };
        assert(all == head + rest);
        let o2 = head.len() + o;
        assert(all.subrange(o2, o2 + w.len()) =~= rest.subrange(o, o + w.len()));
    }
}

/// The walk of a node holds, as a contiguous run, the whole walk of each of
/// its children (each of which holds fewer nodes than the node), one level
/// deeper.
pub proof fn law_walk_holds_each_child(n: tree_sitter::Node, d: int, i: int)
    requires
        0 <= i < child_count_of(n),
        child_of(n, i as u32) is Some,
        descendants_of(child_of(n, i as u32)->0) < descendants_of(n),
    ensures
        ({
            let w = walk(child_of(n, i as u32)->0, d + 1);
            exists|o: int|
                0 <= o && o + w.len() <= walk(n, d).len() && #[trigger] walk(n, d).subrange(o, o + w.len()) == w
        }),
{
    lemma_kids_hold_child(n, d, 0, i);
    let w = walk(child_of(n, i as u32)->0, d + 1);
    let kids = walk_kids(n, d, 0);
    let o = choose|o: int| 0 <= o && o + w.len() <= kids.len() && #[trigger] kids.subrange(o, o + w.len()) == w;
    assert(walk(n, d) == seq![flat_of(n, d)] + kids);
    let o2 = o + 1;
    assert(walk(n, d).subrange(o2, o2 + w.len()) =~= kids.subrange(o, o + w.len()));
}

/// What the walk still has to emit for a stack of pending subtrees, the top
/// of the stack (its last item) first.
pub open spec fn pending(stack: Seq<(tree_sitter::Node, usize)>) -> Seq<FlatNode>
    decreases stack.len(),
{
    if stack.len() == 0 {
        Seq::empty()
    } else {
        walk(stack.last().0, stack.last().1 as int) + pending(stack.drop_last())
    }
}

/// The nodes of `func`'s subtree in preorder, each with its depth below
/// `func`.
fn flatten(func: tree_sitter::Node) -> (nodes: Vec<FlatNode>)
    ensures
        nodes@ == walk(func, 0),
        rows_within(func),
{
    let mut nodes: Vec<FlatNode> = Vec::new();
    let mut stack: Vec<(tree_sitter::Node, usize)> = Vec::new();
    stack.push((func, 0));
    assert(stack@.drop_last() =~= Seq::<(tree_sitter::Node, usize)>::empty());
    assert(pending(stack@.drop_last()) == Seq::<FlatNode>::empty());
    assert(nodes@ + pending(stack@) =~= walk(func, 0));
    while stack.len() > 0
        invariant
            nodes@ + pending(stack@) == walk(func, 0),
            forall|k: int| 0 <= k < stack@.len() ==> #[trigger] stack@[k].1 <= nodes@.len(),
            forall|k: int|
                0 <= k < stack@.len() ==> start_row_of(func) <= start_row_of(#[trigger] stack@[k].0)
                    && end_row_of(stack@[k].0) <= end_row_of(func),
            within_rows(nodes@, start_row_of(func), end_row_of(func)),
            forall|j: int| 0 <= j < nodes@.len() ==> #[trigger] nodes@[j].start_row <= nodes@[j].end_row,
        decreases pending(stack@).len(),
    {
        let ghost before = stack@;
        let (node, depth) = stack.pop().unwrap();
        let ghost rest = stack@;
        assert(before.drop_last() =~= rest);
        assert(before.last() == (node, depth));
        assert(pending(before) == walk(node, depth as int) + pending(rest));
        let comment = node_is_extra(node) || str_contains(node_kind(node), "comment");
        let ghost old_nodes = nodes@;
        nodes.push(
            FlatNode { comment, start_row: node_start_row(node), end_row: node_end_row(node), depth },
        );
        let len = nodes.len();
        assert(nodes@ == old_nodes.push(flat_of(node, depth as int)));
        // Children go on the stack last to first, so the first is popped next.
        let count = node_child_count(node);
        let mut c = count;
        while c > 0
            invariant
                c <= count,
                count == child_count_of(node),
                depth < len,
                len == nodes@.len(),
                stack@.len() >= rest.len(),
                forall|k: int| 0 <= k < rest.len() ==> #[trigger] stack@[k] == rest[k],
                forall|k: int| 0 <= k < stack@.len() ==> #[trigger] stack@[k].1 <= len,
                start_row_of(func) <= start_row_of(node) && end_row_of(node) <= end_row_of(func),
                forall|k: int|
                    0 <= k < stack@.len() ==> start_row_of(func) <= start_row_of(#[trigger] stack@[k].0)
                        && end_row_of(stack@[k].0) <= end_row_of(func),
                pending(stack@) == walk_kids(node, depth as int, c as int) + pending(rest),
            decreases c,
        {
            c -= 1;
            let ghost prev = stack@;
            let child = node_child(node, #[verifier::truncate] (c as u32));
            if let Some(ch) = child {
                stack.push((ch, depth + 1));
                assert(stack@.drop_last() =~= prev);
                assert(pending(stack@) == walk(ch, depth + 1) + pending(prev));
                assert(child_of(node, (c as int) as u32) == Some(ch));
                assert(walk_kids(node, depth as int, c as int) == walk(ch, depth + 1) + walk_kids(
                    node,
                    depth as int,
                    c + 1,
                ));
                assert(pending(stack@) =~= walk_kids(node, depth as int, c as int) + pending(rest));
            } else {
                assert(walk_kids(node, depth as int, c as int) == walk_kids(node, depth as int, c + 1));
            }
        }
        assert(walk(node, depth as int) == seq![flat_of(node, depth as int)] + walk_kids(node, depth as int, 0));
        assert(nodes@ + pending(stack@) =~= old_nodes + pending(before));
    }
    assert(pending(stack@) =~= Seq::<FlatNode>::empty());
    assert(nodes@ =~= nodes@ + pending(stack@));
    assert(walk(func, 0) == seq![flat_of(func, 0)] + walk_kids(func, 0, 0));
    assert(nodes@.len() > 0);
    assert(nodes@[0] == flat_of(func, 0));
    assert(nodes@[0].start_row <= nodes@[0].end_row);
    assert(within_rows(walk(func, 0), start_row_of(func), end_row_of(func)));
    nodes
}

/// The line count of the definition node `func` under `mode`: the rows it
/// spans, or the number of rows holding a code token of its subtree.
pub open spec fn lines_of(func: tree_sitter::Node, mode: CountMode) -> int {
    match mode {
        CountMode::Physical => row_span(start_row_of(func), end_row_of(func)) as int,
        CountMode::Logical => code_rows(walk(func, 0)).len() as int,
    }
}

/// Count the lines of a function definition under the chosen `CountMode`:
/// its row span, or the number of its rows that hold a code token.
fn count_lines(func: tree_sitter::Node, mode: CountMode) -> (r: usize)
    ensures
        r == lines_of(func, mode),
        mode == CountMode::Logical ==> rows_within(func),
        mode == CountMode::Logical && end_row_of(func) < usize::MAX ==> r <= lines_of(
            func,
            CountMode::Physical,
        ),
{
    match mode {
        CountMode::Physical => physical_lines(node_start_row(func), node_end_row(func)),
        CountMode::Logical => {
            let nodes = flatten(func);
            proof {
                if end_row_of(func) < usize::MAX {
                    law_logical_at_most_physical_lines(func);
                }
            }
            count_code_rows(&nodes)
        },
    }
}

/// The nodes of `nodes` lie within the rows `s..=e`.
pub open spec fn within_rows(nodes: Seq<FlatNode>, s: usize, e: usize) -> bool {
    forall|j: int| 0 <= j < nodes.len() ==> s <= #[trigger] nodes[j].start_row && nodes[j].end_row <= e
}

/// The rows of definition node `f` are in order and hold every node of its
/// subtree, as in any parse tree.
pub open spec fn rows_within(f: tree_sitter::Node) -> bool {
    &&& start_row_of(f) <= end_row_of(f)
    &&& within_rows(walk(f, 0), start_row_of(f), end_row_of(f))
}

/// `rows_within`, for a definition that does not end on the last row a
/// `usize` can number.
pub open spec fn rows_nest(f: tree_sitter::Node) -> bool {
    &&& rows_within(f)
    &&& end_row_of(f) < usize::MAX
}

/// The logical count of a definition never exceeds its physical count, when
/// its rows are in order and hold every node of its subtree.
pub proof fn law_logical_at_most_physical_lines(func: tree_sitter::Node)
    requires
        rows_nest(func),
    ensures
        lines_of(func, CountMode::Logical) <= lines_of(func, CountMode::Physical),
        lines_of(func, CountMode::Physical) == span_lines(start_row_of(func) as int, end_row_of(func) as int),
{
    let nodes = walk(func, 0);
    assert(nodes[0] == flat_of(func, 0));
    law_logical_at_most_physical(nodes);
    let (s, e) = (start_row_of(func), end_row_of(func));
    assert(vstd::wrapping::usize_specs::wrapping_sub(e, s) == e - s);
    assert(row_span(s, e) == e - s + 1);
}

/// The UTF-8 encoding of `name` is a contiguous run of the bytes `source`.
pub open spec fn is_piece_of(name: Seq<char>, source: Seq<u8>) -> bool {
    exists|a: int, b: int|
        0 <= a <= b <= source.len() && vstd::utf8::encode_utf8(name) == source.subrange(a, b)
}

/// Every record has this path and a name taken from the text `source`.
pub open spec fn records_from(found: Seq<Function>, path: Seq<char>, source: Seq<u8>) -> bool {
    forall|k: int|
        0 <= k < found.len() ==> #[trigger] found[k].path@ == path && is_piece_of(found[k].name@, source)
}

/// The text of the bytes `start..end` of `source`: `None` when the range
/// does not lie within `source` or its bytes are not UTF-8.
pub fn text_in(source: &[u8], start: usize, end: usize) -> (r: Option<&str>)
    ensures
        r is Some <==> start <= end <= source@.len() && vstd::utf8::valid_utf8(
            source@.subrange(start as int, end as int),
        ),
        r matches Some(s) ==> s.spec_bytes() == source@.subrange(start as int, end as int),
{
    if start <= end && end <= source.len() {
        match str_from_utf8(&source[start..end]) {
            Ok(s) => Some(s),
            Err(_) => None,
        }
    } else {
        None
    }
}

/// The text of node `n` in `source`: the bytes of its range, when they lie
/// within `source` and are UTF-8.
pub open spec fn node_text_in(n: tree_sitter::Node, source: Seq<u8>) -> Option<Seq<char>> {
    let (a, b) = (start_byte_of(n) as int, end_byte_of(n) as int);
    if a <= b <= source.len() && vstd::utf8::valid_utf8(source.subrange(a, b)) {
        Some(vstd::utf8::decode_utf8(source.subrange(a, b)))
    } else {
        None
    }
}

/// The record that a match with these captures gives: one when it has a
/// node under `func_ix` and one under `name_ix` whose text is UTF-8; the
/// line count is that of the first, the name the text of the second.
pub open spec fn record_of(
    captures: Seq<(u32, tree_sitter::Node<'static>)>,
    func_ix: u32,
    name_ix: u32,
    path: Seq<char>,
    source: Seq<u8>,
    mode: CountMode,
) -> Option<FunctionView> {
    match (first_capture(captures, func_ix), first_capture(captures, name_ix)) {
        (Some(f), Some(n)) => match node_text_in(n, source) {
            Some(name) => Some(FunctionView { lines: lines_of(f, mode) as usize, name, path }),
            None => None,
        },
        _ => None,
    }
}

/// The records of a sequence of matches, in order.
pub open spec fn records_of(
    ms: Seq<Seq<(u32, tree_sitter::Node<'static>)>>,
    func_ix: u32,
    name_ix: u32,
    path: Seq<char>,
    source: Seq<u8>,
    mode: CountMode,
) -> Seq<FunctionView>
    decreases ms.len(),
{
    if ms.len() == 0 {
        Seq::empty()
    } else {
        let first = match record_of(ms[0], func_ix, name_ix, path, source, mode) {
            Some(v) => seq![v],
            None => Seq::empty(),
        };
        first + records_of(ms.drop_first(), func_ix, name_ix, path, source, mode)
    }
}

/// The records `lang`'s query gives on `tree`, parsed from `source`.
pub open spec fn tree_records(
    lang: &Lang,
    tree: tree_sitter::Tree,
    path: Seq<char>,
    source: Seq<u8>,
    mode: CountMode,
) -> Seq<FunctionView> {
    records_of(matches_of(lang.query, tree), lang.func_capture, lang.name_capture, path, source, mode)
}

/// The functions as plain values.
pub open spec fn function_views(fs: Seq<Function>) -> Seq<FunctionView> {
    fs.map_values(|f: Function| f@)
}

/// The records `a` and `b` are the same functions, in the same order, and
/// each count of `a` is at most the one of `b`.
pub open spec fn paired(a: Seq<FunctionView>, b: Seq<FunctionView>) -> bool {
    &&& a.len() == b.len()
    &&& forall|k: int|
        0 <= k < a.len() ==> #[trigger] a[k].name == b[k].name && a[k].path == b[k].path && a[k].lines
            <= b[k].lines
}

/// A logical and a physical count of the same matches give the same records,
/// in the same order, with the same names and paths; each logical count is at
/// most the physical one wherever the definition's rows hold its subtree.
#[verifier::spinoff_prover]
pub proof fn law_logical_and_physical_pair_up(
    ms: Seq<Seq<(u32, tree_sitter::Node<'static>)>>,
    func_ix: u32,
    name_ix: u32,
    path: Seq<char>,
    source: Seq<u8>,
)
    requires
        forall|k: int|
            0 <= k < ms.len() ==> (#[trigger] first_capture(ms[k], func_ix) matches Some(f) ==> rows_nest(f)),
    ensures
        paired(
            records_of(ms, func_ix, name_ix, path, source, CountMode::Logical),
            records_of(ms, func_ix, name_ix, path, source, CountMode::Physical),
        ),
    decreases ms.len(),
{
    if ms.len() > 0 {
        let rest = ms.drop_first();
        assert forall|k: int| 0 <= k < rest.len() implies (#[trigger] first_capture(rest[k], func_ix) matches Some(
            f,
        ) ==> rows_nest(f)) by {
            assert(rest[k] == ms[k + 1]);
            assert(first_capture(ms[k + 1], func_ix) == first_capture(rest[k], func_ix));
        }
        law_logical_and_physical_pair_up(rest, func_ix, name_ix, path, source);
        assert(first_capture(ms[0], func_ix) == first_capture(ms[0], func_ix));
        if let Some(f) = first_capture(ms[0], func_ix) {
            law_logical_at_most_physical_lines(f);
            let lg = lines_of(f, CountMode::Logical);
            let ph = lines_of(f, CountMode::Physical);
            assert(0 <= lg <= ph <= usize::MAX);
            assert((lg as usize) <= (ph as usize));
        }
        let logical = records_of(ms, func_ix, name_ix, path, source, CountMode::Logical);
        let physical = records_of(ms, func_ix, name_ix, path, source, CountMode::Physical);
        let l_rest = records_of(rest, func_ix, name_ix, path, source, CountMode::Logical);
        let p_rest = records_of(rest, func_ix, name_ix, path, source, CountMode::Physical);
        let l0 = record_of(ms[0], func_ix, name_ix, path, source, CountMode::Logical);
        let p0 = record_of(ms[0], func_ix, name_ix, path, source, CountMode::Physical);
        assert(l0 is Some <==> p0 is Some);
        if l0 is Some {
            let f = first_capture(ms[0], func_ix)->0;
            assert(l0->0.lines == lines_of(f, CountMode::Logical) as usize);
            assert(p0->0.lines == lines_of(f, CountMode::Physical) as usize);
            assert(l0->0.lines <= p0->0.lines);
            assert(l0->0.name == p0->0.name && l0->0.path == p0->0.path);
            assert(logical == seq![l0->0] + l_rest);
            assert(physical == seq![p0->0] + p_rest);
            assert forall|k: int| 0 <= k < logical.len() implies #[trigger] logical[k].name == physical[k].name
                && logical[k].path == physical[k].path && logical[k].lines <= physical[k].lines by {
                if k > 0 {
                    assert(logical[k] == l_rest[k - 1]);
                    assert(physical[k] == p_rest[k - 1]);
                    assert(l_rest[k - 1].name == p_rest[k - 1].name);
                } else {
                    assert(logical[0] == l0->0 && physical[0] == p0->0);
                }
            }
            assert(paired(logical, physical));
        } else {
            assert(logical =~= l_rest);
            assert(physical =~= p_rest);
        }
    } else {
        assert(paired(
            records_of(ms, func_ix, name_ix, path, source, CountMode::Logical),
            records_of(ms, func_ix, name_ix, path, source, CountMode::Physical),
        ));
    }
}

/// Adding a record with the path and a name from the text keeps every record
/// so.
proof fn lemma_records_from_push(found: Seq<Function>, f: Function, path: Seq<char>, source: Seq<u8>)
    requires
        records_from(found, path, source),
        f.path@ == path,
        is_piece_of(f.name@, source),
    ensures
        records_from(found.push(f), path, source),
{
    assert forall|k: int| 0 <= k < found.push(f).len() implies #[trigger] found.push(f)[k].path@ == path
        && is_piece_of(found.push(f)[k].name@, source) by {
        if k < found.len() {
            assert(found.push(f)[k] == found[k]);
            assert(found[k].path@ == path);
        }
    }
}

/// The text of `node` in `source`: `text_in` applied to the node's byte
/// range.
fn node_text<'a>(node: tree_sitter::Node, source: &'a [u8]) -> (r: Option<&'a str>)
    ensures
        r is Some <==> node_text_in(node, source@) is Some,
        r matches Some(s) ==> s@ == node_text_in(node, source@)->0 && is_piece_of(s@, source@),
{
    let r = text_in(source, node_start_byte(node), node_end_byte(node));
    proof {
        if r is Some {
            let s = r->0;
            broadcast use vstd::utf8::encode_utf8_decode_utf8;
            assert(vstd::utf8::decode_utf8(vstd::utf8::encode_utf8(s@)) == s@);
            let (a, b) = (start_byte_of(node) as int, end_byte_of(node) as int);
            assert(vstd::utf8::encode_utf8(s@) == source@.subrange(a, b));
        }
    }
    r
}

/// Run the language's query over a parsed tree and build a `Function` record
/// for each match, in the order the matches come: one for each match that
/// has both captures and a UTF-8 name. Anonymous functions (no `@name`) are
/// never reported.
fn extract(
    tree: &tree_sitter::Tree,
    source: &str,
    lang: &Lang,
    path: &str,
    mode: CountMode,
) -> (found: Vec<Function>)
    requires
        parsed_text(*tree) == source.spec_bytes(),
    ensures
        function_views(found@) == tree_records(lang, *tree, path@, source.spec_bytes(), mode),
        records_from(found@, path@, source.spec_bytes()),
{
    let src = source.as_bytes();
    let ghost text = source.spec_bytes();
    let ghost (fx, nx) = (lang.func_capture, lang.name_capture);
    let mut cursor = new_query_cursor();
    // The run applies the query's text predicates (`#eq?`, `#any-of?`, ...,
    // e.g. Elixir's filter of `def`/`defp` calls by name) as it goes.
    let mut run = query_matches(&mut cursor, &lang.query, tree, src);
    let ghost all = matches_of(lang.query, *tree);
    let mut found: Vec<Function> = Vec::new();
    loop
        invariant_except_break
            src@ == text,
            fx == lang.func_capture,
            nx == lang.name_capture,
            function_views(found@) + records_of(remaining(run), fx, nx, path@, text, mode)
                == records_of(all, fx, nx, path@, text, mode),
            records_from(found@, path@, text),
        ensures
            function_views(found@) == records_of(all, fx, nx, path@, text, mode),
            records_from(found@, path@, text),
        decreases remaining(run).len(),
    {
        let ghost rem = remaining(run);
        let ghost before = found@;
        let m = match next_match(&mut run) {
            Some(m) => m,
            None => {
                assert(function_views(found@) =~= function_views(found@) + records_of(rem, fx, nx, path@, text, mode));
                break;
            },
        };
        let ghost caps = rem[0];
        assert(records_of(rem, fx, nx, path@, text, mode) == (match record_of(caps, fx, nx, path@, text, mode) {
            Some(v) => seq![v],
            None => Seq::<FunctionView>::empty(),
        }) + records_of(rem.drop_first(), fx, nx, path@, text, mode));
        // A match that lacks either capture, or whose name is not UTF-8, gives
        // no record.
        let func = first_node_for_capture(m, lang.func_capture);
        let name = first_node_for_capture(m, lang.name_capture);
        if let (Some(func), Some(name)) = (func, name) {
            if let Some(name_text) = node_text(name, src) {
                let record = Function::new(count_lines(func, mode), name_text, path);
                let ghost rec = record;
                found.push(record);
                assert(rec@ == record_of(caps, fx, nx, path@, text, mode)->0);
                assert(found@ == before.push(rec));
                assert(function_views(found@) =~= function_views(before).push(rec@));
                proof {
                    lemma_records_from_push(before, rec, path@, text);
                }
            }
        }
        assert(records_from(found@, path@, text));
        assert(function_views(found@) + records_of(remaining(run), fx, nx, path@, text, mode)
            =~= function_views(before) + records_of(rem, fx, nx, path@, text, mode));
    }
    found
}

/// `v` is what a scan finds in `source`, the text of the file at `path`,
/// with language `lang`: nothing when the runtime refuses the grammar,
/// otherwise the records of a parse of the text with that grammar.
pub open spec fn source_finds(
    lang: Lang,
    path: Seq<char>,
    source: Seq<u8>,
    mode: CountMode,
    v: Seq<FunctionView>,
) -> bool {
    if abi_supported(lang.language) {
        exists|t: tree_sitter::Tree|
            #[trigger] parsed_text(t) == source && tree_grammar(t) == lang.language && v == tree_records(
                &lang,
                t,
                path,
                source,
                mode,
            )
    } else {
        v.len() == 0
    }
}

/// `v` is what a scan finds in a file with language `lang`: nothing when the
/// file could not be read, otherwise what `source_finds` says of its text.
pub open spec fn file_finds(
    lang: Lang,
    path: Seq<char>,
    source: Option<Seq<u8>>,
    mode: CountMode,
    v: Seq<FunctionView>,
) -> bool {
    match source {
        Some(text) => source_finds(lang, path, text, mode, v),
        None => v.len() == 0,
    }
}

/// The functions defined in `source`, the text of the file at `path`, parsed
/// with `lang`: the records of each query match, in match order. A grammar
/// whose ABI version the tree-sitter runtime does not support yields no
/// functions.
pub fn functions_in_source(lang: &Lang, path: &str, source: &str, mode: CountMode) -> (r: Vec<
    Function,
>)
    ensures
        source_finds(*lang, path@, source.spec_bytes(), mode, function_views(r@)),
        records_from(r@, path@, source.spec_bytes()),
{
    let mut parser = new_parser();
    if set_parser_language(&mut parser, &lang.language).is_err() {
        assert(function_views(Seq::<Function>::empty()) =~= Seq::<FunctionView>::empty());
        return Vec::new();
    }
    match parse_source(&mut parser, source) {
        Some(tree) => {
            let found = extract(&tree, source, lang, path, mode);
            assert(parsed_text(tree) == source.spec_bytes() && tree_grammar(tree) == lang.language
                && function_views(found@) == tree_records(
                lang,
                tree,
                path@,
                source.spec_bytes(),
                mode,
            ));
            found
        },
        None => Vec::new(),
    }
}

/// Parse one file and return its functions. A file without an extension, with
/// an extension no language claims, or whose text could not be read, yields
/// no functions. The one error is a language whose registry query is broken.
pub fn functions_in_file(
    path: &str,
    extension: Option<&str>,
    source: Option<&str>,
    mode: CountMode,
) -> (r: Result<Vec<Function>, LangError>)
    ensures
        extension is None ==> (r matches Ok(v) && v@.len() == 0),
        extension matches Some(e) && lang_of(e@) is None ==> (r matches Ok(v) && v@.len() == 0),
        extension matches Some(e) && lang_of(e@) is Some && source is None ==> (r matches Err(_) || (
        r matches Ok(v) && v@.len() == 0)),
        r matches Ok(v) ==> (v@.len() > 0 ==> (source matches Some(text) && records_from(
            v@,
            path@,
            text.spec_bytes(),
        ))),
        r matches Err(e) ==> extension matches Some(x) && lang_of(x@) matches Some(id) && built(
            Err(e),
            id,
        ),
        r matches Ok(v) ==> (extension matches Some(x) ==> (lang_of(x@) matches Some(id) ==> exists|
            l: Lang,
        |
            #![trigger built(Ok(l), id)]
            built(Ok(l), id) && file_finds(
                l,
                path@,
                match source {
                    Some(t) => Some(t.spec_bytes()),
                    None => None,
                },
                mode,
                function_views(v@),
            ))),
{
    let ext = match extension {
        Some(e) => e,
        None => {
            return Ok(Vec::new());
        },
    };
    let lang = match for_extension(ext) {
        Some(Ok(l)) => l,
        Some(Err(e)) => {
            return Err(e);
        },
        None => {
            return Ok(Vec::new());
        },
    };
    let ghost l = lang;
    let found = match source {
        Some(text) => functions_in_source(&lang, path, text, mode),
        None => Vec::new(),
    };
    assert(built(Ok(l), lang_of(ext@)->0));
    assert(function_views(Seq::<Function>::empty()) =~= Seq::<FunctionView>::empty());
    Ok(found)
}

/// The extension of a file as plain characters.
pub open spec fn ext_view(file: SourceFile) -> Option<Seq<char>> {
    match file.extension {
        Some(e) => Some(e@),
        None => None,
    }
}

/// The file was read and its text holds `name`.
pub open spec fn text_holds(contents: Option<String>, name: Seq<char>) -> bool {
    match contents {
        Some(c) => is_piece_of(name, vstd::utf8::encode_utf8(c@)),
        None => false,
    }
}

/// `f` is a record of one of the first `upto` files that a scan with `filter`
/// looks at: that file has `f`'s path, was read, and its text holds `f`'s name.
pub open spec fn comes_from(files: Seq<SourceFile>, upto: int, filter: &ExtFilter, f: Function) -> bool {
    exists|i: int|
        0 <= i < upto && spec_eligible(ext_view(#[trigger] files[i]), filter) && files[i].path@ == f.path@
            && text_holds(files[i].contents, f.name@)
}

/// The text of a file, if it was read, as bytes.
pub open spec fn text_bytes(file: SourceFile) -> Option<Seq<u8>> {
    match file.contents {
        Some(c) => Some(vstd::utf8::encode_utf8(c@)),
        None => None,
    }
}

/// What a scan finds in one file: nothing in a file it does not look at;
/// otherwise, with the language its extension selects built, what
/// `file_finds` says (nothing for a file that could not be read, the records
/// of a parse of its text for one that was).
pub open spec fn file_part(file: SourceFile, filter: &ExtFilter, mode: CountMode, part: Seq<Function>) -> bool {
    if spec_eligible(ext_view(file), filter) {
        match lang_of(ext_view(file)->0) {
            Some(id) => exists|l: Lang|
                #![trigger built(Ok(l), id)]
                built(Ok(l), id) && file_finds(l, file.path@, text_bytes(file), mode, function_views(part)),
            None => part.len() == 0,
        }
    } else {
        part.len() == 0
    }
}

/// `e` reports that the language of `file`, a file the scan looks at, could
/// not be built.
pub open spec fn fault_of(file: SourceFile, filter: &ExtFilter, e: LangError) -> bool {
    &&& spec_eligible(ext_view(file), filter)
    &&& match ext_view(file) {
        Some(x) => match lang_of(x) {
            Some(id) => built(Err(e), id),
            None => false,
        },
        None => false,
    }
}

/// `v` is a result a scan of `files` may give: one part per file, as
/// `file_part` says, joined in file order.
pub open spec fn scan_admits(files: Seq<SourceFile>, filter: &ExtFilter, mode: CountMode, v: Seq<Function>) -> bool {
    exists|parts: Seq<Seq<Function>>|
        #![trigger parts.flatten()]
        parts.len() == files.len() && v == parts.flatten() && forall|i: int|
            0 <= i < parts.len() ==> file_part(files[i], filter, mode, #[trigger] parts[i])
}

/// Removing an empty part leaves the joined parts unchanged.
proof fn lemma_flatten_remove_empty(parts: Seq<Seq<Function>>, i: int)
    requires
        0 <= i < parts.len(),
        parts[i].len() == 0,
    ensures
        parts.remove(i).flatten() == parts.flatten(),
    decreases i,
{
    if i == 0 {
        assert(parts.remove(0) =~= parts.drop_first());
        assert(parts[0] =~= Seq::<Function>::empty());
        assert(parts.flatten() =~= parts.drop_first().flatten());
    } else {
        let rest = parts.drop_first();
        lemma_flatten_remove_empty(rest, i - 1);
        let removed = parts.remove(i);
        assert(removed.first() == parts[0]);
        assert(removed.drop_first() =~= rest.remove(i - 1));
        assert(removed.flatten() == removed.first() + removed.drop_first().flatten());
    }
}

/// A file that could not be read adds nothing to a scan: whatever a scan of
/// `files` may give, a scan of the same files without that one may give too.
pub proof fn law_unread_file_adds_nothing(
    files: Seq<SourceFile>,
    filter: &ExtFilter,
    mode: CountMode,
    v: Seq<Function>,
    i: int,
)
    requires
        scan_admits(files, filter, mode, v),
        0 <= i < files.len(),
        files[i].contents is None,
    ensures
        scan_admits(files.remove(i), filter, mode, v),
{
    let parts = choose|parts: Seq<Seq<Function>>|
        #![trigger parts.flatten()]
        parts.len() == files.len() && v == parts.flatten() && forall|k: int|
            0 <= k < parts.len() ==> file_part(files[k], filter, mode, #[trigger] parts[k]);
    assert(file_part(files[i], filter, mode, parts[i]));
    assert(parts[i].len() == 0);
    lemma_flatten_remove_empty(parts, i);
    let rest = parts.remove(i);
    let kept = files.remove(i);
    assert forall|k: int| 0 <= k < rest.len() implies file_part(kept[k], filter, mode, #[trigger] rest[k]) by {
        if k < i {
            assert(rest[k] == parts[k] && kept[k] == files[k]);
        } else {
            assert(rest[k] == parts[k + 1] && kept[k] == files[k + 1]);
        }
    }
    assert(rest.len() == kept.len() && v == rest.flatten());
}

/// Find every function in `files` whose extension passes `filter` and selects
/// a supported language. Files are taken in order and each file's functions
/// in the order its query reports them; callers rank the result. Unreadable
/// files and files that fail to parse are skipped silently: a single bad file
/// does not deny a result for the rest. The one error is a language whose
/// registry query is broken.
pub fn scan(files: &Vec<SourceFile>, filter: &ExtFilter, mode: CountMode) -> (r: Result<
    Vec<Function>,
    LangError,
>)
    ensures
        r matches Ok(v) ==> forall|k: int|
            0 <= k < v@.len() ==> comes_from(files@, files@.len() as int, filter, #[trigger] v@[k]),
        (forall|i: int| 0 <= i < files@.len() ==> !spec_eligible(ext_view(#[trigger] files@[i]), filter))
            ==> (r matches Ok(v) && v@.len() == 0),
        r matches Ok(v) ==> scan_admits(files@, filter, mode, v@),
        r matches Err(e) ==> exists|i: int| 0 <= i < files@.len() && fault_of(#[trigger] files@[i], filter, e),
{
    let mut found: Vec<Function> = Vec::new();
    let ghost mut parts: Seq<Seq<Function>> = Seq::empty();
    let mut i: usize = 0;
    while i < files.len()
        invariant
            i <= files@.len(),
            parts.len() == i,
            found@ == parts.flatten_alt(),
            forall|k: int| 0 <= k < i ==> file_part(files@[k], filter, mode, #[trigger] parts[k]),
            forall|k: int|
                0 <= k < found@.len() ==> comes_from(files@, i as int, filter, #[trigger] found@[k]),
            (forall|j: int| 0 <= j < files@.len() ==> !spec_eligible(ext_view(#[trigger] files@[j]), filter))
                ==> found@.len() == 0,
        decreases files@.len() - i,
    {
        let file = &files[i];
        let ext = match &file.extension {
            Some(e) => Some(e.as_str()),
            None => None,
        };
        if eligible(ext, filter) {
            assert(spec_eligible(ext_view(files@[i as int]), filter));
            let source = match &file.contents {
                Some(c) => Some(c.as_str()),
                None => None,
            };
            let mut more = match functions_in_file(file.path.as_str(), ext, source, mode) {
                Ok(v) => v,
                Err(e) => {
                    assert(fault_of(files@[i as int], filter, e));
                    return Err(e);
                },
            };
            let ghost before = found@;
            let ghost added = more@;
            proof {
                if file.contents is Some {
                    assert(source matches Some(t) && t@ == file.contents->0@);
                }
                assert(file_part(files@[i as int], filter, mode, added));
                assert(parts.push(added).drop_last() =~= parts);
                parts = parts.push(added);
            }
            found.append(&mut more);
            assert forall|k: int| 0 <= k < found@.len() implies comes_from(
                files@,
                i + 1,
                filter,
                #[trigger] found@[k],
            ) by {
                if k < before.len() {
                    assert(found@[k] == before[k]);
                    let j = choose|j: int|
                        0 <= j < i && spec_eligible(ext_view(#[trigger] files@[j]), filter)
                            && files@[j].path@ == before[k].path@ && text_holds(files@[j].contents, before[k].name@);
                } else {
                    let m = k - before.len();
                    assert(found@[k] == added[m]);
                    assert(added.len() > 0);
                    let c = file.contents->0;
                    let t = source->0;
                    assert(t@ == c@);
                    assert(records_from(added, file.path@, t.spec_bytes()));
                    assert(t.spec_bytes() == vstd::utf8::encode_utf8(c@));
                    assert(added[m].path@ == file.path@);
                    assert(is_piece_of(added[m].name@, t.spec_bytes()));
                    assert(text_holds(files@[i as int].contents, added[m].name@));
                    assert(spec_eligible(ext_view(files@[i as int]), filter));
                }
            }
        } else {
            assert forall|k: int| 0 <= k < found@.len() implies comes_from(
                files@,
                i + 1,
                filter,
                #[trigger] found@[k],
            ) by {
                let j = choose|j: int|
                    0 <= j < i && spec_eligible(ext_view(#[trigger] files@[j]), filter)
                        && files@[j].path@ == found@[k].path@ && text_holds(files@[j].contents, found@[k].name@);
            }
            proof {
                let empty = Seq::<Function>::empty();
                assert(parts.push(empty).drop_last() =~= parts);
                assert(found@ =~= parts.flatten_alt() + empty);
                parts = parts.push(empty);
            }
        }
        i += 1;
    }
    proof {
        parts.lemma_flatten_and_flatten_alt_are_equivalent();
    }
    Ok(found)
}

} // verus!
