//! The two ways a function's lines are counted.
//!
//! Physical counting is the row span of the definition. Logical counting reports
//! how many of those rows carry code: a row counts if it holds any token that is
//! not a comment, so blank rows and comment-only rows drop out while brace-only
//! rows remain (the common `cloc`-style definition).
//!
//! For the logical count the definition's syntax subtree is read into a
//! `FlatNode` sequence: its nodes in preorder, each with its depth below the
//! definition. A node's subtree is the run of deeper nodes that follows it.

use vstd::prelude::*;
use std::collections::HashSet;

verus! {

broadcast use vstd::std_specs::hash::group_hash_axioms;

/// The rows a definition spans, first and last row included.
pub open spec fn span_lines(start_row: int, end_row: int) -> int {
    end_row - start_row + 1
}

/// `end_row - start_row + 1` in `usize` arithmetic that wraps, as unchecked
/// arithmetic would: the row span, for rows in order.
pub open spec fn row_span(start_row: usize, end_row: usize) -> usize {
    vstd::wrapping::usize_specs::wrapping_add(vstd::wrapping::usize_specs::wrapping_sub(end_row, start_row), 1)
}

/// The physical line count of a definition from its first and last row. A
/// one-line definition counts as 1. Rows out of order (which a parse tree
/// never has) give the wrapped difference, as unchecked arithmetic would.
pub fn physical_lines(start_row: usize, end_row: usize) -> (r: usize)
    ensures
        r == row_span(start_row, end_row),
        start_row <= end_row < usize::MAX ==> r == span_lines(start_row as int, end_row as int),
{
    end_row.wrapping_sub(start_row).wrapping_add(1)
}

/// A definition on a single row counts as one line.
pub proof fn law_one_line_counts_one(row: usize)
    ensures
        span_lines(row as int, row as int) == 1,
{
}

/// One node of a definition's syntax subtree.
pub struct FlatNode {
    /// Whether the node is a comment: an extra of its grammar (most comments
    /// are), or a node whose type name contains "comment". Such a node and
    /// its whole subtree carry no code.
    pub comment: bool,
    pub start_row: usize,
    pub end_row: usize,
    /// Depth below the definition node, which has depth 0.
    pub depth: usize,
}

/// The node is a comment.
pub open spec fn is_comment(n: FlatNode) -> bool {
    n.comment
}

/// Node `k` is an ancestor of node `j`: `j` lies in the run of deeper nodes
/// that follows `k`.
pub open spec fn is_ancestor(nodes: Seq<FlatNode>, k: int, j: int) -> bool {
    &&& 0 <= k < j < nodes.len()
    &&& forall|m: int| k < m <= j ==> #[trigger] nodes[m].depth > nodes[k].depth
}

/// Node `j` has no children: no deeper node follows it directly.
pub open spec fn is_leaf(nodes: Seq<FlatNode>, j: int) -> bool {
    !(j + 1 < nodes.len() && nodes[j + 1].depth > nodes[j].depth)
}

/// Node `j` is a code token: a leaf that is not a comment and lies in no
/// comment's subtree.
pub open spec fn is_code_token(nodes: Seq<FlatNode>, j: int) -> bool {
    &&& 0 <= j < nodes.len()
    &&& is_leaf(nodes, j)
    &&& !is_comment(nodes[j])
    &&& forall|k: int| #[trigger] is_ancestor(nodes, k, j) ==> !is_comment(nodes[k])
}

/// Row `r` holds part of a code token among the first `upto` nodes.
pub open spec fn code_row_before(nodes: Seq<FlatNode>, upto: int, r: int) -> bool {
    exists|j: int|
        0 <= j < upto && #[trigger] is_code_token(nodes, j) && nodes[j].start_row <= r
            <= nodes[j].end_row
}

/// The rows that hold part of some code token.
pub open spec fn code_rows(nodes: Seq<FlatNode>) -> Set<usize> {
    Set::new(|r: usize| code_row_before(nodes, nodes.len() as int, r as int))
}

/// A code token marks every row it occupies, from its first row to its last,
/// as a row holding code.
pub proof fn law_code_token_marks_every_row(nodes: Seq<FlatNode>, j: int, r: usize)
    requires
        is_code_token(nodes, j),
        nodes[j].start_row <= r <= nodes[j].end_row,
    ensures
        code_rows(nodes).contains(r),
{
    assert(code_row_before(nodes, nodes.len() as int, r as int));
}

/// The comment nodes before `i` whose subtrees are still open at `i`.
pub open spec fn open_comment(nodes: Seq<FlatNode>, k: int, i: int) -> bool {
    &&& 0 <= k < i
    &&& is_comment(nodes[k])
    &&& forall|m: int| k < m < i ==> #[trigger] nodes[m].depth > nodes[k].depth
}

/// What the scan knows of the comment subtrees open at position `i`: none, or
/// the outermost of them, at depth `d`.
pub open spec fn skip_state(nodes: Seq<FlatNode>, i: int, skip: Option<usize>) -> bool {
    match skip {
        None => forall|k: int| !#[trigger] open_comment(nodes, k, i),
        Some(d) => {
            &&& exists|k: int| #[trigger] open_comment(nodes, k, i) && nodes[k].depth == d
            &&& forall|k: int| #[trigger] open_comment(nodes, k, i) ==> nodes[k].depth >= d
        },
    }
}

/// The logical line count: how many distinct rows hold a code token.
pub fn count_code_rows(nodes: &Vec<FlatNode>) -> (r: usize)
    ensures
        r == code_rows(nodes@).len(),
{
    let n = nodes.len();
    let mut rows: HashSet<usize> = HashSet::new();
    let mut skip: Option<usize> = None;
    let mut i: usize = 0;
    while i < n
        invariant
            n == nodes@.len(),
            i <= n,
            skip_state(nodes@, i as int, skip),
            forall|r: usize| #[trigger] rows@.contains(r) <==> code_row_before(nodes@, i as int, r as int),
        decreases n - i,
    {
        let node = &nodes[i];
        let ghost g = nodes@;
        let ghost ii = i as int;
        let inside = match skip {
            Some(d) => node.depth > d,
            None => false,
        };
        // Whether node i lies in a comment's subtree.
        assert(inside <==> exists|k: int| #[trigger] is_ancestor(g, k, ii) && is_comment(g[k])) by {
            if inside {
                let d = skip->0;
                let k = choose|k: int| #[trigger] open_comment(g, k, ii) && g[k].depth == d;
                assert(is_ancestor(g, k, ii));
            } else {
                assert forall|k: int| #[trigger] is_ancestor(g, k, ii) implies !is_comment(g[k]) by {
                    if is_comment(g[k]) {
                        assert(open_comment(g, k, ii));
                    }
                }
            }
        }
        if inside {
            // Still within the outermost open comment subtree.
            assert(!is_code_token(g, ii));
            assert forall|k: int| #[trigger] open_comment(g, k, ii + 1) implies g[k].depth >= skip->0 by {
                if k < ii {
                    assert(open_comment(g, k, ii));
                }
            }
            let ghost d = skip->0;
            let ghost w = choose|k: int| #[trigger] open_comment(g, k, ii) && g[k].depth == d;
            assert(open_comment(g, w, ii + 1));
        } else {
            let comment = node.comment;
            assert forall|k: int| k < ii implies !#[trigger] open_comment(g, k, ii + 1) by {
                if open_comment(g, k, ii + 1) {
                    assert(open_comment(g, k, ii));
                    assert(g[ii].depth > g[k].depth);
                }
            }
            if comment {
                skip = Some(node.depth);
                assert(open_comment(g, ii, ii + 1));
                assert(!is_code_token(g, ii));
            } else {
                skip = None;
                let leaf = i + 1 == n || nodes[i + 1].depth <= node.depth;
                if leaf {
                    assert(is_code_token(g, ii));
                    let start = node.start_row;
                    let end = node.end_row;
                    if start <= end {
                        let mut r = start;
                        while r < end
                            invariant
                                start <= r <= end,
                                start == g[ii].start_row,
                                end == g[ii].end_row,
                                is_code_token(g, ii),
                                forall|q: usize| #[trigger] rows@.contains(q) <==> (code_row_before(g, ii, q as int) || (start <= q < r)),
                            decreases end - r,
                        {
                            rows.insert(r);
                            r += 1;
                        }
                        rows.insert(end);
                    }
                    assert forall|q: usize| #[trigger] rows@.contains(q) <==> code_row_before(g, ii + 1, q as int) by {
                        if code_row_before(g, ii + 1, q as int) && !code_row_before(g, ii, q as int) {
                            let j = choose|j: int|
                                0 <= j < ii + 1 && #[trigger] is_code_token(g, j) && g[j].start_row <= q <= g[j].end_row;
                            assert(j == ii);
                        }
                    }
                } else {
                    assert(!is_code_token(g, ii));
                }
            }
        }
        assert forall|q: usize| #[trigger] rows@.contains(q) <==> code_row_before(g, ii + 1, q as int) by {
            if code_row_before(g, ii + 1, q as int) && !code_row_before(g, ii, q as int) {
                let j = choose|j: int|
                    0 <= j < ii + 1 && #[trigger] is_code_token(g, j) && g[j].start_row <= q <= g[j].end_row;
                assert(j == ii);
            }
        }
        i += 1;
    }
    assert(rows@ =~= code_rows(nodes@));
    rows.len()
}

/// The rows from `s` through `e`, as a set of `usize`.
pub open spec fn row_range(s: usize, e: usize) -> Set<usize> {
    Set::new(|r: usize| s <= r <= e)
}

/// A range of rows is finite and holds `e - s + 1` rows.
pub proof fn lemma_row_range_len(s: usize, e: usize)
    requires
        s <= e,
    ensures
        row_range(s, e).finite(),
        row_range(s, e).len() <= span_lines(s as int, e as int),
{
    let ints = vstd::set_lib::set_int_range(s as int, e + 1);
    vstd::set_lib::lemma_int_range(s as int, e + 1);
    let f = |i: int| i as usize;
    assert(ints.map(f) =~= row_range(s, e)) by {
        assert forall|r: usize| row_range(s, e).contains(r) implies ints.map(f).contains(r) by {
            assert(ints.contains(r as int));
            assert(f(r as int) == r);
        }
    }
    vstd::set_lib::lemma_map_size_bound(ints, row_range(s, e), f);
}

/// The logical count of a definition never exceeds its physical count: when
/// every node of the subtree lies within the rows of the definition node (as
/// in any parse tree), the rows that hold code are at most the rows spanned.
pub proof fn law_logical_at_most_physical(nodes: Seq<FlatNode>)
    requires
        nodes.len() > 0,
        nodes[0].start_row <= nodes[0].end_row,
        forall|j: int|
            0 <= j < nodes.len() ==> nodes[0].start_row <= #[trigger] nodes[j].start_row
                && nodes[j].end_row <= nodes[0].end_row,
    ensures
        code_rows(nodes).finite(),
        code_rows(nodes).len() <= span_lines(nodes[0].start_row as int, nodes[0].end_row as int),
{
    let (s, e) = (nodes[0].start_row, nodes[0].end_row);
    lemma_row_range_len(s, e);
    assert forall|r: usize| code_rows(nodes).contains(r) implies row_range(s, e).contains(r) by {
        let j = choose|j: int|
            0 <= j < nodes.len() && #[trigger] is_code_token(nodes, j) && nodes[j].start_row <= r
                <= nodes[j].end_row;
    }
    vstd::set_lib::lemma_len_subset(code_rows(nodes), row_range(s, e));
}

} // verus!
