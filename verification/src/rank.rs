//! Ranking the functions found: longest first, ties broken by name and then by
//! path, for a stable, readable order.

use vstd::prelude::*;
use crate::scan::{function_views, Function, FunctionView};
use crate::text::{lemma_lex_order_antisymmetric, lex_order, str_order};

verus! {

/// The order of two paths under `std::path::Path`'s `Ord` (component by
/// component): -1, 0 or 1.
pub uninterp spec fn path_order(a: Seq<char>, b: Seq<char>) -> i8;

/// `Path::cmp` on two paths given as strings, as -1, 0 or 1. `Ord` for `Path`
/// is a total order, so swapping the operands reverses the result.
#[verifier::external_body]
fn compare_paths(a: &str, b: &str) -> (r: i8)
    ensures
        r == path_order(a@, b@),
        -1 <= r <= 1,
        path_order(b@, a@) == -r,
{
    match std::path::Path::new(a).cmp(std::path::Path::new(b)) {
        std::cmp::Ordering::Less => -1,
        std::cmp::Ordering::Equal => 0,
        std::cmp::Ordering::Greater => 1,
    }
}

/// Where `f` ranks relative to `g`: -1 when `f` comes first (more lines; or as
/// many lines and a smaller name; or both equal and a smaller path), 1 when
/// `g` does, 0 when neither.
pub open spec fn rank_order(f: FunctionView, g: FunctionView) -> int {
    if f.lines > g.lines {
        -1
    } else if f.lines < g.lines {
        1
    } else if lex_order(vstd::utf8::encode_utf8(f.name), vstd::utf8::encode_utf8(g.name)) != 0 {
        lex_order(vstd::utf8::encode_utf8(f.name), vstd::utf8::encode_utf8(g.name))
    } else {
        path_order(f.path, g.path) as int
    }
}

/// Where `f` ranks relative to `g`, as `rank_order` states.
pub fn rank_position(f: &Function, g: &Function) -> (r: i8)
    ensures
        r == rank_order(f@, g@),
        rank_order(g@, f@) == -r,
        -1 <= r <= 1,
{
    if f.lines > g.lines {
        return -1;
    }
    if f.lines < g.lines {
        return 1;
    }
    let by_name = str_order(f.name.as_str(), g.name.as_str());
    proof {
        lemma_lex_order_antisymmetric(
            vstd::utf8::encode_utf8(f.name@),
            vstd::utf8::encode_utf8(g.name@),
        );
    }
    if by_name != 0 {
        return by_name;
    }
    compare_paths(f.path.as_str(), g.path.as_str())
}

/// In a ranking, function `a` may directly precede function `b`: it ranks
/// strictly first, or they tie and `a` came first in the input (the order
/// is stable).
pub open spec fn may_precede(fs: Seq<FunctionView>, a: int, b: int) -> bool {
    ||| rank_order(fs[a], fs[b]) == -1
    ||| (rank_order(fs[a], fs[b]) == 0 && a < b)
}

/// Each index of `order` may directly precede the next.
pub open spec fn ordered(fs: Seq<FunctionView>, order: Seq<usize>) -> bool {
    forall|k: int| 0 <= k < order.len() - 1 ==> #[trigger] may_precede(fs, order[k] as int, order[k + 1] as int)
}

/// `order` lists exactly the indices `lo..hi`, each once.
pub open spec fn covers(order: Seq<usize>, lo: int, hi: int) -> bool {
    &&& order.len() == hi - lo
    &&& forall|k: int| 0 <= k < order.len() ==> lo <= #[trigger] order[k] < hi
    &&& forall|t: usize| lo <= t < hi ==> #[trigger] order.contains(t)
}

/// `order` ranks the functions `fs`: a stable sort of their indices, longest
/// first, ties broken by name and then by path.
pub open spec fn is_ranking(fs: Seq<FunctionView>, order: Seq<usize>) -> bool {
    covers(order, 0, fs.len() as int) && ordered(fs, order)
}

/// Pushing `x` adds exactly `x` to what a sequence contains.
proof fn lemma_push_contains(s: Seq<usize>, x: usize, t: usize)
    ensures
        s.push(x).contains(t) <==> (s.contains(t) || t == x),
{
    if s.push(x).contains(t) && t != x {
        let k = choose|k: int| 0 <= k < s.push(x).len() && s.push(x)[k] == t;
        assert(s[k] == t);
    }
    if s.contains(t) {
        let k = choose|k: int| 0 <= k < s.len() && s[k] == t;
        assert(s.push(x)[k] == t);
    }
    assert(s.push(x)[s.len() as int] == x);
}

/// Merges two ranked runs of indices, every index of `left` below every index
/// of `right`.
fn merge(funcs: &Vec<Function>, left: Vec<usize>, right: Vec<usize>) -> (out: Vec<usize>)
    requires
        ordered(function_views(funcs@), left@),
        ordered(function_views(funcs@), right@),
        forall|k: int| 0 <= k < left@.len() ==> #[trigger] left@[k] < funcs@.len(),
        forall|k: int| 0 <= k < right@.len() ==> #[trigger] right@[k] < funcs@.len(),
        forall|a: int, b: int| 0 <= a < left@.len() && 0 <= b < right@.len() ==> left@[a] < right@[b],
    ensures
        out@.len() == left@.len() + right@.len(),
        ordered(function_views(funcs@), out@),
        forall|t: usize| out@.contains(t) <==> (left@.contains(t) || right@.contains(t)),
        forall|k: int| 0 <= k < out@.len() ==> #[trigger] out@[k] < funcs@.len(),
{
    let ghost fs = function_views(funcs@);
    let mut out: Vec<usize> = Vec::new();
    let mut i: usize = 0;
    let mut j: usize = 0;
    while i < left.len() || j < right.len()
        invariant
            fs == function_views(funcs@),
            ordered(fs, left@),
            ordered(fs, right@),
            forall|k: int| 0 <= k < left@.len() ==> #[trigger] left@[k] < funcs@.len(),
            forall|k: int| 0 <= k < right@.len() ==> #[trigger] right@[k] < funcs@.len(),
            forall|a: int, b: int| 0 <= a < left@.len() && 0 <= b < right@.len() ==> left@[a] < right@[b],
            i <= left@.len(),
            j <= right@.len(),
            out@.len() == i + j,
            ordered(fs, out@),
            forall|k: int| 0 <= k < out@.len() ==> #[trigger] out@[k] < funcs@.len(),
            forall|t: usize| out@.contains(t) <==> (left@.subrange(0, i as int).contains(t) || right@.subrange(0, j as int).contains(t)),
            out@.len() > 0 && i < left@.len() ==> may_precede(fs, out@.last() as int, left@[i as int] as int),
            out@.len() > 0 && j < right@.len() ==> may_precede(fs, out@.last() as int, right@[j as int] as int),
        decreases left@.len() + right@.len() - i - j,
    {
        let take_left = if i < left.len() && j < right.len() {
            rank_position(&funcs[left[i]], &funcs[right[j]]) != 1
        } else {
            i < left.len()
        };
        let ghost before = out@;
        let x = if take_left { left[i] } else { right[j] };
        if take_left {
            if j < right.len() {
                assert(may_precede(fs, left@[i as int] as int, right@[j as int] as int));
            }
            if i + 1 < left.len() {
                assert(may_precede(fs, left@[i as int] as int, left@[i + 1] as int));
            }
        } else {
            if i < left.len() {
                assert(funcs@[left@[i as int] as int]@ == fs[left@[i as int] as int]);
                assert(may_precede(fs, right@[j as int] as int, left@[i as int] as int));
            }
            if j + 1 < right.len() {
                assert(may_precede(fs, right@[j as int] as int, right@[j + 1] as int));
            }
        }
        out.push(x);
        assert(out@.last() == x);
        assert forall|k: int| 0 <= k < out@.len() - 1 implies #[trigger] may_precede(fs, out@[k] as int, out@[k + 1] as int) by {
            if k < out@.len() - 2 {
                assert(out@[k] == before[k] && out@[k + 1] == before[k + 1]);
                assert(may_precede(fs, before[k] as int, before[k + 1] as int));
            } else {
                assert(out@[k] == before.last());
            }
        }
        let ghost l_old = left@.subrange(0, i as int);
        let ghost r_old = right@.subrange(0, j as int);
        if take_left {
            assert(left@.subrange(0, i + 1) =~= l_old.push(x));
            i += 1;
        } else {
            assert(right@.subrange(0, j + 1) =~= r_old.push(x));
            j += 1;
        }
        assert forall|t: usize| out@.contains(t) <==> (left@.subrange(0, i as int).contains(t) || right@.subrange(0, j as int).contains(t)) by {
            lemma_push_contains(before, x, t);
            lemma_push_contains(l_old, x, t);
            lemma_push_contains(r_old, x, t);
        }
    }
    assert(left@.subrange(0, i as int) =~= left@);
    assert(right@.subrange(0, j as int) =~= right@);
    out
}

/// The indices `lo..hi` of `funcs`, ranked.
fn sort_range(funcs: &Vec<Function>, lo: usize, hi: usize) -> (out: Vec<usize>)
    requires
        lo <= hi <= funcs@.len(),
    ensures
        covers(out@, lo as int, hi as int),
        ordered(function_views(funcs@), out@),
    decreases hi - lo,
{
    if hi - lo <= 1 {
        let mut out: Vec<usize> = Vec::new();
        if hi - lo == 1 {
            out.push(lo);
            assert(out@[0] == lo);
        }
        return out;
    }
    let mid = lo + (hi - lo) / 2;
    let left = sort_range(funcs, lo, mid);
    let right = sort_range(funcs, mid, hi);
    let out = merge(funcs, left, right);
    assert forall|t: usize| lo <= t < hi implies #[trigger] out@.contains(t) by {
        if t < mid {
            assert(left@.contains(t));
        } else {
            assert(right@.contains(t));
        }
    }
    assert forall|k: int| 0 <= k < out@.len() implies lo <= #[trigger] out@[k] < hi by {
        assert(out@.contains(out@[k]));
        if left@.contains(out@[k]) {
            let a = choose|a: int| 0 <= a < left@.len() && left@[a] == out@[k];
        } else {
            let b = choose|b: int| 0 <= b < right@.len() && right@[b] == out@[k];
        }
    }
    out
}

/// The smaller of two integers.
pub open spec fn min(a: int, b: int) -> int {
    if a <= b {
        a
    } else {
        b
    }
}

/// `shown` is what ranking `fs` and keeping the first `n` gives.
pub open spec fn shows(fs: Seq<FunctionView>, shown: Seq<FunctionView>, n: int) -> bool {
    exists|order: Seq<usize>|
        #[trigger] is_ranking(fs, order) && shown.len() == min(n, fs.len() as int) && forall|k: int|
            0 <= k < shown.len() ==> #[trigger] shown[k] == fs[order[k] as int]
}

/// Along a ranking, line counts never increase.
pub proof fn lemma_ranking_lines(fs: Seq<FunctionView>, order: Seq<usize>, a: int, b: int)
    requires
        ordered(fs, order),
        forall|k: int| 0 <= k < order.len() ==> #[trigger] order[k] < fs.len(),
        0 <= a <= b < order.len(),
    ensures
        fs[order[a] as int].lines >= fs[order[b] as int].lines,
    decreases b - a,
{
    if a < b {
        lemma_ranking_lines(fs, order, a, b - 1);
        let k = b - 1;
        assert(may_precede(fs, order[k] as int, order[k + 1] as int));
    }
}

/// Rank `functions` (longest first; ties broken by name, then by path, then
/// by input order) and keep the first `n`.
pub fn rank(functions: &Vec<Function>, n: usize) -> (shown: Vec<Function>)
    ensures
        shows(function_views(functions@), function_views(shown@), n as int),
        forall|a: int, b: int| 0 <= a <= b < shown@.len() ==> shown@[a].lines >= shown@[b].lines,
        forall|k: int| 0 <= k < shown@.len() - 1 ==> rank_order(#[trigger] shown@[k]@, shown@[k + 1]@) <= 0,
{
    let ghost fs = function_views(functions@);
    let order = sort_range(functions, 0, functions.len());
    let keep = if n < functions.len() { n } else { functions.len() };
    let mut shown: Vec<Function> = Vec::new();
    let mut k: usize = 0;
    while k < keep
        invariant
            fs == function_views(functions@),
            is_ranking(fs, order@),
            keep <= order@.len(),
            k <= keep,
            shown@.len() == k,
            forall|m: int| 0 <= m < k ==> #[trigger] shown@[m]@ == fs[order@[m] as int],
        decreases keep - k,
    {
        let f = &functions[order[k]];
        shown.push(Function::new(f.lines, f.name.as_str(), f.path.as_str()));
        k += 1;
    }
    assert forall|m: int| 0 <= m < shown@.len() implies #[trigger] function_views(shown@)[m] == fs[order@[m] as int] by {}
    assert(is_ranking(fs, order@));
    assert forall|a: int, b: int| 0 <= a <= b < shown@.len() implies shown@[a].lines >= shown@[b].lines by {
        lemma_ranking_lines(fs, order@, a, b);
        assert(shown@[a]@ == fs[order@[a] as int]);
        assert(shown@[b]@ == fs[order@[b] as int]);
    }
    assert forall|m: int| 0 <= m < shown@.len() - 1 implies rank_order(#[trigger] shown@[m]@, shown@[m + 1]@) <= 0 by {
        assert(may_precede(fs, order@[m] as int, order@[m + 1] as int));
        assert(shown@[m]@ == fs[order@[m] as int]);
        assert(shown@[m + 1]@ == fs[order@[m + 1] as int]);
    }
    shown
}

/// Ranking keeps the longest functions: a function with more lines than some
/// shown function is itself shown.
pub proof fn law_longest_are_shown(fs: Seq<FunctionView>, shown: Seq<FunctionView>, n: int)
    requires
        shows(fs, shown, n),
        fs.len() <= usize::MAX,
    ensures
        forall|i: int, k: int|
            0 <= i < fs.len() && 0 <= k < shown.len() && #[trigger] fs[i].lines > #[trigger] shown[k].lines
                ==> exists|m: int| 0 <= m < shown.len() && shown[m] == fs[i],
{
    let order = choose|order: Seq<usize>|
        #[trigger] is_ranking(fs, order) && shown.len() == min(n, fs.len() as int) && forall|k: int|
            0 <= k < shown.len() ==> #[trigger] shown[k] == fs[order[k] as int];
    assert forall|i: int, k: int|
        0 <= i < fs.len() && 0 <= k < shown.len() && #[trigger] fs[i].lines > #[trigger] shown[k].lines
        implies exists|m: int| 0 <= m < shown.len() && shown[m] == fs[i] by {
        let t = i as usize;
        assert(order.contains(t));
        let p = choose|p: int| 0 <= p < order.len() && order[p] == t;
        if p >= shown.len() {
            lemma_ranking_lines(fs, order, k, p);
            assert(shown[k] == fs[order[k] as int]);
        } else {
            assert(shown[p] == fs[order[p] as int]);
            assert(shown[p] == fs[i]);
        }
    }
}


/// The byte string `a` comes before `b` in dictionary order: it is a proper
/// prefix of `b`, or at the first position where the two differ its byte is
/// the smaller.
pub open spec fn bytes_before(a: Seq<u8>, b: Seq<u8>) -> bool {
    ||| (a.len() < b.len() && a == b.subrange(0, a.len() as int))
    ||| exists|k: int|
        0 <= k < a.len() && k < b.len() && #[trigger] a.subrange(0, k) == b.subrange(0, k) && a[k] < b[k]
}

/// `lex_order` puts a byte string before every string it comes before in
/// dictionary order.
proof fn lemma_bytes_before_lex(a: Seq<u8>, b: Seq<u8>)
    requires
        bytes_before(a, b),
    ensures
        lex_order(a, b) == -1,
    decreases a.len(),
{
    if a.len() < b.len() && a == b.subrange(0, a.len() as int) {
        if a.len() > 0 {
            assert(a[0] == b[0]);
            let (a1, b1) = (a.drop_first(), b.drop_first());
            assert(a1 =~= b1.subrange(0, a1.len() as int));
            lemma_bytes_before_lex(a1, b1);
        }
    } else {
        let k = choose|k: int|
            0 <= k < a.len() && k < b.len() && #[trigger] a.subrange(0, k) == b.subrange(0, k) && a[k] < b[k];
        if k > 0 {
            assert(a.subrange(0, k)[0] == b.subrange(0, k)[0]);
            assert(a[0] == b[0]);
            let (a1, b1) = (a.drop_first(), b.drop_first());
            assert(a1.subrange(0, k - 1) =~= a.subrange(0, k).drop_first());
            assert(b1.subrange(0, k - 1) =~= b.subrange(0, k).drop_first());
            assert(a1[k - 1] == a[k] && b1[k - 1] == b[k]);
            lemma_bytes_before_lex(a1, b1);
        }
    }
}

/// Longest first, then by name: of two functions, the one with more lines
/// ranks first; with as many lines, the one whose name comes before the other
/// in dictionary order (by bytes, a proper prefix first) ranks first.
pub proof fn law_longer_then_name_first(f: FunctionView, g: FunctionView)
    ensures
        f.lines > g.lines ==> rank_order(f, g) == -1 && rank_order(g, f) == 1,
        f.lines == g.lines && bytes_before(vstd::utf8::encode_utf8(f.name), vstd::utf8::encode_utf8(g.name))
            ==> rank_order(f, g) == -1 && rank_order(g, f) == 1,
        f.lines == g.lines && f.name == g.name ==> rank_order(f, g) == path_order(f.path, g.path),
{
    let (a, b) = (vstd::utf8::encode_utf8(f.name), vstd::utf8::encode_utf8(g.name));
    if bytes_before(a, b) {
        lemma_bytes_before_lex(a, b);
        lemma_lex_order_antisymmetric(a, b);
    }
    lemma_lex_order_antisymmetric(a, a);
}

/// In a ranking, a function never follows one with fewer lines, and between
/// two neighbours with as many lines, the second's name never comes before
/// the first's in dictionary order.
pub proof fn law_ranking_breaks_ties_by_name(shown: Seq<FunctionView>, k: int)
    requires
        forall|m: int| 0 <= m < shown.len() - 1 ==> rank_order(#[trigger] shown[m], shown[m + 1]) <= 0,
        0 <= k < shown.len() - 1,
    ensures
        shown[k].lines >= shown[k + 1].lines,
        shown[k].lines == shown[k + 1].lines ==> !bytes_before(
            vstd::utf8::encode_utf8(shown[k + 1].name),
            vstd::utf8::encode_utf8(shown[k].name),
        ),
{
    assert(rank_order(shown[k], shown[k + 1]) <= 0);
    law_longer_then_name_first(shown[k + 1], shown[k]);
}

} // verus!
