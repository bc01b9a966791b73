//! The table that reports a ranking: one function per line as
//! `<lines> <name> <path>`, the line counts right-aligned in a column sized to
//! the widest count present.

use vstd::prelude::*;
use vstd::string::StringExecFns;
use crate::scan::{Function, FunctionView};

verus! {

/// The character of a decimal digit.
pub open spec fn digit_char(d: int) -> char {
    if d == 0 {
        '0'
    } else if d == 1 {
        '1'
    } else if d == 2 {
        '2'
    } else if d == 3 {
        '3'
    } else if d == 4 {
        '4'
    } else if d == 5 {
        '5'
    } else if d == 6 {
        '6'
    } else if d == 7 {
        '7'
    } else if d == 8 {
        '8'
    } else {
        '9'
    }
}

/// The decimal numeral of `n`, without leading zeros.
pub open spec fn decimal(n: nat) -> Seq<char>
    decreases n,
{
    if n < 10 {
        seq![digit_char(n as int)]
    } else {
        decimal(n / 10).push(digit_char((n % 10) as int))
    }
}

/// `k` spaces.
pub open spec fn spaces(k: int) -> Seq<char> {
    Seq::new(if k > 0 { k as nat } else { 0 }, |i: int| ' ')
}

/// A table row: the line count right-aligned in `width` characters (wider
/// counts are not cut), a space, the name, a space, the path.
pub open spec fn row_text(f: FunctionView, width: int) -> Seq<char> {
    let count = decimal(f.lines as nat);
    spaces(width - count.len()) + count + seq![' '] + f.name + seq![' '] + f.path
}

/// The width of the count column: the length of the widest count, or 0 for no
/// functions.
pub open spec fn fits_column(fs: Seq<FunctionView>, width: int) -> bool {
    &&& forall|i: int| 0 <= i < fs.len() ==> decimal(#[trigger] fs[i].lines as nat).len() <= width
    &&& fs.len() == 0 ==> width == 0
    &&& fs.len() > 0 ==> exists|i: int| 0 <= i < fs.len() && decimal(#[trigger] fs[i].lines as nat).len() == width
}

/// The string of one decimal digit.
fn digit_str(d: usize) -> (r: &'static str)
    requires
        d < 10,
    ensures
        r@ == seq![digit_char(d as int)],
{
    proof {
        reveal_strlit("0");
        reveal_strlit("1");
        reveal_strlit("2");
        reveal_strlit("3");
        reveal_strlit("4");
        reveal_strlit("5");
        reveal_strlit("6");
        reveal_strlit("7");
        reveal_strlit("8");
        reveal_strlit("9");
    }
    if d == 0 {
        "0"
    } else if d == 1 {
        "1"
    } else if d == 2 {
        "2"
    } else if d == 3 {
        "3"
    } else if d == 4 {
        "4"
    } else if d == 5 {
        "5"
    } else if d == 6 {
        "6"
    } else if d == 7 {
        "7"
    } else if d == 8 {
        "8"
    } else {
        "9"
    }
}

/// The decimal numeral of `n`.
pub fn decimal_string(n: usize) -> (r: String)
    ensures
        r@ == decimal(n as nat),
    decreases n,
{
    if n < 10 {
        String::from_str(digit_str(n))
    } else {
        let mut s = decimal_string(n / 10);
        s.append(digit_str(n % 10));
        s
    }
}

/// A numeral is never longer than its number is large (so its length fits a
/// `usize`), and a larger number never has a shorter numeral.
proof fn lemma_decimal_len(n: nat, m: nat)
    ensures
        decimal(n).len() <= n + 1,
        n <= m ==> decimal(n).len() <= decimal(m).len(),
    decreases n + m,
{
    if n >= 10 {
        lemma_decimal_len(n / 10, n / 10);
    }
    if n <= m && m >= 10 {
        if n >= 10 {
            lemma_decimal_len(n / 10, m / 10);
        } else {
            lemma_decimal_len(0, m / 10);
        }
    }
}

/// The width of the count column for `functions`.
pub fn column_width(functions: &Vec<Function>) -> (r: usize)
    ensures
        fits_column(functions@.map_values(|f: Function| f@), r as int),
{
    let ghost fs = functions@.map_values(|f: Function| f@);
    if functions.len() == 0 {
        return 0;
    }
    let mut widest: usize = 0;
    let mut i: usize = 1;
    while i < functions.len()
        invariant
            fs == functions@.map_values(|f: Function| f@),
            0 < functions@.len(),
            widest < i <= functions@.len(),
            forall|k: int| 0 <= k < i ==> functions@[k].lines <= functions@[widest as int].lines,
        decreases functions@.len() - i,
    {
        if functions[i].lines > functions[widest].lines {
            widest = i;
        }
        i += 1;
    }
    let s = decimal_string(functions[widest].lines);
    proof {
        assert forall|k: int| 0 <= k < fs.len() implies decimal(#[trigger] fs[k].lines as nat).len() <= s@.len() by {
            lemma_decimal_len(fs[k].lines as nat, functions@[widest as int].lines as nat);
        }
        assert(decimal(fs[widest as int].lines as nat).len() == s@.len());
    }
    s.unicode_len()
}

/// The table row for `f` with a count column `width` characters wide.
pub fn table_row(f: &Function, width: usize) -> (r: String)
    ensures
        r@ == row_text(f@, width as int),
{
    let count = decimal_string(f.lines);
    let len = count.unicode_len();
    let mut row = String::new();
    let mut k: usize = len;
    while k < width
        invariant
            len == count@.len(),
            len <= k <= width || (k == len && width < len),
            row@ == spaces(k - len),
        decreases width - k,
    {
        row.append(" ");
        assert(row@ =~= spaces(k + 1 - len)) by {
            reveal_strlit(" ");
        }
        k += 1;
    }
    assert(row@ =~= spaces(width - count@.len()));
    row.append(count.as_str());
    row.append(" ");
    row.append(f.name.as_str());
    row.append(" ");
    row.append(f.path.as_str());
    proof {
        reveal_strlit(" ");
    }
    assert(row@ =~= row_text(f@, width as int));
    row
}

/// With the column as wide as the widest count, every row holds its count
/// right-aligned in the first `width` characters and a space right after, so
/// the names of all rows start in the same column.
pub proof fn law_rows_aligned(fs: Seq<FunctionView>, width: int, i: int)
    requires
        fits_column(fs, width),
        0 <= i < fs.len(),
    ensures
        row_text(fs[i], width).subrange(0, width) == spaces(width - decimal(fs[i].lines as nat).len())
            + decimal(fs[i].lines as nat),
        row_text(fs[i], width)[width] == ' ',
{
    let count = decimal(fs[i].lines as nat);
    assert(count.len() <= width);
    let pad = spaces(width - count.len());
    assert(pad.len() + count.len() == width);
    assert(row_text(fs[i], width).subrange(0, width) =~= pad + count);
}

} // verus!
