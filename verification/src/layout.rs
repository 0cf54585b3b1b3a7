//! Grid layouts: reading a layout text such as `2x2` and the capacity of the
//! grid it describes.
//!
//! Reading is lenient. A layout text never fails: a text that cannot be read
//! as two positive numbers falls back to the default grid.

use crate::text::{find_char, parse_number, parse_unsigned, to_chars};
use vstd::prelude::*;

verus! {

/// The dimension of each side of the default grid.
pub const DEFAULT_DIMENSION: u32 = 2;

/// Whether `at` is the position of the only `x` in `s`.
pub open spec fn single_separator(s: Seq<char>, at: int) -> bool {
    &&& 0 <= at < s.len()
    &&& s[at] == 'x'
    &&& forall|j: int| 0 <= j < s.len() && j != at ==> s[j] != 'x'
}

/// The dimension written by `part`, where it is a positive number that fits
/// 32 bits.
pub open spec fn dimension_of(part: Seq<char>) -> Option<u32> {
    match parse_unsigned(part, u32::MAX as nat) {
        Some(n) => if n > 0 {
            Some(n as u32)
        } else {
            None
        },
        None => None,
    }
}

/// The grid that the two sides `left` and `right` of a layout text
/// describe: their dimensions when both can be read, else the default grid.
pub open spec fn grid_of(left: Seq<char>, right: Seq<char>) -> (u32, u32) {
    match (dimension_of(left), dimension_of(right)) {
        (Some(cols), Some(rows)) => (cols, rows),
        _ => (DEFAULT_DIMENSION, DEFAULT_DIMENSION),
    }
}

/// The grid `(columns, rows)` that the layout text `s` describes. A text
/// with exactly one `x` and a positive number that fits 32 bits on each side
/// of it gives these two numbers; any other text gives the default grid,
/// whole.
pub open spec fn layout_of(s: Seq<char>) -> (u32, u32) {
    if exists|at: int| single_separator(s, at) {
        let at = choose|at: int| single_separator(s, at);
        grid_of(s.take(at), s.skip(at + 1))
    } else {
        (DEFAULT_DIMENSION, DEFAULT_DIMENSION)
    }
}

/// The number of cells of a grid of `cols` columns and `rows` rows.
pub open spec fn capacity(cols: u32, rows: u32) -> nat {
    (cols * rows) as nat
}

/// The room of a layout as a number of members: the cells of its grid, held
/// to the greatest length that a list of members can have.
pub open spec fn layout_room(layout: Seq<char>) -> nat {
    let cells = capacity(layout_of(layout).0, layout_of(layout).1);
    if cells <= usize::MAX {
        cells
    } else {
        usize::MAX as nat
    }
}

/// A text whose only `x` stands at `at` reads as the grid of the two sides
/// of that position.
pub proof fn lemma_layout_split(s: Seq<char>, at: int)
    requires
        single_separator(s, at),
    ensures
        layout_of(s) == grid_of(s.take(at), s.skip(at + 1)),
{
    let k = choose|k: int| single_separator(s, k);
    assert(k == at);
}

/// Both dimensions of a layout are positive, whatever the text.
pub proof fn lemma_layout_positive(s: Seq<char>)
    ensures
        layout_of(s).0 > 0,
        layout_of(s).1 > 0,
        capacity(layout_of(s).0, layout_of(s).1) >= 1,
{
    let (cols, rows) = layout_of(s);
    assert(cols >= 1 && rows >= 1);
    assert(cols * rows >= 1) by (nonlinear_arith)
        requires
            cols >= 1,
            rows >= 1,
    ;
}

/// Reads the dimension written by `v[from..to]`.
fn read_dimension(v: &Vec<char>, from: usize, to: usize) -> (d: Option<u32>)
    requires
        from <= to <= v.len(),
    ensures
        d == dimension_of(v@.subrange(from as int, to as int)),
        d is Some ==> d->0 > 0,
{
    match parse_number(v, from, to, 0xFFFF_FFFF) {
        Some(n) => if n > 0 {
            Some(n as u32)
        } else {
            None
        },
        None => None,
    }
}

/// Reads a layout text of the form `<cols>x<rows>` into `(cols, rows)`.
///
/// The result is always a pair of positive numbers. A text that does not
/// hold exactly one `x`, or in which a side is not a positive decimal number
/// that fits 32 bits, reads as `2x2`: the default replaces the whole grid,
/// never one side of it.
pub fn parse_layout(layout: &str) -> (grid: (u32, u32))
    ensures
        grid == layout_of(layout@),
        grid.0 > 0,
        grid.1 > 0,
{
    let v = to_chars(layout);
    let at = find_char(&v, 0, 'x');
    if at >= v.len() {
        assert(forall|k: int| !single_separator(layout@, k));
        return (DEFAULT_DIMENSION, DEFAULT_DIMENSION);
    }
    let next = find_char(&v, at + 1, 'x');
    if next < v.len() {
        assert forall|k: int| !single_separator(layout@, k) by {
            if single_separator(layout@, k) {
                if k == at {
                    assert(layout@[next as int] == 'x');
                } else {
                    assert(layout@[at as int] == 'x');
                }
            }
        }
        return (DEFAULT_DIMENSION, DEFAULT_DIMENSION);
    }
    proof {
        lemma_layout_split(layout@, at as int);
        assert(v@.subrange(0, at as int) =~= layout@.take(at as int));
        assert(v@.subrange(at + 1, v.len() as int) =~= layout@.skip(at + 1));
    }
    match (read_dimension(&v, 0, at), read_dimension(&v, at + 1, v.len())) {
        (Some(cols), Some(rows)) => (cols, rows),
        _ => (DEFAULT_DIMENSION, DEFAULT_DIMENSION),
    }
}

/// The number of sources that the layout `layout` has room for: columns
/// times rows, held to `usize::MAX` where the product does not fit.
pub fn layout_max_cameras(layout: &str) -> (max: usize)
    ensures
        max >= 1,
        max == layout_room(layout@),
{
    let (cols, rows) = parse_layout(layout);
    let cells = grid_cells(cols, rows);
    proof {
        lemma_layout_positive(layout@);
    }
    if cells > usize::MAX as u64 {
        usize::MAX
    } else {
        cells as usize
    }
}

/// The number of cells of a grid, which always fits 64 bits.
pub fn grid_cells(cols: u32, rows: u32) -> (cells: u64)
    ensures
        cells == capacity(cols, rows),
{
    assert(cols * rows <= 0xFFFF_FFFF * 0xFFFF_FFFF) by (nonlinear_arith)
        requires
            cols <= 0xFFFF_FFFF,
            rows <= 0xFFFF_FFFF,
    ;
    let c: u64 = cols as u64;
    let r: u64 = rows as u64;
    c * r
}

/// Whether a composition of `members` sources fits the layout `layout`.
pub fn fits_layout(layout: &str, members: usize) -> (fits: bool)
    ensures
        fits == (members <= capacity(layout_of(layout@).0, layout_of(layout@).1)),
{
    members <= layout_max_cameras(layout)
}

} // verus!
