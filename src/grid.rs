use vstd::prelude::*;

use crate::tables::{alignment_center, alignment_count, format_word, version_word};

verus! {

/// One cell of a symbol: its colour (`true` is dark) and whether it is reserved
/// for a function pattern, which the data walk never writes.
#[derive(Clone, Copy, PartialEq, Eq, Structural, Debug)]
pub struct Module {
    pub value: bool,
    pub functional: bool,
}

/// Side length of a symbol of a version.
pub open spec fn side(version: int) -> int {
    17 + 4 * version
}

/// A reserved module of the given colour.
pub open spec fn reserved(value: bool) -> Module {
    Module { value, functional: true }
}

/// Whether `(x, y)` lies in the rectangle with corner `(x0, y0)`, width `w` and height `h`.
pub open spec fn in_rect(x0: int, y0: int, w: int, h: int, x: int, y: int) -> bool {
    x0 <= x < x0 + w && y0 <= y < y0 + h
}

/// The 7x7 finder pattern: a dark ring, a light ring and a dark 3x3 core.
pub open spec fn finder_value(dx: int, dy: int) -> bool {
    dx == 0 || dx == 6 || dy == 0 || dy == 6 || (2 <= dx <= 4 && 2 <= dy <= 4)
}

/// The 5x5 alignment pattern: a dark ring, a light ring and a dark centre.
pub open spec fn alignment_value(dx: int, dy: int) -> bool {
    dx == 0 || dx == 4 || dy == 0 || dy == 4 || (dx == 2 && dy == 2)
}

/// Bit `i` of a word, counted from the least significant.
pub open spec fn word_bit(word: u32, i: int) -> bool {
    (word >> (i as u32)) & 1u32 == 1u32
}

/// The corner of the finder pattern that holds `(x, y)`, if any: top-left,
/// top-right or bottom-left.
pub open spec fn finder_corner(s: int, x: int, y: int) -> Option<(int, int)> {
    if in_rect(0, 0, 7, 7, x, y) {
        Some((0, 0))
    } else if in_rect(s - 7, 0, 7, 7, x, y) {
        Some((s - 7, 0))
    } else if in_rect(0, s - 7, 7, 7, x, y) {
        Some((0, s - 7))
    } else {
        None
    }
}

/// The light separators along the inner sides of the three finder patterns.
pub open spec fn separator_cell(s: int, x: int, y: int) -> bool {
    ||| (x == 7 && 0 <= y < 8)
    ||| (y == 7 && 0 <= x < 7)
    ||| (x == s - 8 && 0 <= y < 8)
    ||| (y == 7 && s - 7 <= x < s)
    ||| (x == 7 && s - 8 <= y < s)
    ||| (y == s - 8 && 0 <= x < 7)
}

/// Index of an alignment centre coordinate, among the first `n` of a version,
/// within distance 2 of `a` (the last such), or -1.
pub open spec fn near_center(version: int, a: int, n: int) -> int
    decreases n,
{
    if n <= 0 {
        -1
    } else if alignment_center(version, n - 1) - 2 <= a <= alignment_center(version, n - 1) + 2 {
        n - 1
    } else {
        near_center(version, a, n - 1)
    }
}

/// Index of the alignment centre coordinate within distance 2 of `a`, or -1.
pub open spec fn alignment_index(version: int, a: int) -> int {
    near_center(version, a, alignment_count(version))
}

/// The timing patterns on row 6 and column 6, between the separators.
pub open spec fn timing_cell(s: int, x: int, y: int) -> bool {
    (y == 6 && 8 <= x <= s - 9) || (x == 6 && 8 <= y <= s - 9)
}

/// Colour of a timing module: dark where the coordinate along the pattern is even.
pub open spec fn timing_value(x: int, y: int) -> bool {
    if y == 6 {
        x % 2 == 0
    } else {
        y % 2 == 0
    }
}

/// The dark module beside the bottom-left finder.
pub open spec fn dark_cell(version: int, x: int, y: int) -> bool {
    x == 8 && y == 4 * version + 9
}

/// Which of the 15 format bits (counted from the most significant) a module
/// holds, or -1. The first copy runs along row 8 and up column 8 around the
/// top-left finder, skipping the timing patterns; the second runs up column 8
/// below the top-left corner of the bottom-left finder, then along row 8 to the
/// right edge.
pub open spec fn format_slot(s: int, x: int, y: int) -> int {
    if y == 8 && 0 <= x <= 5 {
        x
    } else if y == 8 && x == 7 {
        6
    } else if y == 8 && x == 8 {
        7
    } else if x == 8 && y == 7 {
        8
    } else if x == 8 && 0 <= y <= 5 {
        14 - y
    } else if x == 8 && s - 7 <= y < s {
        s - 1 - y
    } else if y == 8 && s - 8 <= x < s {
        x - s + 15
    } else {
        -1
    }
}

/// Format bit `i` of a 15-bit word, counted from the most significant.
pub open spec fn format_value(word: u32, i: int) -> bool {
    word_bit(word, 14 - i)
}

/// Which of the 18 version bits a module holds, or -1: the bottom-left block
/// (columns 0 to 5, rows s-11 to s-9) is filled column by column, the top-right
/// block (rows 0 to 5, columns s-11 to s-9) row by row.
pub open spec fn version_slot(s: int, x: int, y: int) -> int {
    if in_rect(0, s - 11, 6, 3, x, y) {
        3 * x + (y - (s - 11))
    } else if in_rect(s - 11, 0, 3, 6, x, y) {
        3 * y + (x - (s - 11))
    } else {
        -1
    }
}

/// The data mask predicate of mask index `m` at column `x`, row `y`.
pub open spec fn mask_bit(m: int, x: int, y: int) -> bool {
    if m == 0 {
        (x + y) % 2 == 0
    } else if m == 1 {
        y % 2 == 0
    } else if m == 2 {
        x % 3 == 0
    } else if m == 3 {
        (x + y) % 3 == 0
    } else if m == 4 {
        (y / 2 + x / 3) % 2 == 0
    } else if m == 5 {
        (x * y) % 2 + (x * y) % 3 == 0
    } else if m == 6 {
        ((x * y) % 2 + (x * y) % 3) % 2 == 0
    } else {
        ((x + y) % 2 + (x * y) % 3) % 2 == 0
    }
}

/// Whether `(x, y)` lies in a drawn alignment pattern: within distance 2 of a
/// pair of centre coordinates whose centre is outside the finders and separators.
pub open spec fn alignment_cell(version: int, x: int, y: int) -> bool {
    let s = side(version);
    let i = alignment_index(version, x);
    let j = alignment_index(version, y);
    let cx = alignment_center(version, i);
    let cy = alignment_center(version, j);
    i >= 0 && j >= 0 && finder_corner(s, cx, cy) is None && !separator_cell(s, cx, cy)
}

/// The module at `(x, y)` once all function patterns of a symbol with this
/// version, level ordinal and mask are in place: finders, separators, alignment
/// patterns, timing patterns, the dark module, the format bits and (from version
/// 7) the version bits. Every other module is still light and free.
pub open spec fn layout_module(version: int, level: int, mask: int, x: int, y: int) -> Module {
    let s = side(version);
    match finder_corner(s, x, y) {
        Some(c) => reserved(finder_value(x - c.0, y - c.1)),
        None => if separator_cell(s, x, y) {
            reserved(false)
        } else if alignment_cell(version, x, y) {
            reserved(
                alignment_value(
                    x - alignment_center(version, alignment_index(version, x)) + 2,
                    y - alignment_center(version, alignment_index(version, y)) + 2,
                ),
            )
        } else if timing_cell(s, x, y) {
            reserved(timing_value(x, y))
        } else if dark_cell(version, x, y) {
            reserved(true)
        } else if format_slot(s, x, y) >= 0 {
            reserved(format_value(format_word(level, mask), format_slot(s, x, y)))
        } else if version >= 7 && version_slot(s, x, y) >= 0 {
            reserved(word_bit(version_word(version), version_slot(s, x, y)))
        } else {
            Module { value: false, functional: false }
        },
    }
}

// ---------------------------------------------------------------------------
// The data walk
// ---------------------------------------------------------------------------

/// Right column of the `p`-th column pair of the walk: pairs run from the right
/// edge leftwards two columns at a time, and step over the timing column 6.
pub open spec fn pair_right(s: int, p: int) -> int {
    if 2 * p < s - 7 {
        s - 1 - 2 * p
    } else {
        s - 2 - 2 * p
    }
}

/// Number of steps of the walk: every module outside column 6.
pub open spec fn walk_len(s: int) -> int {
    s * (s - 1)
}

/// Column of step `k` of the walk. Each pair takes `2 * s` steps: per row, its
/// right module and then its left one.
pub open spec fn walk_x(s: int, k: int) -> int {
    pair_right(s, k / (2 * s)) - (k % (2 * s)) % 2
}

/// Row of step `k` of the walk: upwards in even pairs, downwards in odd ones.
pub open spec fn walk_y(s: int, k: int) -> int {
    let p = k / (2 * s);
    let vert = (k % (2 * s)) / 2;
    if p % 2 == 0 {
        s - 1 - vert
    } else {
        vert
    }
}

/// The step of the walk at which module `(x, y)` is visited (`x != 6`).
pub open spec fn walk_index(s: int, x: int, y: int) -> int {
    let p = if x > 6 {
        (s - 1 - x) / 2
    } else {
        (s - 2 - x) / 2
    };
    let j = pair_right(s, p) - x;
    let vert = if p % 2 == 0 {
        s - 1 - y
    } else {
        y
    };
    2 * s * p + 2 * vert + j
}

/// Module `(x, y)` of a grid of side `s` stored row by row.
pub open spec fn cell(g: Seq<Module>, s: int, x: int, y: int) -> Module {
    g[x + s * y]
}

/// How many of the first `k` steps of the walk land on modules of `g` that are
/// not reserved: the index of the data bit that step `k` places.
pub open spec fn data_rank(g: Seq<Module>, s: int, k: int) -> int
    decreases k,
{
    if k <= 0 {
        0
    } else {
        data_rank(g, s, k - 1) + if cell(g, s, walk_x(s, k - 1), walk_y(s, k - 1)).functional {
            0int
        } else {
            1int
        }
    }
}

/// Bit `i` of a bit stream, or a light (zero) remainder bit past its end.
pub open spec fn data_bit(bits: Seq<bool>, i: int) -> bool {
    0 <= i < bits.len() && bits[i]
}

/// The module that the data walk writes at a free `(x, y)`: the data bit of its
/// rank, inverted where the mask says so.
pub open spec fn data_module(g: Seq<Module>, s: int, m: int, bits: Seq<bool>, x: int, y: int) -> Module {
    Module {
        value: data_bit(bits, data_rank(g, s, walk_index(s, x, y))) != mask_bit(m, x, y),
        functional: false,
    }
}

/// The grid of a symbol once its function patterns are in place.
pub open spec fn layout_grid(version: int, level: int, mask: int) -> Seq<Module> {
    let s = side(version);
    Seq::new((s * s) as nat, |i: int| layout_module(version, level, mask, i % s, i / s))
}

/// The module at `(x, y)` of the finished symbol: the function patterns, and
/// elsewhere (outside column 6) the masked data bits in walk order.
pub open spec fn symbol_module(
    version: int,
    level: int,
    mask: int,
    bits: Seq<bool>,
    x: int,
    y: int,
) -> Module {
    let base = layout_module(version, level, mask, x, y);
    if x == 6 || base.functional {
        base
    } else {
        data_module(layout_grid(version, level, mask), side(version), mask, bits, x, y)
    }
}

/// The bits of a codeword sequence, most significant bit of each codeword first.
pub open spec fn codeword_bits(cw: Seq<u8>) -> Seq<bool> {
    Seq::new(8 * cw.len(), |k: int| (cw[k / 8] >> ((7 - k % 8) as u8)) & 1u8 == 1u8)
}

} // verus!
