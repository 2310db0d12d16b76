use vstd::prelude::*;

pub use crate::ec::EcLevel;
use crate::ec::{
    codeword_stream, data_capacity, error_correction, layout_of, level_ordinal, QrError,
};
use crate::grid::{
    alignment_index, alignment_value, codeword_bits, data_module, data_rank, finder_corner,
    finder_value, format_slot, format_value, in_rect, layout_grid, layout_module, mask_bit,
    near_center, pair_right, reserved, separator_cell, side, symbol_module, timing_cell,
    timing_value, version_slot, walk_index, walk_x, walk_y, word_bit, Module,
};
use crate::tables::{
    alignment_center, alignment_center_at, alignment_count, format_bits_at, format_word,
    lemma_alignment_centers, version_bits_at, version_word,
};

verus! {

/// How the upstream encoder wrote the payload; the symbol only carries it.
#[derive(Clone, Copy, PartialEq, Eq, Structural, Debug)]
pub enum Encoding {
    Numeric,
    Alphanumeric,
    Byte,
    Kanji,
}

/// A symbol under construction: a square grid of modules, stored row by row
/// (module `(x, y)` at index `x + size * y`, `x` the column), and its parameters.
pub struct QrCode {
    pub data: Vec<Module>,
    pub version: u8,
    pub ec_level: EcLevel,
    pub mask_pattern: u8,
    pub encoding: Encoding,
}

/// What a rectangle painter lays down, relative to the rectangle's corner.
enum Shape {
    Finder,
    Alignment,
    Light,
    /// Bits of a word: bit `3 * dx + dy` when `column_major`, else `3 * dy + dx`.
    Bits { word: u32, column_major: bool },
}

spec fn shape_value(shape: Shape, dx: int, dy: int) -> bool {
    match shape {
        Shape::Finder => finder_value(dx, dy),
        Shape::Alignment => alignment_value(dx, dy),
        Shape::Light => false,
        Shape::Bits { word, column_major } => word_bit(
            word,
            if column_major {
                3 * dx + dy
            } else {
                3 * dy + dx
            },
        ),
    }
}

fn shape_value_at(shape: &Shape, dx: u32, dy: u32) -> (r: bool)
    requires
        dx < 8,
        dy < 8,
    ensures
        r == shape_value(*shape, dx as int, dy as int),
{
    match shape {
        Shape::Finder => dx == 0 || dx == 6 || dy == 0 || dy == 6 || (2 <= dx && dx <= 4 && 2
            <= dy && dy <= 4),
        Shape::Alignment => dx == 0 || dx == 4 || dy == 0 || dy == 4 || (dx == 2 && dy == 2),
        Shape::Light => false,
        Shape::Bits { word, column_major } => {
            let i = if *column_major {
                3 * dx + dy
            } else {
                3 * dy + dx
            };
            (*word >> i) & 1 == 1
        },
    }
}

proof fn lemma_cell_index(s: int, x: int, y: int)
    requires
        0 <= x < s <= 177,
        0 <= y < s,
    ensures
        0 <= x + s * y < s * s <= 177 * 177,
{
    assert(0 <= x + s * y < s * s <= 177 * 177) by (nonlinear_arith)
        requires
            0 <= x < s <= 177,
            0 <= y < s,
    ;
}

proof fn lemma_cell_unique(s: int, x: int, y: int, a: int, b: int)
    requires
        0 <= x < s,
        0 <= y < s,
        0 <= a < s,
        0 <= b < s,
        x + s * y == a + s * b,
    ensures
        x == a,
        y == b,
{
    if y < b {
        assert(x + s * y < a + s * b) by (nonlinear_arith)
            requires
                0 <= x < s,
                0 <= a,
                y < b,
        ;
    } else if b < y {
        assert(a + s * b < x + s * y) by (nonlinear_arith)
            requires
                0 <= a < s,
                0 <= x,
                b < y,
        ;
    }
}

proof fn lemma_near_sound(version: int, a: int, n: int)
    requires
        0 <= n,
    ensures
        near_center(version, a, n) == -1 || (0 <= near_center(version, a, n) < n
            && alignment_center(version, near_center(version, a, n)) - 2 <= a
            <= alignment_center(version, near_center(version, a, n)) + 2),
    decreases n,
{
    if n > 0 {
        lemma_near_sound(version, a, n - 1);
    }
}

proof fn lemma_near_exact(version: int, a: int, i: int, n: int)
    requires
        2 <= version <= 40,
        0 <= i < n <= alignment_count(version),
        alignment_center(version, i) - 2 <= a <= alignment_center(version, i) + 2,
    ensures
        near_center(version, a, n) == i,
    decreases n,
{
    lemma_alignment_centers(version);
    if n - 1 > i {
        assert(alignment_center(version, n - 1) - alignment_center(version, i) >= 12);
        lemma_near_exact(version, a, i, n - 1);
    }
}

proof fn lemma_walk_step(s: int, p: int, vert: int, j: int)
    requires
        21 <= s <= 177,
        s % 2 == 1,
        0 <= p < (s - 1) / 2,
        0 <= vert < s,
        0 <= j < 2,
    ensures
        ({
            let k = 2 * s * p + 2 * vert + j;
            let x = pair_right(s, p) - j;
            let y = if p % 2 == 0 {
                s - 1 - vert
            } else {
                vert
            };
            &&& walk_x(s, k) == x
            &&& walk_y(s, k) == y
            &&& 0 <= x < s
            &&& x != 6
            &&& 0 <= y < s
            &&& walk_index(s, x, y) == k
            &&& 0 <= k
        }),
{
    let k = 2 * s * p + 2 * vert + j;
    assert(k == p * (2 * s) + (2 * vert + j)) by (nonlinear_arith)
        requires
            k == 2 * s * p + 2 * vert + j,
    ;
    vstd::arithmetic::div_mod::lemma_fundamental_div_mod_converse(k, 2 * s, p, 2 * vert + j);
    assert(0 <= 2 * s * p) by (nonlinear_arith)
        requires
            0 <= p,
            0 <= s,
    ;
}

proof fn lemma_walk_inverse(s: int, a: int, b: int)
    requires
        21 <= s <= 177,
        s % 2 == 1,
        0 <= a < s,
        0 <= b < s,
        a != 6,
    ensures
        walk_x(s, walk_index(s, a, b)) == a,
        walk_y(s, walk_index(s, a, b)) == b,
        0 <= walk_index(s, a, b) < 2 * s * ((s - 1) / 2),
{
    let p = if a > 6 {
        (s - 1 - a) / 2
    } else {
        (s - 2 - a) / 2
    };
    let j = pair_right(s, p) - a;
    let vert = if p % 2 == 0 {
        s - 1 - b
    } else {
        b
    };
    lemma_walk_step(s, p, vert, j);
    let n = (s - 1) / 2;
    assert(2 * s * p + 2 * vert + j < 2 * s * n) by (nonlinear_arith)
        requires
            0 <= p < n,
            0 <= 2 * vert + j < 2 * s,
    ;
}

/// The bits of the codewords, most significant bit of each codeword first.
fn codewords_to_bits(cw: &Vec<u8>) -> (r: Vec<bool>)
    ensures
        r@ == codeword_bits(cw@),
{
    let mut r: Vec<bool> = Vec::new();
    let mut i: usize = 0;
    while i < cw.len()
        invariant
            i <= cw@.len(),
            r@ == codeword_bits(cw@).take(8 * i),
        decreases cw@.len() - i,
    {
        let byte = cw[i];
        let mut t: u8 = 0;
        while t < 8
            invariant
                i < cw@.len(),
                t <= 8,
                byte == cw@[i as int],
                r@ == codeword_bits(cw@).take(8 * i + t),
            decreases 8 - t,
        {
            r.push((byte >> (7 - t)) & 1 == 1);
            assert((8 * i + t) / 8 == i && (8 * i + t) % 8 == t);
            t += 1;
            assert(r@ =~= codeword_bits(cw@).take(8 * i + t));
        }
        i += 1;
    }
    assert(r@ =~= codeword_bits(cw@));
    r
}

/// Every ordered pair of elements of `a`, the first element varying slowest.
pub open spec fn pairs_of(a: Seq<u8>) -> Seq<(u8, u8)> {
    Seq::new(a.len() * a.len(), |k: int| (a[k / (a.len() as int)], a[k % (a.len() as int)]))
}

proof fn lemma_pair_index(n: int, i: int, j: int)
    requires
        0 <= i < n,
        0 <= j < n,
    ensures
        (i * n + j) / n == i,
        (i * n + j) % n == j,
        0 <= i * n + j < n * n,
{
    vstd::arithmetic::div_mod::lemma_fundamental_div_mod_converse(i * n + j, n, i, j);
    assert(0 <= i * n + j < n * n) by (nonlinear_arith)
        requires
            0 <= i < n,
            0 <= j < n,
    ;
}

impl QrCode {
    /// Side length of this symbol.
    pub open spec fn spec_size(&self) -> int {
        side(self.version as int)
    }

    /// A supported version and mask, and one module per cell.
    pub open spec fn wf(&self) -> bool {
        &&& 1 <= self.version <= 40
        &&& self.mask_pattern < 8
        &&& self.data@.len() == self.spec_size() * self.spec_size()
    }

    pub open spec fn in_grid(&self, x: int, y: int) -> bool {
        0 <= x < self.spec_size() && 0 <= y < self.spec_size()
    }

    /// Module `(x, y)`.
    pub open spec fn at(&self, x: int, y: int) -> Module {
        self.data@[x + self.spec_size() * y]
    }

    /// Same parameters and as many modules.
    pub open spec fn same_header(&self, other: QrCode) -> bool {
        &&& self.version == other.version
        &&& self.ec_level == other.ec_level
        &&& self.mask_pattern == other.mask_pattern
        &&& self.encoding == other.encoding
        &&& self.data@.len() == other.data@.len()
    }

    /// Every module light and free.
    pub open spec fn is_blank(&self) -> bool {
        forall|x: int, y: int|
            self.in_grid(x, y) ==> #[trigger] self.at(x, y) == (Module {
                value: false,
                functional: false,
            })
    }

    /// The module at `(x, y)`, or `None` outside the grid.
    pub fn get(&self, x: u32, y: u32) -> (r: Option<Module>)
        requires
            self.wf(),
        ensures
            r == if self.in_grid(x as int, y as int) {
                Some(self.at(x as int, y as int))
            } else {
                None
            },
    {
        if let Some(index) = self.coords_to_index_from_instance(x, y) {
            proof {
                lemma_cell_index(self.spec_size(), x as int, y as int);
            }
            Some(self.data[index as usize])
        } else {
            None
        }
    }

    /// Writes module `(x, y)`; a write outside the grid does nothing.
    pub fn put(&mut self, x: u32, y: u32, data: Module)
        requires
            old(self).wf(),
        ensures
            final(self).wf(),
            final(self).same_header(*old(self)),
            forall|a: int, b: int|
                final(self).in_grid(a, b) ==> #[trigger] final(self).at(a, b) == if a == x && b
                    == y {
                    data
                } else {
                    old(self).at(a, b)
                },
    {
        let ghost s = self.spec_size();
        if let Some(index) = self.coords_to_index_from_instance(x, y) {
            proof {
                lemma_cell_index(s, x as int, y as int);
            }
            self.data.set(index as usize, data);
            assert forall|a: int, b: int| self.in_grid(a, b) implies #[trigger] self.at(a, b)
                == if a == x && b == y {
                data
            } else {
                old(self).at(a, b)
            } by {
                lemma_cell_index(s, a, b);
                if a + s * b == x + s * y {
                    lemma_cell_unique(s, a, b, x as int, y as int);
                }
            }
        }
    }

    /// Index of `(x, y)` in a grid of side `size`, or `None` outside it.
    pub fn coords_to_index(x: u32, y: u32, size: u32) -> (r: Option<u32>)
        requires
            size * size <= u32::MAX,
        ensures
            r == if x < size && y < size {
                Some((x + size * y) as u32)
            } else {
                None
            },
    {
        if !(x < size && y < size) {
            None
        } else {
            assert(0 <= x + size * y < size * size) by (nonlinear_arith)
                requires
                    x < size,
                    y < size,
            ;
            Some(x + size * y)
        }
    }

    /// Index of `(x, y)` in a symbol of a version, or `None` outside it.
    pub fn coords_to_index_from_version(x: u32, y: u32, version: u8) -> (r: Option<u32>)
        ensures
            r == if x < side(version as int) && y < side(version as int) {
                Some((x + side(version as int) * y) as u32)
            } else {
                None
            },
    {
        let size = Self::size_from_version(version);
        assert(size * size <= 1037 * 1037) by (nonlinear_arith)
            requires
                size <= 1037,
        ;
        Self::coords_to_index(x, y, size)
    }

    /// Index of `(x, y)` in this symbol, or `None` outside it.
    pub fn coords_to_index_from_instance(&self, x: u32, y: u32) -> (r: Option<u32>)
        ensures
            r == if self.in_grid(x as int, y as int) {
                Some((x + self.spec_size() * y) as u32)
            } else {
                None
            },
    {
        Self::coords_to_index_from_version(x, y, self.version)
    }

    /// Side length of a symbol of a version: 17 + 4 * version.
    pub fn size_from_version(version: u8) -> (r: u32)
        ensures
            r == side(version as int),
    {
        17 + 4 * version as u32
    }

    /// Side length of this symbol.
    pub fn size(&self) -> (r: u32)
        ensures
            r == self.spec_size(),
    {
        Self::size_from_version(self.version)
    }

    /// The Cartesian product of the coordinates with themselves: every ordered
    /// pair, the first coordinate varying slowest.
    pub fn combination(array: &[u8]) -> (r: Vec<(u8, u8)>)
        ensures
            r@ == pairs_of(array@),
    {
        let ghost a = array@;
        let ghost n = a.len() as int;
        let mut res: Vec<(u8, u8)> = Vec::new();
        let mut i: usize = 0;
        while i < array.len()
            invariant
                a == array@,
                n == a.len(),
                i <= n,
                res@.len() == i * n,
                forall|k: int| 0 <= k < i * n ==> #[trigger] res@[k] == pairs_of(a)[k],
            decreases n - i,
        {
            let mut j: usize = 0;
            while j < array.len()
                invariant
                    a == array@,
                    n == a.len(),
                    i < n,
                    j <= n,
                    res@.len() == i * n + j,
                    forall|k: int| 0 <= k < i * n + j ==> #[trigger] res@[k] == pairs_of(a)[k],
                decreases n - j,
            {
                proof {
                    lemma_pair_index(n, i as int, j as int);
                }
                res.push((array[i], array[j]));
                j += 1;
            }
            assert(i * n + n == (i + 1) * n) by (nonlinear_arith);
            i += 1;
        }
        assert(res@ =~= pairs_of(a));
        res
    }

    /// Paints a rectangle of reserved modules with a shape.
    fn paint_rect(&mut self, x0: u32, y0: u32, w: u32, h: u32, shape: Shape)
        requires
            old(self).wf(),
            x0 + w <= 1000,
            y0 + h <= 1000,
            w <= 8,
            h <= 8,
        ensures
            final(self).wf(),
            final(self).same_header(*old(self)),
            forall|a: int, b: int|
                final(self).in_grid(a, b) ==> #[trigger] final(self).at(a, b) == if in_rect(
                    x0 as int,
                    y0 as int,
                    w as int,
                    h as int,
                    a,
                    b,
                ) {
                    reserved(shape_value(shape, a - x0, b - y0))
                } else {
                    old(self).at(a, b)
                },
    {
        let ghost start = *self;
        let mut dy: u32 = 0;
        while dy < h
            invariant
                dy <= h <= 8,
                w <= 8,
                x0 + w <= 1000,
                y0 + h <= 1000,
                self.wf(),
                self.same_header(start),
                start == *old(self),
                forall|a: int, b: int|
                    self.in_grid(a, b) ==> #[trigger] self.at(a, b) == if in_rect(
                        x0 as int,
                        y0 as int,
                        w as int,
                        dy as int,
                        a,
                        b,
                    ) {
                        reserved(shape_value(shape, a - x0, b - y0))
                    } else {
                        start.at(a, b)
                    },
            decreases h - dy,
        {
            let mut dx: u32 = 0;
            while dx < w
                invariant
                    dx <= w <= 8,
                    dy < h <= 8,
                    x0 + w <= 1000,
                    y0 + h <= 1000,
                    self.wf(),
                    self.same_header(start),
                    forall|a: int, b: int|
                        self.in_grid(a, b) ==> #[trigger] self.at(a, b) == if in_rect(
                            x0 as int,
                            y0 as int,
                            w as int,
                            dy as int,
                            a,
                            b,
                        ) || (b == y0 + dy && x0 <= a < x0 + dx) {
                            reserved(shape_value(shape, a - x0, b - y0))
                        } else {
                            start.at(a, b)
                        },
                decreases w - dx,
            {
                let v = shape_value_at(&shape, dx, dy);
                self.put(x0 + dx, y0 + dy, Module { value: v, functional: true });
                dx += 1;
            }
            dy += 1;
        }
    }

    /// Paints the three finder patterns, at the top-left, top-right and
    /// bottom-left corners.
    pub fn finder_patterns(&mut self)
        requires
            old(self).wf(),
        ensures
            final(self).wf(),
            final(self).same_header(*old(self)),
            forall|a: int, b: int|
                final(self).in_grid(a, b) ==> #[trigger] final(self).at(a, b) == match finder_corner(
                    final(self).spec_size(),
                    a,
                    b,
                ) {
                    Some(c) => reserved(finder_value(a - c.0, b - c.1)),
                    None => old(self).at(a, b),
                },
    {
        let size = self.size();
        self.paint_rect(0, 0, 7, 7, Shape::Finder);
        self.paint_rect(size - 7, 0, 7, 7, Shape::Finder);
        self.paint_rect(0, size - 7, 7, 7, Shape::Finder);
    }

    /// Paints the light separators between the finder patterns and the rest.
    pub fn separators_patterns(&mut self)
        requires
            old(self).wf(),
        ensures
            final(self).wf(),
            final(self).same_header(*old(self)),
            forall|a: int, b: int|
                final(self).in_grid(a, b) ==> #[trigger] final(self).at(a, b) == if separator_cell(
                    final(self).spec_size(),
                    a,
                    b,
                ) {
                    reserved(false)
                } else {
                    old(self).at(a, b)
                },
    {
        let size = self.size();
        self.paint_rect(7, 0, 1, 8, Shape::Light);
        self.paint_rect(0, 7, 7, 1, Shape::Light);
        self.paint_rect(size - 8, 0, 1, 8, Shape::Light);
        self.paint_rect(size - 7, 7, 7, 1, Shape::Light);
        self.paint_rect(7, size - 8, 1, 8, Shape::Light);
        self.paint_rect(0, size - 8, 7, 1, Shape::Light);
    }

    /// Paints the dark module at column 8, row 4 * version + 9.
    pub fn dark_module(&mut self)
        requires
            old(self).wf(),
        ensures
            final(self).wf(),
            final(self).same_header(*old(self)),
            forall|a: int, b: int|
                final(self).in_grid(a, b) ==> #[trigger] final(self).at(a, b) == if a == 8 && b == 4
                    * final(self).version + 9 {
                    reserved(true)
                } else {
                    old(self).at(a, b)
                },
    {
        self.put(8, (4 * self.version as u32 + 9), Module { value: true, functional: true })
    }

    /// Paints the timing patterns on row 6 and column 6, between columns (rows)
    /// 8 and size - 9, dark on even coordinates; reserved modules are kept.
    pub fn timing_patterns(&mut self)
        requires
            old(self).wf(),
        ensures
            final(self).wf(),
            final(self).same_header(*old(self)),
            forall|a: int, b: int|
                final(self).in_grid(a, b) ==> #[trigger] final(self).at(a, b) == if timing_cell(
                    final(self).spec_size(),
                    a,
                    b,
                ) && !old(self).at(a, b).functional {
                    reserved(timing_value(a, b))
                } else {
                    old(self).at(a, b)
                },
    {
        let ghost start = *self;
        let size = self.size();
        let mut x: u32 = 8;
        while x <= size - 9
            invariant
                8 <= x <= size - 8,
                size == self.spec_size(),
                self.wf(),
                self.same_header(start),
                start == *old(self),
                forall|a: int, b: int|
                    self.in_grid(a, b) ==> #[trigger] self.at(a, b) == if b == 6 && 8 <= a < x
                        && !start.at(a, b).functional {
                        reserved(timing_value(a, b))
                    } else {
                        start.at(a, b)
                    },
            decreases size - x,
        {
            if let Some(m) = self.get(x, 6) {
                if !m.functional {
                    self.put(x, 6, Module { value: x % 2 == 0, functional: true });
                }
            }
            x += 1;
        }
        let mut y: u32 = 8;
        while y <= size - 9
            invariant
                8 <= y <= size - 8,
                size == self.spec_size(),
                self.wf(),
                self.same_header(start),
                start == *old(self),
                forall|a: int, b: int|
                    self.in_grid(a, b) ==> #[trigger] self.at(a, b) == if ((b == 6 && 8 <= a <= size
                        - 9) || (a == 6 && 8 <= b < y)) && !start.at(a, b).functional {
                        reserved(timing_value(a, b))
                    } else {
                        start.at(a, b)
                    },
            decreases size - y,
        {
            if let Some(m) = self.get(6, y) {
                if !m.functional {
                    self.put(6, y, Module { value: y % 2 == 0, functional: true });
                }
            }
            y += 1;
        }
    }

    /// Paints both copies of the 15 format bits for this symbol's level and mask.
    pub fn format_information(&mut self)
        requires
            old(self).wf(),
        ensures
            final(self).wf(),
            final(self).same_header(*old(self)),
            forall|a: int, b: int|
                final(self).in_grid(a, b) ==> #[trigger] final(self).at(a, b) == if format_slot(
                    final(self).spec_size(),
                    a,
                    b,
                ) >= 0 {
                    reserved(
                        format_value(
                            format_word(
                                level_ordinal(final(self).ec_level) as int,
                                final(self).mask_pattern as int,
                            ),
                            format_slot(final(self).spec_size(), a, b),
                        ),
                    )
                } else {
                    old(self).at(a, b)
                },
    {
        let ghost start = *self;
        let word = format_bits_at(self.ec_level.ordinal(), self.mask_pattern);
        let size = self.size();
        let mut i: u32 = 0;
        while i < 15
            invariant
                i <= 15,
                size == self.spec_size(),
                self.wf(),
                self.same_header(start),
                start == *old(self),
                word == format_word(level_ordinal(start.ec_level) as int, start.mask_pattern as int),
                forall|a: int, b: int|
                    self.in_grid(a, b) ==> #[trigger] self.at(a, b) == if 0 <= format_slot(
                        size as int,
                        a,
                        b,
                    ) < i {
                        reserved(format_value(word, format_slot(size as int, a, b)))
                    } else {
                        start.at(a, b)
                    },
            decreases 15 - i,
        {
            let v = (word >> (14 - i)) & 1 == 1;
            let (x1, y1) = if i <= 5 {
                (i, 8)
            } else if i == 6 {
                (7, 8)
            } else if i == 7 {
                (8, 8)
            } else if i == 8 {
                (8, 7)
            } else {
                (8, 14 - i)
            };
            let (x2, y2) = if i <= 6 {
                (8, size - 1 - i)
            } else {
                (size - 15 + i, 8)
            };
            assert(format_slot(size as int, x1 as int, y1 as int) == i);
            assert(format_slot(size as int, x2 as int, y2 as int) == i);
            self.put(x1, y1, Module { value: v, functional: true });
            self.put(x2, y2, Module { value: v, functional: true });
            i += 1;
        }
    }

    /// Paints the two 3x6 blocks of version bits (versions 7 and up).
    pub fn version_information(&mut self)
        requires
            old(self).wf(),
            old(self).version >= 7,
        ensures
            final(self).wf(),
            final(self).same_header(*old(self)),
            forall|a: int, b: int|
                final(self).in_grid(a, b) ==> #[trigger] final(self).at(a, b) == if version_slot(
                    final(self).spec_size(),
                    a,
                    b,
                ) >= 0 {
                    reserved(
                        word_bit(
                            version_word(final(self).version as int),
                            version_slot(final(self).spec_size(), a, b),
                        ),
                    )
                } else {
                    old(self).at(a, b)
                },
    {
        let word = version_bits_at(self.version);
        let size = self.size();
        self.paint_rect(0, size - 11, 6, 3, Shape::Bits { word, column_major: true });
        self.paint_rect(size - 11, 0, 3, 6, Shape::Bits { word, column_major: false });
    }

    /// Paints the 5x5 alignment pattern centred at `(x, y)`, unless that centre
    /// is already reserved.
    pub fn draw_alignment_pattern(&mut self, x: u32, y: u32)
        requires
            old(self).wf(),
            old(self).in_grid(x as int, y as int),
            2 <= x,
            2 <= y,
        ensures
            final(self).wf(),
            final(self).same_header(*old(self)),
            forall|a: int, b: int|
                final(self).in_grid(a, b) ==> #[trigger] final(self).at(a, b) == if !old(self).at(
                    x as int,
                    y as int,
                ).functional && in_rect(x - 2, y - 2, 5, 5, a, b) {
                    reserved(alignment_value(a - x + 2, b - y + 2))
                } else {
                    old(self).at(a, b)
                },
    {
        if let Some(m) = self.get(x, y) {
            if !m.functional {
                self.paint_rect(x - 2, y - 2, 5, 5, Shape::Alignment);
            }
        }
    }

    /// Paints an alignment pattern at every pair of the version's centre
    /// coordinates whose centre is not already reserved (none for version 1).
    pub fn alignment_patterns(&mut self)
        requires
            old(self).wf(),
        ensures
            final(self).wf(),
            final(self).same_header(*old(self)),
            forall|a: int, b: int|
                final(self).in_grid(a, b) ==> #[trigger] final(self).at(a, b) == {
                    let v = final(self).version as int;
                    let i = alignment_index(v, a);
                    let j = alignment_index(v, b);
                    if i >= 0 && j >= 0 && !old(self).at(
                        alignment_center(v, i),
                        alignment_center(v, j),
                    ).functional {
                        reserved(
                            alignment_value(
                                a - alignment_center(v, i) + 2,
                                b - alignment_center(v, j) + 2,
                            ),
                        )
                    } else {
                        old(self).at(a, b)
                    }
                },
    {
        let ghost start = *self;
        let ghost v = self.version as int;
        if self.version < 2 {
            assert forall|a: int| alignment_index(v, a) == -1 by {
                assert(alignment_count(v) == 0);
            }
            return ;
        }
        proof {
            lemma_alignment_centers(v);
        }
        let count: usize = (self.version / 7 + 2) as usize;
        let mut centers: Vec<u8> = Vec::new();
        let mut t: usize = 0;
        while t < count
            invariant
                2 <= v <= 40,
                v == self.version,
                count == alignment_count(v),
                t <= count,
                centers@.len() == t,
                forall|c: int| 0 <= c < t ==> #[trigger] centers@[c] == alignment_center(v, c),
                forall|c: int| 0 <= c < t ==> 6 <= #[trigger] centers@[c] <= 4 * v + 10,
            decreases count - t,
        {
            centers.push(alignment_center_at(self.version, t));
            t += 1;
        }
        let pairs = Self::combination(centers.as_slice());
        let mut i: usize = 0;
        while i < count
            invariant
                2 <= v <= 40,
                v == self.version,
                count == alignment_count(v),
                i <= count,
                centers@.len() == count,
                forall|c: int| 0 <= c < count ==> #[trigger] centers@[c] == alignment_center(v, c),
                forall|c: int| 0 <= c < count ==> 6 <= #[trigger] centers@[c] <= 4 * v + 10,
                pairs@ == pairs_of(centers@),
                self.wf(),
                self.same_header(start),
                start == *old(self),
                forall|a: int, b: int|
                    self.in_grid(a, b) ==> #[trigger] self.at(a, b) == {
                        let ia = alignment_index(v, a);
                        let jb = alignment_index(v, b);
                        if ia >= 0 && jb >= 0 && ia < i && !start.at(
                            alignment_center(v, ia),
                            alignment_center(v, jb),
                        ).functional {
                            reserved(
                                alignment_value(
                                    a - alignment_center(v, ia) + 2,
                                    b - alignment_center(v, jb) + 2,
                                ),
                            )
                        } else {
                            start.at(a, b)
                        }
                    },
            decreases count - i,
        {
            let mut j: usize = 0;
            while j < count
                invariant
                    2 <= v <= 40,
                    v == self.version,
                    count == alignment_count(v),
                    i < count,
                    j <= count,
                    centers@.len() == count,
                    forall|c: int| 0 <= c < count ==> #[trigger] centers@[c] == alignment_center(v, c),
                    forall|c: int| 0 <= c < count ==> 6 <= #[trigger] centers@[c] <= 4 * v + 10,
                    pairs@ == pairs_of(centers@),
                    self.wf(),
                    self.same_header(start),
                    forall|a: int, b: int|
                        self.in_grid(a, b) ==> #[trigger] self.at(a, b) == {
                            let ia = alignment_index(v, a);
                            let jb = alignment_index(v, b);
                            if ia >= 0 && jb >= 0 && (ia < i || (ia == i && jb < j)) && !start.at(
                                alignment_center(v, ia),
                                alignment_center(v, jb),
                            ).functional {
                                reserved(
                                    alignment_value(
                                        a - alignment_center(v, ia) + 2,
                                        b - alignment_center(v, jb) + 2,
                                    ),
                                )
                            } else {
                                start.at(a, b)
                            }
                        },
                decreases count - j,
            {
                proof {
                    lemma_pair_index(count as int, i as int, j as int);
                    assert(i * count + j < 49) by (nonlinear_arith)
                        requires
                            i < count <= 7,
                            j < count,
                    ;
                }
                let (cx, cy) = pairs[i * count + j];
                proof {
                    lemma_near_exact(v, cx as int, i as int, count as int);
                    lemma_near_exact(v, cy as int, j as int, count as int);
                    assert(self.at(cx as int, cy as int) == start.at(cx as int, cy as int));
                }
                let ghost before = *self;
                self.draw_alignment_pattern(cx as u32, cy as u32);
                proof {
                    assert forall|a: int, b: int| self.in_grid(a, b) implies #[trigger] self.at(
                        a,
                        b,
                    ) == {
                        let ia = alignment_index(v, a);
                        let jb = alignment_index(v, b);
                        if ia >= 0 && jb >= 0 && (ia < i || (ia == i && jb < j + 1)) && !start.at(
                            alignment_center(v, ia),
                            alignment_center(v, jb),
                        ).functional {
                            reserved(
                                alignment_value(
                                    a - alignment_center(v, ia) + 2,
                                    b - alignment_center(v, jb) + 2,
                                ),
                            )
                        } else {
                            start.at(a, b)
                        }
                    } by {
                        lemma_near_sound(v, a, count as int);
                        lemma_near_sound(v, b, count as int);
                        if cx - 2 <= a <= cx + 2 {
                            lemma_near_exact(v, a, i as int, count as int);
                        }
                        if cy - 2 <= b <= cy + 2 {
                            lemma_near_exact(v, b, j as int, count as int);
                        }
                        assert(before.at(a, b) == self.at(a, b) || in_rect(
                            cx - 2,
                            cy - 2,
                            5,
                            5,
                            a,
                            b,
                        ));
                    }
                }
                j += 1;
            }
            assert forall|a: int, b: int| self.in_grid(a, b) implies #[trigger] self.at(a, b) == {
                        let ia = alignment_index(v, a);
                        let jb = alignment_index(v, b);
                        if ia >= 0 && jb >= 0 && ia < i + 1 && !start.at(
                            alignment_center(v, ia),
                            alignment_center(v, jb),
                        ).functional {
                            reserved(
                                alignment_value(
                                    a - alignment_center(v, ia) + 2,
                                    b - alignment_center(v, jb) + 2,
                                ),
                            )
                        } else {
                            start.at(a, b)
                        }
                    } by {
                lemma_near_sound(v, b, count as int);
            }
            i += 1;
        }
        assert forall|a: int, b: int| self.in_grid(a, b) implies #[trigger] self.at(a, b) == {
                        let ia = alignment_index(v, a);
                        let jb = alignment_index(v, b);
                        if ia >= 0 && jb >= 0 && !start.at(
                            alignment_center(v, ia),
                            alignment_center(v, jb),
                        ).functional {
                            reserved(
                                alignment_value(
                                    a - alignment_center(v, ia) + 2,
                                    b - alignment_center(v, jb) + 2,
                                ),
                            )
                        } else {
                            start.at(a, b)
                        }
                    } by {
            lemma_near_sound(v, a, count as int);
        }
    }

    /// A blank symbol of a version: every module light and free. Fails with
    /// "Invalid version." outside versions 1 to 40 and with "Invalid mask."
    /// for a mask index above 7.
    pub fn new(version: u8, ec_level: EcLevel, mask_pattern: u8, encoding: Encoding) -> (r: Result<
        QrCode,
        String,
    >)
        ensures
            !(1 <= version <= 40) ==> (r matches Err(e) && e@ == "Invalid version."@),
            1 <= version <= 40 && mask_pattern > 7 ==> (r matches Err(e) && e@
                == "Invalid mask."@),
            1 <= version <= 40 && mask_pattern <= 7 ==> (r matches Ok(q) && q.wf() && q.is_blank()
                && q.version == version && q.ec_level == ec_level && q.mask_pattern == mask_pattern
                && q.encoding == encoding),
    {
        if version > 40 || version == 0 {
            Err("Invalid version.".to_string())
        } else if mask_pattern > 7 {
            Err("Invalid mask.".to_string())
        } else {
            let size = Self::size_from_version(version);
            assert(size * size <= 177 * 177) by (nonlinear_arith)
                requires
                    size <= 177,
            ;
            let data = vec![Module { value: false, functional: false }; (size * size) as usize];
            let q = QrCode { data, version, ec_level, mask_pattern, encoding };
            assert forall|x: int, y: int| q.in_grid(x, y) implies #[trigger] q.at(x, y) == (Module {
                value: false,
                functional: false,
            }) by {
                lemma_cell_index(size as int, x, y);
            }
            Ok(q)
        }
    }

    /// Paints every function pattern: finders, separators, alignment patterns,
    /// timing patterns, the dark module, the format bits and, from version 7,
    /// the version bits. On a blank symbol this gives exactly `layout_module`.
    #[verifier::rlimit(100)]
    pub fn all_functional_patterns(&mut self)
        requires
            old(self).wf(),
        ensures
            final(self).wf(),
            final(self).same_header(*old(self)),
            old(self).is_blank() ==> forall|a: int, b: int|
                final(self).in_grid(a, b) ==> #[trigger] final(self).at(a, b) == layout_module(
                    final(self).version as int,
                    level_ordinal(final(self).ec_level) as int,
                    final(self).mask_pattern as int,
                    a,
                    b,
                ),
    {
        let ghost s0 = *self;
        self.finder_patterns();
        let ghost s1 = *self;
        self.separators_patterns();
        let ghost s2 = *self;
        self.alignment_patterns();
        self.timing_patterns();
        self.dark_module();
        self.format_information();
        if self.version >= 7 {
            self.version_information();
        }
        proof {
            let v = self.version as int;
            let count = alignment_count(v);
            if s0.is_blank() {
                if v >= 2 {
                    lemma_alignment_centers(v);
                }
                assert forall|a: int, b: int| self.in_grid(a, b) implies #[trigger] self.at(a, b)
                    == layout_module(
                    v,
                    level_ordinal(self.ec_level) as int,
                    self.mask_pattern as int,
                    a,
                    b,
                ) by {
                    lemma_near_sound(v, a, count);
                    lemma_near_sound(v, b, count);
                    let i = alignment_index(v, a);
                    let j = alignment_index(v, b);
                    if i >= 0 && j >= 0 {
                        let cx = alignment_center(v, i);
                        let cy = alignment_center(v, j);
                        assert(s2.at(cx, cy) == s1.at(cx, cy) || separator_cell(self.spec_size(), cx, cy));
                    }
                }
            }
        }
    }

    /// Writes the bit stream into the free modules along the data walk, each
    /// bit inverted where the symbol's mask says so. Free modules past the end
    /// of the stream get a light remainder bit, masked the same way; reserved
    /// modules and column 6 are left alone.
    pub fn fill(&mut self, bits: Vec<bool>)
        requires
            old(self).wf(),
        ensures
            final(self).wf(),
            final(self).same_header(*old(self)),
            forall|a: int, b: int|
                final(self).in_grid(a, b) ==> #[trigger] final(self).at(a, b) == if a == 6 || old(
                    self,
                ).at(a, b).functional {
                    old(self).at(a, b)
                } else {
                    data_module(
                        old(self).data@,
                        final(self).spec_size(),
                        final(self).mask_pattern as int,
                        bits@,
                        a,
                        b,
                    )
                },
    {
        let ghost start = *self;
        let ghost g = self.data@;
        let size = self.size();
        let ghost s = size as int;
        let mask = self.mask_pattern;
        let pairs = (size - 1) / 2;
        let mut consumed: usize = 0;
        let ghost mut k: int = 0;
        let mut p: u32 = 0;
        while p < pairs
            invariant
                21 <= s <= 177,
                s % 2 == 1,
                s == size,
                s == self.spec_size(),
                pairs == (s - 1) / 2,
                p <= pairs,
                mask == self.mask_pattern,
                self.wf(),
                self.same_header(start),
                start == *old(self),
                g == start.data@,
                k == 2 * s * p,
                consumed == data_rank(g, s, k),
                0 <= consumed <= k,
                forall|a: int, b: int|
                    self.in_grid(a, b) ==> #[trigger] self.at(a, b) == if a != 6 && !start.at(
                        a,
                        b,
                    ).functional && walk_index(s, a, b) < k {
                        data_module(g, s, mask as int, bits@, a, b)
                    } else {
                        start.at(a, b)
                    },
            decreases pairs - p,
        {
            let right = if 2 * p < size - 7 {
                size - 1 - 2 * p
            } else {
                size - 2 - 2 * p
            };
            let mut vert: u32 = 0;
            while vert < size
                invariant
                    21 <= s <= 177,
                    s % 2 == 1,
                    s == size,
                    s == self.spec_size(),
                    pairs == (s - 1) / 2,
                    p < pairs,
                    right == pair_right(s, p as int),
                    vert <= size,
                    mask == self.mask_pattern,
                    self.wf(),
                    self.same_header(start),
                    g == start.data@,
                    k == 2 * s * p + 2 * vert,
                    consumed == data_rank(g, s, k),
                    0 <= consumed <= k,
                    forall|a: int, b: int|
                        self.in_grid(a, b) ==> #[trigger] self.at(a, b) == if a != 6
                            && !start.at(a, b).functional && walk_index(s, a, b) < k {
                            data_module(g, s, mask as int, bits@, a, b)
                        } else {
                            start.at(a, b)
                        },
                decreases size - vert,
            {
                let y = if p % 2 == 0 {
                    size - 1 - vert
                } else {
                    vert
                };
                let mut j: u32 = 0;
                while j < 2
                    invariant
                        21 <= s <= 177,
                        s % 2 == 1,
                        s == size,
                        s == self.spec_size(),
                        pairs == (s - 1) / 2,
                        p < pairs,
                        right == pair_right(s, p as int),
                        vert < size,
                        y == if p % 2 == 0 {
                            s - 1 - vert
                        } else {
                            vert as int
                        },
                        j <= 2,
                        mask == self.mask_pattern,
                        self.wf(),
                        self.same_header(start),
                        g == start.data@,
                        k == 2 * s * p + 2 * vert + j,
                        consumed == data_rank(g, s, k),
                        0 <= consumed <= k,
                        forall|a: int, b: int|
                            self.in_grid(a, b) ==> #[trigger] self.at(a, b) == if a != 6
                                && !start.at(a, b).functional && walk_index(s, a, b) < k {
                                data_module(g, s, mask as int, bits@, a, b)
                            } else {
                                start.at(a, b)
                            },
                    decreases 2 - j,
                {
                    proof {
                        lemma_walk_step(s, p as int, vert as int, j as int);
                        assert(k < 100000) by (nonlinear_arith)
                            requires
                                k == 2 * s * p + 2 * vert + j,
                                s <= 177,
                                p < 89,
                                vert < 177,
                                j < 2,
                        ;
                    }
                    let x = right - j;
                    let here = self.get(x, y);
                    if let Some(m) = here {
                        if !m.functional {
                            let bit = if consumed < bits.len() {
                                bits[consumed]
                            } else {
                                false
                            };
                            let flip = Self::mask_at(mask, x, y);
                            self.put(x, y, Module { value: bit != flip, functional: false });
                            consumed += 1;
                        }
                    }
                    proof {
                        assert forall|a: int, b: int| self.in_grid(a, b) implies #[trigger] self.at(
                            a,
                            b,
                        ) == if a != 6 && !start.at(a, b).functional && walk_index(s, a, b) < k
                            + 1 {
                            data_module(g, s, mask as int, bits@, a, b)
                        } else {
                            start.at(a, b)
                        } by {
                            if a != 6 {
                                lemma_walk_inverse(s, a, b);
                            }
                        }
                        k = k + 1;
                    }
                    j += 1;
                }
                vert += 1;
            }
            proof {
                assert(2 * s * p + 2 * s == 2 * s * (p + 1)) by (nonlinear_arith);
            }
            p += 1;
        }
        proof {
            assert forall|a: int, b: int| self.in_grid(a, b) && a != 6 implies walk_index(s, a, b)
                < k by {
                lemma_walk_inverse(s, a, b);
            }
        }
    }

    /// The mask predicate of mask index `m` at column `x`, row `y`.
    fn mask_at(m: u8, x: u32, y: u32) -> (r: bool)
        requires
            x < 177,
            y < 177,
        ensures
            r == mask_bit(m as int, x as int, y as int),
    {
        assert(x * y < 177 * 177) by (nonlinear_arith)
            requires
                x < 177,
                y < 177,
        ;
        if m == 0 {
            (x + y) % 2 == 0
        } else if m == 1 {
            y % 2 == 0
        } else if m == 2 {
            x % 3 == 0
        } else if m == 3 {
            (x + y) % 3 == 0
        } else if m == 4 {
            (y / 2 + x / 3) % 2 == 0
        } else if m == 5 {
            (x * y) % 2 + (x * y) % 3 == 0
        } else if m == 6 {
            ((x * y) % 2 + (x * y) % 3) % 2 == 0
        } else {
            ((x + y) % 2 + (x * y) % 3) % 2 == 0
        }
    }

    /// Builds the finished symbol from the data codewords: checks version, mask
    /// and payload length, adds the error correction codewords, paints the
    /// function patterns and places the codeword bits along the data walk.
    pub fn from_codewords(
        data: &Vec<u8>,
        version: u8,
        ec_level: EcLevel,
        mask_pattern: u8,
        encoding: Encoding,
    ) -> (r: Result<QrCode, QrError>)
        ensures
            !(1 <= version <= 40) ==> r == Err::<QrCode, QrError>(QrError::InvalidVersion),
            1 <= version <= 40 && mask_pattern > 7 ==> r == Err::<QrCode, QrError>(
                QrError::InvalidMask,
            ),
            1 <= version <= 40 && mask_pattern <= 7 && data@.len() != data_capacity(
                layout_of(version as int, ec_level),
            ) ==> r == Err::<QrCode, QrError>(QrError::PayloadLengthMismatch),
            1 <= version <= 40 && mask_pattern <= 7 && data@.len() == data_capacity(
                layout_of(version as int, ec_level),
            ) ==> (r matches Ok(q) && q.wf() && q.version == version && q.ec_level == ec_level
                && q.mask_pattern == mask_pattern && q.encoding == encoding && forall|a: int, b: int|
                q.in_grid(a, b) ==> #[trigger] q.at(a, b) == symbol_module(
                    version as int,
                    level_ordinal(ec_level) as int,
                    mask_pattern as int,
                    codeword_bits(codeword_stream(data@, version as int, ec_level)),
                    a,
                    b,
                )),
    {
        if version == 0 || version > 40 {
            return Err(QrError::InvalidVersion);
        }
        if mask_pattern > 7 {
            return Err(QrError::InvalidMask);
        }
        let stream = match error_correction(data, version, &ec_level) {
            Ok(stream) => stream,
            Err(e) => return Err(e),
        };
        let mut q = match QrCode::new(version, ec_level, mask_pattern, encoding) {
            Ok(q) => q,
            Err(_) => return Err(QrError::InvalidVersion),
        };
        q.all_functional_patterns();
        let ghost s = q.spec_size();
        proof {
            let lg = layout_grid(version as int, level_ordinal(ec_level) as int, mask_pattern as int);
            assert forall|i: int| 0 <= i < s * s implies q.data@[i] == lg[i] by {
                vstd::arithmetic::div_mod::lemma_fundamental_div_mod(i, s);
                assert(0 <= i % s < s) by {
                    vstd::arithmetic::div_mod::lemma_mod_bound(i, s);
                }
                vstd::arithmetic::div_mod::lemma_div_pos_is_pos(i, s);
                let d = i / s;
                assert(d < s) by (nonlinear_arith)
                    requires
                        i == s * d + i % s,
                        0 <= i % s,
                        i < s * s,
                        0 <= d,
                        0 < s,
                ;
                assert(q.at(i % s, i / s) == q.data@[i % s + s * (i / s)]);
                assert(i % s + s * (i / s) == i) by (nonlinear_arith)
                    requires
                        i == s * (i / s) + i % s,
                ;
            }
            assert(q.data@ =~= lg);
        }
        let bits = codewords_to_bits(&stream);
        q.fill(bits);
        Ok(q)
    }
}

} // verus!
