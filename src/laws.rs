use vstd::prelude::*;

use crate::ec::{
    column, columns, divide, division_step, full_generator, gf_mul, gf_mul_log, interleaved,
    max_len, poly_product, product_coeff, rs_quotient, rs_remainder,
};
use crate::gf_tables::{exp_value, lemma_exp_log, log_value};
use crate::grid::{
    alignment_cell, cell, dark_cell, data_rank, finder_corner, format_slot, layout_module,
    separator_cell, side, timing_cell, version_slot, walk_x, walk_y, Module,
};

verus! {

/// Where codeword `c` of block `b` stands in the interleaved stream: after all
/// earlier columns, and after the blocks before `b` that reach column `c`.
pub open spec fn interleave_position(blocks: Seq<Seq<u8>>, b: int, c: int) -> int {
    columns(blocks, c).len() + column(blocks, c, b).len() as int
}

proof fn lemma_max_len_bounds(blocks: Seq<Seq<u8>>, b: int)
    requires
        0 <= b < blocks.len(),
    ensures
        blocks[b].len() <= max_len(blocks),
    decreases blocks.len(),
{
    if b < blocks.len() - 1 {
        lemma_max_len_bounds(blocks.drop_last(), b);
    }
}

proof fn lemma_column_prefix(blocks: Seq<Seq<u8>>, c: int, b: int, n: int)
    requires
        0 <= b <= n,
    ensures
        column(blocks, c, b).len() <= column(blocks, c, n).len(),
        column(blocks, c, n).take(column(blocks, c, b).len() as int) == column(blocks, c, b),
    decreases n,
{
    if b < n {
        lemma_column_prefix(blocks, c, b, n - 1);
        let shorter = column(blocks, c, n - 1);
        assert(column(blocks, c, n).take(shorter.len() as int) =~= shorter);
        assert(column(blocks, c, n).take(column(blocks, c, b).len() as int) =~= shorter.take(
            column(blocks, c, b).len() as int,
        ));
    } else {
        assert(column(blocks, c, n).take(column(blocks, c, b).len() as int) =~= column(
            blocks,
            c,
            b,
        ));
    }
}

proof fn lemma_columns_prefix(blocks: Seq<Seq<u8>>, c: int, m: int)
    requires
        0 <= c <= m,
    ensures
        columns(blocks, c).len() <= columns(blocks, m).len(),
        columns(blocks, m).take(columns(blocks, c).len() as int) == columns(blocks, c),
    decreases m,
{
    if c < m {
        lemma_columns_prefix(blocks, c, m - 1);
        let shorter = columns(blocks, m - 1);
        assert(columns(blocks, m).take(shorter.len() as int) =~= shorter);
        assert(columns(blocks, m).take(columns(blocks, c).len() as int) =~= shorter.take(
            columns(blocks, c).len() as int,
        ));
    } else {
        assert(columns(blocks, m).take(columns(blocks, c).len() as int) =~= columns(blocks, c));
    }
}

/// Interleaving loses nothing: reading the stream back at the position of
/// codeword `c` of block `b` gives that codeword, so the blocks can be taken
/// apart again with the same block sizes.
pub proof fn lemma_interleave_positions(blocks: Seq<Seq<u8>>, b: int, c: int)
    requires
        0 <= b < blocks.len(),
        0 <= c < blocks[b].len(),
    ensures
        0 <= interleave_position(blocks, b, c) < interleaved(blocks).len(),
        interleaved(blocks)[interleave_position(blocks, b, c)] == blocks[b][c],
{
    lemma_max_len_bounds(blocks, b);
    let m = max_len(blocks) as int;
    lemma_columns_prefix(blocks, c + 1, m);
    lemma_column_prefix(blocks, c, b + 1, blocks.len() as int);
    let pre = columns(blocks, c);
    let col = column(blocks, c, blocks.len() as int);
    assert(columns(blocks, c + 1) == pre + col);
    assert(column(blocks, c, b + 1) == column(blocks, c, b) + seq![blocks[b][c]]);
    let pos = interleave_position(blocks, b, c);
    assert(col[column(blocks, c, b).len() as int] == column(blocks, c, b + 1)[column(
        blocks,
        c,
        b,
    ).len() as int]);
    assert(columns(blocks, c + 1)[pos] == blocks[b][c]);
    assert(interleaved(blocks)[pos] == columns(blocks, c + 1)[pos]);
}

/// Whether the walk's step `k` lands on a free module of `g`.
pub open spec fn walk_free(g: Seq<Module>, s: int, k: int) -> bool {
    !cell(g, s, walk_x(s, k), walk_y(s, k)).functional
}

proof fn lemma_rank_monotone(g: Seq<Module>, s: int, k1: int, k2: int)
    requires
        0 <= k1 <= k2,
    ensures
        data_rank(g, s, k1) <= data_rank(g, s, k2),
        k1 < k2 && walk_free(g, s, k1) ==> data_rank(g, s, k1) < data_rank(g, s, k2),
    decreases k2 - k1,
{
    if k1 < k2 {
        lemma_rank_monotone(g, s, k1, k2 - 1);
        if k1 == k2 - 1 {
        } else {
            lemma_rank_monotone(g, s, k1 + 1, k2);
        }
    }
}

proof fn lemma_rank_reached(g: Seq<Module>, s: int, i: int, n: int)
    requires
        0 <= i < data_rank(g, s, n),
        0 <= n,
    ensures
        exists|k: int| 0 <= k < n && walk_free(g, s, k) && data_rank(g, s, k) == i,
    decreases n,
{
    if n > 0 {
        if i < data_rank(g, s, n - 1) {
            lemma_rank_reached(g, s, i, n - 1);
            let k = choose|k: int| 0 <= k < n - 1 && walk_free(g, s, k) && data_rank(g, s, k) == i;
            assert(0 <= k < n && walk_free(g, s, k) && data_rank(g, s, k) == i);
        } else {
            assert(walk_free(g, s, n - 1) && data_rank(g, s, n - 1) == i);
        }
    }
}

/// The data walk places each bit exactly once: for every bit index below the
/// number `data_rank(g, s, n)` of free modules among the first `n` steps, there
/// is one and only one such step that lands on a free module and takes that bit.
pub proof fn lemma_each_bit_placed_once(g: Seq<Module>, s: int, n: int, i: int)
    requires
        0 <= n,
        0 <= i < data_rank(g, s, n),
    ensures
        exists|k: int| 0 <= k < n && walk_free(g, s, k) && data_rank(g, s, k) == i,
        forall|k1: int, k2: int|
            0 <= k1 < n && 0 <= k2 < n && walk_free(g, s, k1) && walk_free(g, s, k2)
                && #[trigger] data_rank(g, s, k1) == i && #[trigger] data_rank(g, s, k2) == i
                ==> k1 == k2,
{
    lemma_rank_reached(g, s, i, n);
    assert forall|k1: int, k2: int|
        0 <= k1 < n && 0 <= k2 < n && walk_free(g, s, k1) && walk_free(g, s, k2)
            && #[trigger] data_rank(g, s, k1) == i && #[trigger] data_rank(g, s, k2) == i
            implies k1 == k2 by {
        if k1 < k2 {
            lemma_rank_monotone(g, s, k1, k2);
        } else if k2 < k1 {
            lemma_rank_monotone(g, s, k2, k1);
        }
    }
}

/// After the function patterns are painted, exactly the modules of the finders,
/// separators, drawn alignment patterns, timing patterns, dark module, format
/// bits and (from version 7) version bits are reserved.
pub proof fn lemma_layout_reserved(version: int, level: int, mask: int, x: int, y: int)
    requires
        1 <= version <= 40,
    ensures
        layout_module(version, level, mask, x, y).functional <==> ({
            let s = side(version);
            ||| finder_corner(s, x, y) is Some
            ||| separator_cell(s, x, y)
            ||| alignment_cell(version, x, y)
            ||| timing_cell(s, x, y)
            ||| dark_cell(version, x, y)
            ||| format_slot(s, x, y) >= 0
            ||| (version >= 7 && version_slot(s, x, y) >= 0)
        }),
{
}

proof fn lemma_xor(a: u8, b: u8, c: u8)
    ensures
        a ^ 0 == a,
        0 ^ a == a,
        (a ^ b) ^ c == a ^ (b ^ c),
        b ^ (a ^ b) == a,
{
    assert(a ^ 0 == a && 0 ^ a == a && (a ^ b) ^ c == a ^ (b ^ c) && b ^ (a ^ b) == a)
        by (bit_vector);
}

proof fn lemma_product_settles(q: Seq<u8>, p: Seq<u8>, t: int, i: int)
    requires
        0 <= t < i,
    ensures
        product_coeff(q, p, t, i) == product_coeff(q, p, t, t + 1),
    decreases i,
{
    if i > t + 1 {
        lemma_product_settles(q, p, t, i - 1);
        lemma_xor(product_coeff(q, p, t, i - 1), 0, 0);
    }
}

/// After `i` steps of the division, every position from `i` on holds its
/// starting value plus the products of the quotient so far with the generator.
proof fn lemma_division_tracks(block: Seq<u8>, g: Seq<u8>, i: int)
    requires
        forall|j: int| 0 <= j < g.len() ==> g[j] < 255,
        0 <= i <= block.len(),
    ensures
        ({
            let c0 = block + Seq::new(g.len(), |t: int| 0u8);
            let c = divide(c0, g, i as nat);
            &&& c.len() == c0.len()
            &&& forall|t: int|
                i <= t < c0.len() ==> #[trigger] c[t] == c0[t] ^ product_coeff(
                    rs_quotient(block, g),
                    full_generator(g),
                    t,
                    i,
                )
        }),
    decreases i,
{
    let c0 = block + Seq::new(g.len(), |t: int| 0u8);
    let q = rs_quotient(block, g);
    let gen = full_generator(g);
    if i == 0 {
        assert forall|t: int| 0 <= t < c0.len() implies #[trigger] divide(c0, g, 0)[t] == c0[t]
            ^ product_coeff(q, gen, t, 0) by {
            lemma_xor(c0[t], 0, 0);
        }
    } else {
        lemma_division_tracks(block, g, i - 1);
        lemma_exp_log();
        let prev = divide(c0, g, (i - 1) as nat);
        let c = divide(c0, g, i as nat);
        assert(c == division_step(prev, g, i - 1));
        assert(q[i - 1] == prev[i - 1]);
        assert forall|t: int| i <= t < c0.len() implies #[trigger] c[t] == c0[t] ^ product_coeff(
            q,
            gen,
            t,
            i,
        ) by {
            let before = product_coeff(q, gen, t, i - 1);
            let lead = prev[i - 1];
            let term = if 0 <= t - (i - 1) < gen.len() {
                gf_mul(lead, gen[t - (i - 1)])
            } else {
                0u8
            };
            assert(product_coeff(q, gen, t, i) == before ^ term);
            if lead != 0 && t - (i - 1) < gen.len() {
                let e = g[t - i];
                assert(gen[t - (i - 1)] == exp_value(e as int));
                assert(log_value(exp_value(e as int) as int) == e);
                assert(term == gf_mul_log(e, log_value(lead as int)));
                assert(c[t] == prev[t] ^ term);
            } else {
                assert(term == 0);
                assert(c[t] == prev[t]);
                lemma_xor(before, 0, 0);
            }
            lemma_xor(c0[t], before, term);
        }
    }
}

/// Each block followed by its error correction codewords is a multiple of the
/// generator polynomial: it equals, coefficient by coefficient in GF(256), the
/// product of the quotient of the long division and the generator.
pub proof fn lemma_rs_multiple_of_generator(block: Seq<u8>, g: Seq<u8>)
    requires
        forall|j: int| 0 <= j < g.len() ==> g[j] < 255,
    ensures
        block + rs_remainder(block, g) == poly_product(rs_quotient(block, g), full_generator(g)),
{
    let n = block.len() as int;
    let c0 = block + Seq::new(g.len(), |t: int| 0u8);
    let q = rs_quotient(block, g);
    let gen = full_generator(g);
    let lhs = block + rs_remainder(block, g);
    let rhs = poly_product(q, gen);
    lemma_division_tracks(block, g, n);
    lemma_exp_log();
    assert forall|t: int| 0 <= t < lhs.len() implies lhs[t] == rhs[t] by {
        if t < n {
            lemma_division_tracks(block, g, t);
            let ct = divide(c0, g, t as nat);
            let before = product_coeff(q, gen, t, t);
            assert(q[t] == ct[t]);
            assert(ct[t] == c0[t] ^ before);
            assert(gf_mul(q[t], gen[0]) == q[t]);
            assert(product_coeff(q, gen, t, t + 1) == before ^ q[t]);
            lemma_xor(c0[t], before, 0);
            lemma_xor(c0[t], before, before);
            assert(before ^ (c0[t] ^ before) == c0[t]) by {
                lemma_xor(c0[t], before, 0);
            }
            lemma_product_settles(q, gen, t, n);
        } else {
            let c = divide(c0, g, n as nat);
            assert(lhs[t] == c[t]);
            lemma_xor(product_coeff(q, gen, t, n), 0, 0);
        }
    }
    assert(lhs =~= rhs);
}

} // verus!
