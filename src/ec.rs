use vstd::prelude::*;

use crate::generator_table::{generator_of, generator_polynomial};
use crate::gf_tables::{exp_at, exp_value, log_at, log_value};
use crate::tables::{block_layout, data_bytes_per_block, ec_bytes_per_block, ec_size_of};

verus! {

/// Error correction level of a symbol.
#[derive(Clone, Copy, PartialEq, Eq, Structural, Debug)]
pub enum EcLevel {
    H,
    Q,
    M,
    L,
}

/// Column of a level in the parameter tables: L, M, Q, H in that order.
pub open spec fn level_ordinal(level: EcLevel) -> u8 {
    match level {
        EcLevel::L => 0,
        EcLevel::M => 1,
        EcLevel::Q => 2,
        EcLevel::H => 3,
    }
}

impl EcLevel {
    pub fn ordinal(&self) -> (r: u8)
        ensures
            r == level_ordinal(*self),
    {
        match self {
            EcLevel::L => 0,
            EcLevel::M => 1,
            EcLevel::Q => 2,
            EcLevel::H => 3,
        }
    }
}

/// Why a symbol could not be built.
#[derive(Clone, Copy, PartialEq, Eq, Structural, Debug)]
pub enum QrError {
    /// The version lies outside 1 to 40.
    InvalidVersion,
    /// The mask index lies outside 0 to 7.
    InvalidMask,
    /// The data codewords do not have the length that version and level call for.
    PayloadLengthMismatch,
}

// ---------------------------------------------------------------------------
// Reed-Solomon remainder over GF(256)
// ---------------------------------------------------------------------------

/// The field element alpha^g times the element whose logarithm is `lead_log`.
pub open spec fn gf_mul_log(g: u8, lead_log: u8) -> u8 {
    exp_value((g as int + lead_log as int) % 255)
}

/// One step of the long division by the generator `g` (in log form): the
/// coefficient at position `i` is cancelled by subtracting (XOR) the generator
/// scaled by that coefficient from the positions after it.
pub open spec fn division_step(c: Seq<u8>, g: Seq<u8>, i: int) -> Seq<u8> {
    if c[i] == 0 {
        c
    } else {
        Seq::new(
            c.len(),
            |t: int|
                if i < t <= i + g.len() {
                    c[t] ^ gf_mul_log(g[t - i - 1], log_value(c[i] as int))
                } else {
                    c[t]
                },
        )
    }
}

/// The first `n` steps of the long division.
pub open spec fn divide(c: Seq<u8>, g: Seq<u8>, n: nat) -> Seq<u8>
    decreases n,
{
    if n == 0 {
        c
    } else {
        division_step(divide(c, g, (n - 1) as nat), g, n - 1)
    }
}

/// The error correction codewords of a block: the remainder of the block,
/// shifted up by the generator's degree, divided by the generator.
pub open spec fn rs_remainder(block: Seq<u8>, g: Seq<u8>) -> Seq<u8> {
    divide(block + Seq::new(g.len(), |t: int| 0u8), g, block.len()).subrange(
        block.len() as int,
        (block.len() + g.len()) as int,
    )
}

/// Computes the `ec_size` error correction codewords of one block by long
/// division with the generator polynomial given in log form.
pub fn create_ec_for_block(block: Vec<u8>, ec_size: usize, generator_polynomial: &[u8]) -> (r:
    Vec<u8>)
    requires
        generator_polynomial@.len() == ec_size,
        block@.len() + ec_size <= usize::MAX,
    ensures
        r@ == rs_remainder(block@, generator_polynomial@),
        r@.len() == ec_size,
{
    let ghost g = generator_polynomial@;
    let ghost b = block@;
    let data_len = block.len();
    let mut codewords = block;
    codewords.resize(data_len + ec_size, 0);
    let ghost c0 = codewords@;
    assert(c0 =~= b + Seq::new(g.len(), |t: int| 0u8));

    let mut i: usize = 0;
    while i < data_len
        invariant
            i <= data_len,
            codewords@.len() == data_len + ec_size,
            data_len + ec_size <= usize::MAX,
            g.len() == ec_size,
            generator_polynomial@ == g,
            codewords@ == divide(c0, g, i as nat),
        decreases data_len - i,
    {
        let lead = codewords[i];
        if lead != 0 {
            let lead_log = log_at(lead);
            let ghost before = codewords@;
            let mut j: usize = 0;
            while j < ec_size
                invariant
                    j <= ec_size,
                    i < data_len,
                    g.len() == ec_size,
                    generator_polynomial@ == g,
                    before.len() == data_len + ec_size,
                    data_len + ec_size <= usize::MAX,
                    before[i as int] == lead,
                    lead_log == log_value(lead as int),
                    codewords@ == Seq::new(
                        before.len(),
                        |t: int|
                            if i < t <= i + j {
                                before[t] ^ gf_mul_log(g[t - i - 1], lead_log)
                            } else {
                                before[t]
                            },
                    ),
                decreases ec_size - j,
            {
                let pos = i + 1 + j;
                let e = exp_at(((generator_polynomial[j] as usize) + (lead_log as usize)) % 255);
                let v = codewords[pos] ^ e;
                codewords.set(pos, v);
                j += 1;
                assert(codewords@ =~= Seq::new(
                    before.len(),
                    |t: int|
                        if i < t <= i + j {
                            before[t] ^ gf_mul_log(g[t - i - 1], lead_log)
                        } else {
                            before[t]
                        },
                ));
            }
            assert(codewords@ =~= division_step(before, g, i as int));
        }
        i += 1;
    }
    let r = codewords.split_off(data_len);
    assert(r@ =~= rs_remainder(b, g));
    r
}

/// The quotient of the long division: the leading coefficient met at each step.
pub open spec fn rs_quotient(block: Seq<u8>, g: Seq<u8>) -> Seq<u8> {
    let c0 = block + Seq::new(g.len(), |t: int| 0u8);
    Seq::new(block.len(), |i: int| divide(c0, g, i as nat)[i])
}

/// Product of two field elements, through the logarithm tables.
pub open spec fn gf_mul(a: u8, b: u8) -> u8 {
    if a == 0 || b == 0 {
        0
    } else {
        exp_value((log_value(a as int) + log_value(b as int)) % 255)
    }
}

/// The generator polynomial with its leading 1, as field elements, highest
/// power first.
pub open spec fn full_generator(g: Seq<u8>) -> Seq<u8> {
    Seq::new(g.len() + 1, |d: int| if d == 0 { 1u8 } else { exp_value(g[d - 1] as int) })
}

/// Coefficient `t` of the product of `q` and `p` (highest power first), summed
/// over the first `i` coefficients of `q`; addition in GF(256) is XOR.
pub open spec fn product_coeff(q: Seq<u8>, p: Seq<u8>, t: int, i: int) -> u8
    decreases i,
{
    if i <= 0 {
        0
    } else {
        product_coeff(q, p, t, i - 1) ^ if 0 <= t - (i - 1) < p.len() {
            gf_mul(q[i - 1], p[t - (i - 1)])
        } else {
            0u8
        }
    }
}

/// The product of two polynomials over GF(256), highest power first.
pub open spec fn poly_product(q: Seq<u8>, p: Seq<u8>) -> Seq<u8> {
    Seq::new((q.len() + p.len() - 1) as nat, |t: int| product_coeff(q, p, t, q.len() as int))
}

// ---------------------------------------------------------------------------
// Interleaving
// ---------------------------------------------------------------------------

/// The views of a sequence of byte vectors.
pub open spec fn block_views(blocks: Seq<Vec<u8>>) -> Seq<Seq<u8>> {
    blocks.map_values(|b: Vec<u8>| b@)
}

/// The length of the longest block (0 for no blocks).
pub open spec fn max_len(blocks: Seq<Seq<u8>>) -> nat
    decreases blocks.len(),
{
    if blocks.len() == 0 {
        0
    } else {
        let m = max_len(blocks.drop_last());
        if blocks.last().len() > m {
            blocks.last().len()
        } else {
            m
        }
    }
}

/// The codewords at position `c` of the first `n` blocks that are long enough,
/// in block order.
pub open spec fn column(blocks: Seq<Seq<u8>>, c: int, n: int) -> Seq<u8>
    decreases n,
{
    if n <= 0 {
        Seq::empty()
    } else {
        column(blocks, c, n - 1) + if c < blocks[n - 1].len() {
            seq![blocks[n - 1][c]]
        } else {
            Seq::empty()
        }
    }
}

/// The columns 0 to `m - 1` of all blocks, one after another.
pub open spec fn columns(blocks: Seq<Seq<u8>>, m: int) -> Seq<u8>
    decreases m,
{
    if m <= 0 {
        Seq::empty()
    } else {
        columns(blocks, m - 1) + column(blocks, m - 1, blocks.len() as int)
    }
}

/// The blocks read column by column: for each position, each block long enough
/// contributes its codeword there, in block order.
pub open spec fn interleaved(blocks: Seq<Seq<u8>>) -> Seq<u8> {
    columns(blocks, max_len(blocks) as int)
}

/// Reads the blocks column by column.
pub fn interleave(blocks: Vec<Vec<u8>>) -> (r: Vec<u8>)
    ensures
        r@ == interleaved(block_views(blocks@)),
{
    let ghost bv = block_views(blocks@);
    let mut max: usize = 0;
    let mut b: usize = 0;
    while b < blocks.len()
        invariant
            b <= blocks@.len(),
            bv == block_views(blocks@),
            max == max_len(bv.take(b as int)),
        decreases blocks@.len() - b,
    {
        assert(bv.take(b + 1).drop_last() =~= bv.take(b as int));
        if blocks[b].len() > max {
            max = blocks[b].len();
        }
        b += 1;
    }
    assert(bv.take(blocks@.len() as int) =~= bv);

    let mut result: Vec<u8> = Vec::new();
    let mut i: usize = 0;
    while i < max
        invariant
            i <= max,
            max == max_len(bv),
            bv == block_views(blocks@),
            result@ == columns(bv, i as int),
        decreases max - i,
    {
        let mut b: usize = 0;
        while b < blocks.len()
            invariant
                b <= blocks@.len(),
                i < max,
                bv == block_views(blocks@),
                result@ == columns(bv, i as int) + column(bv, i as int, b as int),
            decreases blocks@.len() - b,
        {
            if i < blocks[b].len() {
                result.push(blocks[b][i]);
            }
            b += 1;
            assert(result@ =~= columns(bv, i as int) + column(bv, i as int, b as int));
        }
        i += 1;
    }
    result
}

// ---------------------------------------------------------------------------
// The codeword stream of a symbol
// ---------------------------------------------------------------------------

/// Number of blocks of a layout `(size1, count1, size2, count2)`.
pub open spec fn block_count(layout: (int, int, int, int)) -> int {
    layout.1 + layout.3
}

/// Number of data codewords of a layout.
pub open spec fn data_capacity(layout: (int, int, int, int)) -> int {
    layout.0 * layout.1 + layout.2 * layout.3
}

/// Size of block `b`: the blocks of group 1 come first.
pub open spec fn block_size(layout: (int, int, int, int), b: int) -> int {
    if b < layout.1 {
        layout.0
    } else {
        layout.2
    }
}

/// Where block `b` starts in the data codewords.
pub open spec fn block_start(layout: (int, int, int, int), b: int) -> int {
    if b < layout.1 {
        b * layout.0
    } else {
        layout.1 * layout.0 + (b - layout.1) * layout.2
    }
}

/// The data codewords cut into the blocks of a layout, in order.
pub open spec fn data_blocks(data: Seq<u8>, layout: (int, int, int, int)) -> Seq<Seq<u8>> {
    Seq::new(
        block_count(layout) as nat,
        |b: int| data.subrange(block_start(layout, b), block_start(layout, b) + block_size(layout, b)),
    )
}

/// The error correction codewords of each block.
pub open spec fn ec_blocks(blocks: Seq<Seq<u8>>, g: Seq<u8>) -> Seq<Seq<u8>> {
    blocks.map_values(|blk: Seq<u8>| rs_remainder(blk, g))
}

/// The layout of the data blocks of a version and level.
pub open spec fn layout_of(version: int, level: EcLevel) -> (int, int, int, int) {
    block_layout(version, level_ordinal(level) as int)
}

/// The codewords of a symbol in the order they are placed: the data blocks
/// interleaved, then their error correction blocks interleaved.
pub open spec fn codeword_stream(data: Seq<u8>, version: int, level: EcLevel) -> Seq<u8> {
    let blocks = data_blocks(data, layout_of(version, level));
    let g = generator_of(ec_size_of(version, level_ordinal(level) as int));
    interleaved(blocks) + interleaved(ec_blocks(blocks, g))
}

proof fn lemma_block_bounds(layout: (int, int, int, int), b: int)
    requires
        0 <= layout.0,
        0 <= layout.1,
        0 <= layout.2,
        0 <= layout.3,
        0 <= b < block_count(layout),
    ensures
        0 <= block_start(layout, b),
        block_start(layout, b) + block_size(layout, b) == block_start(layout, b + 1),
        block_start(layout, b + 1) <= data_capacity(layout),
{
    let (s1, n1, s2, n2) = layout;
    if b < n1 {
        assert(0 <= b * s1 && b * s1 + s1 == (b + 1) * s1 && (b + 1) * s1 <= n1 * s1)
            by (nonlinear_arith)
            requires
                0 <= b < n1,
                0 <= s1,
        ;
        if b + 1 == n1 {
            assert(block_start(layout, b + 1) == n1 * s1 + 0 * s2);
        }
        assert(n1 * s1 == s1 * n1) by (nonlinear_arith);
        assert(0 <= s2 * n2) by (nonlinear_arith)
            requires
                0 <= s2,
                0 <= n2,
        ;
    } else {
        let k = b - n1;
        assert(0 <= k * s2 && k * s2 + s2 == (k + 1) * s2 && (k + 1) * s2 <= n2 * s2)
            by (nonlinear_arith)
            requires
                0 <= k < n2,
                0 <= s2,
        ;
        assert(0 <= n1 * s1) by (nonlinear_arith)
            requires
                0 <= s1,
                0 <= n1,
        ;
        assert(n1 * s1 == s1 * n1 && n2 * s2 == s2 * n2) by (nonlinear_arith);
    }
}

/// Cuts the data codewords into blocks, computes the error correction codewords
/// of each block, and returns the data blocks interleaved followed by the error
/// correction blocks interleaved.
#[verifier::loop_isolation(false)]
pub fn error_correction(data: &Vec<u8>, version: u8, ec_level: &EcLevel) -> (r: Result<
    Vec<u8>,
    QrError,
>)
    ensures
        !(1 <= version <= 40) ==> r == Err::<Vec<u8>, QrError>(QrError::InvalidVersion),
        1 <= version <= 40 && data@.len() != data_capacity(layout_of(version as int, *ec_level))
            ==> r == Err::<Vec<u8>, QrError>(QrError::PayloadLengthMismatch),
        1 <= version <= 40 && data@.len() == data_capacity(layout_of(version as int, *ec_level))
            ==> (r matches Ok(out) && out@ == codeword_stream(data@, version as int, *ec_level)),
{
    if version == 0 || version > 40 {
        return Err(QrError::InvalidVersion);
    }
    let ord = ec_level.ordinal();
    let (s1, n1, s2, n2) = data_bytes_per_block(version, ord);
    let ghost layout = layout_of(version as int, *ec_level);
    assert(s1 * n1 <= 122 * 59 && s2 * n2 <= 123 * 67) by (nonlinear_arith)
        requires
            s1 <= 122,
            n1 <= 59,
            s2 <= 123,
            n2 <= 67,
    ;
    let total = s1 * n1 + s2 * n2;
    assert(total == data_capacity(layout)) by (nonlinear_arith)
        requires
            total == s1 * n1 + s2 * n2,
            layout == (s1 as int, n1 as int, s2 as int, n2 as int),
    ;
    if data.len() != total {
        return Err(QrError::PayloadLengthMismatch);
    }
    let ec_size = ec_bytes_per_block(version, ord);
    let g = generator_polynomial(ec_size);
    let ghost blocks_spec = data_blocks(data@, layout);
    let ghost ecs_spec = ec_blocks(blocks_spec, g@);

    let mut blocks: Vec<Vec<u8>> = Vec::new();
    let mut ecs: Vec<Vec<u8>> = Vec::new();
    let mut start: usize = 0;
    let mut b: usize = 0;
    while b < n1 + n2
        invariant
            layout == (s1 as int, n1 as int, s2 as int, n2 as int),
            s1 <= 122,
            n1 <= 59,
            s2 <= 123,
            n2 <= 67,
            data@.len() == data_capacity(layout),
            data@.len() == total,
            b <= n1 + n2,
            start == block_start(layout, b as int),
            g@.len() == ec_size,
            ec_size <= 30,
            blocks_spec == data_blocks(data@, layout),
            ecs_spec == ec_blocks(blocks_spec, g@),
            block_views(blocks@) == blocks_spec.take(b as int),
            block_views(ecs@) == ecs_spec.take(b as int),
        decreases n1 + n2 - b,
    {
        proof {
            lemma_block_bounds(layout, b as int);
        }
        let size = if b < n1 {
            s1
        } else {
            s2
        };
        let mut blk: Vec<u8> = Vec::new();
        let mut copy: Vec<u8> = Vec::new();
        let mut t: usize = 0;
        while t < size
            invariant
                t <= size,
                size == block_size(layout, b as int),
                start + size <= data@.len(),
                blk@ == data@.subrange(start as int, start + t),
                copy@ == blk@,
            decreases size - t,
        {
            blk.push(data[start + t]);
            copy.push(data[start + t]);
            t += 1;
            assert(blk@ =~= data@.subrange(start as int, start + t));
        }
        let ec = create_ec_for_block(copy, ec_size, g.as_slice());
        blocks.push(blk);
        ecs.push(ec);
        start = start + size;
        b += 1;
        assert(block_views(blocks@) =~= blocks_spec.take(b as int));
        assert(block_views(ecs@) =~= ecs_spec.take(b as int));
    }
    assert(blocks_spec.take(b as int) =~= blocks_spec);
    assert(ecs_spec.take(b as int) =~= ecs_spec);
    let mut out = interleave(blocks);
    let mut tail = interleave(ecs);
    out.append(&mut tail);
    Ok(out)
}

} // verus!
