use vstd::prelude::*;

verus! {

/// Error correction codewords per block, indexed by `(version - 1) * 4 + level`,
/// with the levels in the order L, M, Q, H.
pub const EC_BYTES_PER_BLOCK: [usize; 160] = [
    7, 10, 13, 17, 10, 16, 22, 28, 15, 26, 18, 22, 20, 18, 26, 16,
    26, 24, 18, 22, 18, 16, 24, 28, 20, 18, 18, 26, 24, 22, 22, 26,
    30, 22, 20, 24, 18, 26, 24, 28, 20, 30, 28, 24, 24, 22, 26, 28,
    26, 22, 24, 22, 30, 24, 20, 24, 22, 24, 30, 24, 24, 28, 24, 30,
    28, 28, 28, 28, 30, 26, 28, 28, 28, 26, 26, 26, 28, 26, 30, 28,
    28, 26, 28, 30, 28, 28, 30, 24, 30, 28, 30, 30, 30, 28, 30, 30,
    26, 28, 30, 30, 28, 28, 28, 30, 30, 28, 30, 30, 30, 28, 30, 30,
    30, 28, 30, 30, 30, 28, 30, 30, 30, 28, 30, 30, 30, 28, 30, 30,
    30, 28, 30, 30, 30, 28, 30, 30, 30, 28, 30, 30, 30, 28, 30, 30,
    30, 28, 30, 30, 30, 28, 30, 30, 30, 28, 30, 30, 30, 28, 30, 30,
];

/// The blocks of data codewords, indexed as `EC_BYTES_PER_BLOCK`: block size and
/// block count of the first group, then of the second (zero where there is none).
pub const DATA_BYTES_PER_BLOCK: [[usize; 4]; 160] = [
    [19, 1, 0, 0],
    [16, 1, 0, 0],
    [13, 1, 0, 0],
    [9, 1, 0, 0],
    [34, 1, 0, 0],
    [28, 1, 0, 0],
    [22, 1, 0, 0],
    [16, 1, 0, 0],
    [55, 1, 0, 0],
    [44, 1, 0, 0],
    [17, 2, 0, 0],
    [13, 2, 0, 0],
    [80, 1, 0, 0],
    [32, 2, 0, 0],
    [24, 2, 0, 0],
    [9, 4, 0, 0],
    [108, 1, 0, 0],
    [43, 2, 0, 0],
    [15, 2, 16, 2],
    [11, 2, 12, 2],
    [68, 2, 0, 0],
    [27, 4, 0, 0],
    [19, 4, 0, 0],
    [15, 4, 0, 0],
    [78, 2, 0, 0],
    [31, 4, 0, 0],
    [14, 2, 15, 4],
    [13, 4, 14, 1],
    [97, 2, 0, 0],
    [38, 2, 39, 2],
    [18, 4, 19, 2],
    [14, 4, 15, 2],
    [116, 2, 0, 0],
    [36, 3, 37, 2],
    [16, 4, 17, 4],
    [12, 4, 13, 4],
    [68, 2, 69, 2],
    [43, 4, 44, 1],
    [19, 6, 20, 2],
    [15, 6, 16, 2],
    [81, 4, 0, 0],
    [50, 1, 51, 4],
    [22, 4, 23, 4],
    [12, 3, 13, 8],
    [92, 2, 93, 2],
    [36, 6, 37, 2],
    [20, 4, 21, 6],
    [14, 7, 15, 4],
    [107, 4, 0, 0],
    [37, 8, 38, 1],
    [20, 8, 21, 4],
    [11, 12, 12, 4],
    [115, 3, 116, 1],
    [40, 4, 41, 5],
    [16, 11, 17, 5],
    [12, 11, 13, 5],
    [87, 5, 88, 1],
    [41, 5, 42, 5],
    [24, 5, 25, 7],
    [12, 11, 13, 7],
    [98, 5, 99, 1],
    [45, 7, 46, 3],
    [19, 15, 20, 2],
    [15, 3, 16, 13],
    [107, 1, 108, 5],
    [46, 10, 47, 1],
    [22, 1, 23, 15],
    [14, 2, 15, 17],
    [120, 5, 121, 1],
    [43, 9, 44, 4],
    [22, 17, 23, 1],
    [14, 2, 15, 19],
    [113, 3, 114, 4],
    [44, 3, 45, 11],
    [21, 17, 22, 4],
    [13, 9, 14, 16],
    [107, 3, 108, 5],
    [41, 3, 42, 13],
    [24, 15, 25, 5],
    [15, 15, 16, 10],
    [116, 4, 117, 4],
    [42, 17, 0, 0],
    [22, 17, 23, 6],
    [16, 19, 17, 6],
    [111, 2, 112, 7],
    [46, 17, 0, 0],
    [24, 7, 25, 16],
    [13, 34, 0, 0],
    [121, 4, 122, 5],
    [47, 4, 48, 14],
    [24, 11, 25, 14],
    [15, 16, 16, 14],
    [117, 6, 118, 4],
    [45, 6, 46, 14],
    [24, 11, 25, 16],
    [16, 30, 17, 2],
    [106, 8, 107, 4],
    [47, 8, 48, 13],
    [24, 7, 25, 22],
    [15, 22, 16, 13],
    [114, 10, 115, 2],
    [46, 19, 47, 4],
    [22, 28, 23, 6],
    [16, 33, 17, 4],
    [122, 8, 123, 4],
    [45, 22, 46, 3],
    [23, 8, 24, 26],
    [15, 12, 16, 28],
    [117, 3, 118, 10],
    [45, 3, 46, 23],
    [24, 4, 25, 31],
    [15, 11, 16, 31],
    [116, 7, 117, 7],
    [45, 21, 46, 7],
    [23, 1, 24, 37],
    [15, 19, 16, 26],
    [115, 5, 116, 10],
    [47, 19, 48, 10],
    [24, 15, 25, 25],
    [15, 23, 16, 25],
    [115, 13, 116, 3],
    [46, 2, 47, 29],
    [24, 42, 25, 1],
    [15, 23, 16, 28],
    [115, 17, 0, 0],
    [46, 10, 47, 23],
    [24, 10, 25, 35],
    [15, 19, 16, 35],
    [115, 17, 116, 1],
    [46, 14, 47, 21],
    [24, 29, 25, 19],
    [15, 11, 16, 46],
    [115, 13, 116, 6],
    [46, 14, 47, 23],
    [24, 44, 25, 7],
    [16, 59, 17, 1],
    [121, 12, 122, 7],
    [47, 12, 48, 26],
    [24, 39, 25, 14],
    [15, 22, 16, 41],
    [121, 6, 122, 14],
    [47, 6, 48, 34],
    [24, 46, 25, 10],
    [15, 2, 16, 64],
    [122, 17, 123, 4],
    [46, 29, 47, 14],
    [24, 49, 25, 10],
    [15, 24, 16, 46],
    [122, 4, 123, 18],
    [46, 13, 47, 32],
    [24, 48, 25, 14],
    [15, 42, 16, 32],
    [117, 20, 118, 4],
    [47, 40, 48, 7],
    [24, 43, 25, 22],
    [15, 10, 16, 67],
    [118, 19, 119, 6],
    [47, 18, 48, 31],
    [24, 34, 25, 34],
    [15, 20, 16, 61],
];

/// Centre coordinates of the alignment patterns for versions 2 to 40 (row
/// `version - 2`). Version v has `v / 7 + 2` of them; the rest of a row is zero.
pub const ALIGNMENT_CENTERS: [[u8; 7]; 39] = [
    [6, 18, 0, 0, 0, 0, 0],
    [6, 22, 0, 0, 0, 0, 0],
    [6, 26, 0, 0, 0, 0, 0],
    [6, 30, 0, 0, 0, 0, 0],
    [6, 34, 0, 0, 0, 0, 0],
    [6, 22, 38, 0, 0, 0, 0],
    [6, 24, 42, 0, 0, 0, 0],
    [6, 26, 46, 0, 0, 0, 0],
    [6, 28, 50, 0, 0, 0, 0],
    [6, 30, 54, 0, 0, 0, 0],
    [6, 32, 58, 0, 0, 0, 0],
    [6, 34, 62, 0, 0, 0, 0],
    [6, 26, 46, 66, 0, 0, 0],
    [6, 26, 48, 70, 0, 0, 0],
    [6, 26, 50, 74, 0, 0, 0],
    [6, 30, 54, 78, 0, 0, 0],
    [6, 30, 56, 82, 0, 0, 0],
    [6, 30, 58, 86, 0, 0, 0],
    [6, 34, 62, 90, 0, 0, 0],
    [6, 28, 50, 72, 94, 0, 0],
    [6, 26, 50, 74, 98, 0, 0],
    [6, 30, 54, 78, 102, 0, 0],
    [6, 28, 54, 80, 106, 0, 0],
    [6, 32, 58, 84, 110, 0, 0],
    [6, 30, 58, 86, 114, 0, 0],
    [6, 34, 62, 90, 118, 0, 0],
    [6, 26, 50, 74, 98, 122, 0],
    [6, 30, 54, 78, 102, 126, 0],
    [6, 26, 52, 78, 104, 130, 0],
    [6, 30, 56, 82, 108, 134, 0],
    [6, 34, 60, 86, 112, 138, 0],
    [6, 30, 58, 86, 114, 142, 0],
    [6, 34, 62, 90, 118, 146, 0],
    [6, 30, 54, 78, 102, 126, 150],
    [6, 24, 50, 76, 102, 128, 154],
    [6, 28, 54, 80, 106, 132, 158],
    [6, 32, 58, 84, 110, 136, 162],
    [6, 26, 54, 82, 110, 138, 166],
    [6, 30, 58, 86, 114, 142, 170],
];

/// The 15 format bits, error correction code and final mask included, indexed by
/// `level * 8 + mask` with the levels in the order L, M, Q, H.
pub const FORMAT_BITS: [u32; 32] = [
    0x77C4, 0x72F3, 0x7DAA, 0x789D, 0x662F, 0x6318, 0x6C41, 0x6976,
    0x5412, 0x5125, 0x5E7C, 0x5B4B, 0x45F9, 0x40CE, 0x4F97, 0x4AA0,
    0x355F, 0x3068, 0x3F31, 0x3A06, 0x24B4, 0x2183, 0x2EDA, 0x2BED,
    0x1689, 0x13BE, 0x1CE7, 0x19D0, 0x0762, 0x0255, 0x0D0C, 0x083B,
];

/// The 18 version bits, error correction code included, for versions 7 to 40
/// (index `version - 7`).
pub const VERSION_BITS: [u32; 34] = [
    0x07C94, 0x085BC, 0x09A99, 0x0A4D3, 0x0BBF6, 0x0C762, 0x0D847, 0x0E60D,
    0x0F928, 0x10B78, 0x1145D, 0x12A17, 0x13532, 0x149A6, 0x15683, 0x168C9,
    0x177EC, 0x18EC4, 0x191E1, 0x1AFAB, 0x1B08E, 0x1CC1A, 0x1D33F, 0x1ED75,
    0x1F250, 0x209D5, 0x216F0, 0x228BA, 0x2379F, 0x24B0B, 0x2542E, 0x26A64,
    0x27541, 0x28C69,
];

/// Row of the per-version tables for a version and a level ordinal.
pub open spec fn table_index(version: int, ordinal: int) -> int {
    (version - 1) * 4 + ordinal
}

/// Error correction codewords per block for a version and a level ordinal.
pub closed spec fn ec_size_of(version: int, ordinal: int) -> int {
    EC_BYTES_PER_BLOCK[table_index(version, ordinal)] as int
}

/// Block layout (size and count of group 1, size and count of group 2) for a
/// version and a level ordinal.
pub closed spec fn block_layout(version: int, ordinal: int) -> (int, int, int, int) {
    let row = DATA_BYTES_PER_BLOCK[table_index(version, ordinal)];
    (row[0] as int, row[1] as int, row[2] as int, row[3] as int)
}

proof fn lemma_layout_rows()
    ensures
        forall|i: int|
            0 <= i < 160 ==> 1 <= #[trigger] DATA_BYTES_PER_BLOCK[i][0] <= 122 && 1
                <= DATA_BYTES_PER_BLOCK[i][1] <= 59 && DATA_BYTES_PER_BLOCK[i][2] <= 123
                && DATA_BYTES_PER_BLOCK[i][3] <= 67,
        forall|i: int| 0 <= i < 160 ==> 7 <= #[trigger] EC_BYTES_PER_BLOCK[i] <= 30,
{
}

pub fn ec_bytes_per_block(version: u8, ordinal: u8) -> (r: usize)
    requires
        1 <= version <= 40,
        ordinal < 4,
    ensures
        r == ec_size_of(version as int, ordinal as int),
        7 <= r <= 30,
{
    proof {
        lemma_layout_rows();
    }
    EC_BYTES_PER_BLOCK[((version - 1) as usize) * 4 + ordinal as usize]
}

pub fn data_bytes_per_block(version: u8, ordinal: u8) -> (r: (usize, usize, usize, usize))
    requires
        1 <= version <= 40,
        ordinal < 4,
    ensures
        (r.0 as int, r.1 as int, r.2 as int, r.3 as int) == block_layout(
            version as int,
            ordinal as int,
        ),
        1 <= r.0 <= 122,
        1 <= r.1 <= 59,
        r.2 <= 123,
        r.3 <= 67,
{
    proof {
        lemma_layout_rows();
    }
    let row = DATA_BYTES_PER_BLOCK[((version - 1) as usize) * 4 + ordinal as usize];
    (row[0], row[1], row[2], row[3])
}

/// Number of alignment pattern centre coordinates of a version.
pub open spec fn alignment_count(version: int) -> int {
    if version < 2 {
        0
    } else {
        version / 7 + 2
    }
}

/// The `i`-th alignment pattern centre coordinate of a version (from 2 on).
pub closed spec fn alignment_center(version: int, i: int) -> int {
    ALIGNMENT_CENTERS[version - 2][i] as int
}

pub fn alignment_center_at(version: u8, i: usize) -> (r: u8)
    requires
        2 <= version <= 40,
        i < alignment_count(version as int),
    ensures
        r == alignment_center(version as int, i as int),
        6 <= r <= 4 * version + 10,
{
    assert(forall|v: int, j: int|
        0 <= v < 39 && 0 <= j < (v + 2) / 7 + 2 ==> 6 <= #[trigger] ALIGNMENT_CENTERS[v][j] <= 4
            * v + 18);
    ALIGNMENT_CENTERS[(version - 2) as usize][i]
}

/// The alignment centre coordinates of a version run from 6 to the last centre
/// at size - 7, at least 12 apart, with the ones between well inside the symbol.
pub proof fn lemma_alignment_centers(version: int)
    requires
        2 <= version <= 40,
    ensures
        alignment_center(version, 0) == 6,
        alignment_center(version, alignment_count(version) - 1) == 4 * version + 10,
        forall|i: int|
            0 < i < alignment_count(version) - 1 ==> 22 <= #[trigger] alignment_center(version, i)
                <= 4 * version - 6,
        forall|i: int, j: int|
            0 <= i < j < alignment_count(version) ==> #[trigger] alignment_center(version, j)
                - #[trigger] alignment_center(version, i) >= 12,
{
}

/// The 15 format bits for a level ordinal and a mask.
pub closed spec fn format_word(ordinal: int, mask: int) -> u32 {
    FORMAT_BITS[ordinal * 8 + mask]
}

pub fn format_bits_at(ordinal: u8, mask: u8) -> (r: u32)
    requires
        ordinal < 4,
        mask < 8,
    ensures
        r == format_word(ordinal as int, mask as int),
        r < 0x8000,
{
    assert(forall|i: int| 0 <= i < 32 ==> #[trigger] FORMAT_BITS[i] < 0x8000);
    FORMAT_BITS[(ordinal as usize) * 8 + mask as usize]
}

/// The 18 version bits of a version from 7 on.
pub closed spec fn version_word(version: int) -> u32 {
    VERSION_BITS[version - 7]
}

pub fn version_bits_at(version: u8) -> (r: u32)
    requires
        7 <= version <= 40,
    ensures
        r == version_word(version as int),
        r < 0x40000,
{
    assert(forall|i: int| 0 <= i < 34 ==> #[trigger] VERSION_BITS[i] < 0x40000);
    VERSION_BITS[(version - 7) as usize]
}

} // verus!
