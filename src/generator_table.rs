use vstd::prelude::*;

verus! {

/// The generator polynomials of degree 0 to 69, one after another. The polynomial of
/// degree k starts at offset k * (k - 1) / 2 and holds its k non-leading coefficients
/// as exponents of alpha, highest power first.
pub const GENERATOR_COEFFS: [u8; 2415] = [
    0, 25, 1, 198, 199, 3, 75, 249, 78, 6, 113, 164, 166, 119, 10, 166, 0, 134, 5, 176,
    15, 87, 229, 146, 149, 238, 102, 21, 175, 238, 208, 249, 215, 252, 196, 28, 95, 246, 137, 231,
    235, 149, 11, 123, 36, 251, 67, 46, 61, 118, 70, 64, 94, 32, 45, 220, 192, 91, 194, 172,
    177, 209, 116, 227, 10, 55, 102, 43, 98, 121, 187, 113, 198, 143, 131, 87, 157, 66, 74, 152,
    176, 100, 86, 100, 106, 104, 130, 218, 206, 140, 78, 199, 249, 155, 48, 190, 124, 218, 137, 216,
    87, 207, 59, 22, 91, 8, 183, 61, 91, 202, 37, 51, 58, 58, 237, 140, 124, 5, 99, 105,
    120, 104, 107, 109, 102, 161, 76, 3, 91, 191, 147, 169, 182, 194, 225, 120, 43, 139, 206, 78,
    43, 239, 123, 206, 214, 147, 24, 99, 150, 39, 243, 163, 136, 215, 234, 158, 94, 184, 97, 118,
    170, 79, 187, 152, 148, 252, 179, 5, 98, 96, 153, 67, 3, 105, 153, 52, 90, 83, 17, 150,
    159, 44, 128, 153, 133, 252, 222, 138, 220, 171, 17, 60, 79, 50, 61, 163, 26, 187, 202, 180,
    221, 225, 83, 239, 156, 164, 212, 212, 188, 190, 240, 233, 104, 247, 181, 140, 67, 98, 85, 200,
    210, 115, 148, 137, 230, 36, 122, 254, 148, 175, 210, 210, 171, 247, 242, 93, 230, 14, 109, 221,
    53, 200, 74, 8, 172, 98, 80, 219, 134, 160, 105, 165, 231, 171, 102, 146, 91, 49, 103, 65,
    17, 193, 150, 14, 25, 183, 248, 94, 164, 224, 192, 1, 78, 56, 147, 253, 229, 121, 135, 48,
    211, 117, 251, 126, 159, 180, 169, 152, 192, 226, 228, 218, 111, 0, 117, 232, 87, 96, 227, 21,
    231, 181, 156, 39, 170, 26, 12, 59, 15, 148, 201, 54, 66, 237, 208, 99, 167, 144, 182, 95,
    243, 129, 178, 252, 45, 173, 125, 158, 2, 103, 182, 118, 17, 145, 201, 111, 28, 165, 53, 161,
    21, 245, 142, 13, 102, 48, 227, 153, 145, 218, 70, 79, 228, 8, 165, 227, 21, 180, 29, 9,
    237, 70, 99, 45, 58, 138, 135, 73, 126, 172, 94, 216, 193, 157, 26, 17, 149, 96, 168, 223,
    200, 104, 224, 234, 108, 180, 110, 190, 195, 147, 205, 27, 232, 201, 21, 43, 245, 87, 42, 195,
    212, 119, 242, 37, 9, 123, 156, 45, 183, 29, 151, 219, 54, 96, 249, 24, 136, 5, 241, 175,
    189, 28, 75, 234, 150, 148, 23, 9, 202, 162, 68, 250, 140, 24, 151, 41, 173, 145, 152, 216,
    31, 179, 182, 50, 48, 110, 86, 239, 96, 222, 125, 42, 173, 226, 193, 224, 130, 156, 37, 251,
    216, 238, 40, 192, 180, 20, 37, 252, 93, 63, 75, 225, 31, 115, 83, 113, 39, 44, 73, 122,
    137, 118, 119, 144, 248, 248, 55, 1, 225, 105, 123, 183, 117, 187, 200, 210, 10, 6, 106, 190,
    249, 167, 4, 67, 209, 138, 138, 32, 242, 123, 89, 27, 120, 185, 80, 156, 38, 69, 171, 60,
    28, 222, 80, 52, 254, 185, 220, 241, 245, 231, 55, 24, 71, 78, 76, 81, 225, 212, 173, 37,
    215, 46, 119, 229, 245, 167, 126, 72, 181, 94, 165, 210, 98, 125, 159, 184, 169, 232, 185, 231,
    18, 111, 77, 146, 94, 26, 21, 108, 19, 105, 94, 113, 193, 86, 140, 163, 125, 58, 158, 229,
    239, 218, 103, 56, 70, 114, 61, 183, 129, 167, 13, 98, 62, 129, 51, 7, 94, 143, 81, 247,
    127, 202, 202, 194, 125, 146, 29, 138, 162, 153, 65, 105, 122, 116, 238, 26, 36, 216, 112, 125,
    228, 15, 49, 8, 162, 30, 126, 111, 58, 85, 200, 183, 98, 16, 172, 31, 246, 234, 60, 152,
    115, 0, 167, 152, 113, 248, 238, 107, 18, 63, 218, 37, 87, 210, 105, 177, 120, 74, 121, 196,
    117, 251, 113, 233, 30, 120, 154, 75, 141, 180, 61, 165, 104, 232, 46, 227, 96, 178, 92, 135,
    57, 162, 120, 194, 212, 174, 252, 183, 42, 35, 157, 111, 23, 133, 100, 8, 105, 37, 192, 189,
    159, 19, 156, 159, 34, 38, 228, 230, 59, 243, 95, 49, 218, 176, 164, 20, 65, 45, 111, 39,
    81, 49, 118, 113, 222, 193, 250, 242, 168, 217, 41, 164, 247, 177, 30, 238, 18, 120, 153, 60,
    193, 81, 216, 174, 47, 200, 150, 59, 156, 89, 143, 89, 166, 183, 170, 152, 21, 165, 177, 113,
    132, 234, 5, 154, 68, 124, 175, 196, 157, 249, 233, 83, 24, 153, 241, 126, 36, 116, 19, 231,
    59, 116, 79, 161, 252, 98, 128, 205, 128, 161, 247, 57, 163, 56, 235, 106, 53, 26, 187, 174,
    226, 104, 170, 7, 175, 35, 181, 114, 88, 41, 47, 163, 125, 134, 72, 20, 232, 53, 35, 15,
    132, 167, 52, 139, 184, 223, 149, 92, 250, 18, 83, 33, 127, 109, 194, 7, 211, 242, 109, 66,
    86, 169, 87, 96, 187, 159, 114, 172, 118, 208, 183, 200, 82, 179, 38, 39, 34, 242, 142, 147,
    55, 250, 103, 221, 230, 25, 18, 137, 231, 0, 3, 58, 242, 221, 191, 110, 84, 230, 8, 188,
    106, 96, 147, 15, 131, 139, 34, 101, 223, 39, 101, 213, 199, 237, 254, 201, 123, 171, 162, 194,
    117, 50, 96, 96, 67, 3, 245, 217, 215, 33, 65, 240, 109, 144, 63, 21, 131, 38, 101, 153,
    128, 55, 31, 237, 3, 94, 160, 20, 87, 77, 56, 191, 123, 207, 75, 82, 0, 122, 132, 101,
    145, 215, 15, 121, 192, 138, 190, 7, 61, 121, 71, 246, 69, 55, 168, 188, 89, 243, 191, 25,
    72, 123, 9, 145, 14, 247, 1, 238, 44, 78, 143, 62, 224, 126, 118, 114, 68, 163, 52, 194,
    217, 147, 204, 169, 37, 130, 113, 102, 73, 181, 6, 172, 72, 250, 18, 171, 171, 162, 229, 187,
    239, 4, 187, 11, 37, 228, 102, 72, 102, 22, 33, 73, 95, 99, 132, 1, 15, 89, 4, 112,
    130, 95, 211, 235, 227, 58, 35, 88, 132, 23, 44, 165, 54, 187, 225, 112, 94, 88, 112, 253,
    224, 202, 115, 187, 99, 89, 5, 54, 113, 129, 44, 58, 16, 135, 216, 169, 211, 36, 1, 4,
    96, 60, 241, 73, 104, 234, 8, 249, 245, 119, 174, 52, 25, 157, 224, 43, 202, 223, 19, 82,
    15, 76, 164, 229, 92, 79, 168, 219, 110, 104, 21, 220, 74, 19, 199, 195, 100, 93, 191, 43,
    213, 72, 56, 138, 161, 125, 187, 119, 250, 189, 137, 190, 76, 126, 247, 93, 30, 132, 6, 58,
    213, 208, 165, 224, 152, 133, 91, 61, 228, 25, 196, 130, 211, 146, 60, 24, 251, 90, 39, 102,
    240, 61, 178, 63, 46, 123, 115, 18, 221, 111, 135, 160, 182, 205, 107, 206, 95, 150, 120, 184,
    91, 21, 247, 156, 140, 238, 191, 11, 94, 227, 84, 50, 163, 39, 34, 108, 172, 121, 1, 41,
    193, 222, 237, 64, 109, 181, 52, 120, 212, 226, 239, 245, 208, 20, 246, 34, 225, 204, 134, 101,
    125, 206, 69, 138, 250, 0, 77, 58, 143, 185, 220, 254, 210, 190, 112, 88, 91, 57, 90, 109,
    5, 13, 181, 25, 156, 232, 125, 157, 161, 164, 9, 118, 46, 209, 99, 203, 193, 35, 3, 209,
    111, 195, 242, 203, 225, 46, 13, 32, 160, 126, 209, 130, 160, 242, 215, 242, 75, 77, 42, 189,
    32, 113, 65, 124, 69, 228, 114, 235, 175, 124, 170, 215, 232, 133, 205, 213, 166, 142, 43, 10,
    216, 141, 163, 172, 180, 102, 70, 89, 62, 222, 62, 42, 210, 151, 163, 218, 70, 77, 39, 166,
    191, 114, 202, 245, 188, 183, 221, 75, 212, 27, 237, 127, 204, 235, 62, 190, 232, 18, 46, 171,
    15, 98, 247, 66, 163, 0, 116, 50, 86, 186, 50, 220, 251, 89, 192, 46, 86, 127, 124, 19,
    184, 233, 151, 215, 22, 14, 59, 145, 37, 242, 203, 134, 254, 89, 190, 94, 59, 65, 124, 113,
    100, 233, 235, 121, 22, 76, 86, 97, 39, 242, 200, 220, 101, 33, 239, 254, 116, 51, 122, 214,
    231, 136, 199, 11, 6, 205, 124, 72, 213, 117, 187, 60, 147, 201, 73, 75, 33, 146, 171, 247,
    118, 208, 157, 177, 203, 235, 83, 45, 226, 202, 229, 168, 7, 57, 237, 235, 200, 124, 106, 254,
    165, 14, 147, 0, 57, 42, 31, 178, 213, 173, 103, 183, 26, 201, 87, 210, 221, 113, 21, 46,
    65, 45, 50, 238, 184, 249, 225, 102, 58, 209, 218, 109, 165, 26, 95, 184, 192, 52, 245, 35,
    254, 238, 175, 172, 79, 123, 25, 122, 43, 120, 108, 215, 80, 128, 201, 235, 8, 153, 59, 101,
    31, 198, 76, 31, 156, 38, 197, 123, 167, 16, 87, 178, 238, 227, 97, 148, 247, 26, 90, 228,
    182, 236, 197, 47, 249, 36, 213, 54, 113, 181, 74, 177, 204, 155, 61, 47, 42, 0, 132, 144,
    251, 200, 38, 38, 138, 54, 44, 64, 19, 22, 206, 16, 10, 228, 211, 161, 171, 44, 194, 210,
    106, 120, 107, 157, 164, 216, 112, 116, 2, 91, 248, 163, 36, 201, 202, 229, 6, 144, 254, 155,
    135, 208, 170, 209, 12, 139, 127, 142, 182, 249, 177, 174, 190, 28, 10, 85, 239, 184, 101, 124,
    152, 206, 96, 23, 163, 61, 27, 196, 247, 151, 154, 202, 207, 20, 61, 10, 58, 140, 237, 93,
    106, 61, 193, 2, 87, 73, 194, 215, 159, 163, 10, 155, 5, 121, 153, 59, 248, 4, 117, 22,
    60, 177, 144, 44, 72, 228, 62, 1, 19, 170, 113, 158, 25, 175, 199, 139, 90, 1, 210, 7,
    119, 154, 89, 159, 130, 122, 46, 147, 190, 135, 94, 68, 66, 82, 116, 26, 247, 66, 27, 62,
    107, 252, 182, 200, 185, 235, 55, 251, 242, 210, 144, 154, 237, 176, 141, 192, 248, 152, 249, 206,
    85, 253, 142, 65, 165, 125, 23, 24, 30, 122, 240, 214, 6, 129, 218, 29, 145, 127, 134, 206,
    245, 117, 29, 41, 63, 159, 142, 233, 125, 148, 123, 57, 115, 232, 11, 195, 217, 3, 206, 77,
    67, 29, 166, 180, 106, 118, 203, 17, 69, 152, 213, 74, 44, 49, 43, 98, 61, 253, 122, 14,
    43, 209, 143, 9, 104, 107, 171, 224, 57, 254, 251, 226, 232, 221, 194, 240, 117, 161, 82, 178,
    246, 178, 33, 50, 86, 215, 239, 180, 180, 181, 107, 140, 26, 12, 9, 141, 243, 197, 226, 197,
    219, 45, 211, 101, 219, 120, 28, 181, 127, 6, 100, 247, 2, 205, 198, 57, 115, 219, 101, 109,
    160, 82, 37, 38, 238, 49, 160, 209, 121, 86, 11, 124, 30, 181, 84, 25, 194, 87, 65, 102,
    190, 220, 70, 27, 209, 16, 89, 7, 33, 240, 161, 244, 105, 115, 64, 9, 221, 236, 16, 145,
    148, 34, 144, 186, 13, 20, 254, 246, 38, 35, 202, 72, 4, 212, 159, 211, 165, 135, 252, 250,
    25, 87, 30, 120, 226, 234, 92, 199, 72, 7, 155, 218, 231, 44, 125, 178, 156, 174, 124, 43,
    100, 31, 56, 101, 204, 64, 175, 225, 169, 146, 45, 65, 202, 113, 98, 71, 223, 248, 118, 214,
    94, 0, 122, 37, 23, 2, 228, 58, 121, 7, 105, 135, 78, 243, 118, 70, 76, 223, 89, 72,
    50, 70, 111, 194, 17, 212, 126, 181, 35, 221, 117, 235, 11, 229, 149, 147, 123, 213, 40, 115,
    6, 200, 100, 26, 246, 182, 218, 127, 215, 36, 186, 110, 106, 30, 71, 36, 71, 19, 195, 172,
    110, 61, 2, 169, 194, 90, 136, 59, 182, 231, 145, 102, 39, 170, 231, 214, 67, 196, 207, 53,
    112, 246, 90, 90, 121, 183, 146, 74, 77, 38, 89, 22, 231, 55, 56, 242, 112, 217, 110, 123,
    62, 201, 217, 128, 165, 60, 181, 37, 161, 246, 132, 246, 18, 115, 136, 168, 45, 51, 175, 9,
    7, 158, 159, 49, 68, 119, 92, 123, 177, 204, 187, 254, 200, 78, 141, 149, 119, 26, 127, 53,
    160, 93, 199, 212, 29, 24, 145, 156, 208, 150, 218, 209, 4, 216, 91, 47, 184, 146, 47, 140,
    195, 195, 125, 242, 238, 63, 99, 108, 140, 230, 242, 31, 204, 11, 178, 243, 217, 156, 213, 231,
    137, 158, 247, 240, 37, 238, 214, 128, 99, 218, 46, 138, 198, 128, 92, 219, 109, 139, 166, 25,
    66, 67, 14, 58, 238, 149, 177, 195, 221, 154, 171, 48, 80, 12, 59, 190, 228, 19, 55, 208,
    92, 112, 229, 37, 60, 10, 47, 81, 0, 192, 37, 171, 175, 147, 128, 73, 166, 61, 149, 12,
    24, 95, 70, 113, 40, 5, 118, 222, 180, 136, 136, 162, 51, 46, 117, 13, 215, 81, 17, 139,
    247, 197, 171, 95, 173, 65, 137, 178, 68, 111, 95, 101, 41, 72, 214, 169, 197, 95, 7, 44,
    154, 77, 111, 236, 40, 121, 143, 63, 87, 80, 253, 240, 126, 217, 77, 34, 232, 106, 50, 168,
    82, 76, 146, 67, 106, 171, 25, 132, 93, 45, 105, 191, 172, 113, 86, 7, 166, 246, 185, 155,
    250, 98, 113, 89, 86, 214, 225, 156, 190, 58, 33, 144, 67, 179, 163, 52, 154, 233, 151, 104,
    251, 160, 126, 175, 208, 225, 70, 227, 146, 4, 152, 139, 103, 25, 107, 61, 204, 159, 250, 193,
    225, 105, 160, 98, 167, 2, 53, 16, 242, 83, 210, 196, 103, 248, 86, 211, 41, 171, 247, 159,
    223, 33, 224, 93, 77, 70, 90, 160, 32, 254, 43, 150, 84, 101, 190, 205, 133, 52, 60, 202,
    165, 220, 203, 151, 93, 84, 15, 84, 253, 173, 160, 89, 227, 52, 199, 97, 95, 231, 52, 177,
    41, 125, 137, 241, 166, 225, 118, 2, 54, 32, 82, 215, 175, 198, 43, 238, 235, 27, 101, 184,
    127, 3, 5, 8, 163, 238, 105, 73, 68, 1, 29, 168, 117, 14, 88, 208, 55, 46, 42, 217,
    6, 84, 179, 97, 6, 240, 192, 231, 158, 64, 118, 160, 203, 57, 61, 108, 199, 124, 65, 187,
    221, 167, 39, 182, 159, 180, 244, 203, 228, 254, 13, 175, 61, 90, 206, 40, 199, 94, 67, 57,
    81, 229, 46, 123, 89, 37, 31, 202, 66, 250, 35, 170, 243, 88, 51,
];

/// Where the generator polynomial of degree `k` starts in `GENERATOR_COEFFS`.
pub open spec fn generator_offset(k: int) -> int {
    k * (k - 1) / 2
}

/// The non-leading coefficients, as exponents of alpha, of the generator
/// polynomial of degree `k` (the product of (x - alpha^i) for i < k).
pub closed spec fn generator_of(k: int) -> Seq<u8> {
    GENERATOR_COEFFS@.subrange(generator_offset(k), generator_offset(k) + k)
}

proof fn lemma_generator_offset(k: int)
    requires
        0 <= k < 70,
    ensures
        0 <= generator_offset(k),
        generator_offset(k) + k <= 2415,
{
    assert(0 <= k * (k - 1)) by (nonlinear_arith)
        requires
            0 <= k,
    ;
    assert(k * (k - 1) <= 68 * 67 || k == 69) by (nonlinear_arith)
        requires
            0 <= k < 70,
    ;
}

/// Every coefficient of a generator polynomial is an exponent below 255.
#[verifier::rlimit(100)]
pub proof fn lemma_generator_exponents(k: int)
    requires
        0 <= k < 70,
    ensures
        forall|j: int| 0 <= j < k ==> #[trigger] generator_of(k)[j] < 255,
{
    lemma_generator_offset(k);
    assert(forall|i: int| 0 <= i < 2415 ==> #[trigger] GENERATOR_COEFFS[i] < 255);
}

/// The generator polynomial of degree `ec_size`, as exponents of alpha.
pub fn generator_polynomial(ec_size: usize) -> (r: Vec<u8>)
    requires
        ec_size < 70,
    ensures
        r@ == generator_of(ec_size as int),
        r@.len() == ec_size,
{
    proof {
        lemma_generator_offset(ec_size as int);
    }
    let start: usize = if ec_size == 0 {
        0
    } else {
        ec_size * (ec_size - 1) / 2
    };
    assert(start == generator_offset(ec_size as int)) by (nonlinear_arith)
        requires
            ec_size == 0 ==> start == 0,
            ec_size > 0 ==> start == ec_size * (ec_size - 1) / 2,
    ;
    let mut r: Vec<u8> = Vec::new();
    let mut j: usize = 0;
    while j < ec_size
        invariant
            j <= ec_size < 70,
            start == generator_offset(ec_size as int),
            start + ec_size <= 2415,
            r@ == GENERATOR_COEFFS@.subrange(start as int, start + j),
        decreases ec_size - j,
    {
        r.push(GENERATOR_COEFFS[start + j]);
        j += 1;
        assert(r@ =~= GENERATOR_COEFFS@.subrange(start as int, start + j));
    }
    r
}

} // verus!
