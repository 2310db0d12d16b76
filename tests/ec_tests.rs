use qrgen::ec::{create_ec_for_block, error_correction, interleave, EcLevel, QrError};
use qrgen::generator_table::generator_polynomial;
use qrgen::gf_tables::{EXP_TABLE, LOG_TABLE};

#[test]
fn interleave_works_with_equal_length_blocks() {
    let blocks = vec![vec![1, 2, 3], vec![4, 5, 6], vec![7, 8, 9]];
    let result = interleave(blocks);
    assert_eq!(result, vec![1, 4, 7, 2, 5, 8, 3, 6, 9]);
}

#[test]
fn interleave_works_with_unequal_length_blocks() {
    let blocks = vec![vec![1, 2], vec![3, 4, 5], vec![6]];
    let result = interleave(blocks);
    assert_eq!(result, vec![1, 3, 6, 2, 4, 5]);
}

#[test]
fn interleave_works_with_empty_blocks() {
    let blocks: Vec<Vec<u8>> = vec![vec![], vec![], vec![]];
    let result = interleave(blocks);
    assert_eq!(result, vec![]);
}

#[test]
fn interleave_works_with_single_block() {
    let blocks = vec![vec![1, 2, 3]];
    let result = interleave(blocks);
    assert_eq!(result, vec![1, 2, 3]);
}

#[test]
fn create_ec_for_block_works_simple() {
    let block = vec![1, 2, 3];
    let ec_size = block.len();
    let generator_polynomial = generator_polynomial(ec_size);

    let ec = create_ec_for_block(block, ec_size, &generator_polynomial);
    assert!(ec.eq(&vec![92, 236, 176]));
}

#[test]
fn create_ec_for_block_works_complex() {
    let block = vec![32, 91, 11, 120, 209, 114, 220, 77, 67, 64, 236, 17, 236];
    let ec_size = block.len();
    let generator_polynomial = generator_polynomial(ec_size);

    let ec = create_ec_for_block(block, ec_size, &generator_polynomial);
    assert!(ec.eq(&vec![
        168, 72, 22, 82, 217, 54, 156, 0, 46, 15, 180, 122, 16
    ]));
}

#[test]
fn interleave_with_no_blocks_is_empty() {
    let result = interleave(Vec::new());
    assert!(result.is_empty());
}

#[test]
fn interleave_then_reading_back_by_block_gives_the_blocks() {
    // two blocks of 3 then two of 4, as in the mixed group layouts
    let blocks = vec![
        vec![1, 2, 3],
        vec![4, 5, 6],
        vec![7, 8, 9, 10],
        vec![11, 12, 13, 14],
    ];
    let result = interleave(blocks.clone());
    assert_eq!(result.len(), 14);
    let mut back: Vec<Vec<u8>> = vec![Vec::new(); 4];
    let mut pos = 0;
    for c in 0..4 {
        for (b, block) in blocks.iter().enumerate() {
            if c < block.len() {
                back[b].push(result[pos]);
                pos += 1;
            }
        }
    }
    assert_eq!(back, blocks);
}

#[test]
fn generator_polynomial_of_degree_seven() {
    assert_eq!(generator_polynomial(7), vec![87, 229, 146, 149, 238, 102, 21]);
    assert!(generator_polynomial(0).is_empty());
}

#[test]
fn ec_level_ordinals_follow_table_order() {
    assert_eq!(EcLevel::L.ordinal(), 0);
    assert_eq!(EcLevel::M.ordinal(), 1);
    assert_eq!(EcLevel::Q.ordinal(), 2);
    assert_eq!(EcLevel::H.ordinal(), 3);
}

fn hello_world_codewords() -> Vec<u8> {
    vec![32, 91, 11, 120, 209, 114, 220, 77, 67, 64, 236, 17, 236, 17, 236, 17]
}

#[test]
fn error_correction_of_hello_world_version_1_m() {
    let out = error_correction(&hello_world_codewords(), 1, &EcLevel::M).unwrap();
    let mut expected = hello_world_codewords();
    expected.extend_from_slice(&[196, 35, 39, 119, 235, 215, 231, 226, 93, 23]);
    assert_eq!(out, expected);
}

#[test]
fn error_correction_interleaves_two_groups() {
    // version 5, level Q: two blocks of 15 then two of 16, 18 EC codewords each
    let data: Vec<u8> = (0..62).map(|i| i as u8).collect();
    let out = error_correction(&data, 5, &EcLevel::Q).unwrap();
    assert_eq!(out.len(), 62 + 4 * 18);
    assert_eq!(&out[0..8], &[0, 15, 30, 46, 1, 16, 31, 47]);
    // the last data column only has the two longer blocks
    assert_eq!(&out[56..62], &[14, 29, 44, 60, 45, 61]);
    let g = generator_polynomial(18);
    let ec_first = create_ec_for_block(data[0..15].to_vec(), 18, &g);
    let ec_last = create_ec_for_block(data[46..62].to_vec(), 18, &g);
    assert_eq!(out[62], ec_first[0]);
    assert_eq!(out[65], ec_last[0]);
    assert_eq!(out[62 + 4 * 17 + 3], ec_last[17]);
}

#[test]
fn error_correction_rejects_bad_version() {
    assert_eq!(
        error_correction(&hello_world_codewords(), 0, &EcLevel::M),
        Err(QrError::InvalidVersion)
    );
    assert_eq!(
        error_correction(&hello_world_codewords(), 41, &EcLevel::M),
        Err(QrError::InvalidVersion)
    );
}

#[test]
fn error_correction_rejects_wrong_length() {
    let mut data = hello_world_codewords();
    data.push(0);
    assert_eq!(
        error_correction(&data, 1, &EcLevel::M),
        Err(QrError::PayloadLengthMismatch)
    );
    assert_eq!(
        error_correction(&Vec::new(), 1, &EcLevel::L),
        Err(QrError::PayloadLengthMismatch)
    );
}

fn gf_mul(a: u8, b: u8) -> u8 {
    if a == 0 || b == 0 {
        0
    } else {
        EXP_TABLE[(LOG_TABLE[a as usize] as usize + LOG_TABLE[b as usize] as usize) % 255]
    }
}

/// Value of a polynomial (highest power first) at alpha^e.
fn eval_at_power(poly: &[u8], e: usize) -> u8 {
    let x = EXP_TABLE[e % 255];
    poly.iter().fold(0u8, |acc, &c| gf_mul(acc, x) ^ c)
}

#[test]
fn block_with_ec_vanishes_at_generator_roots() {
    for (block, ec_size) in [
        (vec![1u8, 2, 3], 3usize),
        (vec![32, 91, 11, 120, 209, 114, 220, 77, 67, 64, 236, 17, 236], 13),
        (hello_world_codewords(), 10),
        ((0..122).map(|i| (i * 13 + 7) as u8).collect::<Vec<u8>>(), 30),
    ] {
        let g = generator_polynomial(ec_size);
        let ec = create_ec_for_block(block.clone(), ec_size, &g);
        let mut codeword = block.clone();
        codeword.extend_from_slice(&ec);
        for e in 0..ec_size {
            assert_eq!(eval_at_power(&codeword, e), 0, "root alpha^{}", e);
        }
        // a changed codeword is no longer a multiple
        codeword[0] ^= 1;
        assert!((0..ec_size).any(|e| eval_at_power(&codeword, e) != 0));
    }
}
