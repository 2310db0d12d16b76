use qrgen::ec::{error_correction, QrError};
use qrgen::grid::Module;
use qrgen::qrcode::{EcLevel, Encoding, QrCode};
use qrgen::tables::FORMAT_BITS;

#[test]
fn get_returns_correct_bit() {
    let qr = QrCode::new(1, EcLevel::L, 1, Encoding::Alphanumeric).unwrap();
    assert!(matches!(qr.get(0, 0), Some(Module { value: false, .. })));
}

#[test]
fn get_returns_none_for_out_of_bounds() {
    let qr = QrCode::new(1, EcLevel::L, 1, Encoding::Alphanumeric).unwrap();
    assert_eq!(qr.get(100, 100), None);
}

#[test]
fn new_returns_error_for_invalid_version() {
    let result = QrCode::new(41, EcLevel::L, 1, Encoding::Alphanumeric);
    assert!(result.is_err());
}

#[test]
fn new_creates_qrcode_with_correct_size() {
    let qr = QrCode::new(1, EcLevel::L, 1, Encoding::Alphanumeric).unwrap();
    assert_eq!(qr.size(), 21);
}

#[test]
fn size_from_version_calculates_correct_size() {
    assert_eq!(QrCode::size_from_version(1), 21);
    assert_eq!(QrCode::size_from_version(40), 177);
}

#[test]
fn new_creates_qrcode_with_valid_version() {
    let qr = QrCode::new(10, EcLevel::M, 1, Encoding::Alphanumeric).unwrap();
    assert_eq!(qr.version, 10);
    assert_eq!(qr.size(), 57);
}

#[test]
fn new_creates_qrcode_with_correct_ec_level() {
    let qr = QrCode::new(5, EcLevel::Q, 1, Encoding::Alphanumeric).unwrap();
    match qr.ec_level {
        EcLevel::Q => assert!(true),
        _ => assert!(false, "Expected EcLevel::Q"),
    }
}

#[test]
fn new_creates_qrcode_with_correct_data_size() {
    let qr = QrCode::new(2, EcLevel::H, 1, Encoding::Alphanumeric).unwrap();
    assert_eq!(qr.data.len(), 625);
}

#[test]
fn new_returns_error_for_zero_version() {
    let result = QrCode::new(0, EcLevel::L, 1, Encoding::Alphanumeric);
    assert!(result.is_err());
    assert_eq!(result.err(), Some("Invalid version.".to_string()));
}

#[test]
fn new_returns_error_for_negative_version() {
    let result = QrCode::new(-1i8 as u8, EcLevel::L, 1, Encoding::Alphanumeric);
    assert!(result.is_err());
    assert_eq!(result.err(), Some("Invalid version.".to_string()));
}

#[test]
fn size_from_version_calculates_size_for_min_version() {
    assert_eq!(QrCode::size_from_version(1), 21);
}

#[test]
fn size_from_version_calculates_size_for_max_version() {
    assert_eq!(QrCode::size_from_version(40), 177);
}

#[test]
fn size_from_version_calculates_size_for_intermediate_version() {
    assert_eq!(QrCode::size_from_version(20), 97);
}

#[test]
fn size_from_version_calculates_size_for_large_version() {
    assert_eq!(QrCode::size_from_version(100), 417);
}

#[test]
fn finder_patterns_creates_correct_patterns() {
    let mut qr = QrCode::new(1, EcLevel::L, 1, Encoding::Alphanumeric).unwrap();
    qr.finder_patterns();
    let expected_pattern = [
        (0, 0),
        (1, 0),
        (2, 0),
        (3, 0),
        (4, 0),
        (5, 0),
        (6, 0),
        (0, 1),
        (6, 1),
        (0, 2),
        (6, 2),
        (0, 3),
        (6, 3),
        (0, 4),
        (6, 4),
        (0, 5),
        (6, 5),
        (0, 6),
        (1, 6),
        (2, 6),
        (3, 6),
        (4, 6),
        (5, 6),
        (6, 6),
    ];
    for &(x, y) in &expected_pattern {
        assert_eq!(
            qr.get(x, y),
            Some(Module {
                value: true,
                functional: true
            })
        );
    }
}

#[test]
fn finder_patterns_handles_minimum_size() {
    let mut qr = QrCode::new(1, EcLevel::L, 1, Encoding::Alphanumeric).unwrap();
    qr.finder_patterns();
    assert!(matches!(qr.get(0, 0), Some(Module { value: true, .. })));
    assert!(matches!(qr.get(20, 20), Some(Module { value: false, .. })));
}

#[test]
fn finder_patterns_handles_maximum_size() {
    let mut qr = QrCode::new(40, EcLevel::L, 1, Encoding::Alphanumeric).unwrap();
    qr.finder_patterns();
    assert!(matches!(qr.get(0, 0), Some(Module { value: true, .. })));
    assert!(matches!(qr.get(176, 176), Some(Module { value: false, .. })));
}

const DARK: Module = Module {
    value: true,
    functional: true,
};
const LIGHT: Module = Module {
    value: false,
    functional: true,
};

#[test]
fn new_sizes_for_smallest_and_largest_version() {
    assert_eq!(QrCode::new(1, EcLevel::L, 0, Encoding::Byte).unwrap().size(), 21);
    assert_eq!(QrCode::new(40, EcLevel::L, 0, Encoding::Byte).unwrap().size(), 177);
}

#[test]
fn size_is_17_plus_4_per_version() {
    for v in 1..=40u8 {
        let qr = QrCode::new(v, EcLevel::H, 7, Encoding::Numeric).unwrap();
        assert_eq!(qr.size(), 17 + 4 * v as u32);
        assert_eq!(qr.data.len() as u32, qr.size() * qr.size());
    }
}

#[test]
fn finder_corners_dark_and_middle_free_for_version_1() {
    let mut qr = QrCode::new(1, EcLevel::L, 0, Encoding::Byte).unwrap();
    qr.finder_patterns();
    for &(x, y) in &[(0, 0), (6, 0), (0, 6), (6, 6)] {
        assert_eq!(qr.get(x, y), Some(DARK));
    }
    assert_eq!(qr.get(14, 14).map(|m| m.functional), Some(false));
    // the other two finders, and the light ring of the first one
    assert_eq!(qr.get(20, 0), Some(DARK));
    assert_eq!(qr.get(0, 20), Some(DARK));
    assert_eq!(qr.get(1, 1), Some(LIGHT));
    assert_eq!(qr.get(3, 3), Some(DARK));
}

#[test]
fn new_rejects_mask_above_7() {
    let result = QrCode::new(1, EcLevel::L, 8, Encoding::Byte);
    assert_eq!(result.err(), Some("Invalid mask.".to_string()));
}

#[test]
fn put_outside_the_grid_is_ignored() {
    let mut qr = QrCode::new(1, EcLevel::L, 0, Encoding::Byte).unwrap();
    qr.put(21, 0, DARK);
    qr.put(0, 21, DARK);
    assert!(qr.data.iter().all(|m| !m.value && !m.functional));
    qr.put(3, 2, DARK);
    assert_eq!(qr.data[3 + 21 * 2], DARK);
}

#[test]
fn coords_to_index_is_row_major() {
    assert_eq!(QrCode::coords_to_index(2, 3, 21), Some(65));
    assert_eq!(QrCode::coords_to_index(21, 3, 21), None);
    assert_eq!(QrCode::coords_to_index_from_version(20, 20, 1), Some(440));
    assert_eq!(QrCode::coords_to_index_from_version(0, 21, 1), None);
}

#[test]
fn separators_timing_and_dark_module() {
    let mut qr = QrCode::new(1, EcLevel::L, 0, Encoding::Byte).unwrap();
    qr.all_functional_patterns();
    assert_eq!(qr.get(7, 0), Some(LIGHT));
    assert_eq!(qr.get(7, 7), Some(LIGHT));
    assert_eq!(qr.get(13, 7), Some(LIGHT));
    assert_eq!(qr.get(7, 13), Some(LIGHT));
    assert_eq!(qr.get(8, 6), Some(DARK));
    assert_eq!(qr.get(9, 6), Some(LIGHT));
    assert_eq!(qr.get(6, 12), Some(DARK));
    assert_eq!(qr.get(6, 11), Some(LIGHT));
    assert_eq!(qr.get(8, 13), Some(DARK));
}

#[test]
fn alignment_patterns_of_version_7() {
    let mut qr = QrCode::new(7, EcLevel::L, 0, Encoding::Byte).unwrap();
    qr.finder_patterns();
    qr.separators_patterns();
    qr.alignment_patterns();
    // centres 6, 22, 38: (22, 22) is drawn, (6, 6) stays a finder centre
    assert_eq!(qr.get(22, 22), Some(DARK));
    assert_eq!(qr.get(21, 22), Some(LIGHT));
    assert_eq!(qr.get(20, 22), Some(DARK));
    assert_eq!(qr.get(6, 22), Some(DARK));
    assert_eq!(qr.get(38, 38), Some(DARK));
    assert_eq!(qr.get(37, 37), Some(LIGHT));
    assert_eq!(qr.get(3, 3), Some(DARK));
    assert_eq!(qr.get(1, 1), Some(LIGHT));
    assert_eq!(qr.get(25, 25).map(|m| m.functional), Some(false));
}

#[test]
fn version_information_of_version_7() {
    let mut qr = QrCode::new(7, EcLevel::L, 0, Encoding::Byte).unwrap();
    qr.version_information();
    // 0x07C94 = 00 0111 1100 1001 0100, least significant bit first
    let word: u32 = 0x07C94;
    for i in 0..18u32 {
        let bit = (word >> i) & 1 == 1;
        let expected = Module {
            value: bit,
            functional: true,
        };
        assert_eq!(qr.get(i / 3, 45 - 11 + i % 3), Some(expected));
        assert_eq!(qr.get(45 - 11 + i % 3, i / 3), Some(expected));
    }
}

/// Number of modules left for data in a symbol of a version.
fn data_modules(v: u32) -> u32 {
    let mut n = (16 * v + 128) * v + 64;
    if v >= 2 {
        let align = v / 7 + 2;
        n -= (25 * align - 10) * align - 55;
        if v >= 7 {
            n -= 36;
        }
    }
    n
}

#[test]
fn functional_module_count_matches_every_version() {
    for v in 1..=40u8 {
        let mut qr = QrCode::new(v, EcLevel::M, 2, Encoding::Byte).unwrap();
        qr.all_functional_patterns();
        let free = qr.data.iter().filter(|m| !m.functional).count() as u32;
        assert_eq!(free, data_modules(v as u32), "version {}", v);
        // column 6 is reserved from top to bottom
        for y in 0..qr.size() {
            assert!(qr.get(6, y).unwrap().functional);
        }
    }
}

#[test]
fn fill_writes_every_free_module_once() {
    let mut qr = QrCode::new(1, EcLevel::M, 0, Encoding::Byte).unwrap();
    qr.all_functional_patterns();
    let before = qr.data.clone();
    // 26 codewords of version 1 give exactly 208 bits
    qr.fill(vec![true; 208]);
    for y in 0..21u32 {
        for x in 0..21u32 {
            let i = (x + 21 * y) as usize;
            if before[i].functional {
                assert_eq!(qr.data[i], before[i]);
            } else {
                let masked = (x + y) % 2 == 0;
                assert_eq!(qr.data[i].value, !masked, "({}, {})", x, y);
                assert!(!qr.data[i].functional);
            }
        }
    }
}

#[test]
fn fill_walks_up_from_the_bottom_right() {
    let mut qr = QrCode::new(1, EcLevel::M, 0, Encoding::Byte).unwrap();
    qr.all_functional_patterns();
    let mut bits = vec![false; 208];
    bits[0] = true;
    bits[3] = true;
    bits[4] = true;
    qr.fill(bits);
    let value = |x: u32, y: u32| qr.get(x, y).unwrap().value != ((x + y) % 2 == 0);
    assert!(value(20, 20));
    assert!(!value(19, 20));
    assert!(!value(20, 19));
    assert!(value(19, 19));
    assert!(value(20, 18));
    // after row 9 the walk turns down into the next pair
    assert!(!value(18, 9));
}

fn hello_world_codewords() -> Vec<u8> {
    vec![32, 91, 11, 120, 209, 114, 220, 77, 67, 64, 236, 17, 236, 17, 236, 17]
}

#[test]
fn hello_world_version_1_m_mask_3() {
    let qr = QrCode::from_codewords(&hello_world_codewords(), 1, EcLevel::M, 3, Encoding::Alphanumeric)
        .unwrap();
    assert_eq!(qr.size(), 21);
    // format bits of level M, mask 3: 101101101001011
    let format = [1, 0, 1, 1, 0, 1, 1, 0, 1, 0, 0, 1, 0, 1, 1];
    let row8 = [0, 1, 2, 3, 4, 5, 7, 8];
    for (i, &x) in row8.iter().enumerate() {
        assert_eq!(qr.get(x, 8).unwrap().value, format[i] == 1);
    }
    let col8 = [7, 5, 4, 3, 2, 1, 0];
    for (i, &y) in col8.iter().enumerate() {
        assert_eq!(qr.get(8, y).unwrap().value, format[8 + i] == 1);
    }
    for i in 0..7 {
        assert_eq!(qr.get(8, 20 - i).unwrap().value, format[i as usize] == 1);
    }
    for i in 7..15 {
        assert_eq!(qr.get(21 - 15 + i, 8).unwrap().value, format[i as usize] == 1);
    }
    assert_eq!(qr.get(8, 13), Some(DARK));
    // first codeword 32 = 00100000 goes up the right pair, mask 3 is (x + y) % 3 == 0
    assert_eq!(qr.get(20, 20).unwrap().value, false);
    assert_eq!(qr.get(19, 20).unwrap().value, true);
    assert_eq!(qr.get(20, 19).unwrap().value, false);
    assert_eq!(qr.get(19, 19).unwrap().value, false);
    // the whole codeword stream sits in the 208 data modules
    let stream = error_correction(&hello_world_codewords(), 1, &EcLevel::M).unwrap();
    assert_eq!(stream.len() * 8, 208);
}

#[test]
fn from_codewords_reports_each_error() {
    let data = hello_world_codewords();
    assert_eq!(
        QrCode::from_codewords(&data, 0, EcLevel::M, 3, Encoding::Byte).err(),
        Some(QrError::InvalidVersion)
    );
    assert_eq!(
        QrCode::from_codewords(&data, 1, EcLevel::M, 8, Encoding::Byte).err(),
        Some(QrError::InvalidMask)
    );
    assert_eq!(
        QrCode::from_codewords(&data, 1, EcLevel::L, 3, Encoding::Byte).err(),
        Some(QrError::PayloadLengthMismatch)
    );
}

/// Reads the codewords back out of a finished symbol: finds the mask from the
/// first copy of the format bits, then walks the column pairs from the right
/// edge, upwards where `(right + 1) & 2 == 0`, undoing the mask on free modules.
fn read_back(qr: &QrCode, n_codewords: usize) -> Vec<u8> {
    let s = qr.size() as i64;
    let mut word: u32 = 0;
    for &x in &[0u32, 1, 2, 3, 4, 5, 7, 8] {
        word = (word << 1) | qr.get(x, 8).unwrap().value as u32;
    }
    for &y in &[7u32, 5, 4, 3, 2, 1, 0] {
        word = (word << 1) | qr.get(8, y).unwrap().value as u32;
    }
    let index = FORMAT_BITS
        .iter()
        .position(|&w| w == word)
        .expect("format bits not found");
    let mask = (index % 8) as i64;
    let masked = |x: i64, y: i64| -> bool {
        match mask {
            0 => (x + y) % 2 == 0,
            1 => y % 2 == 0,
            2 => x % 3 == 0,
            3 => (x + y) % 3 == 0,
            4 => (y / 2 + x / 3) % 2 == 0,
            5 => (x * y) % 2 + (x * y) % 3 == 0,
            6 => ((x * y) % 2 + (x * y) % 3) % 2 == 0,
            _ => ((x + y) % 2 + (x * y) % 3) % 2 == 0,
        }
    };
    let mut bits = Vec::new();
    let mut right = s - 1;
    while right >= 1 {
        if right == 6 {
            right = 5;
        }
        for vert in 0..s {
            for j in 0..2 {
                let x = right - j;
                let upward = ((right + 1) & 2) == 0;
                let y = if upward { s - 1 - vert } else { vert };
                let m = qr.get(x as u32, y as u32).unwrap();
                if !m.functional {
                    bits.push(m.value != masked(x, y));
                }
            }
        }
        right -= 2;
    }
    assert!(bits.len() >= 8 * n_codewords);
    bits.chunks(8)
        .take(n_codewords)
        .map(|c| c.iter().fold(0u8, |acc, &b| (acc << 1) | b as u8))
        .collect()
}

fn round_trip(version: u8, level: EcLevel, mask: u8, capacity: usize) {
    let data: Vec<u8> = (0..capacity).map(|i| (i * 37 + version as usize) as u8).collect();
    let stream = error_correction(&data, version, &level).unwrap();
    let qr = QrCode::from_codewords(&data, version, level, mask, Encoding::Byte).unwrap();
    assert_eq!(read_back(&qr, stream.len()), stream);
}

#[test]
fn symbol_reads_back_to_its_codewords() {
    let qr = QrCode::from_codewords(&hello_world_codewords(), 1, EcLevel::M, 3, Encoding::Alphanumeric)
        .unwrap();
    let stream = error_correction(&hello_world_codewords(), 1, &EcLevel::M).unwrap();
    assert_eq!(read_back(&qr, 26), stream);
    round_trip(2, EcLevel::L, 0, 34);
    round_trip(5, EcLevel::Q, 5, 62);
    round_trip(7, EcLevel::H, 6, 66);
    round_trip(14, EcLevel::M, 4, 365);
    round_trip(40, EcLevel::L, 7, 2956);
    round_trip(3, EcLevel::L, 1, 55);
    round_trip(10, EcLevel::Q, 2, 154);
}

#[test]
fn combination_lists_every_ordered_pair() {
    assert_eq!(
        QrCode::combination(&[6, 18]),
        vec![(6, 6), (6, 18), (18, 6), (18, 18)]
    );
    assert_eq!(QrCode::combination(&[6, 22, 38]).len(), 9);
    assert_eq!(QrCode::combination(&[6, 22, 38])[5], (22, 38));
    assert!(QrCode::combination(&[]).is_empty());
}
