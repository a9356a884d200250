use fast_qr::capacity::{
    block_count_of, data_codewords_of, ec_per_block_of, remainder_bits_of, total_codewords_of,
};
use fast_qr::info::{bit_at, format_bits, version_bits};
use fast_qr::layout::{alignment_count_of, classify, Cell};
use fast_qr::placement::{blank, finish, place};
use fast_qr::qr::create_matrix;
use fast_qr::reed_solomon::{generator_polynomial, remainder};
use fast_qr::score::{score, score_balance, score_line};
use fast_qr::select::select_mask;
use fast_qr::{Mask, Mode, Module, QRBuilder, QRCode, QRCodeError, Version, ECL};

const MASKS: [Mask; 8] = [
    Mask::Checkerboard,
    Mask::HorizontalLines,
    Mask::VerticalLines,
    Mask::DiagonalLines,
    Mask::LargeCheckerboard,
    Mask::Fields,
    Mask::Diamonds,
    Mask::Meadow,
];

const LEVELS: [ECL; 4] = [ECL::L, ECL::M, ECL::Q, ECL::H];

/// The mask formulas as the standard prints them, with `i` the row and `j`
/// the column.
fn mask_formula(index: usize, i: usize, j: usize) -> bool {
    match index {
        0 => (i + j) % 2 == 0,
        1 => i % 2 == 0,
        2 => j % 3 == 0,
        3 => (i + j) % 3 == 0,
        4 => (i / 2 + j / 3) % 2 == 0,
        5 => (i * j) % 2 + (i * j) % 3 == 0,
        6 => ((i * j) % 2 + (i * j) % 3) % 2 == 0,
        _ => ((i + j) % 2 + (i * j) % 3) % 2 == 0,
    }
}

/// Centres of the alignment patterns, computed from the version number.
fn alignment_centres(version: usize) -> Vec<usize> {
    if version == 1 {
        return Vec::new();
    }
    let count = version / 7 + 2;
    let step =
        if version == 32 { 26 } else { (version * 4 + count * 2 + 1) / (count * 2 - 2) * 2 };
    let size = version * 4 + 17;
    let mut centres = vec![6];
    for i in (0..count - 1).rev() {
        centres.push(size - 7 - i * step);
    }
    centres
}

/// Marks the cells that patterns and information areas take, by drawing
/// them one after another.
fn reserved_cells(version: usize) -> Vec<Vec<bool>> {
    let size = version * 4 + 17;
    let mut taken = vec![vec![false; size]; size];
    for k in 0..size {
        taken[6][k] = true;
        taken[k][6] = true;
    }
    for (top, left) in [(0, 0), (0, size - 8), (size - 8, 0)] {
        for r in top..top + 8 {
            for c in left..left + 8 {
                taken[r][c] = true;
            }
        }
    }
    let centres = alignment_centres(version);
    let count = centres.len();
    for i in 0..count {
        for j in 0..count {
            if (i == 0 && j == 0) || (i == 0 && j == count - 1) || (i == count - 1 && j == 0) {
                continue;
            }
            for r in centres[i] - 2..=centres[i] + 2 {
                for c in centres[j] - 2..=centres[j] + 2 {
                    taken[r][c] = true;
                }
            }
        }
    }
    for k in 0..9 {
        taken[8][k] = true;
        taken[k][8] = true;
    }
    for k in 0..8 {
        taken[8][size - 1 - k] = true;
        taken[size - 1 - k][8] = true;
    }
    if version >= 7 {
        for a in size - 11..size - 8 {
            for b in 0..6 {
                taken[a][b] = true;
                taken[b][a] = true;
            }
        }
    }
    taken
}

/// Reads the data bits of a symbol back in the order of the filling, with
/// the mask taken off.
fn read_bits(qr: &QRCode, mask: usize) -> Vec<bool> {
    let size = qr.size;
    let taken = reserved_cells((size - 17) / 4);
    let mut bits = Vec::new();
    let mut right = size as isize - 1;
    while right >= 1 {
        if right == 6 {
            right = 5;
        }
        for vert in 0..size {
            for j in 0..2 {
                let x = (right - j) as usize;
                let upward = ((right + 1) & 2) == 0;
                let y = if upward { size - 1 - vert } else { vert };
                if !taken[y][x] {
                    bits.push(qr.data[y][x].dark != mask_formula(mask, y, x));
                }
            }
        }
        right -= 2;
    }
    bits
}

/// Reads level and mask from the first copy of the format information.
fn read_format(qr: &QRCode) -> (u32, usize) {
    let cells = [
        (0, 8),
        (1, 8),
        (2, 8),
        (3, 8),
        (4, 8),
        (5, 8),
        (7, 8),
        (8, 8),
        (8, 7),
        (8, 5),
        (8, 4),
        (8, 3),
        (8, 2),
        (8, 1),
        (8, 0),
    ];
    let mut word: u32 = 0;
    for (i, (r, c)) in cells.iter().enumerate() {
        if qr.data[*r][*c].dark {
            word |= 1 << i;
        }
    }
    let data = (word ^ 0x5412) >> 10;
    (data >> 3, (data & 7) as usize)
}

/// Takes the final codeword sequence apart into the data codewords, and
/// checks the error-correction codewords of every block on the way.
fn read_data(codewords: &[u8], version: Version, level: ECL) -> Vec<u8> {
    let blocks = block_count_of(version, level);
    let width = ec_per_block_of(version, level);
    let data_len = data_codewords_of(version, level);
    let short = data_len / blocks;
    let longs = data_len % blocks;
    let mut data: Vec<Vec<u8>> = vec![Vec::new(); blocks];
    let mut checks: Vec<Vec<u8>> = vec![Vec::new(); blocks];
    let mut k = 0;
    for i in 0..short + 1 {
        for b in 0..blocks {
            if i < short || b >= blocks - longs {
                data[b].push(codewords[k]);
                k += 1;
            }
        }
    }
    for _ in 0..width {
        for b in 0..blocks {
            checks[b].push(codewords[k]);
            k += 1;
        }
    }
    assert_eq!(k, codewords.len());
    let g = generator_polynomial(width);
    for b in 0..blocks {
        assert_eq!(remainder(&data[b], &g), checks[b]);
    }
    data.concat()
}

fn take(bits: &[bool], at: &mut usize, width: usize) -> usize {
    let mut value = 0;
    for _ in 0..width {
        value = value * 2 + bits[*at] as usize;
        *at += 1;
    }
    value
}

/// Reads the one segment of a symbol back into the bytes it was made of.
fn read_segment(data: &[u8], version: usize) -> (Mode, Vec<u8>) {
    let bits: Vec<bool> =
        data.iter().flat_map(|byte| (0..8).rev().map(move |i| (byte >> i) & 1 == 1)).collect();
    let alphabet = b"0123456789ABCDEFGHIJKLMNOPQRSTUVWXYZ $%*+-./:";
    let mut at = 0;
    let range = if version <= 9 { 0 } else if version <= 26 { 1 } else { 2 };
    let mut out = Vec::new();
    match take(&bits, &mut at, 4) {
        1 => {
            let count = take(&bits, &mut at, [10, 12, 14][range]);
            let mut left = count;
            while left >= 3 {
                let group = take(&bits, &mut at, 10);
                out.extend_from_slice(format!("{:03}", group).as_bytes());
                left -= 3;
            }
            if left == 2 {
                out.extend_from_slice(format!("{:02}", take(&bits, &mut at, 7)).as_bytes());
            } else if left == 1 {
                out.extend_from_slice(format!("{}", take(&bits, &mut at, 4)).as_bytes());
            }
            (Mode::Numeric, out)
        }
        2 => {
            let count = take(&bits, &mut at, [9, 11, 13][range]);
            let mut left = count;
            while left >= 2 {
                let pair = take(&bits, &mut at, 11);
                out.push(alphabet[pair / 45]);
                out.push(alphabet[pair % 45]);
                left -= 2;
            }
            if left == 1 {
                out.push(alphabet[take(&bits, &mut at, 6)]);
            }
            (Mode::Alphanumeric, out)
        }
        4 => {
            let count = take(&bits, &mut at, [8, 16, 16][range]);
            for _ in 0..count {
                out.push(take(&bits, &mut at, 8) as u8);
            }
            (Mode::Byte, out)
        }
        other => panic!("unknown mode indicator {}", other),
    }
}

/// Reads a whole symbol back and checks it against what it was built of.
fn check_round_trip(input: &[u8], ecl: Option<ECL>, version: Option<Version>, mask: Option<Mask>) {
    let mut builder = QRBuilder::new(input.to_vec());
    if let Some(level) = ecl {
        builder.ecl(level);
    }
    if let Some(v) = version {
        builder.version(v);
    }
    if let Some(m) = mask {
        builder.mask(m);
    }
    let qr = builder.build().unwrap();
    let v = qr.version.unwrap();
    let level = qr.ecl.unwrap();
    assert_eq!(qr.size, v.size());
    assert_eq!(qr.data.len(), qr.size);
    assert!(qr.data.iter().all(|row| row.len() == qr.size));
    if let Some(forced) = version {
        assert_eq!(v, forced);
    }
    assert_eq!(level, ecl.unwrap_or(ECL::Q));
    let taken = reserved_cells(v.number() as usize);
    for r in 0..qr.size {
        for c in 0..qr.size {
            assert_eq!(qr.data[r][c].fixed, taken[r][c], "row {} column {}", r, c);
        }
    }
    let (level_bits, mask_index) = read_format(&qr);
    assert_eq!(level_bits, level.format_bits() as u32);
    assert_eq!(mask_index, qr.mask.unwrap().index() as usize);
    if let Some(forced) = mask {
        assert_eq!(qr.mask, Some(forced));
    }
    let bits = read_bits(&qr, mask_index);
    let total = total_codewords_of(v);
    assert_eq!(bits.len(), 8 * total + remainder_bits_of(v));
    assert!(bits[8 * total..].iter().all(|bit| !*bit));
    let codewords: Vec<u8> = bits[..8 * total]
        .chunks(8)
        .map(|chunk| chunk.iter().fold(0u8, |acc, bit| acc * 2 + *bit as u8))
        .collect();
    let data = read_data(&codewords, v, level);
    let (mode, bytes) = read_segment(&data, v.number() as usize);
    assert_eq!(Some(mode), qr.mode);
    assert_eq!(bytes, input);
}

#[test]
fn hello_world_is_version_one_alphanumeric() {
    let qr = QRBuilder::new("HELLO WORLD").ecl(ECL::Q).build().unwrap();
    assert_eq!(qr.version, Some(Version::V01));
    assert_eq!(qr.mode, Some(Mode::Alphanumeric));
    assert_eq!(qr.ecl, Some(ECL::Q));
    assert_eq!(qr.size, 21);
    assert_eq!(qr.data.len(), 21);
    assert!(qr.data.iter().all(|row| row.len() == 21));
    let again = QRBuilder::new("HELLO WORLD").ecl(ECL::Q).build().unwrap();
    assert_eq!(qr.mask, again.mask);
    assert_eq!(qr.data, again.data);
    check_round_trip(b"HELLO WORLD", Some(ECL::Q), None, None);
}

#[test]
fn default_level_is_quartile() {
    let qr = QRBuilder::new("HELLO WORLD").build().unwrap();
    assert_eq!(qr.ecl, Some(ECL::Q));
    assert_eq!(qr.version, Some(Version::V01));
    let forced = QRBuilder::new("HELLO WORLD").ecl(ECL::Q).build().unwrap();
    assert_eq!(qr.data, forced.data);
}

#[test]
fn single_digit_is_version_one_numeric() {
    let qr = QRBuilder::new("1").ecl(ECL::L).build().unwrap();
    assert_eq!(qr.mode, Some(Mode::Numeric));
    assert_eq!(qr.version, Some(Version::V01));
    assert_eq!(qr.ecl, Some(ECL::L));
    check_round_trip(b"1", Some(ECL::L), None, None);
}

#[test]
fn input_beyond_version_forty_is_too_large() {
    let input = vec![b'a'; 2954];
    let built = QRBuilder::new(input).ecl(ECL::L).build();
    assert_eq!(built.err(), Some(QRCodeError::EncodedData));
    let input = vec![b'a'; 2953];
    let qr = QRBuilder::new(input).ecl(ECL::L).build().unwrap();
    assert_eq!(qr.version, Some(Version::V40));
    assert_eq!(qr.size, 177);
    let input = vec![b'a'; 3000];
    let built = QRBuilder::new(input).ecl(ECL::L).build();
    assert_eq!(built.err(), Some(QRCodeError::EncodedData));
}

#[test]
fn forced_version_without_room_is_too_small_whatever_the_input() {
    // Not even version 40 has room: the version asked for is still what is refused.
    let input = vec![b'a'; 2954];
    let built = QRBuilder::new(input.clone()).ecl(ECL::L).version(Version::V40).build();
    assert_eq!(built.err(), Some(QRCodeError::SpecifiedVersion));
    let built = QRCode::new(&input, Some(ECL::L), Some(Version::V40), None);
    assert_eq!(built.err(), Some(QRCodeError::SpecifiedVersion));
    let built = QRCode::new(&vec![b'a'; 3000], Some(ECL::L), Some(Version::V40), None);
    assert_eq!(built.err(), Some(QRCodeError::SpecifiedVersion));
    let built = QRCode::new(&input, Some(ECL::L), Some(Version::V01), Some(Mask::Fields));
    assert_eq!(built.err(), Some(QRCodeError::SpecifiedVersion));
    let built = QRCode::new(&input, Some(ECL::L), None, None);
    assert_eq!(built.err(), Some(QRCodeError::EncodedData));
    // One byte less fits version 40 exactly.
    let built = QRCode::new(&input[1..], Some(ECL::L), Some(Version::V40), None).unwrap();
    assert_eq!(built.version, Some(Version::V40));
    let built = QRCode::new(&input[1..], Some(ECL::L), Some(Version::V39), None);
    assert_eq!(built.err(), Some(QRCodeError::SpecifiedVersion));
}

#[test]
fn builder_from_bytes_holds_the_bytes() {
    let bytes = b"HELLO WORLD".to_vec();
    let direct = QRCode::new(&bytes, None, None, None).unwrap();
    let built = QRBuilder::from_bytes(bytes.clone()).build().unwrap();
    assert_eq!(built.data, direct.data);
    assert_eq!(built.version, Some(Version::V01));
    assert_eq!(built.ecl, Some(ECL::Q));
    assert_eq!(built.mode, Some(Mode::Alphanumeric));
    assert_eq!(built.mask, direct.mask);
    let converted = QRBuilder::new("HELLO WORLD").build().unwrap();
    assert_eq!(converted.data, built.data);
    let forced = QRBuilder::from_bytes(vec![0, 159, 146, 150])
        .ecl(ECL::H)
        .version(Version::V02)
        .mask(Mask::Meadow)
        .build()
        .unwrap();
    assert_eq!(forced.mode, Some(Mode::Byte));
    assert_eq!(forced.version, Some(Version::V02));
    assert_eq!(forced.mask, Some(Mask::Meadow));
    check_round_trip(&[0, 159, 146, 150], Some(ECL::H), Some(Version::V02), Some(Mask::Meadow));
}

#[test]
fn forced_version_too_small_is_refused() {
    // 40 bytes at the low level need version 3
    let input = vec![b'a'; 40];
    let free = QRBuilder::new(input.clone()).ecl(ECL::L).build().unwrap();
    assert_eq!(free.version, Some(Version::V03));
    let built = QRBuilder::new(input.clone()).ecl(ECL::L).version(Version::V01).build();
    assert_eq!(built.err(), Some(QRCodeError::SpecifiedVersion));
    let built = QRBuilder::new(input.clone()).ecl(ECL::L).version(Version::V02).build();
    assert_eq!(built.err(), Some(QRCodeError::SpecifiedVersion));
    let built = QRBuilder::new(input.clone()).ecl(ECL::L).version(Version::V03).build().unwrap();
    assert_eq!(built.data, free.data);
    let larger = QRBuilder::new(input).ecl(ECL::L).version(Version::V09).build().unwrap();
    assert_eq!(larger.version, Some(Version::V09));
    assert_eq!(larger.size, 53);
}

#[test]
fn error_messages() {
    assert_eq!(QRCodeError::EncodedData.message(), "Data too big to be encoded");
    assert_eq!(
        QRCodeError::SpecifiedVersion.message(),
        "Specified version too low to contain data"
    );
}

#[test]
fn forced_mask_is_applied_without_scoring() {
    let input = b"https://example.com/";
    let qr = QRBuilder::new(&input[..]).ecl(ECL::M).mask(Mask::DiagonalLines).build().unwrap();
    assert_eq!(qr.mask, Some(Mask::DiagonalLines));
    let (level_bits, mask_index) = read_format(&qr);
    assert_eq!(mask_index, 3);
    assert_eq!(level_bits, 0);
    // The same symbol without a mask: every data module differs from it
    // exactly where the third formula holds, and no other module differs.
    let version = qr.version.unwrap();
    let data = fast_qr::encode::encode(input, ECL::M, Mode::Byte, version);
    let codewords = fast_qr::ecc::add_error_correction(&data, ECL::M, version);
    let bits = fast_qr::bits::unpack_bits(&codewords);
    let plain = place(version, &bits);
    for r in 0..qr.size {
        for c in 0..qr.size {
            let before = plain[r][c];
            let after = qr.data[r][c];
            assert_eq!(before.fixed, after.fixed);
            if !before.fixed {
                assert_eq!(after.dark, before.dark != ((r + c) % 3 == 0));
            } else if matches!(classify(version, r, c), Cell::Pattern(_)) {
                assert_eq!(after, before);
            }
        }
    }
    check_round_trip(input, Some(ECL::M), None, Some(Mask::DiagonalLines));
}

#[test]
fn every_forced_mask_is_written_into_the_format_information() {
    for (index, mask) in MASKS.iter().enumerate() {
        let qr = QRBuilder::new("MASKS").mask(*mask).build().unwrap();
        assert_eq!(qr.mask, Some(*mask));
        assert_eq!(read_format(&qr), (3, index));
        check_round_trip(b"MASKS", None, None, Some(*mask));
    }
}

#[test]
fn symbols_read_back_as_their_input() {
    check_round_trip(b"", None, None, None);
    check_round_trip(b"0", Some(ECL::H), None, None);
    check_round_trip(b"0123456789", Some(ECL::M), None, None);
    check_round_trip(b"31415926535897932384626433832795028841971", Some(ECL::L), None, None);
    check_round_trip(b"AC-42", Some(ECL::H), None, None);
    check_round_trip(b"Hello, world!", None, None, None);
    check_round_trip(&[0, 255, 128, 7, 10, 13], Some(ECL::L), None, None);
    check_round_trip("\u{3053}\u{3093}\u{306b}\u{3061}\u{306f}".as_bytes(), None, None, None);
    check_round_trip(b"https://example.com/", Some(ECL::H), Some(Version::V03), None);
    check_round_trip(b"VERSION SEVEN HAS VERSION INFORMATION", None, Some(Version::V07), None);
}

#[test]
fn symbols_of_many_versions_read_back() {
    for n in [2u8, 6, 7, 10, 14, 21, 27, 32, 36, 40] {
        let version = Version::from_number(n).unwrap();
        for level in LEVELS {
            let len = data_codewords_of(version, level) - 3;
            let input: Vec<u8> = (0..len).map(|i| (i * 31 + 5) as u8 | 0x80).collect();
            check_round_trip(&input, Some(level), Some(version), Some(Mask::Diamonds));
        }
    }
}

#[test]
fn building_twice_gives_the_same_symbol() {
    let inputs: [&[u8]; 4] = [b"HELLO WORLD", b"1", b"https://example.com/", b"\x00\xff"];
    for input in inputs {
        for level in LEVELS {
            let first = QRBuilder::new(input).ecl(level).build().unwrap();
            let second = QRBuilder::new(input).ecl(level).build().unwrap();
            assert_eq!(first.data, second.data);
            assert_eq!(first.size, second.size);
            assert_eq!(first.version, second.version);
            assert_eq!(first.ecl, second.ecl);
            assert_eq!(first.mask, second.mask);
            assert_eq!(first.mode, second.mode);
            let direct =
                QRCode::new(input, Some(level), None, None).unwrap();
            assert_eq!(first.data, direct.data);
        }
    }
}

#[test]
fn chosen_mask_scores_lowest_and_ties_go_to_the_lower_number() {
    let inputs: [&[u8]; 5] =
        [b"HELLO WORLD", b"1", b"https://example.com/", b"0000000000000000", b"a"];
    for input in inputs {
        let qr = QRBuilder::new(input).build().unwrap();
        let version = qr.version.unwrap();
        let mode = qr.mode.unwrap();
        let chosen = qr.mask.unwrap().index() as usize;
        let scores: Vec<usize> = MASKS
            .iter()
            .map(|mask| score(&create_matrix(input, ECL::Q, mode, version, Some(*mask)).data))
            .collect();
        let least = *scores.iter().min().unwrap();
        assert_eq!(scores[chosen], least);
        assert!(scores[..chosen].iter().all(|s| *s > least));
        assert_eq!(score(&qr.data), least);
        // Trying the masks in another order and keeping the least leads to the same choice.
        let mut best = 7;
        for index in (0..7).rev() {
            if scores[index] <= scores[best] {
                best = index;
            }
        }
        assert_eq!(best, chosen);
    }
}

#[test]
fn select_mask_returns_the_finished_symbol_of_its_mask() {
    let bits: Vec<bool> = (0..208).map(|i| i % 3 == 0 || i % 7 == 2).collect();
    let grid = place(Version::V01, &bits);
    let (mask, done) = select_mask(&grid, Version::V01, ECL::M, None);
    assert_eq!(done, finish(&grid, Version::V01, ECL::M, mask));
    for other in MASKS {
        let candidate = finish(&grid, Version::V01, ECL::M, other);
        assert!(score(&done) <= score(&candidate));
        if other.index() < mask.index() {
            assert!(score(&done) < score(&candidate));
        }
    }
    let (forced, done) = select_mask(&grid, Version::V01, ECL::M, Some(Mask::Meadow));
    assert_eq!(forced, Mask::Meadow);
    assert_eq!(done, finish(&grid, Version::V01, ECL::M, Mask::Meadow));
}

#[test]
fn mask_formulas() {
    for (index, mask) in MASKS.iter().enumerate() {
        assert_eq!(mask.index() as usize, index);
        assert_eq!(Mask::from_index(index as u8), *mask);
        for r in 0..30 {
            for c in 0..30 {
                assert_eq!(mask.hits(r, c), mask_formula(index, r, c));
            }
        }
    }
    assert_eq!(Mask::from_index(200), Mask::Meadow);
    assert!(Mask::Checkerboard.hits(0, 0));
    assert!(!Mask::Checkerboard.hits(0, 1));
    assert!(Mask::Fields.hits(0, 5));
    assert!(!Mask::Fields.hits(1, 1));
    assert!(Mask::Fields.hits(176, 3));
    assert!(Mask::LargeCheckerboard.hits(1, 2));
    assert!(!Mask::LargeCheckerboard.hits(1, 3));
}

#[test]
fn format_information_words() {
    assert_eq!(format_bits(ECL::L, Mask::Checkerboard), 0b111011111000100);
    assert_eq!(format_bits(ECL::M, Mask::Checkerboard), 0b101010000010010);
    assert_eq!(format_bits(ECL::Q, Mask::Checkerboard), 0b011010101011111);
    assert_eq!(format_bits(ECL::H, Mask::Checkerboard), 0b001011010001001);
    assert_eq!(format_bits(ECL::M, Mask::Fields), 0b100000011001110);
    assert_eq!(format_bits(ECL::L, Mask::Meadow), 0b110100101110110);
    assert_eq!(format_bits(ECL::H, Mask::Meadow), 0b000100000111011);
    for level in LEVELS {
        for mask in MASKS {
            let word = format_bits(level, mask) ^ 0x5412;
            assert_eq!(word >> 10, (level.format_bits() as u32) << 3 | mask.index() as u32);
            // the word is a multiple of the generator polynomial
            let mut rest = word;
            for shift in (0..5).rev() {
                if rest & (1 << (shift + 10)) != 0 {
                    rest ^= 0x537 << shift;
                }
            }
            assert_eq!(rest, 0);
        }
    }
}

#[test]
fn version_information_words() {
    assert_eq!(version_bits(Version::V07), 0b000111110010010100);
    assert_eq!(version_bits(Version::V08), 0b001000010110111100);
    assert_eq!(version_bits(Version::V40), 0b101000110001101001);
    for n in 1..=40u8 {
        let word = version_bits(Version::from_number(n).unwrap());
        assert_eq!(word >> 12, n as u32);
        let mut rest = word;
        for shift in (0..6).rev() {
            if rest & (1 << (shift + 12)) != 0 {
                rest ^= 0x1F25 << shift;
            }
        }
        assert_eq!(rest, 0);
    }
    assert!(bit_at(0b100, 2));
    assert!(!bit_at(0b100, 1));
    assert!(bit_at(0x8000_0000, 31));
}

#[test]
fn version_information_is_written_twice() {
    let qr = QRBuilder::new("VERSION").version(Version::V07).build().unwrap();
    let word = version_bits(Version::V07);
    let size = qr.size;
    for i in 0..18u8 {
        let a = size - 11 + (i % 3) as usize;
        let b = (i / 3) as usize;
        assert_eq!(qr.data[b][a], Module::fixed(bit_at(word, i)));
        assert_eq!(qr.data[a][b], Module::fixed(bit_at(word, i)));
        assert_eq!(classify(Version::V07, b, a), Cell::VersionInfo(i));
        assert_eq!(classify(Version::V07, a, b), Cell::VersionInfo(i));
    }
    assert_eq!(classify(Version::V06, 0, 4 * 6 + 17 - 11), Cell::Data);
}

#[test]
fn format_information_is_written_twice() {
    let qr = QRBuilder::new("FORMAT").ecl(ECL::H).mask(Mask::Fields).build().unwrap();
    let word = format_bits(ECL::H, Mask::Fields);
    let size = qr.size;
    for i in 0..15u8 {
        let first = match i {
            0..=5 => (i as usize, 8),
            6 => (7, 8),
            7 => (8, 8),
            8 => (8, 7),
            _ => (8, 14 - i as usize),
        };
        let second = if i < 8 { (8, size - 1 - i as usize) } else { (size - 15 + i as usize, 8) };
        for (r, c) in [first, second] {
            assert_eq!(classify(Version::V01, r, c), Cell::Format(i));
            assert_eq!(qr.data[r][c], Module::fixed(bit_at(word, i)));
        }
    }
    assert_eq!(qr.data[size - 8][8], Module::fixed(true));
}

#[test]
fn patterns_of_version_one_and_two() {
    let picture = [
        "#######.",
        "#.....#.",
        "#.###.#.",
        "#.###.#.",
        "#.###.#.",
        "#.....#.",
        "#######.",
        "........",
    ];
    for version in [Version::V01, Version::V02, Version::V07, Version::V40] {
        let n = version.size();
        for r in 0..8 {
            for c in 0..8 {
                let dark = picture[r].as_bytes()[c] == b'#';
                assert_eq!(classify(version, r, c), Cell::Pattern(dark));
                assert_eq!(classify(version, r, n - 1 - c), Cell::Pattern(dark));
                assert_eq!(classify(version, n - 1 - r, c), Cell::Pattern(dark));
            }
        }
        for k in 8..n - 8 {
            if let Cell::Pattern(dark) = classify(version, 6, k) {
                assert_eq!(dark, k % 2 == 0);
            } else {
                panic!("timing row");
            }
            assert_eq!(classify(version, k, 6), Cell::Pattern(k % 2 == 0));
        }
        assert_eq!(classify(version, n - 8, 8), Cell::Pattern(true));
        assert_eq!(classify(version, n - 1, n - 1), Cell::Data);
        assert_eq!(classify(version, 9, 9), Cell::Data);
    }
    assert_eq!(alignment_count_of(Version::V01), 0);
    assert_eq!(alignment_count_of(Version::V02), 2);
    assert_eq!(alignment_count_of(Version::V40), 7);
    let ring = ["#####", "#...#", "#.#.#", "#...#", "#####"];
    for r in 0..5 {
        for c in 0..5 {
            let dark = ring[r].as_bytes()[c] == b'#';
            assert_eq!(classify(Version::V02, 16 + r, 16 + c), Cell::Pattern(dark));
        }
    }
    assert_eq!(classify(Version::V02, 15, 18), Cell::Data);
    assert_eq!(classify(Version::V02, 21, 18), Cell::Data);
    assert_eq!(classify(Version::V01, 14, 14), Cell::Data);
}

#[test]
fn layout_agrees_with_patterns_drawn_one_by_one() {
    for n in 1..=40u8 {
        let version = Version::from_number(n).unwrap();
        let taken = reserved_cells(n as usize);
        let size = version.size();
        let grid = blank(version);
        for r in 0..size {
            for c in 0..size {
                let kind = classify(version, r, c);
                assert_eq!(kind != Cell::Data, taken[r][c], "version {} row {} column {}", n, r, c);
                assert_eq!(grid[r][c].fixed, taken[r][c]);
                if kind == Cell::Data {
                    assert_eq!(grid[r][c], Module::data(false));
                }
            }
        }
    }
}

#[test]
fn data_cells_are_as_many_as_the_bits_of_the_codewords() {
    for n in 1..=40u8 {
        let version = Version::from_number(n).unwrap();
        let size = version.size();
        let mut cells = 0;
        for r in 0..size {
            for c in 0..size {
                if classify(version, r, c) == Cell::Data {
                    cells += 1;
                }
            }
        }
        assert_eq!(cells, 8 * total_codewords_of(version) + remainder_bits_of(version));
        let qr = QRBuilder::new("CELLS").version(version).build().unwrap();
        let tagged: usize =
            qr.data.iter().map(|row| row.iter().filter(|m| m.is_data()).count()).sum();
        assert_eq!(tagged, cells);
    }
}

#[test]
fn filling_starts_at_the_bottom_right_and_runs_upwards() {
    let mut bits = vec![false; 208];
    for k in [0, 3, 4, 23, 24, 27, 207] {
        bits[k] = true;
    }
    let grid = place(Version::V01, &bits);
    assert_eq!(grid[20][20], Module::data(true));
    assert_eq!(grid[20][19], Module::data(false));
    assert_eq!(grid[19][20], Module::data(false));
    assert_eq!(grid[19][19], Module::data(true));
    assert_eq!(grid[18][20], Module::data(true));
    // twelve rows up the first pair of columns, then down the second
    assert_eq!(grid[9][19], Module::data(true));
    assert_eq!(grid[9][18], Module::data(true));
    assert_eq!(grid[10][17], Module::data(true));
    // the last bit lands in the left column, at the top of the data area
    assert_eq!(grid[9][0], Module::data(false));
    let dark: usize = grid.iter().map(|row| row.iter().filter(|m| m.is_data() && m.dark).count()).sum();
    assert_eq!(dark, 7);
    let short = place(Version::V01, &vec![true; 5]);
    let dark: usize =
        short.iter().map(|row| row.iter().filter(|m| m.is_data() && m.dark).count()).sum();
    assert_eq!(dark, 5);
    let long = place(Version::V01, &vec![true; 500]);
    let dark: usize =
        long.iter().map(|row| row.iter().filter(|m| m.is_data() && m.dark).count()).sum();
    assert_eq!(dark, 208);
}

#[test]
fn scores_of_lines() {
    let line = |text: &str| -> Vec<bool> { text.bytes().map(|b| b == b'#').collect() };
    assert_eq!(score_line(&line("")), 0);
    assert_eq!(score_line(&line("#.#.#.#.")), 0);
    assert_eq!(score_line(&line("####")), 0);
    assert_eq!(score_line(&line("#####")), 3);
    assert_eq!(score_line(&line("......")), 4);
    assert_eq!(score_line(&line("#.....######.")), 3 + 4);
    assert_eq!(score_line(&line("#.###.#....")), 40);
    assert_eq!(score_line(&line("....#.###.#")), 40);
    assert_eq!(score_line(&line("....#.###.#....")), 80);
    assert_eq!(score_line(&line("#.###.#...#")), 0);
    assert_eq!(score_line(&line("#.###.#.....")), 40 + 3);
    assert_eq!(score_line(&line(".#.###.#....#")), 40);
}

#[test]
fn scores_of_balance() {
    assert_eq!(score_balance(0, 0), 0);
    assert_eq!(score_balance(50, 100), 0);
    assert_eq!(score_balance(45, 100), 0);
    assert_eq!(score_balance(55, 100), 0);
    assert_eq!(score_balance(44, 100), 10);
    assert_eq!(score_balance(56, 100), 10);
    assert_eq!(score_balance(40, 100), 10);
    assert_eq!(score_balance(39, 100), 20);
    assert_eq!(score_balance(0, 441), 90);
    assert_eq!(score_balance(441, 441), 90);
    assert_eq!(score_balance(220, 441), 0);
}

#[test]
fn score_of_an_empty_matrix() {
    let qr = QRCode::default(21);
    assert_eq!(qr.size, 21);
    assert_eq!(qr.version, None);
    assert_eq!(qr.ecl, None);
    assert_eq!(qr.mask, None);
    assert_eq!(qr.mode, None);
    assert_eq!(qr.data, vec![vec![Module::data(false); 21]; 21]);
    // 42 lines with one run of 21, 400 squares, no dark module at all
    assert_eq!(score(&qr.data), 42 * (3 + 16) + 400 * 3 + 90);
    assert_eq!(score(&QRCode::default(0).data), 0);
    assert_eq!(score(&QRCode::default(1).data), 90);
    let mut board = QRCode::default(12).data;
    for r in 0..12 {
        for c in 0..12 {
            board[r][c] = Module::data((r + c) % 2 == 0);
        }
    }
    assert_eq!(score(&board), 0);
}

#[test]
fn modules_and_cells() {
    assert_eq!(Module::data(true), Module { dark: true, fixed: false });
    assert_eq!(Module::fixed(false), Module { dark: false, fixed: true });
    assert!(Module::data(true).value());
    assert!(!Module::fixed(false).value());
    assert!(Module::fixed(true).is_fixed());
    assert!(!Module::fixed(true).is_data());
    assert!(Module::data(false).is_data());
    let qr = QRBuilder::new("HELLO WORLD").build().unwrap();
    assert_eq!(qr.get(0, 0), Some(Module::fixed(true)));
    assert_eq!(qr.get(7, 7), Some(Module::fixed(false)));
    assert_eq!(qr.get(20, 20), Some(qr.data[20][20]));
    assert_eq!(qr.get(21, 0), None);
    assert_eq!(qr.get(0, 21), None);
    assert_eq!(qr[0].len(), 21);
    assert_eq!(qr[0][0], Module::fixed(true));
    assert_eq!(&qr[20], &qr.data[20][..]);
}

#[test]
fn levels_and_their_letters() {
    assert_eq!(ECL::L.letter(), 'L');
    assert_eq!(ECL::M.letter(), 'M');
    assert_eq!(ECL::Q.letter(), 'Q');
    assert_eq!(ECL::H.letter(), 'H');
    assert_eq!(ECL::L.format_bits(), 1);
    assert_eq!(ECL::M.format_bits(), 0);
    assert_eq!(ECL::Q.format_bits(), 3);
    assert_eq!(ECL::H.format_bits(), 2);
}

#[test]
fn text_of_a_small_matrix() {
    let mut qr = QRCode::default(3);
    qr.data[0][0] = Module::data(true);
    qr.data[1][0] = Module::data(true);
    qr.data[0][1] = Module::data(true);
    qr.data[1][2] = Module::data(true);
    qr.data[2][2] = Module::data(true);
    let text = qr.to_str();
    let expected = "\u{2588}\u{2588}\u{2588}\u{2588}\u{2588}\u{2588}\u{2588}\n\
                    \u{2588}\u{2588} \u{2584}\u{2580}\u{2588}\u{2588}\n\
                    \u{2588}\u{2588}\u{2588}\u{2588}\u{2584}\u{2588}\u{2588}\n\
                    \u{2588}\u{2588}\u{2588}\u{2588}\u{2588}\u{2588}\u{2588}\n";
    assert_eq!(text, expected);
    assert_eq!(QRCode::default(0).to_str(), "\u{2588}\u{2588}\u{2588}\u{2588}\n".repeat(2));
    let qr = QRBuilder::new("HELLO WORLD").build().unwrap();
    let text = qr.to_str();
    let lines: Vec<&str> = text.lines().collect();
    assert_eq!(lines.len(), 13);
    assert!(lines.iter().all(|line| line.chars().count() == 25));
    assert!(lines[1].starts_with("\u{2588}\u{2588} \u{2584}\u{2584}\u{2584}\u{2584}\u{2584} \u{2588}"));
}

#[test]
fn builder_keeps_every_choice() {
    let mut builder = QRBuilder::new(vec![b'4', b'2']);
    builder.mask(Mask::Fields).version(Version::V05).ecl(ECL::M);
    let qr = builder.build().unwrap();
    assert_eq!(qr.mask, Some(Mask::Fields));
    assert_eq!(qr.version, Some(Version::V05));
    assert_eq!(qr.ecl, Some(ECL::M));
    assert_eq!(qr.mode, Some(Mode::Numeric));
    assert_eq!(qr.size, 37);
    let again = builder.build().unwrap();
    assert_eq!(qr.data, again.data);
    builder.ecl(ECL::H);
    let other = builder.build().unwrap();
    assert_eq!(other.ecl, Some(ECL::H));
    assert_ne!(other.data, qr.data);
    let direct = QRCode::new(b"42", Some(ECL::M), Some(Version::V05), Some(Mask::Fields)).unwrap();
    assert_eq!(direct.data, qr.data);
    let from_text = QRBuilder::new(String::from("42")).ecl(ECL::M).build().unwrap();
    assert_eq!(from_text.version, Some(Version::V01));
}
