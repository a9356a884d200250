use fast_qr::bits::{pack_bits, push_bits, unpack_bits};
use fast_qr::capacity::{
    block_count_of, data_codewords_of, ec_per_block_of, remainder_bits_of, total_codewords_of,
};
use fast_qr::ecc::add_error_correction;
use fast_qr::encode::{encode, encode_bits};
use fast_qr::mode::{alphanumeric_index, best_encoding, has_room};
use fast_qr::reed_solomon::{generator_polynomial, mul_x, multiply, remainder};
use fast_qr::{Mode, Version, ECL};

const LEVELS: [ECL; 4] = [ECL::L, ECL::M, ECL::Q, ECL::H];

fn exp_table() -> Vec<u8> {
    let mut table = Vec::new();
    let mut x: u32 = 1;
    for _ in 0..255 {
        table.push(x as u8);
        x <<= 1;
        if x & 0x100 != 0 {
            x ^= 0x11D;
        }
    }
    table
}

#[test]
fn codeword_budget_holds_for_every_version_and_level() {
    for n in 1..=40u8 {
        let version = Version::from_number(n).unwrap();
        for level in LEVELS {
            let total = total_codewords_of(version);
            let data = data_codewords_of(version, level);
            let ec = ec_per_block_of(version, level) * block_count_of(version, level);
            assert_eq!(total, data + ec);
        }
    }
}

#[test]
fn table_entries_of_known_symbols() {
    assert_eq!(total_codewords_of(Version::V01), 26);
    assert_eq!(data_codewords_of(Version::V01, ECL::L), 19);
    assert_eq!(data_codewords_of(Version::V01, ECL::Q), 13);
    assert_eq!(data_codewords_of(Version::V01, ECL::H), 9);
    assert_eq!(data_codewords_of(Version::V05, ECL::Q), 62);
    assert_eq!(block_count_of(Version::V05, ECL::Q), 4);
    assert_eq!(ec_per_block_of(Version::V05, ECL::Q), 18);
    assert_eq!(total_codewords_of(Version::V40), 3706);
    assert_eq!(data_codewords_of(Version::V40, ECL::L), 2956);
    assert_eq!(data_codewords_of(Version::V40, ECL::H), 1276);
    assert_eq!(block_count_of(Version::V40, ECL::H), 81);
    assert_eq!(remainder_bits_of(Version::V01), 0);
    assert_eq!(remainder_bits_of(Version::V02), 7);
    assert_eq!(remainder_bits_of(Version::V14), 3);
    assert_eq!(remainder_bits_of(Version::V21), 4);
    assert_eq!(remainder_bits_of(Version::V40), 0);
}

#[test]
fn version_numbers_and_sizes() {
    assert_eq!(Version::V01.number(), 1);
    assert_eq!(Version::V40.number(), 40);
    assert_eq!(Version::V01.size(), 21);
    assert_eq!(Version::V40.size(), 177);
    assert_eq!(Version::from_number(0), None);
    assert_eq!(Version::from_number(41), None);
    assert_eq!(Version::from_number(7), Some(Version::V07));
    assert_eq!(Version::from_n(21), Some(Version::V01));
    assert_eq!(Version::from_n(177), Some(Version::V40));
    assert_eq!(Version::from_n(22), None);
    assert_eq!(Version::from_n(181), None);
    for n in 1..=40u8 {
        let version = Version::from_number(n).unwrap();
        assert_eq!(version.number(), n);
        assert_eq!(Version::from_n(version.size()), Some(version));
    }
}

#[test]
fn mode_selection_picks_the_most_compact_mode() {
    assert_eq!(best_encoding(b"0123456789"), Mode::Numeric);
    assert_eq!(best_encoding(b"1"), Mode::Numeric);
    assert_eq!(best_encoding(b""), Mode::Numeric);
    assert_eq!(best_encoding(b"HELLO WORLD"), Mode::Alphanumeric);
    assert_eq!(best_encoding(b"A1 $%*+-./:Z"), Mode::Alphanumeric);
    assert_eq!(best_encoding(b"Hello"), Mode::Byte);
    assert_eq!(best_encoding(b"HELLO,WORLD"), Mode::Byte);
    assert_eq!(best_encoding(&[0x80, 0x31]), Mode::Byte);
    assert_eq!(best_encoding(b"12345A"), Mode::Alphanumeric);
    assert_eq!(best_encoding(b"12345a"), Mode::Byte);
}

#[test]
fn alphanumeric_alphabet_has_45_characters() {
    let alphabet = b"0123456789ABCDEFGHIJKLMNOPQRSTUVWXYZ $%*+-./:";
    for (value, byte) in alphabet.iter().enumerate() {
        assert_eq!(alphanumeric_index(*byte), Some(value as u8));
    }
    let members = (0..=255u8).filter(|b| alphanumeric_index(*b).is_some()).count();
    assert_eq!(members, 45);
}

#[test]
fn smallest_version_is_found() {
    assert_eq!(Version::get(Mode::Alphanumeric, ECL::Q, 11), Some(Version::V01));
    assert_eq!(Version::get(Mode::Alphanumeric, ECL::Q, 16), Some(Version::V01));
    assert_eq!(Version::get(Mode::Alphanumeric, ECL::Q, 17), Some(Version::V02));
    assert_eq!(Version::get(Mode::Numeric, ECL::L, 1), Some(Version::V01));
    assert_eq!(Version::get(Mode::Numeric, ECL::L, 41), Some(Version::V01));
    assert_eq!(Version::get(Mode::Numeric, ECL::L, 42), Some(Version::V02));
    assert_eq!(Version::get(Mode::Byte, ECL::L, 17), Some(Version::V01));
    assert_eq!(Version::get(Mode::Byte, ECL::L, 18), Some(Version::V02));
    assert_eq!(Version::get(Mode::Byte, ECL::L, 2953), Some(Version::V40));
    assert_eq!(Version::get(Mode::Byte, ECL::L, 2954), None);
    assert_eq!(Version::get(Mode::Byte, ECL::H, 1273), Some(Version::V40));
    assert_eq!(Version::get(Mode::Byte, ECL::H, 1274), None);
    assert_eq!(Version::get(Mode::Numeric, ECL::L, 7089), Some(Version::V40));
    assert_eq!(Version::get(Mode::Numeric, ECL::L, 7090), None);
    assert_eq!(Version::get(Mode::Alphanumeric, ECL::L, 4296), Some(Version::V40));
    assert_eq!(Version::get(Mode::Alphanumeric, ECL::L, 4297), None);
    assert_eq!(Version::get(Mode::Byte, ECL::M, 213), Some(Version::V10));
    assert_eq!(Version::get(Mode::Byte, ECL::L, usize::MAX), None);
}

#[test]
fn room_grows_with_the_version() {
    for level in LEVELS {
        for mode in [Mode::Numeric, Mode::Alphanumeric, Mode::Byte] {
            for len in [0usize, 1, 10, 100, 1000, 3000, 7000] {
                let mut seen = false;
                for n in 1..=40u8 {
                    let room = has_room(mode, level, len, Version::from_number(n).unwrap());
                    assert!(room || !seen);
                    seen = seen || room;
                }
            }
        }
    }
}

#[test]
fn bits_are_written_most_significant_first() {
    let mut bits = Vec::new();
    push_bits(&mut bits, 0b1011, 4);
    assert_eq!(bits, vec![true, false, true, true]);
    push_bits(&mut bits, 1, 3);
    assert_eq!(bits, vec![true, false, true, true, false, false, true]);
    push_bits(&mut bits, 0xFFFF_FFFF, 0);
    assert_eq!(bits.len(), 7);
    push_bits(&mut bits, 0x1FF, 1);
    assert_eq!(pack_bits(&bits), vec![0b1011_0011]);
}

#[test]
fn packing_and_unpacking_are_inverse() {
    let codewords: Vec<u8> = (0..=255u8).collect();
    let bits = unpack_bits(&codewords);
    assert_eq!(bits.len(), 2048);
    assert_eq!(pack_bits(&bits), codewords);
    assert_eq!(unpack_bits(&vec![0x80, 0x01])[0], true);
    assert_eq!(unpack_bits(&vec![0x80, 0x01])[15], true);
    assert_eq!(unpack_bits(&vec![0x80, 0x01])[1..15], [false; 14]);
}

#[test]
fn hello_world_data_codewords() {
    let codewords = encode(b"HELLO WORLD", ECL::Q, Mode::Alphanumeric, Version::V01);
    assert_eq!(codewords, vec![32, 91, 11, 120, 209, 114, 220, 77, 67, 64, 236, 17, 236]);
    let codewords = encode(b"HELLO WORLD", ECL::M, Mode::Alphanumeric, Version::V01);
    assert_eq!(
        codewords,
        vec![32, 91, 11, 120, 209, 114, 220, 77, 67, 64, 236, 17, 236, 17, 236, 17]
    );
}

#[test]
fn numeric_groups_take_ten_seven_and_four_bits() {
    // 0001 | 0000001000 | 0000001100 0101011001 1000011, then terminator and padding
    let bits = encode_bits(b"01234567", ECL::M, Mode::Numeric, Version::V01);
    let text: String = bits[..41].iter().map(|b| if *b { '1' } else { '0' }).collect();
    assert_eq!(text, "00010000001000000000110001010110011000011");
    let bits = encode_bits(b"7", ECL::M, Mode::Numeric, Version::V01);
    let text: String = bits[..18].iter().map(|b| if *b { '1' } else { '0' }).collect();
    assert_eq!(text, "000100000000010111");
}

#[test]
fn byte_mode_copies_the_bytes() {
    let codewords = encode(&[0xAB, 0xCD], ECL::L, Mode::Byte, Version::V01);
    assert_eq!(codewords.len(), 19);
    assert_eq!(&codewords[..5], &[0x40, 0x2A, 0xBC, 0xD0, 0xEC]);
    assert_eq!(codewords[5], 0x11);
    assert_eq!(codewords[17], 0x11);
    assert_eq!(codewords[18], 0xEC);
}

#[test]
fn encoder_fills_the_data_codewords_exactly() {
    let inputs: [&[u8]; 6] =
        [b"", b"1", b"12", b"HELLO WORLD", b"hello, world", b"0123456789012345678901234"];
    for input in inputs {
        let mode = best_encoding(input);
        for n in 1..=40u8 {
            let version = Version::from_number(n).unwrap();
            for level in LEVELS {
                if has_room(mode, level, input.len(), version) {
                    let bits = encode_bits(input, level, mode, version);
                    assert_eq!(bits.len() % 8, 0);
                    assert_eq!(bits.len(), 8 * data_codewords_of(version, level));
                    let codewords = encode(input, level, mode, version);
                    assert_eq!(codewords, pack_bits(&bits));
                }
            }
        }
    }
}

#[test]
fn terminator_is_cut_short_when_the_symbol_is_full() {
    // 41 digits fill version 1 at the low level to the last bit but one.
    let input = [b'9'; 41];
    assert!(has_room(Mode::Numeric, ECL::L, 41, Version::V01));
    assert!(!has_room(Mode::Numeric, ECL::L, 42, Version::V01));
    let bits = encode_bits(&input, ECL::L, Mode::Numeric, Version::V01);
    assert_eq!(bits.len(), 152);
    // 4 + 10 + 13 * 10 + 7 = 151 bits of segment, one bit of terminator
    assert_eq!(bits[151], false);
    // 17 bytes leave room for the four bits of the terminator and no more
    let bytes = [0xFFu8; 17];
    let bits = encode_bits(&bytes, ECL::L, Mode::Byte, Version::V01);
    assert_eq!(bits.len(), 152);
    assert!(bits[12..148].iter().all(|b| *b));
    assert!(bits[148..].iter().all(|b| !*b));
}

#[test]
fn field_multiplication_agrees_with_logarithms() {
    let exp = exp_table();
    let mut log = [0usize; 256];
    for (i, x) in exp.iter().enumerate() {
        log[*x as usize] = i;
    }
    for a in 0..=255u8 {
        assert_eq!(multiply(a, 0), 0);
        assert_eq!(multiply(0, a), 0);
        assert_eq!(multiply(a, 1), a);
        assert_eq!(multiply(a, 2), mul_x(a));
    }
    for a in 1..=255u8 {
        for b in 1..=255u8 {
            let expected = exp[(log[a as usize] + log[b as usize]) % 255];
            assert_eq!(multiply(a, b), expected);
        }
    }
    assert_eq!(mul_x(0x80), 0x1D);
    assert_eq!(multiply(0x02, 0x80), 0x1D);
}

#[test]
fn generator_polynomials_of_seven_and_ten() {
    assert_eq!(generator_polynomial(0), Vec::<u8>::new());
    assert_eq!(generator_polynomial(1), vec![1]);
    assert_eq!(generator_polynomial(2), vec![3, 2]);
    // The coefficients are known by their logarithms to the base 2.
    let exp = exp_table();
    let seven: Vec<u8> = [87usize, 229, 146, 149, 238, 102, 21].iter().map(|e| exp[*e]).collect();
    assert_eq!(generator_polynomial(7), seven);
    let ten: Vec<u8> =
        [251usize, 67, 46, 61, 118, 70, 64, 94, 32, 45].iter().map(|e| exp[*e]).collect();
    assert_eq!(generator_polynomial(10), ten);
    assert_eq!(
        generator_polynomial(10),
        vec![216, 194, 159, 111, 199, 94, 95, 113, 157, 193]
    );
}

#[test]
fn generator_roots_are_the_first_powers_of_two() {
    let exp = exp_table();
    for n in [7usize, 10, 13, 17, 22, 30] {
        let g = generator_polynomial(n);
        for root in &exp[..n] {
            let mut value: u8 = 1;
            for coefficient in &g {
                value = multiply(value, *root) ^ coefficient;
            }
            assert_eq!(value, 0);
        }
        let mut value: u8 = 1;
        for coefficient in &g {
            value = multiply(value, exp[n]) ^ coefficient;
        }
        assert_ne!(value, 0);
    }
}

#[test]
fn hello_world_error_correction_codewords() {
    let data = vec![32, 91, 11, 120, 209, 114, 220, 77, 67, 64, 236, 17, 236, 17, 236, 17];
    let g = generator_polynomial(10);
    assert_eq!(remainder(&data, &g), vec![196, 35, 39, 119, 235, 215, 231, 226, 93, 23]);
    assert_eq!(remainder(&Vec::new(), &g), vec![0; 10]);
    let codewords = add_error_correction(&data, ECL::M, Version::V01);
    assert_eq!(&codewords[..16], &data[..]);
    assert_eq!(&codewords[16..], &[196, 35, 39, 119, 235, 215, 231, 226, 93, 23]);
}

#[test]
fn blocks_are_interleaved_shorter_blocks_first() {
    // Version 5 at the quartile level: two blocks of 15 and two of 16 data
    // codewords, 18 error-correction codewords each.
    let data: Vec<u8> = (0..62u8).collect();
    let codewords = add_error_correction(&data, ECL::Q, Version::V05);
    assert_eq!(codewords.len(), 134);
    let mut expected = Vec::new();
    for i in 0..15u8 {
        expected.extend_from_slice(&[i, 15 + i, 30 + i, 46 + i]);
    }
    expected.extend_from_slice(&[45, 61]);
    assert_eq!(&codewords[..62], &expected[..]);
    let g = generator_polynomial(18);
    let blocks = [&data[0..15], &data[15..30], &data[30..46], &data[46..62]];
    let checks: Vec<Vec<u8>> = blocks.iter().map(|b| remainder(&b.to_vec(), &g)).collect();
    for i in 0..18 {
        for (b, check) in checks.iter().enumerate() {
            assert_eq!(codewords[62 + 4 * i + b], check[i]);
        }
    }
}

#[test]
fn final_sequence_has_all_codewords_of_the_symbol() {
    for n in 1..=40u8 {
        let version = Version::from_number(n).unwrap();
        for level in LEVELS {
            let data: Vec<u8> =
                (0..data_codewords_of(version, level)).map(|i| (i * 7 + 3) as u8).collect();
            let codewords = add_error_correction(&data, level, version);
            assert_eq!(codewords.len(), total_codewords_of(version));
        }
    }
}
