use fast_qr::capacity::{block_count_of, data_codewords_of, ec_per_block_of};
use fast_qr::reed_solomon::{generator_polynomial, multiply, remainder};
use fast_qr::{Version, ECL};

fn power(exponent: usize) -> u8 {
    let mut x: u8 = 1;
    for _ in 0..exponent % 255 {
        x = multiply(x, 2);
    }
    x
}

fn inverse(a: u8) -> u8 {
    assert_ne!(a, 0);
    (1..=255u8).find(|b| multiply(a, *b) == 1).unwrap()
}

/// Value of the polynomial with `coefficients`, highest power first, at `x`.
fn evaluate(coefficients: &[u8], x: u8) -> u8 {
    coefficients.iter().fold(0, |acc, c| multiply(acc, x) ^ c)
}

/// Solves the square system `matrix * x = right`, if it has one solution.
fn solve(mut matrix: Vec<Vec<u8>>, mut right: Vec<u8>) -> Option<Vec<u8>> {
    let n = right.len();
    for col in 0..n {
        let pivot = (col..n).find(|row| matrix[*row][col] != 0)?;
        matrix.swap(col, pivot);
        right.swap(col, pivot);
        let scale = inverse(matrix[col][col]);
        for k in 0..n {
            matrix[col][k] = multiply(matrix[col][k], scale);
        }
        right[col] = multiply(right[col], scale);
        for row in 0..n {
            if row != col && matrix[row][col] != 0 {
                let factor = matrix[row][col];
                for k in 0..n {
                    matrix[row][k] ^= multiply(factor, matrix[col][k]);
                }
                right[row] ^= multiply(factor, right[col]);
            }
        }
    }
    Some(right)
}

/// The decoder of Peterson, Gorenstein and Zierler: finds and mends up to
/// `checks / 2` wrong codewords of a block that ends in `checks`
/// error-correction codewords.
fn decode(received: &[u8], checks: usize) -> Option<Vec<u8>> {
    let syndromes: Vec<u8> = (0..checks).map(|j| evaluate(received, power(j))).collect();
    if syndromes.iter().all(|s| *s == 0) {
        return Some(received.to_vec());
    }
    let len = received.len();
    for errors in (1..=checks / 2).rev() {
        let matrix: Vec<Vec<u8>> = (0..errors)
            .map(|a| (1..=errors).map(|i| syndromes[errors + a - i]).collect())
            .collect();
        let right: Vec<u8> = (0..errors).map(|a| syndromes[errors + a]).collect();
        let locator = match solve(matrix, right) {
            Some(locator) => locator,
            None => continue,
        };
        // Places whose inverse is a root of 1 + l1 x + l2 x^2 + ...
        let mut places = Vec::new();
        for degree in 0..len {
            let x = inverse(power(degree));
            let mut value: u8 = 1;
            let mut x_power: u8 = 1;
            for l in &locator {
                x_power = multiply(x_power, x);
                value ^= multiply(*l, x_power);
            }
            if value == 0 {
                places.push(degree);
            }
        }
        if places.len() != errors {
            return None;
        }
        let matrix: Vec<Vec<u8>> =
            (0..errors).map(|j| places.iter().map(|p| power(p * j)).collect()).collect();
        let sizes = solve(matrix, syndromes[..errors].to_vec())?;
        let mut mended = received.to_vec();
        for (place, size) in places.iter().zip(sizes) {
            mended[len - 1 - place] ^= size;
        }
        if (0..checks).all(|j| evaluate(&mended, power(j)) == 0) {
            return Some(mended);
        }
        return None;
    }
    None
}

fn block_of(data: &[u8], checks: usize) -> Vec<u8> {
    let g = generator_polynomial(checks);
    let mut block = data.to_vec();
    block.extend(remainder(&data.to_vec(), &g));
    block
}

#[test]
fn blocks_are_multiples_of_the_generator() {
    for checks in [7usize, 10, 13, 16, 18, 22, 26, 30] {
        let data: Vec<u8> = (0..40u8).map(|i| i.wrapping_mul(37).wrapping_add(11)).collect();
        let block = block_of(&data, checks);
        for j in 0..checks {
            assert_eq!(evaluate(&block, power(j)), 0);
        }
        assert_ne!(evaluate(&block, power(checks)), 0);
    }
}

#[test]
fn hello_world_block_is_mended() {
    let data = [32u8, 91, 11, 120, 209, 114, 220, 77, 67, 64, 236, 17, 236, 17, 236, 17];
    let block = block_of(&data, 10);
    assert_eq!(decode(&block, 10), Some(block.clone()));
    let mut damaged = block.clone();
    for place in [0usize, 7, 15, 16, 25] {
        damaged[place] ^= 0x5A;
    }
    assert_eq!(decode(&damaged, 10), Some(block.clone()));
    assert_eq!(&decode(&damaged, 10).unwrap()[..16], &data);
}

#[test]
fn damaged_blocks_are_mended_up_to_half_the_check_codewords() {
    let mut seed: u32 = 0x2545_F491;
    let mut next = move || {
        seed ^= seed << 13;
        seed ^= seed >> 17;
        seed ^= seed << 5;
        seed
    };
    let cases = [
        (Version::V01, ECL::L),
        (Version::V01, ECL::M),
        (Version::V01, ECL::Q),
        (Version::V01, ECL::H),
        (Version::V02, ECL::H),
        (Version::V05, ECL::Q),
        (Version::V07, ECL::M),
        (Version::V10, ECL::H),
    ];
    for (version, level) in cases {
        let checks = ec_per_block_of(version, level);
        let len = data_codewords_of(version, level) / block_count_of(version, level);
        for round in 0..6 {
            let data: Vec<u8> = (0..len).map(|_| next() as u8).collect();
            let block = block_of(&data, checks);
            let errors = if round == 0 { checks / 2 } else { 1 + next() as usize % (checks / 2) };
            let mut damaged = block.clone();
            let mut hit = Vec::new();
            while hit.len() < errors {
                let place = next() as usize % block.len();
                if !hit.contains(&place) {
                    hit.push(place);
                    damaged[place] ^= 1 + (next() % 255) as u8;
                }
            }
            assert_ne!(damaged, block);
            let mended = decode(&damaged, checks);
            assert_eq!(mended, Some(block), "{:?} {:?} round {}", version, level, round);
        }
    }
}
