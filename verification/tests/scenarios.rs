use num::bigint::BigInt;
use numbers::{
    as_base_q, as_mixed_radix, as_mixed_radix_bigint, base_modulus_with_width, base_q_add,
    base_q_add_eq, crt, crt_inv, digits_per_u128, dlog_truth_table, exp_truth_table, factor,
    from_base_q, inv, inv_ref, is_power_of_2, modulus_with_width, modulus_with_width_skip2,
    num_carry_digits_to_add_n_digits, padded_base_q, padded_base_q_128, padded_mixed_radix,
    padded_mixed_radix_bigint, powm, product, to_bits, u128_from_bits, u128_to_bits, BigNum,
    NumbersError, PRIMES, PRIMES_SKIP_2, PRIMITIVE_ROOTS,
};

const TABLE_MODULI: [u16; 30] = [
    2, 3, 5, 7, 11, 13, 17, 19, 23, 29, 31, 37, 41, 43, 47, 53, 59, 61, 67, 71, 73, 79, 83, 89,
    97, 101, 103, 107, 109, 113,
];

fn big(bytes: &[u8]) -> BigNum {
    BigNum { bytes: bytes.to_vec() }
}

fn big_of(x: &BigInt) -> BigNum {
    BigNum { bytes: x.to_signed_bytes_le() }
}

#[test]
fn sum_in_base_five_carries_into_the_next_digit() {
    assert_eq!(base_q_add(&[3, 0], &[4], 5), vec![2, 1]);
    assert_eq!(base_q_add(&[4], &[3, 0], 5), vec![2, 1]);
    assert_eq!(from_base_q(&[2, 1], 5), Ok(7));
}

#[test]
fn sum_without_headroom_drops_the_carry() {
    assert_eq!(base_q_add(&[3], &[4], 5), vec![2]);
    let mut xs = [4u16, 4, 4];
    base_q_add_eq(&mut xs, &[1], 5);
    assert_eq!(xs, [0, 0, 0]);
}

#[test]
fn sum_in_place_stops_where_the_carry_ends() {
    let mut xs = [9u16, 9, 3, 7];
    base_q_add_eq(&mut xs, &[5], 10);
    assert_eq!(xs, [4, 0, 4, 7]);
    let mut ys = [1u16, 2, 3];
    base_q_add_eq(&mut ys, &[], 10);
    assert_eq!(ys, [1, 2, 3]);
}

#[test]
fn sum_in_a_base_above_half_the_digit_range() {
    let q = 65535u16;
    let zs = base_q_add(&[65534, 65534, 0], &[65534, 65534], q);
    assert_eq!(zs, vec![65533, 65534, 1]);
}

#[test]
fn residues_of_seven() {
    let ps = [2u16, 3, 5];
    assert_eq!(crt(&ps, 7), vec![1, 1, 2]);
    assert_eq!(crt_inv(&ps, &[1, 1, 2]), 7);
}

#[test]
fn decoding_inverts_encoding_below_the_product() {
    let ps = [3u16, 7, 11, 13];
    let m = product(&ps);
    assert_eq!(m, 3003);
    for x in 0..m {
        assert_eq!(crt_inv(&ps, &crt(&ps, x)), x);
    }
}

#[test]
fn decoding_with_no_moduli_or_the_modulus_one() {
    assert_eq!(crt_inv(&[], &[]), 0);
    assert_eq!(crt_inv(&[1, 5], &[0, 3]), 3);
    assert_eq!(crt(&[], 99), Vec::<u16>::new());
}

#[test]
fn decoding_reduces_residues_that_are_not_reduced() {
    assert_eq!(crt_inv(&[2, 3, 5], &[3, 4, 7]), 7);
}

#[test]
fn inverses_of_small_numbers() {
    assert_eq!(inv(3, 7), 5);
    assert_eq!(inv(1, 7), 1);
    assert_eq!(inv(10, 7), 5);
    assert_eq!(inv(0, 1), 1);
    assert_eq!(inv(5, 1), 1);
    for m in [2i128, 3, 5, 97, 65521, 1_000_000_007] {
        for a in 1..m.min(200) {
            let r = inv(a, m);
            assert!(0 <= r && r < m);
            assert_eq!((a * r) % m, 1);
        }
    }
}

#[test]
fn inverse_of_a_large_number() {
    let m = i128::MAX;
    let a = 0x1234_5678_9abc_def0_1357_9bdf_0246_8ace_i128;
    let r = inv(a, m);
    assert!(0 <= r && r < m);
    let prod = BigInt::from(a) * BigInt::from(r) % BigInt::from(m);
    assert_eq!(prod, BigInt::from(1));
}

#[test]
fn inverses_of_big_integers() {
    let a = BigNum::from_u128(3);
    let m = BigNum::from_u128(7);
    assert_eq!(inv_ref(&a, &m).to_u128(), Some(5));
    let one = BigNum::from_u128(1);
    assert_eq!(inv_ref(&m, &one).to_u128(), Some(1));
    let p = (BigInt::from(1) << 521) - 1;
    let x = BigInt::from(10).pow(100) + 7;
    let r = BigInt::from_signed_bytes_le(&inv_ref(&big_of(&x), &big_of(&p)).bytes);
    assert!(r >= BigInt::from(0) && r < p);
    assert_eq!((x * r) % p, BigInt::from(1));
}

#[test]
fn big_integers_keep_their_value() {
    for x in [0u128, 1, 127, 128, 255, 256, 65535, 65536, u128::MAX / 3, u128::MAX] {
        assert_eq!(BigNum::from_u128(x).to_u128(), Some(x));
        assert_eq!(BigNum::from_u128(x).duplicate().to_u128(), Some(x));
    }
    assert_eq!(big(&[]).to_u128(), Some(0));
    assert_eq!(big(&[0xff]).to_u128(), None);
    assert_eq!(big(&[0xff, 0]).to_u128(), Some(255));
    let wide = big_of(&(BigInt::from(1) << 128));
    assert_eq!(wide.to_u128(), None);
}

#[test]
fn natural_digits_stop_early() {
    assert_eq!(as_mixed_radix(5, &[5, 5]), vec![0, 1]);
    assert_eq!(as_mixed_radix(3, &[5, 5]), vec![3]);
    assert_eq!(as_mixed_radix(0, &[5, 5]), vec![0]);
    assert_eq!(as_mixed_radix(99, &[]), Vec::<u16>::new());
    assert_eq!(as_mixed_radix(1234, &[10, 10, 10, 10, 10]), vec![4, 3, 2, 1]);
    assert_eq!(as_mixed_radix(7, &[2, 3, 5]), vec![1, 0, 1]);
    assert_eq!(as_mixed_radix(29, &[2, 3, 5]), vec![1, 2, 4]);
    assert_eq!(as_mixed_radix(30, &[2, 3, 5]), vec![0, 0, 0]);
    assert_eq!(as_mixed_radix(4, &[1, 1, 10]), vec![0, 0, 4]);
}

#[test]
fn padded_digits_fill_every_position() {
    assert_eq!(padded_mixed_radix(3, &[5, 5, 5]), vec![3, 0, 0]);
    assert_eq!(padded_mixed_radix(0, &[5, 5]), vec![0, 0]);
    assert_eq!(padded_mixed_radix(7, &[2, 3, 5]), vec![1, 0, 1]);
    assert_eq!(padded_mixed_radix(1, &[]), Vec::<u16>::new());
    assert_eq!(padded_base_q(6, 2, 5), vec![0, 1, 1, 0, 0]);
    assert_eq!(padded_base_q(6, 2, 0), Vec::<u16>::new());
    assert_eq!(padded_base_q_128(10, 3).len(), 64);
    assert_eq!(padded_base_q_128(10, 3)[..3], [1, 0, 1]);
    assert_eq!(padded_base_q_128(10, 0), Vec::<u16>::new());
    assert_eq!(as_base_q(10, 3), vec![1, 0, 1]);
    assert_eq!(as_base_q(u128::MAX, 2), vec![1; 128]);
}

#[test]
fn digits_of_big_integers_agree_with_those_of_words() {
    let ms = [7u16, 300, 2, 65535, 11, 1000, 3, 3, 40000, 9];
    for x in [0u128, 1, 6, 7, 299, 2100, 4199, 4200, 123_456_789_012_345_678, u128::MAX] {
        let b = BigNum::from_u128(x);
        assert_eq!(as_mixed_radix_bigint(&b, &ms), as_mixed_radix(x, &ms));
        assert_eq!(padded_mixed_radix_bigint(&b, &ms), padded_mixed_radix(x, &ms));
    }
}

#[test]
fn digits_of_a_number_beyond_a_word() {
    let x = (BigInt::from(1) << 130) + 12345;
    let ms = vec![1000u16; 45];
    let ds = as_mixed_radix_bigint(&big_of(&x), &ms);
    let by_hand = {
        let mut rest = x.clone();
        let mut out = Vec::new();
        while rest > BigInt::from(0) {
            let d = &rest % 1000;
            out.push(num::ToPrimitive::to_u16(&d).unwrap());
            rest = rest / 1000;
        }
        out
    };
    assert_eq!(ds, by_hand);
    assert_eq!(ds.len(), 14);
    assert_eq!(padded_mixed_radix_bigint(&big_of(&x), &ms).len(), 45);
    assert_eq!(padded_mixed_radix_bigint(&big_of(&x), &ms)[..ds.len()], ds[..]);
}

#[test]
fn reconstruction_refuses_what_does_not_fit() {
    assert_eq!(from_base_q(&[], 7), Ok(0));
    assert_eq!(from_base_q(&[3, 1], 5), Ok(8));
    assert_eq!(from_base_q(&[9, 9, 9], 0), Ok(9));
    assert_eq!(from_base_q(&vec![1; 128], 2), Ok(u128::MAX));
    assert_eq!(from_base_q(&vec![1; 129], 2), Err(NumbersError::Overflow));
    let mut top = vec![0u16; 128];
    top.push(1);
    assert_eq!(from_base_q(&top, 2), Err(NumbersError::Overflow));
    assert_eq!(from_base_q(&[2; 128], 2), Err(NumbersError::Overflow));
    assert_eq!(from_base_q(&[65535; 9], 65535), Err(NumbersError::Overflow));
    let mut zeros_above = vec![5u16];
    zeros_above.extend(vec![0u16; 200]);
    assert_eq!(from_base_q(&zeros_above, 1000), Ok(5));
}

#[test]
fn bits_of_words() {
    assert_eq!(to_bits(6, 4), vec![0, 1, 1, 0]);
    assert_eq!(u128_to_bits(6, 4), vec![0, 1, 1, 0]);
    assert_eq!(to_bits(6, 2), vec![0, 1]);
    assert_eq!(to_bits(6, 0), Vec::<u16>::new());
    assert_eq!(to_bits(1, 130).len(), 130);
    assert_eq!(to_bits(u128::MAX, 130)[126..], [1, 1, 0, 0]);
    assert_eq!(u128_from_bits(&[0, 1, 1]), 6);
    assert_eq!(u128_from_bits(&[1]), 1);
    assert_eq!(u128_from_bits(&[3, 2]), 7);
    for x in [0u128, 1, 2, u128::MAX, 1 << 127, 0xdead_beef] {
        assert_eq!(u128_from_bits(&u128_to_bits(x, 128)), x);
    }
}

#[test]
fn digits_in_a_word_match_the_logarithm() {
    assert_eq!(digits_per_u128(0), 0);
    assert_eq!(digits_per_u128(1), usize::MAX);
    assert_eq!(digits_per_u128(2), 128);
    assert_eq!(digits_per_u128(3), 64);
    assert_eq!(digits_per_u128(4), 64);
    assert_eq!(digits_per_u128(5), 42);
    assert_eq!(digits_per_u128(256), 16);
    assert_eq!(digits_per_u128(257), 14);
    assert_eq!(digits_per_u128(65535), 8);
    for m in 0..=u16::MAX {
        let by_logarithm = (128.0 / (m as f64).log2().ceil()).floor() as usize;
        assert_eq!(digits_per_u128(m), by_logarithm, "modulus {}", m);
    }
}

#[test]
fn carry_digits_match_the_logarithm() {
    assert_eq!(num_carry_digits_to_add_n_digits(10, 12), 3);
    assert_eq!(num_carry_digits_to_add_n_digits(10, 1), 1);
    assert_eq!(num_carry_digits_to_add_n_digits(10, 0), 0);
    assert_eq!(num_carry_digits_to_add_n_digits(1, 5), 0);
    assert_eq!(num_carry_digits_to_add_n_digits(2, 1), 0);
    assert_eq!(num_carry_digits_to_add_n_digits(2, 3), 2);
    assert_eq!(num_carry_digits_to_add_n_digits(2, 4), 2);
    assert_eq!(num_carry_digits_to_add_n_digits(2, 5), 3);
    assert_eq!(num_carry_digits_to_add_n_digits(65535, 1), 1);
    assert_eq!(num_carry_digits_to_add_n_digits(65535, 65536), 2);
    assert_eq!(num_carry_digits_to_add_n_digits(65535, 65537), 3);
    for q in 3..200u16 {
        for n in 1..300usize {
            let by_logarithm = ((n * (q as usize - 1)) as f64).log(q as f64).ceil() as usize;
            assert_eq!(num_carry_digits_to_add_n_digits(q, n), by_logarithm, "q={} n={}", q, n);
        }
    }
}

#[test]
fn sum_of_digits_that_is_a_power_of_two_needs_one_digit_more() {
    let (_, ds) = BigInt::from(4).to_radix_le(2);
    assert_eq!(ds.len(), num_carry_digits_to_add_n_digits(2, 4) + 1);
}

#[test]
fn powers_modulo() {
    assert_eq!(powm(2, 10, 1000), 24);
    assert_eq!(powm(3, 0, 7), 1);
    assert_eq!(powm(3, 0, 1), 1);
    assert_eq!(powm(3, 0, 0), 1);
    assert_eq!(powm(3, 5, 1), 0);
    assert_eq!(powm(0, 5, 7), 0);
    assert_eq!(powm(300, 2, 7), 1);
    assert_eq!(powm(65535, 65535, 65535), 0);
    assert_eq!(powm(65534, 65535, 65535), 65534);
    assert_eq!(powm(2, 16, 65535), 1);
}

#[test]
fn tables_hold_powers_and_logarithms() {
    for &m in TABLE_MODULI.iter() {
        let exp = exp_truth_table(m).unwrap();
        let dlog = dlog_truth_table(m).unwrap();
        assert_eq!(exp.len(), m as usize);
        assert_eq!(dlog.len(), m as usize);
        assert_eq!(dlog[0], 0);
        for x in 1..m {
            assert_eq!(exp[dlog[x as usize] as usize], x);
        }
    }
    for i in 0..29 {
        let p = PRIMES_SKIP_2[i];
        let g = PRIMITIVE_ROOTS[i];
        let exp = exp_truth_table(p).unwrap();
        let dlog = dlog_truth_table(p).unwrap();
        for e in 0..p {
            assert_eq!(exp[e as usize], powm(g, e, p));
        }
        for x in 1..p {
            assert_eq!(powm(g, dlog[x as usize], p), x);
        }
    }
    assert_eq!(exp_truth_table(2), Ok(vec![1, 1]));
    assert_eq!(dlog_truth_table(2), Ok(vec![0, 0]));
    assert_eq!(exp_truth_table(5), Ok(vec![1, 2, 4, 3, 1]));
    assert_eq!(dlog_truth_table(5), Ok(vec![0, 0, 1, 3, 2]));
}

#[test]
fn tables_refuse_other_moduli() {
    for m in 0..=u16::MAX {
        if !TABLE_MODULI.contains(&m) {
            assert_eq!(exp_truth_table(m), Err(NumbersError::UnsupportedModulus));
            assert_eq!(dlog_truth_table(m), Err(NumbersError::UnsupportedModulus));
        }
    }
}

#[test]
fn factors_of_products_of_table_primes() {
    assert_eq!(factor(1), Ok(vec![]));
    assert_eq!(factor(2), Ok(vec![2]));
    assert_eq!(factor(30), Ok(vec![2, 3, 5]));
    assert_eq!(factor(109 * 107 * 3), Ok(vec![3, 107, 109]));
    assert_eq!(factor(product(&PRIMES[..26])), Ok(PRIMES[..26].to_vec()));
}

#[test]
fn factoring_refuses_other_numbers() {
    assert_eq!(factor(0), Err(NumbersError::NonFactorable));
    assert_eq!(factor(4), Err(NumbersError::NonFactorable));
    assert_eq!(factor(18), Err(NumbersError::NonFactorable));
    assert_eq!(factor(113), Err(NumbersError::NonFactorable));
    assert_eq!(factor(2 * 127), Err(NumbersError::NonFactorable));
    assert_eq!(factor(u128::MAX), Err(NumbersError::NonFactorable));
}

#[test]
fn moduli_of_a_width() {
    assert_eq!(modulus_with_width(0), 2);
    assert_eq!(modulus_with_width(1), 2);
    assert_eq!(modulus_with_width(2), 6);
    assert_eq!(modulus_with_width(3), 30);
    assert_eq!(modulus_with_width(4), 30);
    assert_eq!(modulus_with_width(5), 210);
    assert_eq!(modulus_with_width(127), product(&PRIMES[..26]));
    assert_eq!(modulus_with_width_skip2(0), 3);
    assert_eq!(modulus_with_width_skip2(2), 15);
    assert_eq!(modulus_with_width_skip2(126), product(&PRIMES_SKIP_2[..25]));
    assert_eq!(base_modulus_with_width(3, &[3, 5]), 15);
    assert_eq!(base_modulus_with_width(1, &[1, 1, 4, 9]), 4);
    for nbits in 0..128u32 {
        let m = modulus_with_width(nbits);
        assert!(m >> nbits > 0);
        let fs = factor(m).unwrap();
        assert_eq!(fs[..], PRIMES[..fs.len()]);
        if fs.len() > 1 {
            assert_eq!(product(&fs[..fs.len() - 1]) >> nbits, 0);
        }
    }
}

#[test]
fn products() {
    assert_eq!(product(&[]), 1);
    assert_eq!(product(&[2, 3, 5]), 30);
    assert_eq!(product(&[7, 0, 9]), 0);
    assert_eq!(product(&[65535; 8]), 65535u128.pow(8));
}

#[test]
fn powers_of_two() {
    assert!(is_power_of_2(1));
    assert!(is_power_of_2(2));
    assert!(!is_power_of_2(3));
    assert!(is_power_of_2(1 << 127));
    assert!(!is_power_of_2(u128::MAX));
    assert!(!is_power_of_2(6));
}
