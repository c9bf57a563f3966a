use num::bigint::BigInt;
use numbers::{
    as_base_q, as_mixed_radix, as_mixed_radix_bigint, base_modulus_with_width, base_q_add,
    base_q_add_eq, crt, crt_inv, digits_per_u128, dlog_truth_table, exp_truth_table, factor,
    from_base_q, inv, inv_ref, is_power_of_2, modulus_with_width, modulus_with_width_skip2,
    num_carry_digits_to_add_n_digits, padded_base_q, padded_base_q_128, padded_mixed_radix,
    padded_mixed_radix_bigint, powm, product, to_bits, u128_from_bits, u128_to_bits, BigNum,
    NumbersError, NPRIMES, PRIMES, PRIMES_SKIP_2, PRIMITIVE_ROOTS,
};

/// A small generator of pseudo-random numbers, the same on every run.
struct Rng {
    state: u64,
}

impl Rng {
    fn new() -> Rng {
        Rng { state: 0x2545_F491_4F6C_DD1D }
    }

    fn gen_u64(&mut self) -> u64 {
        self.state ^= self.state << 13;
        self.state ^= self.state >> 7;
        self.state ^= self.state << 17;
        self.state.wrapping_mul(0x9E37_79B9_7F4A_7C15)
    }

    fn gen_u128(&mut self) -> u128 {
        ((self.gen_u64() as u128) << 64) | self.gen_u64() as u128
    }

    fn gen_u16(&mut self) -> u16 {
        (self.gen_u64() >> 48) as u16
    }

    fn gen_usize(&mut self) -> usize {
        self.gen_u64() as usize
    }

    fn gen_bool(&mut self) -> bool {
        self.gen_u64() >> 63 == 1
    }

    /// A number that `digits_per_u128(q)` digits hold in base `q`.
    fn gen_usable_u128(&mut self, q: u16) -> u128 {
        let n = digits_per_u128(q) as u32;
        match (q as u128).checked_pow(n) {
            Some(top) => self.gen_u128() % top,
            None => self.gen_u128(),
        }
    }
}

fn representable(x: u128, q: u16) -> bool {
    BigInt::from(x) < num_traits::pow::pow(BigInt::from(q), digits_per_u128(q))
}

#[test]
fn crt_conversion() {
    let mut rng = Rng::new();
    let ps = &PRIMES[..25];
    let modulus = product(ps);

    for _ in 0..128 {
        let x = rng.gen_u128() % modulus;
        assert_eq!(crt_inv(ps, &crt(ps, x)), x);
    }
}

#[test]
fn factoring() {
    let mut rng = Rng::new();
    for _ in 0..16 {
        let mut ps = Vec::new();
        let mut q: u128 = 1;
        for &p in PRIMES.iter() {
            if rng.gen_bool() {
                match q.checked_mul(p as u128) {
                    None => break,
                    Some(z) => q = z,
                }
                ps.push(p);
            }
        }
        assert_eq!(factor(q), Ok(ps));
    }
}

#[test]
fn discrete_log() {
    let mut rng = Rng::new();
    for _ in 0..128 {
        let i = rng.gen_u16() as usize % NPRIMES;
        let q = PRIMES_SKIP_2[i];
        let tt = dlog_truth_table(q).unwrap();
        let g = PRIMITIVE_ROOTS[i];
        let x = rng.gen_u16() % q;
        if x == 0 {
            continue;
        }
        let z = powm(g, tt[x as usize], q);
        assert_eq!(z, x);
        assert_eq!(z, exp_truth_table(q).unwrap()[tt[x as usize] as usize]);
    }
}

#[test]
fn bits() {
    let mut rng = Rng::new();
    for _ in 0..128 {
        let x = rng.gen_u128();
        assert_eq!(u128_from_bits(&to_bits(x, 128)), x);
    }
}

#[test]
fn base_q_conversion() {
    let mut rng = Rng::new();
    for _ in 0..1000 {
        let q = 2 + (rng.gen_u16() % 111);
        let x = rng.gen_usable_u128(q);
        assert!(representable(x, q), "q={}", q);
        let y = as_base_q(x, q);
        let z = from_base_q(&y, q);
        assert_eq!(Ok(x), z);
    }
}

#[test]
fn padded_base_q_conversion() {
    let mut rng = Rng::new();
    for _ in 0..1000 {
        let q = 2 + (rng.gen_u16() % 111);
        let x = rng.gen_usable_u128(q);
        let y = padded_base_q_128(x, q);
        let z = from_base_q(&y, q);
        assert_eq!(Ok(x), z);
    }
}

#[test]
fn base_q_addition() {
    let mut rng = Rng::new();
    for _ in 0..1000 {
        let q = 2 + (rng.gen_u16() % 111);
        let n = digits_per_u128(q) - 2;
        println!("q={} n={}", q, n);
        let big_q = (q as u128).pow(n as u32);

        let x = rng.gen_u128() % big_q;
        let y = rng.gen_u128() % big_q;

        let xp = padded_base_q(x, q, n);
        assert!(representable(y, q), "q={}", q);
        let yp = as_base_q(y, q);

        let zp = base_q_add(&xp, &yp, q);

        let z = from_base_q(&zp, q);

        assert_eq!(Ok((x + y) % big_q), z);
    }
}

#[test]
fn max_carry_digits() {
    let mut rng = Rng::new();
    for _ in 0..1000 {
        let q = 2 + (rng.gen_u16() % 254);
        let n = 2 + (rng.gen_usize() % 1000);
        let xs = vec![BigInt::from(q - 1); n];
        let p: BigInt = xs.iter().sum();
        let (_, ds) = p.to_radix_le(q as u32);
        assert_eq!(ds.len(), num_carry_digits_to_add_n_digits(q, n));
    }
}
