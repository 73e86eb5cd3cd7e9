use gf256::field::{FieldError, Galois, GaloisField};
use gf256::tables::{
    enumerate_valid_polynomials, gen_exp_table, gen_log_table, NO_LOG, PRIMITIVE_POLYNOMIAL,
};

fn standard_field() -> GaloisField {
    GaloisField::standard()
}

#[test]
fn closure_and_totality_on_every_pair() {
    let gf = standard_field();
    for a in 0..=255u8 {
        for b in 0..=255u8 {
            assert_eq!(GaloisField::add(a, b), a ^ b);
            assert_eq!(GaloisField::sub(a, b), a ^ b);
            let p = gf.mul(a, b);
            assert_eq!(p == 0, a == 0 || b == 0);
        }
    }
}

#[test]
fn additive_identity() {
    for a in 0..=255u8 {
        assert_eq!(GaloisField::add(a, 0), a);
    }
}

#[test]
fn multiplicative_identity() {
    let gf = standard_field();
    for a in 0..=255u8 {
        assert_eq!(gf.mul(a, 1), a);
        assert_eq!(gf.mul(1, a), a);
    }
}

#[test]
fn additive_self_inverse() {
    for a in 0..=255u8 {
        let b = GaloisField::sub(0, a);
        assert_eq!(b, a);
        assert_eq!(GaloisField::add(a, b), 0);
    }
}

#[test]
fn multiplicative_inverse() {
    let gf = standard_field();
    for a in 1..=255u8 {
        let b = gf.div(1, a).unwrap();
        assert_eq!(gf.mul(a, b), 1);
        assert_eq!(gf.inv(a), Ok(b));
    }
}

#[test]
fn divide_by_zero_fails() {
    let gf = standard_field();
    for a in 1..=255u8 {
        assert_eq!(gf.div(a, 0), Err(FieldError::DivideByZero));
    }
    assert_eq!(gf.inv(0), Err(FieldError::DivideByZero));
    assert_eq!(Galois::new(0).inv(&gf), Err(FieldError::DivideByZero));
    assert_eq!(Galois::new(5).div(Galois::zero(), &gf), Err(FieldError::DivideByZero));
}

#[test]
fn zero_divided_by_anything_is_zero() {
    let gf = standard_field();
    for b in 0..=255u8 {
        assert_eq!(gf.div(0, b), Ok(0));
    }
}

#[test]
fn exponent_base_cases() {
    let gf = standard_field();
    for a in 0..=255u8 {
        assert_eq!(gf.exp(a, 0), 1);
    }
    for n in [1u32, 2, 254, 255, 1000, u32::MAX] {
        assert_eq!(gf.exp(0, n), 0);
    }
}

#[test]
fn exponent_values() {
    let gf = standard_field();
    assert_eq!(gf.exp(2, 1), 2);
    assert_eq!(gf.exp(2, 7), 128);
    assert_eq!(gf.exp(2, 8), 29);
    assert_eq!(gf.exp(2, 255), 1);
    assert_eq!(gf.exp(2, 256), 2);
    assert_eq!(Galois::new(3).exp(2, &gf), Galois::new(5));
    for a in 1..=255u8 {
        let mut acc = 1u8;
        for n in 0..300u32 {
            assert_eq!(gf.exp(a, n), acc);
            acc = gf.mul(acc, a);
        }
    }
    // 2^32 - 1 is a multiple of 255, so every nonzero element gives one.
    for a in 1..=255u8 {
        assert_eq!(gf.exp(a, u32::MAX), 1);
    }
}

#[test]
fn table_bijection() {
    let gf = standard_field();
    let exps = gf.exp_table();
    let logs = gf.log_table();
    assert_eq!(exps.len(), 255);
    assert_eq!(logs.len(), 256);
    let mut hit = [false; 255];
    assert_eq!(logs[0], NO_LOG);
    for a in 1..256usize {
        assert!(logs[a] >= 0);
        let l = logs[a] as usize;
        assert!(l < 255);
        assert!(!hit[l]);
        hit[l] = true;
        assert_eq!(exps[l] as usize, a);
    }
    assert!(hit.iter().all(|h| *h));
}

#[test]
fn standard_polynomial_is_accepted() {
    let gf = GaloisField::new(0x1d).unwrap();
    assert_eq!(gf.polynomial(), PRIMITIVE_POLYNOMIAL);
    assert_eq!(GaloisField::standard().polynomial(), 0x1d);
}

#[test]
fn degenerate_polynomials_are_rejected() {
    // Without reduction the powers of x fall to zero after x^7.
    assert_eq!(GaloisField::new(0).err(), Some(FieldError::InvalidPolynomial));
    // An even polynomial only reaches even elements.
    assert_eq!(GaloisField::new(0x1c).err(), Some(FieldError::InvalidPolynomial));
    // x^8 + 1 returns to 1 after eight steps.
    assert_eq!(GaloisField::new(0x01).err(), Some(FieldError::InvalidPolynomial));
    let exps = gen_exp_table(0x01);
    assert_eq!(exps[8], 1);
    assert!(gen_log_table(&exps).is_err());
}

#[test]
fn valid_polynomials_are_the_primitive_ones() {
    let valid = enumerate_valid_polynomials();
    assert_eq!(valid.len(), 16);
    assert!(valid.contains(&PRIMITIVE_POLYNOMIAL));
    assert!(!valid.contains(&0x1b));
    for w in valid.windows(2) {
        assert!(w[0] < w[1]);
    }
    for p in 0..=255u8 {
        assert_eq!(GaloisField::new(p).is_ok(), valid.contains(&p));
    }
}

#[test]
fn other_polynomial_gives_another_field() {
    let gf = GaloisField::new(0x2b).unwrap();
    let std_gf = standard_field();
    assert_eq!(gf.exp_table()[8], 0x2b);
    assert_ne!(gf.mul(0x80, 2), std_gf.mul(0x80, 2));
    for a in 1..=255u8 {
        assert_eq!(gf.mul(a, gf.inv(a).unwrap()), 1);
    }
}

#[test]
fn literal_products_and_quotients() {
    let gf = standard_field();
    assert_eq!(gf.mul(3, 7), 9);
    assert_eq!(gf.div(9, 3), Ok(7));
    assert_eq!(gf.div(9, 7), Ok(3));
    assert_eq!(gf.mul(2, 0x80), 0x1d);
    assert_eq!(Galois::new(3).mul(Galois::new(7), &gf), Galois::new(9));
    assert_eq!(Galois::new(9).div(Galois::new(3), &gf), Ok(Galois::new(7)));
}

#[test]
fn division_undoes_multiplication() {
    let gf = standard_field();
    for a in 1..=255u8 {
        for b in 0..=255u8 {
            let q = gf.div(b, a).unwrap();
            assert_eq!(gf.mul(a, q), b);
            assert_eq!(gf.div(gf.mul(a, b), a), Ok(b));
        }
    }
}

#[test]
fn conversions_keep_the_byte() {
    for v in 0..=255u8 {
        let g = Galois::from(v);
        assert_eq!(g, Galois::new(v));
        assert_eq!(u8::from(g), v);
        assert_eq!(g.0, v);
    }
    assert_eq!(Galois::default(), Galois::zero());
    assert_eq!(u8::from(Galois::identity()), 1);
}
