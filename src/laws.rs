//! The algebraic laws that the field operations obey.
use vstd::prelude::*;

use crate::field::{field_add, field_div, field_exp, field_mul, GaloisField};
use crate::tables::{dlog, is_primitive, lemma_dlog, lemma_dlog_power, power};

verus! {

/// Zero is the additive identity: `a + 0 == a`.
pub proof fn lemma_add_identity(a: u8)
    ensures
        field_add(a, 0) == a,
{
    assert(a ^ 0 == a) by (bit_vector);
}

/// Every element is its own additive inverse: `b = 0 - a` satisfies `a + b == 0`.
pub proof fn lemma_add_self_inverse(a: u8)
    ensures
        field_add(0, a) == a,
        field_add(a, field_add(0, a)) == 0,
{
    assert(0 ^ a == a && a ^ (0 ^ a) == 0) by (bit_vector);
}

/// Addition is associative: `a + (b + c) == (a + b) + c`.
pub proof fn lemma_add_associative(a: u8, b: u8, c: u8)
    ensures
        field_add(a, field_add(b, c)) == field_add(field_add(a, b), c),
{
    assert(a ^ (b ^ c) == (a ^ b) ^ c) by (bit_vector);
}

/// The logarithm table restricted to the nonzero elements is a bijection onto
/// the exponents `[0, 254]`, and the exponent table undoes it.
pub proof fn lemma_log_bijection(gf: &GaloisField)
    requires
        gf.wf(),
    ensures
        forall|a: u8| a != 0 ==> #[trigger] dlog(gf@, a) < 255 && power(gf@, dlog(gf@, a)) == a,
        forall|k: nat|
            k < 255 ==> #[trigger] power(gf@, k) != 0 && dlog(gf@, power(gf@, k)) == k,
{
    gf.lemma_primitive();
    assert forall|a: u8| a != 0 implies #[trigger] dlog(gf@, a) < 255 && power(gf@, dlog(gf@, a))
        == a by {
        lemma_dlog(gf@, a);
    }
    assert forall|k: nat| k < 255 implies #[trigger] power(gf@, k) != 0 && dlog(
        gf@,
        power(gf@, k),
    ) == k by {
        lemma_dlog_power(gf@, k);
    }
}

/// One is the multiplicative identity: `a * 1 == a`.
pub proof fn lemma_mul_identity(gf: &GaloisField, a: u8)
    requires
        gf.wf(),
    ensures
        field_mul(gf@, a, 1) == a,
{
    gf.lemma_primitive();
    lemma_dlog_power(gf@, 0);
    if a != 0 {
        lemma_dlog(gf@, a);
    }
}

/// Multiplication is associative: `a * (b * c) == (a * b) * c`.
pub proof fn lemma_mul_associative(gf: &GaloisField, a: u8, b: u8, c: u8)
    requires
        gf.wf(),
    ensures
        field_mul(gf@, a, field_mul(gf@, b, c)) == field_mul(gf@, field_mul(gf@, a, b), c),
{
    let p = gf@;
    gf.lemma_primitive();
    if a != 0 && b != 0 && c != 0 {
        lemma_dlog(p, a);
        lemma_dlog(p, b);
        lemma_dlog(p, c);
        let bc = (dlog(p, b) + dlog(p, c)) % 255;
        let ab = (dlog(p, a) + dlog(p, b)) % 255;
        lemma_dlog_power(p, bc);
        lemma_dlog_power(p, ab);
        assert((dlog(p, a) + bc) % 255 == (ab + dlog(p, c)) % 255);
    }
}

/// Every nonzero element times its inverse is one: `a * (1 / a) == 1`.
pub proof fn lemma_mul_inverse(gf: &GaloisField, a: u8)
    requires
        gf.wf(),
        a != 0,
    ensures
        field_mul(gf@, a, field_div(gf@, 1, a)) == 1,
{
    lemma_mul_div_cancel(gf, a, 1);
}

/// Division undoes multiplication: `a * (b / a) == b` for every nonzero `a`.
pub proof fn lemma_mul_div_cancel(gf: &GaloisField, a: u8, b: u8)
    requires
        gf.wf(),
        a != 0,
    ensures
        field_mul(gf@, a, field_div(gf@, b, a)) == b,
{
    let p = gf@;
    gf.lemma_primitive();
    if b != 0 {
        lemma_dlog(p, a);
        lemma_dlog(p, b);
        let q = ((dlog(p, b) + 255 - dlog(p, a)) % 255) as nat;
        lemma_dlog_power(p, q);
        assert((dlog(p, a) + q) % 255 == dlog(p, b));
    }
}

/// Any element to the power zero is one, zero included; zero to a positive
/// power is zero.
pub proof fn lemma_exp_base_cases(gf: &GaloisField, a: u8, n: nat)
    requires
        gf.wf(),
    ensures
        field_exp(gf@, a, 0) == 1,
        n > 0 ==> field_exp(gf@, 0, n) == 0,
{
}

} // verus!
