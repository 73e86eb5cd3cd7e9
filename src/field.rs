//! The field engine: the six operations of GF(2^8), read off the tables.
use vstd::prelude::*;

use crate::primitive::lemma_standard_is_primitive;
use crate::tables::{
    dlog, gen_exp_table, NO_LOG, gen_log_table, is_primitive, lemma_dlog, power, power_seq, GROUP_ORDER,
    PRIMITIVE_POLYNOMIAL,
};

verus! {

/// Addition, which is also subtraction: the bitwise exclusive or.
pub open spec fn field_add(a: u8, b: u8) -> u8 {
    a ^ b
}

/// The product of `a` and `b`: zero if either is zero, otherwise the power
/// whose exponent is the sum of their logarithms, modulo 255.
pub open spec fn field_mul(poly: u8, a: u8, b: u8) -> u8 {
    if a == 0 || b == 0 {
        0
    } else {
        power(poly, (dlog(poly, a) + dlog(poly, b)) % 255)
    }
}

/// The quotient of `a` by a nonzero `b` (and zero when `a` is zero): the power
/// whose exponent is the difference of their logarithms, modulo 255.
pub open spec fn field_div(poly: u8, a: u8, b: u8) -> u8 {
    if a == 0 {
        0
    } else {
        power(poly, ((dlog(poly, a) + 255 - dlog(poly, b)) % 255) as nat)
    }
}

/// `a` raised to the `n`-th power, with `a^0 == 1` for every `a`.
pub open spec fn field_exp(poly: u8, a: u8, n: nat) -> u8 {
    if n == 0 {
        1
    } else if a == 0 {
        0
    } else {
        power(poly, (dlog(poly, a) * n) % 255)
    }
}

/// The two ways a field operation or construction can fail.
#[derive(Debug, Clone, Copy, PartialEq, Eq, Structural)]
pub enum FieldError {
    /// The polynomial does not generate all 255 nonzero elements.
    InvalidPolynomial,
    /// A nonzero element was divided by zero.
    DivideByZero,
}

/// The tables of GF(2^8) for one primitive polynomial, built once and read by
/// every operation.
pub struct GaloisField {
    poly: u8,
    exps: Vec<u8>,
    logs: Vec<i16>,
}

impl View for GaloisField {
    type V = u8;

    /// A field is determined by its reduction polynomial.
    closed spec fn view(&self) -> u8 {
        self.poly
    }
}

impl GaloisField {
    /// The polynomial is primitive, the exponent table holds its powers, and
    /// the logarithm table holds the logarithm of each nonzero element.
    pub closed spec fn wf(&self) -> bool {
        &&& is_primitive(self.poly)
        &&& self.exps@ == power_seq(self.poly)
        &&& self.logs@.len() == 256
        &&& self.logs@[0] == NO_LOG
        &&& forall|a: int| 1 <= a < 256 ==> #[trigger] self.logs@[a] == dlog(self.poly, a as u8)
    }

    /// A well-formed field has a primitive polynomial.
    pub proof fn lemma_primitive(&self)
        requires
            self.wf(),
        ensures
            is_primitive(self@),
    {
    }

    /// Builds the field of the reduction polynomial `x^8 + poly`. Fails with
    /// `InvalidPolynomial` exactly when `poly` is not primitive.
    pub fn new(poly: u8) -> (r: Result<GaloisField, FieldError>)
        ensures
            r is Ok <==> is_primitive(poly),
            r matches Ok(f) ==> f.wf() && f@ == poly,
            r matches Err(e) ==> e == FieldError::InvalidPolynomial,
    {
        let exps = gen_exp_table(poly);
        match gen_log_table(&exps) {
            Ok(logs) => {
                assert forall|a: int| 1 <= a < 256 implies #[trigger] logs@[a] == dlog(
                    poly,
                    a as u8,
                ) by {
                    lemma_dlog(poly, a as u8);
                    let k = dlog(poly, a as u8) as int;
                    assert(exps@[k] == a as u8);
                }
                Ok(GaloisField { poly, exps, logs })
            },
            Err(_) => Err(FieldError::InvalidPolynomial),
        }
    }

    /// Builds the field of the standard polynomial `x^8 + x^4 + x^3 + x^2 + 1`,
    /// which is primitive.
    pub fn standard() -> (r: GaloisField)
        ensures
            r.wf(),
            r@ == PRIMITIVE_POLYNOMIAL,
    {
        proof {
            lemma_standard_is_primitive();
        }
        GaloisField::new(PRIMITIVE_POLYNOMIAL).unwrap()
    }

    /// The low byte of the reduction polynomial.
    pub fn polynomial(&self) -> (r: u8)
        ensures
            r == self@,
    {
        self.poly
    }

    /// The exponent table: entry `k` is the `k`-th power of the generator.
    pub fn exp_table(&self) -> (r: &Vec<u8>)
        requires
            self.wf(),
        ensures
            r@ == power_seq(self@),
    {
        &self.exps
    }

    /// The logarithm table: entry `a` is the logarithm of `a`; entry zero is
    /// `NO_LOG`, as zero has no logarithm.
    pub fn log_table(&self) -> (r: &Vec<i16>)
        requires
            self.wf(),
        ensures
            r@.len() == 256,
            r@[0] == NO_LOG,
            forall|a: int| 1 <= a < 256 ==> #[trigger] r@[a] == dlog(self@, a as u8),
    {
        &self.logs
    }

    /// The sum of two elements.
    pub fn add(a: u8, b: u8) -> (r: u8)
        ensures
            r == field_add(a, b),
    {
        a ^ b
    }

    /// The difference of two elements, which equals their sum.
    pub fn sub(a: u8, b: u8) -> (r: u8)
        ensures
            r == field_add(a, b),
    {
        a ^ b
    }

    /// The product of two elements.
    pub fn mul(&self, a: u8, b: u8) -> (r: u8)
        requires
            self.wf(),
        ensures
            r == field_mul(self@, a, b),
    {
        if a == 0 || b == 0 {
            return 0;
        }
        let la = self.logs[a as usize] as usize;
        let lb = self.logs[b as usize] as usize;
        proof {
            lemma_dlog(self.poly, a);
            lemma_dlog(self.poly, b);
        }
        let mut s = la + lb;
        if s >= GROUP_ORDER {
            s -= GROUP_ORDER;
        }
        assert(s == (dlog(self.poly, a) + dlog(self.poly, b)) % 255);
        self.exps[s]
    }

    /// The quotient of `a` by `b`. Fails with `DivideByZero` exactly when `b`
    /// is zero and `a` is not.
    pub fn div(&self, a: u8, b: u8) -> (r: Result<u8, FieldError>)
        requires
            self.wf(),
        ensures
            r is Err <==> (a != 0 && b == 0),
            r matches Err(e) ==> e == FieldError::DivideByZero,
            r matches Ok(q) ==> q == field_div(self@, a, b),
    {
        if a == 0 {
            return Ok(0);
        }
        if b == 0 {
            return Err(FieldError::DivideByZero);
        }
        let la = self.logs[a as usize] as usize;
        let lb = self.logs[b as usize] as usize;
        proof {
            lemma_dlog(self.poly, a);
            lemma_dlog(self.poly, b);
        }
        let d = if la >= lb {
            la - lb
        } else {
            la + GROUP_ORDER - lb
        };
        assert(d == (dlog(self.poly, a) + 255 - dlog(self.poly, b)) % 255);
        Ok(self.exps[d])
    }

    /// The multiplicative inverse of `a`, that is `1 / a`. Fails with
    /// `DivideByZero` exactly when `a` is zero.
    pub fn inv(&self, a: u8) -> (r: Result<u8, FieldError>)
        requires
            self.wf(),
        ensures
            r is Err <==> a == 0,
            r matches Err(e) ==> e == FieldError::DivideByZero,
            r matches Ok(q) ==> q == field_div(self@, 1, a),
    {
        self.div(1, a)
    }

    /// `a` raised to the power `n`.
    pub fn exp(&self, a: u8, n: u32) -> (r: u8)
        requires
            self.wf(),
        ensures
            r == field_exp(self@, a, n as nat),
    {
        if n == 0 {
            return 1;
        }
        if a == 0 {
            return 0;
        }
        let la = self.logs[a as usize] as u64;
        proof {
            lemma_dlog(self.poly, a);
            assert(la * (n as u64) <= 254 * 0xffff_ffff) by (nonlinear_arith)
                requires
                    la <= 254,
            ;
        }
        let e = (la * (n as u64)) % (GROUP_ORDER as u64);
        self.exps[e as usize]
    }
}

/// An element of GF(2^8), as the byte whose bits are its coefficients.
#[derive(Debug, Clone, Copy, PartialEq, Eq, Structural, PartialOrd, Ord, Default, Hash)]
pub struct Galois(pub u8);

impl Galois {
    pub fn new(v: u8) -> (r: Galois)
        ensures
            r.0 == v,
    {
        Galois(v)
    }

    /// The additive identity.
    pub fn zero() -> (r: Galois)
        ensures
            r.0 == 0,
    {
        Galois(0)
    }

    /// The multiplicative identity.
    pub fn identity() -> (r: Galois)
        ensures
            r.0 == 1,
    {
        Galois(1)
    }

    pub fn add(self, rhs: Galois) -> (r: Galois)
        ensures
            r.0 == field_add(self.0, rhs.0),
    {
        Galois(GaloisField::add(self.0, rhs.0))
    }

    pub fn sub(self, rhs: Galois) -> (r: Galois)
        ensures
            r.0 == field_add(self.0, rhs.0),
    {
        Galois(GaloisField::sub(self.0, rhs.0))
    }

    pub fn mul(self, rhs: Galois, gf: &GaloisField) -> (r: Galois)
        requires
            gf.wf(),
        ensures
            r.0 == field_mul(gf@, self.0, rhs.0),
    {
        Galois(gf.mul(self.0, rhs.0))
    }

    /// Fails with `DivideByZero` exactly when `rhs` is zero and `self` is not.
    pub fn div(self, rhs: Galois, gf: &GaloisField) -> (r: Result<Galois, FieldError>)
        requires
            gf.wf(),
        ensures
            r is Err <==> (self.0 != 0 && rhs.0 == 0),
            r matches Err(e) ==> e == FieldError::DivideByZero,
            r matches Ok(q) ==> q.0 == field_div(gf@, self.0, rhs.0),
    {
        match gf.div(self.0, rhs.0) {
            Ok(q) => Ok(Galois(q)),
            Err(e) => Err(e),
        }
    }

    /// Fails with `DivideByZero` exactly when `self` is zero.
    pub fn inv(self, gf: &GaloisField) -> (r: Result<Galois, FieldError>)
        requires
            gf.wf(),
        ensures
            r is Err <==> self.0 == 0,
            r matches Err(e) ==> e == FieldError::DivideByZero,
            r matches Ok(q) ==> q.0 == field_div(gf@, 1, self.0),
    {
        Galois::identity().div(self, gf)
    }

    pub fn exp(self, n: u32, gf: &GaloisField) -> (r: Galois)
        requires
            gf.wf(),
        ensures
            r.0 == field_exp(gf@, self.0, n as nat),
    {
        Galois(gf.exp(self.0, n))
    }
}

impl From<u8> for Galois {
    fn from(v: u8) -> Galois {
        Galois(v)
    }
}

impl vstd::std_specs::convert::FromSpecImpl<u8> for Galois {
    open spec fn obeys_from_spec() -> bool {
        true
    }

    open spec fn from_spec(v: u8) -> Galois {
        Galois(v)
    }
}

impl From<Galois> for u8 {
    fn from(v: Galois) -> u8 {
        v.0
    }
}

impl vstd::std_specs::convert::FromSpecImpl<Galois> for u8 {
    open spec fn obeys_from_spec() -> bool {
        true
    }

    open spec fn from_spec(v: Galois) -> u8 {
        v.0
    }
}

} // verus!
