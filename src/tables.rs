//! Construction of the exponent (anti-logarithm) and logarithm tables.
use vstd::prelude::*;

verus! {

/// The low byte of the standard reduction polynomial x^8 + x^4 + x^3 + x^2 + 1;
/// the x^8 term is implicit.
pub const PRIMITIVE_POLYNOMIAL: u8 = 0x1d;

/// The number of nonzero field elements, which is also the order of the
/// multiplicative group.
pub const GROUP_ORDER: usize = 255;

/// Multiplies a field element by the polynomial `x`, reducing by `poly`
/// when the shift carries out of the eighth bit.
pub open spec fn mul_x(poly: u8, x: u8) -> u8 {
    if x < 128 {
        (2 * x) as u8
    } else {
        ((2 * x - 256) as u8) ^ poly
    }
}

/// The `i`-th power of the generator `x` under the reduction polynomial `poly`.
pub open spec fn power(poly: u8, i: nat) -> u8
    decreases i,
{
    if i == 0 {
        1
    } else {
        mul_x(poly, power(poly, (i - 1) as nat))
    }
}

/// The first 255 powers of the generator.
pub open spec fn power_seq(poly: u8) -> Seq<u8> {
    Seq::new(255, |i: int| power(poly, i as nat))
}

/// `s` holds every nonzero byte exactly once, and never zero.
pub open spec fn visits_each_nonzero_once(s: Seq<u8>) -> bool {
    &&& forall|i: int, j: int| 0 <= i < j < s.len() ==> s[i] != s[j]
    &&& forall|i: int| 0 <= i < s.len() ==> s[i] != 0
    &&& forall|a: u8| a != 0 ==> #[trigger] s.contains(a)
}

/// A polynomial is primitive when the powers of `x` run through all 255
/// nonzero field elements before repeating.
pub open spec fn is_primitive(poly: u8) -> bool {
    visits_each_nonzero_once(power_seq(poly))
}

/// The discrete logarithm of `a`: the exponent below 255 whose power is `a`.
pub open spec fn dlog(poly: u8, a: u8) -> nat {
    choose|k: nat| k < 255 && power(poly, k) == a
}

/// Under a primitive polynomial every nonzero element has exactly one
/// logarithm below 255.
pub proof fn lemma_dlog(poly: u8, a: u8)
    requires
        is_primitive(poly),
        a != 0,
    ensures
        dlog(poly, a) < 255,
        power(poly, dlog(poly, a)) == a,
        forall|k: nat| k < 255 && power(poly, k) == a ==> k == dlog(poly, a),
{
    let s = power_seq(poly);
    assert(s.contains(a));
    let i = choose|i: int| 0 <= i < s.len() && s[i] == a;
    assert(power(poly, i as nat) == a);
    let d = dlog(poly, a);
    assert forall|k: nat| k < 255 && power(poly, k) == a implies k == d by {
        if k < d {
            assert(s[k as int] != s[d as int]);
        } else if d < k {
            assert(s[d as int] != s[k as int]);
        }
    }
}

/// The logarithm of a power below 255 is its exponent.
pub proof fn lemma_dlog_power(poly: u8, k: nat)
    requires
        is_primitive(poly),
        k < 255,
    ensures
        power(poly, k) != 0,
        dlog(poly, power(poly, k)) == k,
{
    let s = power_seq(poly);
    assert(s[k as int] == power(poly, k));
    lemma_dlog(poly, power(poly, k));
}

fn times_x(poly: u8, x: u8) -> (r: u8)
    ensures
        r == mul_x(poly, x),
{
    if x < 128 {
        x * 2
    } else {
        ((x - 128) * 2) ^ poly
    }
}

/// Builds the exponent table: entry `i` is the `i`-th power of the generator,
/// for `i` in `[0, 254]`.
pub fn gen_exp_table(poly: u8) -> (exps: Vec<u8>)
    ensures
        exps@ == power_seq(poly),
{
    let mut exps: Vec<u8> = Vec::new();
    exps.push(1u8);
    let mut i: usize = 1;
    while i < GROUP_ORDER
        invariant
            1 <= i <= 255,
            exps@.len() == i,
            forall|k: int| 0 <= k < i ==> exps@[k] == power(poly, k as nat),
        decreases 255 - i,
    {
        let next = times_x(poly, exps[i - 1]);
        exps.push(next);
        i += 1;
    }
    assert(exps@ =~= power_seq(poly));
    exps
}

/// The polynomial behind an exponent table does not generate the whole
/// multiplicative group.
#[derive(Debug, Clone, Copy, PartialEq, Eq)]
pub struct DuplicateLogarithm;

/// The entry of a logarithm table for an element that has no logarithm.
pub const NO_LOG: i16 = -1;

/// Inverts an exponent table of 255 entries into a logarithm table of 256
/// entries. Entry zero holds `NO_LOG`, as zero has no logarithm. Fails when
/// the table writes an entry twice (a repeated element), writes entry zero,
/// or leaves a nonzero element without a logarithm.
pub fn gen_log_table(exps: &Vec<u8>) -> (r: Result<Vec<i16>, DuplicateLogarithm>)
    requires
        exps@.len() == 255,
    ensures
        r is Ok <==> visits_each_nonzero_once(exps@),
        r matches Ok(logs) ==> {
            &&& logs@.len() == 256
            &&& logs@[0] == NO_LOG
            &&& forall|k: int| 0 <= k < 255 ==> logs@[exps@[k] as int] == k
            &&& forall|a: int|
                1 <= a < 256 ==> 0 <= #[trigger] logs@[a] < 255 && exps@[logs@[a] as int] == a
        },
{
    let mut logs: Vec<i16> = Vec::new();
    let mut n: usize = 0;
    while n < 256
        invariant
            n <= 256,
            logs@.len() == n,
            forall|a: int| 0 <= a < n ==> logs@[a] == NO_LOG,
        decreases 256 - n,
    {
        logs.push(NO_LOG);
        n += 1;
    }
    let mut i: usize = 0;
    while i < GROUP_ORDER
        invariant
            i <= 255,
            exps@.len() == 255,
            logs@.len() == 256,
            logs@[0] == NO_LOG,
            forall|a: int|
                0 <= a < 256 ==> #[trigger] logs@[a] == NO_LOG || (0 <= logs@[a] < i
                    && exps@[logs@[a] as int] == a),
            forall|k: int| 0 <= k < i ==> logs@[exps@[k] as int] == k,
            forall|k: int, j: int| 0 <= k < j < i ==> exps@[k] != exps@[j],
            forall|k: int| 0 <= k < i ==> exps@[k] != 0,
        decreases 255 - i,
    {
        let v = exps[i];
        if v == 0 || logs[v as usize] != NO_LOG {
            if v != 0 {
                let ghost k = logs@[v as int] as int;
                assert(exps@[k] == exps@[i as int]);
            }
            return Err(DuplicateLogarithm);
        }
        logs.set(v as usize, i as i16);
        i += 1;
    }
    let mut a: usize = 1;
    while a < 256
        invariant
            1 <= a <= 256,
            exps@.len() == 255,
            logs@.len() == 256,
            forall|b: int| 1 <= b < a ==> #[trigger] logs@[b] != NO_LOG,
            forall|b: int|
                0 <= b < 256 ==> #[trigger] logs@[b] == NO_LOG || (0 <= logs@[b] < 255
                    && exps@[logs@[b] as int] == b),
            forall|k: int| 0 <= k < 255 ==> logs@[exps@[k] as int] == k,
        decreases 256 - a,
    {
        if logs[a] == NO_LOG {
            assert(!exps@.contains(a as u8)) by {
                if exps@.contains(a as u8) {
                    let k = choose|k: int| 0 <= k < 255 && exps@[k] == a as u8;
                    assert(logs@[a as int] == k);
                }
            }
            return Err(DuplicateLogarithm);
        }
        a += 1;
    }
    assert forall|b: u8| b != 0 implies #[trigger] exps@.contains(b) by {
        assert(logs@[b as int] != NO_LOG);
        assert(exps@[logs@[b as int] as int] == b);
    }
    Ok(logs)
}

/// Scans the 256 candidate polynomials and returns, in increasing order,
/// those that are primitive.
pub fn enumerate_valid_polynomials() -> (r: Vec<u8>)
    ensures
        forall|p: u8| r@.contains(p) <==> is_primitive(p),
        forall|i: int, j: int| 0 <= i < j < r@.len() ==> r@[i] < r@[j],
{
    let mut r: Vec<u8> = Vec::new();
    let mut p: u16 = 0;
    while p < 256
        invariant
            p <= 256,
            forall|q: u8| r@.contains(q) <==> (q < p && is_primitive(q)),
            forall|i: int, j: int| 0 <= i < j < r@.len() ==> r@[i] < r@[j],
            forall|i: int| 0 <= i < r@.len() ==> r@[i] < p,
        decreases 256 - p,
    {
        let exps = gen_exp_table(p as u8);
        let ok = gen_log_table(&exps).is_ok();
        let ghost old_r = r@;
        if ok {
            r.push(p as u8);
        }
        assert forall|q: u8| r@.contains(q) <==> (q < p + 1 && is_primitive(q)) by {
            if r@.contains(q) && q != p {
                let i = choose|i: int| 0 <= i < r@.len() && r@[i] == q;
                assert(old_r[i] == q);
            }
            if q < p && is_primitive(q) {
                let i = choose|i: int| 0 <= i < old_r.len() && old_r[i] == q;
                assert(r@[i] == q);
            }
            if q == p && is_primitive(q) {
                assert(r@[r@.len() - 1] == q);
            }
        }
        p += 1;
    }
    r
}

} // verus!
