//! Arbitrary-precision natural numbers, held as base-2^32 digits and computed
//! on by `num-bigint`.
use vstd::prelude::*;
use num_bigint::{BigUint, RandBigInt};
use rand::rngs::StdRng;
use rand::SeedableRng;
use std::cmp::Ordering;
use vstd::arithmetic::power::pow;
use vstd::arithmetic::power2::{lemma2_to64, lemma_pow2_adds, pow2};

verus! {

/// The value of little-endian base-2^32 digits.
pub open spec fn digits_value(d: Seq<u32>) -> nat
    decreases d.len(),
{
    if d.len() == 0 {
        0
    } else {
        d[0] as nat + 0x1_0000_0000 * digits_value(d.drop_first())
    }
}

/// The value of a big-endian byte string.
pub open spec fn be_value(b: Seq<u8>) -> nat
    decreases b.len(),
{
    if b.len() == 0 {
        0
    } else {
        be_value(b.drop_last()) * 256 + b.last() as nat
    }
}

/// The shortest big-endian byte string of `n`; zero is the single byte 0.
pub open spec fn be_bytes(n: nat) -> Seq<u8>
    decreases n,
{
    if n < 256 {
        seq![n as u8]
    } else {
        be_bytes(n / 256).push((n % 256) as u8)
    }
}

/// Decoding the big-endian bytes of a number gives the number back.
pub proof fn lemma_be_bytes_round_trip(n: nat)
    ensures
        be_value(be_bytes(n)) == n,
    decreases n,
{
    let b = be_bytes(n);
    if n < 256 {
        assert(b.drop_last() =~= Seq::<u8>::empty());
        assert(b.last() == n);
        assert(be_value(Seq::<u8>::empty()) == 0);
        assert(be_value(b) == be_value(b.drop_last()) * 256 + b.last() as nat);
    } else {
        lemma_be_bytes_round_trip(n / 256);
        assert(b.drop_last() =~= be_bytes(n / 256));
        assert(b.last() == n % 256);
        assert(n == (n / 256) * 256 + n % 256);
        assert(be_value(b) == be_value(b.drop_last()) * 256 + b.last() as nat);
    }
}

/// A big-endian string of `n` bytes holds a number below `2^(8n)`.
pub proof fn lemma_be_value_bound(b: Seq<u8>)
    ensures
        be_value(b) < pow2(8 * b.len()),
    decreases b.len(),
{
    lemma2_to64();
    if b.len() > 0 {
        let rest = b.drop_last();
        lemma_be_value_bound(rest);
        lemma_pow2_adds(8 * rest.len(), 8);
        assert(8 * b.len() == 8 * rest.len() + 8);
        assert(be_value(b) == be_value(rest) * 256 + b.last() as nat);
        assert(be_value(rest) * 256 + 255 < pow2(8 * rest.len()) * 256) by (nonlinear_arith)
            requires
                be_value(rest) < pow2(8 * rest.len()),
        ;
    }
}

/// A non-negative integer of any size.
#[derive(Clone, Debug, PartialEq, Eq)]
pub struct Natural {
    digits: Vec<u32>,
}

impl View for Natural {
    type V = nat;

    closed spec fn view(&self) -> nat {
        digits_value(self.digits@)
    }
}

/// Relies on `BigUint::from_bytes_be`: reads big-endian bytes as a number.
#[verifier::external_body]
fn digits_from_be_bytes(bytes: &[u8]) -> (r: Vec<u32>)
    ensures
        digits_value(r@) == be_value(bytes@),
{
    BigUint::from_bytes_be(bytes).to_u32_digits()
}

/// Relies on `BigUint::to_bytes_be`: the shortest big-endian bytes, `[0]` for zero.
#[verifier::external_body]
fn be_bytes_from_digits(digits: &Vec<u32>) -> (r: Vec<u8>)
    ensures
        r@ == be_bytes(digits_value(digits@)),
{
    BigUint::from_slice(digits).to_bytes_be()
}

/// Relies on `BigUint::modpow`: `base^exp mod m`. It panics on a zero
/// modulus; the degenerate modulus 1 is left out too.
#[verifier::external_body]
pub(crate) fn modpow(base: &Natural, exp: &Natural, m: &Natural) -> (r: Natural)
    requires
        m@ > 1,
    ensures
        r@ == pow(base@ as int, exp@) % (m@ as int),
{
    let b = BigUint::from_slice(&base.digits);
    let e = BigUint::from_slice(&exp.digits);
    Natural { digits: b.modpow(&e, &BigUint::from_slice(&m.digits)).to_u32_digits() }
}

/// Relies on `BigUint`'s `*`.
#[verifier::external_body]
pub(crate) fn product(a: &Natural, b: &Natural) -> (r: Natural)
    ensures
        r@ == a@ * b@,
{
    let n = BigUint::from_slice(&a.digits) * BigUint::from_slice(&b.digits);
    Natural { digits: n.to_u32_digits() }
}

/// Relies on `BigUint`'s `+`.
#[verifier::external_body]
pub(crate) fn sum(a: &Natural, b: &Natural) -> (r: Natural)
    ensures
        r@ == a@ + b@,
{
    let n = BigUint::from_slice(&a.digits) + BigUint::from_slice(&b.digits);
    Natural { digits: n.to_u32_digits() }
}

/// Relies on `BigUint`'s `-`, which panics when the result would be negative.
#[verifier::external_body]
pub(crate) fn difference(a: &Natural, b: &Natural) -> (r: Natural)
    requires
        a@ >= b@,
    ensures
        r@ == a@ - b@,
{
    let n = BigUint::from_slice(&a.digits) - BigUint::from_slice(&b.digits);
    Natural { digits: n.to_u32_digits() }
}

/// Relies on `BigUint`'s `%`, which panics on a zero divisor.
#[verifier::external_body]
pub(crate) fn remainder(a: &Natural, m: &Natural) -> (r: Natural)
    requires
        m@ > 0,
    ensures
        r@ == a@ % m@,
{
    let n = BigUint::from_slice(&a.digits) % BigUint::from_slice(&m.digits);
    Natural { digits: n.to_u32_digits() }
}

/// Relies on `BigUint`'s `Ord::cmp`: the order of the two values.
#[verifier::external_body]
pub(crate) fn compare(a: &Natural, b: &Natural) -> (r: Ordering)
    ensures
        (r == Ordering::Less) == (a@ < b@),
        (r == Ordering::Equal) == (a@ == b@),
        (r == Ordering::Greater) == (a@ > b@),
{
    BigUint::from_slice(&a.digits).cmp(&BigUint::from_slice(&b.digits))
}

/// Relies on `RandBigInt::gen_biguint` over a `StdRng` seeded from the
/// operating system: a number below `2^bits`, drawn afresh on every call.
/// The bound on `bits` keeps its digit count within `usize` on every target.
#[verifier::external_body]
pub(crate) fn random_below_pow2(bits: u64) -> (r: Natural)
    requires
        bits <= u32::MAX,
    ensures
        r@ < pow2(bits as nat),
{
    let mut rng = StdRng::from_entropy();
    Natural { digits: rng.gen_biguint(bits).to_u32_digits() }
}

impl Natural {
    /// Zero.
    pub fn zero() -> (r: Natural)
        ensures
            r@ == 0,
    {
        Natural { digits: Vec::new() }
    }

    /// The number whose little-endian base-2^32 digits are `digits`.
    pub(crate) fn from_digits(digits: Vec<u32>) -> (r: Natural)
        ensures
            r@ == digits_value(digits@),
    {
        Natural { digits }
    }

    /// A second value equal to this one.
    pub fn copy_value(&self) -> (r: Natural)
        ensures
            r@ == self@,
    {
        let digits = self.digits.clone();
        assert(digits@ =~= self.digits@);
        Natural { digits }
    }

    /// The number `v`.
    pub fn from_u64(v: u64) -> (r: Natural)
        ensures
            r@ == v as nat,
    {
        if v == 0 {
            return Natural::zero();
        }
        let low = (v % 0x1_0000_0000) as u32;
        let high = (v / 0x1_0000_0000) as u32;
        let digits = if high == 0 {
            vec![low]
        } else {
            vec![low, high]
        };
        proof {
            reveal_with_fuel(digits_value, 3);
            assert(seq![low, high].drop_first() =~= seq![high]);
            assert(seq![low].drop_first() =~= Seq::<u32>::empty());
            assert(seq![high].drop_first() =~= Seq::<u32>::empty());
        }
        Natural { digits }
    }

    /// The shortest big-endian byte string of the number; zero gives `[0]`.
    pub fn to_bytes_be(&self) -> (r: Vec<u8>)
        ensures
            r@ == be_bytes(self@),
    {
        be_bytes_from_digits(&self.digits)
    }

    /// Decodes a big-endian unsigned byte string; the empty string is zero.
    pub fn from_bytes_be(bytes: &[u8]) -> (r: Natural)
        ensures
            r@ == be_value(bytes@),
    {
        Natural { digits: digits_from_be_bytes(bytes) }
    }
}

} // verus!
