//! The Chaum-Pedersen proof of equal discrete logarithms: commitments,
//! challenge responses and their verification over a subgroup of order `q`
//! modulo a prime `p`.
use vstd::prelude::*;
use crate::error::AuthError;
use crate::natural::{
    compare, difference, digits_value, modpow, product, random_below_pow2, remainder, sum, Natural,
};
use std::cmp::Ordering;
use vstd::arithmetic::div_mod::{lemma_mod_add_multiples_vanish, lemma_small_mod, lemma_sub_mod_noop};
use vstd::arithmetic::power::pow;
use vstd::arithmetic::power2::pow2;

verus! {

/// The mathematical content of a group description.
pub struct GroupView {
    pub bit_size: nat,
    pub p: nat,
    pub q: nat,
    pub g: nat,
    pub h: nat,
}

/// The built-in group: `g = 4` and `h = 9` generate the subgroup of quadratic
/// residues, and random scalars have 256 bits.
pub open spec fn default_group() -> GroupView {
    GroupView { bit_size: 256, p: default_p(), q: default_q(), g: 4, h: 9 }
}

/// `(g^k mod p, h^k mod p)`.
pub open spec fn commitment(grp: GroupView, k: nat) -> (nat, nat) {
    (
        (pow(grp.g as int, k) % (grp.p as int)) as nat,
        (pow(grp.h as int, k) % (grp.p as int)) as nat,
    )
}

/// The response `(k - c * x) mod q`, taken in `[0, q)`.
pub open spec fn response(grp: GroupView, x: nat, k: nat, c: nat) -> nat {
    ((k - c * x) % (grp.q as int)) as nat
}

/// `r == base^s * y^c mod p`.
pub open spec fn recomputes(grp: GroupView, base: nat, y: nat, r: nat, s: nat, c: nat) -> bool {
    r as int == (pow(base as int, s) % (grp.p as int)) * (pow(y as int, c) % (grp.p as int)) % (
    grp.p as int)
}

/// The verifier's check: both commitments are recomputed from the response
/// `s`, the challenge `c` and the registered values `y1`, `y2`.
pub open spec fn accepts(grp: GroupView, y1: nat, y2: nat, r1: nat, r2: nat, s: nat, c: nat) -> bool {
    recomputes(grp, grp.g, y1, r1, s, c) && recomputes(grp, grp.h, y2, r2, s, c)
}

/// The modulus of the built-in group, a 256-bit safe prime.
pub open spec fn default_p() -> nat {
    42765216643065397982265462252423826320512529931694366715111734768493812630447nat
}

/// The order of the built-in subgroup, `(p - 1) / 2`.
pub open spec fn default_q() -> nat {
    21382608321532698991132731126211913160256264965847183357555867384246906315223nat
}

/// The base-2^32 digits written in `Parameters::default_group` spell the
/// built-in `p` and `q`.
proof fn lemma_default_digits()
    ensures
        digits_value(
            seq![2501231535u32, 313474817, 2116166206, 2778187053, 2140465724, 665811868, 340945393, 1586250046],
        ) == default_p(),
        digits_value(
            seq![3398099415u32, 156737408, 3205566751, 1389093526, 1070232862, 2480389582, 170472696, 793125023],
        ) == default_q(),
{
    reveal_with_fuel(digits_value, 9);
    let p = seq![2501231535u32, 313474817, 2116166206, 2778187053, 2140465724, 665811868, 340945393, 1586250046];
    let q = seq![3398099415u32, 156737408, 3205566751, 1389093526, 1070232862, 2480389582, 170472696, 793125023];
    assert(p.drop_first() =~= p.subrange(1, 8));
    assert(p.subrange(1, 8).drop_first() =~= p.subrange(2, 8));
    assert(p.subrange(2, 8).drop_first() =~= p.subrange(3, 8));
    assert(p.subrange(3, 8).drop_first() =~= p.subrange(4, 8));
    assert(p.subrange(4, 8).drop_first() =~= p.subrange(5, 8));
    assert(p.subrange(5, 8).drop_first() =~= p.subrange(6, 8));
    assert(p.subrange(6, 8).drop_first() =~= p.subrange(7, 8));
    assert(p.subrange(7, 8).drop_first() =~= Seq::<u32>::empty());
    assert(q.drop_first() =~= q.subrange(1, 8));
    assert(q.subrange(1, 8).drop_first() =~= q.subrange(2, 8));
    assert(q.subrange(2, 8).drop_first() =~= q.subrange(3, 8));
    assert(q.subrange(3, 8).drop_first() =~= q.subrange(4, 8));
    assert(q.subrange(4, 8).drop_first() =~= q.subrange(5, 8));
    assert(q.subrange(5, 8).drop_first() =~= q.subrange(6, 8));
    assert(q.subrange(6, 8).drop_first() =~= q.subrange(7, 8));
    assert(q.subrange(7, 8).drop_first() =~= Seq::<u32>::empty());
}

/// The fixed group that prover and verifier agree on.
pub struct Parameters {
    bit_size: u64,
    p: Natural,
    q: Natural,
    g: Natural,
    h: Natural,
}

impl View for Parameters {
    type V = GroupView;

    closed spec fn view(&self) -> GroupView {
        GroupView { bit_size: self.bit_size as nat, p: self.p@, q: self.q@, g: self.g@, h: self.h@ }
    }
}

impl Parameters {
    /// The moduli are usable and random scalars can be drawn.
    pub open spec fn wf(&self) -> bool {
        self@.p > 1 && self@.q > 0 && self@.bit_size <= u32::MAX
    }

    /// A group given by its modulus `p`, subgroup order `q`, generators `g`
    /// and `h`, and the bit size of random scalars. Whether `g` and `h` really
    /// generate a subgroup of order `q` is the caller's to ensure.
    pub fn new(bit_size: u64, p: Natural, q: Natural, g: Natural, h: Natural) -> (r: Parameters)
        requires
            p@ > 1,
            q@ > 0,
            bit_size <= u32::MAX,
        ensures
            r@ == (GroupView { bit_size: bit_size as nat, p: p@, q: q@, g: g@, h: h@ }),
            r.wf(),
    {
        Parameters { bit_size, p, q, g, h }
    }

    /// The bit size of random scalars.
    pub fn bit_size(&self) -> (r: u64)
        ensures
            r == self@.bit_size,
    {
        self.bit_size
    }

    /// The modulus `p`.
    pub fn p(&self) -> (r: &Natural)
        ensures
            r@ == self@.p,
    {
        &self.p
    }

    /// The subgroup order `q`.
    pub fn q(&self) -> (r: &Natural)
        ensures
            r@ == self@.q,
    {
        &self.q
    }

    /// The first generator `g`.
    pub fn g(&self) -> (r: &Natural)
        ensures
            r@ == self@.g,
    {
        &self.g
    }

    /// The second generator `h`.
    pub fn h(&self) -> (r: &Natural)
        ensures
            r@ == self@.h,
    {
        &self.h
    }

    /// Whether `g^q = h^q = 1` modulo `p`, that is, whether both generators
    /// lie in the subgroup of order `q`.
    pub fn generators_in_subgroup(&self) -> (r: bool)
        requires
            self.wf(),
        ensures
            r == (pow(self@.g as int, self@.q) % (self@.p as int) == 1 && pow(
                self@.h as int,
                self@.q,
            ) % (self@.p as int) == 1),
    {
        let one = Natural::from_u64(1);
        let g_power = modpow(&self.g, &self.q, &self.p);
        let h_power = modpow(&self.h, &self.q, &self.p);
        match (compare(&g_power, &one), compare(&h_power, &one)) {
            (Ordering::Equal, Ordering::Equal) => true,
            _ => false,
        }
    }

    /// The built-in 256-bit group.
    pub fn default_group() -> (r: Parameters)
        ensures
            r@ == default_group(),
            r.wf(),
    {
        proof {
            lemma_default_digits();
        }
        let p = Natural::from_digits(
            vec![2501231535u32, 313474817, 2116166206, 2778187053, 2140465724, 665811868, 340945393, 1586250046],
        );
        let q = Natural::from_digits(
            vec![3398099415u32, 156737408, 3205566751, 1389093526, 1070232862, 2480389582, 170472696, 793125023],
        );
        Parameters::new(256, p, q, Natural::from_u64(4), Natural::from_u64(9))
    }
}

/// The two commitments `(r1, r2)` of one exponent.
pub struct ChaumPedersenExponents {
    r1: Natural,
    r2: Natural,
}

impl View for ChaumPedersenExponents {
    type V = (nat, nat);

    closed spec fn view(&self) -> (nat, nat) {
        (self.r1@, self.r2@)
    }
}

impl ChaumPedersenExponents {
    /// `g^k mod p`.
    pub fn get_first_exponent(&self) -> (r: &Natural)
        ensures
            r@ == self@.0,
    {
        &self.r1
    }

    /// `h^k mod p`.
    pub fn get_second_exponent(&self) -> (r: &Natural)
        ensures
            r@ == self@.1,
    {
        &self.r2
    }
}

/// The proof engine over one group.
pub struct ChaumPedersen {
    parameters: Parameters,
}

impl View for ChaumPedersen {
    type V = GroupView;

    closed spec fn view(&self) -> GroupView {
        self.parameters@
    }
}

impl ChaumPedersen {
    /// The engine's group is usable.
    pub open spec fn wf(&self) -> bool {
        self@.p > 1 && self@.q > 0 && self@.bit_size <= u32::MAX
    }

    /// An engine over the given group.
    pub fn new(parameters: Parameters) -> (r: ChaumPedersen)
        requires
            parameters.wf(),
        ensures
            r@ == parameters@,
            r.wf(),
    {
        ChaumPedersen { parameters }
    }

    /// The group this engine works in.
    pub fn parameters(&self) -> (r: &Parameters)
        ensures
            r@ == self@,
    {
        &self.parameters
    }
}

/// The operations of the proof engine.
pub trait ChaumPedersenInterface {
    /// The group the engine works in.
    spec fn group(&self) -> GroupView;

    /// The moduli are usable and random scalars can be drawn.
    spec fn usable(&self) -> bool;

    /// A fresh random scalar of `bit_size` bits, for an ephemeral secret or a
    /// challenge.
    fn generate_random(&self) -> (r: Natural)
        requires
            self.usable(),
        ensures
            r@ < pow2(self.group().bit_size),
    ;

    /// The commitments `(g^k mod p, h^k mod p)`.
    fn commit(&self, k: &Natural) -> (r: ChaumPedersenExponents)
        requires
            self.usable(),
        ensures
            r@ == commitment(self.group(), k@),
    ;

    /// The response `s = (k - c * x) mod q` in `[0, q)`.
    fn solve_challenge(&self, x: &Natural, k: &Natural, c: &Natural) -> (s: Natural)
        requires
            self.usable(),
        ensures
            s@ == response(self.group(), x@, k@, c@),
            s@ < self.group().q,
    ;

    /// Checks `r1 == g^s * y1^c mod p` and `r2 == h^s * y2^c mod p`.
    fn verify(
        &self,
        y1: &Natural,
        y2: &Natural,
        r1: &Natural,
        r2: &Natural,
        s: &Natural,
        c: &Natural,
    ) -> (r: Result<(), AuthError>)
        requires
            self.usable(),
        ensures
            r is Ok <==> accepts(self.group(), y1@, y2@, r1@, r2@, s@, c@),
            r is Err ==> r == Err::<(), AuthError>(AuthError::VerificationFailed),
    ;
}

impl ChaumPedersenInterface for ChaumPedersen {
    open spec fn group(&self) -> GroupView {
        self@
    }

    open spec fn usable(&self) -> bool {
        self.wf()
    }

    fn generate_random(&self) -> (r: Natural) {
        random_below_pow2(self.parameters.bit_size)
    }

    fn commit(&self, k: &Natural) -> (r: ChaumPedersenExponents) {
        let r1 = modpow(&self.parameters.g, k, &self.parameters.p);
        let r2 = modpow(&self.parameters.h, k, &self.parameters.p);
        ChaumPedersenExponents { r1, r2 }
    }

    fn solve_challenge(&self, x: &Natural, k: &Natural, c: &Natural) -> (s: Natural) {
        let q = &self.parameters.q;
        let cx = remainder(&product(c, x), q);
        let kq = remainder(k, q);
        let ghost qi = q@ as int;
        proof {
            lemma_sub_mod_noop(k@ as int, (c@ * x@) as int, qi);
        }
        match compare(&kq, &cx) {
            Ordering::Less => {
                proof {
                    lemma_mod_add_multiples_vanish(kq@ - cx@, qi);
                    lemma_small_mod((qi + kq@ - cx@) as nat, q@);
                }
                difference(&sum(&kq, q), &cx)
            },
            _ => {
                proof {
                    lemma_small_mod((kq@ - cx@) as nat, q@);
                }
                difference(&kq, &cx)
            },
        }
    }

    fn verify(
        &self,
        y1: &Natural,
        y2: &Natural,
        r1: &Natural,
        r2: &Natural,
        s: &Natural,
        c: &Natural,
    ) -> (r: Result<(), AuthError>) {
        let p = &self.parameters.p;
        let true_r1 = remainder(&product(&modpow(&self.parameters.g, s, p), &modpow(y1, c, p)), p);
        let true_r2 = remainder(&product(&modpow(&self.parameters.h, s, p), &modpow(y2, c, p)), p);
        let first = compare(r1, &true_r1);
        let second = compare(r2, &true_r2);
        match (first, second) {
            (Ordering::Equal, Ordering::Equal) => Ok(()),
            _ => Err(AuthError::VerificationFailed),
        }
    }
}

/// The built-in group.
impl Default for ChaumPedersen {
    fn default() -> (r: ChaumPedersen)
        ensures
            r@ == default_group(),
            r.wf(),
    {
        ChaumPedersen::new(Parameters::default_group())
    }
}

} // verus!
