//! Why the protocol works: an honest prover is always accepted, and any
//! response other than the honest one is refused, in a group where the
//! generators have order `q`.
use vstd::prelude::*;
use crate::chaum_pedersen::{accepts, commitment, recomputes, response, GroupView};
use vstd::arithmetic::div_mod::{
    lemma_add_mod_noop, lemma_fundamental_div_mod, lemma_mod_bound, lemma_mod_pos_bound, lemma_mul_mod_noop,
    lemma_mod_equivalence, lemma_mod_multiples_basic, lemma_mul_mod_noop_left,
    lemma_mul_mod_noop_right, lemma_small_mod, lemma_sub_mod_noop,
};
use vstd::arithmetic::power::{
    lemma1_pow, lemma_pow1, lemma_pow_adds, lemma_pow_mod_noop, lemma_pow_multiplies, pow,
};

verus! {

/// `base` has order exactly `q` modulo `p`: `base^q = 1` and no smaller
/// positive power is 1.
pub open spec fn has_order(grp: GroupView, base: nat) -> bool {
    &&& pow(base as int, grp.q) % (grp.p as int) == 1
    &&& forall|i: nat| 0 < i < grp.q ==> #[trigger] pow(base as int, i) % (grp.p as int) != 1
}

/// `n` is a prime number.
pub open spec fn is_prime(n: nat) -> bool {
    &&& n > 1
    &&& forall|d: nat| 1 < d < n ==> #[trigger] (n % d) != 0
}

/// `g^q = h^q = 1` modulo `p`: both generators lie in the subgroup of
/// order `q`.
pub open spec fn generators_in_subgroup(grp: GroupView) -> bool {
    &&& grp.p > 1
    &&& grp.q > 0
    &&& pow(grp.g as int, grp.q) % (grp.p as int) == 1
    &&& pow(grp.h as int, grp.q) % (grp.p as int) == 1
}

/// The group description is sound: `q` is prime, and `g` and `h` are
/// elements other than 1 of the subgroup of order `q` modulo `p`, so each
/// generates it.
pub open spec fn valid_group(grp: GroupView) -> bool {
    &&& generators_in_subgroup(grp)
    &&& is_prime(grp.q)
    &&& grp.g % grp.p != 1
    &&& grp.h % grp.p != 1
}

/// Exponents of a base with `base^q = 1` may be reduced modulo `q`.
proof fn lemma_pow_reduce(b: int, e: nat, q: nat, m: int)
    requires
        q > 0,
        m > 1,
        pow(b, q) % m == 1,
    ensures
        pow(b, e) % m == pow(b, e % q) % m,
{
    let n = e / q;
    let r = e % q;
    lemma_fundamental_div_mod(e as int, q as int);
    lemma_mod_pos_bound(e as int, q as int);
    assert(e == q * n + r);
    lemma_pow_adds(b, q * n, r);
    lemma_pow_multiplies(b, q, n);
    lemma_pow_mod_noop(pow(b, q), n, m);
    lemma1_pow(n);
    lemma_small_mod(1, m as nat);
    assert(pow(pow(b, q), n) % m == 1);
    lemma_mul_mod_noop_left(pow(b, q * n), pow(b, r), m);
}

/// `base^s * (base^x mod p)^c` is `base^(s + x * c)` modulo `p`.
proof fn lemma_recompute_power(grp: GroupView, base: nat, x: nat, s: nat, c: nat)
    requires
        grp.p > 1,
    ensures
        (pow(base as int, s) % (grp.p as int)) * (pow(
            pow(base as int, x) % (grp.p as int),
            c,
        ) % (grp.p as int)) % (grp.p as int) == pow(base as int, s + x * c) % (grp.p as int),
{
    let m = grp.p as int;
    let b = base as int;
    lemma_pow_mod_noop(pow(b, x), c, m);
    lemma_pow_multiplies(b, x, c);
    lemma_mul_mod_noop(pow(b, s), pow(b, x * c), m);
    lemma_pow_adds(b, s, x * c);
}

/// For one generator: the honest response recomputes the commitment.
proof fn lemma_honest_recomputes(grp: GroupView, base: nat, x: nat, k: nat, c: nat)
    requires
        grp.p > 1,
        grp.q > 0,
        pow(base as int, grp.q) % (grp.p as int) == 1,
    ensures
        recomputes(
            grp,
            base,
            (pow(base as int, x) % (grp.p as int)) as nat,
            (pow(base as int, k) % (grp.p as int)) as nat,
            response(grp, x, k, c),
            c,
        ),
{
    let m = grp.p as int;
    let q = grp.q as int;
    let s = response(grp, x, k, c);
    lemma_mod_bound(k - c * x, q);
    lemma_mod_bound(pow(base as int, x), m);
    lemma_mod_bound(pow(base as int, k), m);
    lemma_recompute_power(grp, base, x, s, c);
    lemma_pow_reduce(base as int, s + x * c, grp.q, m);
    lemma_pow_reduce(base as int, k, grp.q, m);
    let xc = (x * c) as int;
    lemma_add_mod_noop(k - c * x, xc, q);
    lemma_add_mod_noop(s as int, xc, q);
    lemma_small_mod(s, grp.q);
    assert(k - c * x + xc == k) by (nonlinear_arith)
        requires
            xc == x * c,
    ;
    assert(((s + x * c) as int) % q == (k as int) % q);
}

/// Completeness: for every secret `x`, ephemeral secret `k` and challenge
/// `c`, the commitments `(g^x, h^x)` and `(g^k, h^k)` together with the
/// honest response are accepted.
pub proof fn lemma_completeness(grp: GroupView, x: nat, k: nat, c: nat)
    requires
        generators_in_subgroup(grp),
    ensures
        accepts(
            grp,
            commitment(grp, x).0,
            commitment(grp, x).1,
            commitment(grp, k).0,
            commitment(grp, k).1,
            response(grp, x, k, c),
            c,
        ),
{
    lemma_honest_recomputes(grp, grp.g, x, k, c);
    lemma_honest_recomputes(grp, grp.h, x, k, c);
}

/// A power of a base with `base^q = 1` can be cancelled: if
/// `base^a = base^(a + d)` modulo `m` with `a < q`, then `base^d = 1`.
proof fn lemma_cancel_power(b: int, a: nat, d: nat, q: nat, m: int)
    requires
        q > 0,
        m > 1,
        a < q,
        pow(b, q) % m == 1,
        pow(b, a) % m == pow(b, a + d) % m,
    ensures
        pow(b, d) % m == 1,
{
    let t = (q - a) as nat;
    lemma_pow_adds(b, t, a);
    lemma_pow_adds(b, t, a + d);
    lemma_pow_adds(b, q, d);
    assert(t + a == q && t + (a + d) == q + d);
    lemma_mul_mod_noop_right(pow(b, t), pow(b, a + d), m);
    lemma_mul_mod_noop_right(pow(b, t), pow(b, a), m);
    assert(pow(b, q + d) % m == 1);
    lemma_mul_mod_noop_left(pow(b, q), pow(b, d), m);
}

/// For a base of order `q`: a response that differs from the honest one
/// modulo `q` does not recompute the commitment.
proof fn lemma_dishonest_fails(grp: GroupView, base: nat, x: nat, k: nat, c: nat, s: nat)
    requires
        grp.p > 1,
        grp.q > 0,
        has_order(grp, base),
        s % grp.q != response(grp, x, k, c),
    ensures
        !recomputes(
            grp,
            base,
            (pow(base as int, x) % (grp.p as int)) as nat,
            (pow(base as int, k) % (grp.p as int)) as nat,
            s,
            c,
        ),
{
    let m = grp.p as int;
    let q = grp.q as int;
    let bi = base as int;
    let xc = (x * c) as int;
    lemma_mod_bound(pow(bi, x), m);
    lemma_mod_bound(pow(bi, k), m);
    if recomputes(grp, base, (pow(bi, x) % m) as nat, (pow(bi, k) % m) as nat, s, c) {
        lemma_recompute_power(grp, base, x, s, c);
        lemma_pow_reduce(bi, s + x * c, grp.q, m);
        lemma_pow_reduce(bi, k, grp.q, m);
        let a = ((s + x * c) % grp.q) as nat;
        let e = (k % grp.q) as nat;
        assert(pow(bi, a) % m == pow(bi, e) % m);
        lemma_sub_mod_noop(s + xc, xc, q);
        lemma_sub_mod_noop(k as int, xc, q);
        assert(k - c * x == k - xc) by (nonlinear_arith)
            requires
                xc == x * c,
        ;
        assert(a != e);
        if a < e {
            lemma_cancel_power(bi, a, (e - a) as nat, grp.q, m);
            assert(pow(bi, (e - a) as nat) % m != 1);
        } else {
            lemma_cancel_power(bi, e, (a - e) as nat, grp.q, m);
            assert(pow(bi, (a - e) as nat) % m != 1);
        }
    }
}

/// Soundness: when `g` has order `q`, a response `s` that is not the honest
/// response `(k - c * x) mod q` (taken modulo `q`) is refused for the
/// commitments `(g^x, h^x)` and `(g^k, h^k)`.
pub proof fn lemma_soundness(grp: GroupView, x: nat, k: nat, c: nat, s: nat)
    requires
        valid_group(grp),
        s % grp.q != response(grp, x, k, c),
    ensures
        !accepts(
            grp,
            commitment(grp, x).0,
            commitment(grp, x).1,
            commitment(grp, k).0,
            commitment(grp, k).1,
            s,
            c,
        ),
{
    lemma_prime_order(grp, grp.g);
    lemma_dishonest_fails(grp, grp.g, x, k, c, s);
}

/// If `b^i = 1` for some `0 < i < q` besides `b^q = 1`, with `q` prime,
/// then `b = 1` modulo `m`: Euclid's descent on the exponents.
proof fn lemma_power_descent(b: int, i: nat, q: nat, m: int)
    requires
        m > 1,
        is_prime(q),
        0 < i < q,
        pow(b, q) % m == 1,
        pow(b, i) % m == 1,
    ensures
        b % m == 1,
    decreases i,
{
    let r = q % i;
    lemma_pow_reduce(b, q, i, m);
    if r == 0 {
        if i > 1 {
            assert(q % i != 0);
        }
        lemma_pow1(b);
    } else {
        lemma_mod_pos_bound(q as int, i as int);
        lemma_power_descent(b, r, q, m);
    }
}

/// In a subgroup of prime order `q`, every element other than 1 has order
/// exactly `q`.
pub proof fn lemma_prime_order(grp: GroupView, base: nat)
    requires
        grp.p > 1,
        is_prime(grp.q),
        pow(base as int, grp.q) % (grp.p as int) == 1,
        base % grp.p != 1,
    ensures
        has_order(grp, base),
{
    assert forall|i: nat| 0 < i < grp.q implies #[trigger] pow(base as int, i) % (grp.p as int)
        != 1 by {
        if pow(base as int, i) % (grp.p as int) == 1 {
            lemma_power_descent(base as int, i, grp.q, grp.p as int);
        }
    }
}

/// Euclid's lemma: a prime `q` dividing `a * b` with `0 < a < q` divides `b`.
pub proof fn lemma_prime_divides_factor(q: nat, a: nat, b: int)
    requires
        is_prime(q),
        0 < a < q,
        (a * b) % (q as int) == 0,
    ensures
        b % (q as int) == 0,
    decreases a,
{
    if a > 1 {
        let qi = q as int;
        let ai = a as int;
        let n = qi / ai;
        let r = qi % ai;
        lemma_fundamental_div_mod(qi, ai);
        lemma_mod_pos_bound(qi, ai);
        assert(q % a != 0);
        let t = (ai * b) / qi;
        lemma_fundamental_div_mod(ai * b, qi);
        assert(r * b == qi * (b - n * t)) by (nonlinear_arith)
            requires
                qi == ai * n + r,
                ai * b == qi * t,
        ;
        lemma_mod_multiples_basic(b - n * t, qi);
        assert((b - n * t) * qi == qi * (b - n * t)) by (nonlinear_arith);
        lemma_prime_divides_factor(q, r as nat, b);
    }
}

/// With a prime `q` and a challenge that is not 0 modulo `q`, secrets that
/// differ modulo `q` give different responses.
pub proof fn lemma_distinct_secrets_distinct_responses(
    grp: GroupView,
    x: nat,
    other: nat,
    k: nat,
    c: nat,
)
    requires
        is_prime(grp.q),
        x % grp.q != other % grp.q,
        c % grp.q != 0,
    ensures
        response(grp, other, k, c) != response(grp, x, k, c),
{
    let q = grp.q as int;
    let d = x - other;
    if response(grp, other, k, c) == response(grp, x, k, c) {
        lemma_mod_equivalence(k - c * other, k - c * x, q);
        assert((k - c * other) - (k - c * x) == c * d) by (nonlinear_arith)
            requires
                d == x - other,
        ;
        lemma_mul_mod_noop_left(c as int, d, q);
        lemma_mod_pos_bound(c as int, q);
        lemma_prime_divides_factor(grp.q, (c % grp.q) as nat, d);
        lemma_mod_equivalence(x as int, other as int, q);
    }
}

/// A response computed from a secret other than the registered one is
/// refused, when the secrets differ modulo `q` and the challenge is not 0
/// modulo `q`.
pub proof fn lemma_wrong_secret_refused(grp: GroupView, x: nat, other: nat, k: nat, c: nat)
    requires
        valid_group(grp),
        x % grp.q != other % grp.q,
        c % grp.q != 0,
    ensures
        !accepts(
            grp,
            commitment(grp, x).0,
            commitment(grp, x).1,
            commitment(grp, k).0,
            commitment(grp, k).1,
            response(grp, other, k, c),
            c,
        ),
{
    let s = response(grp, other, k, c);
    lemma_distinct_secrets_distinct_responses(grp, x, other, k, c);
    lemma_mod_bound(k - c * other, grp.q as int);
    lemma_small_mod(s, grp.q);
    lemma_soundness(grp, x, k, c, s);
}

} // verus!
