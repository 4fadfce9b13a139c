//! The algebraic laws of the field operations.
//!
//! Each proof function here states a law of `GF<P>` over the specification
//! functions that the executable operations are proved against, so the laws
//! hold of every value the library can produce. Laws that genuinely depend
//! on the primality of `P` (that Fermat's exponentiation inverts every
//! nonzero element) cannot be established for a symbolic modulus; the one
//! law that rests on it, cancellation of division, is proved here from the
//! inverse property as an explicit hypothesis.

use vstd::prelude::*;
use vstd::arithmetic::div_mod::lemma_add_mod_noop;
use vstd::arithmetic::div_mod::lemma_fundamental_div_mod_converse_mod;
use vstd::arithmetic::div_mod::lemma_mod_bound;
use vstd::arithmetic::div_mod::lemma_mod_multiples_vanish;
use vstd::arithmetic::div_mod::lemma_mod_self_0;
use vstd::arithmetic::div_mod::lemma_mod_twice;
use vstd::arithmetic::div_mod::lemma_mul_mod_noop_general;
use vstd::arithmetic::div_mod::lemma_small_mod;
use vstd::arithmetic::mul::lemma_mul_is_associative;
use vstd::arithmetic::mul::lemma_mul_is_distributive_add;
use vstd::arithmetic::power::lemma_pow0;
use vstd::arithmetic::power::lemma_pow1;
use vstd::arithmetic::power::lemma_pow_adds;
use crate::gf::GF;

verus! {

/// Closure: every well-formed element's residue lies in `[0, P)`.
pub proof fn lemma_closure<const P: u64>(a: GF<P>)
    requires
        a.wf(),
    ensures
        0 <= a.0 < P,
{
}

/// Euclidean reduction: adding any multiple of the modulus to a canonical
/// residue reduces back to that residue, so construction maps `k*P + r`
/// to `r`.
pub proof fn lemma_euclidean_reduction<const P: u64>(k: int, r: int)
    requires
        GF::<P>::modulus_ok(),
        0 <= r < P,
    ensures
        GF::<P>::reduce(k * P + r) == r,
{
    lemma_mod_multiples_vanish(k, r, P as int);
    lemma_small_mod(r as nat, P as nat);
}

/// Commutativity of addition.
pub proof fn lemma_add_commutative<const P: u64>(a: GF<P>, b: GF<P>)
    ensures
        a.spec_add(b) == b.spec_add(a),
{
}

/// Associativity of addition.
pub proof fn lemma_add_associative<const P: u64>(a: GF<P>, b: GF<P>, c: GF<P>)
    requires
        GF::<P>::modulus_ok(),
        a.wf(),
        b.wf(),
        c.wf(),
    ensures
        a.spec_add(b).spec_add(c) == a.spec_add(b.spec_add(c)),
{
    let pi = P as int;
    lemma_mod_bound(a.0 + b.0, pi);
    lemma_mod_bound(b.0 + c.0, pi);
    lemma_small_mod(a.0 as nat, P as nat);
    lemma_small_mod(c.0 as nat, P as nat);
    lemma_add_mod_noop(a.0 + b.0, c.0 as int, pi);
    lemma_add_mod_noop(a.0 as int, b.0 + c.0, pi);
}

/// Commutativity of multiplication.
pub proof fn lemma_mul_commutative<const P: u64>(a: GF<P>, b: GF<P>)
    ensures
        a.spec_mul(b) == b.spec_mul(a),
{
}

/// Associativity of multiplication.
pub proof fn lemma_mul_associative<const P: u64>(a: GF<P>, b: GF<P>, c: GF<P>)
    requires
        GF::<P>::modulus_ok(),
        a.wf(),
        b.wf(),
        c.wf(),
    ensures
        a.spec_mul(b).spec_mul(c) == a.spec_mul(b.spec_mul(c)),
{
    let pi = P as int;
    lemma_mod_bound(a.0 * b.0, pi);
    lemma_mod_bound(b.0 * c.0, pi);
    lemma_mul_mod_noop_general(a.0 * b.0, c.0 as int, pi);
    lemma_mul_mod_noop_general(a.0 as int, b.0 * c.0, pi);
    lemma_small_mod(a.0 as nat, P as nat);
    lemma_small_mod(c.0 as nat, P as nat);
    lemma_mul_is_associative(a.0 as int, b.0 as int, c.0 as int);
}

/// Distributivity of multiplication over addition.
pub proof fn lemma_distributive<const P: u64>(a: GF<P>, b: GF<P>, c: GF<P>)
    requires
        GF::<P>::modulus_ok(),
        a.wf(),
        b.wf(),
        c.wf(),
    ensures
        a.spec_mul(b.spec_add(c)) == a.spec_mul(b).spec_add(a.spec_mul(c)),
{
    let pi = P as int;
    lemma_mod_bound(b.0 + c.0, pi);
    lemma_mod_bound(a.0 * b.0, pi);
    lemma_mod_bound(a.0 * c.0, pi);
    lemma_small_mod(a.0 as nat, P as nat);
    lemma_mul_mod_noop_general(a.0 as int, b.0 + c.0, pi);
    lemma_mul_is_distributive_add(a.0 as int, b.0 as int, c.0 as int);
    lemma_add_mod_noop(a.0 * b.0, a.0 * c.0, pi);
}

/// Additive identity: adding zero changes nothing.
pub proof fn lemma_add_zero<const P: u64>(a: GF<P>)
    requires
        GF::<P>::modulus_ok(),
        a.wf(),
    ensures
        a.spec_add(GF::<P>::zero()) == a,
{
    lemma_small_mod(a.0 as nat, P as nat);
}

/// Multiplicative identity: multiplying by one changes nothing.
pub proof fn lemma_mul_one<const P: u64>(a: GF<P>)
    requires
        GF::<P>::modulus_ok(),
        a.wf(),
    ensures
        a.spec_mul(GF::<P>::one()) == a,
{
    lemma_small_mod(a.0 as nat, P as nat);
}

/// Additive inverse: every element plus its negation is zero.
pub proof fn lemma_add_neg<const P: u64>(a: GF<P>)
    requires
        GF::<P>::modulus_ok(),
        a.wf(),
    ensures
        a.spec_add(a.spec_neg()) == GF::<P>::zero(),
{
    let pi = P as int;
    if a.0 == 0 {
        lemma_small_mod(0, P as nat);
    } else {
        lemma_fundamental_div_mod_converse_mod(0 - a.0, pi, -1, pi - a.0);
        lemma_mod_self_0(pi);
    }
}

/// Cancellation of division: wherever the inverse that `recip` computes is
/// a genuine multiplicative inverse of `b` — which Fermat's little theorem
/// grants for every nonzero `b` when `P` is prime — dividing by `b` and
/// multiplying by `b` again restores the dividend.
pub proof fn lemma_div_then_mul_restores<const P: u64>(a: GF<P>, b: GF<P>)
    requires
        GF::<P>::modulus_ok(),
        a.wf(),
        b.wf(),
        b.spec_mul(b.spec_recip()) == GF::<P>::one(),
    ensures
        a.spec_div(b).spec_mul(b) == a,
{
    let pi = P as int;
    let ib = b.spec_recip().0 as int;
    lemma_mod_bound(a.0 * ib, pi);
    lemma_mod_bound(b.0 * ib, pi);
    assert(GF::<P>::reduce(b.0 * ib) == 1);
    assert(a.spec_div(b).0 == GF::<P>::reduce(a.0 * ib));
    lemma_mul_mod_noop_general(a.0 * ib, b.0 as int, pi);
    assert(GF::<P>::reduce(GF::<P>::reduce(a.0 * ib) * b.0) == GF::<P>::reduce(
        (a.0 * ib) * b.0,
    ));
    lemma_mul_is_associative(a.0 as int, ib, b.0 as int);
    lemma_mul_is_associative(a.0 as int, b.0 as int, ib);
    assert((a.0 * ib) * b.0 == a.0 * (b.0 * ib));
    lemma_mul_mod_noop_general(a.0 as int, b.0 * ib, pi);
    assert(GF::<P>::reduce(a.0 * (b.0 * ib)) == GF::<P>::reduce(a.0 * 1));
    lemma_small_mod(a.0 as nat, P as nat);
}

/// A zero exponent yields the multiplicative identity, for every base,
/// the zero element included.
pub proof fn lemma_pow_zero_exp<const P: u64>(a: GF<P>)
    requires
        GF::<P>::modulus_ok(),
    ensures
        a.spec_pow(0) == GF::<P>::one(),
{
    lemma_pow0(a.0 as int);
    lemma_small_mod(1, P as nat);
}

/// An exponent of one yields the base itself.
pub proof fn lemma_pow_one_exp<const P: u64>(a: GF<P>)
    requires
        GF::<P>::modulus_ok(),
        a.wf(),
    ensures
        a.spec_pow(1) == a,
{
    lemma_pow1(a.0 as int);
    lemma_small_mod(a.0 as nat, P as nat);
}

/// Exponents add: `a^(m + n) == a^m * a^n`.
pub proof fn lemma_pow_add_exp<const P: u64>(a: GF<P>, m: nat, n: nat)
    requires
        GF::<P>::modulus_ok(),
    ensures
        a.spec_pow(m + n) == a.spec_pow(m).spec_mul(a.spec_pow(n)),
{
    let pi = P as int;
    let base = a.0 as int;
    lemma_mod_bound(vstd::arithmetic::power::pow(base, m), pi);
    lemma_mod_bound(vstd::arithmetic::power::pow(base, n), pi);
    lemma_mul_mod_noop_general(
        vstd::arithmetic::power::pow(base, m),
        vstd::arithmetic::power::pow(base, n),
        pi,
    );
    lemma_pow_adds(base, m, n);
}

/// Idempotent canonicalization: reducing a canonical residue again leaves
/// it unchanged, so constructing an element from another element's residue
/// gives that element back.
pub proof fn lemma_canonicalize_idempotent<const P: u64>(v: int)
    requires
        GF::<P>::modulus_ok(),
    ensures
        GF::<P>::reduce(GF::<P>::reduce(v)) == GF::<P>::reduce(v),
{
    lemma_mod_twice(v, P as int);
}

} // verus!
