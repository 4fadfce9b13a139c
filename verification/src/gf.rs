//! The finite-field element type `GF<P>`.
//!
//! A value of `GF<P>` is a canonical residue modulo `P`: an unsigned integer
//! in `[0, P)`. The modulus is a const generic parameter, so each
//! instantiation is a distinct type with the modulus known at compile time
//! and no per-value storage for it. `P` must be prime for `recip` and `div`
//! to compute inverses (Fermat's little theorem); primality is a documented
//! precondition, not checked at runtime.

use vstd::prelude::*;
use vstd::arithmetic::div_mod::lemma_fundamental_div_mod;
use vstd::arithmetic::div_mod::lemma_fundamental_div_mod_converse_mod;
use vstd::arithmetic::div_mod::lemma_mod_add_multiples_vanish;
use vstd::arithmetic::div_mod::lemma_mod_bound;
use vstd::arithmetic::mul::lemma_mul_is_associative;
use vstd::arithmetic::mul::lemma_mul_upper_bound;
use vstd::arithmetic::div_mod::lemma_mul_mod_noop_general;
use vstd::arithmetic::div_mod::lemma_small_mod;
use vstd::arithmetic::power::pow;
use vstd::arithmetic::power::lemma_pow0;
use vstd::arithmetic::power::lemma_pow1;
use vstd::arithmetic::power::lemma_pow_adds;
use vstd::arithmetic::power::lemma_pow_multiplies;
use vstd::arithmetic::power::lemma_square_is_pow2;
use vstd::arithmetic::power::lemma_pow_mod_noop;

verus! {

/// An element of the finite field of integers modulo `P`.
///
/// The stored value is always the canonical residue, in `[0, P)`, once the
/// element has been produced by `new` or by one of the arithmetic
/// operations. Two elements are equal exactly when their residues are equal.
#[derive(Clone, Copy, Debug, PartialEq, Eq)]
pub struct GF<const P: u64>(pub u64);

impl<const P: u64> GF<P> {
    /// The modulus must leave room for the internal arithmetic: at least 2
    /// (the smallest prime), and small enough that it converts to `i64` and
    /// that `a + P` cannot overflow a `u64` for `a < P`.
    pub open spec fn modulus_ok() -> bool {
        2 <= P && P <= 0x7fff_ffff_ffff_ffff
    }

    /// The invariant of every observable element: the residue is canonical.
    pub open spec fn wf(self) -> bool {
        self.0 < P
    }

    /// Euclidean reduction of a mathematical integer into `[0, P)`.
    pub open spec fn reduce(v: int) -> int {
        v % (P as int)
    }

    /// The additive identity.
    pub open spec fn zero() -> Self {
        GF(0)
    }

    /// The multiplicative identity.
    pub open spec fn one() -> Self {
        GF(1)
    }

    /// What addition returns: the reduced sum of the residues.
    pub open spec fn spec_add(self, rhs: Self) -> Self {
        GF(Self::reduce(self.0 + rhs.0) as u64)
    }

    /// What subtraction returns: the reduced difference of the residues.
    pub open spec fn spec_sub(self, rhs: Self) -> Self {
        GF(Self::reduce(self.0 - rhs.0) as u64)
    }

    /// What multiplication returns: the reduced product of the residues.
    pub open spec fn spec_mul(self, rhs: Self) -> Self {
        GF(Self::reduce(self.0 * rhs.0) as u64)
    }

    /// What negation returns: the reduced additive inverse of the residue.
    pub open spec fn spec_neg(self) -> Self {
        GF(Self::reduce(0 - self.0) as u64)
    }

    /// What exponentiation returns: the reduced `e`-th power of the residue.
    pub open spec fn spec_pow(self, e: nat) -> Self {
        GF(Self::reduce(pow(self.0 as int, e)) as u64)
    }

    /// What the multiplicative inverse returns. By Fermat's little theorem
    /// this is the inverse of a nonzero element whenever `P` is prime.
    pub open spec fn spec_recip(self) -> Self {
        self.spec_pow((P - 2) as nat)
    }

    /// What division returns: the product with the right operand's inverse.
    pub open spec fn spec_div(self, rhs: Self) -> Self {
        self.spec_mul(rhs.spec_recip())
    }

    /// Constructs the element representing `v`, reducing with Euclidean
    /// (always-nonnegative) remainder semantics: a negative `v` maps to
    /// `v + k*P` for the smallest `k` that makes the result nonnegative.
    pub fn new(v: i64) -> (r: Self)
        requires
            Self::modulus_ok(),
        ensures
            r.wf(),
            r.0 == Self::reduce(v as int),
    {
        let p: u64 = P;
        if v >= 0 {
            let r0: u64 = (v as u64) % p;
            GF(r0)
        } else {
            let k: i64 = -(v + 1);
            let r0: u64 = (k as u64) % p;
            proof {
                let vi = v as int;
                let pi = P as int;
                let ki = k as int;
                lemma_fundamental_div_mod(ki, pi);
                lemma_mod_bound(ki, pi);
                let q = ki / pi;
                assert(pi * (-q - 1) == -(pi * q) - pi) by (nonlinear_arith);
                assert(vi == pi * (-q - 1) + (pi - 1 - (ki % pi)));
                lemma_fundamental_div_mod_converse_mod(vi, pi, -q - 1, pi - 1 - (ki % pi));
            }
            GF(p - 1 - r0)
        }
    }

    /// Returns the canonical residue, an unsigned integer in `[0, P)`.
    pub fn as_u64(&self) -> (r: u64)
        ensures
            r == self.0,
    {
        self.0
    }

    /// Renders the element as its canonical residue in decimal: no sign,
    /// no leading zeros beyond the literal value `0`.
    pub fn to_decimal(&self) -> (s: String)
        ensures
            s@ == crate::decimal::decimal_seq(self.0 as nat),
    {
        crate::decimal::u64_to_decimal(self.0)
    }

    /// Addition in the field: `(a + b) mod P`.
    pub fn add(self, rhs: Self) -> (r: Self)
        requires
            Self::modulus_ok(),
            self.wf(),
            rhs.wf(),
        ensures
            r.wf(),
            r == self.spec_add(rhs),
    {
        proof {
            lemma_mod_bound(self.0 + rhs.0, P as int);
        }
        GF((self.0 + rhs.0) % P)
    }

    /// Subtraction in the field: `(a - b) mod P`, computed as `a + P - b`
    /// so that the intermediate value never underflows.
    pub fn sub(self, rhs: Self) -> (r: Self)
        requires
            Self::modulus_ok(),
            self.wf(),
            rhs.wf(),
        ensures
            r.wf(),
            r == self.spec_sub(rhs),
    {
        proof {
            lemma_mod_add_multiples_vanish(self.0 - rhs.0, P as int);
            lemma_mod_bound(self.0 - rhs.0, P as int);
        }
        GF((self.0 + P - rhs.0) % P)
    }

    /// Multiplication in the field: `(a * b) mod P`. The product is widened
    /// to 128 bits before reduction, so no intermediate overflow is possible
    /// for any modulus that `modulus_ok` admits.
    pub fn mul(self, rhs: Self) -> (r: Self)
        requires
            Self::modulus_ok(),
            self.wf(),
            rhs.wf(),
        ensures
            r.wf(),
            r == self.spec_mul(rhs),
    {
        proof {
            lemma_mul_upper_bound(
                self.0 as int,
                0x7fff_ffff_ffff_ffff,
                rhs.0 as int,
                0x7fff_ffff_ffff_ffff,
            );
            lemma_mod_bound(self.0 * rhs.0, P as int);
        }
        let prod: u128 = (self.0 as u128) * (rhs.0 as u128);
        GF((prod % (P as u128)) as u64)
    }

    /// One step of square-and-multiply: halving the exponent and squaring
    /// the base (multiplying the accumulator by the base first when the
    /// exponent is odd) leaves the reduced value of `accumulator * base^exponent`
    /// unchanged.
    proof fn lemma_square_multiply_step(a: int, b: int, r: nat)
        requires
            Self::modulus_ok(),
        ensures
            r % 2 == 0 ==> Self::reduce(a * pow(Self::reduce(b * b), r / 2)) == Self::reduce(
                a * pow(b, r),
            ),
            r % 2 == 1 ==> Self::reduce(Self::reduce(a * b) * pow(Self::reduce(b * b), r / 2))
                == Self::reduce(a * pow(b, r)),
    {
        let pi = P as int;
        let h = r / 2;
        let sq_red = pow(Self::reduce(b * b), h);
        let sq = pow(b * b, h);
        lemma_pow_mod_noop(b * b, h, pi);
        lemma_square_is_pow2(b);
        lemma_pow_multiplies(b, 2, h);
        assert(sq == pow(b, 2 * h));
        if r % 2 == 0 {
            lemma_mul_mod_noop_general(a, sq_red, pi);
            lemma_mul_mod_noop_general(a, sq, pi);
            assert(Self::reduce(a * sq_red) == Self::reduce(a * sq));
        } else {
            lemma_mul_mod_noop_general(a * b, sq_red, pi);
            lemma_mul_mod_noop_general(a * b, sq, pi);
            assert(Self::reduce((a * b) * sq_red) == Self::reduce((a * b) * sq));
            lemma_mul_mod_noop_general(Self::reduce(a * b), sq_red, pi);
            assert(Self::reduce(Self::reduce(a * b) * sq_red) == Self::reduce((a * b) * sq_red));
            lemma_pow1(b);
            lemma_pow_adds(b, 1, 2 * h);
            assert(b * sq == pow(b, r));
            lemma_mul_is_associative(a, b, sq);
            assert((a * b) * sq == a * pow(b, r));
        }
    }

    /// Exponentiation by squaring: `O(log e)` field multiplications.
    /// An exponent of zero yields the multiplicative identity for every
    /// base, including zero.
    pub fn pow(self, e: u64) -> (r: Self)
        requires
            Self::modulus_ok(),
            self.wf(),
        ensures
            r.wf(),
            r == self.spec_pow(e as nat),
    {
        let mut r_exp: u64 = e;
        let mut k = self;
        let mut ret = Self::new(1);
        proof {
            lemma_small_mod(1nat, P as nat);
        }
        while r_exp > 0
            invariant
                Self::modulus_ok(),
                k.wf(),
                ret.wf(),
                Self::reduce(ret.0 * pow(k.0 as int, r_exp as nat)) == Self::reduce(
                    pow(self.0 as int, e as nat),
                ),
            decreases r_exp,
        {
            proof {
                Self::lemma_square_multiply_step(ret.0 as int, k.0 as int, r_exp as nat);
            }
            if r_exp % 2 != 0 {
                ret = ret.mul(k);
            }
            r_exp = r_exp / 2;
            k = k.mul(k);
        }
        proof {
            lemma_pow0(k.0 as int);
            lemma_small_mod(ret.0 as nat, P as nat);
        }
        ret
    }

    /// The multiplicative inverse by Fermat's little theorem: `a^(P-2)`.
    /// This is a genuine inverse only for nonzero `a` and prime `P`; for
    /// `a == 0` it returns a well-formed but mathematically meaningless
    /// element, mirroring the field being defined without an inverse of
    /// zero.
    pub fn recip(self) -> (r: Self)
        requires
            Self::modulus_ok(),
            self.wf(),
        ensures
            r.wf(),
            r == self.spec_recip(),
    {
        self.pow(P - 2)
    }

    /// Division in the field: multiplication by the inverse of `rhs`.
    /// Meaningful only for nonzero `rhs` (and prime `P`); dividing by zero
    /// returns a well-formed but mathematically meaningless element.
    pub fn div(self, rhs: Self) -> (r: Self)
        requires
            Self::modulus_ok(),
            self.wf(),
            rhs.wf(),
        ensures
            r.wf(),
            r == self.spec_div(rhs),
    {
        self.mul(rhs.recip())
    }

    /// Negation in the field: `(0 - a) mod P`.
    pub fn neg(self) -> (r: Self)
        requires
            Self::modulus_ok(),
            self.wf(),
        ensures
            r.wf(),
            r == self.spec_neg(),
    {
        proof {
            lemma_mod_add_multiples_vanish(0 - self.0, P as int);
            lemma_mod_bound(0 - self.0, P as int);
        }
        GF((P - self.0) % P)
    }

    /// Compound assignment: computes the sum and replaces the left operand.
    pub fn add_assign(&mut self, rhs: Self)
        requires
            Self::modulus_ok(),
            old(self).wf(),
            rhs.wf(),
        ensures
            final(self).wf(),
            *final(self) == old(self).spec_add(rhs),
    {
        *self = (*self).add(rhs);
    }

    /// Compound assignment: computes the difference and replaces the left
    /// operand.
    pub fn sub_assign(&mut self, rhs: Self)
        requires
            Self::modulus_ok(),
            old(self).wf(),
            rhs.wf(),
        ensures
            final(self).wf(),
            *final(self) == old(self).spec_sub(rhs),
    {
        *self = (*self).sub(rhs);
    }

    /// Compound assignment: computes the product and replaces the left
    /// operand.
    pub fn mul_assign(&mut self, rhs: Self)
        requires
            Self::modulus_ok(),
            old(self).wf(),
            rhs.wf(),
        ensures
            final(self).wf(),
            *final(self) == old(self).spec_mul(rhs),
    {
        *self = (*self).mul(rhs);
    }

    /// Compound assignment: computes the quotient and replaces the left
    /// operand.
    pub fn div_assign(&mut self, rhs: Self)
        requires
            Self::modulus_ok(),
            old(self).wf(),
            rhs.wf(),
        ensures
            final(self).wf(),
            *final(self) == old(self).spec_div(rhs),
    {
        *self = (*self).div(rhs);
    }
}

impl<const P: u64> Default for GF<P> {
    /// The zero element, matching construction from the integer zero.
    fn default() -> (r: Self)
        ensures
            r == (GF::<P>(0)),
    {
        GF(0)
    }
}

} // verus!
