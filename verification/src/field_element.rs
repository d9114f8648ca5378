//! Elements of the prime field of an environment, with exact arithmetic.

use vstd::prelude::*;
use vstd::arithmetic::div_mod::*;
use vstd::arithmetic::mul::*;
use core::marker::PhantomData;
use crate::modulus::{Environment, is_prime};

verus! {

/// Field addition on canonical representatives.
pub open spec fn field_add(p: nat, a: nat, b: nat) -> nat {
    (a + b) % p
}

/// Field subtraction on canonical representatives.
pub open spec fn field_sub(p: nat, a: nat, b: nat) -> nat {
    ((a - b) % (p as int)) as nat
}

/// Field negation.
pub open spec fn field_neg(p: nat, a: nat) -> nat {
    field_sub(p, 0, a)
}

/// Field multiplication.
pub open spec fn field_mul(p: nat, a: nat, b: nat) -> nat {
    (a * b) % p
}

/// `w` is a multiplicative inverse of `a` in the field.
pub open spec fn is_inverse(p: nat, a: nat, w: nat) -> bool {
    w < p && field_mul(p, a, w) == 1
}

/// The multiplicative inverse of `a` modulo `p` (meaningful for a prime `p` and `a` in `1..p`,
/// where `lemma_inverse_exists` shows it exists and `lemma_inverse_unique`
/// that it is the only one).
pub open spec fn field_inv(p: nat, a: nat) -> nat {
    choose|w: nat| is_inverse(p, a, w)
}

/// Field division: `a` times the inverse of `b`.
pub open spec fn field_div(p: nat, a: nat, b: nat) -> nat {
    field_mul(p, a, field_inv(p, b))
}

/// Greatest common divisor, by Euclid's recursion.
pub open spec fn gcd(a: nat, b: nat) -> nat
    decreases b,
{
    if b == 0 {
        a
    } else {
        gcd(b, a % b)
    }
}

/// The gcd is positive unless both arguments are zero, and divides both arguments.
pub proof fn lemma_gcd_divides(a: nat, b: nat)
    requires
        a > 0 || b > 0,
    ensures
        gcd(a, b) > 0,
        a % gcd(a, b) == 0,
        b % gcd(a, b) == 0,
    decreases b,
{
    if b == 0 {
        lemma_mod_self_0(a as int);
        lemma_mod_of_zero(a);
    } else {
        let r = a % b;
        lemma_gcd_divides(b, r);
        let g = gcd(b, r);
        let q = a / b;
        lemma_fundamental_div_mod(a as int, b as int);
        lemma_fundamental_div_mod(b as int, g as int);
        lemma_fundamental_div_mod(r as int, g as int);
        let k1 = b / g;
        let k2 = r / g;
        assert(a == g * (q * k1 + k2)) by (nonlinear_arith)
            requires
                a == b * q + r,
                b == g * k1,
                r == g * k2,
        ;
        lemma_mod_multiples_basic((q * k1 + k2) as int, g as int);
        lemma_mul_is_commutative(g as int, (q * k1 + k2) as int);
    }
}

proof fn lemma_mod_of_zero(m: nat)
    requires
        m > 0,
    ensures
        0nat % m == 0,
{
}

/// Bezout's identity: some integer combination of `a` and `b` equals their gcd.
pub proof fn lemma_bezout(a: nat, b: nat) -> (st: (int, int))
    ensures
        st.0 * a + st.1 * b == gcd(a, b),
    decreases b,
{
    if b == 0 {
        (1, 0)
    } else {
        let r = a % b;
        let (s, t) = lemma_bezout(b, r);
        let q = a / b;
        lemma_fundamental_div_mod(a as int, b as int);
        assert(t * a + (s - t * q) * b == s * b + t * r) by (nonlinear_arith)
            requires
                a == b * q + r,
        ;
        (t, s - t * q)
    }
}

/// A number strictly between 0 and the (prime) modulus shares no factor with it.
pub proof fn lemma_gcd_with_modulus(p: nat, a: nat)
    requires
        is_prime(p),
        0 < a < p,
    ensures
        gcd(p, a) == 1,
{
    lemma_gcd_divides(p, a);
    let g = gcd(p, a);
    // g divides a, and 0 < a, so g <= a < p; g divides the prime p, so g == 1.
    if g > a {
        lemma_small_mod(a, g);
    }
    if g > 1 {
        assert(p % g != 0);
    }
}

/// One step of the extended Euclidean algorithm keeps the coefficient of `b`
/// matching the remainder, modulo the modulus.
proof fn lemma_euclid_step(p: nat, b: nat, t0: nat, t1: nat, q: nat, r0: nat, r1: nat, r2: nat)
    requires
        p > 0,
        t0 < p,
        t1 < p,
        field_mul(p, t0, b) == r0 % p,
        field_mul(p, t1, b) == r1 % p,
        r0 == q * r1 + r2,
    ensures
        field_mul(p, field_sub(p, t0, field_mul(p, q % p, t1)), b) == r2 % p,
{
    let pi = p as int;
    let qm = (q % p) as int;
    let y = qm * t1;
    let ym = y % pi;
    let d = t0 - ym;
    let x = d % pi;
    let k1 = (q as int) / pi;
    let k2 = y / pi;
    let k3 = d / pi;
    let m0 = ((t0 * b) as int) / pi - (r0 as int) / pi;
    let m1 = ((t1 * b) as int) / pi - (r1 as int) / pi;
    lemma_fundamental_div_mod(q as int, pi);
    lemma_fundamental_div_mod(y, pi);
    lemma_fundamental_div_mod(d, pi);
    lemma_fundamental_div_mod((t0 * b) as int, pi);
    lemma_fundamental_div_mod((t1 * b) as int, pi);
    lemma_fundamental_div_mod(r0 as int, pi);
    lemma_fundamental_div_mod(r1 as int, pi);
    assert(field_mul(p, t0, b) as int == (t0 * b) as int % pi);
    assert(t0 * b == r0 + pi * m0) by (nonlinear_arith)
        requires
            (t0 * b) as int == pi * (((t0 * b) as int) / pi) + ((t0 * b) as int) % pi,
            r0 as int == pi * ((r0 as int) / pi) + (r0 as int) % pi,
            ((t0 * b) as int) % pi == (r0 as int) % pi,
            m0 == ((t0 * b) as int) / pi - (r0 as int) / pi,
    ;
    assert(t1 * b == r1 + pi * m1) by (nonlinear_arith)
        requires
            (t1 * b) as int == pi * (((t1 * b) as int) / pi) + ((t1 * b) as int) % pi,
            r1 as int == pi * ((r1 as int) / pi) + (r1 as int) % pi,
            ((t1 * b) as int) % pi == (r1 as int) % pi,
            m1 == ((t1 * b) as int) / pi - (r1 as int) / pi,
    ;
    assert(x == t0 - q * t1 + pi * (k1 * t1 + k2 - k3)) by (nonlinear_arith)
        requires
            q == pi * k1 + qm,
            y == qm * t1,
            y == pi * k2 + ym,
            d == t0 - ym,
            d == pi * k3 + x,
    ;
    let n = m0 - q * m1 + (k1 * t1 + k2 - k3) * b;
    assert(x * b == r2 + pi * n) by (nonlinear_arith)
        requires
            x == t0 - q * t1 + pi * (k1 * t1 + k2 - k3),
            t0 * b == r0 + pi * m0,
            t1 * b == r1 + pi * m1,
            r0 == q * r1 + r2,
            n == m0 - q * m1 + (k1 * t1 + k2 - k3) * b,
    ;
    lemma_mod_multiples_vanish(n, r2 as int, pi);
    lemma_mod_bound(d, pi);
}

/// Every nonzero element below the modulus has a multiplicative inverse.
pub proof fn lemma_inverse_exists(p: nat, a: nat)
    requires
        is_prime(p),
        0 < a < p,
    ensures
        is_inverse(p, a, field_inv(p, a)),
{
    lemma_gcd_with_modulus(p, a);
    let (s, t) = lemma_bezout(p, a);
    let w = t % (p as int);
    lemma_mod_bound(t, p as int);
    assert((s * p + t * a) % (p as int) == (t * a) % (p as int)) by {
        lemma_mul_is_commutative(s, p as int);
        lemma_mod_multiples_vanish(s, t * a, p as int);
    }
    lemma_mul_mod_noop_left(t, a as int, p as int);
    lemma_mul_is_commutative(w, a as int);
    lemma_small_mod(1, p);
    assert(is_inverse(p, a, w as nat));
}

/// The multiplicative inverse of a nonzero element is unique.
pub proof fn lemma_inverse_unique(p: nat, a: nat, w: nat)
    requires
        is_prime(p),
        0 < a < p,
        is_inverse(p, a, w),
    ensures
        w == field_inv(p, a),
{
    let pi = p as int;
    lemma_inverse_exists(p, a);
    let v = field_inv(p, a);
    // w = w * (a * v) = (w * a) * v = v  (mod p)
    lemma_small_mod(w, p);
    lemma_small_mod(v, p);
    lemma_mul_mod_noop_right(w as int, (a * v) as int, pi);
    lemma_mul_is_associative(w as int, a as int, v as int);
    lemma_mul_mod_noop_left((w * a) as int, v as int, pi);
    lemma_mul_is_commutative(w as int, a as int);
    assert(w as int % pi == ((w * (a * v)) as int) % pi);
    assert(((w * (a * v)) as int) % pi == v as int % pi);
}

/// Field multiplication is associative.
pub proof fn lemma_field_mul_assoc(p: nat, a: nat, b: nat, c: nat)
    requires
        p > 0,
    ensures
        field_mul(p, field_mul(p, a, b), c) == field_mul(p, a, field_mul(p, b, c)),
{
    let pi = p as int;
    lemma_mul_mod_noop_left((a * b) as int, c as int, pi);
    lemma_mul_mod_noop_right(a as int, (b * c) as int, pi);
    lemma_mul_is_associative(a as int, b as int, c as int);
}

/// Multiplying by the divisor undoes a division by a nonzero element.
pub proof fn lemma_div_mul_cancel(p: nat, a: nat, b: nat)
    requires
        is_prime(p),
        a < p,
        0 < b < p,
    ensures
        field_mul(p, field_div(p, a, b), b) == a,
{
    let pi = p as int;
    lemma_inverse_exists(p, b);
    let v = field_inv(p, b);
    lemma_mul_mod_noop_left((a * v) as int, b as int, pi);
    lemma_mul_is_associative(a as int, v as int, b as int);
    lemma_mul_is_commutative(v as int, b as int);
    lemma_mul_mod_noop_right(a as int, (b * v) as int, pi);
    lemma_small_mod(a, p);
    let q = field_div(p, a, b);
    assert(q == ((a * v) as int % pi) as nat);
    assert(field_mul(p, q, b) as int == ((q * b) as int) % pi);
    assert(((a * v) % p) * b % p == (a * v * b) % p);
    assert(a * v * b == a * (b * v));
    assert(a * ((b * v) % p) % p == (a * (b * v)) % p);
    assert((b * v) % p == 1);
    assert(a * 1 == a) by {
        lemma_mul_basics(a as int);
    }
}

/// An element of the prime field of the environment `E`, held as its
/// canonical representative.
#[derive(Debug, PartialEq, Eq)]
pub struct FieldElement<E: Environment> {
    pub(crate) value: u32,
    pub(crate) env: PhantomData<E>,
}

impl<E: Environment> Clone for FieldElement<E> {
    fn clone(&self) -> (r: Self)
        ensures
            r == *self,
    {
        *self
    }
}

impl<E: Environment> Copy for FieldElement<E> {
}

impl<E: Environment> View for FieldElement<E> {
    type V = nat;

    /// The canonical representative, below the modulus.
    closed spec fn view(&self) -> nat {
        self.value as nat
    }
}

/// The view of a field element is its stored representative.
pub(crate) proof fn lemma_view_is_value<E: Environment>(x: FieldElement<E>)
    ensures
        x@ == x.value as nat,
{
}

impl<E: Environment> FieldElement<E> {
    #[verifier::type_invariant]
    pub(crate) open spec fn is_canonical(self) -> bool {
        self.value < E::modulus()
    }

    /// The additive identity.
    pub fn zero() -> (r: Self)
        ensures
            r@ == 0,
    {
        proof {
            E::lemma_modulus_is_prime();
        }
        FieldElement { value: 0, env: PhantomData }
    }

    /// The multiplicative identity.
    pub fn one() -> (r: Self)
        ensures
            r@ == 1,
    {
        proof {
            E::lemma_modulus_is_prime();
        }
        FieldElement { value: 1, env: PhantomData }
    }

    /// The element congruent to `v`.
    pub fn from_u64(v: u64) -> (r: Self)
        ensures
            r@ == (v as nat) % E::modulus(),
    {
        proof {
            E::lemma_modulus_is_prime();
        }
        let m = E::modulus_u32();
        FieldElement { value: (v % (m as u64)) as u32, env: PhantomData }
    }

    /// The canonical representative.
    pub fn value(&self) -> (v: u32)
        ensures
            v == self@,
            self@ < E::modulus(),
    {
        proof {
            use_type_invariant(self);
        }
        self.value
    }

    /// Whether this is the zero element.
    pub fn is_zero(&self) -> (b: bool)
        ensures
            b == (self@ == 0),
    {
        self.value == 0
    }

    /// Whether this is the one element.
    pub fn is_one(&self) -> (b: bool)
        ensures
            b == (self@ == 1),
    {
        self.value == 1
    }

    /// Field addition.
    pub fn add(&self, other: &Self) -> (r: Self)
        ensures
            r@ == field_add(E::modulus(), self@, other@),
    {
        proof {
            use_type_invariant(self);
            use_type_invariant(other);
            E::lemma_modulus_is_prime();
        }
        let m = E::modulus_u32();
        let s = self.value as u64 + other.value as u64;
        FieldElement { value: (s % (m as u64)) as u32, env: PhantomData }
    }

    /// Field subtraction.
    pub fn sub(&self, other: &Self) -> (r: Self)
        ensures
            r@ == field_sub(E::modulus(), self@, other@),
    {
        proof {
            use_type_invariant(self);
            use_type_invariant(other);
            E::lemma_modulus_is_prime();
        }
        let m = E::modulus_u32();
        if self.value >= other.value {
            let d = self.value - other.value;
            proof {
                lemma_small_mod(d as nat, E::modulus());
            }
            FieldElement { value: d, env: PhantomData }
        } else {
            let d = (self.value as u64 + m as u64 - other.value as u64) as u32;
            proof {
                lemma_small_mod(d as nat, E::modulus());
                lemma_mod_add_multiples_vanish(self@ - other@, E::modulus() as int);
            }
            FieldElement { value: d, env: PhantomData }
        }
    }

    /// Field negation.
    pub fn neg(&self) -> (r: Self)
        ensures
            r@ == field_neg(E::modulus(), self@),
    {
        Self::zero().sub(self)
    }

    /// Field multiplication.
    pub fn mul(&self, other: &Self) -> (r: Self)
        ensures
            r@ == field_mul(E::modulus(), self@, other@),
    {
        let m = E::modulus_u32();
        proof {
            use_type_invariant(self);
            use_type_invariant(other);
            E::lemma_modulus_is_prime();
            lemma_mul_upper_bound(self@ as int, m as int, other@ as int, m as int);
            lemma_mul_upper_bound(m as int, u32::MAX as int, m as int, u32::MAX as int);
        }
        let prod = (self.value as u64) * (other.value as u64);
        FieldElement { value: (prod % (m as u64)) as u32, env: PhantomData }
    }

    /// The multiplicative inverse, by the extended Euclidean algorithm;
    /// `None` exactly for zero.
    pub fn inverse(&self) -> (r: Option<Self>)
        ensures
            r is None <==> self@ == 0,
            r matches Some(w) ==> w@ == field_inv(E::modulus(), self@),
    {
        proof {
            use_type_invariant(self);
            E::lemma_modulus_is_prime();
        }
        if self.value == 0 {
            return None;
        }
        let ghost p = E::modulus();
        let b = self.value;
        let mut r0: u32 = E::modulus_u32();
        let mut r1: u32 = b;
        let mut t0 = Self::zero();
        let mut t1 = Self::one();
        proof {
            lemma_small_mod(b as nat, p);
            lemma_mod_self_0(p as int);
            lemma_small_mod(1, p);
            lemma_small_mod(0, p);
            lemma_mul_basics(b as int);
        }
        while r1 != 0
            invariant
                p == E::modulus(),
                is_prime(p),
                0 < b < p,
                b == self@,
                r0 <= p,
                r1 < p,
                t0@ < p,
                t1@ < p,
                gcd(r0 as nat, r1 as nat) == gcd(p, b as nat),
                field_mul(p, t0@, b as nat) == r0 as nat % p,
                field_mul(p, t1@, b as nat) == r1 as nat % p,
            decreases r1,
        {
            let q = r0 / r1;
            let r2 = r0 % r1;
            let qf = Self::from_u64(q as u64);
            let t2 = t0.sub(&qf.mul(&t1));
            proof {
                lemma_fundamental_div_mod(r0 as int, r1 as int);
                lemma_euclid_step(p, b as nat, t0@, t1@, q as nat, r0 as nat, r1 as nat, r2 as nat);
                lemma_mod_bound(t0@ - field_mul(p, q as nat % p, t1@), p as int);
            }
            r0 = r1;
            r1 = r2;
            t0 = t1;
            t1 = t2;
        }
        proof {
            lemma_gcd_with_modulus(p, b as nat);
            lemma_small_mod(1, p);
            lemma_mul_is_commutative(t0@ as int, b as int);
            lemma_inverse_unique(p, b as nat, t0@);
        }
        Some(t0)
    }

    /// Field division by a nonzero element.
    pub fn div(&self, other: &Self) -> (r: Self)
        requires
            other@ != 0,
        ensures
            r@ == field_div(E::modulus(), self@, other@),
    {
        let inv = other.inverse();
        match inv {
            Some(w) => self.mul(&w),
            None => Self::zero(),
        }
    }
}

} // verus!
