//! Field division that yields a flag in place of failing on a zero divisor,
//! as a circuit gadget: its outputs, the relations it enforces, its cost and
//! its output mode.

use vstd::prelude::*;
use crate::circuit::{
    Boolean, CircuitType, Constraint, Count, Field, Mode, circuit_type_mode, circuit_type_of,
    constraint_holds, lemma_product_mode_constant, lemma_product_mode_variable, product_mode,
};
use crate::field_element::{
    FieldElement, field_div, field_inv, field_mul, field_sub, is_inverse, lemma_div_mul_cancel,
    lemma_field_mul_assoc, lemma_inverse_exists, lemma_inverse_unique, lemma_view_is_value,
};
use crate::modulus::{Environment, is_prime};

verus! {

/// Division that returns a flag alongside the quotient instead of failing
/// when the divisor is zero.
pub trait DivFlagged<Rhs = Self> {
    type Output;

    fn div_flagged(self, rhs: Rhs) -> Self::Output;
}

/// The mode of a witness computed from a value of mode `m`: constant when
/// `m` is, private otherwise.
pub open spec fn witness_mode(m: Mode) -> Mode {
    if m == Mode::Constant {
        Mode::Constant
    } else {
        Mode::Private
    }
}

/// The auxiliary witness of the gadget for divisor `b`: the inverse of `b`,
/// or zero when `b` is zero.
pub open spec fn div_flagged_witness(p: nat, b: nat) -> nat {
    if b == 0 {
        0
    } else {
        field_inv(p, b)
    }
}

/// The quotient that the gadget yields: `a / b`, or zero when `b` is zero.
pub open spec fn div_flagged_quotient(p: nat, a: nat, b: nat) -> nat {
    if b == 0 {
        0
    } else {
        field_div(p, a, b)
    }
}

/// The mode of the quotient that the gadget yields for `a` divided by `b`.
pub open spec fn div_flagged_quotient_mode<E: Environment>(a: Field<E>, b: Field<E>) -> Mode {
    product_mode(a.mode, a.value@, witness_mode(b.mode), div_flagged_witness(E::modulus(), b.value@))
}

/// The relations that the gadget enforces among dividend `r1`, divisor `r2`,
/// witness `w`, quotient `r3` and flag `r4`: `r4 * (1 - r4) = 0`,
/// `r2 * w = 1 - r4`, `r2 * r4 = 0`, `r1 * w = r3` and `r3 * r4 = 0`.
pub open spec fn div_flagged_relations(p: nat, r1: nat, r2: nat, w: nat, r3: nat, r4: nat) -> bool {
    &&& field_mul(p, r4, field_sub(p, 1, r4)) == 0
    &&& field_mul(p, r2, w) == field_sub(p, 1, r4)
    &&& field_mul(p, r2, r4) == 0
    &&& field_mul(p, r1, w) == r3
    &&& field_mul(p, r3, r4) == 0
}

/// The field value of a boolean: one for true, zero for false.
pub open spec fn bool_value(b: bool) -> nat {
    if b {
        1
    } else {
        0
    }
}

/// The circuit cost of a flagged division, by the modes of dividend and divisor.
pub open spec fn div_flagged_count(case: (Mode, Mode)) -> Count {
    if case.1 == Mode::Constant {
        Count { constants: 1, public: 0, private: 0, constraints: 0 }
    } else if case.0 == Mode::Constant {
        Count { constants: 0, public: 0, private: 1, constraints: 1 }
    } else {
        Count { constants: 0, public: 0, private: 2, constraints: 2 }
    }
}

/// The mode of a flagged division's quotient, by the circuit types of
/// dividend and divisor: constant from constants; public from a public
/// dividend and the constant divisor one; private otherwise.
pub open spec fn div_flagged_output_mode<E: Environment>(case: (CircuitType<E>, CircuitType<E>)) -> Mode {
    match (circuit_type_mode(case.0), case.1) {
        (Mode::Constant, CircuitType::Constant(_)) => Mode::Constant,
        (Mode::Public, CircuitType::Constant(c)) => if c.value@ == 1 {
            Mode::Public
        } else {
            Mode::Private
        },
        _ => Mode::Private,
    }
}

/// What the body of a flagged division of `a` by `b` adds to a circuit:
/// - its two witnesses (the inverse-or-zero `w` and the flag), each a
///   constant when the divisor is a constant and a private variable otherwise;
/// - for the product `a * w`, a private variable and a constraint when both
///   are variables (a product with a constant scales the other operand);
/// - one constraint for each of `b * w = 1 - flag`, `b * flag = 0` and
///   `quotient * flag = 0` that has a variable side (a constraint among
///   constants is only checked).
pub open spec fn div_flagged_allocation<E: Environment>(a: Field<E>, b: Field<E>) -> Count {
    let divisor_constant = b.mode == Mode::Constant;
    let product_gate = a.mode != Mode::Constant && !divisor_constant;
    let last_constant = divisor_constant && div_flagged_quotient_mode(a, b) == Mode::Constant;
    if divisor_constant {
        Count { constants: 2, public: 0, private: 0, constraints: if last_constant { 0 } else { 1 } }
    } else if product_gate {
        Count { constants: 0, public: 0, private: 3, constraints: 4 }
    } else {
        Count { constants: 0, public: 0, private: 2, constraints: 3 }
    }
}

/// The intermediate values of a flagged division, the constraints it
/// enforces (each evaluated under the assignment), and what it adds to the
/// circuit.
pub struct DivFlaggedGadget<E: Environment> {
    pub quotient: Field<E>,
    pub flag: Boolean,
    pub witness: Field<E>,
    pub constraints: Vec<Constraint<E>>,
    pub allocated: Count,
}

impl<E: Environment> Field<E> {
    /// Synthesizes a flagged division of `self` by `other`: the witness `w`
    /// (the inverse of `other`, or zero), the flag (whether `other` is zero),
    /// the quotient `self * w`, and the constraints, all of which hold:
    /// `flag * (1 - flag) = 0` (the flag is a boolean), `other * w = 1 - flag`,
    /// `other * flag = 0`, `self * w = quotient` and `quotient * flag = 0`;
    /// and what the division adds to the circuit, `div_flagged_allocation`.
    pub fn div_flagged_gadget(&self, other: &Self) -> (g: DivFlaggedGadget<E>)
        ensures
            g.witness.mode == witness_mode(other.mode),
            g.witness.value@ == div_flagged_witness(E::modulus(), other.value@),
            g.flag.mode == witness_mode(other.mode),
            g.flag.value == (other.value@ == 0),
            g.quotient.value@ == div_flagged_quotient(E::modulus(), self.value@, other.value@),
            g.quotient.mode == div_flagged_quotient_mode(*self, *other),
            g.allocated == div_flagged_allocation(*self, *other),
            g.constraints@.len() == 5,
            g.constraints@[0].a@ == bool_value(g.flag.value),
            g.constraints@[0].b@ == field_sub(E::modulus(), 1, bool_value(g.flag.value)),
            g.constraints@[0].c@ == 0,
            g.constraints@[1].a == other.value,
            g.constraints@[1].b == g.witness.value,
            g.constraints@[1].c@ == field_sub(E::modulus(), 1, bool_value(g.flag.value)),
            g.constraints@[2].a == other.value,
            g.constraints@[2].b@ == bool_value(g.flag.value),
            g.constraints@[2].c@ == 0,
            g.constraints@[3].a == self.value,
            g.constraints@[3].b == g.witness.value,
            g.constraints@[3].c == g.quotient.value,
            g.constraints@[4].a == g.quotient.value,
            g.constraints@[4].b@ == bool_value(g.flag.value),
            g.constraints@[4].c@ == 0,
            forall|i: int| 0 <= i < g.constraints@.len() ==> constraint_holds(#[trigger] g.constraints@[i]),
    {
        let mode = if other.mode.is_constant() {
            Mode::Constant
        } else {
            Mode::Private
        };
        // The witness is zero when the divisor is zero, and its inverse otherwise.
        let w_value = match other.value.inverse() {
            Some(inv) => inv,
            None => FieldElement::<E>::zero(),
        };
        let witness = Self::new(mode, w_value);
        let is_zero = other.value.is_zero();
        let flag = Boolean::new(mode, is_zero);
        let quotient = self.mul(&witness);
        let flag_value = if is_zero {
            FieldElement::<E>::one()
        } else {
            FieldElement::<E>::zero()
        };
        let not_flag = FieldElement::<E>::one().sub(&flag_value);
        let zero = FieldElement::<E>::zero();
        let mut constraints: Vec<Constraint<E>> = Vec::new();
        constraints.push(Constraint { a: flag_value, b: not_flag, c: zero });
        constraints.push(Constraint { a: other.value, b: witness.value, c: not_flag });
        constraints.push(Constraint { a: other.value, b: flag_value, c: zero });
        constraints.push(Constraint { a: self.value, b: witness.value, c: quotient.value });
        constraints.push(Constraint { a: quotient.value, b: flag_value, c: zero });
        proof {
            let a = self.value@;
            let b = other.value@;
            use_type_invariant(&self.value);
            use_type_invariant(&other.value);
            lemma_view_is_value(self.value);
            lemma_view_is_value(other.value);
            E::lemma_modulus_is_prime();
            if b != 0 {
                lemma_inverse_exists(E::modulus(), b);
            }
            lemma_div_flagged_relations_complete(E::modulus(), a, b);
        }
        let allocated = if other.mode.is_constant() {
            let last = if quotient.mode.is_constant() {
                0
            } else {
                1
            };
            Count::is(2, 0, 0, last)
        } else if !self.mode.is_constant() {
            Count::is(0, 0, 3, 4)
        } else {
            Count::is(0, 0, 2, 3)
        };
        DivFlaggedGadget { quotient, flag, witness, constraints, allocated }
    }

    /// The cost of a flagged division, by the modes of dividend and divisor.
    pub fn count(case: &(Mode, Mode)) -> (r: Count)
        ensures
            r == div_flagged_count(*case),
    {
        match case {
            (Mode::Constant, Mode::Constant) | (_, Mode::Constant) => Count::is(1, 0, 0, 0),
            (Mode::Constant, _) => Count::is(0, 0, 1, 1),
            (_, _) => Count::is(0, 0, 2, 2),
        }
    }

    /// The mode of a flagged division's quotient, by the circuit types of
    /// dividend and divisor.
    pub fn output_mode(case: &(CircuitType<E>, CircuitType<E>)) -> (r: Mode)
        ensures
            r == div_flagged_output_mode(*case),
    {
        match (case.0.mode(), case.1.mode()) {
            (Mode::Constant, Mode::Constant) => Mode::Constant,
            (Mode::Public, Mode::Constant) => match &case.1 {
                CircuitType::Constant(constant) => {
                    if constant.eject_value().is_one() {
                        Mode::Public
                    } else {
                        Mode::Private
                    }
                },
                // A circuit type whose mode is constant is the constant variant.
                _ => {
                    proof {
                        assert(false);
                    }
                    Mode::Private
                },
            },
            (_, _) => Mode::Private,
        }
    }
}

impl<E: Environment> DivFlagged<Field<E>> for Field<E> {
    type Output = (Field<E>, Boolean);

    /// Divides `self` by `other`: the quotient `self / other` and the flag
    /// false when `other` is nonzero; the quotient zero and the flag true when
    /// `other` is zero.
    fn div_flagged(self, other: Field<E>) -> (r: (Field<E>, Boolean))
        ensures
            r.0.value@ == div_flagged_quotient(E::modulus(), self.value@, other.value@),
            r.0.mode == div_flagged_quotient_mode(self, other),
            r.1.value == (other.value@ == 0),
            r.1.mode == witness_mode(other.mode),
    {
        let g = self.div_flagged_gadget(&other);
        (g.quotient, g.flag)
    }
}

/// The gadget's own assignment satisfies its relations: with the flag set
/// exactly when the divisor is zero, the witness the inverse of a nonzero
/// divisor (zero otherwise), and the quotient `a / b` (zero for `b` zero).
pub proof fn lemma_div_flagged_relations_complete(p: nat, a: nat, b: nat)
    requires
        is_prime(p),
        a < p,
        b < p,
    ensures
        div_flagged_relations(p, 
            a,
            b,
            div_flagged_witness(p, b),
            div_flagged_quotient(p, a, b),
            bool_value(b == 0),
        ),
{
    vstd::arithmetic::div_mod::lemma_small_mod(1, p);
    vstd::arithmetic::div_mod::lemma_small_mod(0, p);
    if b != 0 {
        lemma_inverse_exists(p, b);
    }
}

/// The relations determine the gadget's outputs: any assignment that
/// satisfies them has the flag set exactly when the divisor is zero and the quotient `a / b` (zero for `b` zero), and for a nonzero
/// divisor the witness is its inverse.
pub proof fn lemma_div_flagged_relations_sound(p: nat, a: nat, b: nat, w: nat, q: nat, f: nat)
    requires
        is_prime(p),
        a < p,
        b < p,
        w < p,
        q < p,
        f < p,
        div_flagged_relations(p, a, b, w, q, f),
    ensures
        f == bool_value(b == 0),
        q == div_flagged_quotient(p, a, b),
        b != 0 ==> w == div_flagged_witness(p, b),
{
    vstd::arithmetic::div_mod::lemma_small_mod(1, p);
    vstd::arithmetic::div_mod::lemma_small_mod(0, p);
    vstd::arithmetic::div_mod::lemma_small_mod(b, p);
    vstd::arithmetic::div_mod::lemma_small_mod(q, p);
    lemma_boolean_constraint(p, f);
    if b == 0 {
        vstd::arithmetic::mul::lemma_mul_basics(w as int);
        vstd::arithmetic::div_mod::lemma_small_mod(0, p);
        if f == 0 {
            assert(field_sub(p, 1, f) == 1);
        }
        assert(f == 1);
        vstd::arithmetic::mul::lemma_mul_basics(q as int);
    } else {
        vstd::arithmetic::mul::lemma_mul_basics(b as int);
        assert(f == 0);
        assert(field_sub(p, 1, f) == 1);
        assert(is_inverse(p, b, w));
        lemma_inverse_unique(p, b, w);
    }
}

/// The boolean constraint `f * (1 - f) = 0` admits only zero and one.
proof fn lemma_boolean_constraint(p: nat, f: nat)
    requires
        is_prime(p),
        f < p,
        field_mul(p, f, field_sub(p, 1, f)) == 0,
    ensures
        f <= 1,
{
    if f > 1 {
        let x = field_sub(p, 1, f);
        let v = field_inv(p, f);
        lemma_inverse_exists(p, f);
        // x = (v * f) * x = v * (f * x) = v * 0 = 0
        lemma_field_mul_assoc(p, v, f, x);
        vstd::arithmetic::mul::lemma_mul_basics(v as int);
        vstd::arithmetic::mul::lemma_mul_basics(x as int);
        vstd::arithmetic::mul::lemma_mul_is_commutative(v as int, f as int);
        vstd::arithmetic::div_mod::lemma_small_mod(0, p);
        vstd::arithmetic::div_mod::lemma_mod_bound(1 - f, p as int);
        vstd::arithmetic::div_mod::lemma_small_mod(x, p);
        assert(field_mul(p, 1, x) == 0);
        assert(x == 0);
        // 1 - f is congruent to 0 with 1 < f < p: impossible
        vstd::arithmetic::div_mod::lemma_fundamental_div_mod(1 - f, p as int);
        let k = (1 - f) / (p as int);
        assert(false) by (nonlinear_arith)
            requires
                1 - f == (p as int) * k,
                1 < f,
                f < p,
        ;
    }
}

/// For a nonzero divisor, multiplying the quotient by the divisor gives back
/// the dividend.
pub proof fn lemma_div_flagged_quotient_times_divisor(p: nat, a: nat, b: nat)
    requires
        is_prime(p),
        a < p,
        0 < b < p,
    ensures
        field_mul(p, div_flagged_quotient(p, a, b), b) == a,
{
    lemma_div_mul_cancel(p, a, b);
}

/// Dividing by one gives back the dividend.
pub proof fn lemma_div_flagged_by_one(p: nat, a: nat)
    requires
        is_prime(p),
        a < p,
    ensures
        div_flagged_quotient(p, a, 1) == a,
{
    vstd::arithmetic::div_mod::lemma_small_mod(1, p);
    lemma_inverse_unique(p, 1, 1);
    vstd::arithmetic::mul::lemma_mul_basics(a as int);
    vstd::arithmetic::div_mod::lemma_small_mod(a, p);
}

/// The cost table of `count` never matches what a flagged division by a
/// nonzero divisor adds to the circuit: whatever the modes, the division adds
/// one constant or private variable more than the table, and at least as many
/// constraints (strictly more whenever the dividend or divisor is a variable).
pub proof fn lemma_div_flagged_allocation_vs_count<E: Environment>(a: Field<E>, b: Field<E>)
    requires
        b.value@ < E::modulus(),
        b.value@ != 0,
    ensures
        ({
            let alloc = div_flagged_allocation(a, b);
            let table = div_flagged_count((a.mode, b.mode));
            &&& alloc.constants + alloc.private == table.constants + table.private + 1
            &&& alloc.constraints >= table.constraints
            &&& (a.mode != Mode::Constant || b.mode != Mode::Constant) ==> alloc.constraints > table.constraints
            &&& alloc != table
        }),
{
    E::lemma_modulus_is_prime();
    let bv = b.value@;
    lemma_inverse_exists(E::modulus(), bv);
    let w = field_inv(E::modulus(), bv);
    vstd::arithmetic::mul::lemma_mul_basics(bv as int);
    vstd::arithmetic::div_mod::lemma_small_mod(0, E::modulus());
    // The inverse of a nonzero divisor is nonzero, so a variable dividend
    // scaled by it stays a variable.
    assert(w != 0);
}

/// The quotient of a flagged division is a constant exactly when the divisor
/// is a constant and the dividend is a constant or the divisor zero, or when
/// the dividend is the constant zero; it is public exactly when a public
/// dividend is divided by the constant one; otherwise it is private. In
/// particular a nonzero constant divided by a variable is private.
pub proof fn lemma_div_flagged_quotient_mode_cases<E: Environment>(a: Field<E>, b: Field<E>)
    requires
        b.value@ < E::modulus(),
    ensures
        div_flagged_quotient_mode(a, b) == Mode::Constant <==> (
            (b.mode == Mode::Constant && (a.mode == Mode::Constant || b.value@ == 0))
            || (a.mode == Mode::Constant && a.value@ == 0)),
        div_flagged_quotient_mode(a, b) == Mode::Public <==> (
            a.mode == Mode::Public && b.mode == Mode::Constant && b.value@ == 1),
        b.mode != Mode::Constant && !(a.mode == Mode::Constant && a.value@ == 0)
            ==> div_flagged_quotient_mode(a, b) == Mode::Private,
{
    E::lemma_modulus_is_prime();
    let bv = b.value@;
    let w = div_flagged_witness(E::modulus(), bv);
    lemma_product_mode_constant(a.mode, a.value@, witness_mode(b.mode), w);
    lemma_product_mode_variable(a.mode, a.value@, witness_mode(b.mode), w);
    if bv != 0 {
        lemma_inverse_exists(E::modulus(), bv);
        vstd::arithmetic::mul::lemma_mul_basics(bv as int);
        vstd::arithmetic::div_mod::lemma_small_mod(bv, E::modulus());
        vstd::arithmetic::div_mod::lemma_small_mod(0, E::modulus());
        assert(w != 0);
        assert(w == 1 <==> bv == 1) by {
            if bv == 1 {
                vstd::arithmetic::div_mod::lemma_small_mod(1, E::modulus());
                lemma_inverse_unique(E::modulus(), 1, 1);
            }
        }
    }
}

/// The output mode by circuit types is a constant exactly when both operands
/// are constants; it is public exactly when a public dividend is divided by
/// the constant one (for every constant, zero included); otherwise it is
/// private. In particular a constant over a variable gives a private output.
pub proof fn lemma_div_flagged_output_mode_cases<E: Environment>(case: (CircuitType<E>, CircuitType<E>))
    ensures
        div_flagged_output_mode(case) == Mode::Constant <==> (
            circuit_type_mode(case.0) == Mode::Constant && case.1 is Constant),
        div_flagged_output_mode(case) == Mode::Public <==> (
            case.0 is Public && (case.1 matches CircuitType::Constant(c) && c.value@ == 1)),
        case.0 is Constant && !(case.1 is Constant) ==> div_flagged_output_mode(case) == Mode::Private,
{
}

/// The mode of the quotient that the gadget yields agrees with the output
/// mode by circuit types, unless the divisor is zero or the dividend is the
/// constant zero (then the quotient is the constant zero).
pub proof fn lemma_div_flagged_output_mode<E: Environment>(a: Field<E>, b: Field<E>)
    requires
        b.value@ < E::modulus(),
        b.value@ != 0,
        !(a.mode == Mode::Constant && a.value@ == 0),
    ensures
        div_flagged_quotient_mode(a, b) == div_flagged_output_mode(
            (circuit_type_of(a), circuit_type_of(b)),
        ),
{
    E::lemma_modulus_is_prime();
    let bv = b.value@;
    let w = field_inv(E::modulus(), bv);
    lemma_inverse_exists(E::modulus(), bv);
    vstd::arithmetic::mul::lemma_mul_basics(bv as int);
    vstd::arithmetic::div_mod::lemma_small_mod(bv, E::modulus());
    vstd::arithmetic::div_mod::lemma_small_mod(0, E::modulus());
    // the inverse is nonzero, and it is one exactly when the divisor is one
    assert(w != 0);
    assert(w == 1 <==> bv == 1) by {
        if bv == 1 {
            lemma_inverse_unique(E::modulus(), 1, 1);
        }
    }
}

} // verus!
