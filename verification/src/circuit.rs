//! Circuit values over the field of an environment: field and boolean
//! variables tagged with their mode, the circuit type of a value, constraint
//! counts, and evaluated R1CS constraints.

use vstd::prelude::*;
use crate::field_element::{FieldElement, field_mul};
use crate::modulus::Environment;

verus! {

/// How a circuit variable is allocated.
#[derive(Clone, Copy, Debug, PartialEq, Eq, Structural)]
pub enum Mode {
    Constant,
    Public,
    Private,
}

impl Mode {
    /// Whether the mode is `Constant`.
    pub fn is_constant(&self) -> (b: bool)
        ensures
            b == (*self == Mode::Constant),
    {
        match self {
            Mode::Constant => true,
            _ => false,
        }
    }
}

/// A field variable of a circuit: its mode and its assigned value.
///
/// A non-constant field here is a single variable (with coefficient one),
/// as a freshly allocated input or witness is.
#[derive(Debug, PartialEq, Eq)]
pub struct Field<E: Environment> {
    pub mode: Mode,
    pub value: FieldElement<E>,
}

impl<E: Environment> Clone for Field<E> {
    fn clone(&self) -> (r: Self)
        ensures
            r == *self,
    {
        *self
    }
}

impl<E: Environment> Copy for Field<E> {
}

/// A boolean variable of a circuit: its mode and its assigned value.
#[derive(Clone, Copy, Debug, PartialEq, Eq, Structural)]
pub struct Boolean {
    pub mode: Mode,
    pub value: bool,
}

/// The mode of a product of two circuit fields. A product with a constant
/// scales the other operand: by zero it is the constant zero, by one it keeps
/// the other operand's mode, and otherwise it is a private combination. A
/// product of two variables is a new private variable.
pub open spec fn product_mode(mode_a: Mode, value_a: nat, mode_b: Mode, value_b: nat) -> Mode {
    if mode_a == Mode::Constant && mode_b == Mode::Constant {
        Mode::Constant
    } else if mode_a == Mode::Constant {
        if value_a == 0 {
            Mode::Constant
        } else if value_a == 1 {
            mode_b
        } else {
            Mode::Private
        }
    } else if mode_b == Mode::Constant {
        if value_b == 0 {
            Mode::Constant
        } else if value_b == 1 {
            mode_a
        } else {
            Mode::Private
        }
    } else {
        Mode::Private
    }
}

/// A product is a constant exactly when both factors are constants or one of
/// them is the constant zero.
pub proof fn lemma_product_mode_constant(mode_a: Mode, value_a: nat, mode_b: Mode, value_b: nat)
    ensures
        product_mode(mode_a, value_a, mode_b, value_b) == Mode::Constant <==> (
            (mode_a == Mode::Constant && mode_b == Mode::Constant)
            || (mode_a == Mode::Constant && value_a == 0)
            || (mode_b == Mode::Constant && value_b == 0)),
{
}

/// A product of two variables is a private variable; a variable scaled by the
/// constant one keeps its mode; a variable scaled by any other nonzero
/// constant is private.
pub proof fn lemma_product_mode_variable(mode_a: Mode, value_a: nat, mode_b: Mode, value_b: nat)
    ensures
        mode_a != Mode::Constant && mode_b != Mode::Constant ==> product_mode(
            mode_a,
            value_a,
            mode_b,
            value_b,
        ) == Mode::Private,
        mode_a == Mode::Constant && value_a == 1 && mode_b != Mode::Constant ==> product_mode(
            mode_a,
            value_a,
            mode_b,
            value_b,
        ) == mode_b,
        mode_b == Mode::Constant && value_b == 1 && mode_a != Mode::Constant ==> product_mode(
            mode_a,
            value_a,
            mode_b,
            value_b,
        ) == mode_a,
        mode_a == Mode::Constant && value_a > 1 && mode_b != Mode::Constant ==> product_mode(
            mode_a,
            value_a,
            mode_b,
            value_b,
        ) == Mode::Private,
        mode_b == Mode::Constant && value_b > 1 && mode_a != Mode::Constant ==> product_mode(
            mode_a,
            value_a,
            mode_b,
            value_b,
        ) == Mode::Private,
{
}

impl<E: Environment> Field<E> {
    /// A field variable with the given mode and value.
    pub fn new(mode: Mode, value: FieldElement<E>) -> (r: Self)
        ensures
            r.mode == mode,
            r.value == value,
    {
        Field { mode, value }
    }

    /// The constant zero.
    pub fn zero() -> (r: Self)
        ensures
            r.mode == Mode::Constant,
            r.value@ == 0,
    {
        Field { mode: Mode::Constant, value: FieldElement::<E>::zero() }
    }

    /// The constant one.
    pub fn one() -> (r: Self)
        ensures
            r.mode == Mode::Constant,
            r.value@ == 1,
    {
        Field { mode: Mode::Constant, value: FieldElement::<E>::one() }
    }

    /// The assigned value.
    pub fn eject_value(&self) -> (v: FieldElement<E>)
        ensures
            v == self.value,
    {
        self.value
    }

    /// The mode.
    pub fn eject_mode(&self) -> (m: Mode)
        ensures
            m == self.mode,
    {
        self.mode
    }

    /// Whether the variable is a constant.
    pub fn is_constant(&self) -> (b: bool)
        ensures
            b == (self.mode == Mode::Constant),
    {
        self.mode.is_constant()
    }

    /// The product of two fields: the product of their values, with the mode
    /// that `product_mode` gives.
    pub fn mul(&self, other: &Self) -> (r: Self)
        ensures
            r.value@ == field_mul(E::modulus(), self.value@, other.value@),
            r.mode == product_mode(self.mode, self.value@, other.mode, other.value@),
    {
        let value = self.value.mul(&other.value);
        let mode = if self.mode.is_constant() && other.mode.is_constant() {
            Mode::Constant
        } else if self.mode.is_constant() {
            if self.value.is_zero() {
                Mode::Constant
            } else if self.value.is_one() {
                other.mode
            } else {
                Mode::Private
            }
        } else if other.mode.is_constant() {
            if other.value.is_zero() {
                Mode::Constant
            } else if other.value.is_one() {
                self.mode
            } else {
                Mode::Private
            }
        } else {
            Mode::Private
        };
        Field { mode, value }
    }
}

impl Boolean {
    /// A boolean variable with the given mode and value.
    pub fn new(mode: Mode, value: bool) -> (r: Boolean)
        ensures
            r.mode == mode,
            r.value == value,
    {
        Boolean { mode, value }
    }

    /// The assigned value.
    pub fn eject_value(&self) -> (v: bool)
        ensures
            v == self.value,
    {
        self.value
    }

    /// The mode.
    pub fn eject_mode(&self) -> (m: Mode)
        ensures
            m == self.mode,
    {
        self.mode
    }
}

/// The type of a circuit value as an operation's cost and output depend on
/// it: a constant carries its value, a variable only its mode.
#[derive(Debug, PartialEq, Eq)]
pub enum CircuitType<E: Environment> {
    Constant(Field<E>),
    Public,
    Private,
}

impl<E: Environment> Clone for CircuitType<E> {
    fn clone(&self) -> (r: Self)
        ensures
            r == *self,
    {
        *self
    }
}

impl<E: Environment> Copy for CircuitType<E> {
}

/// The circuit type of a field.
pub open spec fn circuit_type_of<E: Environment>(field: Field<E>) -> CircuitType<E> {
    match field.mode {
        Mode::Constant => CircuitType::Constant(field),
        Mode::Public => CircuitType::Public,
        Mode::Private => CircuitType::Private,
    }
}

/// The mode of a circuit type.
pub open spec fn circuit_type_mode<E: Environment>(t: CircuitType<E>) -> Mode {
    match t {
        CircuitType::Constant(_) => Mode::Constant,
        CircuitType::Public => Mode::Public,
        CircuitType::Private => Mode::Private,
    }
}

impl<E: Environment> CircuitType<E> {
    /// The circuit type of a field.
    pub fn from(field: Field<E>) -> (r: Self)
        ensures
            r == circuit_type_of(field),
    {
        match field.mode {
            Mode::Constant => CircuitType::Constant(field),
            Mode::Public => CircuitType::Public,
            Mode::Private => CircuitType::Private,
        }
    }

    /// The mode of this circuit type.
    pub fn mode(&self) -> (m: Mode)
        ensures
            m == circuit_type_mode(*self),
    {
        match self {
            CircuitType::Constant(_) => Mode::Constant,
            CircuitType::Public => Mode::Public,
            CircuitType::Private => Mode::Private,
        }
    }
}

/// The number of constants, public variables, private variables and
/// constraints that an operation adds to a circuit.
#[derive(Clone, Copy, Debug, PartialEq, Eq, Structural)]
pub struct Count {
    pub constants: u64,
    pub public: u64,
    pub private: u64,
    pub constraints: u64,
}

impl Count {
    /// An exact count.
    pub fn is(constants: u64, public: u64, private: u64, constraints: u64) -> (r: Count)
        ensures
            r == (Count { constants, public, private, constraints }),
    {
        Count { constants, public, private, constraints }
    }
}

/// A rank-1 constraint `a * b = c`, with its three linear combinations
/// evaluated under the circuit's assignment.
#[derive(Debug, PartialEq, Eq)]
pub struct Constraint<E: Environment> {
    pub a: FieldElement<E>,
    pub b: FieldElement<E>,
    pub c: FieldElement<E>,
}

impl<E: Environment> Clone for Constraint<E> {
    fn clone(&self) -> (r: Self)
        ensures
            r == *self,
    {
        *self
    }
}

impl<E: Environment> Copy for Constraint<E> {
}

/// The constraint holds under the assignment.
pub open spec fn constraint_holds<E: Environment>(k: Constraint<E>) -> bool {
    field_mul(E::modulus(), k.a@, k.b@) == k.c@
}

impl<E: Environment> Constraint<E> {
    /// Whether the constraint holds under the assignment.
    pub fn is_satisfied(&self) -> (b: bool)
        ensures
            b == constraint_holds(*self),
    {
        let product = self.a.mul(&self.b);
        product.value() == self.c.value()
    }
}

} // verus!
