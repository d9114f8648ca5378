use snarkvm_lite::circuit::{CircuitType as GenericCircuitType, Count, Field as GenericField, Mode};
use snarkvm_lite::div_flagged::DivFlagged;
use snarkvm_lite::field_element::FieldElement as GenericFieldElement;
use snarkvm_lite::modulus::Mersenne31;

type Field = GenericField<Mersenne31>;
type FieldElement = GenericFieldElement<Mersenne31>;
type CircuitType = GenericCircuitType<Mersenne31>;

const ITERATIONS: u64 = 1000;

/// A deterministic generator of field elements (xorshift64*).
struct TestRng(u64);

impl TestRng {
    fn default() -> Self {
        TestRng(0x9E37_79B9_7F4A_7C15)
    }

    fn next_u64(&mut self) -> u64 {
        let mut x = self.0;
        x ^= x >> 12;
        x ^= x << 25;
        x ^= x >> 27;
        self.0 = x;
        x.wrapping_mul(0x2545_F491_4F6C_DD1D)
    }

    fn field(&mut self) -> FieldElement {
        FieldElement::from_u64(self.next_u64())
    }
}

fn check_div_flagged(name: &str, first: &FieldElement, second: &FieldElement, mode_a: Mode, mode_b: Mode) {
    let a = Field::new(mode_a, *first);
    let b = Field::new(mode_b, *second);

    if second.is_zero() {
        let (result, flag) = a.div_flagged(b);
        let fieldzero: Field = Field::zero();
        assert_eq!(result.eject_value(), fieldzero.eject_value(), "{name}");
        assert_eq!(flag.eject_value(), true, "{name}");
    } else {
        let expected = first.div(second);
        let (candidate, flag) = a.clone().div_flagged(b.clone());
        assert_eq!(expected, candidate.eject_value(), "{name}: ({} / {})", a.eject_value().value(), b.eject_value().value());
        assert_eq!(flag.eject_value(), false, "{name}");
        let case = (CircuitType::from(a), CircuitType::from(b));
        assert_eq!(candidate.eject_mode(), Field::output_mode(&case), "{name}");
    }
}

fn run_test(mode_a: Mode, mode_b: Mode) {
    let mut rng = TestRng::default();

    for i in 0..ITERATIONS {
        let first = rng.field();
        let second = rng.field();

        let name = format!("DivFlagged: a / b {i}");
        check_div_flagged(&name, &first, &second, mode_a, mode_b);

        // Check division by one.
        let one = FieldElement::one();
        let name = format!("DivFlagged By One {i}");
        check_div_flagged(&name, &first, &one, mode_a, mode_b);

        // Check division by zero.
        let zero = FieldElement::zero();
        let name = format!("DivFlagged By Zero {i}");
        check_div_flagged(&name, &first, &zero, mode_a, mode_b);
    }
}

#[test]
fn test_constant_div_constant() {
    run_test(Mode::Constant, Mode::Constant);
}

#[test]
fn test_constant_div_public() {
    run_test(Mode::Constant, Mode::Public);
}

#[test]
fn test_constant_div_private() {
    run_test(Mode::Constant, Mode::Private);
}

#[test]
fn test_public_div_constant() {
    run_test(Mode::Public, Mode::Constant);
}

#[test]
fn test_public_div_public() {
    run_test(Mode::Public, Mode::Public);
}

#[test]
fn test_public_div_private() {
    run_test(Mode::Public, Mode::Private);
}

#[test]
fn test_private_div_constant() {
    run_test(Mode::Private, Mode::Constant);
}

#[test]
fn test_private_div_public() {
    run_test(Mode::Private, Mode::Public);
}

#[test]
fn test_private_div_private() {
    run_test(Mode::Private, Mode::Private);
}

#[test]
fn div_flagged_exact_values() {
    // 10 / 4 in the field of order 2^31 - 1: 4 * 1073741826 = 4294967304 = 10 (mod p).
    let a = Field::new(Mode::Private, FieldElement::from_u64(10));
    let b = Field::new(Mode::Public, FieldElement::from_u64(4));
    let (q, flag) = a.div_flagged(b);
    assert_eq!(q.eject_value().value(), 1073741826);
    assert!(!flag.eject_value());
    assert_eq!(q.eject_mode(), Mode::Private);
    assert_eq!(flag.eject_mode(), Mode::Private);
    // The quotient times the divisor gives back the dividend.
    assert_eq!(q.eject_value().mul(&FieldElement::from_u64(4)).value(), 10);
}

#[test]
fn div_flagged_by_zero_sets_flag() {
    let a = Field::new(Mode::Public, FieldElement::from_u64(12345));
    let b = Field::new(Mode::Private, FieldElement::zero());
    let (q, flag) = a.div_flagged(b);
    assert_eq!(q.eject_value().value(), 0);
    assert!(flag.eject_value());
    assert_eq!(flag.eject_mode(), Mode::Private);
    // With constant operands the outputs are constants.
    let a = Field::new(Mode::Constant, FieldElement::from_u64(7));
    let b = Field::new(Mode::Constant, FieldElement::zero());
    let (q, flag) = a.div_flagged(b);
    assert_eq!(q.eject_value().value(), 0);
    assert_eq!(q.eject_mode(), Mode::Constant);
    assert!(flag.eject_value());
    assert_eq!(flag.eject_mode(), Mode::Constant);
}

#[test]
fn div_flagged_by_one_is_identity() {
    let a = Field::new(Mode::Public, FieldElement::from_u64(987654321));
    let (q, flag) = a.div_flagged(Field::one());
    assert_eq!(q.eject_value().value(), 987654321);
    assert_eq!(q.eject_mode(), Mode::Public);
    assert!(!flag.eject_value());
}

#[test]
fn div_flagged_gadget_constraints_hold() {
    let cases = [(3u64, 5u64), (0, 9), (17, 0), (0, 0), (2147483646, 2147483646)];
    for (x, y) in cases {
        let a = Field::new(Mode::Private, FieldElement::from_u64(x));
        let b = Field::new(Mode::Private, FieldElement::from_u64(y));
        let g = a.div_flagged_gadget(&b);
        assert_eq!(g.constraints.len(), 5);
        for c in &g.constraints {
            assert!(c.is_satisfied());
        }
        if y == 0 {
            assert_eq!(g.witness.eject_value().value(), 0);
            assert!(g.flag.eject_value());
        } else {
            assert_eq!(g.witness.eject_value().mul(&FieldElement::from_u64(y)).value(), 1);
            assert!(!g.flag.eject_value());
        }
    }
}

#[test]
fn div_flagged_count_table() {
    assert_eq!(Field::count(&(Mode::Constant, Mode::Constant)), Count::is(1, 0, 0, 0));
    assert_eq!(Field::count(&(Mode::Public, Mode::Constant)), Count::is(1, 0, 0, 0));
    assert_eq!(Field::count(&(Mode::Private, Mode::Constant)), Count::is(1, 0, 0, 0));
    assert_eq!(Field::count(&(Mode::Constant, Mode::Public)), Count::is(0, 0, 1, 1));
    assert_eq!(Field::count(&(Mode::Constant, Mode::Private)), Count::is(0, 0, 1, 1));
    assert_eq!(Field::count(&(Mode::Public, Mode::Public)), Count::is(0, 0, 2, 2));
    assert_eq!(Field::count(&(Mode::Private, Mode::Public)), Count::is(0, 0, 2, 2));
    assert_eq!(Field::count(&(Mode::Public, Mode::Private)), Count::is(0, 0, 2, 2));
    assert_eq!(Field::count(&(Mode::Private, Mode::Private)), Count::is(0, 0, 2, 2));
}

#[test]
fn div_flagged_output_mode_table() {
    let c = |v: u64| CircuitType::from(Field::new(Mode::Constant, FieldElement::from_u64(v)));
    assert_eq!(Field::output_mode(&(c(3), c(5))), Mode::Constant);
    assert_eq!(Field::output_mode(&(CircuitType::Public, c(1))), Mode::Public);
    assert_eq!(Field::output_mode(&(CircuitType::Public, c(2))), Mode::Private);
    assert_eq!(Field::output_mode(&(CircuitType::Private, c(1))), Mode::Private);
    assert_eq!(Field::output_mode(&(c(3), CircuitType::Public)), Mode::Private);
    assert_eq!(Field::output_mode(&(CircuitType::Public, CircuitType::Private)), Mode::Private);
    assert_eq!(Field::output_mode(&(CircuitType::Private, CircuitType::Private)), Mode::Private);
}

#[test]
fn div_flagged_quotient_mode_follows_operands() {
    // A public dividend over the constant one stays public.
    let a = Field::new(Mode::Public, FieldElement::from_u64(5));
    let (q, _) = a.div_flagged(Field::one());
    assert_eq!(q.eject_mode(), Mode::Public);
    // A public dividend over another constant becomes private.
    let (q, _) = a.div_flagged(Field::new(Mode::Constant, FieldElement::from_u64(3)));
    assert_eq!(q.eject_mode(), Mode::Private);
    // The constant zero over a variable stays the constant zero.
    let (q, flag) = Field::zero().div_flagged(Field::new(Mode::Private, FieldElement::from_u64(3)));
    assert_eq!(q.eject_mode(), Mode::Constant);
    assert_eq!(q.eject_value().value(), 0);
    assert_eq!(flag.eject_mode(), Mode::Private);
}

#[test]
fn div_flagged_gadget_allocation_by_mode() {
    let f = |m: Mode, v: u64| Field::new(m, FieldElement::from_u64(v));
    let alloc = |a: Field, b: Field| a.div_flagged_gadget(&b).allocated;
    assert_eq!(alloc(f(Mode::Constant, 6), f(Mode::Constant, 3)), Count::is(2, 0, 0, 0));
    assert_eq!(alloc(f(Mode::Public, 6), f(Mode::Constant, 3)), Count::is(2, 0, 0, 1));
    assert_eq!(alloc(f(Mode::Private, 6), f(Mode::Constant, 3)), Count::is(2, 0, 0, 1));
    assert_eq!(alloc(f(Mode::Constant, 6), f(Mode::Public, 3)), Count::is(0, 0, 2, 3));
    assert_eq!(alloc(f(Mode::Constant, 6), f(Mode::Private, 3)), Count::is(0, 0, 2, 3));
    assert_eq!(alloc(f(Mode::Public, 6), f(Mode::Private, 3)), Count::is(0, 0, 3, 4));
    assert_eq!(alloc(f(Mode::Private, 6), f(Mode::Private, 3)), Count::is(0, 0, 3, 4));
    // Over the constant zero, the quotient is the constant zero: only the two constant witnesses are added.
    assert_eq!(alloc(f(Mode::Public, 6), f(Mode::Constant, 0)), Count::is(2, 0, 0, 0));
    // The table of `count` differs in every mode pair.
    for (ma, mb) in [(Mode::Constant, Mode::Constant), (Mode::Private, Mode::Constant), (Mode::Constant, Mode::Private), (Mode::Public, Mode::Private)] {
        assert_ne!(alloc(f(ma, 6), f(mb, 3)), Field::count(&(ma, mb)));
    }
}
