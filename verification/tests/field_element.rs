use snarkvm_lite::field_element::FieldElement as GenericFieldElement;
use snarkvm_lite::modulus::{Mersenne31, MODULUS};

type FieldElement = GenericFieldElement<Mersenne31>;

fn fe(v: u64) -> FieldElement {
    FieldElement::from_u64(v)
}

#[test]
fn from_u64_reduces() {
    assert_eq!(fe(MODULUS as u64).value(), 0);
    assert_eq!(fe(MODULUS as u64 + 5).value(), 5);
    assert_eq!(fe(u64::MAX).value(), (u64::MAX % MODULUS as u64) as u32);
}

#[test]
fn arithmetic_exact_values() {
    assert_eq!(fe(2147483646).add(&fe(5)).value(), 4);
    assert_eq!(fe(3).sub(&fe(5)).value(), 2147483645);
    assert_eq!(fe(5).sub(&fe(3)).value(), 2);
    assert_eq!(fe(1).neg().value(), 2147483646);
    assert_eq!(fe(0).neg().value(), 0);
    assert_eq!(fe(65536).mul(&fe(65536)).value(), 2);
    assert!(fe(0).is_zero());
    assert!(fe(1).is_one());
}

#[test]
fn inverse_of_nonzero_elements() {
    assert!(fe(0).inverse().is_none());
    assert_eq!(fe(1).inverse().unwrap().value(), 1);
    assert_eq!(fe(2).inverse().unwrap().value(), 1073741824);
    let mut x: u64 = 1;
    for _ in 0..200 {
        x = x.wrapping_mul(6364136223846793005).wrapping_add(1442695040888963407);
        let a = fe(x);
        if a.is_zero() {
            continue;
        }
        let w = a.inverse().unwrap();
        assert_eq!(a.mul(&w).value(), 1);
    }
}

#[test]
fn division_round_trip() {
    let a = fe(123456789);
    let b = fe(987654321);
    let q = a.div(&b);
    assert_eq!(q.mul(&b), a);
    assert_eq!(a.div(&fe(1)), a);
}
