//! The prime field of an environment, and the environment whose field has
//! the Mersenne prime 2^31 - 1 as its modulus.

use vstd::prelude::*;

verus! {

/// `n` is prime: it is greater than one and has no divisor strictly between 1 and itself.
pub open spec fn is_prime(n: nat) -> bool {
    &&& n > 1
    &&& forall|d: nat| 1 < d < n ==> #[trigger] (n % d) != 0
}

/// An environment: it fixes the prime field in which circuit values lie.
pub trait Environment {
    /// The modulus of the field.
    spec fn modulus() -> nat;

    /// The modulus of the field.
    fn modulus_u32() -> (m: u32)
        ensures
            m == Self::modulus(),
    ;

    /// The modulus is a prime that fits in 32 bits.
    proof fn lemma_modulus_is_prime()
        ensures
            is_prime(Self::modulus()),
            Self::modulus() <= u32::MAX,
    ;
}

/// The modulus 2^31 - 1 of `Mersenne31`.
pub const MODULUS: u32 = 2147483647;

/// The environment whose field has the Mersenne prime 2^31 - 1 as its modulus.
#[derive(Clone, Copy, Debug, PartialEq, Eq)]
pub struct Mersenne31;

/// No 32-bit number strictly between 1 and 2^31 - 1 divides it.
#[verifier::rlimit(100)]
proof fn lemma_no_u32_divisor()
    ensures
        forall|d: u32| 1 < d && d < 2147483647u32 ==> #[trigger] (2147483647u32 % d) != 0u32,
{
    assert(forall|d: u32| 1 < d && d < 2147483647u32 ==> #[trigger] (2147483647u32 % d) != 0u32)
        by (bit_vector);
}

impl Environment for Mersenne31 {
    open spec fn modulus() -> nat {
        MODULUS as nat
    }

    fn modulus_u32() -> (m: u32) {
        MODULUS
    }

    proof fn lemma_modulus_is_prime() {
        lemma_no_u32_divisor();
        assert forall|d: nat| 1 < d < Self::modulus() implies #[trigger] (Self::modulus() % d) != 0 by {
            let du = d as u32;
            assert(2147483647u32 % du != 0u32);
        }
    }
}

} // verus!
