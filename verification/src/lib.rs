//! Prime-field arithmetic over the field of an environment, the
//! flagged-division circuit gadget built on it, and the decision logic of request authorization and deployment checks.

pub mod modulus;
pub mod field_element;
pub mod circuit;
pub mod div_flagged;
pub mod verify_deployment;
pub mod identifier;
pub mod authorize;
