//! Modular arithmetic over a fixed modulus and the group law of short
//! Weierstrass elliptic curves built on it.

pub mod integer;
pub mod arithmetic;
pub mod curve;
