//! Single steps of the Collatz map and their pre-images, in the classical
//! form and in a generalized form with a runtime modulus, multiplier and
//! offset.

pub mod default;
pub mod generic;
pub mod parameterised;
