//! Prime-field, curve-group, pairing and polynomial arithmetic for BLS12-381.
//!
//! Every value is held as plain machine words, so that contracts can speak of
//! the residue or the coordinates it stands for. The heavy arithmetic is done
//! by the arkworks crates behind small trusted functions; the rules around
//! them (conventions for zero, error cases, representation handling in the
//! curve groups, batching) are verified.

pub mod utils;
pub mod field;
pub mod coords;
pub mod point;
pub mod g1;
pub mod g2;
pub mod pairing;
pub mod polynomial;
