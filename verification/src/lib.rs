//! A binary-to-text codec whose alphabet is two whitespace characters.
//!
//! Every byte becomes eight characters, one per bit, most significant bit
//! first: an ordinary space stands for a set bit, a zero-width space for a
//! clear one.

pub mod alphabet;
pub mod bits;
pub mod decimal;
pub mod decode;
pub mod encode;
pub mod roundtrip;
pub mod strings;

pub use decode::{decode, DecodeError};
pub use encode::encode;
