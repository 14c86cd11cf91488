//! A codec generator for wrapper types that hold exactly one
//! fixed-length byte array: a shape validator that decides whether a
//! candidate type is eligible and extracts its length, and a hex codec
//! that parses and formats the array as "0x"-prefixed hexadecimal text.

pub mod codec;
pub mod shape;
