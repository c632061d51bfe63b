//! The binary rendering style.

use vstd::prelude::*;

use crate::fmt::{Prefix, Style};

verus! {

/// A style for formatting integers in binary: the value's bit pattern from
/// its most significant set bit down, so no leading zero bits, with `0`
/// rendered as `"0"`. A negative signed integer shows its full-width
/// two's-complement pattern, starting with a one bit.
#[derive(Default, Clone, Copy)]
pub struct Binary;

impl Style for Binary {}

impl Binary {
    /// Create a new `Binary`, with the literal prefix `0b` automatically
    /// applied.
    pub fn prefix() -> (r: Prefix<&'static str, Binary>)
        ensures
            r.0@ == "0b"@,
            r.1 == Binary,
    {
        Prefix("0b", Binary)
    }
}

} // verus!
