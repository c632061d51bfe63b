//! The hexadecimal rendering style.

use vstd::prelude::*;

use crate::fmt::{Prefix, Style};

verus! {

/// A style for formatting integers in hexadecimal. The inner `bool` selects
/// uppercase digit letters.
#[derive(Default, Clone, Copy)]
pub struct Hex(pub bool);

impl Style for Hex {}

impl Hex {
    /// Create a new `Hex`, with the literal prefix `0x` automatically
    /// applied.
    pub fn prefix(uppercase: bool) -> (r: Prefix<&'static str, Hex>)
        ensures
            r.0@ == "0x"@,
            r.1 == Hex(uppercase),
    {
        Prefix("0x", Hex(uppercase))
    }
}

} // verus!
