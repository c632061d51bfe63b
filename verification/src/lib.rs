//! A re-implementation of a standard library's text-formatting machinery,
//! with machine-checked contracts: style-polymorphic rendering (debug,
//! pretty-printed, display, hex, binary), composable modifier styles
//! (padding, prefixes, ANSI colors), struct/tuple formatting builders with
//! first-error-wins semantics, a type-erased argument list, and a small
//! byte-oriented I/O layer.

use vstd::prelude::*;

pub mod co;
pub mod fmt;
pub mod io;

verus! {

/// Extracts the return type out of a function type.
pub trait Extract {
    /// The extracted return type.
    type R;
}

} // verus!
