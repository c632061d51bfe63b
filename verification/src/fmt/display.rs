//! The user-facing rendering style.

use vstd::prelude::*;

use crate::fmt::Style;

verus! {

/// A style for formatting data in a user-friendly way.
///
/// Unlike [`Debug`](crate::fmt::Debug) and [`Pretty`](crate::fmt::Pretty),
/// what counts as "friendly" varies from type to type, so each type chooses
/// its own output; primitives fall back to the `Debug` rendering.
#[derive(Default, Clone, Copy)]
pub struct Display;

impl Style for Display {}

} // verus!
