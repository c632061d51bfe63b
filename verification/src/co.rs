//! Stable coroutines: the result type of polling a coroutine.

use vstd::prelude::*;

verus! {

/// The result of polling a coroutine.
#[derive(Debug, Copy, Clone, PartialEq, Eq, Hash)]
pub enum Poll<Y, R> {
    /// The coroutine will continue running, but has yielded this value.
    Yield(Y),
    /// The coroutine has finished, returning this value.
    Return(R),
}

} // verus!
