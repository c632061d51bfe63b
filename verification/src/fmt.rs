//! The style-polymorphic text-rendering core.
//!
//! A value is rendered under a [`Style`] by its [`Format`] implementation,
//! writing through a [`Write`] sink. Modifier styles ([`Modifier`]) wrap an
//! inner style and transform the output around it.

use vstd::prelude::*;
use vstd::string::StrSliceExecFns;

pub mod ansi;

mod args;
mod binary;
mod debug;
mod display;
mod hex;
mod impls;
mod num;
mod pad;
mod prefix;
mod pretty;
mod stylable;

pub mod repr;

pub use args::{Arguments, LeafStyle, Var, VarData, VarStyle, _format};
pub use binary::Binary;
pub use debug::{DebugStruct, DebugTuple};
pub use display::Display;
pub use hex::Hex;
pub use pad::{Dir, Kind, Pad};
pub use prefix::Prefix;
pub use pretty::{Pretty, PrettyStruct, PrettyTuple};

verus! {

/// Unit error: the sink refused a write. Carries no payload, since the only
/// failure mode is "no more text can be accepted".
#[derive(Clone, Copy, Debug, PartialEq, Eq, Hash)]
pub struct Error;

/// A programmer-friendly structural rendering, mirroring the shape of the
/// value: quoted and escaped strings and characters, decimal integers,
/// `name(..)` tuples and `name { .. }` structs.
///
/// Its composite-value builders are [`DebugTuple`] and [`DebugStruct`].
#[derive(Default, Clone, Copy)]
pub struct Debug;

impl Style for Debug {}

/// Marker capability: a type whose value identifies (and configures) a
/// rendering style.
pub trait Style {}

/// An append-only text sink.
///
/// Each single write either appends whole or fails leaving the accepted text
/// unchanged; a sink for which [`Write::infallible`] holds never fails.
pub trait Write {
    /// The characters accepted by the sink so far.
    spec fn content(&self) -> Seq<char>;

    /// Whether every write on this sink is guaranteed to succeed.
    spec fn infallible(&self) -> bool;

    /// Append the characters of `data`.
    fn write_str(&mut self, data: &str) -> (r: Result<(), Error>)
        ensures
            final(self).infallible() == old(self).infallible(),
            r is Ok ==> final(self).content() == old(self).content() + data@,
            r is Err ==> final(self).content() == old(self).content(),
            old(self).infallible() ==> r is Ok,
    ;

    /// Append one character.
    fn write_char(&mut self, data: char) -> (r: Result<(), Error>)
        ensures
            final(self).infallible() == old(self).infallible(),
            r is Ok ==> final(self).content() == old(self).content() + seq![data],
            r is Err ==> final(self).content() == old(self).content(),
            old(self).infallible() ==> r is Ok,
    ;
}

impl Write for String {
    open spec fn content(&self) -> Seq<char> {
        self@
    }

    open spec fn infallible(&self) -> bool {
        true
    }

    fn write_str(&mut self, data: &str) -> (r: Result<(), Error>) {
        self.append(data);
        Ok(())
    }

    fn write_char(&mut self, data: char) -> (r: Result<(), Error>) {
        push_char(self, data);
        Ok(())
    }
}

impl Write for Vec<char> {
    open spec fn content(&self) -> Seq<char> {
        self@
    }

    open spec fn infallible(&self) -> bool {
        true
    }

    fn write_str(&mut self, data: &str) -> (r: Result<(), Error>) {
        let n = data.unicode_len();
        let mut i: usize = 0;
        while i < n
            invariant
                n == data@.len(),
                i <= n,
                self@ == old(self)@ + data@.take(i as int),
            decreases n - i,
        {
            let c = data.get_char(i);
            self.push(c);
            proof {
                assert(old(self)@ + data@.take(i + 1) =~= (old(self)@ + data@.take(
                    i as int,
                )).push(data@[i as int]));
            }
            i = i + 1;
        }
        proof {
            assert(data@.take(n as int) =~= data@);
        }
        Ok(())
    }

    fn write_char(&mut self, data: char) -> (r: Result<(), Error>) {
        self.push(data);
        proof {
            assert(self@ =~= old(self)@ + seq![data]);
        }
        Ok(())
    }
}

/// Relies on alloc's String::push: appends the given character to the string.
#[verifier::external_body]
fn push_char(s: &mut String, data: char)
    ensures
        final(s)@ == old(s)@ + seq![data],
{
    s.push(data);
}

/// A value renderable under style `S`.
pub trait Format<S: Style> {
    /// The exact text this value renders as under `style`.
    spec fn rendering(&self, style: &S) -> Seq<char>;

    /// Render this value into `f` under `style`.
    ///
    /// On success the sink has grown by exactly [`Format::rendering`]; a sink
    /// failure is propagated immediately, so on failure the sink holds at
    /// most a prefix of the rendering.
    fn fmt<W: Write>(&self, f: &mut W, style: &S) -> (r: Result<(), Error>)
        ensures
            final(f).infallible() == old(f).infallible(),
            r is Ok ==> final(f).content() == old(f).content() + self.rendering(style),
            r is Err ==> crate::fmt::repr::grew_by_prefix(
                old(f).content(),
                final(f).content(),
                self.rendering(style),
            ),
            old(f).infallible() ==> r is Ok,
    ;

    /// Render this value to a fresh `String`; writing to a string cannot
    /// fail.
    fn stringify(&self, style: &S) -> (r: String)
        ensures
            r@ == self.rendering(style),
    {
        let mut s = String::new();
        let _ = self.fmt(&mut s, style);
        s
    }
}

/// A style that wraps an inner style and transforms the rendered text around
/// it: some prefix text, the inner rendering, some suffix text.
///
/// A modifier is itself a [`Style`], and modifiers nest: the inner style may
/// again be a modifier.
pub trait Modifier: Style {
    /// The style this modifier wraps.
    type Inner: Style;

    /// The wrapped style value this modifier delegates to.
    spec fn inner(&self) -> Self::Inner;

    /// The transform this modifier applies to the inner rendering.
    spec fn transformed(&self, inner_text: Seq<char>) -> Seq<char>;

    /// Render `data` under the inner style, wrapped in this modifier's
    /// framing text. The first failed write is propagated, so on failure the
    /// sink holds at most a prefix of the transformed rendering.
    fn apply<T: Format<Self::Inner>, W: Write>(&self, f: &mut W, data: &T) -> (r: Result<
        (),
        Error,
    >)
        ensures
            final(f).infallible() == old(f).infallible(),
            r is Ok ==> final(f).content() == old(f).content() + self.transformed(
                data.rendering(&self.inner()),
            ),
            r is Err ==> crate::fmt::repr::grew_by_prefix(
                old(f).content(),
                final(f).content(),
                self.transformed(data.rendering(&self.inner())),
            ),
            old(f).infallible() ==> r is Ok,
    ;
}

} // verus!
