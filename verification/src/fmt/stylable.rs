//! Blanket rules that make every formattable type renderable under a
//! modifier style: a value formattable under the modifier's inner style is
//! formatted through the modifier by invoking its transform. One rule per
//! concrete type, so that the rules cannot overlap the leaf-style
//! implementations.

use vstd::prelude::*;

use crate::fmt::{Arguments, Error, Format, Modifier, VarData, Write};

verus! {

impl<M: Modifier> Format<M> for () where (): Format<M::Inner> {
    open spec fn rendering(&self, style: &M) -> Seq<char> {
        style.transformed(<() as Format<M::Inner>>::rendering(self, &style.inner()))
    }

    fn fmt<W: Write>(&self, f: &mut W, style: &M) -> (r: Result<(), Error>) {
        style.apply(f, self)
    }
}

impl<M: Modifier> Format<M> for bool where bool: Format<M::Inner> {
    open spec fn rendering(&self, style: &M) -> Seq<char> {
        style.transformed(<bool as Format<M::Inner>>::rendering(self, &style.inner()))
    }

    fn fmt<W: Write>(&self, f: &mut W, style: &M) -> (r: Result<(), Error>) {
        style.apply(f, self)
    }
}

impl<M: Modifier> Format<M> for char where char: Format<M::Inner> {
    open spec fn rendering(&self, style: &M) -> Seq<char> {
        style.transformed(<char as Format<M::Inner>>::rendering(self, &style.inner()))
    }

    fn fmt<W: Write>(&self, f: &mut W, style: &M) -> (r: Result<(), Error>) {
        style.apply(f, self)
    }
}

impl<M: Modifier> Format<M> for u8 where u8: Format<M::Inner> {
    open spec fn rendering(&self, style: &M) -> Seq<char> {
        style.transformed(<u8 as Format<M::Inner>>::rendering(self, &style.inner()))
    }

    fn fmt<W: Write>(&self, f: &mut W, style: &M) -> (r: Result<(), Error>) {
        style.apply(f, self)
    }
}

impl<M: Modifier> Format<M> for u16 where u16: Format<M::Inner> {
    open spec fn rendering(&self, style: &M) -> Seq<char> {
        style.transformed(<u16 as Format<M::Inner>>::rendering(self, &style.inner()))
    }

    fn fmt<W: Write>(&self, f: &mut W, style: &M) -> (r: Result<(), Error>) {
        style.apply(f, self)
    }
}

impl<M: Modifier> Format<M> for u32 where u32: Format<M::Inner> {
    open spec fn rendering(&self, style: &M) -> Seq<char> {
        style.transformed(<u32 as Format<M::Inner>>::rendering(self, &style.inner()))
    }

    fn fmt<W: Write>(&self, f: &mut W, style: &M) -> (r: Result<(), Error>) {
        style.apply(f, self)
    }
}

impl<M: Modifier> Format<M> for u64 where u64: Format<M::Inner> {
    open spec fn rendering(&self, style: &M) -> Seq<char> {
        style.transformed(<u64 as Format<M::Inner>>::rendering(self, &style.inner()))
    }

    fn fmt<W: Write>(&self, f: &mut W, style: &M) -> (r: Result<(), Error>) {
        style.apply(f, self)
    }
}

impl<M: Modifier> Format<M> for usize where usize: Format<M::Inner> {
    open spec fn rendering(&self, style: &M) -> Seq<char> {
        style.transformed(<usize as Format<M::Inner>>::rendering(self, &style.inner()))
    }

    fn fmt<W: Write>(&self, f: &mut W, style: &M) -> (r: Result<(), Error>) {
        style.apply(f, self)
    }
}

impl<M: Modifier> Format<M> for i8 where i8: Format<M::Inner> {
    open spec fn rendering(&self, style: &M) -> Seq<char> {
        style.transformed(<i8 as Format<M::Inner>>::rendering(self, &style.inner()))
    }

    fn fmt<W: Write>(&self, f: &mut W, style: &M) -> (r: Result<(), Error>) {
        style.apply(f, self)
    }
}

impl<M: Modifier> Format<M> for i16 where i16: Format<M::Inner> {
    open spec fn rendering(&self, style: &M) -> Seq<char> {
        style.transformed(<i16 as Format<M::Inner>>::rendering(self, &style.inner()))
    }

    fn fmt<W: Write>(&self, f: &mut W, style: &M) -> (r: Result<(), Error>) {
        style.apply(f, self)
    }
}

impl<M: Modifier> Format<M> for i32 where i32: Format<M::Inner> {
    open spec fn rendering(&self, style: &M) -> Seq<char> {
        style.transformed(<i32 as Format<M::Inner>>::rendering(self, &style.inner()))
    }

    fn fmt<W: Write>(&self, f: &mut W, style: &M) -> (r: Result<(), Error>) {
        style.apply(f, self)
    }
}

impl<M: Modifier> Format<M> for i64 where i64: Format<M::Inner> {
    open spec fn rendering(&self, style: &M) -> Seq<char> {
        style.transformed(<i64 as Format<M::Inner>>::rendering(self, &style.inner()))
    }

    fn fmt<W: Write>(&self, f: &mut W, style: &M) -> (r: Result<(), Error>) {
        style.apply(f, self)
    }
}

impl<M: Modifier> Format<M> for isize where isize: Format<M::Inner> {
    open spec fn rendering(&self, style: &M) -> Seq<char> {
        style.transformed(<isize as Format<M::Inner>>::rendering(self, &style.inner()))
    }

    fn fmt<W: Write>(&self, f: &mut W, style: &M) -> (r: Result<(), Error>) {
        style.apply(f, self)
    }
}

impl<M: Modifier> Format<M> for String where String: Format<M::Inner> {
    open spec fn rendering(&self, style: &M) -> Seq<char> {
        style.transformed(<String as Format<M::Inner>>::rendering(self, &style.inner()))
    }

    fn fmt<W: Write>(&self, f: &mut W, style: &M) -> (r: Result<(), Error>) {
        style.apply(f, self)
    }
}

impl<'a, M: Modifier> Format<M> for &'a str where &'a str: Format<M::Inner> {
    open spec fn rendering(&self, style: &M) -> Seq<char> {
        style.transformed(<&'a str as Format<M::Inner>>::rendering(self, &style.inner()))
    }

    fn fmt<W: Write>(&self, f: &mut W, style: &M) -> (r: Result<(), Error>) {
        style.apply(f, self)
    }
}

impl<T, M: Modifier> Format<M> for Vec<T> where Vec<T>: Format<M::Inner> {
    open spec fn rendering(&self, style: &M) -> Seq<char> {
        style.transformed(<Vec<T> as Format<M::Inner>>::rendering(self, &style.inner()))
    }

    fn fmt<W: Write>(&self, f: &mut W, style: &M) -> (r: Result<(), Error>) {
        style.apply(f, self)
    }
}

impl<T, const N: usize, M: Modifier> Format<M> for [T; N] where [T; N]: Format<M::Inner> {
    open spec fn rendering(&self, style: &M) -> Seq<char> {
        style.transformed(<[T; N] as Format<M::Inner>>::rendering(self, &style.inner()))
    }

    fn fmt<W: Write>(&self, f: &mut W, style: &M) -> (r: Result<(), Error>) {
        style.apply(f, self)
    }
}

impl<T, M: Modifier> Format<M> for Option<T> where Option<T>: Format<M::Inner> {
    open spec fn rendering(&self, style: &M) -> Seq<char> {
        style.transformed(<Option<T> as Format<M::Inner>>::rendering(self, &style.inner()))
    }

    fn fmt<W: Write>(&self, f: &mut W, style: &M) -> (r: Result<(), Error>) {
        style.apply(f, self)
    }
}

impl<T, E, M: Modifier> Format<M> for Result<T, E> where Result<T, E>: Format<M::Inner> {
    open spec fn rendering(&self, style: &M) -> Seq<char> {
        style.transformed(<Result<T, E> as Format<M::Inner>>::rendering(self, &style.inner()))
    }

    fn fmt<W: Write>(&self, f: &mut W, style: &M) -> (r: Result<(), Error>) {
        style.apply(f, self)
    }
}

impl<'a, M: Modifier> Format<M> for VarData<'a> where VarData<'a>: Format<M::Inner> {
    open spec fn rendering(&self, style: &M) -> Seq<char> {
        style.transformed(<VarData<'a> as Format<M::Inner>>::rendering(self, &style.inner()))
    }

    fn fmt<W: Write>(&self, f: &mut W, style: &M) -> (r: Result<(), Error>) {
        style.apply(f, self)
    }
}

impl<'a, M: Modifier> Format<M> for Arguments<'a> where Arguments<'a>: Format<M::Inner> {
    open spec fn rendering(&self, style: &M) -> Seq<char> {
        style.transformed(<Arguments<'a> as Format<M::Inner>>::rendering(self, &style.inner()))
    }

    fn fmt<W: Write>(&self, f: &mut W, style: &M) -> (r: Result<(), Error>) {
        style.apply(f, self)
    }
}

} // verus!
