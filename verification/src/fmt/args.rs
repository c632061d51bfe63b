//! A type-erased, ordered list of (value, style) pairs rendered sequentially
//! into one sink, without heap allocation and with one dispatch per entry.
//!
//! A [`Var`] is a closed pair of tagged value and tagged style, so the
//! "value and style belong together" invariant holds by construction.

use vstd::prelude::*;

use crate::fmt::impls::{write_dbg_char, write_str_quoted};
use crate::fmt::num::{write_int_radix_u64, write_radix_u64};
use crate::fmt::repr::{
    bool_rep, char_rep, dec_rep, grew_by_prefix, int_radix_rep, lemma_grew_by_prefix_mid,
    lemma_grew_by_prefix_zero, measured_width, pad_deficit, pad_rep, radix_rep, str_rep,
};
use crate::fmt::{Display, Error, Format, Modifier, Pad, Style, Write};

verus! {

/// A formattable value captured in an argument list: a plain borrowed or
/// scalar value.
#[derive(Clone, Copy)]
pub enum VarData<'a> {
    /// A borrowed string.
    Str(&'a str),
    /// A character.
    Ch(char),
    /// A boolean.
    Bool(bool),
    /// An unsigned integer, at the widest supported width.
    UInt(u64),
    /// A signed integer, at the widest supported width.
    Int(i64),
}

/// A leaf style captured in an argument list.
#[derive(Clone, Copy)]
pub enum LeafStyle {
    /// Render under [`Display`].
    Display,
    /// Render under [`Debug`](crate::fmt::Debug).
    Debug,
    /// Render under [`Pretty`](crate::fmt::Pretty) at the given depth.
    Pretty(usize),
    /// Render under [`Hex`](crate::fmt::Hex) with the given uppercase flag.
    Hex(bool),
    /// Render under [`Binary`](crate::fmt::Binary).
    Binary,
}

impl Style for LeafStyle {}

/// A style captured in an argument list: a leaf style, or a leaf style
/// wrapped in padding.
#[derive(Clone, Copy)]
pub enum VarStyle {
    /// A bare leaf style.
    Leaf(LeafStyle),
    /// A padded leaf style.
    Padded(Pad<LeafStyle>),
}

/// The text a captured value renders as under a captured leaf style.
///
/// A pairing outside the supported table (a string under `Hex`, say, which
/// the statically-typed `Format` implementations rule out at compile time)
/// renders as empty text.
pub open spec fn leaf_rendering(d: VarData<'_>, s: LeafStyle) -> Seq<char> {
    match d {
        VarData::Str(x) => match s {
            LeafStyle::Display => x@,
            LeafStyle::Debug => str_rep(x@),
            LeafStyle::Pretty(_) => str_rep(x@),
            _ => Seq::<char>::empty(),
        },
        VarData::Ch(c) => match s {
            LeafStyle::Display => seq![c],
            LeafStyle::Debug => char_rep(c),
            LeafStyle::Pretty(_) => char_rep(c),
            _ => Seq::<char>::empty(),
        },
        VarData::Bool(b) => match s {
            LeafStyle::Debug => bool_rep(b),
            LeafStyle::Pretty(_) => bool_rep(b),
            _ => Seq::<char>::empty(),
        },
        VarData::UInt(u) => match s {
            LeafStyle::Display => dec_rep(u as int),
            LeafStyle::Debug => dec_rep(u as int),
            LeafStyle::Pretty(_) => dec_rep(u as int),
            LeafStyle::Hex(up) => int_radix_rep(u as int, 16, up),
            LeafStyle::Binary => radix_rep(u as nat, 2, false),
        },
        VarData::Int(i) => match s {
            LeafStyle::Display => dec_rep(i as int),
            LeafStyle::Debug => dec_rep(i as int),
            LeafStyle::Pretty(_) => dec_rep(i as int),
            LeafStyle::Hex(up) => int_radix_rep(i as int, 16, up),
            LeafStyle::Binary => radix_rep((i as u64) as nat, 2, false),
        },
    }
}

/// The text a captured value renders as under a captured style.
pub open spec fn var_style_rendering(d: VarData<'_>, s: VarStyle) -> Seq<char> {
    match s {
        VarStyle::Leaf(l) => leaf_rendering(d, l),
        VarStyle::Padded(p) => pad_rep(
            p.align,
            p.with,
            pad_deficit(p.kind, p.count as nat, measured_width(leaf_rendering(d, p.style).len())),
            leaf_rendering(d, p.style),
        ),
    }
}

impl<'a> Format<LeafStyle> for VarData<'a> {
    open spec fn rendering(&self, style: &LeafStyle) -> Seq<char> {
        leaf_rendering(*self, *style)
    }

    fn fmt<W: Write>(&self, f: &mut W, style: &LeafStyle) -> (r: Result<(), Error>) {
        match self {
            VarData::Str(x) => match style {
                LeafStyle::Display => {
                    let r = f.write_str(x);
                    proof {
                        if r is Err {
                            lemma_grew_by_prefix_zero(old(f).content(), x@);
                        }
                    }
                    r
                },
                LeafStyle::Debug => write_str_quoted(f, x),
                LeafStyle::Pretty(_) => write_str_quoted(f, x),
                _ => Ok(()),
            },
            VarData::Ch(c) => match style {
                LeafStyle::Display => {
                    let r = f.write_char(*c);
                    proof {
                        if r is Err {
                            lemma_grew_by_prefix_zero(old(f).content(), seq![*c]);
                        }
                    }
                    r
                },
                LeafStyle::Debug => write_quoted_char(f, *c),
                LeafStyle::Pretty(_) => write_quoted_char(f, *c),
                _ => Ok(()),
            },
            VarData::Bool(b) => match style {
                LeafStyle::Debug => {
                    let r = if *b {
                        f.write_str("true")
                    } else {
                        f.write_str("false")
                    };
                    proof {
                        if r is Err {
                            lemma_grew_by_prefix_zero(old(f).content(), bool_rep(*b));
                        }
                    }
                    r
                },
                LeafStyle::Pretty(_) => {
                    let r = if *b {
                        f.write_str("true")
                    } else {
                        f.write_str("false")
                    };
                    proof {
                        if r is Err {
                            lemma_grew_by_prefix_zero(old(f).content(), bool_rep(*b));
                        }
                    }
                    r
                },
                _ => Ok(()),
            },
            VarData::UInt(u) => match style {
                LeafStyle::Hex(up) => write_int_radix_u64(f, false, *u, 16, *up),
                LeafStyle::Binary => write_radix_u64(f, *u, 2, false),
                _ => write_int_radix_u64(f, false, *u, 10, false),
            },
            VarData::Int(i) => match style {
                LeafStyle::Hex(up) => {
                    let neg = *i < 0;
                    let mag = crate::fmt::num::i64_mag(*i);
                    write_int_radix_u64(f, neg, mag, 16, *up)
                },
                LeafStyle::Binary => {
                    let bits = #[verifier::truncate] (*i as u64);
                    write_radix_u64(f, bits, 2, false)
                },
                _ => {
                    let neg = *i < 0;
                    let mag = crate::fmt::num::i64_mag(*i);
                    write_int_radix_u64(f, neg, mag, 10, false)
                },
            },
        }
    }
}

/// Write a character in single quotes with its `Debug` escape.
fn write_quoted_char<W: Write>(f: &mut W, c: char) -> (r: Result<(), Error>)
    ensures
        final(f).infallible() == old(f).infallible(),
        r is Ok ==> final(f).content() == old(f).content() + char_rep(c),
        r is Err ==> grew_by_prefix(old(f).content(), final(f).content(), char_rep(c)),
        old(f).infallible() ==> r is Ok,
{
    let ghost rep = char_rep(c);
    match f.write_char('\'') {
        Ok(()) => (),
        Err(e) => {
            proof {
                lemma_grew_by_prefix_zero(old(f).content(), rep);
            }
            return Err(e);
        },
    }
    let ghost pre1 = f.content();
    match write_dbg_char(f, c) {
        Ok(()) => (),
        Err(e) => {
            proof {
                assert(pre1 =~= old(f).content() + (seq!['\'']));
                assert(rep =~= (seq!['\'']) + crate::fmt::repr::dbg_char_rep(c) + (seq!['\'']));
                lemma_grew_by_prefix_mid(
                    old(f).content(),
                    f.content(),
                    seq!['\''],
                    crate::fmt::repr::dbg_char_rep(c),
                    seq!['\''],
                    rep,
                );
            }
            return Err(e);
        },
    }
    let ghost pre2 = f.content();
    match f.write_char('\'') {
        Ok(()) => (),
        Err(e) => {
            proof {
                assert(pre2 =~= old(f).content() + (seq!['\''] + crate::fmt::repr::dbg_char_rep(
                    c,
                )));
                lemma_grew_by_prefix_zero(pre2, seq!['\'']);
                assert(rep =~= (seq!['\''] + crate::fmt::repr::dbg_char_rep(c)) + seq!['\'']
                    + Seq::<char>::empty());
                lemma_grew_by_prefix_mid(
                    old(f).content(),
                    f.content(),
                    seq!['\''] + crate::fmt::repr::dbg_char_rep(c),
                    seq!['\''],
                    Seq::<char>::empty(),
                    rep,
                );
            }
            return Err(e);
        },
    }
    proof {
        assert(f.content() =~= old(f).content() + char_rep(c));
    }
    Ok(())
}

/// One entry of an argument list: a captured value paired with the style to
/// render it under.
///
/// The pairing is fixed at construction by [`Var::new`]; format using
/// [`Var::call`].
#[derive(Clone, Copy)]
pub struct Var<'a> {
    data: VarData<'a>,
    style: VarStyle,
}

impl<'a> Var<'a> {
    /// The text this entry renders as.
    pub closed spec fn rendering(&self) -> Seq<char> {
        var_style_rendering(self.data, self.style)
    }

    /// Create a new `Var` wrapping `data` and `style`.
    pub fn new(data: VarData<'a>, style: VarStyle) -> (r: Var<'a>)
        ensures
            r.rendering() == var_style_rendering(data, style),
    {
        Var { data, style }
    }

    /// Render the captured value under the captured style.
    pub fn call<W: Write>(&self, f: &mut W) -> (r: Result<(), Error>)
        ensures
            final(f).infallible() == old(f).infallible(),
            r is Ok ==> final(f).content() == old(f).content() + self.rendering(),
            r is Err ==> grew_by_prefix(old(f).content(), final(f).content(), self.rendering()),
            old(f).infallible() ==> r is Ok,
    {
        match &self.style {
            VarStyle::Leaf(l) => self.data.fmt(f, l),
            VarStyle::Padded(p) => p.apply(f, &self.data),
        }
    }
}

/// The concatenation of the renderings of a sequence of entries.
pub open spec fn vars_rendering<'a>(vs: Seq<Var<'a>>) -> Seq<char>
    decreases vs.len(),
{
    if vs.len() == 0 {
        Seq::<char>::empty()
    } else {
        vs[0].rendering() + vars_rendering(vs.skip(1))
    }
}

/// Appending an entry appends its rendering.
pub proof fn lemma_vars_rendering_push<'a>(vs: Seq<Var<'a>>, v: Var<'a>)
    ensures
        vars_rendering(vs.push(v)) == vars_rendering(vs) + v.rendering(),
    decreases vs.len(),
{
    if vs.len() == 0 {
        assert(vs.push(v)[0] == v);
        assert(vs.push(v).skip(1) =~= Seq::<Var<'a>>::empty());
        assert(vars_rendering(vs.push(v).skip(1)) == Seq::<char>::empty());
        assert(vars_rendering(vs.push(v)) =~= vars_rendering(vs) + v.rendering());
    } else {
        assert(vs.push(v)[0] == vs[0]);
        assert(vs.push(v).skip(1) =~= vs.skip(1).push(v));
        lemma_vars_rendering_push(vs.skip(1), v);
        assert(vars_rendering(vs.push(v).skip(1)) == vars_rendering(vs.skip(1)) + v.rendering());
        assert(vars_rendering(vs) == vs[0].rendering() + vars_rendering(vs.skip(1)));
        vstd::seq_lib::lemma_concat_associative(
            vs[0].rendering(),
            vars_rendering(vs.skip(1)),
            v.rendering(),
        );
        assert(vars_rendering(vs.push(v)) == vars_rendering(vs) + v.rendering());
    }
}

/// The concatenated renderings split at any boundary.
pub proof fn lemma_vars_rendering_split<'a>(vs: Seq<Var<'a>>, i: int)
    requires
        0 <= i <= vs.len(),
    ensures
        vars_rendering(vs) == vars_rendering(vs.take(i)) + vars_rendering(vs.skip(i)),
    decreases i,
{
    if i == 0 {
        assert(vs.take(0) =~= Seq::<Var<'a>>::empty());
        assert(vs.skip(0) =~= vs);
        assert(vars_rendering(vs.take(0)) == Seq::<char>::empty());
        assert(Seq::<char>::empty() + vars_rendering(vs) =~= vars_rendering(vs));
    } else {
        lemma_vars_rendering_split(vs.skip(1), i - 1);
        assert(vs.skip(1).take(i - 1) =~= vs.take(i).skip(1));
        assert(vs.skip(1).skip(i - 1) =~= vs.skip(i));
        assert(vars_rendering(vs) == vs[0].rendering() + vars_rendering(vs.skip(1)));
        assert(vs.take(i)[0] == vs[0]);
        assert(vars_rendering(vs.take(i)) == vs[0].rendering() + vars_rendering(
            vs.take(i).skip(1),
        ));
        assert(vs[0].rendering() + (vars_rendering(vs.take(i).skip(1)) + vars_rendering(
            vs.skip(i),
        )) =~= (vs[0].rendering() + vars_rendering(vs.take(i).skip(1))) + vars_rendering(
            vs.skip(i),
        ));
    }
}

/// A list of [`Var`]s, rendered in order into one sink.
pub struct Arguments<'a>(pub &'a [Var<'a>]);

impl<'a> Arguments<'a> {
    /// The text the whole list renders as: each entry's rendering, in
    /// order.
    pub open spec fn rendering(&self) -> Seq<char> {
        vars_rendering(self.0@)
    }

    /// Format each entry into the sink sequentially, stopping at the first
    /// error; on failure the sink holds at most a prefix of the full
    /// rendering.
    pub fn write<W: Write>(&self, f: &mut W) -> (r: Result<(), Error>)
        ensures
            final(f).infallible() == old(f).infallible(),
            r is Ok ==> final(f).content() == old(f).content() + self.rendering(),
            r is Err ==> grew_by_prefix(old(f).content(), final(f).content(), self.rendering()),
            old(f).infallible() ==> r is Ok,
    {
        let ghost vs = self.0@;
        let ghost whole = vars_rendering(vs);
        let n = self.0.len();
        let mut i: usize = 0;
        while i < n
            invariant
                i <= n,
                n == vs.len(),
                vs == self.0@,
                whole == vars_rendering(vs),
                f.infallible() == old(f).infallible(),
                f.content() == old(f).content() + vars_rendering(vs.take(i as int)),
            decreases n - i,
        {
            let v = &self.0[i];
            let ghost prei = f.content();
            match v.call(f) {
                Ok(()) => (),
                Err(e) => {
                    proof {
                        lemma_vars_rendering_split(vs, i as int);
                        assert(vs.skip(i as int)[0] == vs[i as int]);
                        assert(vs.skip(i as int).skip(1) =~= vs.skip(i + 1));
                        assert(vars_rendering(vs.skip(i as int)) == vs[i as int].rendering()
                            + vars_rendering(vs.skip(i + 1)));
                        assert(prei =~= old(f).content() + vars_rendering(vs.take(i as int)));
                        assert(whole =~= vars_rendering(vs.take(i as int)) + vs[
                            i as int
                        ].rendering() + vars_rendering(vs.skip(i + 1)));
                        lemma_grew_by_prefix_mid(
                            old(f).content(),
                            f.content(),
                            vars_rendering(vs.take(i as int)),
                            vs[i as int].rendering(),
                            vars_rendering(vs.skip(i + 1)),
                            whole,
                        );
                    }
                    return Err(e);
                },
            }
            proof {
                assert(vs.take(i + 1) =~= vs.take(i as int).push(vs[i as int]));
                lemma_vars_rendering_push(vs.take(i as int), vs[i as int]);
                assert(f.content() =~= old(f).content() + vars_rendering(vs.take(i + 1)));
            }
            i = i + 1;
        }
        proof {
            assert(vs.take(n as int) =~= vs);
        }
        Ok(())
    }
}

impl<'a> Format<Display> for Arguments<'a> {
    open spec fn rendering(&self, style: &Display) -> Seq<char> {
        self.rendering()
    }

    fn fmt<W: Write>(&self, f: &mut W, style: &Display) -> (r: Result<(), Error>) {
        self.write(f)
    }
}

/// Render a whole argument list to a fresh `String`; writing to a string
/// cannot fail.
pub fn _format(args: Arguments<'_>) -> (r: String)
    ensures
        r@ == args.rendering(),
{
    let mut s = String::new();
    let res = args.write(&mut s);
    proof {
        assert(res is Ok);
    }
    s
}

} // verus!
