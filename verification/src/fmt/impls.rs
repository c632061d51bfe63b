//! `Format` implementations for the primitive and standard types: unit,
//! strings, characters, booleans, vectors and arrays.

use vstd::prelude::*;
use vstd::string::StrSliceExecFns;

use crate::fmt::debug::write_sep;
use crate::fmt::num::write_radix_u64;
use crate::fmt::pretty::write_newline_indent;
use crate::fmt::repr::{
    bool_rep, char_rep, dbg_char_rep, dbg_tuple_rep, grew_by_prefix, lemma_grew_by_prefix_mid,
    lemma_grew_by_prefix_zero, lemma_pretty_items_split, lemma_pretty_items_rep_push,
    lemma_sep_concat_head, lemma_sep_concat_push, lemma_sep_concat_split, lemma_str_body_rep_push,
    lemma_str_body_rep_split, newline_indent, pretty_item_rep,
    pretty_items_rep, radix_rep, sep_concat, sep_cont, sep_rep, str_body_rep, str_char_rep, str_rep,
};
use crate::fmt::{Display, Error, Format, Pretty, Write};

verus! {

/// Write a backslash and one following escape character.
fn write_esc_pair<W: Write>(f: &mut W, second: char) -> (r: Result<(), Error>)
    ensures
        final(f).infallible() == old(f).infallible(),
        r is Ok ==> final(f).content() == old(f).content() + seq!['\\', second],
        r is Err ==> grew_by_prefix(old(f).content(), final(f).content(), seq!['\\', second]),
        old(f).infallible() ==> r is Ok,
{
    match f.write_char('\\') {
        Ok(()) => (),
        Err(e) => {
            proof {
                lemma_grew_by_prefix_zero(old(f).content(), seq!['\\', second]);
            }
            return Err(e);
        },
    }
    match f.write_char(second) {
        Ok(()) => (),
        Err(e) => {
            proof {
                assert(seq!['\\', second].take(1) =~= seq!['\\']);
                assert(f.content() == old(f).content() + seq!['\\', second].take(1));
                assert(grew_by_prefix(old(f).content(), f.content(), seq!['\\', second]));
            }
            return Err(e);
        },
    }
    proof {
        assert(f.content() =~= old(f).content() + seq!['\\', second]);
    }
    Ok(())
}


/// Write the escape of one character as it stands inside a `Debug`-rendered
/// char literal.
pub(crate) fn write_dbg_char<W: Write>(f: &mut W, ch: char) -> (r: Result<(), Error>)
    ensures
        final(f).infallible() == old(f).infallible(),
        r is Ok ==> final(f).content() == old(f).content() + dbg_char_rep(ch),
        r is Err ==> grew_by_prefix(old(f).content(), final(f).content(), dbg_char_rep(ch)),
        old(f).infallible() ==> r is Ok,
{
    if ch == '\'' {
        write_esc_pair(f, '\'')
    } else if ch == '\0' {
        write_esc_pair(f, '0')
    } else if ch == '\n' {
        write_esc_pair(f, 'n')
    } else if ch == '\t' {
        write_esc_pair(f, 't')
    } else {
        let code: u32 = ch as u32;
        if code < 0x20 || (0x7f <= code && code <= 0x9f) {
            let ghost rep = dbg_char_rep(ch);
            proof {
                assert(code as nat == ch as nat);
                assert(rep =~= seq!['\\'] + seq!['u'] + seq!['{'] + radix_rep(
                    ch as nat,
                    16,
                    false,
                ) + seq!['}']);
            }
            match f.write_char('\\') {
                Ok(()) => (),
                Err(e) => {
                    proof {
                        lemma_grew_by_prefix_zero(old(f).content(), rep);
                    }
                    return Err(e);
                },
            }
            let ghost pre1 = f.content();
            match f.write_char('u') {
                Ok(()) => (),
                Err(e) => {
                    proof {
                        assert(pre1 =~= old(f).content() + (seq!['\\']));
                        lemma_grew_by_prefix_zero(pre1, seq!['u']);
                        assert(rep =~= (seq!['\\']) + seq!['u'] + (seq!['{'] + radix_rep(ch as nat, 16, false) + seq!['}']));
                        lemma_grew_by_prefix_mid(
                            old(f).content(),
                            f.content(),
                            seq!['\\'],
                            seq!['u'],
                            seq!['{'] + radix_rep(ch as nat, 16, false) + seq!['}'],
                            rep,
                        );
                    }
                    return Err(e);
                },
            }
            let ghost pre2 = f.content();
            match f.write_char('{') {
                Ok(()) => (),
                Err(e) => {
                    proof {
                        assert(pre2 =~= old(f).content() + (seq!['\\'] + seq!['u']));
                        lemma_grew_by_prefix_zero(pre2, seq!['{']);
                        assert(rep =~= (seq!['\\'] + seq!['u']) + seq!['{'] + (radix_rep(ch as nat, 16, false) + seq!['}']));
                        lemma_grew_by_prefix_mid(
                            old(f).content(),
                            f.content(),
                            seq!['\\'] + seq!['u'],
                            seq!['{'],
                            radix_rep(ch as nat, 16, false) + seq!['}'],
                            rep,
                        );
                    }
                    return Err(e);
                },
            }
            let ghost pre3 = f.content();
            match write_radix_u64(f, code as u64, 16, false) {
                Ok(()) => (),
                Err(e) => {
                    proof {
                        assert(pre3 =~= old(f).content() + (seq!['\\'] + seq!['u'] + seq!['{']));
                        assert(rep =~= (seq!['\\'] + seq!['u'] + seq!['{']) + radix_rep(ch as nat, 16, false) + (seq!['}']));
                        lemma_grew_by_prefix_mid(
                            old(f).content(),
                            f.content(),
                            seq!['\\'] + seq!['u'] + seq!['{'],
                            radix_rep(ch as nat, 16, false),
                            seq!['}'],
                            rep,
                        );
                    }
                    return Err(e);
                },
            }
            let ghost pre4 = f.content();
            match f.write_char('}') {
                Ok(()) => (),
                Err(e) => {
                    proof {
                        assert(pre4 =~= old(f).content() + (seq!['\\'] + seq!['u'] + seq!['{'] + radix_rep(ch as nat, 16, false)));
                        lemma_grew_by_prefix_zero(pre4, seq!['}']);
                        assert(rep =~= (seq!['\\'] + seq!['u'] + seq!['{'] + radix_rep(ch as nat, 16, false)) + seq!['}'] + (Seq::<char>::empty()));
                        lemma_grew_by_prefix_mid(
                            old(f).content(),
                            f.content(),
                            seq!['\\'] + seq!['u'] + seq!['{'] + radix_rep(ch as nat, 16, false),
                            seq!['}'],
                            Seq::<char>::empty(),
                            rep,
                        );
                    }
                    return Err(e);
                },
            }
            proof {
                assert(f.content() =~= old(f).content() + rep);
            }
            Ok(())
        } else {
            let r = f.write_char(ch);
            proof {
                if r is Err {
                    lemma_grew_by_prefix_zero(old(f).content(), dbg_char_rep(ch));
                }
            }
            r
        }
    }
}

/// Write the escape of one character as it stands inside a `Debug`-rendered
/// string literal: as in a char literal, plus an escaped double quote.
pub(crate) fn write_str_char<W: Write>(f: &mut W, ch: char) -> (r: Result<(), Error>)
    ensures
        final(f).infallible() == old(f).infallible(),
        r is Ok ==> final(f).content() == old(f).content() + str_char_rep(ch),
        r is Err ==> grew_by_prefix(old(f).content(), final(f).content(), str_char_rep(ch)),
        old(f).infallible() ==> r is Ok,
{
    if ch == '"' {
        write_esc_pair(f, '"')
    } else {
        write_dbg_char(f, ch)
    }
}

/// Write a string as a quoted, escaped `Debug` literal.
pub(crate) fn write_str_quoted<W: Write>(f: &mut W, s: &str) -> (r: Result<(), Error>)
    ensures
        final(f).infallible() == old(f).infallible(),
        r is Ok ==> final(f).content() == old(f).content() + str_rep(s@),
        r is Err ==> grew_by_prefix(old(f).content(), final(f).content(), str_rep(s@)),
        old(f).infallible() ==> r is Ok,
{
    match f.write_char('"') {
        Ok(()) => (),
        Err(e) => {
            proof {
                lemma_grew_by_prefix_zero(old(f).content(), str_rep(s@));
            }
            return Err(e);
        },
    }
    let n = s.unicode_len();
    let mut i: usize = 0;
    while i < n
        invariant
            n == s@.len(),
            i <= n,
            f.infallible() == old(f).infallible(),
            f.content() == old(f).content() + seq!['"'] + str_body_rep(s@.take(i as int)),
        decreases n - i,
    {
        let c = s.get_char(i);
        let ghost prei = f.content();
        match write_str_char(f, c) {
            Ok(()) => (),
            Err(e) => {
                proof {
                    lemma_str_body_rep_split(s@, i as int);
                    assert(prei =~= old(f).content() + (seq!['"'] + str_body_rep(
                        s@.take(i as int),
                    )));
                    assert(str_rep(s@) =~= (seq!['"'] + str_body_rep(s@.take(i as int)))
                        + str_char_rep(s@[i as int]) + (str_body_rep(s@.skip(i + 1)) + seq!['"']));
                    lemma_grew_by_prefix_mid(
                        old(f).content(),
                        f.content(),
                        seq!['"'] + str_body_rep(s@.take(i as int)),
                        str_char_rep(s@[i as int]),
                        str_body_rep(s@.skip(i + 1)) + seq!['"'],
                        str_rep(s@),
                    );
                }
                return Err(e);
            },
        }
        proof {
            assert(s@.take(i + 1) =~= s@.take(i as int).push(s@[i as int]));
            lemma_str_body_rep_push(s@.take(i as int), s@[i as int]);
            assert(f.content() =~= old(f).content() + seq!['"'] + str_body_rep(
                s@.take(i + 1),
            ));
        }
        i = i + 1;
    }
    let ghost preq = f.content();
    match f.write_char('"') {
        Ok(()) => (),
        Err(e) => {
            proof {
                assert(s@.take(n as int) =~= s@);
                assert(preq =~= old(f).content() + (seq!['"'] + str_body_rep(s@)));
                lemma_grew_by_prefix_zero(preq, seq!['"']);
                assert(str_rep(s@) =~= (seq!['"'] + str_body_rep(s@)) + seq!['"']
                    + Seq::<char>::empty());
                lemma_grew_by_prefix_mid(
                    old(f).content(),
                    f.content(),
                    seq!['"'] + str_body_rep(s@),
                    seq!['"'],
                    Seq::<char>::empty(),
                    str_rep(s@),
                );
            }
            return Err(e);
        },
    }
    proof {
        assert(s@.take(n as int) =~= s@);
        assert(f.content() =~= old(f).content() + str_rep(s@));
    }
    Ok(())
}

impl Format<crate::fmt::Debug> for () {
    open spec fn rendering(&self, style: &crate::fmt::Debug) -> Seq<char> {
        seq!['(', ')']
    }

    fn fmt<W: Write>(&self, f: &mut W, style: &crate::fmt::Debug) -> (r: Result<(), Error>) {
        let ghost rep = seq!['(', ')'];
        proof {
            assert(rep =~= seq!['('] + seq![')']);
        }
        match f.write_char('(') {
            Ok(()) => (),
            Err(e) => {
                proof {
                    lemma_grew_by_prefix_zero(old(f).content(), rep);
                }
                return Err(e);
            },
        }
        let ghost pre1 = f.content();
        match f.write_char(')') {
            Ok(()) => (),
            Err(e) => {
                proof {
                    assert(pre1 =~= old(f).content() + (seq!['(']));
                    lemma_grew_by_prefix_zero(pre1, seq![')']);
                    assert(rep =~= (seq!['(']) + seq![')'] + (Seq::<char>::empty()));
                    lemma_grew_by_prefix_mid(
                        old(f).content(),
                        f.content(),
                        seq!['('],
                        seq![')'],
                        Seq::<char>::empty(),
                        rep,
                    );
                }
                return Err(e);
            },
        }
        proof {
            assert(f.content() =~= old(f).content() + rep);
        }
        Ok(())
    }
}


impl<'a> Format<crate::fmt::Debug> for &'a str {
    open spec fn rendering(&self, style: &crate::fmt::Debug) -> Seq<char> {
        str_rep(self@)
    }

    fn fmt<W: Write>(&self, f: &mut W, style: &crate::fmt::Debug) -> (r: Result<(), Error>) {
        write_str_quoted(f, self)
    }
}

impl<'a> Format<Display> for &'a str {
    open spec fn rendering(&self, style: &Display) -> Seq<char> {
        self@
    }

    fn fmt<W: Write>(&self, f: &mut W, style: &Display) -> (r: Result<(), Error>) {
        let r = f.write_str(self);
        proof {
            if r is Err {
                lemma_grew_by_prefix_zero(old(f).content(), self@);
            }
        }
        r
    }
}

impl<'a> Format<Pretty> for &'a str {
    open spec fn rendering(&self, style: &Pretty) -> Seq<char> {
        str_rep(self@)
    }

    fn fmt<W: Write>(&self, f: &mut W, style: &Pretty) -> (r: Result<(), Error>) {
        write_str_quoted(f, self)
    }
}


impl Format<crate::fmt::Debug> for String {
    open spec fn rendering(&self, style: &crate::fmt::Debug) -> Seq<char> {
        str_rep(self@)
    }

    fn fmt<W: Write>(&self, f: &mut W, style: &crate::fmt::Debug) -> (r: Result<(), Error>) {
        write_str_quoted(f, self.as_str())
    }
}

impl Format<Display> for String {
    open spec fn rendering(&self, style: &Display) -> Seq<char> {
        self@
    }

    fn fmt<W: Write>(&self, f: &mut W, style: &Display) -> (r: Result<(), Error>) {
        let r = f.write_str(self.as_str());
        proof {
            if r is Err {
                lemma_grew_by_prefix_zero(old(f).content(), self@);
            }
        }
        r
    }
}

impl Format<Pretty> for String {
    open spec fn rendering(&self, style: &Pretty) -> Seq<char> {
        str_rep(self@)
    }

    fn fmt<W: Write>(&self, f: &mut W, style: &Pretty) -> (r: Result<(), Error>) {
        write_str_quoted(f, self.as_str())
    }
}


impl Format<crate::fmt::Debug> for char {
    open spec fn rendering(&self, style: &crate::fmt::Debug) -> Seq<char> {
        char_rep(*self)
    }

    fn fmt<W: Write>(&self, f: &mut W, style: &crate::fmt::Debug) -> (r: Result<(), Error>) {
        let ghost rep = char_rep(*self);
        match f.write_char('\'') {
            Ok(()) => (),
            Err(e) => {
                proof {
                    lemma_grew_by_prefix_zero(old(f).content(), rep);
                }
                return Err(e);
            },
        }
        let ghost pre1 = f.content();
        match write_dbg_char(f, *self) {
            Ok(()) => (),
            Err(e) => {
                proof {
                    assert(pre1 =~= old(f).content() + (seq!['\'']));
                    assert(rep =~= (seq!['\'']) + dbg_char_rep(*self) + (seq!['\'']));
                    lemma_grew_by_prefix_mid(
                        old(f).content(),
                        f.content(),
                        seq!['\''],
                        dbg_char_rep(*self),
                        seq!['\''],
                        rep,
                    );
                }
                return Err(e);
            },
        }
        let ghost pre2 = f.content();
        match f.write_char('\'') {
            Ok(()) => (),
            Err(e) => {
                proof {
                    assert(pre2 =~= old(f).content() + (seq!['\''] + dbg_char_rep(*self)));
                    lemma_grew_by_prefix_zero(pre2, seq!['\'']);
                    assert(rep =~= (seq!['\''] + dbg_char_rep(*self)) + seq!['\''] + (Seq::<char>::empty()));
                    lemma_grew_by_prefix_mid(
                        old(f).content(),
                        f.content(),
                        seq!['\''] + dbg_char_rep(*self),
                        seq!['\''],
                        Seq::<char>::empty(),
                        rep,
                    );
                }
                return Err(e);
            },
        }
        proof {
            assert(f.content() =~= old(f).content() + rep);
        }
        Ok(())
    }
}


impl Format<Pretty> for char {
    open spec fn rendering(&self, style: &Pretty) -> Seq<char> {
        char_rep(*self)
    }

    fn fmt<W: Write>(&self, f: &mut W, style: &Pretty) -> (r: Result<(), Error>) {
        let ghost rep = char_rep(*self);
        match f.write_char('\'') {
            Ok(()) => (),
            Err(e) => {
                proof {
                    lemma_grew_by_prefix_zero(old(f).content(), rep);
                }
                return Err(e);
            },
        }
        let ghost pre1 = f.content();
        match write_dbg_char(f, *self) {
            Ok(()) => (),
            Err(e) => {
                proof {
                    assert(pre1 =~= old(f).content() + (seq!['\'']));
                    assert(rep =~= (seq!['\'']) + dbg_char_rep(*self) + (seq!['\'']));
                    lemma_grew_by_prefix_mid(
                        old(f).content(),
                        f.content(),
                        seq!['\''],
                        dbg_char_rep(*self),
                        seq!['\''],
                        rep,
                    );
                }
                return Err(e);
            },
        }
        let ghost pre2 = f.content();
        match f.write_char('\'') {
            Ok(()) => (),
            Err(e) => {
                proof {
                    assert(pre2 =~= old(f).content() + (seq!['\''] + dbg_char_rep(*self)));
                    lemma_grew_by_prefix_zero(pre2, seq!['\'']);
                    assert(rep =~= (seq!['\''] + dbg_char_rep(*self)) + seq!['\''] + (Seq::<char>::empty()));
                    lemma_grew_by_prefix_mid(
                        old(f).content(),
                        f.content(),
                        seq!['\''] + dbg_char_rep(*self),
                        seq!['\''],
                        Seq::<char>::empty(),
                        rep,
                    );
                }
                return Err(e);
            },
        }
        proof {
            assert(f.content() =~= old(f).content() + rep);
        }
        Ok(())
    }
}


impl Format<Display> for char {
    open spec fn rendering(&self, style: &Display) -> Seq<char> {
        seq![*self]
    }

    fn fmt<W: Write>(&self, f: &mut W, style: &Display) -> (r: Result<(), Error>) {
        let r = f.write_char(*self);
        proof {
            if r is Err {
                lemma_grew_by_prefix_zero(old(f).content(), seq![*self]);
            }
        }
        r
    }
}


impl Format<crate::fmt::Debug> for bool {
    open spec fn rendering(&self, style: &crate::fmt::Debug) -> Seq<char> {
        bool_rep(*self)
    }

    fn fmt<W: Write>(&self, f: &mut W, style: &crate::fmt::Debug) -> (r: Result<(), Error>) {
        if *self {
            let r = f.write_str("true");
            proof {
                if r is Err {
                    lemma_grew_by_prefix_zero(old(f).content(), bool_rep(*self));
                }
            }
            r
        } else {
            let r = f.write_str("false");
            proof {
                if r is Err {
                    lemma_grew_by_prefix_zero(old(f).content(), bool_rep(*self));
                }
            }
            r
        }
    }
}


impl Format<Pretty> for bool {
    open spec fn rendering(&self, style: &Pretty) -> Seq<char> {
        bool_rep(*self)
    }

    fn fmt<W: Write>(&self, f: &mut W, style: &Pretty) -> (r: Result<(), Error>) {
        if *self {
            let r = f.write_str("true");
            proof {
                if r is Err {
                    lemma_grew_by_prefix_zero(old(f).content(), bool_rep(*self));
                }
            }
            r
        } else {
            let r = f.write_str("false");
            proof {
                if r is Err {
                    lemma_grew_by_prefix_zero(old(f).content(), bool_rep(*self));
                }
            }
            r
        }
    }
}

/// The depth one level below `d`, pinned at the deepest representable
/// level.
pub open spec fn spec_next_depth(d: usize) -> usize {
    if d == usize::MAX {
        d
    } else {
        (d + 1) as usize
    }
}

/// The depth one level below `d`, pinned at the deepest representable
/// level.
#[verifier::when_used_as_spec(spec_next_depth)]
pub(crate) fn next_depth(d: usize) -> (r: usize)
    ensures
        r == spec_next_depth(d),
{
    if d == usize::MAX {
        d
    } else {
        d + 1
    }
}

/// Write a `Debug`-rendered list: the elements joined by `", "` inside
/// square brackets.
#[verifier::rlimit(80)]
pub(crate) fn write_list_debug<T: Format<crate::fmt::Debug>, W: Write>(
    f: &mut W,
    items: &[T],
) -> (r: Result<(), Error>)
    ensures
        final(f).infallible() == old(f).infallible(),
        r is Ok ==> final(f).content() == old(f).content() + seq!['['] + sep_concat(
            items@.map_values(|t: T| t.rendering(&crate::fmt::Debug)),
            sep_rep(),
        ) + seq![']'],
        r is Err ==> grew_by_prefix(
            old(f).content(),
            final(f).content(),
            seq!['['] + sep_concat(
                items@.map_values(|t: T| t.rendering(&crate::fmt::Debug)),
                sep_rep(),
            ) + seq![']'],
        ),
        old(f).infallible() ==> r is Ok,
{
    let ghost g = |t: T| t.rendering(&crate::fmt::Debug);
    let ghost mapped = items@.map_values(g);
    let ghost whole = seq!['['] + sep_concat(mapped, sep_rep()) + seq![']'];
    match f.write_char('[') {
        Ok(()) => (),
        Err(e) => {
            proof {
                lemma_grew_by_prefix_zero(old(f).content(), whole);
            }
            return Err(e);
        },
    }
    let n = items.len();
    let mut i: usize = 0;
    while i < n
        invariant
            i <= n,
            n == items@.len(),
            g == (|t: T| t.rendering(&crate::fmt::Debug)),
            mapped == items@.map_values(g),
            whole == seq!['['] + sep_concat(mapped, sep_rep()) + seq![']'],
            f.infallible() == old(f).infallible(),
            f.content() == old(f).content() + seq!['['] + sep_concat(
                mapped.take(i as int),
                sep_rep(),
            ),
        decreases n - i,
    {
        proof {
            if i > 0 {
                lemma_sep_concat_split(mapped, sep_rep(), i as int);
                assert(mapped.skip(i as int)[0] == mapped[i as int]);
                assert(mapped.skip(i as int).skip(1) =~= mapped.skip(i + 1));
                assert(sep_cont(mapped.skip(i as int), sep_rep()) == sep_rep() + mapped[i as int]
                    + sep_cont(mapped.skip(i + 1), sep_rep()));
            } else {
                lemma_sep_concat_head(mapped, sep_rep());
            }
        }
        if i > 0 {
            let ghost presep = f.content();
            match write_sep(f) {
                Ok(()) => (),
                Err(e) => {
                    proof {
                        let done = seq!['['] + sep_concat(mapped.take(i as int), sep_rep());
                        let rest = mapped[i as int] + sep_cont(mapped.skip(i + 1), sep_rep())
                            + seq![']'];
                        assert(presep =~= old(f).content() + done);
                        lemma_grew_by_prefix_zero(presep, sep_rep());
                        assert(whole =~= done + sep_rep() + rest);
                        lemma_grew_by_prefix_mid(
                            old(f).content(),
                            f.content(),
                            done,
                            sep_rep(),
                            rest,
                            whole,
                        );
                    }
                    return Err(e);
                },
            }
        }
        let x = &items[i];
        let ghost prefmt = f.content();
        match x.fmt(f, &crate::fmt::Debug) {
            Ok(()) => (),
            Err(e) => {
                proof {
                    assert(mapped[i as int] == items@[i as int].rendering(&crate::fmt::Debug));
                    let rest = sep_cont(mapped.skip(i + 1), sep_rep()) + seq![']'];
                    if i > 0 {
                        let done = seq!['['] + sep_concat(mapped.take(i as int), sep_rep())
                            + sep_rep();
                        assert(prefmt =~= old(f).content() + done);
                        assert(whole =~= done + mapped[i as int] + rest);
                        lemma_grew_by_prefix_mid(
                            old(f).content(),
                            f.content(),
                            done,
                            mapped[i as int],
                            rest,
                            whole,
                        );
                    } else {
                        assert(mapped.take(0) =~= Seq::<Seq<char>>::empty());
                        assert(prefmt =~= old(f).content() + seq!['[']);
                        assert(whole =~= seq!['['] + mapped[0] + rest);
                        lemma_grew_by_prefix_mid(
                            old(f).content(),
                            f.content(),
                            seq!['['],
                            mapped[0],
                            rest,
                            whole,
                        );
                    }
                }
                return Err(e);
            },
        }
        proof {
            assert(mapped.take(i + 1) =~= mapped.take(i as int).push(mapped[i as int]));
            lemma_sep_concat_push(mapped.take(i as int), sep_rep(), mapped[i as int]);
            assert(f.content() =~= old(f).content() + seq!['['] + sep_concat(
                mapped.take(i + 1),
                sep_rep(),
            ));
        }
        i = i + 1;
    }
    let ghost preclose = f.content();
    match f.write_char(']') {
        Ok(()) => (),
        Err(e) => {
            proof {
                assert(mapped.take(n as int) =~= mapped);
                assert(preclose =~= old(f).content() + (seq!['['] + sep_concat(
                    mapped,
                    sep_rep(),
                )));
                lemma_grew_by_prefix_zero(preclose, seq![']']);
                assert(whole =~= (seq!['['] + sep_concat(mapped, sep_rep())) + seq![']']
                    + Seq::<char>::empty());
                lemma_grew_by_prefix_mid(
                    old(f).content(),
                    f.content(),
                    seq!['['] + sep_concat(mapped, sep_rep()),
                    seq![']'],
                    Seq::<char>::empty(),
                    whole,
                );
            }
            return Err(e);
        },
    }
    proof {
        assert(mapped.take(n as int) =~= mapped);
        assert(f.content() =~= old(f).content() + whole);
    }
    Ok(())
}

/// Write a `Pretty`-rendered list: each element on its own line one level
/// deeper, with a trailing comma, the brackets at the current depth.
#[verifier::rlimit(80)]
pub(crate) fn write_list_pretty<T: Format<Pretty>, W: Write>(
    f: &mut W,
    items: &[T],
    depth: usize,
) -> (r: Result<(), Error>)
    ensures
        final(f).infallible() == old(f).infallible(),
        r is Ok ==> final(f).content() == old(f).content() + seq!['['] + pretty_items_rep(
            items@.map_values(|t: T| t.rendering(&Pretty(spec_next_depth(depth)))),
            spec_next_depth(depth) as nat,
        ) + newline_indent(depth as nat) + seq![']'],
        r is Err ==> grew_by_prefix(
            old(f).content(),
            final(f).content(),
            seq!['['] + pretty_items_rep(
                items@.map_values(|t: T| t.rendering(&Pretty(spec_next_depth(depth)))),
                spec_next_depth(depth) as nat,
            ) + newline_indent(depth as nat) + seq![']'],
        ),
        old(f).infallible() ==> r is Ok,
{
    let cd = next_depth(depth);
    let ghost g = |t: T| t.rendering(&Pretty(spec_next_depth(depth)));
    let ghost mapped = items@.map_values(g);
    let ghost block = pretty_items_rep(mapped, cd as nat);
    let ghost whole = seq!['['] + block + newline_indent(depth as nat) + seq![']'];
    match f.write_char('[') {
        Ok(()) => (),
        Err(e) => {
            proof {
                lemma_grew_by_prefix_zero(old(f).content(), whole);
            }
            return Err(e);
        },
    }
    let n = items.len();
    let mut i: usize = 0;
    while i < n
        invariant
            i <= n,
            n == items@.len(),
            cd == spec_next_depth(depth),
            g == (|t: T| t.rendering(&Pretty(spec_next_depth(depth)))),
            mapped == items@.map_values(g),
            block == pretty_items_rep(mapped, cd as nat),
            whole == seq!['['] + block + newline_indent(depth as nat) + seq![']'],
            f.infallible() == old(f).infallible(),
            f.content() == old(f).content() + seq!['['] + pretty_items_rep(
                mapped.take(i as int),
                cd as nat,
            ),
        decreases n - i,
    {
        proof {
            lemma_pretty_items_split(mapped, cd as nat, i as int);
            assert(mapped.skip(i as int)[0] == mapped[i as int]);
            assert(mapped.skip(i as int).skip(1) =~= mapped.skip(i + 1));
            assert(pretty_items_rep(mapped.skip(i as int), cd as nat) == pretty_item_rep(
                mapped[i as int],
                cd as nat,
            ) + pretty_items_rep(mapped.skip(i + 1), cd as nat));
            assert(pretty_item_rep(mapped[i as int], cd as nat) == newline_indent(cd as nat)
                + mapped[i as int] + seq![',']);
        }
        let ghost done0 = seq!['['] + pretty_items_rep(mapped.take(i as int), cd as nat);
        let ghost tail0 = pretty_items_rep(mapped.skip(i + 1), cd as nat) + newline_indent(
            depth as nat,
        ) + seq![']'];
        let ghost prenl = f.content();
        match write_newline_indent(f, cd) {
            Ok(()) => (),
            Err(e) => {
                proof {
                    assert(prenl =~= old(f).content() + done0);
                    assert(whole =~= done0 + newline_indent(cd as nat) + ((mapped[i as int]
                        + seq![',']) + tail0));
                    lemma_grew_by_prefix_mid(
                        old(f).content(),
                        f.content(),
                        done0,
                        newline_indent(cd as nat),
                        (mapped[i as int] + seq![',']) + tail0,
                        whole,
                    );
                }
                return Err(e);
            },
        }
        let x = &items[i];
        let ghost prefmt = f.content();
        match x.fmt(f, &Pretty(cd)) {
            Ok(()) => (),
            Err(e) => {
                proof {
                    assert(mapped[i as int] == items@[i as int].rendering(&Pretty(cd)));
                    assert(prefmt =~= old(f).content() + (done0 + newline_indent(cd as nat)));
                    assert(whole =~= (done0 + newline_indent(cd as nat)) + mapped[i as int] + (
                    seq![','] + tail0));
                    lemma_grew_by_prefix_mid(
                        old(f).content(),
                        f.content(),
                        done0 + newline_indent(cd as nat),
                        mapped[i as int],
                        seq![','] + tail0,
                        whole,
                    );
                }
                return Err(e);
            },
        }
        let ghost precomma = f.content();
        match f.write_char(',') {
            Ok(()) => (),
            Err(e) => {
                proof {
                    assert(precomma =~= old(f).content() + (done0 + newline_indent(cd as nat)
                        + mapped[i as int]));
                    lemma_grew_by_prefix_zero(precomma, seq![',']);
                    assert(whole =~= (done0 + newline_indent(cd as nat) + mapped[i as int])
                        + seq![','] + tail0);
                    lemma_grew_by_prefix_mid(
                        old(f).content(),
                        f.content(),
                        done0 + newline_indent(cd as nat) + mapped[i as int],
                        seq![','],
                        tail0,
                        whole,
                    );
                }
                return Err(e);
            },
        }
        proof {
            assert(mapped.take(i + 1) =~= mapped.take(i as int).push(mapped[i as int]));
            lemma_pretty_items_rep_push(mapped.take(i as int), cd as nat, mapped[i as int]);
            assert(f.content() =~= old(f).content() + seq!['['] + pretty_items_rep(
                mapped.take(i + 1),
                cd as nat,
            ));
        }
        i = i + 1;
    }
    let ghost prenl2 = f.content();
    match write_newline_indent(f, depth) {
        Ok(()) => (),
        Err(e) => {
            proof {
                assert(mapped.take(n as int) =~= mapped);
                assert(prenl2 =~= old(f).content() + (seq!['['] + block));
                assert(whole =~= (seq!['['] + block) + newline_indent(depth as nat) + seq![']']);
                lemma_grew_by_prefix_mid(
                    old(f).content(),
                    f.content(),
                    seq!['['] + block,
                    newline_indent(depth as nat),
                    seq![']'],
                    whole,
                );
            }
            return Err(e);
        },
    }
    let ghost preclose = f.content();
    match f.write_char(']') {
        Ok(()) => (),
        Err(e) => {
            proof {
                assert(mapped.take(n as int) =~= mapped);
                assert(preclose =~= old(f).content() + (seq!['['] + block + newline_indent(
                    depth as nat,
                )));
                lemma_grew_by_prefix_zero(preclose, seq![']']);
                assert(whole =~= (seq!['['] + block + newline_indent(depth as nat)) + seq![']']
                    + Seq::<char>::empty());
                lemma_grew_by_prefix_mid(
                    old(f).content(),
                    f.content(),
                    seq!['['] + block + newline_indent(depth as nat),
                    seq![']'],
                    Seq::<char>::empty(),
                    whole,
                );
            }
            return Err(e);
        },
    }
    proof {
        assert(mapped.take(n as int) =~= mapped);
        assert(f.content() =~= old(f).content() + whole);
    }
    Ok(())
}

impl<T: Format<crate::fmt::Debug>> Format<crate::fmt::Debug> for Vec<T> {
    open spec fn rendering(&self, style: &crate::fmt::Debug) -> Seq<char> {
        seq!['['] + sep_concat(
            self@.map_values(|t: T| t.rendering(&crate::fmt::Debug)),
            sep_rep(),
        ) + seq![']']
    }

    fn fmt<W: Write>(&self, f: &mut W, style: &crate::fmt::Debug) -> (r: Result<(), Error>) {
        write_list_debug(f, self.as_slice())
    }
}


impl<T: Format<crate::fmt::Debug>, const N: usize> Format<crate::fmt::Debug> for [T; N] {
    open spec fn rendering(&self, style: &crate::fmt::Debug) -> Seq<char> {
        seq!['['] + sep_concat(
            self@.map_values(|t: T| t.rendering(&crate::fmt::Debug)),
            sep_rep(),
        ) + seq![']']
    }

    fn fmt<W: Write>(&self, f: &mut W, style: &crate::fmt::Debug) -> (r: Result<(), Error>) {
        write_list_debug(f, self.as_slice())
    }
}


impl<T: Format<Pretty>> Format<Pretty> for Vec<T> {
    open spec fn rendering(&self, style: &Pretty) -> Seq<char> {
        seq!['['] + pretty_items_rep(
            self@.map_values(|t: T| t.rendering(&Pretty(spec_next_depth(style.0)))),
            spec_next_depth(style.0) as nat,
        ) + newline_indent(style.0 as nat) + seq![']']
    }

    fn fmt<W: Write>(&self, f: &mut W, style: &Pretty) -> (r: Result<(), Error>) {
        write_list_pretty(f, self.as_slice(), style.0)
    }
}


impl<T: Format<Pretty>, const N: usize> Format<Pretty> for [T; N] {
    open spec fn rendering(&self, style: &Pretty) -> Seq<char> {
        seq!['['] + pretty_items_rep(
            self@.map_values(|t: T| t.rendering(&Pretty(spec_next_depth(style.0)))),
            spec_next_depth(style.0) as nat,
        ) + newline_indent(style.0 as nat) + seq![']']
    }

    fn fmt<W: Write>(&self, f: &mut W, style: &Pretty) -> (r: Result<(), Error>) {
        write_list_pretty(f, self.as_slice(), style.0)
    }
}


impl<T: Format<crate::fmt::Debug>> Format<crate::fmt::Debug> for Option<T> {
    open spec fn rendering(&self, style: &crate::fmt::Debug) -> Seq<char> {
        match self {
            Some(t) => dbg_tuple_rep("Some"@, seq![t.rendering(style)]),
            None => "None"@,
        }
    }

    #[verifier::rlimit(80)]
    fn fmt<W: Write>(&self, f: &mut W, style: &crate::fmt::Debug) -> (r: Result<(), Error>) {
        match self {
            Some(t) => {
                let ghost item = t.rendering(style);
                let ghost whole = dbg_tuple_rep("Some"@, seq![item]);
                proof {
                    assert(sep_concat(seq![item], sep_rep()) == item);
                    assert(whole =~= "Some"@ + seq!['('] + item + seq![')']);
                }
                match f.write_str("Some") {
                    Ok(()) => (),
                    Err(e) => {
                        proof {
                            lemma_grew_by_prefix_zero(old(f).content(), whole);
                        }
                        return Err(e);
                    },
                }
                let ghost pre1 = f.content();
                match f.write_char('(') {
                    Ok(()) => (),
                    Err(e) => {
                        proof {
                            assert(pre1 =~= old(f).content() + ("Some"@));
                            lemma_grew_by_prefix_zero(pre1, seq!['(']);
                            assert(whole =~= ("Some"@) + seq!['('] + (item + seq![')']));
                            lemma_grew_by_prefix_mid(
                                old(f).content(),
                                f.content(),
                                "Some"@,
                                seq!['('],
                                item + seq![')'],
                                whole,
                            );
                        }
                        return Err(e);
                    },
                }
                let ghost pre2 = f.content();
                match t.fmt(f, style) {
                    Ok(()) => (),
                    Err(e) => {
                        proof {
                            assert(pre2 =~= old(f).content() + ("Some"@ + seq!['(']));
                            assert(whole =~= ("Some"@ + seq!['(']) + item + (seq![')']));
                            lemma_grew_by_prefix_mid(
                                old(f).content(),
                                f.content(),
                                "Some"@ + seq!['('],
                                item,
                                seq![')'],
                                whole,
                            );
                        }
                        return Err(e);
                    },
                }
                let ghost pre3 = f.content();
                match f.write_char(')') {
                    Ok(()) => (),
                    Err(e) => {
                        proof {
                            assert(pre3 =~= old(f).content() + ("Some"@ + seq!['('] + item));
                            lemma_grew_by_prefix_zero(pre3, seq![')']);
                            assert(whole =~= ("Some"@ + seq!['('] + item) + seq![')'] + (Seq::<char>::empty()));
                            lemma_grew_by_prefix_mid(
                                old(f).content(),
                                f.content(),
                                "Some"@ + seq!['('] + item,
                                seq![')'],
                                Seq::<char>::empty(),
                                whole,
                            );
                        }
                        return Err(e);
                    },
                }
                proof {
                    assert(f.content() =~= old(f).content() + whole);
                }
                Ok(())
            },
            None => {
                let r = f.write_str("None");
                proof {
                    if r is Err {
                        lemma_grew_by_prefix_zero(old(f).content(), "None"@);
                    }
                }
                r
            },
        }
    }
}

impl<T: Format<crate::fmt::Debug>, E: Format<crate::fmt::Debug>> Format<
    crate::fmt::Debug,
> for Result<T, E> {
    open spec fn rendering(&self, style: &crate::fmt::Debug) -> Seq<char> {
        match self {
            Ok(t) => dbg_tuple_rep("Ok"@, seq![t.rendering(style)]),
            Err(e) => dbg_tuple_rep("Err"@, seq![e.rendering(style)]),
        }
    }

    #[verifier::rlimit(80)]
    fn fmt<W: Write>(&self, f: &mut W, style: &crate::fmt::Debug) -> (r: Result<(), Error>) {
        match self {
            Ok(t) => {
                let ghost item = t.rendering(style);
                let ghost whole = dbg_tuple_rep("Ok"@, seq![item]);
                proof {
                    assert(sep_concat(seq![item], sep_rep()) == item);
                    assert(whole =~= "Ok"@ + seq!['('] + item + seq![')']);
                }
                match f.write_str("Ok") {
                    Ok(()) => (),
                    Err(e) => {
                        proof {
                            lemma_grew_by_prefix_zero(old(f).content(), whole);
                        }
                        return Err(e);
                    },
                }
                let ghost pre1 = f.content();
                match f.write_char('(') {
                    Ok(()) => (),
                    Err(e) => {
                        proof {
                            assert(pre1 =~= old(f).content() + ("Ok"@));
                            lemma_grew_by_prefix_zero(pre1, seq!['(']);
                            assert(whole =~= ("Ok"@) + seq!['('] + (item + seq![')']));
                            lemma_grew_by_prefix_mid(
                                old(f).content(),
                                f.content(),
                                "Ok"@,
                                seq!['('],
                                item + seq![')'],
                                whole,
                            );
                        }
                        return Err(e);
                    },
                }
                let ghost pre2 = f.content();
                match t.fmt(f, style) {
                    Ok(()) => (),
                    Err(e) => {
                        proof {
                            assert(pre2 =~= old(f).content() + ("Ok"@ + seq!['(']));
                            assert(whole =~= ("Ok"@ + seq!['(']) + item + (seq![')']));
                            lemma_grew_by_prefix_mid(
                                old(f).content(),
                                f.content(),
                                "Ok"@ + seq!['('],
                                item,
                                seq![')'],
                                whole,
                            );
                        }
                        return Err(e);
                    },
                }
                let ghost pre3 = f.content();
                match f.write_char(')') {
                    Ok(()) => (),
                    Err(e) => {
                        proof {
                            assert(pre3 =~= old(f).content() + ("Ok"@ + seq!['('] + item));
                            lemma_grew_by_prefix_zero(pre3, seq![')']);
                            assert(whole =~= ("Ok"@ + seq!['('] + item) + seq![')'] + (Seq::<char>::empty()));
                            lemma_grew_by_prefix_mid(
                                old(f).content(),
                                f.content(),
                                "Ok"@ + seq!['('] + item,
                                seq![')'],
                                Seq::<char>::empty(),
                                whole,
                            );
                        }
                        return Err(e);
                    },
                }
                proof {
                    assert(f.content() =~= old(f).content() + whole);
                }
                Ok(())
            },
            Err(t) => {
                let ghost item = t.rendering(style);
                let ghost whole = dbg_tuple_rep("Err"@, seq![item]);
                proof {
                    assert(sep_concat(seq![item], sep_rep()) == item);
                    assert(whole =~= "Err"@ + seq!['('] + item + seq![')']);
                }
                match f.write_str("Err") {
                    Ok(()) => (),
                    Err(e) => {
                        proof {
                            lemma_grew_by_prefix_zero(old(f).content(), whole);
                        }
                        return Err(e);
                    },
                }
                let ghost pre1 = f.content();
                match f.write_char('(') {
                    Ok(()) => (),
                    Err(e) => {
                        proof {
                            assert(pre1 =~= old(f).content() + ("Err"@));
                            lemma_grew_by_prefix_zero(pre1, seq!['(']);
                            assert(whole =~= ("Err"@) + seq!['('] + (item + seq![')']));
                            lemma_grew_by_prefix_mid(
                                old(f).content(),
                                f.content(),
                                "Err"@,
                                seq!['('],
                                item + seq![')'],
                                whole,
                            );
                        }
                        return Err(e);
                    },
                }
                let ghost pre2 = f.content();
                match t.fmt(f, style) {
                    Ok(()) => (),
                    Err(e) => {
                        proof {
                            assert(pre2 =~= old(f).content() + ("Err"@ + seq!['(']));
                            assert(whole =~= ("Err"@ + seq!['(']) + item + (seq![')']));
                            lemma_grew_by_prefix_mid(
                                old(f).content(),
                                f.content(),
                                "Err"@ + seq!['('],
                                item,
                                seq![')'],
                                whole,
                            );
                        }
                        return Err(e);
                    },
                }
                let ghost pre3 = f.content();
                match f.write_char(')') {
                    Ok(()) => (),
                    Err(e) => {
                        proof {
                            assert(pre3 =~= old(f).content() + ("Err"@ + seq!['('] + item));
                            lemma_grew_by_prefix_zero(pre3, seq![')']);
                            assert(whole =~= ("Err"@ + seq!['('] + item) + seq![')'] + (Seq::<char>::empty()));
                            lemma_grew_by_prefix_mid(
                                old(f).content(),
                                f.content(),
                                "Err"@ + seq!['('] + item,
                                seq![')'],
                                Seq::<char>::empty(),
                                whole,
                            );
                        }
                        return Err(e);
                    },
                }
                proof {
                    assert(f.content() =~= old(f).content() + whole);
                }
                Ok(())
            },
        }
    }
}


impl<T: Format<Pretty>> Format<Pretty> for Option<T> {
    open spec fn rendering(&self, style: &Pretty) -> Seq<char> {
        match self {
            Some(t) => "Some"@ + seq!['('] + pretty_item_rep(
                t.rendering(&Pretty(spec_next_depth(style.0))),
                spec_next_depth(style.0) as nat,
            ) + newline_indent(style.0 as nat) + seq![')'],
            None => "None"@,
        }
    }

    #[verifier::rlimit(80)]
    fn fmt<W: Write>(&self, f: &mut W, style: &Pretty) -> (r: Result<(), Error>) {
        match self {
            Some(t) => {
                let nd = next_depth(style.0);
                let ghost item = t.rendering(&Pretty(spec_next_depth(style.0)));
                let ghost whole = "Some"@ + seq!['('] + pretty_item_rep(
                    item,
                    spec_next_depth(style.0) as nat,
                ) + newline_indent(style.0 as nat) + seq![')'];
                proof {
                    assert(whole =~= "Some"@ + seq!['('] + newline_indent(nd as nat) + item
                        + seq![','] + newline_indent(style.0 as nat) + seq![')']);
                }
                match f.write_str("Some") {
                    Ok(()) => (),
                    Err(e) => {
                        proof {
                            lemma_grew_by_prefix_zero(old(f).content(), whole);
                        }
                        return Err(e);
                    },
                }
                let ghost pre1 = f.content();
                match f.write_char('(') {
                    Ok(()) => (),
                    Err(e) => {
                        proof {
                            assert(pre1 =~= old(f).content() + ("Some"@));
                            lemma_grew_by_prefix_zero(pre1, seq!['(']);
                            assert(whole =~= ("Some"@) + seq!['('] + (newline_indent(nd as nat) + item + seq![','] + newline_indent(style.0 as nat) + seq![')']));
                            lemma_grew_by_prefix_mid(
                                old(f).content(),
                                f.content(),
                                "Some"@,
                                seq!['('],
                                newline_indent(nd as nat) + item + seq![','] + newline_indent(style.0 as nat) + seq![')'],
                                whole,
                            );
                        }
                        return Err(e);
                    },
                }
                let ghost pre2 = f.content();
                match write_newline_indent(f, nd) {
                    Ok(()) => (),
                    Err(e) => {
                        proof {
                            assert(pre2 =~= old(f).content() + ("Some"@ + seq!['(']));
                            assert(whole =~= ("Some"@ + seq!['(']) + newline_indent(nd as nat) + (item + seq![','] + newline_indent(style.0 as nat) + seq![')']));
                            lemma_grew_by_prefix_mid(
                                old(f).content(),
                                f.content(),
                                "Some"@ + seq!['('],
                                newline_indent(nd as nat),
                                item + seq![','] + newline_indent(style.0 as nat) + seq![')'],
                                whole,
                            );
                        }
                        return Err(e);
                    },
                }
                let ghost pre3 = f.content();
                match t.fmt(f, &Pretty(nd)) {
                    Ok(()) => (),
                    Err(e) => {
                        proof {
                            assert(pre3 =~= old(f).content() + ("Some"@ + seq!['('] + newline_indent(nd as nat)));
                            assert(whole =~= ("Some"@ + seq!['('] + newline_indent(nd as nat)) + item + (seq![','] + newline_indent(style.0 as nat) + seq![')']));
                            lemma_grew_by_prefix_mid(
                                old(f).content(),
                                f.content(),
                                "Some"@ + seq!['('] + newline_indent(nd as nat),
                                item,
                                seq![','] + newline_indent(style.0 as nat) + seq![')'],
                                whole,
                            );
                        }
                        return Err(e);
                    },
                }
                let ghost pre4 = f.content();
                match f.write_char(',') {
                    Ok(()) => (),
                    Err(e) => {
                        proof {
                            assert(pre4 =~= old(f).content() + ("Some"@ + seq!['('] + newline_indent(nd as nat) + item));
                            lemma_grew_by_prefix_zero(pre4, seq![',']);
                            assert(whole =~= ("Some"@ + seq!['('] + newline_indent(nd as nat) + item) + seq![','] + (newline_indent(style.0 as nat) + seq![')']));
                            lemma_grew_by_prefix_mid(
                                old(f).content(),
                                f.content(),
                                "Some"@ + seq!['('] + newline_indent(nd as nat) + item,
                                seq![','],
                                newline_indent(style.0 as nat) + seq![')'],
                                whole,
                            );
                        }
                        return Err(e);
                    },
                }
                let ghost pre5 = f.content();
                match write_newline_indent(f, style.0) {
                    Ok(()) => (),
                    Err(e) => {
                        proof {
                            assert(pre5 =~= old(f).content() + ("Some"@ + seq!['('] + newline_indent(nd as nat) + item + seq![',']));
                            assert(whole =~= ("Some"@ + seq!['('] + newline_indent(nd as nat) + item + seq![',']) + newline_indent(style.0 as nat) + (seq![')']));
                            lemma_grew_by_prefix_mid(
                                old(f).content(),
                                f.content(),
                                "Some"@ + seq!['('] + newline_indent(nd as nat) + item + seq![','],
                                newline_indent(style.0 as nat),
                                seq![')'],
                                whole,
                            );
                        }
                        return Err(e);
                    },
                }
                let ghost pre6 = f.content();
                match f.write_char(')') {
                    Ok(()) => (),
                    Err(e) => {
                        proof {
                            assert(pre6 =~= old(f).content() + ("Some"@ + seq!['('] + newline_indent(nd as nat) + item + seq![','] + newline_indent(style.0 as nat)));
                            lemma_grew_by_prefix_zero(pre6, seq![')']);
                            assert(whole =~= ("Some"@ + seq!['('] + newline_indent(nd as nat) + item + seq![','] + newline_indent(style.0 as nat)) + seq![')'] + (Seq::<char>::empty()));
                            lemma_grew_by_prefix_mid(
                                old(f).content(),
                                f.content(),
                                "Some"@ + seq!['('] + newline_indent(nd as nat) + item + seq![','] + newline_indent(style.0 as nat),
                                seq![')'],
                                Seq::<char>::empty(),
                                whole,
                            );
                        }
                        return Err(e);
                    },
                }
                proof {
                    assert(f.content() =~= old(f).content() + whole);
                }
                Ok(())
            },
            None => {
                let r = f.write_str("None");
                proof {
                    if r is Err {
                        lemma_grew_by_prefix_zero(old(f).content(), "None"@);
                    }
                }
                r
            },
        }
    }
}

impl<T: Format<Pretty>, E: Format<Pretty>> Format<Pretty> for Result<T, E> {
    open spec fn rendering(&self, style: &Pretty) -> Seq<char> {
        match self {
            Ok(t) => "Ok"@ + seq!['('] + pretty_item_rep(
                t.rendering(&Pretty(spec_next_depth(style.0))),
                spec_next_depth(style.0) as nat,
            ) + newline_indent(style.0 as nat) + seq![')'],
            Err(e) => "Err"@ + seq!['('] + pretty_item_rep(
                e.rendering(&Pretty(spec_next_depth(style.0))),
                spec_next_depth(style.0) as nat,
            ) + newline_indent(style.0 as nat) + seq![')'],
        }
    }

    #[verifier::rlimit(80)]
    fn fmt<W: Write>(&self, f: &mut W, style: &Pretty) -> (r: Result<(), Error>) {
        match self {
            Ok(t) => {
                let nd = next_depth(style.0);
                let ghost item = t.rendering(&Pretty(spec_next_depth(style.0)));
                let ghost whole = "Ok"@ + seq!['('] + pretty_item_rep(
                    item,
                    spec_next_depth(style.0) as nat,
                ) + newline_indent(style.0 as nat) + seq![')'];
                proof {
                    assert(whole =~= "Ok"@ + seq!['('] + newline_indent(nd as nat) + item
                        + seq![','] + newline_indent(style.0 as nat) + seq![')']);
                }
                match f.write_str("Ok") {
                    Ok(()) => (),
                    Err(e) => {
                        proof {
                            lemma_grew_by_prefix_zero(old(f).content(), whole);
                        }
                        return Err(e);
                    },
                }
                let ghost pre1 = f.content();
                match f.write_char('(') {
                    Ok(()) => (),
                    Err(e) => {
                        proof {
                            assert(pre1 =~= old(f).content() + ("Ok"@));
                            lemma_grew_by_prefix_zero(pre1, seq!['(']);
                            assert(whole =~= ("Ok"@) + seq!['('] + (newline_indent(nd as nat) + item + seq![','] + newline_indent(style.0 as nat) + seq![')']));
                            lemma_grew_by_prefix_mid(
                                old(f).content(),
                                f.content(),
                                "Ok"@,
                                seq!['('],
                                newline_indent(nd as nat) + item + seq![','] + newline_indent(style.0 as nat) + seq![')'],
                                whole,
                            );
                        }
                        return Err(e);
                    },
                }
                let ghost pre2 = f.content();
                match write_newline_indent(f, nd) {
                    Ok(()) => (),
                    Err(e) => {
                        proof {
                            assert(pre2 =~= old(f).content() + ("Ok"@ + seq!['(']));
                            assert(whole =~= ("Ok"@ + seq!['(']) + newline_indent(nd as nat) + (item + seq![','] + newline_indent(style.0 as nat) + seq![')']));
                            lemma_grew_by_prefix_mid(
                                old(f).content(),
                                f.content(),
                                "Ok"@ + seq!['('],
                                newline_indent(nd as nat),
                                item + seq![','] + newline_indent(style.0 as nat) + seq![')'],
                                whole,
                            );
                        }
                        return Err(e);
                    },
                }
                let ghost pre3 = f.content();
                match t.fmt(f, &Pretty(nd)) {
                    Ok(()) => (),
                    Err(e) => {
                        proof {
                            assert(pre3 =~= old(f).content() + ("Ok"@ + seq!['('] + newline_indent(nd as nat)));
                            assert(whole =~= ("Ok"@ + seq!['('] + newline_indent(nd as nat)) + item + (seq![','] + newline_indent(style.0 as nat) + seq![')']));
                            lemma_grew_by_prefix_mid(
                                old(f).content(),
                                f.content(),
                                "Ok"@ + seq!['('] + newline_indent(nd as nat),
                                item,
                                seq![','] + newline_indent(style.0 as nat) + seq![')'],
                                whole,
                            );
                        }
                        return Err(e);
                    },
                }
                let ghost pre4 = f.content();
                match f.write_char(',') {
                    Ok(()) => (),
                    Err(e) => {
                        proof {
                            assert(pre4 =~= old(f).content() + ("Ok"@ + seq!['('] + newline_indent(nd as nat) + item));
                            lemma_grew_by_prefix_zero(pre4, seq![',']);
                            assert(whole =~= ("Ok"@ + seq!['('] + newline_indent(nd as nat) + item) + seq![','] + (newline_indent(style.0 as nat) + seq![')']));
                            lemma_grew_by_prefix_mid(
                                old(f).content(),
                                f.content(),
                                "Ok"@ + seq!['('] + newline_indent(nd as nat) + item,
                                seq![','],
                                newline_indent(style.0 as nat) + seq![')'],
                                whole,
                            );
                        }
                        return Err(e);
                    },
                }
                let ghost pre5 = f.content();
                match write_newline_indent(f, style.0) {
                    Ok(()) => (),
                    Err(e) => {
                        proof {
                            assert(pre5 =~= old(f).content() + ("Ok"@ + seq!['('] + newline_indent(nd as nat) + item + seq![',']));
                            assert(whole =~= ("Ok"@ + seq!['('] + newline_indent(nd as nat) + item + seq![',']) + newline_indent(style.0 as nat) + (seq![')']));
                            lemma_grew_by_prefix_mid(
                                old(f).content(),
                                f.content(),
                                "Ok"@ + seq!['('] + newline_indent(nd as nat) + item + seq![','],
                                newline_indent(style.0 as nat),
                                seq![')'],
                                whole,
                            );
                        }
                        return Err(e);
                    },
                }
                let ghost pre6 = f.content();
                match f.write_char(')') {
                    Ok(()) => (),
                    Err(e) => {
                        proof {
                            assert(pre6 =~= old(f).content() + ("Ok"@ + seq!['('] + newline_indent(nd as nat) + item + seq![','] + newline_indent(style.0 as nat)));
                            lemma_grew_by_prefix_zero(pre6, seq![')']);
                            assert(whole =~= ("Ok"@ + seq!['('] + newline_indent(nd as nat) + item + seq![','] + newline_indent(style.0 as nat)) + seq![')'] + (Seq::<char>::empty()));
                            lemma_grew_by_prefix_mid(
                                old(f).content(),
                                f.content(),
                                "Ok"@ + seq!['('] + newline_indent(nd as nat) + item + seq![','] + newline_indent(style.0 as nat),
                                seq![')'],
                                Seq::<char>::empty(),
                                whole,
                            );
                        }
                        return Err(e);
                    },
                }
                proof {
                    assert(f.content() =~= old(f).content() + whole);
                }
                Ok(())
            },
            Err(t) => {
                let nd = next_depth(style.0);
                let ghost item = t.rendering(&Pretty(spec_next_depth(style.0)));
                let ghost whole = "Err"@ + seq!['('] + pretty_item_rep(
                    item,
                    spec_next_depth(style.0) as nat,
                ) + newline_indent(style.0 as nat) + seq![')'];
                proof {
                    assert(whole =~= "Err"@ + seq!['('] + newline_indent(nd as nat) + item
                        + seq![','] + newline_indent(style.0 as nat) + seq![')']);
                }
                match f.write_str("Err") {
                    Ok(()) => (),
                    Err(e) => {
                        proof {
                            lemma_grew_by_prefix_zero(old(f).content(), whole);
                        }
                        return Err(e);
                    },
                }
                let ghost pre1 = f.content();
                match f.write_char('(') {
                    Ok(()) => (),
                    Err(e) => {
                        proof {
                            assert(pre1 =~= old(f).content() + ("Err"@));
                            lemma_grew_by_prefix_zero(pre1, seq!['(']);
                            assert(whole =~= ("Err"@) + seq!['('] + (newline_indent(nd as nat) + item + seq![','] + newline_indent(style.0 as nat) + seq![')']));
                            lemma_grew_by_prefix_mid(
                                old(f).content(),
                                f.content(),
                                "Err"@,
                                seq!['('],
                                newline_indent(nd as nat) + item + seq![','] + newline_indent(style.0 as nat) + seq![')'],
                                whole,
                            );
                        }
                        return Err(e);
                    },
                }
                let ghost pre2 = f.content();
                match write_newline_indent(f, nd) {
                    Ok(()) => (),
                    Err(e) => {
                        proof {
                            assert(pre2 =~= old(f).content() + ("Err"@ + seq!['(']));
                            assert(whole =~= ("Err"@ + seq!['(']) + newline_indent(nd as nat) + (item + seq![','] + newline_indent(style.0 as nat) + seq![')']));
                            lemma_grew_by_prefix_mid(
                                old(f).content(),
                                f.content(),
                                "Err"@ + seq!['('],
                                newline_indent(nd as nat),
                                item + seq![','] + newline_indent(style.0 as nat) + seq![')'],
                                whole,
                            );
                        }
                        return Err(e);
                    },
                }
                let ghost pre3 = f.content();
                match t.fmt(f, &Pretty(nd)) {
                    Ok(()) => (),
                    Err(e) => {
                        proof {
                            assert(pre3 =~= old(f).content() + ("Err"@ + seq!['('] + newline_indent(nd as nat)));
                            assert(whole =~= ("Err"@ + seq!['('] + newline_indent(nd as nat)) + item + (seq![','] + newline_indent(style.0 as nat) + seq![')']));
                            lemma_grew_by_prefix_mid(
                                old(f).content(),
                                f.content(),
                                "Err"@ + seq!['('] + newline_indent(nd as nat),
                                item,
                                seq![','] + newline_indent(style.0 as nat) + seq![')'],
                                whole,
                            );
                        }
                        return Err(e);
                    },
                }
                let ghost pre4 = f.content();
                match f.write_char(',') {
                    Ok(()) => (),
                    Err(e) => {
                        proof {
                            assert(pre4 =~= old(f).content() + ("Err"@ + seq!['('] + newline_indent(nd as nat) + item));
                            lemma_grew_by_prefix_zero(pre4, seq![',']);
                            assert(whole =~= ("Err"@ + seq!['('] + newline_indent(nd as nat) + item) + seq![','] + (newline_indent(style.0 as nat) + seq![')']));
                            lemma_grew_by_prefix_mid(
                                old(f).content(),
                                f.content(),
                                "Err"@ + seq!['('] + newline_indent(nd as nat) + item,
                                seq![','],
                                newline_indent(style.0 as nat) + seq![')'],
                                whole,
                            );
                        }
                        return Err(e);
                    },
                }
                let ghost pre5 = f.content();
                match write_newline_indent(f, style.0) {
                    Ok(()) => (),
                    Err(e) => {
                        proof {
                            assert(pre5 =~= old(f).content() + ("Err"@ + seq!['('] + newline_indent(nd as nat) + item + seq![',']));
                            assert(whole =~= ("Err"@ + seq!['('] + newline_indent(nd as nat) + item + seq![',']) + newline_indent(style.0 as nat) + (seq![')']));
                            lemma_grew_by_prefix_mid(
                                old(f).content(),
                                f.content(),
                                "Err"@ + seq!['('] + newline_indent(nd as nat) + item + seq![','],
                                newline_indent(style.0 as nat),
                                seq![')'],
                                whole,
                            );
                        }
                        return Err(e);
                    },
                }
                let ghost pre6 = f.content();
                match f.write_char(')') {
                    Ok(()) => (),
                    Err(e) => {
                        proof {
                            assert(pre6 =~= old(f).content() + ("Err"@ + seq!['('] + newline_indent(nd as nat) + item + seq![','] + newline_indent(style.0 as nat)));
                            lemma_grew_by_prefix_zero(pre6, seq![')']);
                            assert(whole =~= ("Err"@ + seq!['('] + newline_indent(nd as nat) + item + seq![','] + newline_indent(style.0 as nat)) + seq![')'] + (Seq::<char>::empty()));
                            lemma_grew_by_prefix_mid(
                                old(f).content(),
                                f.content(),
                                "Err"@ + seq!['('] + newline_indent(nd as nat) + item + seq![','] + newline_indent(style.0 as nat),
                                seq![')'],
                                Seq::<char>::empty(),
                                whole,
                            );
                        }
                        return Err(e);
                    },
                }
                proof {
                    assert(f.content() =~= old(f).content() + whole);
                }
                Ok(())
            },
        }
    }
}

impl<'a, S: crate::fmt::Style, T: Format<S>> Format<S> for &'a T {
    open spec fn rendering(&self, style: &S) -> Seq<char> {
        (**self).rendering(style)
    }

    fn fmt<W: Write>(&self, f: &mut W, style: &S) -> (r: Result<(), Error>) {
        (*self).fmt(f, style)
    }
}

impl<T: Format<crate::fmt::Debug>> Format<crate::fmt::Debug> for [T] {
    open spec fn rendering(&self, style: &crate::fmt::Debug) -> Seq<char> {
        seq!['['] + sep_concat(
            self@.map_values(|t: T| t.rendering(&crate::fmt::Debug)),
            sep_rep(),
        ) + seq![']']
    }

    fn fmt<W: Write>(&self, f: &mut W, style: &crate::fmt::Debug) -> (r: Result<(), Error>) {
        write_list_debug(f, self)
    }
}

impl<T: Format<Pretty>> Format<Pretty> for [T] {
    open spec fn rendering(&self, style: &Pretty) -> Seq<char> {
        seq!['['] + pretty_items_rep(
            self@.map_values(|t: T| t.rendering(&Pretty(spec_next_depth(style.0)))),
            spec_next_depth(style.0) as nat,
        ) + newline_indent(style.0 as nat) + seq![']']
    }

    fn fmt<W: Write>(&self, f: &mut W, style: &Pretty) -> (r: Result<(), Error>) {
        write_list_pretty(f, self, style.0)
    }
}

} // verus!
