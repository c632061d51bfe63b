//! The multi-line rendering style and its composite-value builders.

use vstd::prelude::*;

use crate::fmt::repr::{
    dbg_field_rep, grew_by_prefix, indent_rep, lemma_grew_by_prefix_mid,
    lemma_grew_by_prefix_widen, lemma_grew_by_prefix_zero, newline_indent, pretty_item_rep,
};
use crate::fmt::{Error, Format, Style, Write};

verus! {

/// A pretty-printing rendering: like [`Debug`](crate::fmt::Debug) but spread
/// over multiple lines, four spaces of indentation per nesting level, and a
/// trailing comma after every field.
///
/// The inner `usize` is the current indentation depth.
#[derive(Default, Clone, Copy)]
pub struct Pretty(pub usize);

impl Style for Pretty {}

/// Write a line break followed by `depth` levels of four-space indentation.
pub(crate) fn write_newline_indent<W: Write>(f: &mut W, depth: usize) -> (r: Result<(), Error>)
    ensures
        final(f).infallible() == old(f).infallible(),
        r is Ok ==> final(f).content() == old(f).content() + newline_indent(depth as nat),
        r is Err ==> grew_by_prefix(
            old(f).content(),
            final(f).content(),
            newline_indent(depth as nat),
        ),
        old(f).infallible() ==> r is Ok,
{
    match f.write_char('\n') {
        Ok(()) => (),
        Err(e) => {
            proof {
                crate::fmt::repr::lemma_grew_by_prefix_zero(
                    old(f).content(),
                    newline_indent(depth as nat),
                );
            }
            return Err(e);
        },
    }
    let mut k: usize = 0;
    while k < depth
        invariant
            k <= depth,
            f.infallible() == old(f).infallible(),
            f.content() == old(f).content() + seq!['\n'] + indent_rep(k as nat),
        decreases depth - k,
    {
        proof {
            reveal_strlit("    ");
            assert("    "@ =~= seq![' ', ' ', ' ', ' ']);
        }
        match f.write_str("    ") {
            Ok(()) => (),
            Err(e) => {
                proof {
                    assert(seq!['\n'] + indent_rep(k as nat) =~= newline_indent(
                        depth as nat,
                    ).take(1 + 4 * k));
                    assert(f.content() == old(f).content() + newline_indent(depth as nat).take(
                        1 + 4 * k,
                    ));
                    assert(grew_by_prefix(
                        old(f).content(),
                        f.content(),
                        newline_indent(depth as nat),
                    ));
                }
                return Err(e);
            },
        }
        proof {
            assert(indent_rep((k + 1) as nat) =~= indent_rep(k as nat) + seq![' ', ' ', ' ', ' ']);
            assert(f.content() =~= old(f).content() + seq!['\n'] + indent_rep((k + 1) as nat));
        }
        k = k + 1;
    }
    proof {
        assert(f.content() =~= old(f).content() + newline_indent(depth as nat));
    }
    Ok(())
}

impl Pretty {
    /// Creates a new `Pretty` at depth zero. Equivalent to `Pretty(0)`.
    pub fn new() -> (r: Self)
        ensures
            r.0 == 0,
    {
        Pretty(0)
    }

    /// Assists with formatting tuple structs (or tuples, when `name` is
    /// empty).
    pub fn dbg_tuple<W: Write>(&self, f: &mut W, name: &str) -> (r: PrettyTuple)
        ensures
            final(f).infallible() == old(f).infallible(),
            r.spec_depth() == self.0,
            r.spec_err() is None ==> final(f).content() == old(f).content() + name@ + seq!['('],
            old(f).infallible() ==> r.spec_err() is None,
    {
        PrettyTuple::new(f, name, self.0)
    }

    /// Assists with formatting structs (or objects, when `name` is empty).
    pub fn dbg_struct<W: Write>(&self, f: &mut W, name: &str) -> (r: PrettyStruct)
        ensures
            final(f).infallible() == old(f).infallible(),
            r.spec_depth() == self.0,
            r.spec_err() is None ==> final(f).content() == old(f).content() + name@ + seq![
                ' ',
                '{',
            ],
            old(f).infallible() ==> r.spec_err() is None,
    {
        PrettyStruct::new(f, name, self.0)
    }
}

/// A helper for pretty-printing tuples and tuple structs: one field per
/// line, indented, each with a trailing comma.
///
/// If an error is encountered, any future calls will no-op.
pub struct PrettyTuple {
    depth: usize,
    err: Option<Error>,
}

impl PrettyTuple {
    /// The indentation depth the composite value opened at.
    pub closed spec fn spec_depth(&self) -> usize {
        self.depth
    }

    /// The first error encountered, if any.
    pub closed spec fn spec_err(&self) -> Option<Error> {
        self.err
    }

    /// Create a new `PrettyTuple`, writing the name and the opening
    /// parenthesis. Leave `name` empty for formatting bare tuples.
    pub fn new<W: Write>(f: &mut W, name: &str, depth: usize) -> (r: Self)
        ensures
            final(f).infallible() == old(f).infallible(),
            r.spec_depth() == depth,
            r.spec_err() is None ==> final(f).content() == old(f).content() + name@ + seq!['('],
            r.spec_err() is Some ==> grew_by_prefix(
                old(f).content(),
                final(f).content(),
                name@ + seq!['('],
            ),
            old(f).infallible() ==> r.spec_err() is None,
    {
        let err = match f.write_str(name) {
            Ok(()) => match f.write_char('(') {
                Ok(()) => None,
                Err(e) => {
                    proof {
                        assert((name@ + seq!['(']).take(name@.len() as int) =~= name@);
                        assert(f.content() == old(f).content() + (name@ + seq!['(']).take(
                            name@.len() as int,
                        ));
                        assert(grew_by_prefix(old(f).content(), f.content(), name@ + seq!['(']));
                    }
                    Some(e)
                },
            },
            Err(e) => {
                proof {
                    lemma_grew_by_prefix_zero(old(f).content(), name@ + seq!['(']);
                }
                Some(e)
            },
        };
        PrettyTuple { depth, err }
    }

    /// Format a field using [`Pretty`] one level deeper; a no-op if an error
    /// was already recorded.
    pub fn field<T: Format<Pretty>, W: Write>(&mut self, f: &mut W, data: &T)
        requires
            old(self).spec_depth() < usize::MAX,
        ensures
            final(f).infallible() == old(f).infallible(),
            final(self).spec_depth() == old(self).spec_depth(),
            old(self).spec_err() is Some ==> final(self).spec_err() == old(self).spec_err()
                && final(f).content() == old(f).content(),
            old(self).spec_err() is None && final(self).spec_err() is None ==> final(f).content()
                == old(f).content() + pretty_item_rep(
                data.rendering(&Pretty((old(self).spec_depth() + 1) as usize)),
                (old(self).spec_depth() + 1) as nat,
            ),
            old(self).spec_err() is None && final(self).spec_err() is Some ==> grew_by_prefix(
                old(f).content(),
                final(f).content(),
                pretty_item_rep(data.rendering(&Pretty((old(self).spec_depth() + 1) as usize)), (old(self).spec_depth() + 1) as nat),
            ),
            old(self).spec_err() is None && old(f).infallible() ==> final(self).spec_err() is None,
    {
        let depth = self.depth + 1;
        self.field_styled_at(f, data, &Pretty(depth))
    }

    /// Format a field using the given style; a no-op if an error was already
    /// recorded. The field still stands on its own indented line.
    pub fn field_styled<T: Format<S>, S: Style, W: Write>(
        &mut self,
        f: &mut W,
        data: &T,
        style: &S,
    )
        requires
            old(self).spec_depth() < usize::MAX,
        ensures
            final(f).infallible() == old(f).infallible(),
            final(self).spec_depth() == old(self).spec_depth(),
            old(self).spec_err() is Some ==> final(self).spec_err() == old(self).spec_err()
                && final(f).content() == old(f).content(),
            old(self).spec_err() is None && final(self).spec_err() is None ==> final(f).content()
                == old(f).content() + pretty_item_rep(
                data.rendering(style),
                (old(self).spec_depth() + 1) as nat,
            ),
            old(self).spec_err() is None && final(self).spec_err() is Some ==> grew_by_prefix(
                old(f).content(),
                final(f).content(),
                pretty_item_rep(data.rendering(style), (old(self).spec_depth() + 1) as nat),
            ),
            old(self).spec_err() is None && old(f).infallible() ==> final(self).spec_err() is None,
    {
        self.field_styled_at(f, data, style)
    }

    /// The shared body of `field` and `field_styled`.
    fn field_styled_at<T: Format<S>, S: Style, W: Write>(&mut self, f: &mut W, data: &T, style: &S)
        requires
            old(self).spec_depth() < usize::MAX,
        ensures
            final(f).infallible() == old(f).infallible(),
            final(self).spec_depth() == old(self).spec_depth(),
            old(self).spec_err() is Some ==> final(self).spec_err() == old(self).spec_err()
                && final(f).content() == old(f).content(),
            old(self).spec_err() is None && final(self).spec_err() is None ==> final(f).content()
                == old(f).content() + pretty_item_rep(
                data.rendering(style),
                (old(self).spec_depth() + 1) as nat,
            ),
            old(self).spec_err() is None && final(self).spec_err() is Some ==> grew_by_prefix(
                old(f).content(),
                final(f).content(),
                pretty_item_rep(data.rendering(style), (old(self).spec_depth() + 1) as nat),
            ),
            old(self).spec_err() is None && old(f).infallible() ==> final(self).spec_err() is None,
    {
        let ghost d1 = (old(self).spec_depth() + 1) as nat;
        let ghost nl = newline_indent(d1);
        let ghost delta = pretty_item_rep(data.rendering(style), d1);
        proof {
            assert(delta == nl + data.rendering(style) + seq![',']);
        }
        if self.err.is_none() {
            match write_newline_indent(f, self.depth + 1) {
                Ok(()) => (),
                Err(e) => {
                    proof {
                        assert(old(f).content() + Seq::<char>::empty() =~= old(f).content());
                        assert(delta =~= Seq::<char>::empty() + nl + (data.rendering(style)
                            + seq![',']));
                        lemma_grew_by_prefix_mid(
                            old(f).content(),
                            f.content(),
                            Seq::<char>::empty(),
                            nl,
                            data.rendering(style) + seq![','],
                            delta,
                        );
                    }
                    self.err = Some(e);
                },
            }
            if self.err.is_none() {
                let ghost pre1 = f.content();
                match data.fmt(f, style) {
                    Ok(()) => (),
                    Err(e) => {
                        proof {
                            assert(pre1 =~= old(f).content() + nl);
                            lemma_grew_by_prefix_mid(
                                old(f).content(),
                                f.content(),
                                nl,
                                data.rendering(style),
                                seq![','],
                                delta,
                            );
                        }
                        self.err = Some(e);
                    },
                }
            }
            if self.err.is_none() {
                let ghost pre2 = f.content();
                match f.write_char(',') {
                    Ok(()) => (),
                    Err(e) => {
                        proof {
                            assert(pre2 =~= old(f).content() + (nl + data.rendering(style)));
                            lemma_grew_by_prefix_zero(pre2, seq![',']);
                            assert(delta =~= (nl + data.rendering(style)) + seq![',']
                                + Seq::<char>::empty());
                            lemma_grew_by_prefix_mid(
                                old(f).content(),
                                f.content(),
                                nl + data.rendering(style),
                                seq![','],
                                Seq::<char>::empty(),
                                delta,
                            );
                        }
                        self.err = Some(e);
                    },
                }
            }
        }
    }

    /// Finish off the tuple (struct): close the parenthesis on its own line,
    /// returning the recorded error if any write failed.
    pub fn finish<W: Write>(&mut self, f: &mut W) -> (r: Result<(), Error>)
        ensures
            final(f).infallible() == old(f).infallible(),
            old(self).spec_err() matches Some(e) ==> r == Err::<(), Error>(e) && final(f).content()
                == old(f).content(),
            old(self).spec_err() is None && r is Ok ==> final(f).content() == old(f).content()
                + newline_indent(old(self).spec_depth() as nat) + seq![')'],
            old(self).spec_err() is None && r is Err ==> grew_by_prefix(
                old(f).content(),
                final(f).content(),
                newline_indent(old(self).spec_depth() as nat) + seq![')'],
            ),
            old(self).spec_err() is None && old(f).infallible() ==> r is Ok,
    {
        let ghost nl = newline_indent(old(self).spec_depth() as nat);
        match self.err {
            Some(e) => Err(e),
            None => {
                let r = write_newline_indent(f, self.depth);
                match r {
                    Ok(()) => {
                        let ghost pre = f.content();
                        let r2 = f.write_char(')');
                        proof {
                            if r2 is Err {
                                assert(pre =~= old(f).content() + nl);
                                lemma_grew_by_prefix_zero(pre, seq![')']);
                                assert(nl + seq![')'] =~= nl + seq![')'] + Seq::<char>::empty());
                                lemma_grew_by_prefix_mid(
                                    old(f).content(),
                                    f.content(),
                                    nl,
                                    seq![')'],
                                    Seq::<char>::empty(),
                                    nl + seq![')'],
                                );
                            }
                        }
                        r2
                    },
                    Err(e) => {
                        proof {
                            lemma_grew_by_prefix_widen(old(f).content(), f.content(), nl, seq![
                                ')',
                            ]);
                        }
                        self.err = Some(e);
                        Err(e)
                    },
                }
            },
        }
    }

    /// Finish off the tuple (struct) with a trailing `...` line for omitted
    /// fields, returning the recorded error if any write failed.
    pub fn non_exhaustive<W: Write>(&mut self, f: &mut W) -> (r: Result<(), Error>)
        requires
            old(self).spec_depth() < usize::MAX,
        ensures
            final(f).infallible() == old(f).infallible(),
            old(self).spec_err() matches Some(e) ==> r == Err::<(), Error>(e) && final(f).content()
                == old(f).content(),
            old(self).spec_err() is None && r is Ok ==> final(f).content() == old(f).content()
                + newline_indent((old(self).spec_depth() + 1) as nat) + seq!['.', '.', '.']
                + newline_indent(old(self).spec_depth() as nat) + seq![')'],
            old(self).spec_err() is None && r is Err ==> grew_by_prefix(
                old(f).content(),
                final(f).content(),
                newline_indent((old(self).spec_depth() + 1) as nat) + seq!['.', '.', '.']
                    + newline_indent(old(self).spec_depth() as nat) + seq![')'],
            ),
            old(self).spec_err() is None && old(f).infallible() ==> r is Ok,
    {
        let ghost nl1 = newline_indent((old(self).spec_depth() + 1) as nat);
        let ghost nl2 = newline_indent(old(self).spec_depth() as nat);
        let ghost whole = nl1 + seq!['.', '.', '.'] + nl2 + seq![')'];
        match self.err {
            Some(e) => Err(e),
            None => {
                match write_newline_indent(f, self.depth + 1) {
                    Ok(()) => (),
                    Err(e) => {
                        proof {
                            assert(old(f).content() + Seq::<char>::empty() =~= old(f).content());
                            assert(whole =~= Seq::<char>::empty() + nl1 + (seq!['.', '.', '.']
                                + nl2 + seq![')']));
                            lemma_grew_by_prefix_mid(
                                old(f).content(),
                                f.content(),
                                Seq::<char>::empty(),
                                nl1,
                                seq!['.', '.', '.'] + nl2 + seq![')'],
                                whole,
                            );
                        }
                        self.err = Some(e);
                        return Err(e);
                    },
                }
                proof {
                    reveal_strlit("...");
                    assert("..."@ =~= seq!['.', '.', '.']);
                }
                let ghost pre1 = f.content();
                match f.write_str("...") {
                    Ok(()) => (),
                    Err(e) => {
                        proof {
                            assert(pre1 =~= old(f).content() + nl1);
                            lemma_grew_by_prefix_zero(pre1, seq!['.', '.', '.']);
                            assert(whole =~= nl1 + seq!['.', '.', '.'] + (nl2 + seq![')']));
                            lemma_grew_by_prefix_mid(
                                old(f).content(),
                                f.content(),
                                nl1,
                                seq!['.', '.', '.'],
                                nl2 + seq![')'],
                                whole,
                            );
                        }
                        self.err = Some(e);
                        return Err(e);
                    },
                }
                let ghost pre2 = f.content();
                match write_newline_indent(f, self.depth) {
                    Ok(()) => (),
                    Err(e) => {
                        proof {
                            assert(pre2 =~= old(f).content() + (nl1 + seq!['.', '.', '.']));
                            assert(whole =~= (nl1 + seq!['.', '.', '.']) + nl2 + seq![')']);
                            lemma_grew_by_prefix_mid(
                                old(f).content(),
                                f.content(),
                                nl1 + seq!['.', '.', '.'],
                                nl2,
                                seq![')'],
                                whole,
                            );
                        }
                        self.err = Some(e);
                        return Err(e);
                    },
                }
                let ghost pre3 = f.content();
                let r = f.write_char(')');
                proof {
                    if r is Ok {
                        assert(f.content() =~= old(f).content() + newline_indent(
                            (old(self).spec_depth() + 1) as nat,
                        ) + seq!['.', '.', '.'] + newline_indent(old(self).spec_depth() as nat)
                            + seq![')']);
                    } else {
                        assert(pre3 =~= old(f).content() + (nl1 + seq!['.', '.', '.'] + nl2));
                        lemma_grew_by_prefix_zero(pre3, seq![')']);
                        assert(whole =~= (nl1 + seq!['.', '.', '.'] + nl2) + seq![')']
                            + Seq::<char>::empty());
                        lemma_grew_by_prefix_mid(
                            old(f).content(),
                            f.content(),
                            nl1 + seq!['.', '.', '.'] + nl2,
                            seq![')'],
                            Seq::<char>::empty(),
                            whole,
                        );
                    }
                }
                r
            },
        }
    }
}

/// A helper for pretty-printing structs and objects: one named field per
/// line, indented, each with a trailing comma.
///
/// If an error is encountered, any future calls will no-op.
pub struct PrettyStruct {
    depth: usize,
    err: Option<Error>,
}

impl PrettyStruct {
    /// The indentation depth the composite value opened at.
    pub closed spec fn spec_depth(&self) -> usize {
        self.depth
    }

    /// The first error encountered, if any.
    pub closed spec fn spec_err(&self) -> Option<Error> {
        self.err
    }

    /// Create a new `PrettyStruct`, writing the name and the opening brace.
    /// Leave `name` empty for formatting bare objects.
    pub fn new<W: Write>(f: &mut W, name: &str, depth: usize) -> (r: Self)
        ensures
            final(f).infallible() == old(f).infallible(),
            r.spec_depth() == depth,
            r.spec_err() is None ==> final(f).content() == old(f).content() + name@ + seq![
                ' ',
                '{',
            ],
            r.spec_err() is Some ==> grew_by_prefix(
                old(f).content(),
                final(f).content(),
                name@ + seq![' ', '{'],
            ),
            old(f).infallible() ==> r.spec_err() is None,
    {
        let err = match f.write_str(name) {
            Ok(()) => {
                proof {
                    reveal_strlit(" {");
                    assert(" {"@ =~= seq![' ', '{']);
                }
                match f.write_str(" {") {
                    Ok(()) => None,
                    Err(e) => {
                        proof {
                            assert((name@ + seq![' ', '{']).take(name@.len() as int) =~= name@);
                            assert(f.content() == old(f).content() + (name@ + seq![
                                ' ',
                                '{',
                            ]).take(name@.len() as int));
                            assert(grew_by_prefix(
                                old(f).content(),
                                f.content(),
                                name@ + seq![' ', '{'],
                            ));
                        }
                        Some(e)
                    },
                }
            },
            Err(e) => {
                proof {
                    lemma_grew_by_prefix_zero(old(f).content(), name@ + seq![' ', '{']);
                }
                Some(e)
            },
        };
        PrettyStruct { depth, err }
    }

    /// Format a named field using [`Pretty`] one level deeper; a no-op if an
    /// error was already recorded.
    pub fn field<T: Format<Pretty>, W: Write>(&mut self, f: &mut W, name: &str, data: &T)
        requires
            old(self).spec_depth() < usize::MAX,
        ensures
            final(f).infallible() == old(f).infallible(),
            final(self).spec_depth() == old(self).spec_depth(),
            old(self).spec_err() is Some ==> final(self).spec_err() == old(self).spec_err()
                && final(f).content() == old(f).content(),
            old(self).spec_err() is None && final(self).spec_err() is None ==> final(f).content()
                == old(f).content() + pretty_item_rep(
                dbg_field_rep(
                    name@,
                    data.rendering(&Pretty((old(self).spec_depth() + 1) as usize)),
                ),
                (old(self).spec_depth() + 1) as nat,
            ),
            old(self).spec_err() is None && final(self).spec_err() is Some ==> grew_by_prefix(
                old(f).content(),
                final(f).content(),
                pretty_item_rep(
                    dbg_field_rep(name@, data.rendering(&Pretty((old(self).spec_depth() + 1) as usize))),
                    (old(self).spec_depth() + 1) as nat,
                ),
            ),
            old(self).spec_err() is None && old(f).infallible() ==> final(self).spec_err() is None,
    {
        let depth = self.depth + 1;
        self.field_styled_at(f, name, data, &Pretty(depth))
    }

    /// Format a named field using the given style; a no-op if an error was
    /// already recorded. The field still stands on its own indented line.
    pub fn field_styled<T: Format<S>, S: Style, W: Write>(
        &mut self,
        f: &mut W,
        name: &str,
        data: &T,
        style: &S,
    )
        requires
            old(self).spec_depth() < usize::MAX,
        ensures
            final(f).infallible() == old(f).infallible(),
            final(self).spec_depth() == old(self).spec_depth(),
            old(self).spec_err() is Some ==> final(self).spec_err() == old(self).spec_err()
                && final(f).content() == old(f).content(),
            old(self).spec_err() is None && final(self).spec_err() is None ==> final(f).content()
                == old(f).content() + pretty_item_rep(
                dbg_field_rep(name@, data.rendering(style)),
                (old(self).spec_depth() + 1) as nat,
            ),
            old(self).spec_err() is None && final(self).spec_err() is Some ==> grew_by_prefix(
                old(f).content(),
                final(f).content(),
                pretty_item_rep(
                    dbg_field_rep(name@, data.rendering(style)),
                    (old(self).spec_depth() + 1) as nat,
                ),
            ),
            old(self).spec_err() is None && old(f).infallible() ==> final(self).spec_err() is None,
    {
        self.field_styled_at(f, name, data, style)
    }

    /// The shared body of `field` and `field_styled`.
    fn field_styled_at<T: Format<S>, S: Style, W: Write>(
        &mut self,
        f: &mut W,
        name: &str,
        data: &T,
        style: &S,
    )
        requires
            old(self).spec_depth() < usize::MAX,
        ensures
            final(f).infallible() == old(f).infallible(),
            final(self).spec_depth() == old(self).spec_depth(),
            old(self).spec_err() is Some ==> final(self).spec_err() == old(self).spec_err()
                && final(f).content() == old(f).content(),
            old(self).spec_err() is None && final(self).spec_err() is None ==> final(f).content()
                == old(f).content() + pretty_item_rep(
                dbg_field_rep(name@, data.rendering(style)),
                (old(self).spec_depth() + 1) as nat,
            ),
            old(self).spec_err() is None && final(self).spec_err() is Some ==> grew_by_prefix(
                old(f).content(),
                final(f).content(),
                pretty_item_rep(
                    dbg_field_rep(name@, data.rendering(style)),
                    (old(self).spec_depth() + 1) as nat,
                ),
            ),
            old(self).spec_err() is None && old(f).infallible() ==> final(self).spec_err() is None,
    {
        let ghost d1 = (old(self).spec_depth() + 1) as nat;
        let ghost nl = newline_indent(d1);
        let ghost rend = data.rendering(style);
        let ghost delta = pretty_item_rep(dbg_field_rep(name@, rend), d1);
        proof {
            assert(delta =~= nl + name@ + seq![':', ' '] + rend + seq![',']);
        }
        if self.err.is_none() {
            match write_newline_indent(f, self.depth + 1) {
                Ok(()) => (),
                Err(e) => {
                    proof {
                        assert(old(f).content() + Seq::<char>::empty() =~= old(f).content());
                        assert(delta =~= Seq::<char>::empty() + nl + (name@ + seq![':', ' ']
                            + rend + seq![',']));
                        lemma_grew_by_prefix_mid(
                            old(f).content(),
                            f.content(),
                            Seq::<char>::empty(),
                            nl,
                            name@ + seq![':', ' '] + rend + seq![','],
                            delta,
                        );
                    }
                    self.err = Some(e);
                },
            }
            if self.err.is_none() {
                let ghost pre1 = f.content();
                match f.write_str(name) {
                    Ok(()) => (),
                    Err(e) => {
                        proof {
                            assert(pre1 =~= old(f).content() + nl);
                            lemma_grew_by_prefix_zero(pre1, name@);
                            assert(delta =~= nl + name@ + (seq![':', ' '] + rend + seq![',']));
                            lemma_grew_by_prefix_mid(
                                old(f).content(),
                                f.content(),
                                nl,
                                name@,
                                seq![':', ' '] + rend + seq![','],
                                delta,
                            );
                        }
                        self.err = Some(e);
                    },
                }
            }
            if self.err.is_none() {
                proof {
                    reveal_strlit(": ");
                    assert(": "@ =~= seq![':', ' ']);
                }
                let ghost pre2 = f.content();
                match f.write_str(": ") {
                    Ok(()) => (),
                    Err(e) => {
                        proof {
                            assert(pre2 =~= old(f).content() + (nl + name@));
                            lemma_grew_by_prefix_zero(pre2, seq![':', ' ']);
                            assert(delta =~= (nl + name@) + seq![':', ' '] + (rend + seq![',']));
                            lemma_grew_by_prefix_mid(
                                old(f).content(),
                                f.content(),
                                nl + name@,
                                seq![':', ' '],
                                rend + seq![','],
                                delta,
                            );
                        }
                        self.err = Some(e);
                    },
                }
            }
            if self.err.is_none() {
                let ghost pre3 = f.content();
                match data.fmt(f, style) {
                    Ok(()) => (),
                    Err(e) => {
                        proof {
                            assert(pre3 =~= old(f).content() + (nl + name@ + seq![':', ' ']));
                            assert(delta =~= (nl + name@ + seq![':', ' ']) + rend + seq![',']);
                            lemma_grew_by_prefix_mid(
                                old(f).content(),
                                f.content(),
                                nl + name@ + seq![':', ' '],
                                rend,
                                seq![','],
                                delta,
                            );
                        }
                        self.err = Some(e);
                    },
                }
            }
            if self.err.is_none() {
                let ghost pre4 = f.content();
                match f.write_char(',') {
                    Ok(()) => (),
                    Err(e) => {
                        proof {
                            assert(pre4 =~= old(f).content() + (nl + name@ + seq![':', ' ']
                                + rend));
                            lemma_grew_by_prefix_zero(pre4, seq![',']);
                            assert(delta =~= (nl + name@ + seq![':', ' '] + rend) + seq![',']
                                + Seq::<char>::empty());
                            lemma_grew_by_prefix_mid(
                                old(f).content(),
                                f.content(),
                                nl + name@ + seq![':', ' '] + rend,
                                seq![','],
                                Seq::<char>::empty(),
                                delta,
                            );
                        }
                        self.err = Some(e);
                    },
                }
            }
        }
    }

    /// Finish off the struct (or object): close the brace on its own line,
    /// returning the recorded error if any write failed.
    pub fn finish<W: Write>(&mut self, f: &mut W) -> (r: Result<(), Error>)
        ensures
            final(f).infallible() == old(f).infallible(),
            old(self).spec_err() matches Some(e) ==> r == Err::<(), Error>(e) && final(f).content()
                == old(f).content(),
            old(self).spec_err() is None && r is Ok ==> final(f).content() == old(f).content()
                + newline_indent(old(self).spec_depth() as nat) + seq!['}'],
            old(self).spec_err() is None && r is Err ==> grew_by_prefix(
                old(f).content(),
                final(f).content(),
                newline_indent(old(self).spec_depth() as nat) + seq!['}'],
            ),
            old(self).spec_err() is None && old(f).infallible() ==> r is Ok,
    {
        let ghost nl = newline_indent(old(self).spec_depth() as nat);
        match self.err {
            Some(e) => Err(e),
            None => {
                let r = write_newline_indent(f, self.depth);
                match r {
                    Ok(()) => {
                        let ghost pre = f.content();
                        let r2 = f.write_char('}');
                        proof {
                            if r2 is Err {
                                assert(pre =~= old(f).content() + nl);
                                lemma_grew_by_prefix_zero(pre, seq!['}']);
                                assert(nl + seq!['}'] =~= nl + seq!['}'] + Seq::<char>::empty());
                                lemma_grew_by_prefix_mid(
                                    old(f).content(),
                                    f.content(),
                                    nl,
                                    seq!['}'],
                                    Seq::<char>::empty(),
                                    nl + seq!['}'],
                                );
                            }
                        }
                        r2
                    },
                    Err(e) => {
                        proof {
                            lemma_grew_by_prefix_widen(old(f).content(), f.content(), nl, seq![
                                '}',
                            ]);
                        }
                        self.err = Some(e);
                        Err(e)
                    },
                }
            },
        }
    }

    /// Finish off the struct (or object) with a trailing `...` line for
    /// omitted fields, returning the recorded error if any write failed.
    pub fn non_exhaustive<W: Write>(&mut self, f: &mut W) -> (r: Result<(), Error>)
        requires
            old(self).spec_depth() < usize::MAX,
        ensures
            final(f).infallible() == old(f).infallible(),
            old(self).spec_err() matches Some(e) ==> r == Err::<(), Error>(e) && final(f).content()
                == old(f).content(),
            old(self).spec_err() is None && r is Ok ==> final(f).content() == old(f).content()
                + newline_indent((old(self).spec_depth() + 1) as nat) + seq!['.', '.', '.']
                + newline_indent(old(self).spec_depth() as nat) + seq!['}'],
            old(self).spec_err() is None && r is Err ==> grew_by_prefix(
                old(f).content(),
                final(f).content(),
                newline_indent((old(self).spec_depth() + 1) as nat) + seq!['.', '.', '.']
                    + newline_indent(old(self).spec_depth() as nat) + seq!['}'],
            ),
            old(self).spec_err() is None && old(f).infallible() ==> r is Ok,
    {
        let ghost nl1 = newline_indent((old(self).spec_depth() + 1) as nat);
        let ghost nl2 = newline_indent(old(self).spec_depth() as nat);
        let ghost whole = nl1 + seq!['.', '.', '.'] + nl2 + seq!['}'];
        match self.err {
            Some(e) => Err(e),
            None => {
                match write_newline_indent(f, self.depth + 1) {
                    Ok(()) => (),
                    Err(e) => {
                        proof {
                            assert(old(f).content() + Seq::<char>::empty() =~= old(f).content());
                            assert(whole =~= Seq::<char>::empty() + nl1 + (seq!['.', '.', '.']
                                + nl2 + seq!['}']));
                            lemma_grew_by_prefix_mid(
                                old(f).content(),
                                f.content(),
                                Seq::<char>::empty(),
                                nl1,
                                seq!['.', '.', '.'] + nl2 + seq!['}'],
                                whole,
                            );
                        }
                        self.err = Some(e);
                        return Err(e);
                    },
                }
                proof {
                    reveal_strlit("...");
                    assert("..."@ =~= seq!['.', '.', '.']);
                }
                let ghost pre1 = f.content();
                match f.write_str("...") {
                    Ok(()) => (),
                    Err(e) => {
                        proof {
                            assert(pre1 =~= old(f).content() + nl1);
                            lemma_grew_by_prefix_zero(pre1, seq!['.', '.', '.']);
                            assert(whole =~= nl1 + seq!['.', '.', '.'] + (nl2 + seq!['}']));
                            lemma_grew_by_prefix_mid(
                                old(f).content(),
                                f.content(),
                                nl1,
                                seq!['.', '.', '.'],
                                nl2 + seq!['}'],
                                whole,
                            );
                        }
                        self.err = Some(e);
                        return Err(e);
                    },
                }
                let ghost pre2 = f.content();
                match write_newline_indent(f, self.depth) {
                    Ok(()) => (),
                    Err(e) => {
                        proof {
                            assert(pre2 =~= old(f).content() + (nl1 + seq!['.', '.', '.']));
                            assert(whole =~= (nl1 + seq!['.', '.', '.']) + nl2 + seq!['}']);
                            lemma_grew_by_prefix_mid(
                                old(f).content(),
                                f.content(),
                                nl1 + seq!['.', '.', '.'],
                                nl2,
                                seq!['}'],
                                whole,
                            );
                        }
                        self.err = Some(e);
                        return Err(e);
                    },
                }
                let ghost pre3 = f.content();
                let r = f.write_char('}');
                proof {
                    if r is Ok {
                        assert(f.content() =~= old(f).content() + newline_indent(
                            (old(self).spec_depth() + 1) as nat,
                        ) + seq!['.', '.', '.'] + newline_indent(old(self).spec_depth() as nat)
                            + seq!['}']);
                    } else {
                        assert(pre3 =~= old(f).content() + (nl1 + seq!['.', '.', '.'] + nl2));
                        lemma_grew_by_prefix_zero(pre3, seq!['}']);
                        assert(whole =~= (nl1 + seq!['.', '.', '.'] + nl2) + seq!['}']
                            + Seq::<char>::empty());
                        lemma_grew_by_prefix_mid(
                            old(f).content(),
                            f.content(),
                            nl1 + seq!['.', '.', '.'] + nl2,
                            seq!['}'],
                            Seq::<char>::empty(),
                            whole,
                        );
                    }
                }
                r
            },
        }
    }
}

} // verus!
