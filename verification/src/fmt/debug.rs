//! Builders that assemble one `Debug`-rendered composite value: a tuple
//! (struct) or a struct, tracking separator state and the first error.
//!
//! Once any write fails, the builder records the error and every later
//! operation is a no-op; `finish` surfaces the recorded error.

use vstd::prelude::*;

use crate::fmt::repr::{
    grew_by_prefix, lemma_grew_by_prefix_mid, lemma_grew_by_prefix_zero, sep_rep,
};
use crate::fmt::{Error, Format, Style, Write};

verus! {

impl crate::fmt::Debug {
    /// Assists with formatting tuple structs (or tuples, when `name` is
    /// empty).
    pub fn dbg_tuple<W: Write>(&self, f: &mut W, name: &str) -> (r: DebugTuple)
        ensures
            final(f).infallible() == old(f).infallible(),
            r.spec_first(),
            r.spec_err() is None ==> final(f).content() == old(f).content() + name@ + seq!['('],
            old(f).infallible() ==> r.spec_err() is None,
    {
        DebugTuple::new(f, name)
    }

    /// Assists with formatting structs (or objects, when `name` is empty).
    pub fn dbg_struct<W: Write>(&self, f: &mut W, name: &str) -> (r: DebugStruct)
        ensures
            final(f).infallible() == old(f).infallible(),
            r.spec_first(),
            r.spec_err() is None ==> final(f).content() == old(f).content() + name@ + seq![
                ' ',
                '{',
                ' ',
            ],
            old(f).infallible() ==> r.spec_err() is None,
    {
        DebugStruct::new(f, name)
    }
}

/// Write the `", "` separator between fields.
pub(crate) fn write_sep<W: Write>(f: &mut W) -> (r: Result<(), Error>)
    ensures
        final(f).infallible() == old(f).infallible(),
        r is Ok ==> final(f).content() == old(f).content() + sep_rep(),
        r is Err ==> final(f).content() == old(f).content(),
        old(f).infallible() ==> r is Ok,
{
    proof {
        reveal_strlit(", ");
        assert(", "@ =~= sep_rep());
    }
    f.write_str(", ")
}

/// A helper for formatting tuples and tuple structs.
///
/// If an error is encountered, any future calls will no-op.
pub struct DebugTuple {
    first: bool,
    err: Option<Error>,
}

impl DebugTuple {
    /// Whether no field has been written yet.
    pub closed spec fn spec_first(&self) -> bool {
        self.first
    }

    /// The first error encountered, if any.
    pub closed spec fn spec_err(&self) -> Option<Error> {
        self.err
    }

    /// Create a new `DebugTuple`, writing the name and the opening
    /// parenthesis. Leave `name` empty for formatting bare tuples.
    pub fn new<W: Write>(f: &mut W, name: &str) -> (r: Self)
        ensures
            final(f).infallible() == old(f).infallible(),
            r.spec_first(),
            r.spec_err() is None ==> final(f).content() == old(f).content() + name@ + seq!['('],
            r.spec_err() is Some ==> grew_by_prefix(
                old(f).content(),
                final(f).content(),
                name@ + seq!['('],
            ),
            old(f).infallible() ==> r.spec_err() is None,
    {
        let err = match f.write_str(name) {
            Ok(()) => match f.write_char('(') {
                Ok(()) => None,
                Err(e) => {
                    proof {
                        assert((name@ + seq!['(']).take(name@.len() as int) =~= name@);
                        assert(f.content() == old(f).content() + (name@ + seq!['(']).take(
                            name@.len() as int,
                        ));
                        assert(grew_by_prefix(old(f).content(), f.content(), name@ + seq!['(']));
                    }
                    Some(e)
                },
            },
            Err(e) => {
                proof {
                    lemma_grew_by_prefix_zero(old(f).content(), name@ + seq!['(']);
                }
                Some(e)
            },
        };
        DebugTuple { first: true, err }
    }

    /// Format a field using [`Debug`](crate::fmt::Debug); a no-op if an
    /// error was already recorded.
    pub fn field<T: Format<crate::fmt::Debug>, W: Write>(&mut self, f: &mut W, data: &T)
        ensures
            final(f).infallible() == old(f).infallible(),
            !final(self).spec_first(),
            old(self).spec_err() is Some ==> final(self).spec_err() == old(self).spec_err()
                && final(f).content() == old(f).content(),
            old(self).spec_err() is None && final(self).spec_err() is None ==> final(f).content()
                == old(f).content() + (if old(self).spec_first() {
                Seq::<char>::empty()
            } else {
                sep_rep()
            }) + data.rendering(&crate::fmt::Debug),
            old(self).spec_err() is None && final(self).spec_err() is Some ==> grew_by_prefix(
                old(f).content(),
                final(f).content(),
                (if old(self).spec_first() {
                    Seq::<char>::empty()
                } else {
                    sep_rep()
                }) + data.rendering(&crate::fmt::Debug),
            ),
            old(self).spec_err() is None && old(f).infallible() ==> final(self).spec_err() is None,
    {
        self.field_styled(f, data, &crate::fmt::Debug)
    }

    /// Format a field using the given style; a no-op if an error was already
    /// recorded.
    pub fn field_styled<T: Format<S>, S: Style, W: Write>(
        &mut self,
        f: &mut W,
        data: &T,
        style: &S,
    )
        ensures
            final(f).infallible() == old(f).infallible(),
            !final(self).spec_first(),
            old(self).spec_err() is Some ==> final(self).spec_err() == old(self).spec_err()
                && final(f).content() == old(f).content(),
            old(self).spec_err() is None && final(self).spec_err() is None ==> final(f).content()
                == old(f).content() + (if old(self).spec_first() {
                Seq::<char>::empty()
            } else {
                sep_rep()
            }) + data.rendering(style),
            old(self).spec_err() is None && final(self).spec_err() is Some ==> grew_by_prefix(
                old(f).content(),
                final(f).content(),
                (if old(self).spec_first() {
                    Seq::<char>::empty()
                } else {
                    sep_rep()
                }) + data.rendering(style),
            ),
            old(self).spec_err() is None && old(f).infallible() ==> final(self).spec_err() is None,
    {
        let ghost delta = (if old(self).spec_first() {
            Seq::<char>::empty()
        } else {
            sep_rep()
        }) + data.rendering(style);
        if self.err.is_none() {
            if !self.first {
                match write_sep(f) {
                    Ok(()) => (),
                    Err(e) => {
                        proof {
                            lemma_grew_by_prefix_zero(old(f).content(), delta);
                        }
                        self.err = Some(e);
                    },
                }
            }
            if self.err.is_none() {
                let ghost pre = f.content();
                match data.fmt(f, style) {
                    Ok(()) => (),
                    Err(e) => {
                        proof {
                            if old(self).spec_first() {
                                assert(pre =~= old(f).content() + Seq::<char>::empty());
                                assert(delta =~= Seq::<char>::empty() + data.rendering(style)
                                    + Seq::<char>::empty());
                                lemma_grew_by_prefix_mid(
                                    old(f).content(),
                                    f.content(),
                                    Seq::<char>::empty(),
                                    data.rendering(style),
                                    Seq::<char>::empty(),
                                    delta,
                                );
                            } else {
                                assert(pre =~= old(f).content() + sep_rep());
                                assert(delta =~= sep_rep() + data.rendering(style)
                                    + Seq::<char>::empty());
                                lemma_grew_by_prefix_mid(
                                    old(f).content(),
                                    f.content(),
                                    sep_rep(),
                                    data.rendering(style),
                                    Seq::<char>::empty(),
                                    delta,
                                );
                            }
                        }
                        self.err = Some(e);
                    },
                }
            }
        }
        self.first = false;
    }

    /// Finish off the tuple (struct), returning the recorded error if any
    /// write failed.
    pub fn finish<W: Write>(&mut self, f: &mut W) -> (r: Result<(), Error>)
        ensures
            final(f).infallible() == old(f).infallible(),
            *final(self) == *old(self),
            old(self).spec_err() matches Some(e) ==> r == Err::<(), Error>(e) && final(f).content()
                == old(f).content(),
            old(self).spec_err() is None && r is Ok ==> final(f).content() == old(f).content()
                + seq![')'],
            r is Err ==> final(f).content() == old(f).content(),
            old(self).spec_err() is None && old(f).infallible() ==> r is Ok,
    {
        match self.err {
            Some(e) => Err(e),
            None => f.write_char(')'),
        }
    }

    /// Finish off the tuple (struct) with a trailing `...` marker for
    /// omitted fields, returning the recorded error if any write failed.
    pub fn non_exhaustive<W: Write>(&mut self, f: &mut W) -> (r: Result<(), Error>)
        ensures
            final(f).infallible() == old(f).infallible(),
            old(self).spec_err() matches Some(e) ==> r == Err::<(), Error>(e) && final(f).content()
                == old(f).content(),
            old(self).spec_err() is None && r is Ok ==> final(f).content() == old(f).content() + (
            if old(self).spec_first() {
                Seq::<char>::empty()
            } else {
                sep_rep()
            }) + seq!['.', '.', '.', ')'],
            old(self).spec_err() is None && r is Err ==> grew_by_prefix(
                old(f).content(),
                final(f).content(),
                (if old(self).spec_first() {
                    Seq::<char>::empty()
                } else {
                    sep_rep()
                }) + seq!['.', '.', '.', ')'],
            ),
            old(self).spec_err() is None && old(f).infallible() ==> r is Ok,
    {
        let ghost sepor: Seq<char> = if old(self).spec_first() {
            Seq::<char>::empty()
        } else {
            sep_rep()
        };
        let ghost delta = sepor + seq!['.', '.', '.', ')'];
        if self.err.is_none() && !self.first {
            match write_sep(f) {
                Ok(()) => (),
                Err(e) => {
                    proof {
                        lemma_grew_by_prefix_zero(old(f).content(), delta);
                    }
                    self.err = Some(e);
                },
            }
        }
        match self.err {
            Some(e) => Err(e),
            None => {
                proof {
                    reveal_strlit("...)");
                    assert("...)"@ =~= seq!['.', '.', '.', ')']);
                }
                let ghost pre = f.content();
                let r = f.write_str("...)");
                proof {
                    if r is Ok {
                        assert(f.content() =~= old(f).content() + (if old(self).spec_first() {
                            Seq::<char>::empty()
                        } else {
                            sep_rep()
                        }) + seq!['.', '.', '.', ')']);
                    } else {
                        assert(pre =~= old(f).content() + sepor);
                        lemma_grew_by_prefix_zero(pre, seq!['.', '.', '.', ')']);
                        assert(delta =~= sepor + seq!['.', '.', '.', ')'] + Seq::<char>::empty());
                        lemma_grew_by_prefix_mid(
                            old(f).content(),
                            f.content(),
                            sepor,
                            seq!['.', '.', '.', ')'],
                            Seq::<char>::empty(),
                            delta,
                        );
                    }
                }
                r
            },
        }
    }
}

/// A helper for formatting structs and objects.
///
/// If an error is encountered, any future calls will no-op.
pub struct DebugStruct {
    first: bool,
    err: Option<Error>,
}

impl DebugStruct {
    /// Whether no field has been written yet.
    pub closed spec fn spec_first(&self) -> bool {
        self.first
    }

    /// The first error encountered, if any.
    pub closed spec fn spec_err(&self) -> Option<Error> {
        self.err
    }

    /// Create a new `DebugStruct`, writing the name and the opening brace.
    /// Leave `name` empty for formatting bare objects.
    pub fn new<W: Write>(f: &mut W, name: &str) -> (r: Self)
        ensures
            final(f).infallible() == old(f).infallible(),
            r.spec_first(),
            r.spec_err() is None ==> final(f).content() == old(f).content() + name@ + seq![
                ' ',
                '{',
                ' ',
            ],
            r.spec_err() is Some ==> grew_by_prefix(
                old(f).content(),
                final(f).content(),
                name@ + seq![' ', '{', ' '],
            ),
            old(f).infallible() ==> r.spec_err() is None,
    {
        let err = match f.write_str(name) {
            Ok(()) => {
                proof {
                    reveal_strlit(" { ");
                    assert(" { "@ =~= seq![' ', '{', ' ']);
                }
                match f.write_str(" { ") {
                    Ok(()) => None,
                    Err(e) => {
                        proof {
                            assert((name@ + seq![' ', '{', ' ']).take(name@.len() as int)
                                =~= name@);
                            assert(f.content() == old(f).content() + (name@ + seq![
                                ' ',
                                '{',
                                ' ',
                            ]).take(name@.len() as int));
                            assert(grew_by_prefix(
                                old(f).content(),
                                f.content(),
                                name@ + seq![' ', '{', ' '],
                            ));
                        }
                        Some(e)
                    },
                }
            },
            Err(e) => {
                proof {
                    lemma_grew_by_prefix_zero(old(f).content(), name@ + seq![' ', '{', ' ']);
                }
                Some(e)
            },
        };
        DebugStruct { first: true, err }
    }

    /// Format a named field using [`Debug`](crate::fmt::Debug); a no-op if
    /// an error was already recorded.
    pub fn field<T: Format<crate::fmt::Debug>, W: Write>(
        &mut self,
        f: &mut W,
        name: &str,
        data: &T,
    )
        ensures
            final(f).infallible() == old(f).infallible(),
            !final(self).spec_first(),
            old(self).spec_err() is Some ==> final(self).spec_err() == old(self).spec_err()
                && final(f).content() == old(f).content(),
            old(self).spec_err() is None && final(self).spec_err() is None ==> final(f).content()
                == old(f).content() + (if old(self).spec_first() {
                Seq::<char>::empty()
            } else {
                sep_rep()
            }) + name@ + seq![':', ' '] + data.rendering(&crate::fmt::Debug),
            old(self).spec_err() is None && final(self).spec_err() is Some ==> grew_by_prefix(
                old(f).content(),
                final(f).content(),
                (if old(self).spec_first() {
                    Seq::<char>::empty()
                } else {
                    sep_rep()
                }) + name@ + seq![':', ' '] + data.rendering(&crate::fmt::Debug),
            ),
            old(self).spec_err() is None && old(f).infallible() ==> final(self).spec_err() is None,
    {
        self.field_styled(f, name, data, &crate::fmt::Debug)
    }

    /// Format a named field using the given style; a no-op if an error was
    /// already recorded.
    pub fn field_styled<T: Format<S>, S: Style, W: Write>(
        &mut self,
        f: &mut W,
        name: &str,
        data: &T,
        style: &S,
    )
        ensures
            final(f).infallible() == old(f).infallible(),
            !final(self).spec_first(),
            old(self).spec_err() is Some ==> final(self).spec_err() == old(self).spec_err()
                && final(f).content() == old(f).content(),
            old(self).spec_err() is None && final(self).spec_err() is None ==> final(f).content()
                == old(f).content() + (if old(self).spec_first() {
                Seq::<char>::empty()
            } else {
                sep_rep()
            }) + name@ + seq![':', ' '] + data.rendering(style),
            old(self).spec_err() is None && final(self).spec_err() is Some ==> grew_by_prefix(
                old(f).content(),
                final(f).content(),
                (if old(self).spec_first() {
                    Seq::<char>::empty()
                } else {
                    sep_rep()
                }) + name@ + seq![':', ' '] + data.rendering(style),
            ),
            old(self).spec_err() is None && old(f).infallible() ==> final(self).spec_err() is None,
    {
        let ghost sepor: Seq<char> = if old(self).spec_first() {
            Seq::<char>::empty()
        } else {
            sep_rep()
        };
        let ghost delta = sepor + name@ + seq![':', ' '] + data.rendering(style);
        if self.err.is_none() {
            if !self.first {
                match write_sep(f) {
                    Ok(()) => (),
                    Err(e) => {
                        proof {
                            lemma_grew_by_prefix_zero(old(f).content(), delta);
                        }
                        self.err = Some(e);
                    },
                }
            }
            if self.err.is_none() {
                let ghost pre1 = f.content();
                match f.write_str(name) {
                    Ok(()) => (),
                    Err(e) => {
                        proof {
                            assert(pre1 =~= old(f).content() + sepor);
                            lemma_grew_by_prefix_zero(pre1, name@);
                            assert(delta =~= sepor + name@ + (seq![':', ' '] + data.rendering(
                                style,
                            )));
                            lemma_grew_by_prefix_mid(
                                old(f).content(),
                                f.content(),
                                sepor,
                                name@,
                                seq![':', ' '] + data.rendering(style),
                                delta,
                            );
                        }
                        self.err = Some(e);
                    },
                }
            }
            if self.err.is_none() {
                proof {
                    reveal_strlit(": ");
                    assert(": "@ =~= seq![':', ' ']);
                }
                let ghost pre2 = f.content();
                match f.write_str(": ") {
                    Ok(()) => (),
                    Err(e) => {
                        proof {
                            assert(pre2 =~= old(f).content() + (sepor + name@));
                            lemma_grew_by_prefix_zero(pre2, seq![':', ' ']);
                            assert(delta =~= (sepor + name@) + seq![':', ' '] + data.rendering(
                                style,
                            ));
                            lemma_grew_by_prefix_mid(
                                old(f).content(),
                                f.content(),
                                sepor + name@,
                                seq![':', ' '],
                                data.rendering(style),
                                delta,
                            );
                        }
                        self.err = Some(e);
                    },
                }
            }
            if self.err.is_none() {
                let ghost pre3 = f.content();
                match data.fmt(f, style) {
                    Ok(()) => (),
                    Err(e) => {
                        proof {
                            assert(pre3 =~= old(f).content() + (sepor + name@ + seq![':', ' ']));
                            assert(delta =~= (sepor + name@ + seq![':', ' ']) + data.rendering(
                                style,
                            ) + Seq::<char>::empty());
                            lemma_grew_by_prefix_mid(
                                old(f).content(),
                                f.content(),
                                sepor + name@ + seq![':', ' '],
                                data.rendering(style),
                                Seq::<char>::empty(),
                                delta,
                            );
                        }
                        self.err = Some(e);
                    },
                }
            }
        }
        self.first = false;
    }

    /// Finish off the struct (or object), returning the recorded error if
    /// any write failed.
    pub fn finish<W: Write>(&mut self, f: &mut W) -> (r: Result<(), Error>)
        ensures
            final(f).infallible() == old(f).infallible(),
            *final(self) == *old(self),
            old(self).spec_err() matches Some(e) ==> r == Err::<(), Error>(e) && final(f).content()
                == old(f).content(),
            old(self).spec_err() is None && r is Ok ==> final(f).content() == old(f).content()
                + seq![' ', '}'],
            r is Err ==> final(f).content() == old(f).content(),
            old(self).spec_err() is None && old(f).infallible() ==> r is Ok,
    {
        match self.err {
            Some(e) => Err(e),
            None => {
                proof {
                    reveal_strlit(" }");
                    assert(" }"@ =~= seq![' ', '}']);
                }
                f.write_str(" }")
            },
        }
    }

    /// Finish off the struct (or object) with a trailing `...` marker for
    /// omitted fields, returning the recorded error if any write failed.
    pub fn non_exhaustive<W: Write>(&mut self, f: &mut W) -> (r: Result<(), Error>)
        ensures
            final(f).infallible() == old(f).infallible(),
            old(self).spec_err() matches Some(e) ==> r == Err::<(), Error>(e) && final(f).content()
                == old(f).content(),
            old(self).spec_err() is None && r is Ok ==> final(f).content() == old(f).content() + (
            if old(self).spec_first() {
                Seq::<char>::empty()
            } else {
                sep_rep()
            }) + seq!['.', '.', '.', ' ', '}'],
            old(self).spec_err() is None && r is Err ==> grew_by_prefix(
                old(f).content(),
                final(f).content(),
                (if old(self).spec_first() {
                    Seq::<char>::empty()
                } else {
                    sep_rep()
                }) + seq!['.', '.', '.', ' ', '}'],
            ),
            old(self).spec_err() is None && old(f).infallible() ==> r is Ok,
    {
        let ghost sepor: Seq<char> = if old(self).spec_first() {
            Seq::<char>::empty()
        } else {
            sep_rep()
        };
        let ghost delta = sepor + seq!['.', '.', '.', ' ', '}'];
        if self.err.is_none() && !self.first {
            match write_sep(f) {
                Ok(()) => (),
                Err(e) => {
                    proof {
                        lemma_grew_by_prefix_zero(old(f).content(), delta);
                    }
                    self.err = Some(e);
                },
            }
        }
        match self.err {
            Some(e) => Err(e),
            None => {
                proof {
                    reveal_strlit("... }");
                    assert("... }"@ =~= seq!['.', '.', '.', ' ', '}']);
                }
                let ghost pre = f.content();
                let r = f.write_str("... }");
                proof {
                    if r is Ok {
                        assert(f.content() =~= old(f).content() + (if old(self).spec_first() {
                            Seq::<char>::empty()
                        } else {
                            sep_rep()
                        }) + seq!['.', '.', '.', ' ', '}']);
                    } else {
                        assert(pre =~= old(f).content() + sepor);
                        lemma_grew_by_prefix_zero(pre, seq!['.', '.', '.', ' ', '}']);
                        assert(delta =~= sepor + seq!['.', '.', '.', ' ', '}']
                            + Seq::<char>::empty());
                        lemma_grew_by_prefix_mid(
                            old(f).content(),
                            f.content(),
                            sepor,
                            seq!['.', '.', '.', ' ', '}'],
                            Seq::<char>::empty(),
                            delta,
                        );
                    }
                }
                r
            },
        }
    }
}

} // verus!
