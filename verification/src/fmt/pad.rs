//! The padding modifier style.

use vstd::prelude::*;

use crate::fmt::repr::{
    grew_by_prefix, lemma_grew_by_prefix_mid, measured_width, pad_deficit, pad_rep, repeat_char,
};
use crate::fmt::{Error, Format, Modifier, Style, Write};
use crate::io::Counter;

verus! {

/// Write `n` copies of the fill character.
pub(crate) fn write_fill<W: Write>(f: &mut W, c: char, n: usize) -> (r: Result<(), Error>)
    ensures
        final(f).infallible() == old(f).infallible(),
        r is Ok ==> final(f).content() == old(f).content() + repeat_char(c, n as nat),
        r is Err ==> grew_by_prefix(old(f).content(), final(f).content(), repeat_char(c, n as nat)),
        old(f).infallible() ==> r is Ok,
{
    let mut k: usize = 0;
    while k < n
        invariant
            k <= n,
            f.infallible() == old(f).infallible(),
            f.content() == old(f).content() + repeat_char(c, k as nat),
        decreases n - k,
    {
        match f.write_char(c) {
            Ok(()) => (),
            Err(e) => {
                proof {
                    assert(repeat_char(c, k as nat) =~= repeat_char(c, n as nat).take(k as int));
                    assert(f.content() == old(f).content() + repeat_char(c, n as nat).take(
                        k as int,
                    ));
                    assert(grew_by_prefix(
                        old(f).content(),
                        f.content(),
                        repeat_char(c, n as nat),
                    ));
                }
                return Err(e);
            },
        }
        proof {
            assert(repeat_char(c, (k + 1) as nat) =~= repeat_char(c, k as nat) + seq![c]);
            assert(f.content() =~= old(f).content() + repeat_char(c, (k + 1) as nat));
        }
        k = k + 1;
    }
    Ok(())
}

/// Where the rendered text is placed within the padding.
#[derive(Debug, Clone, Copy, PartialEq, Eq, Hash)]
pub enum Dir {
    /// Text first, fill characters after.
    Left,
    /// Fill characters split around the text; the odd character goes after.
    Center,
    /// Fill characters first, text after.
    Right,
}

/// How the padding target width is interpreted.
#[derive(Default, Debug, Clone, Copy, PartialEq, Eq, Hash)]
pub enum Kind {
    /// Pad until the text is at least `count` characters wide.
    #[default]
    Full,
    /// Pad until the width is a multiple of `count` characters.
    Mod,
}

/// Pads the wrapped style's rendering with a fill character until it reaches
/// a target width.
#[derive(Clone, Copy, PartialEq, Eq)]
pub struct Pad<S> {
    /// Where to place the rendered text.
    pub align: Dir,
    /// The character to pad with.
    pub with: char,
    /// The width to target when padding.
    pub count: usize,
    /// How the target width is interpreted.
    pub kind: Kind,
    /// The style being wrapped by this modifier.
    pub style: S,
}

impl<S: Style> Style for Pad<S> {}

impl<S: Style> Pad<S> {
    /// Pad left: `Pad { align: Dir::Left, with, count, kind: Kind::Full, style }`.
    pub fn left(with: char, count: usize, style: S) -> (r: Self)
        ensures
            r == (Pad { align: Dir::Left, with, count, kind: Kind::Full, style }),
    {
        Pad { align: Dir::Left, with, count, kind: Kind::Full, style }
    }

    /// Pad to the center: `Pad { align: Dir::Center, with, count, kind: Kind::Full, style }`.
    pub fn center(with: char, count: usize, style: S) -> (r: Self)
        ensures
            r == (Pad { align: Dir::Center, with, count, kind: Kind::Full, style }),
    {
        Pad { align: Dir::Center, with, count, kind: Kind::Full, style }
    }

    /// Pad right: `Pad { align: Dir::Right, with, count, kind: Kind::Full, style }`.
    pub fn right(with: char, count: usize, style: S) -> (r: Self)
        ensures
            r == (Pad { align: Dir::Right, with, count, kind: Kind::Full, style }),
    {
        Pad { align: Dir::Right, with, count, kind: Kind::Full, style }
    }

    /// Pad left in multiples: `Pad { align: Dir::Left, with, count, kind: Kind::Mod, style }`.
    pub fn left_mod(with: char, count: usize, style: S) -> (r: Self)
        ensures
            r == (Pad { align: Dir::Left, with, count, kind: Kind::Mod, style }),
    {
        Pad { align: Dir::Left, with, count, kind: Kind::Mod, style }
    }

    /// Pad to the center in multiples: `Pad { align: Dir::Center, with, count, kind: Kind::Mod, style }`.
    pub fn center_mod(with: char, count: usize, style: S) -> (r: Self)
        ensures
            r == (Pad { align: Dir::Center, with, count, kind: Kind::Mod, style }),
    {
        Pad { align: Dir::Center, with, count, kind: Kind::Mod, style }
    }

    /// Pad right in multiples: `Pad { align: Dir::Right, with, count, kind: Kind::Mod, style }`.
    pub fn right_mod(with: char, count: usize, style: S) -> (r: Self)
        ensures
            r == (Pad { align: Dir::Right, with, count, kind: Kind::Mod, style }),
    {
        Pad { align: Dir::Right, with, count, kind: Kind::Mod, style }
    }
}

impl<S: Style> Modifier for Pad<S> {
    type Inner = S;

    open spec fn inner(&self) -> S {
        self.style
    }

    open spec fn transformed(&self, inner_text: Seq<char>) -> Seq<char> {
        pad_rep(
            self.align,
            self.with,
            pad_deficit(self.kind, self.count as nat, measured_width(inner_text.len())),
            inner_text,
        )
    }

    #[verifier::rlimit(50)]
    fn apply<T: Format<S>, W: Write>(&self, f: &mut W, data: &T) -> (r: Result<(), Error>) {
        let ghost inner_text = data.rendering(&self.style);

        let ghost whole = self.transformed(inner_text);
        let mut counter = Counter::new();
        match data.fmt(&mut counter, &self.style) {
            Ok(()) => (),
            Err(e) => {
                // the counting sink never refuses a write
                proof {
                    assert(false);
                }
                return Err(e);
            },
        }
        let width = counter.count();
        proof {
            assert(width == measured_width(inner_text.len()));
        }

        let chs: usize = match self.kind {
            Kind::Full => if width >= self.count {
                0
            } else {
                self.count - width
            },
            Kind::Mod => if self.count == 0 || width % self.count == 0 {
                0
            } else {
                self.count - (width % self.count)
            },
        };
        proof {
            assert(chs as nat == pad_deficit(
                self.kind,
                self.count as nat,
                measured_width(inner_text.len()),
            ));
        }

        let ghost deficit = pad_deficit(
            self.kind,
            self.count as nat,
            measured_width(inner_text.len()),
        );
        match self.align {
            Dir::Left => {
                proof {
                    assert(whole == inner_text + repeat_char(self.with, deficit));
                }
                match data.fmt(f, &self.style) {
                    Ok(()) => (),
                    Err(e) => {
                        proof {
                            assert(old(f).content() + Seq::<char>::empty() =~= old(f).content());
                            lemma_grew_by_prefix_mid(
                                old(f).content(),
                                f.content(),
                                Seq::<char>::empty(),
                                inner_text,
                                repeat_char(self.with, deficit),
                                whole,
                            );
                        }
                        return Err(e);
                    },
                }
                let ghost pre1 = f.content();
                match write_fill(f, self.with, chs) {
                    Ok(()) => (),
                    Err(e) => {
                        proof {
                            assert(whole =~= inner_text + repeat_char(self.with, deficit)
                                + Seq::<char>::empty());
                            lemma_grew_by_prefix_mid(
                                old(f).content(),
                                f.content(),
                                inner_text,
                                repeat_char(self.with, deficit),
                                Seq::<char>::empty(),
                                whole,
                            );
                        }
                        return Err(e);
                    },
                }
                proof {
                    assert(self.transformed(inner_text) == inner_text + repeat_char(
                        self.with,
                        deficit,
                    ));
                    assert(f.content() =~= old(f).content() + (inner_text + repeat_char(
                        self.with,
                        deficit,
                    )));
                }
            },
            Dir::Center => {
                let before: usize = chs / 2;
                let after: usize = chs / 2 + chs % 2;
                let ghost fill_a = repeat_char(self.with, deficit / 2);
                let ghost fill_b = repeat_char(self.with, deficit / 2 + deficit % 2);
                proof {
                    assert(whole == fill_a + inner_text + fill_b);
                }
                match write_fill(f, self.with, before) {
                    Ok(()) => (),
                    Err(e) => {
                        proof {
                            assert(old(f).content() + Seq::<char>::empty() =~= old(f).content());
                            assert(whole =~= Seq::<char>::empty() + fill_a + (inner_text
                                + fill_b));
                            lemma_grew_by_prefix_mid(
                                old(f).content(),
                                f.content(),
                                Seq::<char>::empty(),
                                fill_a,
                                inner_text + fill_b,
                                whole,
                            );
                        }
                        return Err(e);
                    },
                }
                match data.fmt(f, &self.style) {
                    Ok(()) => (),
                    Err(e) => {
                        proof {
                            lemma_grew_by_prefix_mid(
                                old(f).content(),
                                f.content(),
                                fill_a,
                                inner_text,
                                fill_b,
                                whole,
                            );
                        }
                        return Err(e);
                    },
                }
                let ghost pre2 = f.content();
                match write_fill(f, self.with, after) {
                    Ok(()) => (),
                    Err(e) => {
                        proof {
                            assert(pre2 =~= old(f).content() + (fill_a + inner_text));
                            assert(whole =~= (fill_a + inner_text) + fill_b
                                + Seq::<char>::empty());
                            lemma_grew_by_prefix_mid(
                                old(f).content(),
                                f.content(),
                                fill_a + inner_text,
                                fill_b,
                                Seq::<char>::empty(),
                                whole,
                            );
                        }
                        return Err(e);
                    },
                }
                proof {
                    assert(before as nat == deficit / 2 && after as nat == deficit / 2 + deficit
                        % 2);
                    assert(self.transformed(inner_text) == repeat_char(self.with, deficit / 2)
                        + inner_text + repeat_char(self.with, deficit / 2 + deficit % 2));
                    assert(f.content() =~= old(f).content() + (repeat_char(self.with, deficit / 2)
                        + inner_text + repeat_char(self.with, deficit / 2 + deficit % 2)));
                }
            },
            Dir::Right => {
                let ghost fill = repeat_char(self.with, deficit);
                proof {
                    assert(whole == fill + inner_text);
                }
                match write_fill(f, self.with, chs) {
                    Ok(()) => (),
                    Err(e) => {
                        proof {
                            assert(old(f).content() + Seq::<char>::empty() =~= old(f).content());
                            assert(whole =~= Seq::<char>::empty() + fill + inner_text);
                            lemma_grew_by_prefix_mid(
                                old(f).content(),
                                f.content(),
                                Seq::<char>::empty(),
                                fill,
                                inner_text,
                                whole,
                            );
                        }
                        return Err(e);
                    },
                }
                match data.fmt(f, &self.style) {
                    Ok(()) => (),
                    Err(e) => {
                        proof {
                            assert(whole =~= fill + inner_text + Seq::<char>::empty());
                            lemma_grew_by_prefix_mid(
                                old(f).content(),
                                f.content(),
                                fill,
                                inner_text,
                                Seq::<char>::empty(),
                                whole,
                            );
                        }
                        return Err(e);
                    },
                }
                proof {
                    assert(self.transformed(inner_text) == repeat_char(self.with, deficit)
                        + inner_text);
                    assert(f.content() =~= old(f).content() + (repeat_char(self.with, deficit)
                        + inner_text));
                }
            },
        }
        proof {
            assert(data.rendering(&self.inner()) == inner_text);
            assert(f.content() == old(f).content() + self.transformed(inner_text));
        }
        Ok(())
    }
}

} // verus!
