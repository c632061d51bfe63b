//! Modifier styles that wrap the rendering in ANSI terminal escapes:
//! text attributes and 8-bit or 24-bit colors, each closed by the
//! universal reset code.

use vstd::prelude::*;

use crate::fmt::num::write_int_radix_u64;
use crate::fmt::repr::{
    dec_rep, lemma_grew_by_prefix_mid, lemma_grew_by_prefix_zero,
};
use crate::fmt::{Error, Format, Modifier, Style, Write};

verus! {

/// The universal ANSI reset code, written after every colored or attributed
/// rendering.
pub const RESET: &'static str = "\x1b[0m";

/// Renders the wrapped style's output as bold text.
pub struct Bold<S>(pub S);

impl<S: Style> Style for Bold<S> {}

impl<S: Style> Modifier for Bold<S> {
    type Inner = S;

    open spec fn inner(&self) -> S {
        self.0
    }

    open spec fn transformed(&self, inner_text: Seq<char>) -> Seq<char> {
        "\x1b[1m"@ + inner_text + "\x1b[0m"@
    }

    fn apply<T: Format<S>, W: Write>(&self, f: &mut W, data: &T) -> (r: Result<(), Error>) {
        let ghost inner_text = data.rendering(&self.0);
        let ghost whole = self.transformed(inner_text);
        match f.write_str("\x1b[1m") {
            Ok(()) => (),
            Err(e) => {
                proof {
                    lemma_grew_by_prefix_zero(old(f).content(), whole);
                }
                return Err(e);
            },
        }
        let ghost pre1 = f.content();
        match data.fmt(f, &self.0) {
            Ok(()) => (),
            Err(e) => {
                proof {
                    assert(pre1 =~= old(f).content() + ("\x1b[1m"@));
                    assert(whole =~= ("\x1b[1m"@) + inner_text + ("\x1b[0m"@));
                    lemma_grew_by_prefix_mid(
                        old(f).content(),
                        f.content(),
                        "\x1b[1m"@,
                        inner_text,
                        "\x1b[0m"@,
                        whole,
                    );
                }
                return Err(e);
            },
        }
        let ghost pre2 = f.content();
        match f.write_str("\x1b[0m") {
            Ok(()) => (),
            Err(e) => {
                proof {
                    assert(pre2 =~= old(f).content() + ("\x1b[1m"@ + inner_text));
                    lemma_grew_by_prefix_zero(pre2, "\x1b[0m"@);
                    assert(whole =~= ("\x1b[1m"@ + inner_text) + "\x1b[0m"@ + (Seq::<char>::empty()));
                    lemma_grew_by_prefix_mid(
                        old(f).content(),
                        f.content(),
                        "\x1b[1m"@ + inner_text,
                        "\x1b[0m"@,
                        Seq::<char>::empty(),
                        whole,
                    );
                }
                return Err(e);
            },
        }
        proof {
            assert(f.content() =~= old(f).content() + whole);
        }
        Ok(())
    }
}

/// Renders the wrapped style's output as faint text.
pub struct Faint<S>(pub S);

impl<S: Style> Style for Faint<S> {}

impl<S: Style> Modifier for Faint<S> {
    type Inner = S;

    open spec fn inner(&self) -> S {
        self.0
    }

    open spec fn transformed(&self, inner_text: Seq<char>) -> Seq<char> {
        "\x1b[2m"@ + inner_text + "\x1b[0m"@
    }

    fn apply<T: Format<S>, W: Write>(&self, f: &mut W, data: &T) -> (r: Result<(), Error>) {
        let ghost inner_text = data.rendering(&self.0);
        let ghost whole = self.transformed(inner_text);
        match f.write_str("\x1b[2m") {
            Ok(()) => (),
            Err(e) => {
                proof {
                    lemma_grew_by_prefix_zero(old(f).content(), whole);
                }
                return Err(e);
            },
        }
        let ghost pre1 = f.content();
        match data.fmt(f, &self.0) {
            Ok(()) => (),
            Err(e) => {
                proof {
                    assert(pre1 =~= old(f).content() + ("\x1b[2m"@));
                    assert(whole =~= ("\x1b[2m"@) + inner_text + ("\x1b[0m"@));
                    lemma_grew_by_prefix_mid(
                        old(f).content(),
                        f.content(),
                        "\x1b[2m"@,
                        inner_text,
                        "\x1b[0m"@,
                        whole,
                    );
                }
                return Err(e);
            },
        }
        let ghost pre2 = f.content();
        match f.write_str("\x1b[0m") {
            Ok(()) => (),
            Err(e) => {
                proof {
                    assert(pre2 =~= old(f).content() + ("\x1b[2m"@ + inner_text));
                    lemma_grew_by_prefix_zero(pre2, "\x1b[0m"@);
                    assert(whole =~= ("\x1b[2m"@ + inner_text) + "\x1b[0m"@ + (Seq::<char>::empty()));
                    lemma_grew_by_prefix_mid(
                        old(f).content(),
                        f.content(),
                        "\x1b[2m"@ + inner_text,
                        "\x1b[0m"@,
                        Seq::<char>::empty(),
                        whole,
                    );
                }
                return Err(e);
            },
        }
        proof {
            assert(f.content() =~= old(f).content() + whole);
        }
        Ok(())
    }
}

/// Renders the wrapped style's output as italic text.
pub struct Italic<S>(pub S);

impl<S: Style> Style for Italic<S> {}

impl<S: Style> Modifier for Italic<S> {
    type Inner = S;

    open spec fn inner(&self) -> S {
        self.0
    }

    open spec fn transformed(&self, inner_text: Seq<char>) -> Seq<char> {
        "\x1b[3m"@ + inner_text + "\x1b[0m"@
    }

    fn apply<T: Format<S>, W: Write>(&self, f: &mut W, data: &T) -> (r: Result<(), Error>) {
        let ghost inner_text = data.rendering(&self.0);
        let ghost whole = self.transformed(inner_text);
        match f.write_str("\x1b[3m") {
            Ok(()) => (),
            Err(e) => {
                proof {
                    lemma_grew_by_prefix_zero(old(f).content(), whole);
                }
                return Err(e);
            },
        }
        let ghost pre1 = f.content();
        match data.fmt(f, &self.0) {
            Ok(()) => (),
            Err(e) => {
                proof {
                    assert(pre1 =~= old(f).content() + ("\x1b[3m"@));
                    assert(whole =~= ("\x1b[3m"@) + inner_text + ("\x1b[0m"@));
                    lemma_grew_by_prefix_mid(
                        old(f).content(),
                        f.content(),
                        "\x1b[3m"@,
                        inner_text,
                        "\x1b[0m"@,
                        whole,
                    );
                }
                return Err(e);
            },
        }
        let ghost pre2 = f.content();
        match f.write_str("\x1b[0m") {
            Ok(()) => (),
            Err(e) => {
                proof {
                    assert(pre2 =~= old(f).content() + ("\x1b[3m"@ + inner_text));
                    lemma_grew_by_prefix_zero(pre2, "\x1b[0m"@);
                    assert(whole =~= ("\x1b[3m"@ + inner_text) + "\x1b[0m"@ + (Seq::<char>::empty()));
                    lemma_grew_by_prefix_mid(
                        old(f).content(),
                        f.content(),
                        "\x1b[3m"@ + inner_text,
                        "\x1b[0m"@,
                        Seq::<char>::empty(),
                        whole,
                    );
                }
                return Err(e);
            },
        }
        proof {
            assert(f.content() =~= old(f).content() + whole);
        }
        Ok(())
    }
}

/// Renders the wrapped style's output as underlined text.
pub struct Underline<S>(pub S);

impl<S: Style> Style for Underline<S> {}

impl<S: Style> Modifier for Underline<S> {
    type Inner = S;

    open spec fn inner(&self) -> S {
        self.0
    }

    open spec fn transformed(&self, inner_text: Seq<char>) -> Seq<char> {
        "\x1b[4m"@ + inner_text + "\x1b[0m"@
    }

    fn apply<T: Format<S>, W: Write>(&self, f: &mut W, data: &T) -> (r: Result<(), Error>) {
        let ghost inner_text = data.rendering(&self.0);
        let ghost whole = self.transformed(inner_text);
        match f.write_str("\x1b[4m") {
            Ok(()) => (),
            Err(e) => {
                proof {
                    lemma_grew_by_prefix_zero(old(f).content(), whole);
                }
                return Err(e);
            },
        }
        let ghost pre1 = f.content();
        match data.fmt(f, &self.0) {
            Ok(()) => (),
            Err(e) => {
                proof {
                    assert(pre1 =~= old(f).content() + ("\x1b[4m"@));
                    assert(whole =~= ("\x1b[4m"@) + inner_text + ("\x1b[0m"@));
                    lemma_grew_by_prefix_mid(
                        old(f).content(),
                        f.content(),
                        "\x1b[4m"@,
                        inner_text,
                        "\x1b[0m"@,
                        whole,
                    );
                }
                return Err(e);
            },
        }
        let ghost pre2 = f.content();
        match f.write_str("\x1b[0m") {
            Ok(()) => (),
            Err(e) => {
                proof {
                    assert(pre2 =~= old(f).content() + ("\x1b[4m"@ + inner_text));
                    lemma_grew_by_prefix_zero(pre2, "\x1b[0m"@);
                    assert(whole =~= ("\x1b[4m"@ + inner_text) + "\x1b[0m"@ + (Seq::<char>::empty()));
                    lemma_grew_by_prefix_mid(
                        old(f).content(),
                        f.content(),
                        "\x1b[4m"@ + inner_text,
                        "\x1b[0m"@,
                        Seq::<char>::empty(),
                        whole,
                    );
                }
                return Err(e);
            },
        }
        proof {
            assert(f.content() =~= old(f).content() + whole);
        }
        Ok(())
    }
}

/// Renders the wrapped style's output as struck-through text.
pub struct Strike<S>(pub S);

impl<S: Style> Style for Strike<S> {}

impl<S: Style> Modifier for Strike<S> {
    type Inner = S;

    open spec fn inner(&self) -> S {
        self.0
    }

    open spec fn transformed(&self, inner_text: Seq<char>) -> Seq<char> {
        "\x1b[9m"@ + inner_text + "\x1b[0m"@
    }

    fn apply<T: Format<S>, W: Write>(&self, f: &mut W, data: &T) -> (r: Result<(), Error>) {
        let ghost inner_text = data.rendering(&self.0);
        let ghost whole = self.transformed(inner_text);
        match f.write_str("\x1b[9m") {
            Ok(()) => (),
            Err(e) => {
                proof {
                    lemma_grew_by_prefix_zero(old(f).content(), whole);
                }
                return Err(e);
            },
        }
        let ghost pre1 = f.content();
        match data.fmt(f, &self.0) {
            Ok(()) => (),
            Err(e) => {
                proof {
                    assert(pre1 =~= old(f).content() + ("\x1b[9m"@));
                    assert(whole =~= ("\x1b[9m"@) + inner_text + ("\x1b[0m"@));
                    lemma_grew_by_prefix_mid(
                        old(f).content(),
                        f.content(),
                        "\x1b[9m"@,
                        inner_text,
                        "\x1b[0m"@,
                        whole,
                    );
                }
                return Err(e);
            },
        }
        let ghost pre2 = f.content();
        match f.write_str("\x1b[0m") {
            Ok(()) => (),
            Err(e) => {
                proof {
                    assert(pre2 =~= old(f).content() + ("\x1b[9m"@ + inner_text));
                    lemma_grew_by_prefix_zero(pre2, "\x1b[0m"@);
                    assert(whole =~= ("\x1b[9m"@ + inner_text) + "\x1b[0m"@ + (Seq::<char>::empty()));
                    lemma_grew_by_prefix_mid(
                        old(f).content(),
                        f.content(),
                        "\x1b[9m"@ + inner_text,
                        "\x1b[0m"@,
                        Seq::<char>::empty(),
                        whole,
                    );
                }
                return Err(e);
            },
        }
        proof {
            assert(f.content() =~= old(f).content() + whole);
        }
        Ok(())
    }
}

/// Renders the wrapped style's output in the given 8-bit palette foreground color.
pub struct Fg<S>(pub u8, pub S);

impl<S: Style> Style for Fg<S> {}

impl<S: Style> Modifier for Fg<S> {
    type Inner = S;

    open spec fn inner(&self) -> S {
        self.1
    }

    open spec fn transformed(&self, inner_text: Seq<char>) -> Seq<char> {
        "\x1b[38;5;"@ + dec_rep(self.0 as int) + seq!['m'] + inner_text + "\x1b[0m"@
    }

    fn apply<T: Format<S>, W: Write>(&self, f: &mut W, data: &T) -> (r: Result<(), Error>) {
        let ghost inner_text = data.rendering(&self.1);
        let ghost whole = self.transformed(inner_text);
        match f.write_str("\x1b[38;5;") {
            Ok(()) => (),
            Err(e) => {
                proof {
                    lemma_grew_by_prefix_zero(old(f).content(), whole);
                }
                return Err(e);
            },
        }
        let ghost pre1 = f.content();
        match write_int_radix_u64(f, false, self.0 as u64, 10, false) {
            Ok(()) => (),
            Err(e) => {
                proof {
                    assert(pre1 =~= old(f).content() + ("\x1b[38;5;"@));
                    assert(whole =~= ("\x1b[38;5;"@) + dec_rep(self.0 as int) + (seq!['m'] + inner_text + "\x1b[0m"@));
                    lemma_grew_by_prefix_mid(
                        old(f).content(),
                        f.content(),
                        "\x1b[38;5;"@,
                        dec_rep(self.0 as int),
                        seq!['m'] + inner_text + "\x1b[0m"@,
                        whole,
                    );
                }
                return Err(e);
            },
        }
        let ghost pre2 = f.content();
        match f.write_char('m') {
            Ok(()) => (),
            Err(e) => {
                proof {
                    assert(pre2 =~= old(f).content() + ("\x1b[38;5;"@ + dec_rep(self.0 as int)));
                    lemma_grew_by_prefix_zero(pre2, seq!['m']);
                    assert(whole =~= ("\x1b[38;5;"@ + dec_rep(self.0 as int)) + seq!['m'] + (inner_text + "\x1b[0m"@));
                    lemma_grew_by_prefix_mid(
                        old(f).content(),
                        f.content(),
                        "\x1b[38;5;"@ + dec_rep(self.0 as int),
                        seq!['m'],
                        inner_text + "\x1b[0m"@,
                        whole,
                    );
                }
                return Err(e);
            },
        }
        let ghost pre3 = f.content();
        match data.fmt(f, &self.1) {
            Ok(()) => (),
            Err(e) => {
                proof {
                    assert(pre3 =~= old(f).content() + ("\x1b[38;5;"@ + dec_rep(self.0 as int) + seq!['m']));
                    assert(whole =~= ("\x1b[38;5;"@ + dec_rep(self.0 as int) + seq!['m']) + inner_text + ("\x1b[0m"@));
                    lemma_grew_by_prefix_mid(
                        old(f).content(),
                        f.content(),
                        "\x1b[38;5;"@ + dec_rep(self.0 as int) + seq!['m'],
                        inner_text,
                        "\x1b[0m"@,
                        whole,
                    );
                }
                return Err(e);
            },
        }
        let ghost pre4 = f.content();
        match f.write_str("\x1b[0m") {
            Ok(()) => (),
            Err(e) => {
                proof {
                    assert(pre4 =~= old(f).content() + ("\x1b[38;5;"@ + dec_rep(self.0 as int) + seq!['m'] + inner_text));
                    lemma_grew_by_prefix_zero(pre4, "\x1b[0m"@);
                    assert(whole =~= ("\x1b[38;5;"@ + dec_rep(self.0 as int) + seq!['m'] + inner_text) + "\x1b[0m"@ + (Seq::<char>::empty()));
                    lemma_grew_by_prefix_mid(
                        old(f).content(),
                        f.content(),
                        "\x1b[38;5;"@ + dec_rep(self.0 as int) + seq!['m'] + inner_text,
                        "\x1b[0m"@,
                        Seq::<char>::empty(),
                        whole,
                    );
                }
                return Err(e);
            },
        }
        proof {
            assert(f.content() =~= old(f).content() + whole);
        }
        Ok(())
    }
}

/// Renders the wrapped style's output in the given 8-bit palette background color.
pub struct Bg<S>(pub u8, pub S);

impl<S: Style> Style for Bg<S> {}

impl<S: Style> Modifier for Bg<S> {
    type Inner = S;

    open spec fn inner(&self) -> S {
        self.1
    }

    open spec fn transformed(&self, inner_text: Seq<char>) -> Seq<char> {
        "\x1b[48;5;"@ + dec_rep(self.0 as int) + seq!['m'] + inner_text + "\x1b[0m"@
    }

    fn apply<T: Format<S>, W: Write>(&self, f: &mut W, data: &T) -> (r: Result<(), Error>) {
        let ghost inner_text = data.rendering(&self.1);
        let ghost whole = self.transformed(inner_text);
        match f.write_str("\x1b[48;5;") {
            Ok(()) => (),
            Err(e) => {
                proof {
                    lemma_grew_by_prefix_zero(old(f).content(), whole);
                }
                return Err(e);
            },
        }
        let ghost pre1 = f.content();
        match write_int_radix_u64(f, false, self.0 as u64, 10, false) {
            Ok(()) => (),
            Err(e) => {
                proof {
                    assert(pre1 =~= old(f).content() + ("\x1b[48;5;"@));
                    assert(whole =~= ("\x1b[48;5;"@) + dec_rep(self.0 as int) + (seq!['m'] + inner_text + "\x1b[0m"@));
                    lemma_grew_by_prefix_mid(
                        old(f).content(),
                        f.content(),
                        "\x1b[48;5;"@,
                        dec_rep(self.0 as int),
                        seq!['m'] + inner_text + "\x1b[0m"@,
                        whole,
                    );
                }
                return Err(e);
            },
        }
        let ghost pre2 = f.content();
        match f.write_char('m') {
            Ok(()) => (),
            Err(e) => {
                proof {
                    assert(pre2 =~= old(f).content() + ("\x1b[48;5;"@ + dec_rep(self.0 as int)));
                    lemma_grew_by_prefix_zero(pre2, seq!['m']);
                    assert(whole =~= ("\x1b[48;5;"@ + dec_rep(self.0 as int)) + seq!['m'] + (inner_text + "\x1b[0m"@));
                    lemma_grew_by_prefix_mid(
                        old(f).content(),
                        f.content(),
                        "\x1b[48;5;"@ + dec_rep(self.0 as int),
                        seq!['m'],
                        inner_text + "\x1b[0m"@,
                        whole,
                    );
                }
                return Err(e);
            },
        }
        let ghost pre3 = f.content();
        match data.fmt(f, &self.1) {
            Ok(()) => (),
            Err(e) => {
                proof {
                    assert(pre3 =~= old(f).content() + ("\x1b[48;5;"@ + dec_rep(self.0 as int) + seq!['m']));
                    assert(whole =~= ("\x1b[48;5;"@ + dec_rep(self.0 as int) + seq!['m']) + inner_text + ("\x1b[0m"@));
                    lemma_grew_by_prefix_mid(
                        old(f).content(),
                        f.content(),
                        "\x1b[48;5;"@ + dec_rep(self.0 as int) + seq!['m'],
                        inner_text,
                        "\x1b[0m"@,
                        whole,
                    );
                }
                return Err(e);
            },
        }
        let ghost pre4 = f.content();
        match f.write_str("\x1b[0m") {
            Ok(()) => (),
            Err(e) => {
                proof {
                    assert(pre4 =~= old(f).content() + ("\x1b[48;5;"@ + dec_rep(self.0 as int) + seq!['m'] + inner_text));
                    lemma_grew_by_prefix_zero(pre4, "\x1b[0m"@);
                    assert(whole =~= ("\x1b[48;5;"@ + dec_rep(self.0 as int) + seq!['m'] + inner_text) + "\x1b[0m"@ + (Seq::<char>::empty()));
                    lemma_grew_by_prefix_mid(
                        old(f).content(),
                        f.content(),
                        "\x1b[48;5;"@ + dec_rep(self.0 as int) + seq!['m'] + inner_text,
                        "\x1b[0m"@,
                        Seq::<char>::empty(),
                        whole,
                    );
                }
                return Err(e);
            },
        }
        proof {
            assert(f.content() =~= old(f).content() + whole);
        }
        Ok(())
    }
}

/// Renders the wrapped style's output in the given 24-bit RGB foreground color.
pub struct FgRgb<S>(pub u8, pub u8, pub u8, pub S);

impl<S: Style> Style for FgRgb<S> {}

impl<S: Style> Modifier for FgRgb<S> {
    type Inner = S;

    open spec fn inner(&self) -> S {
        self.3
    }

    open spec fn transformed(&self, inner_text: Seq<char>) -> Seq<char> {
        "\x1b[38;2;"@ + dec_rep(self.0 as int) + seq![';'] + dec_rep(self.1 as int) + seq![';'] + dec_rep(self.2 as int) + seq!['m'] + inner_text + "\x1b[0m"@
    }

    fn apply<T: Format<S>, W: Write>(&self, f: &mut W, data: &T) -> (r: Result<(), Error>) {
        let ghost inner_text = data.rendering(&self.3);
        let ghost whole = self.transformed(inner_text);
        match f.write_str("\x1b[38;2;") {
            Ok(()) => (),
            Err(e) => {
                proof {
                    lemma_grew_by_prefix_zero(old(f).content(), whole);
                }
                return Err(e);
            },
        }
        let ghost pre1 = f.content();
        match write_int_radix_u64(f, false, self.0 as u64, 10, false) {
            Ok(()) => (),
            Err(e) => {
                proof {
                    assert(pre1 =~= old(f).content() + ("\x1b[38;2;"@));
                    assert(whole =~= ("\x1b[38;2;"@) + dec_rep(self.0 as int) + (seq![';'] + dec_rep(self.1 as int) + seq![';'] + dec_rep(self.2 as int) + seq!['m'] + inner_text + "\x1b[0m"@));
                    lemma_grew_by_prefix_mid(
                        old(f).content(),
                        f.content(),
                        "\x1b[38;2;"@,
                        dec_rep(self.0 as int),
                        seq![';'] + dec_rep(self.1 as int) + seq![';'] + dec_rep(self.2 as int) + seq!['m'] + inner_text + "\x1b[0m"@,
                        whole,
                    );
                }
                return Err(e);
            },
        }
        let ghost pre2 = f.content();
        match f.write_char(';') {
            Ok(()) => (),
            Err(e) => {
                proof {
                    assert(pre2 =~= old(f).content() + ("\x1b[38;2;"@ + dec_rep(self.0 as int)));
                    lemma_grew_by_prefix_zero(pre2, seq![';']);
                    assert(whole =~= ("\x1b[38;2;"@ + dec_rep(self.0 as int)) + seq![';'] + (dec_rep(self.1 as int) + seq![';'] + dec_rep(self.2 as int) + seq!['m'] + inner_text + "\x1b[0m"@));
                    lemma_grew_by_prefix_mid(
                        old(f).content(),
                        f.content(),
                        "\x1b[38;2;"@ + dec_rep(self.0 as int),
                        seq![';'],
                        dec_rep(self.1 as int) + seq![';'] + dec_rep(self.2 as int) + seq!['m'] + inner_text + "\x1b[0m"@,
                        whole,
                    );
                }
                return Err(e);
            },
        }
        let ghost pre3 = f.content();
        match write_int_radix_u64(f, false, self.1 as u64, 10, false) {
            Ok(()) => (),
            Err(e) => {
                proof {
                    assert(pre3 =~= old(f).content() + ("\x1b[38;2;"@ + dec_rep(self.0 as int) + seq![';']));
                    assert(whole =~= ("\x1b[38;2;"@ + dec_rep(self.0 as int) + seq![';']) + dec_rep(self.1 as int) + (seq![';'] + dec_rep(self.2 as int) + seq!['m'] + inner_text + "\x1b[0m"@));
                    lemma_grew_by_prefix_mid(
                        old(f).content(),
                        f.content(),
                        "\x1b[38;2;"@ + dec_rep(self.0 as int) + seq![';'],
                        dec_rep(self.1 as int),
                        seq![';'] + dec_rep(self.2 as int) + seq!['m'] + inner_text + "\x1b[0m"@,
                        whole,
                    );
                }
                return Err(e);
            },
        }
        let ghost pre4 = f.content();
        match f.write_char(';') {
            Ok(()) => (),
            Err(e) => {
                proof {
                    assert(pre4 =~= old(f).content() + ("\x1b[38;2;"@ + dec_rep(self.0 as int) + seq![';'] + dec_rep(self.1 as int)));
                    lemma_grew_by_prefix_zero(pre4, seq![';']);
                    assert(whole =~= ("\x1b[38;2;"@ + dec_rep(self.0 as int) + seq![';'] + dec_rep(self.1 as int)) + seq![';'] + (dec_rep(self.2 as int) + seq!['m'] + inner_text + "\x1b[0m"@));
                    lemma_grew_by_prefix_mid(
                        old(f).content(),
                        f.content(),
                        "\x1b[38;2;"@ + dec_rep(self.0 as int) + seq![';'] + dec_rep(self.1 as int),
                        seq![';'],
                        dec_rep(self.2 as int) + seq!['m'] + inner_text + "\x1b[0m"@,
                        whole,
                    );
                }
                return Err(e);
            },
        }
        let ghost pre5 = f.content();
        match write_int_radix_u64(f, false, self.2 as u64, 10, false) {
            Ok(()) => (),
            Err(e) => {
                proof {
                    assert(pre5 =~= old(f).content() + ("\x1b[38;2;"@ + dec_rep(self.0 as int) + seq![';'] + dec_rep(self.1 as int) + seq![';']));
                    assert(whole =~= ("\x1b[38;2;"@ + dec_rep(self.0 as int) + seq![';'] + dec_rep(self.1 as int) + seq![';']) + dec_rep(self.2 as int) + (seq!['m'] + inner_text + "\x1b[0m"@));
                    lemma_grew_by_prefix_mid(
                        old(f).content(),
                        f.content(),
                        "\x1b[38;2;"@ + dec_rep(self.0 as int) + seq![';'] + dec_rep(self.1 as int) + seq![';'],
                        dec_rep(self.2 as int),
                        seq!['m'] + inner_text + "\x1b[0m"@,
                        whole,
                    );
                }
                return Err(e);
            },
        }
        let ghost pre6 = f.content();
        match f.write_char('m') {
            Ok(()) => (),
            Err(e) => {
                proof {
                    assert(pre6 =~= old(f).content() + ("\x1b[38;2;"@ + dec_rep(self.0 as int) + seq![';'] + dec_rep(self.1 as int) + seq![';'] + dec_rep(self.2 as int)));
                    lemma_grew_by_prefix_zero(pre6, seq!['m']);
                    assert(whole =~= ("\x1b[38;2;"@ + dec_rep(self.0 as int) + seq![';'] + dec_rep(self.1 as int) + seq![';'] + dec_rep(self.2 as int)) + seq!['m'] + (inner_text + "\x1b[0m"@));
                    lemma_grew_by_prefix_mid(
                        old(f).content(),
                        f.content(),
                        "\x1b[38;2;"@ + dec_rep(self.0 as int) + seq![';'] + dec_rep(self.1 as int) + seq![';'] + dec_rep(self.2 as int),
                        seq!['m'],
                        inner_text + "\x1b[0m"@,
                        whole,
                    );
                }
                return Err(e);
            },
        }
        let ghost pre7 = f.content();
        match data.fmt(f, &self.3) {
            Ok(()) => (),
            Err(e) => {
                proof {
                    assert(pre7 =~= old(f).content() + ("\x1b[38;2;"@ + dec_rep(self.0 as int) + seq![';'] + dec_rep(self.1 as int) + seq![';'] + dec_rep(self.2 as int) + seq!['m']));
                    assert(whole =~= ("\x1b[38;2;"@ + dec_rep(self.0 as int) + seq![';'] + dec_rep(self.1 as int) + seq![';'] + dec_rep(self.2 as int) + seq!['m']) + inner_text + ("\x1b[0m"@));
                    lemma_grew_by_prefix_mid(
                        old(f).content(),
                        f.content(),
                        "\x1b[38;2;"@ + dec_rep(self.0 as int) + seq![';'] + dec_rep(self.1 as int) + seq![';'] + dec_rep(self.2 as int) + seq!['m'],
                        inner_text,
                        "\x1b[0m"@,
                        whole,
                    );
                }
                return Err(e);
            },
        }
        let ghost pre8 = f.content();
        match f.write_str("\x1b[0m") {
            Ok(()) => (),
            Err(e) => {
                proof {
                    assert(pre8 =~= old(f).content() + ("\x1b[38;2;"@ + dec_rep(self.0 as int) + seq![';'] + dec_rep(self.1 as int) + seq![';'] + dec_rep(self.2 as int) + seq!['m'] + inner_text));
                    lemma_grew_by_prefix_zero(pre8, "\x1b[0m"@);
                    assert(whole =~= ("\x1b[38;2;"@ + dec_rep(self.0 as int) + seq![';'] + dec_rep(self.1 as int) + seq![';'] + dec_rep(self.2 as int) + seq!['m'] + inner_text) + "\x1b[0m"@ + (Seq::<char>::empty()));
                    lemma_grew_by_prefix_mid(
                        old(f).content(),
                        f.content(),
                        "\x1b[38;2;"@ + dec_rep(self.0 as int) + seq![';'] + dec_rep(self.1 as int) + seq![';'] + dec_rep(self.2 as int) + seq!['m'] + inner_text,
                        "\x1b[0m"@,
                        Seq::<char>::empty(),
                        whole,
                    );
                }
                return Err(e);
            },
        }
        proof {
            assert(f.content() =~= old(f).content() + whole);
        }
        Ok(())
    }
}

/// Renders the wrapped style's output in the given 24-bit RGB background color.
pub struct BgRgb<S>(pub u8, pub u8, pub u8, pub S);

impl<S: Style> Style for BgRgb<S> {}

impl<S: Style> Modifier for BgRgb<S> {
    type Inner = S;

    open spec fn inner(&self) -> S {
        self.3
    }

    open spec fn transformed(&self, inner_text: Seq<char>) -> Seq<char> {
        "\x1b[48;2;"@ + dec_rep(self.0 as int) + seq![';'] + dec_rep(self.1 as int) + seq![';'] + dec_rep(self.2 as int) + seq!['m'] + inner_text + "\x1b[0m"@
    }

    fn apply<T: Format<S>, W: Write>(&self, f: &mut W, data: &T) -> (r: Result<(), Error>) {
        let ghost inner_text = data.rendering(&self.3);
        let ghost whole = self.transformed(inner_text);
        match f.write_str("\x1b[48;2;") {
            Ok(()) => (),
            Err(e) => {
                proof {
                    lemma_grew_by_prefix_zero(old(f).content(), whole);
                }
                return Err(e);
            },
        }
        let ghost pre1 = f.content();
        match write_int_radix_u64(f, false, self.0 as u64, 10, false) {
            Ok(()) => (),
            Err(e) => {
                proof {
                    assert(pre1 =~= old(f).content() + ("\x1b[48;2;"@));
                    assert(whole =~= ("\x1b[48;2;"@) + dec_rep(self.0 as int) + (seq![';'] + dec_rep(self.1 as int) + seq![';'] + dec_rep(self.2 as int) + seq!['m'] + inner_text + "\x1b[0m"@));
                    lemma_grew_by_prefix_mid(
                        old(f).content(),
                        f.content(),
                        "\x1b[48;2;"@,
                        dec_rep(self.0 as int),
                        seq![';'] + dec_rep(self.1 as int) + seq![';'] + dec_rep(self.2 as int) + seq!['m'] + inner_text + "\x1b[0m"@,
                        whole,
                    );
                }
                return Err(e);
            },
        }
        let ghost pre2 = f.content();
        match f.write_char(';') {
            Ok(()) => (),
            Err(e) => {
                proof {
                    assert(pre2 =~= old(f).content() + ("\x1b[48;2;"@ + dec_rep(self.0 as int)));
                    lemma_grew_by_prefix_zero(pre2, seq![';']);
                    assert(whole =~= ("\x1b[48;2;"@ + dec_rep(self.0 as int)) + seq![';'] + (dec_rep(self.1 as int) + seq![';'] + dec_rep(self.2 as int) + seq!['m'] + inner_text + "\x1b[0m"@));
                    lemma_grew_by_prefix_mid(
                        old(f).content(),
                        f.content(),
                        "\x1b[48;2;"@ + dec_rep(self.0 as int),
                        seq![';'],
                        dec_rep(self.1 as int) + seq![';'] + dec_rep(self.2 as int) + seq!['m'] + inner_text + "\x1b[0m"@,
                        whole,
                    );
                }
                return Err(e);
            },
        }
        let ghost pre3 = f.content();
        match write_int_radix_u64(f, false, self.1 as u64, 10, false) {
            Ok(()) => (),
            Err(e) => {
                proof {
                    assert(pre3 =~= old(f).content() + ("\x1b[48;2;"@ + dec_rep(self.0 as int) + seq![';']));
                    assert(whole =~= ("\x1b[48;2;"@ + dec_rep(self.0 as int) + seq![';']) + dec_rep(self.1 as int) + (seq![';'] + dec_rep(self.2 as int) + seq!['m'] + inner_text + "\x1b[0m"@));
                    lemma_grew_by_prefix_mid(
                        old(f).content(),
                        f.content(),
                        "\x1b[48;2;"@ + dec_rep(self.0 as int) + seq![';'],
                        dec_rep(self.1 as int),
                        seq![';'] + dec_rep(self.2 as int) + seq!['m'] + inner_text + "\x1b[0m"@,
                        whole,
                    );
                }
                return Err(e);
            },
        }
        let ghost pre4 = f.content();
        match f.write_char(';') {
            Ok(()) => (),
            Err(e) => {
                proof {
                    assert(pre4 =~= old(f).content() + ("\x1b[48;2;"@ + dec_rep(self.0 as int) + seq![';'] + dec_rep(self.1 as int)));
                    lemma_grew_by_prefix_zero(pre4, seq![';']);
                    assert(whole =~= ("\x1b[48;2;"@ + dec_rep(self.0 as int) + seq![';'] + dec_rep(self.1 as int)) + seq![';'] + (dec_rep(self.2 as int) + seq!['m'] + inner_text + "\x1b[0m"@));
                    lemma_grew_by_prefix_mid(
                        old(f).content(),
                        f.content(),
                        "\x1b[48;2;"@ + dec_rep(self.0 as int) + seq![';'] + dec_rep(self.1 as int),
                        seq![';'],
                        dec_rep(self.2 as int) + seq!['m'] + inner_text + "\x1b[0m"@,
                        whole,
                    );
                }
                return Err(e);
            },
        }
        let ghost pre5 = f.content();
        match write_int_radix_u64(f, false, self.2 as u64, 10, false) {
            Ok(()) => (),
            Err(e) => {
                proof {
                    assert(pre5 =~= old(f).content() + ("\x1b[48;2;"@ + dec_rep(self.0 as int) + seq![';'] + dec_rep(self.1 as int) + seq![';']));
                    assert(whole =~= ("\x1b[48;2;"@ + dec_rep(self.0 as int) + seq![';'] + dec_rep(self.1 as int) + seq![';']) + dec_rep(self.2 as int) + (seq!['m'] + inner_text + "\x1b[0m"@));
                    lemma_grew_by_prefix_mid(
                        old(f).content(),
                        f.content(),
                        "\x1b[48;2;"@ + dec_rep(self.0 as int) + seq![';'] + dec_rep(self.1 as int) + seq![';'],
                        dec_rep(self.2 as int),
                        seq!['m'] + inner_text + "\x1b[0m"@,
                        whole,
                    );
                }
                return Err(e);
            },
        }
        let ghost pre6 = f.content();
        match f.write_char('m') {
            Ok(()) => (),
            Err(e) => {
                proof {
                    assert(pre6 =~= old(f).content() + ("\x1b[48;2;"@ + dec_rep(self.0 as int) + seq![';'] + dec_rep(self.1 as int) + seq![';'] + dec_rep(self.2 as int)));
                    lemma_grew_by_prefix_zero(pre6, seq!['m']);
                    assert(whole =~= ("\x1b[48;2;"@ + dec_rep(self.0 as int) + seq![';'] + dec_rep(self.1 as int) + seq![';'] + dec_rep(self.2 as int)) + seq!['m'] + (inner_text + "\x1b[0m"@));
                    lemma_grew_by_prefix_mid(
                        old(f).content(),
                        f.content(),
                        "\x1b[48;2;"@ + dec_rep(self.0 as int) + seq![';'] + dec_rep(self.1 as int) + seq![';'] + dec_rep(self.2 as int),
                        seq!['m'],
                        inner_text + "\x1b[0m"@,
                        whole,
                    );
                }
                return Err(e);
            },
        }
        let ghost pre7 = f.content();
        match data.fmt(f, &self.3) {
            Ok(()) => (),
            Err(e) => {
                proof {
                    assert(pre7 =~= old(f).content() + ("\x1b[48;2;"@ + dec_rep(self.0 as int) + seq![';'] + dec_rep(self.1 as int) + seq![';'] + dec_rep(self.2 as int) + seq!['m']));
                    assert(whole =~= ("\x1b[48;2;"@ + dec_rep(self.0 as int) + seq![';'] + dec_rep(self.1 as int) + seq![';'] + dec_rep(self.2 as int) + seq!['m']) + inner_text + ("\x1b[0m"@));
                    lemma_grew_by_prefix_mid(
                        old(f).content(),
                        f.content(),
                        "\x1b[48;2;"@ + dec_rep(self.0 as int) + seq![';'] + dec_rep(self.1 as int) + seq![';'] + dec_rep(self.2 as int) + seq!['m'],
                        inner_text,
                        "\x1b[0m"@,
                        whole,
                    );
                }
                return Err(e);
            },
        }
        let ghost pre8 = f.content();
        match f.write_str("\x1b[0m") {
            Ok(()) => (),
            Err(e) => {
                proof {
                    assert(pre8 =~= old(f).content() + ("\x1b[48;2;"@ + dec_rep(self.0 as int) + seq![';'] + dec_rep(self.1 as int) + seq![';'] + dec_rep(self.2 as int) + seq!['m'] + inner_text));
                    lemma_grew_by_prefix_zero(pre8, "\x1b[0m"@);
                    assert(whole =~= ("\x1b[48;2;"@ + dec_rep(self.0 as int) + seq![';'] + dec_rep(self.1 as int) + seq![';'] + dec_rep(self.2 as int) + seq!['m'] + inner_text) + "\x1b[0m"@ + (Seq::<char>::empty()));
                    lemma_grew_by_prefix_mid(
                        old(f).content(),
                        f.content(),
                        "\x1b[48;2;"@ + dec_rep(self.0 as int) + seq![';'] + dec_rep(self.1 as int) + seq![';'] + dec_rep(self.2 as int) + seq!['m'] + inner_text,
                        "\x1b[0m"@,
                        Seq::<char>::empty(),
                        whole,
                    );
                }
                return Err(e);
            },
        }
        proof {
            assert(f.content() =~= old(f).content() + whole);
        }
        Ok(())
    }
}

} // verus!
