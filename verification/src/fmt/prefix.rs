//! The literal-prefix modifier style.

use vstd::prelude::*;

use crate::fmt::repr::{grew_by_prefix, lemma_grew_by_prefix_extend};
use crate::fmt::{Display, Error, Format, Modifier, Style, Write};

verus! {

/// Renders a literal value (under [`Display`]) before the wrapped style's
/// rendering of the data; there is no suffix.
#[derive(Clone, Copy, PartialEq, Eq)]
pub struct Prefix<P, S>(pub P, pub S);

impl<P: Format<Display>, S: Style> Style for Prefix<P, S> {}

impl<P: Format<Display>, S: Style> Modifier for Prefix<P, S> {
    type Inner = S;

    open spec fn inner(&self) -> S {
        self.1
    }

    open spec fn transformed(&self, inner_text: Seq<char>) -> Seq<char> {
        self.0.rendering(&Display) + inner_text
    }

    fn apply<T: Format<S>, W: Write>(&self, f: &mut W, data: &T) -> (r: Result<(), Error>) {
        let ghost lit = self.0.rendering(&Display);
        let ghost inner_text = data.rendering(&self.1);
        match self.0.fmt(f, &Display) {
            Ok(()) => (),
            Err(e) => {
                proof {
                    assert(grew_by_prefix(old(f).content(), f.content(), lit));
                    crate::fmt::repr::lemma_grew_by_prefix_widen(
                        old(f).content(),
                        f.content(),
                        lit,
                        inner_text,
                    );
                }
                return Err(e);
            },
        }
        match data.fmt(f, &self.1) {
            Ok(()) => (),
            Err(e) => {
                proof {
                    lemma_grew_by_prefix_extend(old(f).content(), f.content(), lit, inner_text);
                }
                return Err(e);
            },
        }
        proof {
            assert(f.content() =~= old(f).content() + self.transformed(
                data.rendering(&self.1),
            ));
        }
        Ok(())
    }
}

} // verus!
