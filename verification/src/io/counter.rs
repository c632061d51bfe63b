//! A sink that counts what flows through it and stores nothing.

use vstd::prelude::*;

use crate::fmt;
use crate::fmt::Write as FmtWriteCap;
use crate::io;

verus! {

/// A sink that counts the characters (through [`fmt::Write`]) and bytes
/// (through [`io::Write`]) written into it, without keeping any of them.
///
/// It never refuses a write; the count saturates at `usize::MAX`.
pub struct Counter {
    count: usize,
    tally: Ghost<Seq<char>>,
}

impl Counter {
    #[verifier::type_invariant]
    spec fn wf(self) -> bool {
        self.count == crate::fmt::repr::measured_width(self.tally@.len())
    }

    /// Create a new, empty counter.
    pub fn new() -> (r: Self)
        ensures
            r.content() == Seq::<char>::empty(),
            r.infallible(),
    {
        Counter { count: 0, tally: Ghost(Seq::empty()) }
    }

    /// The count so far: one per character or byte written, saturating at
    /// `usize::MAX`.
    pub fn count(&self) -> (r: usize)
        ensures
            r == crate::fmt::repr::measured_width(self.content().len()),
    {
        proof {
            use_type_invariant(&*self);
        }
        self.count
    }

    /// The count after `n` more units, saturating at `usize::MAX`.
    fn bump(&self, n: usize) -> (r: usize)
        ensures
            r == crate::fmt::repr::measured_width((self.count + n) as nat),
    {
        if usize::MAX - self.count < n {
            usize::MAX
        } else {
            self.count + n
        }
    }
}

impl fmt::Write for Counter {
    closed spec fn content(&self) -> Seq<char> {
        self.tally@
    }

    closed spec fn infallible(&self) -> bool {
        true
    }

    fn write_str(&mut self, data: &str) -> (r: Result<(), fmt::Error>) {
        proof {
            use_type_invariant(&*self);
        }
        let n = data.unicode_len();
        let bumped = self.bump(n);
        *self = Counter { count: bumped, tally: Ghost(self.tally@ + data@) };
        Ok(())
    }

    fn write_char(&mut self, data: char) -> (r: Result<(), fmt::Error>) {
        proof {
            use_type_invariant(&*self);
        }
        let bumped = self.bump(1);
        *self = Counter { count: bumped, tally: Ghost(self.tally@.push(data)) };
        proof {
            assert(self.tally@ =~= old(self).tally@ + seq![data]);
        }
        Ok(())
    }
}

impl io::Write for Counter {
    fn write(&mut self, data: &[u8]) -> (r: Result<usize, io::Error>)
        ensures
            r matches Ok(n) ==> n == data@.len(),
    {
        proof {
            use_type_invariant(&*self);
        }
        let n = data.len();
        let bumped = self.bump(n);
        *self = Counter {
            count: bumped,
            tally: Ghost(self.tally@ + Seq::new(data@.len(), |i: int| ' ')),
        };
        Ok(n)
    }

    fn flush(&mut self) -> (r: Result<(), io::Error>) {
        Ok(())
    }
}

} // verus!
