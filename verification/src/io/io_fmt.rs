//! An adapter from byte sinks to text sinks.

use vstd::prelude::*;

use crate::fmt;
use crate::fmt::Write as FmtWriteCap;
use crate::io;

verus! {

/// An adapter that lets a byte sink ([`io::Write`]) serve as a text sink
/// ([`fmt::Write`]), re-encoding each write as UTF-8 bytes.
///
/// Flushes on every write; a failure of the underlying sink surfaces as a
/// text-sink failure.
pub struct IoFmt<W> {
    w: W,
    chars: Ghost<Seq<char>>,
}

impl<W: io::Write> IoFmt<W> {
    /// Wrap a byte sink.
    pub fn new(w: W) -> (r: Self)
        ensures
            r.content() == Seq::<char>::empty(),
    {
        IoFmt { w, chars: Ghost(Seq::empty()) }
    }

    /// Consumes the adapter and returns the underlying byte sink.
    pub fn into_inner(self) -> W {
        self.w
    }
}

impl<W: io::Write> fmt::Write for IoFmt<W> {
    closed spec fn content(&self) -> Seq<char> {
        self.chars@
    }

    closed spec fn infallible(&self) -> bool {
        false
    }

    fn write_str(&mut self, data: &str) -> (r: Result<(), fmt::Error>) {
        match self.w.write(data.as_bytes()) {
            Ok(_) => (),
            Err(_) => {
                return Err(fmt::Error);
            },
        }
        match self.w.flush() {
            Ok(()) => (),
            Err(_) => {
                return Err(fmt::Error);
            },
        }
        self.chars = Ghost(self.chars@ + data@);
        Ok(())
    }

    fn write_char(&mut self, data: char) -> (r: Result<(), fmt::Error>) {
        let mut tmp = String::new();
        match tmp.write_char(data) {
            Ok(()) => (),
            Err(_) => {
                return Err(fmt::Error);
            },
        }
        match self.w.write(tmp.as_str().as_bytes()) {
            Ok(_) => (),
            Err(_) => {
                return Err(fmt::Error);
            },
        }
        match self.w.flush() {
            Ok(()) => (),
            Err(_) => {
                return Err(fmt::Error);
            },
        }
        self.chars = Ghost(self.chars@.push(data));
        proof {
            assert(self.chars@ =~= old(self).chars@ + seq![data]);
        }
        Ok(())
    }
}

} // verus!
