//! Byte-oriented I/O: reading, writing and seeking over in-memory data.
//!
//! The central capabilities are [`Read`] and [`Write`]. A source holds a
//! finite amount of data ([`Read::remaining`]); each successful read
//! consumes from it, which is also what bounds the copying loops.

use vstd::prelude::*;

mod buffer;
mod counter;
mod cursor;
mod io_fmt;
mod utils;

pub use buffer::Buffer;
pub use counter::Counter;
pub use cursor::Cursor;
pub use io_fmt::IoFmt;
pub use utils::copy;

verus! {

/// The error taxonomy of I/O operations.
#[non_exhaustive]
#[derive(Debug, Clone, Copy, PartialEq, Eq)]
pub enum Error {
    /// The resource was not found.
    NotFound,
    /// The operation lacked the needed permissions.
    PermissionDenied,
    /// The connection was refused.
    Refused,
    /// The connection was reset.
    Reset,
    /// The peer is unreachable.
    Unreachable,
    /// The operation was aborted.
    Aborted,
    /// The resource is unavailable.
    Unavailable,
    /// The entity already exists.
    AlreadyExists,
    /// The channel is broken.
    Broken,
    /// The operation is invalid in this state.
    InvalidOperation,
    /// A parameter was invalid.
    InvalidInput,
    /// The data read is malformed.
    InvalidData,
    /// The operation timed out.
    TimedOut,
    /// The operation was interrupted.
    Interrupted,
    /// The operation is not supported.
    Unsupported,
    /// The reader ran out of data.
    OutOfData,
    /// The writer ran out of space.
    OutOfSpace,
    /// The data read is not valid UTF-8.
    Utf8Error,
    /// Some other error.
    Other,
}

/// A source of binary data.
pub trait Read {
    /// The number of bytes this source can still yield.
    spec fn remaining(&self) -> nat;

    /// Reads some bytes into the front of `buf`, returning the amount
    /// written.
    ///
    /// `Ok(None)` means the source is exhausted for good; `Ok(Some(n))`
    /// means `n` bytes were read, and `n` is at least one whenever `buf` is
    /// not empty. There's no guarantee on how many bytes are read; see
    /// [`Read::read_exact`] if you need to know.
    fn read(&mut self, buf: &mut [u8]) -> (r: Result<Option<usize>, Error>)
        ensures
            final(buf)@.len() == old(buf)@.len(),
            r matches Ok(Some(n)) ==> n <= old(buf)@.len() && (old(buf)@.len() > 0 ==> n >= 1) && n
                <= old(self).remaining() && final(self).remaining() + n == old(self).remaining()
                && final(buf)@.skip(n as int) == old(buf)@.skip(n as int),
            r matches Ok(None) ==> final(buf)@ == old(buf)@ && final(self).remaining()
                == old(self).remaining() && final(self).remaining() == 0,
    ;

    /// Reads exactly enough bytes to fill `buf`, returning `Err(OutOfData)`
    /// if the source is exhausted first.
    fn read_exact(&mut self, buf: &mut [u8]) -> (r: Result<(), Error>)
        ensures
            final(buf)@.len() == old(buf)@.len(),
            r is Ok ==> final(self).remaining() + old(buf)@.len() == old(self).remaining(),
            old(buf)@.len() == 0 ==> r is Ok,
    {
        let n = buf.len();
        let mut filled: usize = 0;
        while filled < n
            invariant
                filled <= n,
                n == old(buf)@.len(),
                buf@.len() == n,
                filled + self.remaining() == old(self).remaining(),
            decreases n - filled,
        {
            let (_, tail) = buf.split_at_mut(filled);
            match self.read(tail) {
                Ok(Some(k)) => {
                    filled = filled + k;
                },
                Ok(None) => {
                    return Err(Error::OutOfData);
                },
                Err(e) => {
                    return Err(e);
                },
            }
        }
        Ok(())
    }

    /// Read some bytes onto the end of `buf`, at most a small fixed amount
    /// per call, returning the amount written.
    fn read_onto_vec(&mut self, buf: &mut Vec<u8>) -> (r: Result<Option<usize>, Error>)
        ensures
            final(buf)@.len() >= old(buf)@.len(),
            final(buf)@.take(old(buf)@.len() as int) == old(buf)@,
            r matches Ok(Some(n)) ==> final(buf)@.len() == old(buf)@.len() + n && n >= 1
                && n <= old(self).remaining() && final(self).remaining() + n
                == old(self).remaining(),
            r matches Ok(None) ==> final(buf)@ == old(buf)@ && final(self).remaining()
                == old(self).remaining() && final(self).remaining() == 0,
    {
        let mut tmp: Vec<u8> = vec![0u8; 16];
        let r = match self.read(tmp.as_mut_slice()) {
            Ok(Some(k)) => k,
            Ok(None) => {
                proof {
                    assert(buf@.take(buf@.len() as int) =~= buf@);
                }
                return Ok(None);
            },
            Err(e) => {
                proof {
                    assert(buf@.take(buf@.len() as int) =~= buf@);
                }
                return Err(e);
            },
        };
        let ghost pre = buf@;
        let mut i: usize = 0;
        while i < r
            invariant
                i <= r,
                r <= 16,
                tmp@.len() == 16,
                buf@ == pre + tmp@.take(i as int),
            decreases r - i,
        {
            let b = tmp[i];
            buf.push(b);
            proof {
                assert(pre + tmp@.take(i + 1) =~= (pre + tmp@.take(i as int)).push(
                    tmp@[i as int],
                ));
            }
            i = i + 1;
        }
        proof {
            assert(buf@.take(pre.len() as int) =~= pre);
        }
        Ok(Some(r))
    }

    /// Exhaust the source, reading everything onto the end of `buf`,
    /// checking that what was read is valid UTF-8; returns the total
    /// number of bytes read.
    ///
    /// On malformed UTF-8 only the longest valid prefix of the bytes read
    /// is appended, and `Err(Utf8Error)` is returned.
    fn read_to_string(&mut self, buf: &mut String) -> (r: Result<Option<usize>, Error>)
        requires
            old(self).remaining() <= usize::MAX,
        ensures
            final(buf)@.len() >= old(buf)@.len(),
            final(buf)@.take(old(buf)@.len() as int) == old(buf)@,
            r matches Ok(Some(n)) ==> final(self).remaining() == 0 && n == old(self).remaining()
                && vstd::utf8::encode_utf8(final(buf)@.skip(old(buf)@.len() as int)).len() == n,
            r is Err ==> final(buf)@ == old(buf)@ || (r == Err::<Option<usize>, Error>(
                Error::Utf8Error,
            ) && final(self).remaining() == 0 && vstd::utf8::encode_utf8(
                final(buf)@.skip(old(buf)@.len() as int),
            ).len() <= old(self).remaining()),
    {
        let mut bytes: Vec<u8> = Vec::new();
        let total = match self.read_to_end(&mut bytes) {
            Ok(Some(n)) => n,
            Ok(None) => {
                proof {
                    assert(false);
                }
                0
            },
            Err(e) => {
                proof {
                    assert(buf@.take(buf@.len() as int) =~= buf@);
                }
                return Err(e);
            },
        };
        let ghost pre = buf@;
        match bytes_to_str(bytes.as_slice()) {
            Ok(s) => {
                buf.append(s);
                proof {
                    assert(buf@.take(pre.len() as int) =~= pre);
                    assert(buf@.skip(pre.len() as int) =~= s@);
                }
                Ok(Some(total))
            },
            Err(valid_up_to) => {
                let prefix = vstd::slice::slice_subrange(bytes.as_slice(), 0, valid_up_to);
                match bytes_to_str(prefix) {
                    Ok(s) => {
                        buf.append(s);
                        proof {
                            assert(buf@.take(pre.len() as int) =~= pre);
                            assert(buf@.skip(pre.len() as int) =~= s@);
                        }
                    },
                    Err(_) => {
                        // the prefix up to `valid_up_to` is valid UTF-8, so
                        // converting it cannot fail
                        proof {
                            assert(false);
                        }
                    },
                };
                Err(Error::Utf8Error)
            },
        }
    }

    /// Exhaust the source, reading everything onto the end of `buf`;
    /// returns the total amount read.
    fn read_to_end(&mut self, buf: &mut Vec<u8>) -> (r: Result<Option<usize>, Error>)
        requires
            old(self).remaining() <= usize::MAX,
        ensures
            final(buf)@.len() >= old(buf)@.len(),
            final(buf)@.take(old(buf)@.len() as int) == old(buf)@,
            r is Ok ==> r matches Ok(Some(_)),
            r matches Ok(Some(n)) ==> final(buf)@.len() == old(buf)@.len() + n
                && final(self).remaining() == 0 && n == old(self).remaining(),
    {
        let ghost pre = buf@;
        let mut total: usize = 0;
        loop
            invariant
                pre == old(buf)@,
                old(self).remaining() <= usize::MAX,
                buf@.len() == pre.len() + total,
                buf@.take(pre.len() as int) == pre,
                total + self.remaining() == old(self).remaining(),
            decreases self.remaining(),
        {
            match self.read_onto_vec(buf) {
                Ok(Some(k)) => {
                    total = total + k;
                },
                Ok(None) => {
                    return Ok(Some(total));
                },
                Err(e) => {
                    return Err(e);
                },
            }
        }
    }
}

/// Relies on core's str::from_utf8: it succeeds exactly on byte sequences
/// that are valid UTF-8, giving the borrowed string those bytes encode; on
/// failure it reports the length of the longest valid prefix
/// (`Utf8Error::valid_up_to`).
#[verifier::external_body]
fn bytes_to_str(v: &[u8]) -> (r: Result<&str, usize>)
    ensures
        r matches Ok(s) ==> vstd::utf8::encode_utf8(s@) == v@,
        r is Err ==> !vstd::utf8::valid_utf8(v@),
        r matches Err(k) ==> k <= v@.len() && vstd::utf8::valid_utf8(v@.take(k as int)),
{
    match core::str::from_utf8(v) {
        Ok(s) => Ok(s),
        Err(e) => Err(e.valid_up_to()),
    }
}

/// A sink for binary data.
pub trait Write {
    /// Write some bytes from `data`, returning how many were accepted: at
    /// least one whenever `data` is not empty.
    ///
    /// There's no guarantee on how many bytes are written; see
    /// [`Write::write_all`] if you need to know.
    fn write(&mut self, data: &[u8]) -> (r: Result<usize, Error>)
        ensures
            r matches Ok(n) ==> n <= data@.len() && (data@.len() > 0 ==> n >= 1),
    ;

    /// Flush the sink's data to an underlying target; on many types a
    /// no-op.
    fn flush(&mut self) -> (r: Result<(), Error>);

    /// Write the entirety of `data`.
    fn write_all(&mut self, data: &[u8]) -> (r: Result<(), Error>) {
        let n = data.len();
        let mut done: usize = 0;
        while done < n
            invariant
                done <= n,
                n == data@.len(),
            decreases n - done,
        {
            let (_, rest) = data.split_at(done);
            match self.write(rest) {
                Ok(k) => {
                    done = done + k;
                },
                Err(e) => {
                    return Err(e);
                },
            }
        }
        Ok(())
    }
}

/// A [`Read`] or [`Write`] source that can be moved to an arbitrary
/// position.
pub trait Seek {
    /// Seek forwards or backwards by a certain number of bytes, returning
    /// the new position.
    fn seek(&mut self, by: isize) -> (r: Result<usize, Error>);

    /// Seek to a specific location in bytes, returning the new position.
    fn seek_to(&mut self, to: usize) -> (r: Result<usize, Error>);

    /// Seek backwards from the end a certain number of bytes, returning the
    /// new position.
    fn seek_from_end(&mut self, by: usize) -> (r: Result<usize, Error>);

    /// Seek to the beginning.
    fn rewind(&mut self) -> (r: Result<(), Error>) {
        match self.seek_to(0) {
            Ok(_) => Ok(()),
            Err(e) => Err(e),
        }
    }
}

} // verus!
