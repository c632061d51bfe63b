//! A moving cursor over bytes: reads and writes both advance the position.

use vstd::math::{max, min};
use vstd::prelude::*;

use crate::io::{Error, Read, Seek, Write};

verus! {

/// A moving cursor over a span of bytes.
///
/// Reading and writing both move forward in the data: if you don't want
/// this, consider using [`Buffer`](crate::io::Buffer) instead.
pub struct Cursor {
    data: Vec<u8>,
    idx: usize,
}

impl Cursor {
    #[verifier::type_invariant]
    spec fn type_wf(self) -> bool {
        self.idx <= self.data@.len()
    }

    /// The whole underlying data.
    pub closed spec fn storage(&self) -> Seq<u8> {
        self.data@
    }

    /// The current position in the data.
    pub closed spec fn spec_position(&self) -> nat {
        self.idx as nat
    }

    /// The data from the current position to the end.
    pub open spec fn rest(&self) -> Seq<u8> {
        self.storage().skip(self.spec_position() as int)
    }

    /// Create a new cursor, starting at the beginning.
    pub fn new(data: Vec<u8>) -> (r: Self)
        ensures
            r.storage() == data@,
            r.spec_position() == 0,
    {
        Cursor { data, idx: 0 }
    }

    /// Create a new cursor, starting partway through the data.
    pub fn new_at(data: Vec<u8>, idx: usize) -> (r: Self)
        requires
            idx <= data@.len(),
        ensures
            r.storage() == data@,
            r.spec_position() == idx,
    {
        Cursor { data, idx }
    }

    /// Returns the amount of remaining data.
    pub fn len(&self) -> (r: usize)
        ensures
            r == self.rest().len(),
    {
        proof {
            use_type_invariant(&*self);
        }
        self.data.len() - self.idx
    }

    /// Returns the current position in the data.
    pub fn position(&self) -> (r: usize)
        ensures
            r == self.spec_position(),
    {
        self.idx
    }

    /// Returns whether the cursor is at the end of the data.
    pub fn is_empty(&self) -> (r: bool)
        ensures
            r <==> self.rest().len() == 0,
    {
        proof {
            use_type_invariant(&*self);
        }
        self.data.len() - self.idx == 0
    }

    /// Consumes the cursor and returns the underlying data.
    pub fn into_inner(self) -> (r: Vec<u8>)
        ensures
            r@ == self.storage(),
    {
        self.data
    }

    /// Returns a view into the remaining data.
    pub fn remaining(&self) -> (r: &[u8])
        ensures
            r@ == self.rest(),
    {
        proof {
            use_type_invariant(&*self);
        }
        vstd::slice::slice_subrange(self.data.as_slice(), self.idx, self.data.len())
    }

    /// Get a reference to the underlying data.
    pub fn get_ref(&self) -> (r: &Vec<u8>)
        ensures
            r@ == self.storage(),
    {
        &self.data
    }

}

impl Seek for Cursor {
    fn seek(&mut self, by: isize) -> (r: Result<usize, Error>)
        ensures
            final(self).storage() == old(self).storage(),
            final(self).spec_position() == min(
                max(old(self).spec_position() + by, 0),
                old(self).storage().len() as int,
            ),
            r == Ok::<usize, Error>((final(self).spec_position()) as usize),
    {
        proof {
            use_type_invariant(&*self);
        }
        let moved: usize = if by >= 0 {
            let step = by as usize;
            if usize::MAX - self.idx < step {
                usize::MAX
            } else {
                self.idx + step
            }
        } else {
            let mag: usize = if by == isize::MIN {
                (isize::MAX as usize) + 1
            } else {
                (-by) as usize
            };
            if self.idx < mag {
                0
            } else {
                self.idx - mag
            }
        };
        let end = self.data.len();
        self.idx = if moved < end {
            moved
        } else {
            end
        };
        Ok(self.idx)
    }

    fn seek_to(&mut self, to: usize) -> (r: Result<usize, Error>)
        ensures
            final(self).storage() == old(self).storage(),
            final(self).spec_position() == min(to as int, old(self).storage().len() as int),
            r == Ok::<usize, Error>((final(self).spec_position()) as usize),
    {
        proof {
            use_type_invariant(&*self);
        }
        let end = self.data.len();
        self.idx = if to < end {
            to
        } else {
            end
        };
        Ok(self.idx)
    }

    fn seek_from_end(&mut self, by: usize) -> (r: Result<usize, Error>)
        ensures
            final(self).storage() == old(self).storage(),
            final(self).spec_position() == max(old(self).storage().len() - by, 0),
            r == Ok::<usize, Error>((final(self).spec_position()) as usize),
    {
        proof {
            use_type_invariant(&*self);
        }
        let end = self.data.len();
        self.idx = if end < by {
            0
        } else {
            end - by
        };
        Ok(self.idx)
    }

    fn rewind(&mut self) -> (r: Result<(), Error>)
        ensures
            final(self).storage() == old(self).storage(),
            final(self).spec_position() == 0,
            r is Ok,
    {
        proof {
            use_type_invariant(&*self);
        }
        self.idx = 0;
        Ok(())
    }
}

impl Read for Cursor {
    open spec fn remaining(&self) -> nat {
        self.rest().len()
    }

    fn read(&mut self, buf: &mut [u8]) -> (r: Result<Option<usize>, Error>)
        ensures
            r is Ok,
            final(self).storage() == old(self).storage(),
            r matches Ok(Some(n)) ==> n == min(
                old(self).rest().len() as int,
                old(buf)@.len() as int,
            ) && final(buf)@ == old(self).rest().take(n as int) + old(buf)@.skip(n as int)
                && final(self).spec_position() == old(self).spec_position() + n,
            r matches Ok(None) <==> old(self).rest().len() == 0,
    {
        proof {
            use_type_invariant(&*self);
        }
        let rem = self.data.len() - self.idx;
        if rem == 0 {
            return Ok(None);
        }
        if buf.len() == 0 {
            proof {
                assert(buf@ =~= old(self).rest().take(0) + old(buf)@.skip(0));
            }
            return Ok(Some(0));
        }
        let cap = if rem < buf.len() {
            rem
        } else {
            buf.len()
        };
        let ghost bpre = buf@;
        let start = self.idx;
        let mut j: usize = 0;
        while j < cap
            invariant
                j <= cap,
                start + cap <= self.data@.len(),
                self.data@.len() <= usize::MAX,
                cap <= buf@.len(),
                buf@.len() == bpre.len(),
                self.idx == start,
                forall|k: int| 0 <= k < j ==> buf@[k] == self.data@[start + k],
                forall|k: int| j <= k < buf@.len() ==> buf@[k] == bpre[k],
            decreases cap - j,
        {
            let b = self.data[start + j];
            buf[j] = b;
            j = j + 1;
        }
        self.idx = self.idx + cap;
        proof {
            assert(buf@ =~= old(self).rest().take(cap as int) + bpre.skip(cap as int));
            assert(buf@.skip(cap as int) =~= bpre.skip(cap as int));
        }
        Ok(Some(cap))
    }

    fn read_exact(&mut self, buf: &mut [u8]) -> (r: Result<(), Error>)
        ensures
            final(self).storage() == old(self).storage(),
            r is Ok <==> old(buf)@.len() <= old(self).rest().len(),
            r is Ok ==> final(buf)@ == old(self).rest().take(old(buf)@.len() as int)
                && final(self).spec_position() == old(self).spec_position() + old(buf)@.len(),
            r is Err ==> r == Err::<(), Error>(Error::OutOfData) && final(self).rest().len() == 0,
    {
        proof {
            use_type_invariant(&*self);
        }
        let n = buf.len();
        if n == 0 {
            proof {
                assert(buf@ =~= old(self).rest().take(0));
            }
            return Ok(());
        }
        match self.read(buf) {
            Ok(Some(k)) => {
                if k == n {
                    proof {
                        assert(buf@ =~= old(self).rest().take(n as int));
                    }
                    Ok(())
                } else {
                    Err(Error::OutOfData)
                }
            },
            Ok(None) => Err(Error::OutOfData),
            Err(e) => {
                proof {
                    assert(false);
                }
                Err(e)
            },
        }
    }
}

impl Write for Cursor {
    fn write(&mut self, data: &[u8]) -> (r: Result<usize, Error>)
        ensures
            final(self).storage().len() == old(self).storage().len(),
            r matches Ok(n) ==> n == min(
                old(self).rest().len() as int,
                data@.len() as int,
            ) && final(self).storage() == old(self).storage().take(
                old(self).spec_position() as int,
            ) + data@.take(n as int) + old(self).storage().skip(
                old(self).spec_position() + n,
            ) && final(self).spec_position() == old(self).spec_position() + n
                && old(self).rest().len() > 0,
            r is Err ==> r == Err::<usize, Error>(Error::OutOfSpace) && old(self).rest().len() == 0
                && *final(self) == *old(self),
    {
        proof {
            use_type_invariant(&*self);
        }
        let space = self.data.len() - self.idx;
        if space == 0 {
            return Err(Error::OutOfSpace);
        }
        let cap = if space < data.len() {
            space
        } else {
            data.len()
        };
        let ghost dpre = self.data@;
        let start = self.idx;
        let mut j: usize = 0;
        while j < cap
            invariant
                j <= cap,
                start + cap <= self.data@.len(),
                self.data@.len() <= usize::MAX,
                cap <= data@.len(),
                self.data@.len() == dpre.len(),
                self.idx == start,
                forall|m: int| 0 <= m < j ==> self.data@[start + m] == data@[m],
                forall|m: int| 0 <= m < self.data@.len() && !(start <= m < start + j)
                    ==> self.data@[m] == dpre[m],
            decreases cap - j,
        {
            let b = data[j];
            self.data[start + j] = b;
            j = j + 1;
        }
        self.idx = self.idx + cap;
        proof {
            assert(self.data@ =~= old(self).storage().take(start as int) + data@.take(cap as int)
                + old(self).storage().skip(start + cap));
        }
        Ok(cap)
    }

    fn flush(&mut self) -> (r: Result<(), Error>) {
        Ok(())
    }

    fn write_all(&mut self, data: &[u8]) -> (r: Result<(), Error>)
        ensures
            final(self).storage().len() == old(self).storage().len(),
            r is Ok <==> data@.len() <= old(self).rest().len(),
            r is Ok ==> final(self).storage() == old(self).storage().take(
                old(self).spec_position() as int,
            ) + data@ + old(self).storage().skip((old(self).spec_position() + data@.len()) as int)
                && final(self).spec_position() == old(self).spec_position() + data@.len(),
            r is Err ==> r == Err::<(), Error>(Error::OutOfSpace),
    {
        let n = data.len();
        if n == 0 {
            proof {
                use_type_invariant(&*self);
                assert(self.storage() =~= self.storage().take(self.spec_position() as int) + data@
                    + self.storage().skip((self.spec_position() + data@.len()) as int));
            }
            return Ok(());
        }
        match self.write(data) {
            Ok(k) => {
                if k == n {
                    proof {
                        assert(data@.take(n as int) =~= data@);
                    }
                    Ok(())
                } else {
                    Err(Error::OutOfSpace)
                }
            },
            Err(e) => Err(e),
        }
    }
}

} // verus!
