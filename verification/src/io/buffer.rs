//! An in-memory byte buffer: reads consume from the front of the used
//! region, writes append to its end.

use vstd::prelude::*;

use crate::io::{Error, Read, Write};


verus! {

/// A wrapper around an in-memory span of bytes with a fixed capacity.
///
/// Reads consume from the start of the used data, writes append to it, up
/// to the capacity of the underlying storage.
pub struct Buffer {
    data: Vec<u8>,
    len: usize,
}

impl Buffer {
    #[verifier::type_invariant]
    spec fn type_wf(self) -> bool {
        self.len <= self.data@.len()
    }

    /// The whole underlying storage.
    pub closed spec fn storage(&self) -> Seq<u8> {
        self.data@
    }

    /// How many bytes of the storage are in use.
    pub closed spec fn spec_len(&self) -> nat {
        self.len as nat
    }

    /// The used portion of the storage: what a reader would consume.
    pub open spec fn used(&self) -> Seq<u8> {
        self.storage().take(self.spec_len() as int)
    }

    /// Create a new, empty buffer over the given storage.
    ///
    /// If there's data inside you want to preserve, use
    /// [`new_full`](Buffer::new_full), [`new_with_len`](Buffer::new_with_len)
    /// or [`set_len`](Buffer::set_len).
    pub fn new(data: Vec<u8>) -> (r: Self)
        ensures
            r.storage() == data@,
            r.spec_len() == 0,
    {
        Buffer { data, len: 0 }
    }

    /// Create a new buffer, preserving all existing data as used.
    pub fn new_full(data: Vec<u8>) -> (r: Self)
        ensures
            r.storage() == data@,
            r.spec_len() == data@.len(),
    {
        let len = data.len();
        Buffer { data, len }
    }

    /// Wrap the storage, preserving `len` bytes of data as used.
    pub fn new_with_len(data: Vec<u8>, len: usize) -> (r: Self)
        requires
            len <= data@.len(),
        ensures
            r.storage() == data@,
            r.spec_len() == len,
    {
        Buffer { data, len }
    }

    /// Override the used length of the buffer.
    ///
    /// Be careful: when increasing the length, you may end up reading
    /// stale storage bytes.
    pub fn set_len(&mut self, len: usize)
        requires
            len <= old(self).storage().len(),
        ensures
            final(self).storage() == old(self).storage(),
            final(self).spec_len() == len,
    {
        proof {
            use_type_invariant(&*self);
        }
        self.len = len;
    }

    /// Returns the used length of the buffer.
    pub fn len(&self) -> (r: usize)
        ensures
            r == self.spec_len(),
    {
        self.len
    }

    /// Returns whether the buffer currently holds no data.
    pub fn is_empty(&self) -> (r: bool)
        ensures
            r <==> self.spec_len() == 0,
    {
        self.len == 0
    }

    /// Returns the remaining space in the buffer.
    pub fn cap(&self) -> (r: usize)
        ensures
            r == self.storage().len() - self.spec_len(),
    {
        proof {
            use_type_invariant(&*self);
        }
        self.data.len() - self.len
    }

    /// Consumes the buffer and returns the underlying storage.
    pub fn into_inner(self) -> (r: Vec<u8>)
        ensures
            r@ == self.storage(),
    {
        self.data
    }

    /// Returns a view into the used portion of the buffer.
    pub fn data(&self) -> (r: &[u8])
        ensures
            r@ == self.used(),
    {
        proof {
            use_type_invariant(&*self);
        }
        vstd::slice::slice_subrange(self.data.as_slice(), 0, self.len)
    }

    /// Get a reference to the underlying storage.
    pub fn get_ref(&self) -> (r: &Vec<u8>)
        ensures
            r@ == self.storage(),
    {
        &self.data
    }

}

impl Read for Buffer {
    open spec fn remaining(&self) -> nat {
        self.spec_len()
    }

    fn read(&mut self, buf: &mut [u8]) -> (r: Result<Option<usize>, Error>)
        ensures
            r is Ok,
            final(self).storage().len() == old(self).storage().len(),
            r matches Ok(Some(n)) ==> n == vstd::math::min(
                old(self).spec_len() as int,
                old(buf)@.len() as int,
            ) && final(buf)@ == old(self).used().take(n as int) + old(buf)@.skip(n as int)
                && final(self).used() == old(self).used().skip(n as int),
            r matches Ok(None) <==> old(self).spec_len() == 0 && old(buf)@.len() > 0,
    {
        proof {
            use_type_invariant(&*self);
        }
        if buf.len() == 0 {
            proof {
                assert(buf@ =~= old(self).used().take(0) + old(buf)@.skip(0));
                assert(self.used() =~= self.used().skip(0));
            }
            return Ok(Some(0));
        }
        if self.len == 0 {
            return Ok(None);
        }
        let cap = if self.len < buf.len() {
            self.len
        } else {
            buf.len()
        };
        let ghost bpre = buf@;
        let mut j: usize = 0;
        while j < cap
            invariant
                j <= cap,
                cap <= self.len <= self.data@.len(),
                cap <= buf@.len(),
                buf@.len() == bpre.len(),
                forall|k: int| 0 <= k < j ==> buf@[k] == self.data@[k],
                forall|k: int| j <= k < buf@.len() ==> buf@[k] == bpre[k],
            decreases cap - j,
        {
            let b = self.data[j];
            buf[j] = b;
            j = j + 1;
        }
        // shift the unread tail of the used region to the front
        let newlen = self.len - cap;
        let ghost dpre = self.data@;
        let mut k: usize = 0;
        while k < newlen
            invariant
                k <= newlen,
                newlen + cap <= self.data@.len(),
                newlen + cap == old(self).len,
                self.data@.len() == dpre.len(),
                self.len == old(self).len,
                forall|m: int| 0 <= m < k ==> self.data@[m] == dpre[m + cap],
                forall|m: int| k <= m < self.data@.len() ==> self.data@[m] == dpre[m],
            decreases newlen - k,
        {
            let b = self.data[k + cap];
            self.data[k] = b;
            k = k + 1;
        }
        self.len = newlen;
        proof {
            assert(buf@ =~= old(self).used().take(cap as int) + bpre.skip(cap as int));
            assert(buf@.skip(cap as int) =~= bpre.skip(cap as int));
            assert(self.used() =~= old(self).used().skip(cap as int));
        }
        Ok(Some(cap))
    }

    fn read_exact(&mut self, buf: &mut [u8]) -> (r: Result<(), Error>)
        ensures
            final(self).storage().len() == old(self).storage().len(),
            r is Ok <==> old(buf)@.len() <= old(self).spec_len(),
            r is Ok ==> final(buf)@ == old(self).used().take(old(buf)@.len() as int)
                && final(self).used() == old(self).used().skip(old(buf)@.len() as int),
            r is Err ==> r == Err::<(), Error>(Error::OutOfData) && final(self).spec_len() == 0,
    {
        proof {
            use_type_invariant(&*self);
        }
        let n = buf.len();
        if n == 0 {
            proof {
                assert(buf@ =~= old(self).used().take(0));
                assert(self.used() =~= self.used().skip(0));
            }
            return Ok(());
        }
        match self.read(buf) {
            Ok(Some(k)) => {
                if k == n {
                    proof {
                        assert(buf@ =~= old(self).used().take(n as int));
                    }
                    Ok(())
                } else {
                    Err(Error::OutOfData)
                }
            },
            Ok(None) => Err(Error::OutOfData),
            Err(e) => {
                proof {
                    assert(false);
                }
                Err(e)
            },
        }
    }
}

impl Write for Buffer {
    fn write(&mut self, data: &[u8]) -> (r: Result<usize, Error>)
        ensures
            final(self).storage().len() == old(self).storage().len(),
            r matches Ok(n) ==> n == vstd::math::min(
                (old(self).storage().len() - old(self).spec_len()) as int,
                data@.len() as int,
            ) && final(self).used() == old(self).used() + data@.take(n as int) && old(
                self,
            ).spec_len() < old(self).storage().len(),
            r is Err ==> r == Err::<usize, Error>(Error::OutOfSpace) && old(self).spec_len() == old(
                self,
            ).storage().len() && *final(self) == *old(self),
    {
        proof {
            use_type_invariant(&*self);
        }
        let space = self.data.len() - self.len;
        if space == 0 {
            return Err(Error::OutOfSpace);
        }
        let cap = if space < data.len() {
            space
        } else {
            data.len()
        };
        let ghost dpre = self.data@;
        let start = self.len;
        let mut j: usize = 0;
        while j < cap
            invariant
                j <= cap,
                start + cap <= self.data@.len(),
                self.data@.len() <= usize::MAX,
                cap <= data@.len(),
                self.data@.len() == dpre.len(),
                self.len == start,
                forall|m: int| 0 <= m < j ==> self.data@[start + m] == data@[m],
                forall|m: int| 0 <= m < self.data@.len() && !(start <= m < start + j)
                    ==> self.data@[m] == dpre[m],
            decreases cap - j,
        {
            let b = data[j];
            self.data[start + j] = b;
            j = j + 1;
        }
        self.len = self.len + cap;
        proof {
            assert(self.used() =~= old(self).used() + data@.take(cap as int));
        }
        Ok(cap)
    }

    fn flush(&mut self) -> (r: Result<(), Error>) {
        Ok(())
    }

    fn write_all(&mut self, data: &[u8]) -> (r: Result<(), Error>)
        ensures
            final(self).storage().len() == old(self).storage().len(),
            r is Ok <==> old(self).spec_len() + data@.len() <= old(self).storage().len(),
            r is Ok ==> final(self).used() == old(self).used() + data@,
            r is Err ==> r == Err::<(), Error>(Error::OutOfSpace),
    {
        let n = data.len();
        if n == 0 {
            proof {
                use_type_invariant(&*self);
                assert(self.used() =~= self.used() + data@);
            }
            return Ok(());
        }
        match self.write(data) {
            Ok(k) => {
                if k == n {
                    proof {
                        assert(data@.take(n as int) =~= data@);
                    }
                    Ok(())
                } else {
                    Err(Error::OutOfSpace)
                }
            },
            Err(e) => Err(e),
        }
    }
}

} // verus!
