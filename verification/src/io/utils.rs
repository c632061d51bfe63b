//! Moving bytes between sources and sinks.

use vstd::prelude::*;

use crate::io::{Error, Read, Write};

verus! {

/// Copy bytes from `reader` to `writer` until `reader` is exhausted.
///
/// Returns the total number of bytes moved, or `Ok(None)` when the reader
/// yielded nothing at all.
pub fn copy<R: Read, W: Write>(reader: &mut R, writer: &mut W) -> (r: Result<Option<usize>, Error>)
    requires
        old(reader).remaining() <= usize::MAX,
    ensures
        r matches Ok(Some(t)) ==> t + final(reader).remaining() == old(reader).remaining()
            && final(reader).remaining() == 0 && t > 0,
        r matches Ok(None) ==> final(reader).remaining() == old(reader).remaining()
            && old(reader).remaining() == 0,
{
    let mut any = false;
    let mut total: usize = 0;
    let mut buf: Vec<u8> = vec![0u8; 128];
    loop
        invariant
            old(reader).remaining() <= usize::MAX,
            buf@.len() == 128,
            total + reader.remaining() == old(reader).remaining(),
            any ==> total > 0,
            !any ==> total == 0 && reader.remaining() == old(reader).remaining(),
        decreases reader.remaining(),
    {
        match reader.read(buf.as_mut_slice()) {
            Ok(Some(k)) => {
                let chunk = vstd::slice::slice_subrange(buf.as_slice(), 0, k);
                match writer.write_all(chunk) {
                    Ok(()) => (),
                    Err(e) => {
                        return Err(e);
                    },
                }
                total = total + k;
                any = true;
            },
            Ok(None) => {
                if any {
                    return Ok(Some(total));
                } else {
                    return Ok(None);
                }
            },
            Err(e) => {
                return Err(e);
            },
        }
    }
}

} // verus!
