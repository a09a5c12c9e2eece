//! Writing into a buffer of fixed length: always at the front, never past the
//! end, and the length stays what it was.

use vstd::prelude::*;
use crate::error::ErrorKind;
use crate::layout::overlaid;

verus! {

/// Copies `bytes` over the front of `buffer`; the rest of `buffer` stays.
pub(crate) fn write_front(buffer: &mut [u8], bytes: &[u8])
    requires
        bytes@.len() <= old(buffer)@.len(),
    ensures
        final(buffer)@ == overlaid(old(buffer)@, bytes@),
{
    let n = bytes.len();
    let mut i: usize = 0;
    while i < n
        invariant
            n == bytes@.len(),
            i <= n <= buffer@.len(),
            buffer@.len() == old(buffer)@.len(),
            forall|j: int| 0 <= j < i ==> buffer@[j] == bytes@[j],
            forall|j: int| i <= j < buffer@.len() ==> buffer@[j] == old(buffer)@[j],
        decreases n - i,
    {
        buffer[i] = bytes[i];
        i += 1;
    }
    assert(buffer@ =~= overlaid(old(buffer)@, bytes@));
}

/// Copies `payload` over the front of `buffer`, byte for byte.
///
/// Fails with [`ErrorKind::BufferOverflow`] exactly when `payload` is longer
/// than `buffer`; nothing is written then.
pub fn copy_payload(buffer: &mut [u8], payload: &[u8]) -> (copied: Result<(), ErrorKind>)
    ensures
        match copied {
            Ok(_) => {
                &&& payload@.len() <= old(buffer)@.len()
                &&& final(buffer)@ == overlaid(old(buffer)@, payload@)
            },
            Err(kind) => {
                &&& kind == ErrorKind::BufferOverflow
                &&& payload@.len() > old(buffer)@.len()
                &&& final(buffer)@ == old(buffer)@
            },
        },
{
    if payload.len() > buffer.len() {
        return Err(ErrorKind::BufferOverflow);
    }
    write_front(buffer, payload);
    Ok(())
}

} // verus!
