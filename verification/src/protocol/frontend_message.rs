//! Serialization primitives for frontend messages.
//!
//! Frontend messages are built by appending big-endian integers and
//! nul-terminated byte strings to a growing buffer; the total length is
//! backpatched over a placeholder once the body is complete.

use vstd::prelude::*;
use crate::error::Error;

verus! {

/// The big-endian bytes of a 32-bit integer, most significant first.
pub open spec fn u32_be_bytes(v: u32) -> Seq<u8> {
    seq![
        (v / 16777216) as u8,
        ((v / 65536) % 256) as u8,
        ((v / 256) % 256) as u8,
        (v % 256) as u8,
    ]
}

/// True if `s` contains a zero byte.
pub open spec fn has_nul(s: Seq<u8>) -> bool {
    exists|i: int| 0 <= i < s.len() && s[i] == 0
}

/// Append a 32-bit integer in big-endian order.
pub fn write_int32_u32(buf: &mut Vec<u8>, value: u32)
    ensures
        final(buf)@ == old(buf)@ + u32_be_bytes(value),
{
    let b0: u8 = (value / 16777216) as u8;
    let b1: u8 = ((value / 65536) % 256) as u8;
    let b2: u8 = ((value / 256) % 256) as u8;
    let b3: u8 = (value % 256) as u8;
    buf.push(b0);
    buf.push(b1);
    buf.push(b2);
    buf.push(b3);
    proof {
        assert(buf@ =~= old(buf)@ + u32_be_bytes(value));
    }
}

/// Append a nul-terminated byte string.
///
/// The payload must not itself contain a zero byte; if it does, the
/// buffer is left untouched and the write is rejected.
pub fn write_string_slice(buf: &mut Vec<u8>, value: &[u8]) -> (r: Result<(), Error>)
    ensures
        match r {
            Ok(()) => {
                &&& !has_nul(value@)
                &&& final(buf)@ == old(buf)@ + value@ + seq![0u8]
            },
            Err(e) => {
                &&& (e matches Error::Nul)
                &&& has_nul(value@)
                &&& final(buf)@ == old(buf)@
            },
        },
{
    let mut i: usize = 0;
    while i < value.len()
        invariant
            0 <= i <= value@.len(),
            forall|k: int| 0 <= k < i ==> value@[k] != 0,
        decreases value@.len() - i,
    {
        if value[i] == 0 {
            proof {
                assert(value@[i as int] == 0);
            }
            return Err(Error::Nul);
        }
        i = i + 1;
    }
    buf.extend_from_slice(value);
    buf.push(0);
    proof {
        assert(buf@ =~= old(buf)@ + value@ + seq![0u8]);
    }
    Ok(())
}

/// Overwrite `buf[at .. at + 4]` with a 32-bit integer, big-endian.
///
/// This implements message-length backpatching: a four-byte zero
/// placeholder is written first, and replaced once the length is known.
pub fn patch_int32_u32(buf: &mut Vec<u8>, at: usize, value: u32)
    requires
        at + 4 <= old(buf)@.len(),
    ensures
        final(buf)@ == old(buf)@.subrange(0, at as int) + u32_be_bytes(value) + old(
            buf,
        )@.skip(at as int + 4),
{
    let n: usize = buf.len();
    assert(at + 4 <= n);
    let b0: u8 = (value / 16777216) as u8;
    let b1: u8 = ((value / 65536) % 256) as u8;
    let b2: u8 = ((value / 256) % 256) as u8;
    let b3: u8 = (value % 256) as u8;
    buf.set(at, b0);
    buf.set(at + 1, b1);
    buf.set(at + 2, b2);
    buf.set(at + 3, b3);
    proof {
        assert(buf@ =~= old(buf)@.subrange(0, at as int) + u32_be_bytes(value) + old(
            buf,
        )@.skip(at as int + 4));
    }
}

} // verus!
