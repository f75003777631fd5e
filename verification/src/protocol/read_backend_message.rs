//! Framed reading of backend messages from a stream.

use vstd::prelude::*;
use crate::connectivity::Stream;
use crate::error::Error;
use crate::error::IoErrorKind;
use crate::protocol::backend_message::be32_at;
use crate::protocol::backend_message::lemma_skip_skip;

verus! {

/// True if the front of `s` carries one complete frame: a five-byte
/// header whose length field is at least 4, and the declared body.
pub open spec fn frame_ok(s: Seq<u8>) -> bool {
    &&& s.len() >= 5
    &&& be32_at(s, 1) >= 4
    &&& s.len() >= 1 + be32_at(s, 1)
}

/// The total size of the frame at the front of `s`: the tag byte plus
/// the declared length.
pub open spec fn frame_size(s: Seq<u8>) -> int {
    1 + be32_at(s, 1)
}

/// Synchronously read one backend message frame from a stream.
///
/// The provided buffer is replaced with the entire frame.  Reusing the
/// buffer across reads reduces the number of allocations.  If reading
/// fails, the contents of the buffer are unspecified.  A declared
/// length below 4 is rejected after the five header bytes, before any
/// body byte is read.
pub fn read_backend_message<R: Stream>(r: &mut R, buf: &mut Vec<u8>) -> (res: Result<(), Error>)
    ensures
        final(r).written() == old(r).written(),
        final(r).reliable() == old(r).reliable(),
        old(r).reliable() && frame_ok(old(r).readable()) ==> res is Ok,
        (old(r).reliable() && old(r).readable().len() >= 5 && be32_at(old(r).readable(), 1) < 4)
            ==> (res matches Err(Error::FramingLengthTooSmall)),
        match res {
            Ok(()) => {
                &&& frame_ok(old(r).readable())
                &&& final(buf)@ == old(r).readable().take(frame_size(old(r).readable()))
                &&& final(r).readable() == old(r).readable().skip(frame_size(old(r).readable()))
            },
            Err(e) => {
                ||| {
                    &&& (e matches Error::Io(_))
                    &&& old(r).reliable() ==> (e matches Error::Io(IoErrorKind::UnexpectedEof))
                }
                ||| {
                    &&& (e matches Error::FramingLengthTooSmall)
                    &&& old(r).readable().len() >= 5
                    &&& be32_at(old(r).readable(), 1) < 4
                    &&& final(r).readable() == old(r).readable().skip(5)
                }
            },
        },
{
    buf.clear();
    match r.read_exact_append(buf, 5) {
        Ok(()) => {},
        Err(e) => {
            return Err(e);
        },
    }
    let ghost s0 = old(r).readable();
    proof {
        assert(buf@ =~= s0.take(5));
        assert(buf@[1] == s0[1]);
        assert(buf@[2] == s0[2]);
        assert(buf@[3] == s0[3]);
        assert(buf@[4] == s0[4]);
    }
    let length: u32 = (buf[1] as u32) * 16777216 + (buf[2] as u32) * 65536 + (buf[3] as u32)
        * 256 + (buf[4] as u32);
    proof {
        assert(length == be32_at(s0, 1));
    }
    if length < 4 {
        return Err(Error::FramingLengthTooSmall);
    }
    match r.read_exact_append(buf, length - 4) {
        Ok(()) => {},
        Err(e) => {
            return Err(e);
        },
    }
    proof {
        lemma_skip_skip(s0, 5, length - 4 as int);
        assert(buf@ =~= s0.take(1 + length as int));
        assert(r.readable() =~= s0.skip(1 + length as int));
    }
    Ok(())
}

/// The error that reports a declared message length below 4.
///
/// Message lengths are always at least 4, because they include the
/// length field itself.
pub fn make_length_error() -> (r: Error)
    ensures
        (r matches Error::FramingLengthTooSmall),
{
    Error::FramingLengthTooSmall
}

} // verus!
