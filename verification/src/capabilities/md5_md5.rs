//! MD5 capability backed by the `md5` crate.

use vstd::prelude::*;
use super::Md5;

verus! {

/// The RFC 1321 MD5 digest of a byte sequence: a function of the
/// input bytes alone.
pub uninterp spec fn md5_of(s: Seq<u8>) -> Seq<u8>;

/// Relies on md5::compute: it returns the RFC 1321 MD5 digest of the
/// input, which depends on the input bytes alone.
#[verifier::external_body]
fn md5_compute(data: &[u8]) -> (r: [u8; 16])
    ensures
        r@ == md5_of(data@),
{
    md5::compute(data).0
}

/// Implementation of the [`Md5`] trait using the `md5` crate.
pub struct Md5Md5;

impl Md5 for Md5Md5 {
    open spec fn available(&self) -> bool {
        true
    }

    fn md5(&self, plaintext: &[u8]) -> (r: Option<[u8; 16]>) {
        Some(md5_compute(plaintext))
    }
}

} // verus!
