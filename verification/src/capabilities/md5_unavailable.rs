//! MD5 capability that unconditionally fails to hash.

use vstd::prelude::*;
use super::Md5;

verus! {

/// Implementation of the [`Md5`] trait that unconditionally fails to
/// hash, for builds that omit an MD5 backend.
pub struct Md5Unavailable;

impl Md5 for Md5Unavailable {
    open spec fn available(&self) -> bool {
        false
    }

    fn md5(&self, _plaintext: &[u8]) -> (r: Option<[u8; 16]>) {
        None
    }
}

} // verus!
