//! A free-standing integrity probe: compare the digest of a byte payload with
//! the digest of the command it claims to carry.

use vstd::prelude::*;
use vstd::utf8::encode_utf8;

use crate::encryption::{blake3_digest, blake3_of, eq_bytes};

verus! {

/// Whether `data` carries exactly the bytes of `original`: true exactly when
/// the two digests agree.
pub fn check_integrity(data: &[u8], original: &str) -> (r: bool)
    ensures
        r == (blake3_of(data@) == blake3_of(encode_utf8(original@))),
{
    let expected = blake3_digest(original.as_bytes());
    let actual = blake3_digest(data);
    eq_bytes(actual.as_slice(), expected.as_slice())
}

} // verus!
