//! The content hash: a collision-resistant digest of a file's bytes,
//! rendered as lowercase hex.  The digest function itself comes from an
//! outside crate; the library names its result and builds every contract
//! on that name.

use vstd::prelude::*;

verus! {

/// The lowercase hex digest the content hash assigns to a byte string; a
/// function of the bytes alone.
pub uninterp spec fn blake3_hex_of(data: Seq<u8>) -> Seq<u8>;

/// A byte in `'0'..'9'` or `'a'..'f'`.
pub open spec fn is_lower_hex_digit(b: u8) -> bool {
    (48 <= b && b <= 57) || (97 <= b && b <= 102)
}

/// Relies on `blake3::hash` and `blake3::Hash::to_hex`: the digest depends
/// on the input bytes alone and renders as exactly 64 characters drawn
/// from the lowercase hex table `0123456789abcdef`.
#[verifier::external_body]
pub(crate) fn hash_bytes(data: &[u8]) -> (r: Vec<u8>)
    ensures
        r@ == blake3_hex_of(data@),
        r@.len() == 64,
        forall|i: int| 0 <= i < r@.len() ==> is_lower_hex_digit(#[trigger] r@[i]),
{
    blake3::hash(data).to_hex().as_bytes().to_vec()
}

} // verus!
