//! Content hashing with BLAKE3.
use vstd::prelude::*;

verus! {

/// The lowercase hexadecimal BLAKE3 digest of `bytes`.
pub uninterp spec fn blake3_hex(bytes: Seq<u8>) -> Seq<char>;

/// Every character of `s` is a lowercase hexadecimal digit.
pub open spec fn is_lower_hex(s: Seq<char>) -> bool {
    forall|k: int| 0 <= k < s.len() ==> ('0' <= #[trigger] s[k] && s[k] <= '9') || ('a' <= s[k] && s[k] <= 'f')
}

/// `blake3::Hasher::new`, `update(bytes)`, `finalize()`, `to_hex()`: the
/// BLAKE3 digest of `bytes` in lowercase hexadecimal.  The contract names the
/// digest and states its form (64 lowercase hexadecimal digits for 32
/// bytes), nothing more of it.
#[verifier::external_body]
pub(crate) fn hash_bytes(bytes: &Vec<u8>) -> (r: String)
    ensures
        r@ == blake3_hex(bytes@),
        r@.len() == 64,
        is_lower_hex(r@),
{
    let mut hasher = blake3::Hasher::new();
    hasher.update(bytes.as_slice());
    hasher.finalize().to_hex().to_string()
}

} // verus!
