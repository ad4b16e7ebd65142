use vstd::prelude::*;
use tiny_keccak::Hasher;

verus! {

/// The Keccak-256 digest (original Keccak padding, rate 136 bytes) of a byte string.
pub uninterp spec fn keccak256_of(data: Seq<u8>) -> Seq<u8>;

/// Relies on tiny_keccak's `Keccak::v256` hasher: one `update` with the whole
/// input, then `finalize` into a 32-byte buffer, gives the Keccak-256 digest,
/// which depends on the input bytes alone.
#[verifier::external_body]
fn tiny_keccak_v256(data: &[u8]) -> (r: [u8; 32])
    ensures
        r@ == keccak256_of(data@),
{
    let mut hasher = tiny_keccak::Keccak::v256();
    hasher.update(data);
    let mut out = [0u8; 32];
    hasher.finalize(&mut out);
    out
}

/// Keccak-256 of `data`, as used by the CREATE2 address scheme.
pub fn keccak256(data: &[u8]) -> (r: [u8; 32])
    ensures
        r@ == keccak256_of(data@),
{
    tiny_keccak_v256(data)
}

} // verus!
