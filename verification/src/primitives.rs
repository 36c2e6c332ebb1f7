//! The two cryptographic primitives, which the library takes from `near_sdk`:
//! Keccak-256 and secp256k1 public-key recovery.
//!
//! Neither is verified here. Each is given a name in specifications, and a
//! thin function that makes the call and is trusted to return what the name
//! denotes. Nothing else is assumed of either: what a contract says of a
//! digest or of a recovered key, it says through these names.

use vstd::prelude::*;

verus! {

/// The Keccak-256 digest of `data`.
pub uninterp spec fn keccak256(data: Seq<u8>) -> [u8; 32];

/// The uncompressed secp256k1 public key (64 bytes, without the leading tag)
/// recovered from a 32-byte `hash`, a 64-byte `signature` (`r` then `s`) and
/// the recovery id `v`; `None` where no key is recovered. With
/// `malleability_flag` set, signatures whose `s` lies in the upper half of the
/// group order are rejected as well.
pub uninterp spec fn ecrecover(
    hash: Seq<u8>,
    signature: Seq<u8>,
    v: u8,
    malleability_flag: bool,
) -> Option<[u8; 64]>;

/// Calls `near_sdk::env::keccak256_array`. Trusted: the 32 bytes returned are
/// the Keccak-256 digest of `data`, a function of the bytes of `data` alone.
#[verifier::external_body]
pub(crate) fn keccak256_array(data: &[u8]) -> (digest: [u8; 32])
    ensures
        digest@ == keccak256(data@)@,
{
    near_sdk::env::keccak256_array(data)
}

/// Calls `near_sdk::env::ecrecover`. Trusted: whether a key comes back, and
/// which, is a function of the four arguments alone. The recovery id must be
/// below 4: on a larger one the call may fail instead of returning.
#[verifier::external_body]
pub(crate) fn ecrecover_key(
    hash: &[u8; 32],
    signature: &[u8; 64],
    v: u8,
    malleability_flag: bool,
) -> (key: Option<[u8; 64]>)
    requires
        v < 4,
    ensures
        key is Some <==> ecrecover(hash@, signature@, v, malleability_flag) is Some,
        key is Some ==> key->0@ == ecrecover(hash@, signature@, v, malleability_flag)->0@,
{
    near_sdk::env::ecrecover(hash, signature, v, malleability_flag)
}

} // verus!
