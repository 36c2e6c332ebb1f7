//! Signer recovery: from a digest and a signature to the address of the key
//! that signed, or to the zero address where no key is recovered.

use vstd::prelude::*;
use crate::primitives::{ecrecover, ecrecover_key, keccak256, keccak256_array};
use crate::token::zero_bytes;

verus! {

/// The number of recovery ids: a valid one is below this.
pub const RECOVERY_ID_LIMIT: u8 = 4;

/// The last twenty bytes of a 32-byte digest.
pub open spec fn address_of_digest(digest: Seq<u8>) -> Seq<u8> {
    digest.subrange(12, 32)
}

/// The address of a public key: the last twenty bytes of its digest.
pub open spec fn address_of_key(key: Seq<u8>) -> Seq<u8> {
    address_of_digest(keccak256(key)@)
}

/// The key recovered from a digest and a signature. A recovery id of 4 or
/// more recovers nothing; below that the primitive decides.
pub open spec fn recovered_key(
    hash: Seq<u8>,
    signature: Seq<u8>,
    v: u8,
    malleability_flag: bool,
) -> Option<[u8; 64]> {
    if v < RECOVERY_ID_LIMIT {
        ecrecover(hash, signature, v, malleability_flag)
    } else {
        None
    }
}

/// The address of a recovered key, where one was recovered.
pub open spec fn signer_of_key(key: Option<[u8; 64]>) -> Option<Seq<u8>> {
    match key {
        Some(key) => Some(address_of_key(key@)),
        None => None,
    }
}

/// The address that signed `hash`, where a key is recovered.
pub open spec fn signer(
    hash: Seq<u8>,
    signature: Seq<u8>,
    v: u8,
    malleability_flag: bool,
) -> Option<Seq<u8>> {
    signer_of_key(recovered_key(hash, signature, v, malleability_flag))
}

/// The signer's address, or twenty zero bytes where there is no signer.
pub open spec fn address_or_zero(signer: Option<Seq<u8>>) -> Seq<u8> {
    match signer {
        Some(address) => address,
        None => zero_bytes(20),
    }
}

/// Whether an optional address stands for an optional byte string.
pub open spec fn same_signer(address: Option<[u8; 20]>, bytes: Option<Seq<u8>>) -> bool {
    match address {
        Some(address) => bytes == Some(address@),
        None => bytes is None,
    }
}

/// The last twenty bytes of a digest.
pub fn address_from_digest(digest: &[u8; 32]) -> (address: [u8; 20])
    ensures
        address@ == address_of_digest(digest@),
{
    let mut address = [0u8; 20];
    let mut i: usize = 0;
    while i < 20
        invariant
            i <= 20,
            forall|j: int| 0 <= j < i ==> address@[j] == digest@[12 + j],
        decreases 20 - i,
    {
        address[i] = digest[12 + i];
        i += 1;
    }
    assert(address@ =~= address_of_digest(digest@));
    address
}

/// The address of an uncompressed public key.
pub fn address_from_key(key: &[u8; 64]) -> (address: [u8; 20])
    ensures
        address@ == address_of_key(key@),
{
    let digest = keccak256_array(key.as_slice());
    address_from_digest(&digest)
}

/// The address of the outcome of a recovery: that of the key, where there is
/// one.
pub fn signer_from_key(key: Option<[u8; 64]>) -> (address: Option<[u8; 20]>)
    ensures
        same_signer(address, signer_of_key(key)),
{
    match key {
        Some(key) => Some(address_from_key(&key)),
        None => None,
    }
}

/// The address to report for an optional signer: the zero address stands for
/// "no signer".
pub fn address_or_sentinel(signer: Option<[u8; 20]>) -> (address: [u8; 20])
    ensures
        match signer {
            Some(signer) => address@ == signer@,
            None => address@ == zero_bytes(20),
        },
{
    match signer {
        Some(signer) => signer,
        None => {
            let zero = [0u8; 20];
            assert(zero@ =~= zero_bytes(20));
            zero
        },
    }
}

/// The address that signed `hash`, or `None` where no key is recovered: the
/// signature is invalid, it fails the malleability check that the flag asks
/// for, or the recovery id `v` is not below 4.
pub fn recover_signer(
    hash: &[u8; 32],
    signature: &[u8; 64],
    v: u8,
    malleability_flag: bool,
) -> (address: Option<[u8; 20]>)
    ensures
        same_signer(address, signer(hash@, signature@, v, malleability_flag)),
        v >= RECOVERY_ID_LIMIT ==> address is None,
{
    if v < RECOVERY_ID_LIMIT {
        let key = ecrecover_key(hash, signature, v, malleability_flag);
        signer_from_key(key)
    } else {
        None
    }
}

/// The address that signed `hash`, or the zero address where no key is
/// recovered. The zero address is a sentinel, to be read as "no signer";
/// [`recover_signer`] keeps the two apart.
pub fn recover_address(
    hash: &[u8; 32],
    signature: &[u8; 64],
    v: u8,
    malleability_flag: bool,
) -> (address: [u8; 20])
    ensures
        address@ == address_or_zero(signer(hash@, signature@, v, malleability_flag)),
        v >= RECOVERY_ID_LIMIT ==> address@ == zero_bytes(20),
{
    address_or_sentinel(recover_signer(hash, signature, v, malleability_flag))
}

} // verus!
