//! The operations offered to callers, on plain records of bytes and text.

use vstd::prelude::*;
use crate::recovery::{address_or_zero, recover_address, signer, RECOVERY_ID_LIMIT};
use crate::token::zero_bytes;
use crate::typed_data::{
    domain_separator, domain_separator_digest, hash_linking_account, hash_linking_accounts,
    hash_linking_accounts_no_domain, linking_account_digest, linking_accounts_digest,
    signing_digest, LinkingAccount, LinkingAccounts,
};

verus! {

/// The state behind the operations. There is none.
#[derive(Clone, Copy, Debug, PartialEq, Eq)]
pub struct Counter {}

/// A digest, a signature over it, and how to recover its signer.
#[derive(Clone, Copy, Debug, PartialEq, Eq)]
pub struct EcrecoverInput {
    /// The 32-byte digest that was signed.
    pub m: [u8; 32],
    /// The recovery id.
    pub v: u8,
    /// The signature: `r`, then `s`.
    pub sig: [u8; 64],
    /// Whether to reject signatures with `s` in the upper half of the order.
    pub mc: bool,
}

/// A recovered address; twenty zero bytes where nothing was recovered.
#[derive(Clone, Copy, Debug, PartialEq, Eq)]
pub struct EcrecoverOutput {
    pub address: [u8; 20],
}

/// A signature, and how to recover its signer.
#[derive(Clone, Copy, Debug, PartialEq, Eq)]
pub struct EcrecoverSigInput {
    /// The recovery id.
    pub v: u8,
    /// The signature: `r`, then `s`.
    pub sig: [u8; 64],
    /// Whether to reject signatures with `s` in the upper half of the order.
    pub mc: bool,
}

/// A 32-byte digest.
#[derive(Clone, Copy, Debug, PartialEq, Eq)]
pub struct HashOutput {
    pub hash: [u8; 32],
}

impl Default for Counter {
    fn default() -> (counter: Counter)
        ensures
            counter == (Counter {}),
    {
        Counter {}
    }
}

impl Counter {
    /// The address that signed the digest `data.m`, or the zero address where
    /// no key is recovered; a recovery id of 4 or more recovers none.
    pub fn eth_ecrecover(&self, data: EcrecoverInput) -> (output: EcrecoverOutput)
        ensures
            output.address@ == address_or_zero(signer(data.m@, data.sig@, data.v, data.mc)),
            data.v >= RECOVERY_ID_LIMIT ==> output.address@ == zero_bytes(20),
    {
        EcrecoverOutput { address: recover_address(&data.m, &data.sig, data.v, data.mc) }
    }

    /// The address that signed the signing digest of `linking_accounts`, or
    /// the zero address where no key is recovered.
    pub fn eth_verify_eip712(
        &self,
        linking_accounts: LinkingAccounts,
        signature: EcrecoverSigInput,
    ) -> (output: EcrecoverOutput)
        ensures
            output.address@ == address_or_zero(
                signer(
                    signing_digest(linking_accounts@),
                    signature.sig@,
                    signature.v,
                    signature.mc,
                ),
            ),
            signature.v >= RECOVERY_ID_LIMIT ==> output.address@ == zero_bytes(20),
    {
        let hash = hash_linking_accounts(&linking_accounts);
        EcrecoverOutput {
            address: recover_address(&hash, &signature.sig, signature.v, signature.mc),
        }
    }

    /// The separator of the library's domain. It is the same at every call.
    pub fn domain_separator(&self) -> (output: HashOutput)
        ensures
            output.hash@ == domain_separator_digest(),
    {
        HashOutput { hash: domain_separator() }
    }

    /// The digest that a signer of `linking_accounts` signs.
    pub fn hash_linking_accounts(&self, linking_accounts: LinkingAccounts) -> (output: HashOutput)
        ensures
            output.hash@ == signing_digest(linking_accounts@),
    {
        HashOutput { hash: hash_linking_accounts(&linking_accounts) }
    }

    /// The struct hash of one linking account.
    pub fn hash_linking_account(&self, linking_account: LinkingAccount) -> (output: HashOutput)
        ensures
            output.hash@ == linking_account_digest(linking_account@),
    {
        HashOutput { hash: hash_linking_account(&linking_account) }
    }

    /// The struct hash of a pair of linking accounts, without any domain.
    pub fn hash_linking_accounts_no_domain(&self, linking_accounts: LinkingAccounts) -> (output:
        HashOutput)
        ensures
            output.hash@ == linking_accounts_digest(linking_accounts@),
    {
        HashOutput { hash: hash_linking_accounts_no_domain(&linking_accounts) }
    }
}

} // verus!
