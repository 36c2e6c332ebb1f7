//! Typed-data hashing and signer recovery for linked accounts.
//!
//! Two identities are linked when one holder of a secp256k1 key has signed a
//! message that names both. This library computes the digest that is signed
//! for such a message, and recovers the address of the key behind a
//! signature over a digest.
//!
//! - [`token`] encodes values into 32-byte words.
//! - [`schema`] builds the canonical type string of a struct type.
//! - [`typed_data`] hashes types, structs and the signing domain.
//! - [`recovery`] turns a digest and a signature into an address.
//! - [`contract`] offers the operations on plain records.
//! - [`laws`] states what holds of the digests for all inputs.
//! - [`primitives`] names the two primitives that are taken on trust.

pub mod contract;
pub mod laws;
pub mod primitives;
pub mod recovery;
pub mod schema;
pub mod token;
pub mod typed_data;
