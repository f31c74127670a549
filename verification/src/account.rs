//! Accounts and their public keys.

use vstd::prelude::*;
use vstd::array::array_as_slice;
use vstd::slice::slice_to_vec;
use crate::address::Address;

verus! {

/// The number of bytes of a public key.
pub const PUBLIC_KEY_LEN: usize = 32;

/// An Ed25519 public key, by its bytes.
#[derive(Debug)]
pub struct PublicKey {
    bytes: [u8; 32],
}

impl View for PublicKey {
    type V = Seq<u8>;

    closed spec fn view(&self) -> Seq<u8> {
        self.bytes@
    }
}

impl PublicKey {
    /// The key with the bytes `bytes`.
    pub fn new(bytes: [u8; 32]) -> (key: PublicKey)
        ensures
            key@ == bytes@,
    {
        PublicKey { bytes }
    }

    /// The bytes by which the key is stored: the 32 bytes of the key.
    pub fn try_to_vec(&self) -> (bytes: Vec<u8>)
        ensures
            bytes@ == self@,
            bytes@.len() == PUBLIC_KEY_LEN,
    {
        slice_to_vec(array_as_slice(&self.bytes))
    }
}

/// An account of the genesis: its address and the key that signs for it.
#[derive(Debug)]
pub struct Account {
    pub address: Address,
    pub public_key: PublicKey,
}

} // verus!
