//! Key material and plaintext that is overwritten before its memory is given
//! back.
use vstd::prelude::*;

use crate::crypto::cipher::{wipe_bytes, wipe_key};
use crate::crypto::kdf::KEY_LEN;

verus! {

/// A 32-byte key: a master key, a device key, or the key that wraps one.
pub struct SecretKey {
    bytes: [u8; KEY_LEN],
}

impl View for SecretKey {
    type V = Seq<u8>;

    closed spec fn view(&self) -> Seq<u8> {
        self.bytes@
    }
}

impl SecretKey {
    /// The key of these bytes. This copy of them is overwritten.
    pub fn new(bytes: [u8; KEY_LEN]) -> (r: SecretKey)
        ensures
            r@ == bytes@,
    {
        let mut bytes = bytes;
        let r = SecretKey { bytes };
        wipe_key(&mut bytes);
        r
    }

    /// The key in the clear.
    pub fn as_bytes(&self) -> (r: &[u8; KEY_LEN])
        ensures
            r@ == self@,
    {
        &self.bytes
    }

    /// Overwrites the key. Every byte of what is left is zero.
    pub fn zeroize(&mut self)
        ensures
            final(self)@.len() == KEY_LEN,
            forall|i: int| 0 <= i < KEY_LEN ==> final(self)@[i] == 0,
    {
        wipe_key(&mut self.bytes);
    }
}

impl Drop for SecretKey {
    fn drop(&mut self)
        opens_invariants none
        no_unwind
    {
        wipe_key(&mut self.bytes);
    }
}

impl Clone for SecretKey {
    fn clone(&self) -> (r: Self)
        ensures
            r == *self,
    {
        SecretKey { bytes: self.bytes }
    }
}

/// A decrypted text.
pub struct SecretBytes {
    bytes: Vec<u8>,
}

impl View for SecretBytes {
    type V = Seq<u8>;

    closed spec fn view(&self) -> Seq<u8> {
        self.bytes@
    }
}

impl SecretBytes {
    /// These bytes.
    pub fn new(bytes: Vec<u8>) -> (r: SecretBytes)
        ensures
            r@ == bytes@,
    {
        SecretBytes { bytes }
    }

    /// The bytes in the clear.
    pub fn as_slice(&self) -> (r: &[u8])
        ensures
            r@ == self@,
    {
        self.bytes.as_slice()
    }

    /// How many bytes there are.
    pub fn len(&self) -> (r: usize)
        ensures
            r == self@.len(),
    {
        self.bytes.len()
    }
}

impl Drop for SecretBytes {
    fn drop(&mut self)
        opens_invariants none
        no_unwind
    {
        wipe_bytes(&mut self.bytes);
    }
}

} // verus!
