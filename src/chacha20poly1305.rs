//! ChaCha20Poly1305 with a 96-bit nonce.
use crate::cipher::{Cipher, Error};
use crate::model::{open, open_detached, seal, compute_tag, encipher, within_limit};
use crate::primitives::zeroize_key;
use crate::stream::ChaChaStream;
use vstd::prelude::*;

verus! {

/// ChaCha20Poly1305 under one 256-bit key. Each call takes a 12-byte nonce
/// and runs a session of its own; the key is wiped on drop.
#[derive(Clone)]
pub struct ChaCha20Poly1305 {
    key: [u8; 32],
}

impl ChaCha20Poly1305 {
    /// The secret key.
    pub closed spec fn key(&self) -> Seq<u8> {
        self.key@
    }

    pub fn new(key: &[u8; 32]) -> (r: Self)
        ensures
            r.key() == key@,
    {
        ChaCha20Poly1305 { key: *key }
    }

    /// A fresh session for `nonce`.
    fn session(&self, nonce: &[u8; 12]) -> (c: Cipher)
        ensures
            c.fresh(),
            c.key() == self.key(),
            c.nonce() == nonce@,
    {
        Cipher::new(ChaChaStream::new(&self.key, nonce))
    }

    /// The ciphertext of `msg` followed by its 16-byte tag over `aad` and
    /// the ciphertext; an error for a message too long for the keystream.
    pub fn encrypt(&self, nonce: &[u8; 12], msg: &[u8], aad: &[u8]) -> (r: Result<Vec<u8>, Error>)
        ensures
            match r {
                Ok(v) => seal(self.key(), nonce@, msg@, aad@) == Some(v@),
                Err(_) => seal(self.key(), nonce@, msg@, aad@) is None,
            },
    {
        self.session(nonce).encrypt(msg, aad)
    }

    /// The plaintext of `data`, ciphertext followed by its tag; an error
    /// when `data` is shorter than a tag, too long, or does not
    /// authenticate.
    pub fn decrypt(&self, nonce: &[u8; 12], data: &[u8], aad: &[u8]) -> (r: Result<Vec<u8>, Error>)
        ensures
            match r {
                Ok(v) => open(self.key(), nonce@, data@, aad@) == Some(v@),
                Err(_) => open(self.key(), nonce@, data@, aad@) is None,
            },
    {
        self.session(nonce).decrypt(data, aad)
    }

    /// Encrypts `buffer` in place and returns the tag; an error, with
    /// `buffer` untouched, for a buffer too long for the keystream.
    pub fn encrypt_in_place(&self, nonce: &[u8; 12], buffer: &mut [u8], aad: &[u8]) -> (r: Result<
        [u8; 16],
        Error,
    >)
        ensures
            match r {
                Ok(tag) => {
                    &&& within_limit(old(buffer)@.len())
                    &&& final(buffer)@ == encipher(self.key(), nonce@, old(buffer)@)
                    &&& tag@ == compute_tag(self.key(), nonce@, aad@, final(buffer)@)
                },
                Err(_) => {
                    &&& !within_limit(old(buffer)@.len())
                    &&& final(buffer)@ == old(buffer)@
                },
            },
    {
        self.session(nonce).encrypt_in_place(buffer, aad)
    }

    /// Checks `tag` and decrypts `buffer` in place; on an error `buffer` is
    /// left as it was.
    pub fn decrypt_in_place(
        &self,
        nonce: &[u8; 12],
        buffer: &mut [u8],
        aad: &[u8],
        tag: &[u8; 16],
    ) -> (r: Result<(), Error>)
        ensures
            match open_detached(self.key(), nonce@, old(buffer)@, aad@, tag@) {
                Some(plain) => r is Ok && final(buffer)@ == plain,
                None => r is Err && final(buffer)@ == old(buffer)@,
            },
    {
        self.session(nonce).decrypt_in_place(buffer, aad, tag)
    }
}

impl Drop for ChaCha20Poly1305 {
    fn drop(&mut self)
        ensures
            final(self).key() == Seq::new(32, |i: int| 0u8),
        opens_invariants none
        no_unwind
    {
        zeroize_key(&mut self.key);
    }
}

} // verus!
