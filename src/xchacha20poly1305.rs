//! XChaCha20Poly1305: ChaCha20Poly1305 with an extended 192-bit nonce.
//!
//! The first 16 nonce bytes and the key derive a subkey through HChaCha20;
//! the subkey and the last 8 nonce bytes, after four zero bytes, then seed an
//! ordinary ChaCha20Poly1305 session.
use crate::cipher::{Cipher, Error};
use crate::model::{
    compute_tag, encipher, extended_inner_nonce, extended_subkey, open, open_detached, seal,
    within_limit,
};
use crate::primitives::{hchacha20, zeroize_key};
use crate::stream::ChaChaStream;
use vstd::prelude::*;

verus! {

/// The subkey for a 24-byte nonce: HChaCha20 of `key` and the nonce's first
/// 16 bytes.
pub fn derive_subkey(key: &[u8; 32], nonce: &[u8; 24]) -> (r: [u8; 32])
    ensures
        r@ == extended_subkey(key@, nonce@),
{
    let mut salt = [0u8; 16];
    let mut i: usize = 0;
    while i < 16
        invariant
            0 <= i <= 16,
            forall|j: int| 0 <= j < i ==> salt@[j] == nonce@[j],
        decreases 16 - i,
    {
        salt[i] = nonce[i];
        i += 1;
    }
    assert(salt@ =~= nonce@.subrange(0, 16));
    hchacha20(key, &salt)
}

/// The inner 12-byte nonce for a 24-byte nonce: four zero bytes, then the
/// nonce's last 8 bytes.
pub fn inner_nonce(nonce: &[u8; 24]) -> (r: [u8; 12])
    ensures
        r@ == extended_inner_nonce(nonce@),
{
    let mut inner = [0u8; 12];
    let mut i: usize = 4;
    while i < 12
        invariant
            4 <= i <= 12,
            forall|j: int| 0 <= j < 4 ==> inner@[j] == 0,
            forall|j: int| 4 <= j < i ==> inner@[j] == nonce@[j + 12],
        decreases 12 - i,
    {
        inner[i] = nonce[i + 12];
        i += 1;
    }
    assert(inner@ =~= extended_inner_nonce(nonce@));
    inner
}

/// XChaCha20Poly1305 under one 256-bit key. Each call takes a 24-byte nonce
/// and runs a session of its own on the derived subkey; the key is wiped on
/// drop.
#[derive(Clone)]
pub struct XChaCha20Poly1305 {
    key: [u8; 32],
}

impl XChaCha20Poly1305 {
    /// The secret key.
    pub closed spec fn key(&self) -> Seq<u8> {
        self.key@
    }

    pub fn new(key: &[u8; 32]) -> (r: Self)
        ensures
            r.key() == key@,
    {
        XChaCha20Poly1305 { key: *key }
    }

    /// A fresh session for `nonce`, on the derived subkey and inner nonce.
    /// The local copy of the subkey is wiped once the generator holds it.
    fn session(&self, nonce: &[u8; 24]) -> (c: Cipher)
        ensures
            c.fresh(),
            c.key() == extended_subkey(self.key(), nonce@),
            c.nonce() == extended_inner_nonce(nonce@),
    {
        let mut subkey = derive_subkey(&self.key, nonce);
        let stream = ChaChaStream::new(&subkey, &inner_nonce(nonce));
        zeroize_key(&mut subkey);
        Cipher::new(stream)
    }

    /// The ciphertext of `msg` followed by its 16-byte tag over `aad` and
    /// the ciphertext; an error for a message too long for the keystream.
    pub fn encrypt(&self, nonce: &[u8; 24], msg: &[u8], aad: &[u8]) -> (r: Result<Vec<u8>, Error>)
        ensures
            match r {
                Ok(v) => seal(
                    extended_subkey(self.key(), nonce@),
                    extended_inner_nonce(nonce@),
                    msg@,
                    aad@,
                ) == Some(v@),
                Err(_) => seal(
                    extended_subkey(self.key(), nonce@),
                    extended_inner_nonce(nonce@),
                    msg@,
                    aad@,
                ) is None,
            },
    {
        self.session(nonce).encrypt(msg, aad)
    }

    /// The plaintext of `data`, ciphertext followed by its tag; an error
    /// when `data` is shorter than a tag, too long, or does not
    /// authenticate.
    pub fn decrypt(&self, nonce: &[u8; 24], data: &[u8], aad: &[u8]) -> (r: Result<Vec<u8>, Error>)
        ensures
            match r {
                Ok(v) => open(
                    extended_subkey(self.key(), nonce@),
                    extended_inner_nonce(nonce@),
                    data@,
                    aad@,
                ) == Some(v@),
                Err(_) => open(
                    extended_subkey(self.key(), nonce@),
                    extended_inner_nonce(nonce@),
                    data@,
                    aad@,
                ) is None,
            },
    {
        self.session(nonce).decrypt(data, aad)
    }

    /// Encrypts `buffer` in place and returns the tag; an error, with
    /// `buffer` untouched, for a buffer too long for the keystream.
    pub fn encrypt_in_place(&self, nonce: &[u8; 24], buffer: &mut [u8], aad: &[u8]) -> (r: Result<
        [u8; 16],
        Error,
    >)
        ensures
            match r {
                Ok(tag) => {
                    &&& within_limit(old(buffer)@.len())
                    &&& final(buffer)@ == encipher(
                        extended_subkey(self.key(), nonce@),
                        extended_inner_nonce(nonce@),
                        old(buffer)@,
                    )
                    &&& tag@ == compute_tag(
                        extended_subkey(self.key(), nonce@),
                        extended_inner_nonce(nonce@),
                        aad@,
                        final(buffer)@,
                    )
                },
                Err(_) => {
                    &&& !within_limit(old(buffer)@.len())
                    &&& final(buffer)@ == old(buffer)@
                },
            },
    {
        self.session(nonce).encrypt_in_place(buffer, aad)
    }

    /// Checks `tag` and decrypts `buffer` in place; on an error `buffer` is
    /// left as it was.
    pub fn decrypt_in_place(
        &self,
        nonce: &[u8; 24],
        buffer: &mut [u8],
        aad: &[u8],
        tag: &[u8; 16],
    ) -> (r: Result<(), Error>)
        ensures
            match open_detached(
                extended_subkey(self.key(), nonce@),
                extended_inner_nonce(nonce@),
                old(buffer)@,
                aad@,
                tag@,
            ) {
                Some(plain) => r is Ok && final(buffer)@ == plain,
                None => r is Err && final(buffer)@ == old(buffer)@,
            },
    {
        self.session(nonce).decrypt_in_place(buffer, aad, tag)
    }
}

impl Drop for XChaCha20Poly1305 {
    fn drop(&mut self)
        ensures
            final(self).key() == Seq::new(32, |i: int| 0u8),
        opens_invariants none
        no_unwind
    {
        zeroize_key(&mut self.key);
    }
}

} // verus!
