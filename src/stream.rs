//! The two collaborators of a session: a ChaCha20 keystream generator and a
//! one-time Poly1305 authenticator that collects its input.
use crate::model::{keystream, pad16, xor_bytes, zeros};
use crate::primitives::{
    chacha20_block, chacha20_keystream_byte, poly1305, poly1305_output, zeroize_key,
};
use vstd::prelude::*;

verus! {

/// Bytes of keystream a generator yields before its 32-bit block counter
/// would wrap: 2^32 blocks of 64 bytes.
pub const KEYSTREAM_LEN: u64 = 274877906944;

/// A ChaCha20 keystream generator seeded with a key and a nonce, positioned
/// at a byte offset of its keystream.
pub struct ChaChaStream {
    key: [u8; 32],
    nonce: [u8; 12],
    pos: u64,
}

impl ChaChaStream {
    pub closed spec fn key(&self) -> Seq<u8> {
        self.key@
    }

    pub closed spec fn nonce(&self) -> Seq<u8> {
        self.nonce@
    }

    /// The byte offset of the next keystream byte.
    pub closed spec fn pos(&self) -> nat {
        self.pos as nat
    }

    /// A generator at offset 0.
    pub fn new(key: &[u8; 32], nonce: &[u8; 12]) -> (r: Self)
        ensures
            r.key() == key@,
            r.nonce() == nonce@,
            r.pos() == 0,
    {
        ChaChaStream { key: *key, nonce: *nonce, pos: 0 }
    }

    /// XORs `buf` with the next `buf.len()` keystream bytes and moves past
    /// them. The keystream must not run past block `u32::MAX`.
    pub fn apply_keystream(&mut self, buf: &mut [u8])
        requires
            old(self).pos() + old(buf)@.len() <= KEYSTREAM_LEN,
        ensures
            final(buf)@ == xor_bytes(
                old(buf)@,
                keystream(old(self).key(), old(self).nonce(), old(self).pos() as int, old(buf)@.len()),
            ),
            final(self).key() == old(self).key(),
            final(self).nonce() == old(self).nonce(),
            final(self).pos() == old(self).pos() + old(buf)@.len(),
    {
        let ghost before = buf@;
        let start: u64 = self.pos;
        let len: usize = buf.len();
        let mut block = [0u8; 64];
        let mut k: usize = 64;
        let ghost mut base: int = 0;
        let mut i: usize = 0;
        while i < len
            invariant
                0 <= i <= len,
                len == before.len(),
                buf@.len() == len,
                start == old(self).pos(),
                start + len <= KEYSTREAM_LEN,
                self.key() == old(self).key(),
                self.nonce() == old(self).nonce(),
                k <= 64,
                k < 64 ==> start + i == base + k,
                k < 64 ==> forall|t: int|
                    0 <= t < 64 ==> #[trigger] block@[t] == chacha20_keystream_byte(
                        self.key(),
                        self.nonce(),
                        base + t,
                    ),
                forall|j: int|
                    0 <= j < i ==> #[trigger] buf@[j] == before[j] ^ chacha20_keystream_byte(
                        self.key(),
                        self.nonce(),
                        start + j,
                    ),
                forall|j: int| i <= j < len ==> #[trigger] buf@[j] == before[j],
            decreases len - i,
        {
            if k == 64 {
                let abs: u64 = start + i as u64;
                block = chacha20_block(&self.key, &self.nonce, (abs / 64) as u32);
                k = (abs % 64) as usize;
                proof {
                    base = (abs / 64) as int * 64;
                }
            }
            buf[i] = buf[i] ^ block[k];
            i += 1;
            k += 1;
        }
        self.pos = start + len as u64;
        assert(buf@ =~= xor_bytes(
            before,
            keystream(self.key@, self.nonce@, old(self).pos() as int, before.len()),
        ));
    }

    /// Moves to byte offset `pos`.
    pub fn seek(&mut self, pos: u64)
        ensures
            final(self).key() == old(self).key(),
            final(self).nonce() == old(self).nonce(),
            final(self).pos() == pos,
    {
        self.pos = pos;
    }
}

impl Drop for ChaChaStream {
    fn drop(&mut self)
        ensures
            final(self).key() == Seq::new(32, |i: int| 0u8),
        opens_invariants none
        no_unwind
    {
        zeroize_key(&mut self.key);
    }
}

/// A one-time Poly1305 authenticator: its key and the bytes absorbed so far.
pub struct Authenticator {
    key: [u8; 32],
    input: Vec<u8>,
}

impl Authenticator {
    pub closed spec fn key(&self) -> Seq<u8> {
        self.key@
    }

    pub closed spec fn input(&self) -> Seq<u8> {
        self.input@
    }

    /// An authenticator keyed with `key` that has absorbed nothing.
    pub fn new(key: &[u8; 32]) -> (r: Self)
        ensures
            r.key() == key@,
            r.input() == Seq::<u8>::empty(),
    {
        Authenticator { key: *key, input: Vec::new() }
    }

    /// The bytes absorbed so far.
    pub fn absorbed(&self) -> (r: &[u8])
        ensures
            r@ == self.input(),
    {
        self.input.as_slice()
    }

    /// Absorbs `data` as it is.
    pub fn absorb(&mut self, data: &[u8])
        ensures
            final(self).key() == old(self).key(),
            final(self).input() == old(self).input() + data@,
    {
        let mut i: usize = 0;
        while i < data.len()
            invariant
                self.key() == old(self).key(),
                0 <= i <= data@.len(),
                self.input() == old(self).input() + data@.subrange(0, i as int),
            decreases data@.len() - i,
        {
            self.input.push(data[i]);
            i += 1;
            assert(data@.subrange(0, i as int) =~= data@.subrange(0, i - 1) + seq![data@[i - 1]]);
        }
        assert(data@.subrange(0, i as int) =~= data@);
    }

    /// Absorbs `data` followed by zeros up to the next multiple of 16 bytes.
    pub fn absorb_padded(&mut self, data: &[u8])
        ensures
            final(self).key() == old(self).key(),
            final(self).input() == old(self).input() + pad16(data@),
    {
        self.absorb(data);
        let rem = data.len() % 16;
        if rem != 0 {
            let mut k: usize = rem;
            while k < 16
                invariant
                    self.key() == old(self).key(),
                    rem == data@.len() % 16,
                    rem <= k <= 16,
                    self.input() == old(self).input() + data@ + zeros((k - rem) as nat),
                decreases 16 - k,
            {
                self.input.push(0u8);
                k += 1;
                assert(zeros((k - rem) as nat) =~= zeros((k - 1 - rem) as nat) + seq![0u8]);
            }
        }
        assert(self.input() =~= old(self).input() + pad16(data@));
    }

    /// The authenticator over everything absorbed. The authenticator is
    /// consumed, and its key wiped as it drops.
    pub fn finalize(self) -> (r: [u8; 16])
        ensures
            r@ == poly1305_output(self.key(), self.input()),
    {
        poly1305(&self.key, self.input.as_slice())
    }
}

impl Drop for Authenticator {
    fn drop(&mut self)
        ensures
            final(self).key() == Seq::new(32, |i: int| 0u8),
        opens_invariants none
        no_unwind
    {
        zeroize_key(&mut self.key);
    }
}

} // verus!
