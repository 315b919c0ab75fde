//! The session engine: one keystream generator and one one-time
//! authenticator, bound together for a single encryption or decryption.
use crate::model::{
    compute_tag, encipher, le64, mac_data, one_time_key, open, open_detached, seal, within_limit,
    BLOCK_SIZE, MAX_BLOCKS, TAG_SIZE,
};
use crate::primitives::zeroize_key;
use crate::stream::{Authenticator, ChaChaStream};
use vstd::prelude::*;
use vstd::slice::{slice_subrange, slice_to_vec};

verus! {

/// The one failure of every operation: a message too long for the
/// keystream, a ciphertext shorter than a tag, or a tag that does not match.
#[derive(Debug, Clone, Copy, PartialEq, Eq, Structural)]
pub struct Error;

/// Whether a buffer of `len` bytes spans at most `MAX_BLOCKS` keystream
/// blocks.
pub fn within_block_limit(len: usize) -> (r: bool)
    ensures
        r == within_limit(len as nat),
{
    let full: u64 = (len / 64) as u64;
    let partial: u64 = if len % 64 == 0 {
        0
    } else {
        1
    };
    full + partial <= MAX_BLOCKS
}

/// The 8-byte little-endian encoding of `n`.
pub fn le_bytes(n: u64) -> (r: [u8; 8])
    ensures
        r@ == le64(n),
{
    let r = [
        n as u8,
        (n >> 8u64) as u8,
        (n >> 16u64) as u8,
        (n >> 24u64) as u8,
        (n >> 32u64) as u8,
        (n >> 40u64) as u8,
        (n >> 48u64) as u8,
        (n >> 56u64) as u8,
    ];
    assert(r@ =~= le64(n));
    r
}

/// Compares two tags in constant time: every byte is inspected, whatever the
/// earlier ones held.
pub fn tags_equal(a: &[u8; 16], b: &[u8; 16]) -> (r: bool)
    ensures
        r == (a@ == b@),
{
    let mut diff: u8 = 0;
    let mut i: usize = 0;
    while i < 16
        invariant
            0 <= i <= 16,
            (diff == 0) == (forall|j: int| 0 <= j < i ==> a@[j] == b@[j]),
        decreases 16 - i,
    {
        let x = a[i];
        let y = b[i];
        assert(((diff | (x ^ y)) == 0) == (diff == 0 && x == y)) by (bit_vector);
        diff = diff | (x ^ y);
        i += 1;
    }
    if diff == 0 {
        assert(a@ =~= b@);
    }
    diff == 0
}

/// A session: a keystream generator positioned at block 1, and an
/// authenticator keyed with block 0 that has absorbed nothing yet.
pub struct Cipher {
    stream: ChaChaStream,
    mac: Authenticator,
}

impl Cipher {
    pub closed spec fn key(&self) -> Seq<u8> {
        self.stream.key()
    }

    pub closed spec fn nonce(&self) -> Seq<u8> {
        self.stream.nonce()
    }

    /// A fresh session: nothing has been encrypted or authenticated yet.
    pub closed spec fn fresh(&self) -> bool {
        &&& self.stream.pos() == BLOCK_SIZE
        &&& self.mac.key() == one_time_key(self.key(), self.nonce())
        &&& self.mac.input() == Seq::<u8>::empty()
    }

    /// Starts a session on a generator at offset 0: the first 32 keystream
    /// bytes key the authenticator, and the rest of block 0 is skipped.
    pub fn new(stream: ChaChaStream) -> (r: Self)
        requires
            stream.pos() == 0,
        ensures
            r.fresh(),
            r.key() == stream.key(),
            r.nonce() == stream.nonce(),
    {
        let mut stream = stream;
        let mut mac_key = [0u8; 32];
        stream.apply_keystream(&mut mac_key);
        assert forall|i: int| 0 <= i < 32 implies mac_key@[i] == one_time_key(
            stream.key(),
            stream.nonce(),
        )[i] by {
            let k = one_time_key(stream.key(), stream.nonce())[i];
            assert(0u8 ^ k == k) by (bit_vector);
        }
        assert(mac_key@ =~= one_time_key(stream.key(), stream.nonce()));
        let mac = Authenticator::new(&mac_key);
        zeroize_key(&mut mac_key);
        stream.seek(BLOCK_SIZE as u64);
        Cipher { stream, mac }
    }

    /// Absorbs the lengths of the associated data and of the buffer, each as
    /// 8 little-endian bytes.
    fn authenticate_lengths(&mut self, aad: &[u8], buffer: &[u8])
        ensures
            final(self).stream == old(self).stream,
            final(self).mac.key() == old(self).mac.key(),
            final(self).mac.input() == old(self).mac.input() + le64(aad@.len() as u64) + le64(
                buffer@.len() as u64,
            ),
    {
        let aad_len = le_bytes(aad.len() as u64);
        let buffer_len = le_bytes(buffer.len() as u64);
        self.mac.absorb(&aad_len);
        self.mac.absorb(&buffer_len);
    }

    /// Encrypts `buffer` in place and returns the tag over `aad` and the
    /// ciphertext. A buffer too long for the keystream is left as it was.
    pub fn encrypt_in_place(self, buffer: &mut [u8], aad: &[u8]) -> (r: Result<[u8; 16], Error>)
        requires
            self.fresh(),
        ensures
            match r {
                Ok(tag) => {
                    &&& within_limit(old(buffer)@.len())
                    &&& final(buffer)@ == encipher(self.key(), self.nonce(), old(buffer)@)
                    &&& tag@ == compute_tag(self.key(), self.nonce(), aad@, final(buffer)@)
                },
                Err(_) => {
                    &&& !within_limit(old(buffer)@.len())
                    &&& final(buffer)@ == old(buffer)@
                },
            },
    {
        if !within_block_limit(buffer.len()) {
            return Err(Error);
        }
        let mut s = self;
        s.mac.absorb_padded(aad);
        s.stream.apply_keystream(buffer);
        s.mac.absorb_padded(buffer);
        s.authenticate_lengths(aad, buffer);
        let mac_input = Ghost(s.mac.input());
        let tag = s.mac.finalize();
        proof {
            assert(mac_input@ =~= mac_data(aad@, buffer@));
            assert(tag@ =~= compute_tag(self.key(), self.nonce(), aad@, buffer@));
        }
        Ok(tag)
    }

    /// Checks `tag` against `aad` and the ciphertext in `buffer`, then
    /// decrypts `buffer` in place. On any failure `buffer` is left as it was.
    pub fn decrypt_in_place(self, buffer: &mut [u8], aad: &[u8], tag: &[u8; 16]) -> (r: Result<
        (),
        Error,
    >)
        requires
            self.fresh(),
        ensures
            match open_detached(self.key(), self.nonce(), old(buffer)@, aad@, tag@) {
                Some(plain) => r is Ok && final(buffer)@ == plain,
                None => r is Err && final(buffer)@ == old(buffer)@,
            },
    {
        if !within_block_limit(buffer.len()) {
            return Err(Error);
        }
        let mut s = self;
        s.mac.absorb_padded(aad);
        s.mac.absorb_padded(buffer);
        s.authenticate_lengths(aad, buffer);
        let mac_input = Ghost(s.mac.input());
        let expected = s.mac.finalize();
        proof {
            assert(mac_input@ =~= mac_data(aad@, buffer@));
            assert(expected@ =~= compute_tag(self.key(), self.nonce(), aad@, buffer@));
        }
        if tags_equal(&expected, tag) {
            s.stream.apply_keystream(buffer);
            Ok(())
        } else {
            Err(Error)
        }
    }

    /// Encrypts `msg` into a new vector: the ciphertext followed by its tag.
    pub fn encrypt(self, msg: &[u8], aad: &[u8]) -> (r: Result<Vec<u8>, Error>)
        requires
            self.fresh(),
        ensures
            match r {
                Ok(v) => seal(self.key(), self.nonce(), msg@, aad@) == Some(v@),
                Err(_) => seal(self.key(), self.nonce(), msg@, aad@) is None,
            },
    {
        let mut buffer = slice_to_vec(msg);
        let tag = match self.encrypt_in_place(buffer.as_mut_slice(), aad) {
            Ok(tag) => tag,
            Err(e) => return Err(e),
        };
        let ghost ct = buffer@;
        let mut i: usize = 0;
        while i < TAG_SIZE
            invariant
                0 <= i <= TAG_SIZE,
                buffer@ == ct + tag@.subrange(0, i as int),
            decreases TAG_SIZE - i,
        {
            buffer.push(tag[i]);
            i += 1;
            assert(tag@.subrange(0, i as int) =~= tag@.subrange(0, i - 1) + seq![tag@[i - 1]]);
        }
        assert(tag@.subrange(0, 16) =~= tag@);
        Ok(buffer)
    }

    /// Splits `data` into ciphertext and trailing tag, checks the tag, and
    /// returns the plaintext.
    pub fn decrypt(self, data: &[u8], aad: &[u8]) -> (r: Result<Vec<u8>, Error>)
        requires
            self.fresh(),
        ensures
            match r {
                Ok(v) => open(self.key(), self.nonce(), data@, aad@) == Some(v@),
                Err(_) => open(self.key(), self.nonce(), data@, aad@) is None,
            },
    {
        if data.len() < TAG_SIZE {
            return Err(Error);
        }
        let tag_start = data.len() - TAG_SIZE;
        let mut buffer = slice_to_vec(slice_subrange(data, 0, tag_start));
        let mut tag = [0u8; 16];
        let mut i: usize = 0;
        while i < TAG_SIZE
            invariant
                0 <= i <= TAG_SIZE,
                data@.len() >= TAG_SIZE,
                tag_start + TAG_SIZE == data.len(),
                forall|j: int| 0 <= j < i ==> tag@[j] == data@[tag_start + j],
            decreases TAG_SIZE - i,
        {
            tag[i] = data[tag_start + i];
            i += 1;
        }
        assert(tag@ =~= data@.subrange(tag_start as int, data@.len() as int));
        match self.decrypt_in_place(buffer.as_mut_slice(), aad, &tag) {
            Ok(()) => Ok(buffer),
            Err(e) => Err(e),
        }
    }
}

} // verus!
