//! The mathematical model of the construction: what the authenticator is fed,
//! which keystream bytes are used for what, and what sealing and opening a
//! message produce.
use crate::primitives::{chacha20_keystream_byte, hchacha20_output, poly1305_output};
use vstd::prelude::*;

verus! {

/// Bytes of tag appended to every ciphertext.
pub const TAG_SIZE: usize = 16;

/// Bytes in one keystream block.
pub const BLOCK_SIZE: usize = 64;

/// The most 64-byte blocks a message may span. Block 0 keys the
/// authenticator and messages start at block 1, so a message of this many
/// blocks ends at block `u32::MAX`, the last before the 32-bit block counter
/// would wrap.
pub const MAX_BLOCKS: u64 = 4294967295;

/// `n` zero bytes.
pub open spec fn zeros(n: nat) -> Seq<u8> {
    Seq::new(n, |i: int| 0u8)
}

/// How many zero bytes bring a length of `n` up to a multiple of 16.
pub open spec fn padding_len(n: nat) -> nat {
    if n % 16 == 0 {
        0
    } else {
        (16 - n % 16) as nat
    }
}

/// `s` followed by zeros up to the next multiple of 16 bytes.
pub open spec fn pad16(s: Seq<u8>) -> Seq<u8> {
    s + zeros(padding_len(s.len()))
}

/// The 8-byte little-endian encoding of `n`.
pub open spec fn le64(n: u64) -> Seq<u8> {
    seq![
        n as u8,
        (n >> 8u64) as u8,
        (n >> 16u64) as u8,
        (n >> 24u64) as u8,
        (n >> 32u64) as u8,
        (n >> 40u64) as u8,
        (n >> 48u64) as u8,
        (n >> 56u64) as u8,
    ]
}

/// What the one-time authenticator is fed: the padded associated data, the
/// padded ciphertext, then both lengths as 8-byte little-endian numbers.
pub open spec fn mac_data(aad: Seq<u8>, ct: Seq<u8>) -> Seq<u8> {
    pad16(aad) + pad16(ct) + le64(aad.len() as u64) + le64(ct.len() as u64)
}

/// `n` keystream bytes from byte offset `start`.
pub open spec fn keystream(key: Seq<u8>, nonce: Seq<u8>, start: int, n: nat) -> Seq<u8> {
    Seq::new(n, |i: int| chacha20_keystream_byte(key, nonce, start + i))
}

/// Bytewise XOR of `a` with the first `a.len()` bytes of `b`.
pub open spec fn xor_bytes(a: Seq<u8>, b: Seq<u8>) -> Seq<u8> {
    Seq::new(a.len(), |i: int| a[i] ^ b[i])
}

/// The one-time authenticator key: the first 32 keystream bytes, block 0.
pub open spec fn one_time_key(key: Seq<u8>, nonce: Seq<u8>) -> Seq<u8> {
    keystream(key, nonce, 0, 32)
}

/// `data` XORed with the keystream from block 1 on: encryption and
/// decryption alike.
pub open spec fn encipher(key: Seq<u8>, nonce: Seq<u8>, data: Seq<u8>) -> Seq<u8> {
    xor_bytes(data, keystream(key, nonce, BLOCK_SIZE as int, data.len()))
}

/// The authenticator's output, as 16 bytes.
pub open spec fn tag16(mac_key: Seq<u8>, msg: Seq<u8>) -> Seq<u8> {
    Seq::new(TAG_SIZE as nat, |i: int| poly1305_output(mac_key, msg)[i])
}

/// The tag over associated data `aad` and ciphertext `ct`.
pub open spec fn compute_tag(key: Seq<u8>, nonce: Seq<u8>, aad: Seq<u8>, ct: Seq<u8>) -> Seq<u8> {
    tag16(one_time_key(key, nonce), mac_data(aad, ct))
}

/// The number of 64-byte blocks that `n` bytes span.
pub open spec fn blocks_spanned(n: nat) -> nat {
    (n + 63) / 64
}

/// Whether a message of `n` bytes fits in the keystream.
pub open spec fn within_limit(n: nat) -> bool {
    blocks_spanned(n) <= MAX_BLOCKS
}

/// Sealing `msg` with associated data `aad`: the ciphertext followed by its
/// tag, or `None` for a message too long for the keystream.
pub open spec fn seal(key: Seq<u8>, nonce: Seq<u8>, msg: Seq<u8>, aad: Seq<u8>) -> Option<Seq<u8>> {
    if within_limit(msg.len()) {
        let ct = encipher(key, nonce, msg);
        Some(ct + compute_tag(key, nonce, aad, ct))
    } else {
        None
    }
}

/// Opening detached ciphertext `ct` with `tag`: the plaintext, or `None`
/// when `ct` is too long or the tag does not match.
pub open spec fn open_detached(
    key: Seq<u8>,
    nonce: Seq<u8>,
    ct: Seq<u8>,
    aad: Seq<u8>,
    tag: Seq<u8>,
) -> Option<Seq<u8>> {
    if within_limit(ct.len()) && tag == compute_tag(key, nonce, aad, ct) {
        Some(encipher(key, nonce, ct))
    } else {
        None
    }
}

/// Opening `data`, ciphertext followed by a 16-byte tag: the plaintext, or
/// `None` when `data` is shorter than a tag, too long, or fails to
/// authenticate.
pub open spec fn open(key: Seq<u8>, nonce: Seq<u8>, data: Seq<u8>, aad: Seq<u8>) -> Option<Seq<u8>> {
    if data.len() < TAG_SIZE {
        None
    } else {
        let split = data.len() - TAG_SIZE;
        open_detached(
            key,
            nonce,
            data.subrange(0, split),
            aad,
            data.subrange(split, data.len() as int),
        )
    }
}

/// The subkey of the extended-nonce construction: HChaCha20 of the key and
/// the first 16 nonce bytes.
pub open spec fn extended_subkey(key: Seq<u8>, nonce: Seq<u8>) -> Seq<u8> {
    hchacha20_output(key, nonce.subrange(0, 16))
}

/// The inner 12-byte nonce of the extended-nonce construction: four zero
/// bytes, then the last 8 bytes of the 24-byte nonce.
pub open spec fn extended_inner_nonce(nonce: Seq<u8>) -> Seq<u8> {
    zeros(4) + nonce.subrange(16, 24)
}

} // verus!
