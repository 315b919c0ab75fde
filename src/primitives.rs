//! The cryptographic building blocks, taken from outside crates.
//!
//! Each function here is trusted: its body calls one primitive and its
//! contract states what that primitive computes, over the names below.
use chacha20::cipher::consts::U10;
use chacha20::cipher::generic_array::GenericArray;
use chacha20::cipher::{KeyIvInit, StreamCipherCore, StreamCipherSeekCore};
use poly1305::universal_hash::KeyInit;
use vstd::prelude::*;
use zeroize::Zeroize;

verus! {

/// The ChaCha20 keystream byte at byte offset `pos`, for a 32-byte key and
/// a 12-byte nonce.
pub uninterp spec fn chacha20_keystream_byte(key: Seq<u8>, nonce: Seq<u8>, pos: int) -> u8;

/// The 32-byte HChaCha20 output for a 32-byte key and a 16-byte input.
pub uninterp spec fn hchacha20_output(key: Seq<u8>, input: Seq<u8>) -> Seq<u8>;

/// The 16-byte Poly1305 authenticator of `msg` under a 32-byte one-time key.
pub uninterp spec fn poly1305_output(key: Seq<u8>, msg: Seq<u8>) -> Seq<u8>;

/// Relies on `chacha20::ChaChaCore<U10>` (ChaCha20: `KeyIvInit::new`,
/// `StreamCipherSeekCore::set_block_pos`,
/// `StreamCipherCore::write_keystream_block`): the 64 keystream bytes of
/// block `counter`. The block-level API checks no remaining-block count, so
/// every counter up to `u32::MAX` is served.
#[verifier::external_body]
pub(crate) fn chacha20_block(key: &[u8; 32], nonce: &[u8; 12], counter: u32) -> (r: [u8; 64])
    ensures
        forall|i: int|
            0 <= i < 64 ==> #[trigger] r@[i] == chacha20_keystream_byte(
                key@,
                nonce@,
                counter as int * 64 + i,
            ),
{
    let mut core = chacha20::ChaChaCore::<U10>::new(key.into(), nonce.into());
    core.set_block_pos(counter);
    let mut block = [0u8; 64];
    core.write_keystream_block(GenericArray::from_mut_slice(&mut block));
    block
}

/// Relies on `chacha20::hchacha` with ten double rounds (HChaCha20): the
/// subkey derived from `key` and a 16-byte input.
#[verifier::external_body]
pub(crate) fn hchacha20(key: &[u8; 32], input: &[u8; 16]) -> (r: [u8; 32])
    ensures
        r@ == hchacha20_output(key@, input@),
{
    chacha20::hchacha::<U10>(key.into(), input.into()).into()
}

/// Relies on `poly1305::Poly1305` (`KeyInit::new`, `compute_unpadded`): the
/// authenticator of `msg` under `key`.
#[verifier::external_body]
pub(crate) fn poly1305(key: &[u8; 32], msg: &[u8]) -> (r: [u8; 16])
    ensures
        r@ == poly1305_output(key@, msg@),
{
    poly1305::Poly1305::new(key.into()).compute_unpadded(msg).into()
}

/// Relies on `zeroize::Zeroize` for byte arrays: every byte is overwritten
/// with zero.
#[verifier::external_body]
pub(crate) fn zeroize_key(key: &mut [u8; 32])
    ensures
        final(key)@ == Seq::new(32, |i: int| 0u8),
    opens_invariants none
    no_unwind
{
    key.zeroize();
}

} // verus!
