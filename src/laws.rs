//! Properties of sealing and opening, stated over the model and proved.
//!
//! `ChaCha20Poly1305` and `XChaCha20Poly1305` promise `seal` and `open` of
//! the model (the latter on the derived subkey and inner nonce), so each
//! property here holds of both.
use crate::model::{
    compute_tag, encipher, keystream, le64, mac_data, one_time_key, open, pad16,
    seal, tag16, within_limit, BLOCK_SIZE, MAX_BLOCKS, TAG_SIZE,
};
use vstd::prelude::*;

verus! {

/// `s` with bit `bit` of byte `i` inverted.
pub open spec fn flip_bit(s: Seq<u8>, i: int, bit: u8) -> Seq<u8> {
    s.update(i, s[i] ^ (1u8 << bit))
}

proof fn lemma_flip_changes(x: u8, bit: u8)
    requires
        bit < 8,
    ensures
        x ^ (1u8 << bit) != x,
{
    assert(x ^ (1u8 << bit) != x) by (bit_vector)
        requires
            bit < 8,
    ;
}

/// Applying the keystream twice gives the input back.
pub proof fn lemma_encipher_involution(key: Seq<u8>, nonce: Seq<u8>, data: Seq<u8>)
    ensures
        encipher(key, nonce, encipher(key, nonce, data)) == data,
{
    let once = encipher(key, nonce, data);
    let ks = keystream(key, nonce, BLOCK_SIZE as int, data.len());
    assert forall|i: int| 0 <= i < data.len() implies #[trigger] encipher(
        key,
        nonce,
        once,
    )[i] == data[i] by {
        let x = data[i];
        let k = ks[i];
        assert((x ^ k) ^ k == x) by (bit_vector);
    }
    assert(encipher(key, nonce, once) =~= data);
}

/// Sealing a message that fits in the keystream succeeds, and yields the
/// message's length plus a 16-byte tag.
pub proof fn lemma_sealed_len(key: Seq<u8>, nonce: Seq<u8>, msg: Seq<u8>, aad: Seq<u8>)
    ensures
        seal(key, nonce, msg, aad) is Some <==> within_limit(msg.len()),
        seal(key, nonce, msg, aad) is Some ==> seal(key, nonce, msg, aad)->0.len() == msg.len()
            + TAG_SIZE,
{
}

/// Opening what sealing produced, with the same key, nonce and associated
/// data, gives back the message.
pub proof fn lemma_round_trip(key: Seq<u8>, nonce: Seq<u8>, msg: Seq<u8>, aad: Seq<u8>)
    requires
        within_limit(msg.len()),
    ensures
        seal(key, nonce, msg, aad) is Some,
        open(key, nonce, seal(key, nonce, msg, aad)->0, aad) == Some(msg),
{
    let ct = encipher(key, nonce, msg);
    let tag = compute_tag(key, nonce, aad, ct);
    let data = ct + tag;
    assert(data.subrange(0, msg.len() as int) =~= ct);
    assert(data.subrange(msg.len() as int, data.len() as int) =~= tag);
    lemma_encipher_involution(key, nonce, msg);
}

/// Opening input shorter than a tag fails, whatever the key, nonce and
/// associated data.
pub proof fn lemma_short_input_rejected(key: Seq<u8>, nonce: Seq<u8>, data: Seq<u8>, aad: Seq<u8>)
    requires
        data.len() < TAG_SIZE,
    ensures
        open(key, nonce, data, aad) is None,
{
}

/// Inverting any bit of the tag of a sealed message makes opening fail.
pub proof fn lemma_flipped_tag_rejected(
    key: Seq<u8>,
    nonce: Seq<u8>,
    msg: Seq<u8>,
    aad: Seq<u8>,
    i: int,
    bit: u8,
)
    requires
        within_limit(msg.len()),
        msg.len() <= i < msg.len() + TAG_SIZE,
        bit < 8,
    ensures
        open(key, nonce, flip_bit(seal(key, nonce, msg, aad)->0, i, bit), aad) is None,
{
    let ct = encipher(key, nonce, msg);
    let tag = compute_tag(key, nonce, aad, ct);
    let data = ct + tag;
    let bad = flip_bit(data, i, bit);
    let split = msg.len() as int;
    assert(bad.subrange(0, split) =~= ct);
    let bad_tag = bad.subrange(split, bad.len() as int);
    lemma_flip_changes(data[i], bit);
    assert(bad_tag[i - split] != tag[i - split]);
}

/// Inverting any bit of the ciphertext of a sealed message changes what the
/// authenticator reads, so opening succeeds only if the one-time
/// authenticator gives the same tag for two different inputs.
pub proof fn lemma_flipped_ciphertext_needs_forgery(
    key: Seq<u8>,
    nonce: Seq<u8>,
    msg: Seq<u8>,
    aad: Seq<u8>,
    i: int,
    bit: u8,
)
    requires
        within_limit(msg.len()),
        0 <= i < msg.len(),
        bit < 8,
    ensures
        ({
            let ct = encipher(key, nonce, msg);
            let bad_ct = flip_bit(ct, i, bit);
            &&& mac_data(aad, bad_ct) != mac_data(aad, ct)
            &&& open(key, nonce, flip_bit(seal(key, nonce, msg, aad)->0, i, bit), aad) is Some
                ==> tag16(one_time_key(key, nonce), mac_data(aad, bad_ct)) == tag16(
                one_time_key(key, nonce),
                mac_data(aad, ct),
            )
        }),
{
    let ct = encipher(key, nonce, msg);
    let tag = compute_tag(key, nonce, aad, ct);
    let data = ct + tag;
    let bad_ct = flip_bit(ct, i, bit);
    let bad = flip_bit(data, i, bit);
    let split = msg.len() as int;
    assert(bad.subrange(0, split) =~= bad_ct);
    assert(bad.subrange(split, bad.len() as int) =~= tag);
    lemma_flip_changes(ct[i], bit);
    let p = pad16(aad).len() as int;
    assert(mac_data(aad, bad_ct)[p + i] == bad_ct[i]);
    assert(mac_data(aad, ct)[p + i] == ct[i]);
}

/// Inverting any bit of the associated data changes what the authenticator
/// reads, so opening a sealed message with it succeeds only if the one-time
/// authenticator gives the same tag for two different inputs.
pub proof fn lemma_flipped_aad_needs_forgery(
    key: Seq<u8>,
    nonce: Seq<u8>,
    msg: Seq<u8>,
    aad: Seq<u8>,
    i: int,
    bit: u8,
)
    requires
        within_limit(msg.len()),
        0 <= i < aad.len(),
        bit < 8,
    ensures
        ({
            let ct = encipher(key, nonce, msg);
            let bad_aad = flip_bit(aad, i, bit);
            &&& mac_data(bad_aad, ct) != mac_data(aad, ct)
            &&& open(key, nonce, seal(key, nonce, msg, aad)->0, bad_aad) is Some ==> tag16(
                one_time_key(key, nonce),
                mac_data(bad_aad, ct),
            ) == tag16(one_time_key(key, nonce), mac_data(aad, ct))
        }),
{
    let ct = encipher(key, nonce, msg);
    let tag = compute_tag(key, nonce, aad, ct);
    let data = ct + tag;
    let bad_aad = flip_bit(aad, i, bit);
    let split = msg.len() as int;
    assert(data.subrange(0, split) =~= ct);
    assert(data.subrange(split, data.len() as int) =~= tag);
    lemma_flip_changes(aad[i], bit);
    assert(mac_data(bad_aad, ct)[i] == bad_aad[i]);
    assert(mac_data(aad, ct)[i] == aad[i]);
}

/// The size limit is exact: a message of `2^32 - 1` whole blocks fits, one
/// byte more does not, and neither does anything of `2^32` blocks or more.
pub proof fn lemma_block_limit_boundary(n: nat)
    ensures
        within_limit((MAX_BLOCKS * 64) as nat),
        !within_limit((MAX_BLOCKS * 64 + 1) as nat),
        n >= 0x1_0000_0000 * 64 ==> !within_limit(n),
{
}

/// Sealing an empty message yields a 16-byte tag alone, computed over the
/// padded associated data and the two lengths.
pub proof fn lemma_empty_message(key: Seq<u8>, nonce: Seq<u8>, aad: Seq<u8>)
    ensures
        seal(key, nonce, Seq::empty(), aad) == Some(compute_tag(key, nonce, aad, Seq::empty())),
        compute_tag(key, nonce, aad, Seq::empty()).len() == TAG_SIZE,
        mac_data(aad, Seq::empty()) == pad16(aad) + le64(aad.len() as u64) + le64(0),
{
    let ct = encipher(key, nonce, Seq::<u8>::empty());
    assert(ct =~= Seq::<u8>::empty());
    assert(ct + compute_tag(key, nonce, aad, ct) =~= compute_tag(key, nonce, aad, ct));
    assert(pad16(Seq::<u8>::empty()) =~= Seq::<u8>::empty());
    assert(mac_data(aad, Seq::empty()) =~= pad16(aad) + le64(aad.len() as u64) + le64(0));
}

} // verus!
