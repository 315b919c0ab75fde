use chacha20poly1305::cipher::{le_bytes, tags_equal, within_block_limit};
use chacha20poly1305::model::{BLOCK_SIZE, MAX_BLOCKS, TAG_SIZE};
use chacha20poly1305::stream::{Authenticator, ChaChaStream, KEYSTREAM_LEN};
use chacha20poly1305::xchacha20poly1305::{derive_subkey, inner_nonce};
use chacha20poly1305::{ChaCha20Poly1305, Error, XChaCha20Poly1305};

fn unhex(s: &str) -> Vec<u8> {
    let digits: Vec<u8> = s.bytes().filter(|c| c.is_ascii_hexdigit()).collect();
    assert_eq!(digits.len() % 2, 0);
    digits
        .chunks(2)
        .map(|p| u8::from_str_radix(std::str::from_utf8(p).unwrap(), 16).unwrap())
        .collect()
}

fn array<const N: usize>(v: &[u8]) -> [u8; N] {
    let mut a = [0u8; N];
    a.copy_from_slice(v);
    a
}

const SUNSCREEN: &str = "Ladies and Gentlemen of the class of '99: If I could offer you only one tip for the future, sunscreen would be it.";

fn vector_key() -> [u8; 32] {
    array(&unhex("808182838485868788898a8b8c8d8e8f909192939495969798999a9b9c9d9e9f"))
}

fn vector_aad() -> Vec<u8> {
    unhex("50515253c0c1c2c3c4c5c6c7")
}

fn sample(len: usize) -> Vec<u8> {
    (0..len).map(|i| (i * 7 + 3) as u8).collect()
}

#[test]
fn chacha20poly1305_known_vector() {
    let cipher = ChaCha20Poly1305::new(&vector_key());
    let nonce: [u8; 12] = array(&unhex("070000004041424344454647"));
    let expected_ct = unhex(
        "d31a8d34648e60db7b86afbc53ef7ec2a4aded51296e08fea9e2b5a736ee62d6
         3dbea45e8ca9671282fafb69da92728b1a71de0a9e060b2905d6a5b67ecd3b36
         92ddbd7f2d778b8c9803aee328091b58fab324e4fad675945585808b4831d7bc
         3ff4def08e4b7a9de576d26586cec64b6116",
    );
    let expected_tag = unhex("1ae10b594f09e26a7e902ecbd0600691");
    let sealed = cipher.encrypt(&nonce, SUNSCREEN.as_bytes(), &vector_aad()).unwrap();
    assert_eq!(&sealed[..sealed.len() - 16], &expected_ct[..]);
    assert_eq!(&sealed[sealed.len() - 16..], &expected_tag[..]);
    let opened = cipher.decrypt(&nonce, &sealed, &vector_aad()).unwrap();
    assert_eq!(opened, SUNSCREEN.as_bytes());
}

#[test]
fn xchacha20poly1305_known_vector() {
    let cipher = XChaCha20Poly1305::new(&vector_key());
    let nonce: [u8; 24] = array(&unhex("404142434445464748494a4b4c4d4e4f5051525354555657"));
    let expected_ct = unhex(
        "bd6d179d3e83d43b9576579493c0e939572a1700252bfaccbed2902c21396cbb
         731c7f1b0b4aa6440bf3a82f4eda7e39ae64c6708c54c216cb96b72e1213b452
         2f8c9ba40db5d945b11b69b982c1bb9e3f3fac2bc369488f76b2383565d3fff9
         21f9664c97637da9768812f615c68b13b52e",
    );
    let expected_tag = unhex("c0875924c1c7987947deafd8780acf49");
    let sealed = cipher.encrypt(&nonce, SUNSCREEN.as_bytes(), &vector_aad()).unwrap();
    assert_eq!(&sealed[..sealed.len() - 16], &expected_ct[..]);
    assert_eq!(&sealed[sealed.len() - 16..], &expected_tag[..]);
    let opened = cipher.decrypt(&nonce, &sealed, &vector_aad()).unwrap();
    assert_eq!(opened, SUNSCREEN.as_bytes());
}

#[test]
fn hchacha20_subkey_known_vector() {
    let key: [u8; 32] =
        array(&unhex("000102030405060708090a0b0c0d0e0f101112131415161718191a1b1c1d1e1f"));
    let mut nonce = [0xeeu8; 24];
    nonce[..16].copy_from_slice(&unhex("000000090000004a0000000031415927"));
    let expected =
        unhex("82413b4227b27bfed30e42508a877d73a0f9e4d58a74a853c12ec41326d3ecdc");
    assert_eq!(&derive_subkey(&key, &nonce)[..], &expected[..]);
}

#[test]
fn inner_nonce_is_zeros_then_nonce_tail() {
    let nonce: [u8; 24] = core::array::from_fn(|i| i as u8 + 1);
    assert_eq!(inner_nonce(&nonce), [0, 0, 0, 0, 17, 18, 19, 20, 21, 22, 23, 24]);
}

#[test]
fn round_trip_both_variants() {
    let key: [u8; 32] = core::array::from_fn(|i| (i * 3) as u8);
    let std_cipher = ChaCha20Poly1305::new(&key);
    let ext_cipher = XChaCha20Poly1305::new(&key);
    let nonce12 = [9u8; 12];
    let nonce24 = [5u8; 24];
    for len in [0usize, 1, 15, 16, 17, 63, 64, 65, 200, 1000] {
        for aad in [Vec::new(), sample(3), sample(16), sample(33)] {
            let msg = sample(len);
            let sealed = std_cipher.encrypt(&nonce12, &msg, &aad).unwrap();
            assert_eq!(std_cipher.decrypt(&nonce12, &sealed, &aad).unwrap(), msg);
            let sealed = ext_cipher.encrypt(&nonce24, &msg, &aad).unwrap();
            assert_eq!(ext_cipher.decrypt(&nonce24, &sealed, &aad).unwrap(), msg);
        }
    }
}

#[test]
fn sealed_length_is_message_plus_tag() {
    let cipher = ChaCha20Poly1305::new(&[1u8; 32]);
    let ext = XChaCha20Poly1305::new(&[1u8; 32]);
    for len in [0usize, 1, 31, 64, 129] {
        let msg = sample(len);
        assert_eq!(cipher.encrypt(&[0u8; 12], &msg, b"ad").unwrap().len(), len + TAG_SIZE);
        assert_eq!(ext.encrypt(&[0u8; 24], &msg, b"ad").unwrap().len(), len + 16);
    }
}

#[test]
fn ciphertext_differs_from_plaintext() {
    let cipher = ChaCha20Poly1305::new(&[7u8; 32]);
    let msg = sample(40);
    let sealed = cipher.encrypt(&[1u8; 12], &msg, b"").unwrap();
    assert_ne!(&sealed[..40], &msg[..]);
    let ext = XChaCha20Poly1305::new(&[7u8; 32]);
    let sealed_ext = ext.encrypt(&[1u8; 24], &msg, b"").unwrap();
    assert_ne!(&sealed_ext[..40], &msg[..]);
    assert_ne!(sealed, sealed_ext);
}

#[test]
fn flipped_bits_are_rejected() {
    let cipher = ChaCha20Poly1305::new(&vector_key());
    let nonce = [3u8; 12];
    let aad = sample(5);
    let sealed = cipher.encrypt(&nonce, &sample(20), &aad).unwrap();
    for i in 0..sealed.len() {
        for bit in 0..8 {
            let mut bad = sealed.clone();
            bad[i] ^= 1 << bit;
            assert_eq!(cipher.decrypt(&nonce, &bad, &aad), Err(Error));
        }
    }
    for i in 0..aad.len() {
        for bit in 0..8 {
            let mut bad_aad = aad.clone();
            bad_aad[i] ^= 1 << bit;
            assert_eq!(cipher.decrypt(&nonce, &sealed, &bad_aad), Err(Error));
        }
    }
}

#[test]
fn flipped_bits_are_rejected_extended() {
    let cipher = XChaCha20Poly1305::new(&vector_key());
    let nonce = [4u8; 24];
    let aad = sample(3);
    let sealed = cipher.encrypt(&nonce, &sample(9), &aad).unwrap();
    for i in 0..sealed.len() {
        let mut bad = sealed.clone();
        bad[i] ^= 0x80;
        assert_eq!(cipher.decrypt(&nonce, &bad, &aad), Err(Error));
    }
    let mut bad_aad = aad.clone();
    bad_aad[0] ^= 1;
    assert_eq!(cipher.decrypt(&nonce, &sealed, &bad_aad), Err(Error));
}

#[test]
fn wrong_nonce_or_key_is_rejected() {
    let cipher = ChaCha20Poly1305::new(&[2u8; 32]);
    let sealed = cipher.encrypt(&[0u8; 12], b"hello", b"").unwrap();
    assert_eq!(cipher.decrypt(&[1u8; 12], &sealed, b""), Err(Error));
    let other = ChaCha20Poly1305::new(&[3u8; 32]);
    assert_eq!(other.decrypt(&[0u8; 12], &sealed, b""), Err(Error));
}

#[test]
fn undersized_input_is_rejected() {
    let cipher = ChaCha20Poly1305::new(&[0u8; 32]);
    let ext = XChaCha20Poly1305::new(&[0u8; 32]);
    for len in 0..TAG_SIZE {
        let data = sample(len);
        assert_eq!(cipher.decrypt(&[0u8; 12], &data, b""), Err(Error));
        assert_eq!(cipher.decrypt(&[0u8; 12], &data, b"aad"), Err(Error));
        assert_eq!(ext.decrypt(&[0u8; 24], &data, b""), Err(Error));
    }
}

#[test]
fn failed_decrypt_in_place_leaves_buffer() {
    let cipher = ChaCha20Poly1305::new(&[5u8; 32]);
    let nonce = [6u8; 12];
    let mut buffer = sample(50);
    let tag = cipher.encrypt_in_place(&nonce, &mut buffer, b"head").unwrap();
    let ciphertext = buffer.clone();
    let mut bad_tag = tag;
    bad_tag[15] ^= 1;
    assert_eq!(cipher.decrypt_in_place(&nonce, &mut buffer, b"head", &bad_tag), Err(Error));
    assert_eq!(buffer, ciphertext);
    assert_eq!(cipher.decrypt_in_place(&nonce, &mut buffer, b"tail", &tag), Err(Error));
    assert_eq!(buffer, ciphertext);
    assert_eq!(cipher.decrypt_in_place(&nonce, &mut buffer, b"head", &tag), Ok(()));
    assert_eq!(buffer, sample(50));
}

#[test]
fn failed_decrypt_in_place_leaves_buffer_extended() {
    let cipher = XChaCha20Poly1305::new(&[5u8; 32]);
    let nonce = [6u8; 24];
    let mut buffer = sample(70);
    let tag = cipher.encrypt_in_place(&nonce, &mut buffer, b"").unwrap();
    let ciphertext = buffer.clone();
    let mut bad_tag = tag;
    bad_tag[0] ^= 0x10;
    assert_eq!(cipher.decrypt_in_place(&nonce, &mut buffer, b"", &bad_tag), Err(Error));
    assert_eq!(buffer, ciphertext);
    assert_eq!(cipher.decrypt_in_place(&nonce, &mut buffer, b"", &tag), Ok(()));
    assert_eq!(buffer, sample(70));
}

#[test]
fn in_place_matches_combined_form() {
    let cipher = ChaCha20Poly1305::new(&vector_key());
    let nonce: [u8; 12] = array(&unhex("070000004041424344454647"));
    let mut buffer = SUNSCREEN.as_bytes().to_vec();
    let tag = cipher.encrypt_in_place(&nonce, &mut buffer, &vector_aad()).unwrap();
    let sealed = cipher.encrypt(&nonce, SUNSCREEN.as_bytes(), &vector_aad()).unwrap();
    assert_eq!(&sealed[..buffer.len()], &buffer[..]);
    assert_eq!(&sealed[buffer.len()..], &tag[..]);
    assert_eq!(tag.to_vec(), unhex("1ae10b594f09e26a7e902ecbd0600691"));
}

#[test]
fn empty_message_yields_tag_over_aad() {
    let cipher = ChaCha20Poly1305::new(&[8u8; 32]);
    let nonce = [1u8; 12];
    let sealed = cipher.encrypt(&nonce, b"", b"only the header").unwrap();
    assert_eq!(sealed.len(), 16);
    assert_eq!(cipher.decrypt(&nonce, &sealed, b"only the header").unwrap(), Vec::<u8>::new());
    assert_eq!(cipher.decrypt(&nonce, &sealed, b"only the headeR"), Err(Error));
    let other = cipher.encrypt(&nonce, b"", b"another header").unwrap();
    assert_ne!(sealed, other);
    let ext = XChaCha20Poly1305::new(&[8u8; 32]);
    let sealed_ext = ext.encrypt(&[1u8; 24], b"", b"only the header").unwrap();
    assert_eq!(sealed_ext.len(), 16);
    assert_eq!(ext.decrypt(&[1u8; 24], &sealed_ext, b"only the header").unwrap(), Vec::<u8>::new());
}

#[test]
fn block_limit_boundary() {
    assert_eq!(MAX_BLOCKS, 4294967295);
    let limit = (MAX_BLOCKS as usize) * BLOCK_SIZE;
    assert!(within_block_limit(0));
    assert!(within_block_limit(1));
    assert!(within_block_limit(limit - 1));
    assert!(within_block_limit(limit));
    assert!(!within_block_limit(limit + 1));
    assert!(!within_block_limit(limit + 64));
    assert!(!within_block_limit(4294967296usize * 64));
    assert!(!within_block_limit(usize::MAX));
}

#[test]
fn length_encoding_is_little_endian() {
    assert_eq!(le_bytes(0), [0u8; 8]);
    assert_eq!(le_bytes(12), [12, 0, 0, 0, 0, 0, 0, 0]);
    assert_eq!(le_bytes(0x0102030405060708), [8, 7, 6, 5, 4, 3, 2, 1]);
    assert_eq!(le_bytes(u64::MAX), [0xff; 8]);
}

#[test]
fn tag_comparison() {
    let a = [3u8; 16];
    let mut b = a;
    assert!(tags_equal(&a, &b));
    b[15] = 4;
    assert!(!tags_equal(&a, &b));
    b[15] = 3;
    b[0] = 0;
    assert!(!tags_equal(&a, &b));
}

#[test]
fn cloned_cipher_agrees() {
    let cipher = XChaCha20Poly1305::new(&[11u8; 32]);
    let copy = cipher.clone();
    let sealed = cipher.encrypt(&[2u8; 24], b"message", b"ad").unwrap();
    drop(cipher);
    assert_eq!(copy.decrypt(&[2u8; 24], &sealed, b"ad").unwrap(), b"message".to_vec());
}

#[test]
fn authenticator_input_is_padded_and_length_bound() {
    let mut mac = Authenticator::new(&[0u8; 32]);
    mac.absorb_padded(b"abc");
    assert_eq!(mac.absorbed().len(), 16);
    mac.absorb_padded(&sample(16));
    assert_eq!(mac.absorbed().len(), 32);
    mac.absorb_padded(b"");
    assert_eq!(mac.absorbed().len(), 32);
    mac.absorb(&le_bytes(3));
    mac.absorb(&le_bytes(16));
    let mut expected = b"abc".to_vec();
    expected.extend_from_slice(&[0u8; 13]);
    expected.extend_from_slice(&sample(16));
    expected.extend_from_slice(&[3, 0, 0, 0, 0, 0, 0, 0, 16, 0, 0, 0, 0, 0, 0, 0]);
    assert_eq!(mac.absorbed(), &expected[..]);
    assert_eq!(mac.finalize().len(), 16);
}

#[test]
fn keystream_matches_published_vector_from_block_one() {
    let key: [u8; 32] =
        array(&unhex("000102030405060708090a0b0c0d0e0f101112131415161718191a1b1c1d1e1f"));
    let nonce: [u8; 12] = array(&unhex("000000000000004a00000000"));
    let expected = unhex(
        "224f51f3401bd9e12fde276fb8631ded8c131f823d2c06
         e27e4fcaec9ef3cf788a3b0aa372600a92b57974cded2b
         9334794cba40c63e34cdea212c4cf07d41b769a6749f3f
         630f4122cafe28ec4dc47e26d4346d70b98c73f3e9c53a
         c40c5945398b6eda1a832c89c167eacd901d7e2bf363",
    );
    let mut stream = ChaChaStream::new(&key, &nonce);
    stream.seek(64);
    let mut buf = vec![0u8; 114];
    stream.apply_keystream(&mut buf);
    assert_eq!(buf, expected);
}

#[test]
fn keystream_in_pieces_matches_whole() {
    let key = [9u8; 32];
    let nonce = [4u8; 12];
    let mut whole = sample(300);
    let mut whole_stream = ChaChaStream::new(&key, &nonce);
    whole_stream.apply_keystream(&mut whole);
    let mut pieces = sample(300);
    let mut stream = ChaChaStream::new(&key, &nonce);
    let (a, rest) = pieces.split_at_mut(10);
    stream.apply_keystream(a);
    let (b, c) = rest.split_at_mut(100);
    stream.apply_keystream(b);
    stream.apply_keystream(c);
    assert_eq!(pieces, whole);
}

#[test]
fn keystream_reaches_last_block() {
    let mut stream = ChaChaStream::new(&[1u8; 32], &[2u8; 12]);
    stream.seek(KEYSTREAM_LEN - 64);
    let mut last = [0u8; 64];
    stream.apply_keystream(&mut last);
    assert_ne!(last, [0u8; 64]);
    let mut first = [0u8; 64];
    let mut from_zero = ChaChaStream::new(&[1u8; 32], &[2u8; 12]);
    from_zero.apply_keystream(&mut first);
    assert_ne!(last, first);
}
