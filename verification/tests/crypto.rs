use p2p_vpn::crypto::{decrypt_message, derive_key, encrypt_message, encrypt_with_nonce};

const HOME_KEY: [u8; 32] = [
    0xdf, 0xeb, 0xdc, 0xb6, 0xde, 0x3f, 0xd1, 0x38, 0xf2, 0xae, 0x80, 0x60, 0x35, 0x27, 0x9a, 0x41,
    0x54, 0x8b, 0x1e, 0x85, 0x5f, 0x14, 0x56, 0x1f, 0x7e, 0xc4, 0x72, 0x6a, 0x7f, 0x8c, 0xd1, 0xb4,
];

const CYRILLIC_KEY: [u8; 32] = [
    0x49, 0x65, 0x13, 0xf3, 0x64, 0x72, 0x4e, 0x72, 0xfb, 0xca, 0x74, 0xe7, 0x58, 0x26, 0x42, 0x94,
    0xcb, 0xa7, 0x85, 0xc2, 0x67, 0x7a, 0x6e, 0xa6, 0xb7, 0x80, 0x4e, 0xb6, 0x2b, 0xba, 0xb7, 0x0a,
];

fn counting_key() -> [u8; 32] {
    let mut key = [0u8; 32];
    for i in 0..32 {
        key[i] = i as u8;
    }
    key
}

const NONCE: [u8; 12] = [100, 101, 102, 103, 104, 105, 106, 107, 108, 109, 110, 111];

#[test]
fn key_is_the_digest_of_name_colon_password() {
    assert_eq!(derive_key("home", "secret"), HOME_KEY);
    assert_eq!(derive_key("дом", "пароль"), CYRILLIC_KEY);
}

#[test]
fn key_depends_on_name_and_password() {
    assert_ne!(derive_key("home", "secret2"), HOME_KEY);
    assert_ne!(derive_key("home2", "secret"), HOME_KEY);
    assert_eq!(derive_key("a:b", "c"), derive_key("a", "b:c"));
}

#[test]
fn datagram_has_nonce_ciphertext_and_tag() {
    let expected: Vec<u8> = vec![
        100, 101, 102, 103, 104, 105, 106, 107, 108, 109, 110, 111, 92, 116, 215, 166, 247, 137,
        86, 34, 158, 187, 103, 12, 15, 131, 237, 13, 167, 61, 234, 205, 149, 216, 2, 30, 97, 176,
        60, 88,
    ];
    assert_eq!(
        encrypt_with_nonce(&counting_key(), &NONCE, b"hello, peers"),
        expected
    );
}

#[test]
fn empty_plaintext_is_sealed() {
    let data = encrypt_with_nonce(&counting_key(), &NONCE, b"");
    let tag: [u8; 16] = [
        163, 49, 38, 152, 111, 203, 19, 18, 194, 71, 108, 18, 80, 89, 255, 228,
    ];
    assert_eq!(data.len(), 28);
    assert_eq!(data[12..], tag);
    assert_eq!(decrypt_message(&counting_key(), &data), Some(tag.to_vec()));
}

#[test]
fn decryption_gives_the_plaintext_and_the_tag() {
    let data = encrypt_with_nonce(&counting_key(), &NONCE, b"hello, peers");
    let plain = decrypt_message(&counting_key(), &data).unwrap();
    assert_eq!(plain.len(), 28);
    assert_eq!(&plain[..12], b"hello, peers");
    assert_eq!(plain[12..], data[24..]);
}

#[test]
fn random_nonce_round_trip() {
    let plain: Vec<u8> = (0..1400u32).map(|i| i as u8).collect();
    let data = encrypt_message(&HOME_KEY, &plain);
    assert_eq!(data.len(), 12 + 1400 + 16);
    let back = decrypt_message(&HOME_KEY, &data).unwrap();
    assert_eq!(back[..1400], plain[..]);
    assert_eq!(back[1400..], data[1412..]);
}

#[test]
fn two_encryptions_differ() {
    let a = encrypt_message(&HOME_KEY, b"same");
    let b = encrypt_message(&HOME_KEY, b"same");
    assert_ne!(a[..12], b[..12]);
}

#[test]
fn wrong_key_is_refused() {
    let data = encrypt_message(&HOME_KEY, b"for members only");
    assert_eq!(decrypt_message(&CYRILLIC_KEY, &data), None);
}

#[test]
fn any_changed_byte_is_refused() {
    let data = encrypt_with_nonce(&counting_key(), &NONCE, b"hello, peers");
    for i in 0..data.len() {
        let mut changed = data.clone();
        changed[i] ^= 1;
        assert_eq!(decrypt_message(&counting_key(), &changed), None);
    }
}

#[test]
fn short_datagrams_are_refused() {
    let data = encrypt_with_nonce(&counting_key(), &NONCE, b"");
    for n in 0..28 {
        assert_eq!(decrypt_message(&counting_key(), &data[..n]), None);
    }
}

#[test]
fn every_other_tag_is_refused() {
    let data = encrypt_message(&HOME_KEY, b"hello, peers");
    let start = data.len() - 16;
    for i in start..data.len() {
        for bit in 0..8 {
            let mut altered = data.clone();
            altered[i] ^= 1 << bit;
            assert_eq!(decrypt_message(&HOME_KEY, &altered), None);
        }
    }
    let mut blank = data.clone();
    blank[start..].fill(0);
    assert_eq!(decrypt_message(&HOME_KEY, &blank), None);
    assert!(decrypt_message(&HOME_KEY, &data).is_some());
}

#[test]
fn cipher_applied_to_the_ciphertext_gives_the_plaintext() {
    let data = encrypt_with_nonce(&counting_key(), &NONCE, b"hello, peers");
    let twice = encrypt_with_nonce(&counting_key(), &NONCE, &data[12..24]);
    assert_eq!(&twice[12..24], b"hello, peers");
}

#[test]
fn parts_of_a_datagram_have_their_lengths() {
    for n in [0usize, 1, 15, 16, 17, 64, 65, 1400] {
        let plain = vec![7u8; n];
        let data = encrypt_with_nonce(&counting_key(), &NONCE, &plain);
        assert_eq!(data.len(), n + 28);
        assert_eq!(data[..12], NONCE);
    }
}
