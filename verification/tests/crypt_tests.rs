use lifecrypt::crypt::{
    decrypt_under, encrypt_under, encrypt_with, Encrypted, EncryptedSerializable,
};
use lifecrypt::encoding::unbase64;
use lifecrypt::error::Error;
use lifecrypt::kdf::{derive_key, KdfParams};

fn cheap() -> KdfParams {
    KdfParams { log_n: 4, r: 8, p: 1 }
}

fn sample() -> Encrypted {
    Encrypted {
        salt: (0u8..32).collect(),
        nonce: vec![1, 2, 3, 4, 5, 6, 7, 8],
        ciphertext: b"hello".to_vec(),
        tag: vec![0xff; 16],
    }
}

#[test]
fn encrypt_then_decrypt_gives_the_plaintext_back() {
    let plaintexts: Vec<Vec<u8>> = vec![
        Vec::new(),
        b"x".to_vec(),
        b"line one\nline two\n".to_vec(),
        vec![0u8; 300],
        (0..=255u8).collect(),
    ];
    let passwords = ["", "secret", "pässwörd ✓", "a much longer password with spaces in it"];
    for plaintext in plaintexts.iter() {
        for password in passwords.iter() {
            let container = encrypt_under(plaintext, password, &cheap()).unwrap();
            assert_eq!(decrypt_under(&container, password, &cheap()), Ok(plaintext.clone()));
        }
    }
}

#[test]
fn container_has_the_shape_of_the_format() {
    let plaintext = b"some plaintext of 28 bytes..";
    let container = encrypt_under(plaintext, "secret", &cheap()).unwrap();
    assert_eq!(container.salt.len(), 32);
    assert_eq!(container.nonce.len(), 8);
    assert_eq!(container.ciphertext.len(), plaintext.len());
    assert_eq!(container.tag.len(), 16);
    assert_ne!(container.ciphertext, plaintext.to_vec());
}

#[test]
fn decrypt_with_another_password_fails_authentication() {
    let container = encrypt_under(b"top secret", "w1", &cheap()).unwrap();
    for wrong in ["w2", "", "W1", "w1 ", "w11"] {
        assert_eq!(decrypt_under(&container, wrong, &cheap()), Err(Error::AuthenticationFailed));
    }
    let empty = encrypt_under(b"", "w1", &cheap()).unwrap();
    assert_eq!(decrypt_under(&empty, "w2", &cheap()), Err(Error::AuthenticationFailed));
}

#[test]
fn flipping_any_bit_of_ciphertext_or_tag_fails_authentication() {
    let container = encrypt_under(b"tamper", "secret", &cheap()).unwrap();
    for byte in 0..container.ciphertext.len() {
        for bit in 0..8 {
            let mut changed = container.clone();
            changed.ciphertext[byte] ^= 1 << bit;
            assert_eq!(
                decrypt_under(&changed, "secret", &cheap()),
                Err(Error::AuthenticationFailed)
            );
        }
    }
    for byte in 0..container.tag.len() {
        for bit in 0..8 {
            let mut changed = container.clone();
            changed.tag[byte] ^= 1 << bit;
            assert_eq!(
                decrypt_under(&changed, "secret", &cheap()),
                Err(Error::AuthenticationFailed)
            );
        }
    }
}

#[test]
fn changing_salt_or_nonce_fails_authentication() {
    let container = encrypt_under(b"tamper", "secret", &cheap()).unwrap();
    let mut changed = container.clone();
    changed.salt[0] ^= 1;
    assert_eq!(decrypt_under(&changed, "secret", &cheap()), Err(Error::AuthenticationFailed));
    let mut changed = container.clone();
    changed.nonce[7] ^= 0x80;
    assert_eq!(decrypt_under(&changed, "secret", &cheap()), Err(Error::AuthenticationFailed));
}

#[test]
fn nonce_of_wrong_length_fails_authentication_without_panic() {
    let container = encrypt_under(b"tamper", "secret", &cheap()).unwrap();
    for len in [0usize, 7, 9, 12, 24] {
        let mut changed = container.clone();
        changed.nonce = vec![0u8; len];
        assert_eq!(decrypt_under(&changed, "secret", &cheap()), Err(Error::AuthenticationFailed));
    }
    let mut changed = container.clone();
    changed.tag = Vec::new();
    assert_eq!(decrypt_under(&changed, "secret", &cheap()), Err(Error::AuthenticationFailed));
}

#[test]
fn salt_of_wrong_length_fails_authentication() {
    // Sealed under the key that belongs to the short salt, so that only the
    // salt's length stands against it.
    let key = derive_key(b"secret", b"short", &cheap()).unwrap();
    let (ciphertext, tag) = lifecrypt::aead::seal(b"data", &key, &[9u8; 8]).unwrap();
    let container =
        Encrypted { salt: b"short".to_vec(), nonce: vec![9u8; 8], ciphertext, tag };
    assert_eq!(decrypt_under(&container, "secret", &cheap()), Err(Error::AuthenticationFailed));
    let container = encrypt_under(b"data", "secret", &cheap()).unwrap();
    for len in [0usize, 16, 31, 33, 64] {
        let mut changed = container.clone();
        changed.salt = vec![0u8; len];
        assert_eq!(decrypt_under(&changed, "secret", &cheap()), Err(Error::AuthenticationFailed));
    }
}

#[test]
fn tag_of_wrong_length_fails_authentication() {
    let empty = Encrypted {
        salt: vec![0u8; 32],
        nonce: vec![0u8; 8],
        ciphertext: Vec::new(),
        tag: Vec::new(),
    };
    assert_eq!(decrypt_under(&empty, "pw", &cheap()), Err(Error::AuthenticationFailed));
    let text = format!(
        "{{\"salt\":\"{}\",\"nonce\":\"{}\",\"ciphertext\":\"\",\"tag\":\"\"}}",
        "A".repeat(43),
        "A".repeat(11)
    );
    assert_eq!(Encrypted::from_text(&text), Ok(empty));
    let container = encrypt_under(b"data", "secret", &cheap()).unwrap();
    for len in [0usize, 1, 15, 17, 32] {
        let mut changed = container.clone();
        changed.tag.resize(len, 0);
        assert_eq!(decrypt_under(&changed, "secret", &cheap()), Err(Error::AuthenticationFailed));
    }
}

#[test]
fn two_encryptions_of_the_same_input_differ() {
    let first = encrypt_under(b"same plaintext", "same password", &cheap()).unwrap();
    let second = encrypt_under(b"same plaintext", "same password", &cheap()).unwrap();
    assert_ne!(first.salt, second.salt);
    assert_ne!(first.nonce, second.nonce);
    assert_ne!(first.ciphertext, second.ciphertext);
    assert_ne!(first.to_text(), second.to_text());
}

#[test]
fn nonces_and_salts_do_not_repeat_over_many_encryptions() {
    let mut nonces = std::collections::HashSet::new();
    let mut salts = std::collections::HashSet::new();
    for _ in 0..200 {
        let container = encrypt_under(b"p", "w", &KdfParams { log_n: 1, r: 1, p: 1 }).unwrap();
        assert!(nonces.insert(container.nonce.clone()));
        assert!(salts.insert(container.salt.clone()));
    }
}

#[test]
fn encrypt_with_is_determined_by_salt_and_nonce() {
    let salt = vec![7u8; 32];
    let nonce = vec![9u8; 8];
    let first = encrypt_with(b"hello", "secret", salt.clone(), nonce.clone(), &cheap()).unwrap();
    let second = encrypt_with(b"hello", "secret", salt.clone(), nonce.clone(), &cheap()).unwrap();
    assert_eq!(first, second);
    assert_eq!(first.salt, salt);
    assert_eq!(first.nonce, nonce);
    // What it computes is the sealing under the derived key.
    let key = derive_key(b"secret", &salt, &cheap()).unwrap();
    let (ciphertext, tag) = lifecrypt::aead::seal(b"hello", &key, &nonce).unwrap();
    assert_eq!(first.ciphertext, ciphertext);
    assert_eq!(first.tag, tag);
    assert_eq!(decrypt_under(&first, "secret", &cheap()), Ok(b"hello".to_vec()));
}

#[test]
fn invalid_work_factor_is_a_key_derivation_error() {
    let invalid = KdfParams { log_n: 4, r: 0, p: 1 };
    assert_eq!(encrypt_under(b"hello", "secret", &invalid), Err(Error::KeyDerivation));
    assert_eq!(
        encrypt_with(b"hello", "secret", vec![0; 32], vec![0; 8], &invalid),
        Err(Error::KeyDerivation)
    );
    assert_eq!(decrypt_under(&sample(), "secret", &invalid), Err(Error::KeyDerivation));
}

#[test]
fn work_factor_is_part_of_the_key() {
    let container = encrypt_under(b"hello", "secret", &cheap()).unwrap();
    let other = KdfParams { log_n: 5, r: 8, p: 1 };
    assert_eq!(decrypt_under(&container, "secret", &other), Err(Error::AuthenticationFailed));
}

#[test]
fn serializable_holds_unpadded_base64() {
    let texts = EncryptedSerializable::new(&sample());
    assert_eq!(texts.salt, "AAECAwQFBgcICQoLDA0ODxAREhMUFRYXGBkaGxwdHh8");
    assert_eq!(texts.nonce, "AQIDBAUGBwg");
    assert_eq!(texts.ciphertext, "aGVsbG8");
    assert_eq!(texts.tag, "/////////////////////w");
    assert_eq!(texts.to_encrypted(), Ok(sample()));
}

#[test]
fn serializable_round_trips_every_length() {
    for len in 0..70usize {
        let bytes: Vec<u8> = (0..len).map(|i| (i * 37 + 11) as u8).collect();
        let container = Encrypted {
            salt: bytes.clone(),
            nonce: bytes.iter().rev().cloned().collect(),
            ciphertext: vec![0xfb; len],
            tag: vec![0x00; len],
        };
        let texts = EncryptedSerializable::new(&container);
        for text in [&texts.salt, &texts.nonce, &texts.ciphertext, &texts.tag] {
            assert!(text.chars().all(|c| c.is_ascii_alphanumeric() || c == '+' || c == '/'));
            assert_eq!(text.len(), (len * 4 + 2) / 3);
        }
        assert_eq!(texts.to_encrypted(), Ok(container));
    }
}

#[test]
fn to_encrypted_rejects_text_that_is_not_base64() {
    let good = EncryptedSerializable::new(&sample());
    for bad in ["!!!!", "aGVsbG8*", "a", "aGVsb G8", "aGVsbG8\n", "aGVsbG9", "äöü"] {
        let mut texts = good.clone();
        texts.salt = bad.to_string();
        assert_eq!(texts.to_encrypted(), Err(Error::MalformedContainer), "{:?}", bad);
        let mut texts = good.clone();
        texts.tag = bad.to_string();
        assert_eq!(texts.to_encrypted(), Err(Error::MalformedContainer), "{:?}", bad);
    }
}

#[test]
fn unbase64_decodes_known_text() {
    assert_eq!(unbase64("aGVsbG8"), Ok(b"hello".to_vec()));
    assert_eq!(unbase64(""), Ok(Vec::new()));
    assert_eq!(unbase64("AA"), Ok(vec![0]));
    assert_eq!(unbase64("+/+/"), Ok(vec![0xfb, 0xff, 0xbf]));
    assert_eq!(unbase64("-_-_"), Err(Error::MalformedContainer));
    assert_eq!(unbase64("A"), Err(Error::MalformedContainer));
}
