use enm::crypto::{
    bytes_to_text, decrypt, derive_key, encrypt, generate_nonce, generate_salt, NoteError,
    KDF_ROUNDS, KEY_LEN, NONCE_LEN, SALT_LEN, TAG_LEN,
};

#[test]
fn protocol_constants() {
    assert_eq!(KDF_ROUNDS, 600_000);
    assert_eq!(KEY_LEN, 32);
    assert_eq!(NONCE_LEN, 12);
    assert_eq!(TAG_LEN, 16);
    assert_eq!(SALT_LEN, 22);
}

#[test]
fn derive_key_known_answer() {
    let key = derive_key(b"password", b"salt");
    let expected: [u8; 32] = [
        0x66, 0x9c, 0xfe, 0x52, 0x48, 0x21, 0x16, 0xfd, 0xa1, 0xaa, 0x2c, 0xbe, 0x40, 0x9b, 0x2f,
        0x56, 0xc8, 0xe4, 0x56, 0x37, 0x52, 0xb7, 0xa2, 0x8f, 0x6e, 0xaa, 0xb6, 0x14, 0xee, 0x00,
        0x51, 0x78,
    ];
    assert_eq!(key, expected);
}

#[test]
fn derive_key_is_deterministic() {
    assert_eq!(derive_key(b"p@ss1", b"some salt"), derive_key(b"p@ss1", b"some salt"));
}

#[test]
fn encrypt_known_answer() {
    let sealed = encrypt(&[7u8; 32], &[9u8; 12], b"hello world").unwrap();
    let expected: Vec<u8> = vec![
        148, 28, 151, 187, 139, 46, 242, 202, 175, 4, 106, 10, 151, 145, 113, 2, 253, 57, 29,
        154, 96, 92, 68, 30, 242, 162, 247,
    ];
    assert_eq!(sealed, expected);
    assert_eq!(decrypt(&[7u8; 32], &[9u8; 12], &expected), Ok(b"hello world".to_vec()));
}

#[test]
fn derive_key_depends_on_salt() {
    let a = derive_key(b"password", b"salt");
    let b = derive_key(b"password", b"pepper");
    assert_ne!(a, b);
}

#[test]
fn encrypt_appends_tag_and_hides_plaintext() {
    let key = [7u8; 32];
    let nonce = [9u8; 12];
    let plaintext = b"hello world";
    let sealed = encrypt(&key, &nonce, plaintext).unwrap();
    assert_eq!(sealed.len(), plaintext.len() + TAG_LEN);
    assert_ne!(&sealed[..plaintext.len()], &plaintext[..]);
}

#[test]
fn encrypt_is_deterministic() {
    let key = [1u8; 32];
    let nonce = [2u8; 12];
    let a = encrypt(&key, &nonce, b"same input").unwrap();
    let b = encrypt(&key, &nonce, b"same input").unwrap();
    assert_eq!(a, b);
}

#[test]
fn encrypt_empty_plaintext_is_tag_only() {
    let key = [1u8; 32];
    let nonce = [2u8; 12];
    let sealed = encrypt(&key, &nonce, b"").unwrap();
    assert_eq!(sealed.len(), TAG_LEN);
    assert_eq!(decrypt(&key, &nonce, &sealed), Ok(Vec::new()));
}

#[test]
fn decrypt_recovers_plaintext() {
    let key = [7u8; 32];
    let nonce = [9u8; 12];
    let sealed = encrypt(&key, &nonce, b"hello world").unwrap();
    let opened = decrypt(&key, &nonce, &sealed).unwrap();
    assert_eq!(opened, b"hello world".to_vec());
    assert_ne!(opened, sealed);
}

#[test]
fn decrypt_rejects_other_key() {
    let nonce = [9u8; 12];
    let sealed = encrypt(&[7u8; 32], &nonce, b"hello world").unwrap();
    assert_eq!(decrypt(&[8u8; 32], &nonce, &sealed), Err(NoteError::AuthenticationFailed));
}

#[test]
fn decrypt_rejects_other_nonce() {
    let key = [7u8; 32];
    let sealed = encrypt(&key, &[9u8; 12], b"hello world").unwrap();
    assert_eq!(decrypt(&key, &[10u8; 12], &sealed), Err(NoteError::AuthenticationFailed));
}

#[test]
fn decrypt_rejects_input_shorter_than_tag() {
    let key = [7u8; 32];
    let nonce = [9u8; 12];
    assert_eq!(decrypt(&key, &nonce, &[0u8; 15]), Err(NoteError::AuthenticationFailed));
    assert_eq!(decrypt(&key, &nonce, &[]), Err(NoteError::AuthenticationFailed));
}

#[test]
fn decrypt_rejects_every_single_bit_flip() {
    let key = [7u8; 32];
    let nonce = [9u8; 12];
    let sealed = encrypt(&key, &nonce, b"hello world").unwrap();
    for byte in 0..sealed.len() {
        for bit in 0..8 {
            let mut tampered = sealed.clone();
            tampered[byte] ^= 1 << bit;
            assert_eq!(decrypt(&key, &nonce, &tampered), Err(NoteError::AuthenticationFailed));
        }
    }
}

#[test]
fn generated_salt_has_documented_length() {
    let salt = generate_salt();
    assert_eq!(salt.len(), SALT_LEN);
    assert!(!salt.is_empty());
    assert!(salt.iter().all(|b| b.is_ascii_alphanumeric() || *b == b'+' || *b == b'/'));
}

#[test]
fn generated_salts_and_nonces_differ() {
    assert_ne!(generate_salt(), generate_salt());
    assert_ne!(generate_nonce(), generate_nonce());
}

#[test]
fn bytes_to_text_accepts_utf8() {
    assert_eq!(bytes_to_text(b"hello world".to_vec()), Ok("hello world".to_string()));
    assert_eq!(bytes_to_text("gr\u{fc}\u{df}e".as_bytes().to_vec()), Ok("gr\u{fc}\u{df}e".to_string()));
    assert_eq!(bytes_to_text(Vec::new()), Ok(String::new()));
}

#[test]
fn bytes_to_text_rejects_non_utf8() {
    assert_eq!(bytes_to_text(vec![0xff]), Err(NoteError::NotUtf8));
    assert_eq!(bytes_to_text(vec![b'a', 0xc3]), Err(NoteError::NotUtf8));
}
