use jenc::container::{open, seal, seal_with, HEADER_LEN, MIN_CONTAINER_LEN, TAG_LEN};
use jenc::kdf::{cost_in_bounds, derive_key, KEY_LEN};
use jenc::JencError;

fn sealed(plain: &[u8], pass: &[u8]) -> Vec<u8> {
    seal(plain, pass, 5).expect("sealing succeeds")
}

#[test]
fn round_trip_file_bytes() {
    let plain = b"the quick brown fox".to_vec();
    let c = sealed(&plain, b"secret");
    assert_eq!(c.len(), HEADER_LEN + plain.len() + TAG_LEN);
    assert_eq!(c[0], 5);
    assert_eq!(open(&c, b"secret").unwrap(), plain);
}

#[test]
fn round_trip_empty_plaintext() {
    let c = sealed(b"", b"pw");
    assert_eq!(c.len(), MIN_CONTAINER_LEN);
    assert_eq!(open(&c, b"pw").unwrap(), Vec::<u8>::new());
}

#[test]
fn wrong_password_fails() {
    let c = sealed(b"payload", b"right");
    assert_eq!(open(&c, b"wrong"), Err(JencError::Authentication));
    assert_eq!(open(&c, b""), Err(JencError::Authentication));
}

#[test]
fn tamper_in_every_region_fails() {
    let c = sealed(b"some plaintext here", b"pw");
    // salt, nonce, ciphertext and tag regions
    for i in 1..c.len() {
        let mut t = c.clone();
        t[i] ^= 0x01;
        assert_eq!(open(&t, b"pw"), Err(JencError::Authentication), "byte {}", i);
    }
}

#[test]
fn tamper_cost_byte_fails() {
    let c = sealed(b"abc", b"pw");
    let mut t = c.clone();
    t[0] = 6;
    assert_eq!(open(&t, b"pw"), Err(JencError::Authentication));
    t[0] = 40;
    assert_eq!(open(&t, b"pw"), Err(JencError::MalformedContainer));
}

#[test]
fn short_container_is_malformed() {
    assert_eq!(open(&[], b"pw"), Err(JencError::MalformedContainer));
    let c = vec![5u8; MIN_CONTAINER_LEN - 1];
    assert_eq!(open(&c, b"pw"), Err(JencError::MalformedContainer));
}

#[test]
fn cost_boundaries() {
    assert!(cost_in_bounds(5));
    assert!(cost_in_bounds(31));
    assert!(!cost_in_bounds(4));
    assert!(!cost_in_bounds(32));
    assert!(!cost_in_bounds(0));
    assert!(!cost_in_bounds(255));
    assert_eq!(seal(b"x", b"pw", 4), Err(JencError::InvalidParameter));
    assert_eq!(seal(b"x", b"pw", 32), Err(JencError::InvalidParameter));
    assert!(seal(b"x", b"pw", 5).is_ok());
}

#[test]
fn derive_key_is_deterministic() {
    let salt = [7u8; 16];
    let k1 = derive_key(b"pw", 5, &salt).unwrap();
    let k2 = derive_key(b"pw", 5, &salt).unwrap();
    assert_eq!(k1.len(), KEY_LEN);
    assert_eq!(k1, k2);
    assert_ne!(k1, derive_key(b"pw2", 5, &salt).unwrap());
    assert_ne!(k1, derive_key(b"pw", 6, &salt).unwrap());
    assert_ne!(k1, derive_key(b"pw", 5, &[8u8; 16]).unwrap());
    assert_eq!(derive_key(b"pw", 4, &salt), Err(JencError::InvalidParameter));
    assert_eq!(derive_key(b"pw", 32, &salt), Err(JencError::InvalidParameter));
}

#[test]
fn seal_with_lays_out_header() {
    let salt = [1u8; 16];
    let nonce = [2u8; 12];
    let c = seal_with(b"hello", b"pw", 5, &salt, &nonce).unwrap();
    assert_eq!(c[0], 5);
    assert_eq!(&c[1..17], &salt);
    assert_eq!(&c[17..29], &nonce);
    assert_eq!(c.len(), 29 + 5 + 16);
    assert_ne!(&c[29..34], b"hello");
    assert_eq!(c, seal_with(b"hello", b"pw", 5, &salt, &nonce).unwrap());
    assert_eq!(open(&c, b"pw").unwrap(), b"hello".to_vec());
    assert_eq!(seal_with(b"hello", b"pw", 4, &salt, &nonce), Err(JencError::InvalidParameter));
}

#[test]
fn fresh_salt_and_nonce_per_seal() {
    let a = sealed(b"same", b"pw");
    let b = sealed(b"same", b"pw");
    assert_ne!(a[1..29], b[1..29]);
    assert_ne!(a, b);
}

#[test]
fn error_messages_are_one_line() {
    for e in [
        JencError::KeyDerivation,
        JencError::Authentication,
        JencError::MalformedContainer,
        JencError::Filesystem,
        JencError::UnsafeEntryPath,
        JencError::UnsupportedEntry,
        JencError::Archive,
        JencError::InvalidParameter,
        JencError::NoParam,
    ] {
        let m = e.message();
        assert!(!m.is_empty());
        assert!(!m.contains('\n'));
    }
    assert_eq!(JencError::NoParam.message(), "missing parameter");
    assert_eq!(JencError::Authentication.message(), "decryption failed (bad password?)");
}

