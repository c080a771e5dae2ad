use agent_matrix::encryption::{
    decrypt_command, decrypt_command_with_integrity, encrypt_command,
    encrypt_command_with_integrity, encrypt_with_nonce, generate_hash, IntegrityError, ENVELOPE_MIN,
    HASH_LEN, NONCE_LEN, TAG_LEN,
};
use agent_matrix::integrity::check_integrity;

fn key_a() -> Vec<u8> {
    (0u8..32).collect()
}

fn key_b() -> Vec<u8> {
    (100u8..132).collect()
}

#[test]
fn round_trip_basic() {
    let key = key_a();
    let env = encrypt_command_with_integrity("git status", &key);
    assert_eq!(
        decrypt_command_with_integrity(&env, &key),
        Ok("git status".to_string())
    );
}

#[test]
fn round_trip_empty() {
    let key = key_a();
    let env = encrypt_command_with_integrity("", &key);
    assert_eq!(decrypt_command_with_integrity(&env, &key), Ok("".to_string()));
    assert_eq!(env.len(), ENVELOPE_MIN);
}

#[test]
fn round_trip_unicode() {
    let key = key_a();
    let cmd = "héllo wörld — κόσμος";
    let env = encrypt_command_with_integrity(cmd, &key);
    assert_eq!(decrypt_command_with_integrity(&env, &key), Ok(cmd.to_string()));
}

#[test]
fn envelope_layout() {
    let key = key_a();
    let cmd = "ls -la";
    let env = encrypt_command_with_integrity(cmd, &key);
    assert_eq!(env.len(), HASH_LEN + NONCE_LEN + cmd.len() + TAG_LEN);
    // The first field is the digest of the plaintext.
    assert_eq!(&env[..HASH_LEN], generate_hash(cmd).as_slice());
}

#[test]
fn generate_hash_matches_hash_primitive() {
    let h = generate_hash("abc");
    assert_eq!(h.as_slice(), blake3::hash(b"abc").as_bytes());
    assert_eq!(h.len(), HASH_LEN);
}

#[test]
fn tamper_hash_region_detected() {
    let key = key_a();
    let env = encrypt_command_with_integrity("git status", &key);
    for i in 0..HASH_LEN {
        let mut t = env.clone();
        t[i] ^= 0x01;
        assert_eq!(
            decrypt_command_with_integrity(&t, &key),
            Err(IntegrityError::IntegrityMismatch),
            "flip at digest byte {} must be detected",
            i
        );
    }
}

#[test]
fn tamper_ciphertext_region_detected() {
    let key = key_a();
    let env = encrypt_command_with_integrity("git status", &key);
    for i in (HASH_LEN + NONCE_LEN)..env.len() {
        let mut t = env.clone();
        t[i] ^= 0x01;
        assert_eq!(
            decrypt_command_with_integrity(&t, &key),
            Err(IntegrityError::CryptographicTamper),
            "flip at ciphertext byte {} must be detected",
            i
        );
    }
}

#[test]
fn tamper_nonce_region_detected() {
    let key = key_a();
    let env = encrypt_command_with_integrity("git status", &key);
    for i in HASH_LEN..HASH_LEN + NONCE_LEN {
        let mut t = env.clone();
        t[i] ^= 0x01;
        assert!(decrypt_command_with_integrity(&t, &key).is_err());
    }
}

#[test]
fn malformed_when_too_short() {
    let key = key_a();
    assert_eq!(
        decrypt_command_with_integrity(&[], &key),
        Err(IntegrityError::MalformedEnvelope)
    );
    let short = vec![0u8; ENVELOPE_MIN - 1];
    assert_eq!(
        decrypt_command_with_integrity(&short, &key),
        Err(IntegrityError::MalformedEnvelope)
    );
}

#[test]
fn wrong_key_is_cryptographic_tamper() {
    let env = encrypt_command_with_integrity("git status", &key_a());
    assert_eq!(
        decrypt_command_with_integrity(&env, &key_b()),
        Err(IntegrityError::CryptographicTamper)
    );
}

#[test]
fn nonce_uniqueness() {
    let key = key_a();
    let e1 = encrypt_command_with_integrity("git status", &key);
    let e2 = encrypt_command_with_integrity("git status", &key);
    assert_ne!(
        &e1[HASH_LEN..HASH_LEN + NONCE_LEN],
        &e2[HASH_LEN..HASH_LEN + NONCE_LEN],
        "two seals must draw different nonces"
    );
    assert_ne!(
        &e1[HASH_LEN + NONCE_LEN..],
        &e2[HASH_LEN + NONCE_LEN..],
        "different nonces must give different ciphertexts"
    );
    assert_ne!(e1, e2);
}

#[test]
fn deterministic_with_fixed_nonce() {
    let key = key_a();
    let nonce = [9u8; 12];
    let e1 = encrypt_with_nonce("git status", &key, &nonce);
    let e2 = encrypt_with_nonce("git status", &key, &nonce);
    assert_eq!(e1, e2);
    assert_eq!(&e1[HASH_LEN..HASH_LEN + NONCE_LEN], &nonce);
    assert_eq!(decrypt_command_with_integrity(&e1, &key), Ok("git status".to_string()));
}

#[test]
fn plain_round_trip() {
    let key = key_a();
    let packet = encrypt_command("echo hi", &key);
    assert_eq!(packet.len(), NONCE_LEN + "echo hi".len() + TAG_LEN);
    assert_eq!(decrypt_command(&packet, &key), Ok("echo hi".to_string()));
}

#[test]
fn plain_wrong_key_fails() {
    let packet = encrypt_command("echo hi", &key_a());
    assert_eq!(
        decrypt_command(&packet, &key_b()),
        Err(IntegrityError::CryptographicTamper)
    );
}

#[test]
fn plain_malformed_when_too_short() {
    let key = key_a();
    let short = vec![0u8; NONCE_LEN + TAG_LEN - 1];
    assert_eq!(
        decrypt_command(&short, &key),
        Err(IntegrityError::MalformedEnvelope)
    );
}

#[test]
fn check_integrity_agrees_and_disagrees() {
    assert!(check_integrity(b"git status", "git status"));
    assert!(!check_integrity(b"git status!", "git status"));
    assert!(check_integrity(b"", ""));
}
