//! The envelope codec: turns a plaintext command into a tamper-evident byte
//! packet and back.
//!
//! Wire layout, fixed and length-prefix free:
//! `[HASH_LEN bytes digest][NONCE_LEN bytes nonce][AEAD ciphertext + tag]`.
//! The digest is a fast hash of the plaintext itself, checked independently of
//! the cipher's own authentication tag, so that integrity does not rest on a
//! single code path.

use aes_gcm::aead::Aead;
use aes_gcm::KeyInit;
use rand::Rng;
use vstd::prelude::*;
use vstd::utf8::{decode_utf8, encode_utf8, valid_utf8};

use crate::res_view;

verus! {

/// Width in bytes of the plaintext digest at the front of an envelope.
pub const HASH_LEN: usize = 32;

/// Width in bytes of the cipher nonce stored after the digest.
pub const NONCE_LEN: usize = 12;

/// Width in bytes of the authentication tag the cipher appends.
pub const TAG_LEN: usize = 16;

/// Width in bytes of a symmetric key.
pub const KEY_LEN: usize = 32;

/// The shortest well-formed envelope: both fixed fields plus the tag of an
/// empty ciphertext.
pub const ENVELOPE_MIN: usize = HASH_LEN + NONCE_LEN + TAG_LEN;

/// The longest plaintext the cipher seals in one message (2^36 - 32 bytes);
/// beyond it the cipher itself refuses.
pub const PLAINTEXT_MAX: u64 = 68719476704;

/// Why an envelope was rejected instead of decoded.
#[derive(Debug, Clone, Copy, PartialEq, Eq, Structural)]
pub enum IntegrityError {
    /// The bytes cannot be an envelope at all, or the sealed payload is not a
    /// command string.
    MalformedEnvelope,
    /// The cipher refused the ciphertext: wrong key, wrong nonce, or altered
    /// ciphertext bytes.
    CryptographicTamper,
    /// The cipher accepted the ciphertext but the stored digest does not match
    /// the recovered plaintext.
    IntegrityMismatch,
}

/// The digest that the hash primitive assigns to a byte sequence.
pub uninterp spec fn blake3_of(data: Seq<u8>) -> Seq<u8>;

/// The ciphertext (tag included) that the cipher assigns to a key, nonce and
/// plaintext.
pub uninterp spec fn aead_encrypt(key: Seq<u8>, nonce: Seq<u8>, plaintext: Seq<u8>) -> Seq<u8>;

/// What opening a ciphertext under a key and nonce yields: the sealed
/// plaintext, or nothing when authentication fails.
pub uninterp spec fn aead_decrypt(key: Seq<u8>, nonce: Seq<u8>, ciphertext: Seq<u8>) -> Option<
    Seq<u8>,
>;

/// Relies on blake3::hash: a 32-byte digest that depends on the input bytes
/// alone.
#[verifier::external_body]
pub(crate) fn blake3_digest(data: &[u8]) -> (r: Vec<u8>)
    ensures
        r@ == blake3_of(data@),
        r@.len() == HASH_LEN,
{
    blake3::hash(data).as_bytes().to_vec()
}

/// Relies on Aes256Gcm::encrypt (aes-gcm): seals the plaintext under the key
/// and nonce with a 16-byte tag appended, fails only beyond the cipher's
/// plaintext length limit, and seals invertibly: opening the result under the
/// same key and nonce yields the plaintext back.
#[verifier::external_body]
fn aead_seal(key: &[u8], nonce: &[u8], plaintext: &[u8]) -> (r: Option<Vec<u8>>)
    requires
        key@.len() == KEY_LEN,
        nonce@.len() == NONCE_LEN,
    ensures
        plaintext@.len() <= PLAINTEXT_MAX ==> r is Some,
        r matches Some(ct) ==> {
            &&& ct@ == aead_encrypt(key@, nonce@, plaintext@)
            &&& ct@.len() == plaintext@.len() + TAG_LEN
            &&& aead_decrypt(key@, nonce@, ct@) == Some(plaintext@)
        },
{
    let key = aes_gcm::Key::<aes_gcm::Aes256Gcm>::try_from(key).ok()?;
    let cipher = aes_gcm::Aes256Gcm::new(&key);
    let nonce = aes_gcm::aead::Nonce::<aes_gcm::Aes256Gcm>::try_from(nonce).ok()?;
    cipher.encrypt(&nonce, plaintext).ok()
}

/// Relies on Aes256Gcm::decrypt (aes-gcm): succeeds exactly when the tag
/// authenticates the ciphertext under the key and nonce, returning the
/// sealed plaintext.
#[verifier::external_body]
fn aead_open(key: &[u8], nonce: &[u8], ciphertext: &[u8]) -> (r: Option<Vec<u8>>)
    requires
        key@.len() == KEY_LEN,
        nonce@.len() == NONCE_LEN,
    ensures
        (match r {
            Some(pt) => Some(pt@),
            None => None,
        }) == aead_decrypt(key@, nonce@, ciphertext@),
{
    let key = aes_gcm::Key::<aes_gcm::Aes256Gcm>::try_from(key).ok()?;
    let cipher = aes_gcm::Aes256Gcm::new(&key);
    let nonce = aes_gcm::aead::Nonce::<aes_gcm::Aes256Gcm>::try_from(nonce).ok()?;
    cipher.decrypt(&nonce, ciphertext).ok()
}

/// Relies on rand::rng's fill_bytes: only that it fills the buffer to the
/// nonce width; nothing is assumed about the values drawn.
#[verifier::external_body]
fn random_nonce() -> (r: Vec<u8>)
    ensures
        r@.len() == NONCE_LEN,
{
    let mut buf = vec![0u8; NONCE_LEN];
    rand::rng().fill_bytes(&mut buf);
    buf
}

/// Relies on String::from_utf8: succeeds exactly on valid UTF-8 and returns
/// the string those bytes encode.
#[verifier::external_body]
fn bytes_to_string(bytes: Vec<u8>) -> (r: Option<String>)
    ensures
        r is Some <==> valid_utf8(bytes@),
        r matches Some(s) ==> s@ == decode_utf8(bytes@),
{
    String::from_utf8(bytes).ok()
}

/// Append every byte of `src` to `dst`.
fn push_all(dst: &mut Vec<u8>, src: &[u8])
    ensures
        final(dst)@ == old(dst)@ + src@,
{
    let ghost orig = dst@;
    for i in 0..src.len()
        invariant
            dst@ == orig + src@.subrange(0, i as int),
    {
        dst.push(src[i]);
        proof {
            assert(src@.subrange(0, i + 1) =~= src@.subrange(0, i as int).push(src@[i as int]));
            assert(orig + src@.subrange(0, i as int).push(src@[i as int]) =~= (orig + src@.subrange(
                0,
                i as int,
            )).push(src@[i as int]));
        }
    }
    proof {
        assert(src@.subrange(0, src@.len() as int) =~= src@);
    }
}

/// Compare two byte strings for equality by scanning all of both, without an
/// early exit on the first difference.
pub(crate) fn eq_bytes(a: &[u8], b: &[u8]) -> (r: bool)
    ensures
        r == (a@ == b@),
{
    if a.len() != b.len() {
        return false;
    }
    let mut diff: u8 = 0;
    for i in 0..a.len()
        invariant
            a@.len() == b@.len(),
            i <= a@.len(),
            (diff == 0) <==> (forall|j: int| 0 <= j < i ==> a@[j] == b@[j]),
    {
        let x = a[i];
        let y = b[i];
        proof {
            assert((diff | (x ^ y)) == 0 <==> diff == 0 && (x ^ y) == 0) by (bit_vector);
            assert((x ^ y) == 0 <==> x == y) by (bit_vector);
        }
        diff = diff | (x ^ y);
    }
    if diff == 0 {
        proof {
            assert(a@ =~= b@);
        }
        true
    } else {
        proof {
            assert(a@ != b@) by {
                if a@ == b@ {
                    assert(forall|j: int| 0 <= j < a@.len() ==> a@[j] == b@[j]);
                }
            }
        }
        false
    }
}

/// The digest of a command's bytes, as stored in the front of its envelope.
pub fn generate_hash(data: &str) -> (r: Vec<u8>)
    ensures
        r@ == blake3_of(encode_utf8(data@)),
        r@.len() == HASH_LEN,
{
    blake3_digest(data.as_bytes())
}

/// What it means for `env` to be the envelope that seals plaintext `pt` under
/// `key` and `nonce`: the fixed layout, together with the cipher facts that
/// hold of every ciphertext the cipher actually produced.
pub open spec fn sealed_envelope(key: Seq<u8>, nonce: Seq<u8>, pt: Seq<u8>, env: Seq<u8>) -> bool {
    &&& nonce.len() == NONCE_LEN
    &&& blake3_of(pt).len() == HASH_LEN
    &&& aead_encrypt(key, nonce, pt).len() == pt.len() + TAG_LEN
    &&& aead_decrypt(key, nonce, aead_encrypt(key, nonce, pt)) == Some(pt)
    &&& env == blake3_of(pt) + nonce + aead_encrypt(key, nonce, pt)
}

/// Build the envelope for `cmd` under `key` with a caller-supplied nonce.
/// The deterministic core of `encrypt_command_with_integrity`; the nonce must
/// be fresh for this key.
pub fn encrypt_with_nonce(cmd: &str, key: &[u8], nonce: &[u8]) -> (r: Vec<u8>)
    requires
        key@.len() == KEY_LEN,
        nonce@.len() == NONCE_LEN,
        encode_utf8(cmd@).len() <= PLAINTEXT_MAX,
    ensures
        sealed_envelope(key@, nonce@, encode_utf8(cmd@), r@),
        r@.len() == encode_utf8(cmd@).len() + ENVELOPE_MIN,
{
    let pt = cmd.as_bytes();
    let hash = blake3_digest(pt);
    let ct = aead_seal(key, nonce, pt).unwrap();
    let mut env: Vec<u8> = Vec::new();
    push_all(&mut env, hash.as_slice());
    push_all(&mut env, nonce);
    push_all(&mut env, ct.as_slice());
    env
}

/// Seal `cmd` under `key` with a freshly drawn random nonce: digest, nonce
/// and ciphertext concatenated into one envelope.
pub fn encrypt_command_with_integrity(cmd: &str, key: &[u8]) -> (r: Vec<u8>)
    requires
        key@.len() == KEY_LEN,
        encode_utf8(cmd@).len() <= PLAINTEXT_MAX,
    ensures
        exists|nonce: Seq<u8>| sealed_envelope(key@, nonce, encode_utf8(cmd@), r@),
        r@.len() == encode_utf8(cmd@).len() + ENVELOPE_MIN,
{
    let nonce = random_nonce();
    let r = encrypt_with_nonce(cmd, key, nonce.as_slice());
    proof {
        assert(sealed_envelope(key@, nonce@, encode_utf8(cmd@), r@));
    }
    r
}

/// What decoding yields on any byte sequence and key: the command sealed in
/// it, or the exact rejection.
pub open spec fn decode_spec(data: Seq<u8>, key: Seq<u8>) -> Result<Seq<char>, IntegrityError> {
    if data.len() < ENVELOPE_MIN {
        Err(IntegrityError::MalformedEnvelope)
    } else {
        let tag = data.subrange(0, HASH_LEN as int);
        let nonce = data.subrange(HASH_LEN as int, (HASH_LEN + NONCE_LEN) as int);
        let ct = data.subrange((HASH_LEN + NONCE_LEN) as int, data.len() as int);
        match aead_decrypt(key, nonce, ct) {
            None => Err(IntegrityError::CryptographicTamper),
            Some(pt) => if !valid_utf8(pt) {
                Err(IntegrityError::MalformedEnvelope)
            } else if blake3_of(pt) != tag {
                Err(IntegrityError::IntegrityMismatch)
            } else {
                Ok(decode_utf8(pt))
            },
        }
    }
}

/// Open an envelope under `key`: reject byte sequences too short to be an
/// envelope, then let the cipher authenticate the ciphertext, then check the
/// stored digest against the recovered plaintext; only when all agree is the
/// command returned.
pub fn decrypt_command_with_integrity(data: &[u8], key: &[u8]) -> (r: Result<
    String,
    IntegrityError,
>)
    requires
        key@.len() == KEY_LEN,
    ensures
        res_view(r) == decode_spec(data@, key@),
{
    if data.len() < ENVELOPE_MIN {
        return Err(IntegrityError::MalformedEnvelope);
    }
    let tag = &data[0..HASH_LEN];
    let nonce = &data[HASH_LEN..HASH_LEN + NONCE_LEN];
    let ct = &data[HASH_LEN + NONCE_LEN..data.len()];
    match aead_open(key, nonce, ct) {
        None => Err(IntegrityError::CryptographicTamper),
        Some(pt) => {
            let recomputed = blake3_digest(pt.as_slice());
            match bytes_to_string(pt) {
                None => Err(IntegrityError::MalformedEnvelope),
                Some(s) => {
                    if !eq_bytes(recomputed.as_slice(), tag) {
                        Err(IntegrityError::IntegrityMismatch)
                    } else {
                        Ok(s)
                    }
                },
            }
        },
    }
}

/// What it means for `out` to be the plain packet (no digest field) that
/// seals plaintext `pt` under `key` and `nonce`.
pub open spec fn sealed_plain(key: Seq<u8>, nonce: Seq<u8>, pt: Seq<u8>, out: Seq<u8>) -> bool {
    &&& nonce.len() == NONCE_LEN
    &&& aead_encrypt(key, nonce, pt).len() == pt.len() + TAG_LEN
    &&& aead_decrypt(key, nonce, aead_encrypt(key, nonce, pt)) == Some(pt)
    &&& out == nonce + aead_encrypt(key, nonce, pt)
}

/// Seal `cmd` under `key` without the digest field: a fresh random nonce
/// followed by the ciphertext.
pub fn encrypt_command(cmd: &str, key: &[u8]) -> (r: Vec<u8>)
    requires
        key@.len() == KEY_LEN,
        encode_utf8(cmd@).len() <= PLAINTEXT_MAX,
    ensures
        exists|nonce: Seq<u8>| sealed_plain(key@, nonce, encode_utf8(cmd@), r@),
        r@.len() == encode_utf8(cmd@).len() + NONCE_LEN + TAG_LEN,
{
    let nonce = random_nonce();
    let ct = aead_seal(key, nonce.as_slice(), cmd.as_bytes()).unwrap();
    let mut out: Vec<u8> = Vec::new();
    push_all(&mut out, nonce.as_slice());
    push_all(&mut out, ct.as_slice());
    proof {
        assert(sealed_plain(key@, nonce@, encode_utf8(cmd@), out@));
    }
    out
}

/// What decoding a plain packet yields on any byte sequence and key.
pub open spec fn plain_decode_spec(data: Seq<u8>, key: Seq<u8>) -> Result<
    Seq<char>,
    IntegrityError,
> {
    if data.len() < NONCE_LEN + TAG_LEN {
        Err(IntegrityError::MalformedEnvelope)
    } else {
        let nonce = data.subrange(0, NONCE_LEN as int);
        let ct = data.subrange(NONCE_LEN as int, data.len() as int);
        match aead_decrypt(key, nonce, ct) {
            None => Err(IntegrityError::CryptographicTamper),
            Some(pt) => if !valid_utf8(pt) {
                Err(IntegrityError::MalformedEnvelope)
            } else {
                Ok(decode_utf8(pt))
            },
        }
    }
}

/// Open a plain packet under `key`: the cipher's own tag is the only
/// integrity check on this path.
pub fn decrypt_command(data: &[u8], key: &[u8]) -> (r: Result<String, IntegrityError>)
    requires
        key@.len() == KEY_LEN,
    ensures
        res_view(r) == plain_decode_spec(data@, key@),
{
    if data.len() < NONCE_LEN + TAG_LEN {
        return Err(IntegrityError::MalformedEnvelope);
    }
    let nonce = &data[0..NONCE_LEN];
    let ct = &data[NONCE_LEN..data.len()];
    match aead_open(key, nonce, ct) {
        None => Err(IntegrityError::CryptographicTamper),
        Some(pt) => match bytes_to_string(pt) {
            None => Err(IntegrityError::MalformedEnvelope),
            Some(s) => Ok(s),
        },
    }
}

/// Round trip for the plain packet: decoding what `encrypt_command` sealed
/// yields the command back.
pub proof fn lemma_plain_round_trip(key: Seq<u8>, nonce: Seq<u8>, cmd: Seq<char>, out: Seq<u8>)
    requires
        sealed_plain(key, nonce, encode_utf8(cmd), out),
    ensures
        plain_decode_spec(out, key) == Ok::<Seq<char>, IntegrityError>(cmd),
{
    broadcast use vstd::utf8::encode_utf8_valid_utf8, vstd::utf8::encode_utf8_decode_utf8;

    let pt = encode_utf8(cmd);
    assert(out.subrange(0, NONCE_LEN as int) =~= nonce);
    assert(out.subrange(NONCE_LEN as int, out.len() as int) =~= aead_encrypt(key, nonce, pt));
}

/// Round trip: decoding any envelope that seals a command under a key yields
/// that command back, whatever nonce the encoder drew.
pub proof fn lemma_round_trip(key: Seq<u8>, nonce: Seq<u8>, cmd: Seq<char>, env: Seq<u8>)
    requires
        sealed_envelope(key, nonce, encode_utf8(cmd), env),
    ensures
        decode_spec(env, key) == Ok::<Seq<char>, IntegrityError>(cmd),
{
    broadcast use vstd::utf8::encode_utf8_valid_utf8, vstd::utf8::encode_utf8_decode_utf8;

    let pt = encode_utf8(cmd);
    let ct = aead_encrypt(key, nonce, pt);
    assert(env.len() == HASH_LEN + NONCE_LEN + pt.len() + TAG_LEN);
    assert(env.subrange(0, HASH_LEN as int) =~= blake3_of(pt));
    assert(env.subrange(HASH_LEN as int, (HASH_LEN + NONCE_LEN) as int) =~= nonce);
    assert(env.subrange((HASH_LEN + NONCE_LEN) as int, env.len() as int) =~= ct);
}

/// Tamper detection for the digest region: altering any single byte of the
/// stored digest of a well-formed envelope makes decoding fail; the sealed
/// command is never released.
pub proof fn lemma_digest_tamper_detected(
    key: Seq<u8>,
    nonce: Seq<u8>,
    cmd: Seq<char>,
    env: Seq<u8>,
    tampered: Seq<u8>,
    i: int,
)
    requires
        sealed_envelope(key, nonce, encode_utf8(cmd), env),
        tampered.len() == env.len(),
        0 <= i < HASH_LEN,
        tampered[i] != env[i],
        forall|j: int| 0 <= j < env.len() && j != i ==> tampered[j] == env[j],
    ensures
        decode_spec(tampered, key) == Err::<Seq<char>, IntegrityError>(
            IntegrityError::IntegrityMismatch,
        ),
{
    broadcast use vstd::utf8::encode_utf8_valid_utf8;

    let pt = encode_utf8(cmd);
    let ct = aead_encrypt(key, nonce, pt);
    assert(env.len() == HASH_LEN + NONCE_LEN + pt.len() + TAG_LEN);
    assert(env.subrange(0, HASH_LEN as int) =~= blake3_of(pt));
    assert(tampered.subrange(HASH_LEN as int, (HASH_LEN + NONCE_LEN) as int) =~= nonce);
    assert(tampered.subrange((HASH_LEN + NONCE_LEN) as int, tampered.len() as int) =~= ct);
    assert(tampered.subrange(0, HASH_LEN as int)[i] != blake3_of(pt)[i]);
}

/// Tamper evidence for the regions after the digest: if an envelope altered
/// anywhere outside its digest region still decodes successfully, the
/// released command's digest equals the sealed command's digest — a command
/// with a different digest is never released.
pub proof fn lemma_ciphertext_tamper_never_new_digest(
    key: Seq<u8>,
    nonce: Seq<u8>,
    cmd: Seq<char>,
    env: Seq<u8>,
    tampered: Seq<u8>,
    out: Seq<char>,
)
    requires
        sealed_envelope(key, nonce, encode_utf8(cmd), env),
        tampered.len() == env.len(),
        forall|j: int| 0 <= j < HASH_LEN ==> tampered[j] == env[j],
        decode_spec(tampered, key) == Ok::<Seq<char>, IntegrityError>(out),
    ensures
        blake3_of(encode_utf8(out)) == blake3_of(encode_utf8(cmd)),
{
    broadcast use vstd::utf8::decode_utf8_encode_utf8;

    let pt = encode_utf8(cmd);
    assert(env.len() == HASH_LEN + NONCE_LEN + pt.len() + TAG_LEN);
    assert(tampered.subrange(0, HASH_LEN as int) =~= blake3_of(pt));
    let nonce2 = tampered.subrange(HASH_LEN as int, (HASH_LEN + NONCE_LEN) as int);
    let ct2 = tampered.subrange((HASH_LEN + NONCE_LEN) as int, tampered.len() as int);
    let pt2 = aead_decrypt(key, nonce2, ct2)->0;
    assert(valid_utf8(pt2) && out == decode_utf8(pt2));
    assert(encode_utf8(out) == pt2);
    assert(blake3_of(pt2) == tampered.subrange(0, HASH_LEN as int));
}

/// Nonce distinctness: two envelopes sealed under distinct nonces are
/// distinct byte sequences, and differ in their nonce regions in particular.
pub proof fn lemma_distinct_nonces(
    key: Seq<u8>,
    nonce1: Seq<u8>,
    nonce2: Seq<u8>,
    pt1: Seq<u8>,
    pt2: Seq<u8>,
    env1: Seq<u8>,
    env2: Seq<u8>,
)
    requires
        sealed_envelope(key, nonce1, pt1, env1),
        sealed_envelope(key, nonce2, pt2, env2),
        nonce1 != nonce2,
    ensures
        env1.subrange(HASH_LEN as int, (HASH_LEN + NONCE_LEN) as int) != env2.subrange(
            HASH_LEN as int,
            (HASH_LEN + NONCE_LEN) as int,
        ),
        env1 != env2,
{
    assert(env1.subrange(HASH_LEN as int, (HASH_LEN + NONCE_LEN) as int) =~= nonce1);
    assert(env2.subrange(HASH_LEN as int, (HASH_LEN + NONCE_LEN) as int) =~= nonce2);
}

} // verus!
