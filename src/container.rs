use vstd::prelude::*;

use aes_gcm_siv::aead::{Aead, KeyInit, Payload};
use aes_gcm_siv::{Aes256GcmSiv, Nonce};
use rand::RngCore;

use crate::bytes::{copy_range, push_all};
use crate::error::JencError;
use crate::kdf::{cost_ok, derive_key, key_of, KEY_LEN, SALT_LEN};

verus! {

/// Length of the nonce: 96 bits.
pub const NONCE_LEN: usize = 12;
/// Length of the authentication tag the cipher appends.
pub const TAG_LEN: usize = 16;
/// Length of the header: cost byte, salt, nonce.
pub const HEADER_LEN: usize = 29;
/// The shortest well-formed container: a header and a bare tag.
pub const MIN_CONTAINER_LEN: usize = 45;
/// The longest plaintext the cipher accepts.
pub const MAX_PLAINTEXT_LEN: u64 = 0x10_0000_0000;

/// The AES-256-GCM-SIV ciphertext, tag appended, of `plaintext` under `key`,
/// `nonce` and associated data `aad`.
pub uninterp spec fn aead_seal_of(key: Seq<u8>, nonce: Seq<u8>, aad: Seq<u8>, plaintext: Seq<u8>) -> Seq<u8>;

/// What AES-256-GCM-SIV decryption of `ciphertext` gives under `key`,
/// `nonce` and `aad`: the plaintext, or `None` when authentication fails.
pub uninterp spec fn aead_open_of(key: Seq<u8>, nonce: Seq<u8>, aad: Seq<u8>, ciphertext: Seq<u8>) -> Option<Seq<u8>>;

/// The header: the cost byte, then the salt, then the nonce. It is also
/// the associated data the cipher authenticates.
pub open spec fn header_of(cost: u8, salt: Seq<u8>, nonce: Seq<u8>) -> Seq<u8> {
    seq![cost] + salt + nonce
}

/// A container: the header followed by the ciphertext with its tag.
pub open spec fn container_of(cost: u8, salt: Seq<u8>, nonce: Seq<u8>, body: Seq<u8>) -> Seq<u8> {
    header_of(cost, salt, nonce) + body
}

/// The outcome of sealing `plaintext` under `password` and `cost`, with
/// the given salt and nonce.
pub open spec fn seal_spec(
    plaintext: Seq<u8>,
    password: Seq<u8>,
    cost: u8,
    salt: Seq<u8>,
    nonce: Seq<u8>,
) -> Result<Seq<u8>, JencError> {
    if !cost_ok(cost) || plaintext.len() > MAX_PLAINTEXT_LEN {
        Err(JencError::InvalidParameter)
    } else {
        let key = key_of(password, cost, salt);
        let header = header_of(cost, salt, nonce);
        Ok(container_of(cost, salt, nonce, aead_seal_of(key, nonce, header, plaintext)))
    }
}

pub open spec fn salt_part(c: Seq<u8>) -> Seq<u8> {
    c.subrange(1, 1 + SALT_LEN)
}

pub open spec fn nonce_part(c: Seq<u8>) -> Seq<u8> {
    c.subrange(1 + SALT_LEN, HEADER_LEN as int)
}

pub open spec fn body_part(c: Seq<u8>) -> Seq<u8> {
    c.subrange(HEADER_LEN as int, c.len() as int)
}

/// Whether `c` has the shape of a container: long enough for a header and
/// a tag, with a cost in range.
pub open spec fn well_formed(c: Seq<u8>) -> bool {
    c.len() >= MIN_CONTAINER_LEN && cost_ok(c[0])
}

/// The outcome of opening container `c` under `password`.
pub open spec fn open_spec(c: Seq<u8>, password: Seq<u8>) -> Result<Seq<u8>, JencError> {
    if !well_formed(c) {
        Err(JencError::MalformedContainer)
    } else {
        let key = key_of(password, c[0], salt_part(c));
        match aead_open_of(key, nonce_part(c), c.subrange(0, HEADER_LEN as int), body_part(c)) {
            Some(p) => Ok(p),
            None => Err(JencError::Authentication),
        }
    }
}

/// Relies on aes_gcm_siv's `Aead::encrypt` for `Aes256GcmSiv`: with a
/// 32-byte key and a 12-byte nonce it fails only when the plaintext or the
/// associated data exceed 2^36 bytes, and appends a 16-byte tag;
/// `Aead::decrypt` recomputes that tag and gives the plaintext back.
#[verifier::external_body]
fn aead_encrypt(key: &[u8], nonce: &[u8], aad: &[u8], plaintext: &[u8]) -> (r: Option<Vec<u8>>)
    requires
        key@.len() == KEY_LEN,
        nonce@.len() == NONCE_LEN,
    ensures
        plaintext@.len() <= MAX_PLAINTEXT_LEN && aad@.len() <= MAX_PLAINTEXT_LEN ==> r is Some,
        r matches Some(c) ==> c@ == aead_seal_of(key@, nonce@, aad@, plaintext@) && c@.len()
            == plaintext@.len() + TAG_LEN,
        r matches Some(c) ==> aead_open_of(key@, nonce@, aad@, c@) == Some(plaintext@),
{
    let cipher = Aes256GcmSiv::new_from_slice(key).unwrap();
    let nonce = Nonce::try_from(nonce).unwrap();
    cipher.encrypt(&nonce, Payload { msg: plaintext, aad }).ok()
}

/// Relies on aes_gcm_siv's `Aead::decrypt` for `Aes256GcmSiv`: the
/// plaintext, or an error when the tag does not authenticate.
#[verifier::external_body]
fn aead_decrypt(key: &[u8], nonce: &[u8], aad: &[u8], ciphertext: &[u8]) -> (r: Option<Vec<u8>>)
    requires
        key@.len() == KEY_LEN,
        nonce@.len() == NONCE_LEN,
    ensures
        match r {
            Some(p) => aead_open_of(key@, nonce@, aad@, ciphertext@) == Some(p@),
            None => aead_open_of(key@, nonce@, aad@, ciphertext@) is None,
        },
{
    let cipher = Aes256GcmSiv::new_from_slice(key).unwrap();
    let nonce = Nonce::try_from(nonce).unwrap();
    cipher.decrypt(&nonce, Payload { msg: ciphertext, aad }).ok()
}

/// Relies on rand's `thread_rng().fill_bytes`: `len` bytes from a
/// cryptographically secure generator.
#[verifier::external_body]
fn random_bytes(len: usize) -> (r: Vec<u8>)
    ensures
        r@.len() == len,
{
    let mut v: Vec<u8> = vec![0u8; len];
    rand::thread_rng().fill_bytes(&mut v);
    v
}

/// Builds the header for `cost`, `salt` and `nonce`.
fn make_header(cost: u8, salt: &[u8], nonce: &[u8]) -> (r: Vec<u8>)
    ensures
        r@ == header_of(cost, salt@, nonce@),
{
    let mut h: Vec<u8> = Vec::new();
    h.push(cost);
    push_all(&mut h, salt);
    push_all(&mut h, nonce);
    proof {
        assert(h@ == header_of(cost, salt@, nonce@));
    }
    h
}

/// Seals `plaintext` under `password` and `cost` with the given salt and
/// nonce, which must be fresh random values.
pub fn seal_with(
    plaintext: &[u8],
    password: &[u8],
    cost: u8,
    salt: &[u8],
    nonce: &[u8],
) -> (r: Result<Vec<u8>, JencError>)
    requires
        salt@.len() == SALT_LEN,
        nonce@.len() == NONCE_LEN,
    ensures
        match r {
            Ok(c) => seal_spec(plaintext@, password@, cost, salt@, nonce@) == Ok::<Seq<u8>, JencError>(c@),
            Err(e) => seal_spec(plaintext@, password@, cost, salt@, nonce@) == Err::<Seq<u8>, JencError>(e),
        },
        r matches Ok(c) ==> c@.len() == HEADER_LEN + plaintext@.len() + TAG_LEN,
        r matches Ok(c) ==> open_spec(c@, password@) == Ok::<Seq<u8>, JencError>(plaintext@),
{
    if (plaintext.len() as u64) > MAX_PLAINTEXT_LEN {
        return Err(JencError::InvalidParameter);
    }
    let key = match derive_key(password, cost, salt) {
        Ok(k) => k,
        Err(e) => return Err(e),
    };
    let header = make_header(cost, salt, nonce);
    match aead_encrypt(key.as_slice(), nonce, header.as_slice(), plaintext) {
        Some(body) => {
            let mut c = header;
            push_all(&mut c, body.as_slice());
            proof {
                lemma_container_parts(cost, salt@, nonce@, body@);
            }
            Ok(c)
        },
        None => Err(JencError::InvalidParameter),
    }
}

/// Seals `plaintext` under `password` and `cost`, drawing a fresh random
/// salt and nonce.
///
/// A cost outside `5..=31` is rejected before any random draw or hashing.
pub fn seal(plaintext: &[u8], password: &[u8], cost: u8) -> (r: Result<Vec<u8>, JencError>)
    ensures
        !cost_ok(cost) ==> r == Err::<Vec<u8>, JencError>(JencError::InvalidParameter),
        plaintext@.len() > MAX_PLAINTEXT_LEN ==> r == Err::<Vec<u8>, JencError>(
            JencError::InvalidParameter,
        ),
        cost_ok(cost) && plaintext@.len() <= MAX_PLAINTEXT_LEN ==> r is Ok,
        r matches Ok(c) ==> c@.len() == HEADER_LEN + plaintext@.len() + TAG_LEN,
        r matches Ok(c) ==> open_spec(c@, password@) == Ok::<Seq<u8>, JencError>(plaintext@),
        r matches Ok(c) ==> exists|salt: Seq<u8>, nonce: Seq<u8>|
            salt.len() == SALT_LEN && nonce.len() == NONCE_LEN && seal_spec(
                plaintext@,
                password@,
                cost,
                salt,
                nonce,
            ) == Ok::<Seq<u8>, JencError>(c@),
{
    if !crate::kdf::cost_in_bounds(cost) {
        return Err(JencError::InvalidParameter);
    }
    let salt = random_bytes(SALT_LEN);
    let nonce = random_bytes(NONCE_LEN);
    let r = seal_with(plaintext, password, cost, salt.as_slice(), nonce.as_slice());
    proof {
        if r is Ok {
            assert(seal_spec(plaintext@, password@, cost, salt@, nonce@) == Ok::<Seq<u8>, JencError>(r->Ok_0@));
        }
    }
    r
}

/// Opens `container` under `password`.
///
/// A container too short for a header and a tag, or whose cost byte is out
/// of range, is malformed and is rejected before any key derivation. Any
/// failure to authenticate gives the one error `Authentication`.
pub fn open(container: &[u8], password: &[u8]) -> (r: Result<Vec<u8>, JencError>)
    ensures
        match r {
            Ok(p) => open_spec(container@, password@) == Ok::<Seq<u8>, JencError>(p@),
            Err(e) => open_spec(container@, password@) == Err::<Seq<u8>, JencError>(e),
        },
{
    if container.len() < MIN_CONTAINER_LEN {
        return Err(JencError::MalformedContainer);
    }
    let cost = container[0];
    if !crate::kdf::cost_in_bounds(cost) {
        return Err(JencError::MalformedContainer);
    }
    let salt = copy_range(container, 1, 1 + SALT_LEN);
    let nonce = copy_range(container, 1 + SALT_LEN, HEADER_LEN);
    let header = copy_range(container, 0, HEADER_LEN);
    let body = copy_range(container, HEADER_LEN, container.len());
    let key = match derive_key(password, cost, salt.as_slice()) {
        Ok(k) => k,
        Err(e) => return Err(e),
    };
    match aead_decrypt(key.as_slice(), nonce.as_slice(), header.as_slice(), body.as_slice()) {
        Some(p) => Ok(p),
        None => Err(JencError::Authentication),
    }
}

/// The header and the body of a container built from a cost, a salt, a
/// nonce and a body are read back unchanged.
pub proof fn lemma_container_parts(cost: u8, salt: Seq<u8>, nonce: Seq<u8>, body: Seq<u8>)
    requires
        salt.len() == SALT_LEN,
        nonce.len() == NONCE_LEN,
    ensures
        ({
            let c = container_of(cost, salt, nonce, body);
            &&& c[0] == cost
            &&& salt_part(c) == salt
            &&& nonce_part(c) == nonce
            &&& c.subrange(0, HEADER_LEN as int) == header_of(cost, salt, nonce)
            &&& body_part(c) == body
            &&& c.len() == HEADER_LEN + body.len()
        }),
{
    let c = container_of(cost, salt, nonce, body);
    assert(salt_part(c) =~= salt);
    assert(nonce_part(c) =~= nonce);
    assert(c.subrange(0, HEADER_LEN as int) =~= header_of(cost, salt, nonce));
    assert(body_part(c) =~= body);
}

/// Altering any one byte of a well-formed container changes what opening
/// hands the cipher: a byte of the cost, salt or nonce changes the
/// authenticated header, and a byte of the ciphertext or tag changes the
/// ciphertext; a cost byte moved out of range makes the container
/// malformed under every password.
pub proof fn lemma_tamper_changes_cipher_input(c: Seq<u8>, i: int, b: u8, password: Seq<u8>)
    requires
        well_formed(c),
        0 <= i < c.len(),
        b != c[i],
    ensures
        ({
            let t = c.update(i, b);
            &&& i < HEADER_LEN ==> t.subrange(0, HEADER_LEN as int) != c.subrange(0, HEADER_LEN as int)
            &&& i >= HEADER_LEN ==> body_part(t) != body_part(c)
            &&& i == 0 && !cost_ok(b) ==> open_spec(t, password) == Err::<Seq<u8>, JencError>(
                JencError::MalformedContainer,
            )
        }),
{
    let t = c.update(i, b);
    if i < HEADER_LEN {
        assert(t.subrange(0, HEADER_LEN as int)[i] != c.subrange(0, HEADER_LEN as int)[i]);
    } else {
        assert(body_part(t)[i - HEADER_LEN] != body_part(c)[i - HEADER_LEN]);
    }
}

} // verus!
