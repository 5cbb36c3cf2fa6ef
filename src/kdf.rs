use vstd::prelude::*;

use crate::bytes::copy_range;
use crate::error::JencError;

verus! {

/// The smallest work factor accepted.
pub const MIN_COST: u8 = 5;
/// The largest work factor accepted.
pub const MAX_COST: u8 = 31;
/// Length of the salt mixed into the derivation.
pub const SALT_LEN: usize = 16;
/// Length of a derived key: 256 bits.
pub const KEY_LEN: usize = 32;
/// Length of a bcrypt hash in its textual `$2b$` form.
pub const BCRYPT_HASH_LEN: usize = 60;

/// The bytes of the textual bcrypt hash (`$2b$` form) of `password` under
/// `cost` and `salt`.
pub uninterp spec fn bcrypt_hash_of(password: Seq<u8>, cost: u32, salt: Seq<u8>) -> Seq<u8>;

pub open spec fn cost_ok(cost: u8) -> bool {
    MIN_COST <= cost <= MAX_COST
}

/// The key: the last 32 bytes of the bcrypt hash string of the password,
/// that is the hash's 31 base64 characters and the salt character before
/// them. bcrypt yields 23 bytes of output, so the 256-bit key carries at
/// most 184 bits of it; the work factor, not the key length, is what
/// stands against guessing the password. bcrypt reads at most the first 72
/// bytes of a password.
pub open spec fn key_of(password: Seq<u8>, cost: u8, salt: Seq<u8>) -> Seq<u8> {
    bcrypt_hash_of(password, cost as u32, salt).subrange(
        BCRYPT_HASH_LEN - KEY_LEN,
        BCRYPT_HASH_LEN as int,
    )
}

/// Relies on bcrypt::hash_with_salt_bytes: for a cost in 4..=31 it returns
/// the 60 bytes of the `$2b$` hash string; it fails only on a cost out of
/// that range. Passwords past 72 bytes are truncated by bcrypt.
#[verifier::external_body]
fn bcrypt_hash(password: &[u8], cost: u32, salt: &[u8]) -> (r: Option<Vec<u8>>)
    requires
        salt@.len() == SALT_LEN,
    ensures
        4 <= cost <= 31 ==> r is Some,
        r matches Some(h) ==> h@ == bcrypt_hash_of(password@, cost, salt@) && h@.len()
            == BCRYPT_HASH_LEN,
{
    let salt: [u8; 16] = salt.try_into().unwrap();
    bcrypt::hash_with_salt_bytes(password, cost, salt).ok().map(|h| h.to_vec())
}

/// Whether `cost` lies in the accepted range `5..=31`.
pub fn cost_in_bounds(cost: u8) -> (r: bool)
    ensures
        r == cost_ok(cost),
{
    MIN_COST <= cost && cost <= MAX_COST
}

/// Derives the 256-bit key for `password` under `cost` and `salt`.
///
/// A cost out of range is rejected before any hashing is done.
pub fn derive_key(password: &[u8], cost: u8, salt: &[u8]) -> (r: Result<Vec<u8>, JencError>)
    requires
        salt@.len() == SALT_LEN,
    ensures
        !cost_ok(cost) ==> r == Err::<Vec<u8>, JencError>(JencError::InvalidParameter),
        cost_ok(cost) ==> (r matches Ok(k) && k@ == key_of(password@, cost, salt@)),
        r matches Ok(k) ==> k@.len() == KEY_LEN,
{
    if !cost_in_bounds(cost) {
        return Err(JencError::InvalidParameter);
    }
    match bcrypt_hash(password, cost as u32, salt) {
        Some(h) => Ok(copy_range(h.as_slice(), BCRYPT_HASH_LEN - KEY_LEN, BCRYPT_HASH_LEN)),
        None => Err(JencError::KeyDerivation),
    }
}

} // verus!
