use vstd::prelude::*;

use crate::archive::{
    all_kinds_supported, all_tar_paths_ok, entries_view, pack_entries, pack_spec, unpack_spec,
    unpack_stream, ArchiveEntry, EntryView,
};
use crate::container::{
    open, open_spec, seal, seal_spec, HEADER_LEN, MAX_PLAINTEXT_LEN, NONCE_LEN, TAG_LEN,
};
use crate::error::JencError;
use crate::kdf::{cost_in_bounds, cost_ok, SALT_LEN};
use vstd::string::StringSliceAdditionalSpecFns;

verus! {

/// What a run does with its input.
#[derive(Debug, Clone, Copy, PartialEq, Eq, Structural)]
pub enum JencMode {
    Encrypt,
    Decrypt,
}

/// The suffix appended to the name of a sealed input.
pub open spec fn sealed_suffix() -> Seq<u8> {
    seq![46u8, 106u8, 101u8, 110u8, 99u8]
}

pub open spec fn has_sealed_suffix(name: Seq<u8>) -> bool {
    name.len() >= 5 && name.subrange(name.len() - 5, name.len() as int) == sealed_suffix()
}

/// The mode chosen for `name`: an explicit flag wins; with neither flag, an
/// existing file whose name ends in `.jenc` is decrypted and anything else
/// is encrypted.
pub open spec fn mode_of(name: Seq<u8>, encrypt_flag: bool, decrypt_flag: bool, is_file: bool) -> JencMode {
    if encrypt_flag {
        JencMode::Encrypt
    } else if decrypt_flag {
        JencMode::Decrypt
    } else if is_file && has_sealed_suffix(name) {
        JencMode::Decrypt
    } else {
        JencMode::Encrypt
    }
}

/// Whether the bytes of `name` end in `.jenc`.
pub fn ends_with_sealed_suffix(name: &[u8]) -> (r: bool)
    ensures
        r == has_sealed_suffix(name@),
{
    let n = name.len();
    if n < 5 {
        return false;
    }
    let r = name[n - 5] == 46u8 && name[n - 4] == 106u8 && name[n - 3] == 101u8 && name[n - 2]
        == 110u8 && name[n - 1] == 99u8;
    proof {
        let tail = name@.subrange(n - 5, n as int);
        if r {
            assert(tail =~= sealed_suffix());
        } else {
            assert(tail != sealed_suffix()) by {
                if tail == sealed_suffix() {
                    assert(tail[0] == 46u8 && tail[1] == 106u8 && tail[2] == 101u8);
                    assert(tail[3] == 110u8 && tail[4] == 99u8);
                }
            }
        }
    }
    r
}

/// Decides whether to encrypt or decrypt `file`. `is_file` tells whether
/// `file` names an existing regular file.
pub fn get_mode(file: &str, encrypt_flag: &bool, decrypt_flag: &bool, is_file: bool) -> (r: JencMode)
    ensures
        r == mode_of(file.spec_bytes(), *encrypt_flag, *decrypt_flag, is_file),
{
    if *encrypt_flag {
        JencMode::Encrypt
    } else if *decrypt_flag {
        JencMode::Decrypt
    } else if is_file && ends_with_sealed_suffix(file.as_bytes()) {
        JencMode::Decrypt
    } else {
        JencMode::Encrypt
    }
}

/// The name of the sealed artifact for input `path`: `path` with `.jenc`
/// appended.
pub fn sealed_path(path: &str) -> (r: String)
    ensures
        r@ == path@ + ".jenc"@,
{
    let mut r = String::from_str(path);
    r.append(".jenc");
    r
}

/// The outcome of opening `container` under `password` and unpacking the
/// plaintext.
pub open spec fn decrypt_spec(container: Seq<u8>, password: Seq<u8>) -> Result<Seq<EntryView>, JencError> {
    match open_spec(container, password) {
        Err(e) => Err(e),
        Ok(p) => unpack_spec(p),
    }
}

/// Packs `entries` and seals the stream under `password` and `cost`.
///
/// A cost outside `5..=31` is rejected before any packing or cryptographic
/// work. Otherwise the result is the packed stream sealed with a fresh salt
/// and nonce, which opens under `password` and unpacks to `entries`;
/// packing errors are passed on. Entries whose paths are safe and UTF-8 and
/// whose kinds are supported are sealed whenever the packed stream fits the
/// cipher.
pub fn jenc_encrypt(entries: &Vec<ArchiveEntry>, password: &[u8], cost: u8) -> (r: Result<Vec<u8>, JencError>)
    ensures
        cost_ok(cost) && all_tar_paths_ok(entries_view(entries@)) && all_kinds_supported(
            entries_view(entries@),
        ) && (pack_spec(entries_view(entries@)) matches Ok(s) && s.len() <= MAX_PLAINTEXT_LEN)
            ==> r is Ok,
        r matches Ok(c) ==> decrypt_spec(c@, password@) == Ok::<Seq<EntryView>, JencError>(
            entries_view(entries@),
        ),
        !cost_ok(cost) ==> r == Err::<Vec<u8>, JencError>(JencError::InvalidParameter),
        cost_ok(cost) ==> (pack_spec(entries_view(entries@)) matches Err(e) ==> r == Err::<
            Vec<u8>,
            JencError,
        >(e)),
        r matches Ok(c) ==> exists|stream: Seq<u8>, salt: Seq<u8>, nonce: Seq<u8>|
            pack_spec(entries_view(entries@)) == Ok::<Seq<u8>, JencError>(stream) && salt.len()
                == SALT_LEN && nonce.len() == NONCE_LEN && seal_spec(stream, password@, cost, salt, nonce)
                == Ok::<Seq<u8>, JencError>(c@) && c@.len() == HEADER_LEN + stream.len() + TAG_LEN,
        r matches Err(e) ==> e == JencError::InvalidParameter || e == JencError::Archive
            || pack_spec(entries_view(entries@)) == Err::<Seq<u8>, JencError>(e),
{
    if !cost_in_bounds(cost) {
        return Err(JencError::InvalidParameter);
    }
    let stream = match pack_entries(entries) {
        Ok(s) => s,
        Err(e) => return Err(e),
    };
    let r = seal(stream.as_slice(), password, cost);
    proof {
        if r is Ok {
            let c = r->Ok_0;
            let (salt, nonce) = choose|salt: Seq<u8>, nonce: Seq<u8>|
                salt.len() == SALT_LEN && nonce.len() == NONCE_LEN && seal_spec(stream@, password@, cost, salt, nonce)
                    == Ok::<Seq<u8>, JencError>(c@);
            assert(pack_spec(entries_view(entries@)) == Ok::<Seq<u8>, JencError>(stream@));
        }
    }
    r
}

/// Opens `container` under `password` and unpacks the plaintext into its
/// entries. On any failure no entry is returned; a wrong password and
/// altered bytes both give `Authentication`.
pub fn jenc_decrypt(container: &[u8], password: &[u8]) -> (r: Result<Vec<ArchiveEntry>, JencError>)
    ensures
        match r {
            Ok(v) => decrypt_spec(container@, password@) == Ok::<Seq<EntryView>, JencError>(entries_view(v@)),
            Err(e) => decrypt_spec(container@, password@) == Err::<Seq<EntryView>, JencError>(e),
        },
{
    let p = match open(container, password) {
        Ok(p) => p,
        Err(e) => return Err(e),
    };
    unpack_stream(p.as_slice())
}

} // verus!
