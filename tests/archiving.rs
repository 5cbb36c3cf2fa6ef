use std::io::Write;

use flate2::write::GzEncoder;
use flate2::Compression;
use jenc::archive::{check_entries, pack_entries, path_is_safe, unpack_stream, ArchiveEntry, EntryKind};
use jenc::pipeline::{ends_with_sealed_suffix, get_mode, jenc_decrypt, jenc_encrypt, sealed_path, JencMode};
use jenc::JencError;

fn file(path: &str, data: &[u8]) -> ArchiveEntry {
    ArchiveEntry { path: path.as_bytes().to_vec(), kind: EntryKind::File, data: data.to_vec() }
}

fn dir(path: &str) -> ArchiveEntry {
    ArchiveEntry { path: path.as_bytes().to_vec(), kind: EntryKind::Directory, data: Vec::new() }
}

fn tree() -> Vec<ArchiveEntry> {
    vec![file("a.txt", b"hi"), dir("sub"), file("sub/b.txt", b"bye"), dir("sub/empty")]
}

fn gz(b: &[u8]) -> Vec<u8> {
    let mut e = GzEncoder::new(Vec::new(), Compression::default());
    e.write_all(b).unwrap();
    e.finish().unwrap()
}

/// A tar stream with one file entry whose stored name is `name`, written
/// byte for byte so that no writer-side check applies.
fn raw_tar_with_name(name: &[u8], data: &[u8]) -> Vec<u8> {
    let mut h = tar::Header::new_old();
    h.as_old_mut().name[..name.len()].copy_from_slice(name);
    h.set_size(data.len() as u64);
    h.set_mode(0o644);
    h.set_entry_type(tar::EntryType::Regular);
    h.set_cksum();
    let mut out = h.as_bytes().to_vec();
    let mut body = data.to_vec();
    body.resize((data.len() + 511) / 512 * 512, 0);
    out.extend_from_slice(&body);
    out.extend_from_slice(&[0u8; 1024]);
    out
}

#[test]
fn concrete_tree_scenario() {
    let entries = tree();
    let c = jenc_encrypt(&entries, b"pw", 6).unwrap();
    assert_eq!(c[0], 6);
    let back = jenc_decrypt(&c, b"pw").unwrap();
    assert_eq!(back, entries);
    assert_eq!(jenc_decrypt(&c, b"wrong"), Err(JencError::Authentication));
}

#[test]
fn pack_unpack_round_trip() {
    let entries = vec![
        dir("top"),
        file("top/x.bin", &[0u8, 1, 2, 255]),
        dir("top/deep"),
        dir("top/deep/deeper"),
        file("top/deep/deeper/empty.txt", b""),
        dir("top/void"),
    ];
    let s = pack_entries(&entries).unwrap();
    assert_eq!(&s[..2], &[0x1f, 0x8b]);
    let long = format!("{}/{}", "d".repeat(120), "f".repeat(150));
    let with_long = vec![file(&long, b"deep")];
    assert_eq!(unpack_stream(&pack_entries(&with_long).unwrap()).unwrap(), with_long);
    assert_eq!(unpack_stream(&s).unwrap(), entries);
}

#[test]
fn pack_empty_list() {
    let s = pack_entries(&Vec::new()).unwrap();
    assert_eq!(unpack_stream(&s).unwrap(), Vec::<ArchiveEntry>::new());
}

#[test]
fn pack_is_compressed() {
    let big = vec![b'a'; 100_000];
    let s = pack_entries(&vec![file("big.txt", &big)]).unwrap();
    assert!(s.len() < 10_000);
    assert_eq!(unpack_stream(&s).unwrap(), vec![file("big.txt", &big)]);
}

#[test]
fn traversal_entry_is_rejected_on_unpack() {
    let stream = gz(&raw_tar_with_name(b"../evil.txt", b"boom"));
    assert_eq!(unpack_stream(&stream), Err(JencError::UnsafeEntryPath));
    let stream = gz(&raw_tar_with_name(b"ok/../../evil.txt", b"boom"));
    assert_eq!(unpack_stream(&stream), Err(JencError::UnsafeEntryPath));
    let stream = gz(&raw_tar_with_name(b"/etc/evil", b"boom"));
    assert_eq!(unpack_stream(&stream), Err(JencError::UnsafeEntryPath));
    let stream = gz(&raw_tar_with_name(b"fine.txt", b"ok"));
    assert_eq!(unpack_stream(&stream).unwrap(), vec![file("fine.txt", b"ok")]);
}

#[test]
fn unsafe_entry_is_rejected_on_pack() {
    assert_eq!(pack_entries(&vec![file("../x", b"1")]), Err(JencError::UnsafeEntryPath));
    assert_eq!(pack_entries(&vec![file("/abs", b"1")]), Err(JencError::UnsafeEntryPath));
    let other = ArchiveEntry { path: b"link".to_vec(), kind: EntryKind::Other, data: Vec::new() };
    assert_eq!(pack_entries(&vec![other.clone()]), Err(JencError::UnsupportedEntry));
    assert_eq!(check_entries(&vec![other, file("..", b"")]), Err(JencError::UnsafeEntryPath));
    assert_eq!(jenc_encrypt(&vec![file("a/../../b", b"")], b"pw", 5), Err(JencError::UnsafeEntryPath));
    assert_eq!(pack_entries(&vec![file("a/./b", b"1")]), Err(JencError::UnsafeEntryPath));
    assert_eq!(pack_entries(&vec![dir("d/")]), Err(JencError::UnsafeEntryPath));
    let not_utf8 = ArchiveEntry { path: vec![0xff, b'a'], kind: EntryKind::File, data: Vec::new() };
    assert_eq!(pack_entries(&vec![not_utf8]), Err(JencError::Archive));
}

#[test]
fn symlink_entry_is_unsupported() {
    let mut h = tar::Header::new_gnu();
    h.set_entry_type(tar::EntryType::Symlink);
    h.set_size(0);
    h.set_mode(0o777);
    let mut b = tar::Builder::new(Vec::new());
    b.append_link(&mut h, "l", "target").unwrap();
    let t = b.into_inner().unwrap();
    assert_eq!(unpack_stream(&gz(&t)), Err(JencError::UnsupportedEntry));
}

#[test]
fn garbage_stream_is_an_archive_error() {
    assert_eq!(unpack_stream(b"not gzip at all"), Err(JencError::Archive));
    assert_eq!(unpack_stream(&[]), Err(JencError::Archive));
}

#[test]
fn path_safety() {
    assert!(path_is_safe(b"a.txt"));
    assert!(path_is_safe(b"sub/b.txt"));
    assert!(path_is_safe(b"..a/b.."));
    assert!(path_is_safe(b"a/.../b"));
    assert!(!path_is_safe(b"./a"));
    assert!(!path_is_safe(b"a/./b"));
    assert!(!path_is_safe(b"a/."));
    assert!(!path_is_safe(b"a//b"));
    assert!(!path_is_safe(b"a/"));
    assert!(!path_is_safe(b"a\0b"));
    assert!(path_is_safe(b".a/b."));
    assert!(!path_is_safe(b""));
    assert!(!path_is_safe(b".."));
    assert!(!path_is_safe(b"../a"));
    assert!(!path_is_safe(b"a/.."));
    assert!(!path_is_safe(b"a/../b"));
    assert!(!path_is_safe(b"/a"));
}

#[test]
fn mode_detection() {
    assert_eq!(get_mode("x.jenc", &false, &false, true), JencMode::Decrypt);
    assert_eq!(get_mode("x.jenc", &false, &false, false), JencMode::Encrypt);
    assert_eq!(get_mode("x.txt", &false, &false, true), JencMode::Encrypt);
    assert_eq!(get_mode("x.jenc", &true, &false, true), JencMode::Encrypt);
    assert_eq!(get_mode("x.txt", &false, &true, true), JencMode::Decrypt);
    assert_eq!(get_mode("jenc", &false, &false, true), JencMode::Encrypt);
    assert_eq!(get_mode(".jenc", &false, &false, true), JencMode::Decrypt);
}

#[test]
fn sealed_names() {
    assert_eq!(sealed_path("notes.txt"), "notes.txt.jenc");
    assert_eq!(sealed_path("dir"), "dir.jenc");
    assert!(ends_with_sealed_suffix(sealed_path("dir").as_bytes()));
    assert!(!ends_with_sealed_suffix(b"dir.jen"));
}

#[test]
fn encrypt_rejects_cost_before_packing() {
    let bad = vec![file("../x", b"")];
    assert_eq!(jenc_encrypt(&bad, b"pw", 4), Err(JencError::InvalidParameter));
    assert_eq!(jenc_encrypt(&tree(), b"pw", 32), Err(JencError::InvalidParameter));
}

#[test]
fn decrypt_short_container_is_malformed() {
    assert_eq!(jenc_decrypt(&[1, 2, 3], b"pw"), Err(JencError::MalformedContainer));
}
