use vstd::prelude::*;

use flate2::read::GzDecoder;
use flate2::write::GzEncoder;
use flate2::Compression;
use std::io::{Read, Write};

use crate::error::JencError;
use vstd::utf8::valid_utf8;

verus! {

/// The byte `.`.
pub const DOT: u8 = 46;
/// The byte `/`, which separates path segments.
pub const SLASH: u8 = 47;
/// Permission bits recorded for files.
pub const FILE_MODE: u32 = 0o644;
/// Permission bits recorded for directories.
pub const DIR_MODE: u32 = 0o755;

/// What an archive entry is.
#[derive(Debug, Clone, Copy, PartialEq, Eq, Structural)]
pub enum EntryKind {
    File,
    Directory,
    /// Anything else an archive stream may hold (a link, a device); it is
    /// neither stored nor restored.
    Other,
}

/// One entry of an archive: a path relative to the archive root, its kind,
/// and its bytes (empty for a directory).
#[derive(Debug, Clone, PartialEq, Eq)]
pub struct ArchiveEntry {
    pub path: Vec<u8>,
    pub kind: EntryKind,
    pub data: Vec<u8>,
}

/// An entry as a plain value.
pub type EntryView = (Seq<u8>, EntryKind, Seq<u8>);

impl View for ArchiveEntry {
    type V = EntryView;

    open spec fn view(&self) -> EntryView {
        (self.path@, self.kind, self.data@)
    }
}

pub open spec fn entries_view(es: Seq<ArchiveEntry>) -> Seq<EntryView> {
    es.map_values(|e: ArchiveEntry| e@)
}

pub open spec fn segment_starts_at(p: Seq<u8>, i: int) -> bool {
    i == 0 || p[i - 1] == SLASH
}

pub open spec fn segment_ends_at(p: Seq<u8>, i: int) -> bool {
    i == p.len() || p[i] == SLASH
}

/// Whether a `..` segment starts at index `i` of path `p`.
pub open spec fn dotdot_at(p: Seq<u8>, i: int) -> bool {
    &&& 0 <= i && i + 2 <= p.len()
    &&& p[i] == DOT && p[i + 1] == DOT
    &&& segment_starts_at(p, i)
    &&& segment_ends_at(p, i + 2)
}

/// Whether a `.` segment starts at index `i` of path `p`.
pub open spec fn dot_at(p: Seq<u8>, i: int) -> bool {
    &&& 0 <= i && i + 1 <= p.len()
    &&& p[i] == DOT
    &&& segment_starts_at(p, i)
    &&& segment_ends_at(p, i + 1)
}

/// Whether an empty segment (two slashes in a row) starts at index `i`.
pub open spec fn empty_segment_at(p: Seq<u8>, i: int) -> bool {
    0 <= i && i + 1 < p.len() && p[i] == SLASH && p[i + 1] == SLASH
}

/// A path stays under the root it is resolved against and is stored and
/// read back byte for byte: it is not empty, neither starts nor ends with
/// `/`, holds no NUL byte, and has no `..`, `.` or empty segment.
pub open spec fn path_safe(p: Seq<u8>) -> bool {
    &&& p.len() > 0
    &&& p[0] != SLASH
    &&& p.last() != SLASH
    &&& forall|i: int| 0 <= i < p.len() ==> #[trigger] p[i] != 0
    &&& forall|i: int| !dotdot_at(p, i) && !dot_at(p, i) && !empty_segment_at(p, i)
}

/// A path that a tar archive holds exactly: safe, and valid UTF-8.
pub open spec fn tar_path_ok(p: Seq<u8>) -> bool {
    path_safe(p) && valid_utf8(p)
}

pub open spec fn all_tar_paths_ok(es: Seq<EntryView>) -> bool {
    forall|i: int| 0 <= i < es.len() ==> tar_path_ok(#[trigger] es[i].0)
}

pub open spec fn all_paths_safe(es: Seq<EntryView>) -> bool {
    forall|i: int| 0 <= i < es.len() ==> path_safe(#[trigger] es[i].0)
}

pub open spec fn all_kinds_supported(es: Seq<EntryView>) -> bool {
    forall|i: int| 0 <= i < es.len() ==> (#[trigger] es[i].1) != EntryKind::Other
}

/// The verdict on a list of entries: an unsafe path is reported first,
/// then an unsupported kind.
pub open spec fn entries_check(es: Seq<EntryView>) -> Result<(), JencError> {
    if !all_paths_safe(es) {
        Err(JencError::UnsafeEntryPath)
    } else if !all_kinds_supported(es) {
        Err(JencError::UnsupportedEntry)
    } else {
        Ok(())
    }
}

/// The bytes of a tar archive holding `entries` in order.
pub uninterp spec fn tar_bytes_of(entries: Seq<EntryView>) -> Seq<u8>;

/// The entries a tar reader finds in `stream`, or `None` when it cannot
/// read them.
pub uninterp spec fn tar_entries_of(stream: Seq<u8>) -> Option<Seq<EntryView>>;

/// The gzip compression of `b` at the default level.
pub uninterp spec fn gzip_of(b: Seq<u8>) -> Seq<u8>;

/// The gzip decompression of `b`, or `None` when it is not a gzip stream.
pub uninterp spec fn gunzip_of(b: Seq<u8>) -> Option<Seq<u8>>;

/// The entries that a tar builder has been given so far.
pub uninterp spec fn tar_builder_entries(b: TarWriter) -> Seq<EntryView>;

/// The outcome of packing `es`.
pub open spec fn pack_spec(es: Seq<EntryView>) -> Result<Seq<u8>, JencError> {
    match entries_check(es) {
        Err(e) => Err(e),
        Ok(_) => Ok(gzip_of(tar_bytes_of(es))),
    }
}

/// The outcome of unpacking `stream`.
pub open spec fn unpack_spec(stream: Seq<u8>) -> Result<Seq<EntryView>, JencError> {
    match gunzip_of(stream) {
        None => Err(JencError::Archive),
        Some(t) => match tar_entries_of(t) {
            None => Err(JencError::Archive),
            Some(es) => match entries_check(es) {
                Err(e) => Err(e),
                Ok(_) => Ok(es),
            },
        },
    }
}

/// A tar archive being written into memory, held in tar's `Builder`. What
/// it has been given is `tar_builder_entries`.
#[verifier::external_body]
pub struct TarWriter {
    builder: tar::Builder<Vec<u8>>,
}

/// Relies on tar's `Builder::new`: a builder over an empty buffer, holding
/// no entries.
#[verifier::external_body]
fn tar_builder_new() -> (r: TarWriter)
    ensures
        tar_builder_entries(r) == Seq::<EntryView>::empty(),
{
    TarWriter { builder: tar::Builder::new(Vec::new()) }
}

/// Relies on tar's `Builder::append_data`: the entry, with a header
/// carrying its kind, size and the permission bits of its kind, follows
/// those appended before. The builder refuses only root or prefix
/// components, `..`, NUL bytes and `/` inside a component, and writing into
/// memory does not fail; a path that is not UTF-8 is not appended.
#[verifier::external_body]
fn tar_append(b: &mut TarWriter, path: &[u8], is_dir: bool, mode: u32, data: &[u8]) -> (r: bool)
    requires
        mode == (if is_dir { DIR_MODE } else { FILE_MODE }),
    ensures
        tar_path_ok(path@) ==> r,
        r ==> valid_utf8(path@),
        r ==> tar_builder_entries(*final(b)) == tar_builder_entries(*old(b)).push(
            (path@, if is_dir { EntryKind::Directory } else { EntryKind::File }, data@),
        ),
{
    let Ok(path) = std::str::from_utf8(path) else { return false };
    let mut header = tar::Header::new_gnu();
    header.set_entry_type(if is_dir { tar::EntryType::Directory } else { tar::EntryType::Regular });
    header.set_mode(mode);
    header.set_size(data.len() as u64);
    b.builder.append_data(&mut header, path, data).is_ok()
}

/// Relies on tar's `Builder::into_inner`: the finished archive of the
/// entries appended, written into memory, which does not fail. Its entries,
/// read back with `Archive::entries`, are those appended, where every path
/// is one tar holds exactly.
#[verifier::external_body]
fn tar_finish(b: TarWriter) -> (r: Option<Vec<u8>>)
    ensures
        r is Some,
        r matches Some(t) ==> t@ == tar_bytes_of(tar_builder_entries(b)),
        r matches Some(t) ==> (all_tar_paths_ok(tar_builder_entries(b)) ==> tar_entries_of(t@)
            == Some(tar_builder_entries(b))),
{
    b.builder.into_inner().ok()
}

/// Relies on tar's `Archive::entries`: each entry's path bytes, type and
/// contents, in stream order; `None` when the stream cannot be read.
#[verifier::external_body]
fn tar_read(stream: &[u8]) -> (r: Option<Vec<ArchiveEntry>>)
    ensures
        match r {
            Some(v) => tar_entries_of(stream@) == Some(entries_view(v@)),
            None => tar_entries_of(stream@) is None,
        },
{
    let mut out: Vec<ArchiveEntry> = Vec::new();
    for e in tar::Archive::new(stream).entries().ok()? {
        let mut e = e.ok()?;
        let t = e.header().entry_type();
        let kind = if t.is_file() { EntryKind::File } else if t.is_dir() { EntryKind::Directory } else { EntryKind::Other };
        let path = e.path_bytes().into_owned();
        let mut data: Vec<u8> = Vec::new();
        e.read_to_end(&mut data).ok()?;
        out.push(ArchiveEntry { path, kind, data });
    }
    Some(out)
}

/// Relies on flate2's `GzEncoder` at `Compression::default()`, writing into
/// memory, which does not fail; `GzDecoder` gives the input back.
#[verifier::external_body]
fn gzip(b: &[u8]) -> (r: Option<Vec<u8>>)
    ensures
        r is Some,
        r matches Some(z) ==> z@ == gzip_of(b@),
        r matches Some(z) ==> gunzip_of(z@) == Some(b@),
{
    let mut enc = GzEncoder::new(Vec::new(), Compression::default());
    enc.write_all(b).ok()?;
    enc.finish().ok()
}

/// Relies on flate2's `GzDecoder`: the decompressed bytes, or `None` when
/// `b` is not a valid gzip stream.
#[verifier::external_body]
fn gunzip(b: &[u8]) -> (r: Option<Vec<u8>>)
    ensures
        match r {
            Some(p) => gunzip_of(b@) == Some(p@),
            None => gunzip_of(b@) is None,
        },
{
    let mut out: Vec<u8> = Vec::new();
    GzDecoder::new(b).read_to_end(&mut out).ok()?;
    Some(out)
}

/// Whether `path` is safe: not empty, neither starting nor ending with `/`,
/// without NUL bytes, and without `..`, `.` or empty segments.
pub fn path_is_safe(path: &[u8]) -> (r: bool)
    ensures
        r == path_safe(path@),
{
    let n = path.len();
    if n == 0 || path[0] == SLASH || path[n - 1] == SLASH {
        return false;
    }
    let mut i: usize = 0;
    while i < n
        invariant
            n == path@.len(),
            n > 0,
            i <= n,
            forall|j: int| 0 <= j < i ==> #[trigger] path@[j] != 0,
            forall|j: int|
                0 <= j < i ==> !dotdot_at(path@, j) && !dot_at(path@, j) && !empty_segment_at(
                    path@,
                    j,
                ),
        decreases n - i,
    {
        let starts = i == 0 || path[i - 1] == SLASH;
        if path[i] == 0 {
            return false;
        }
        if starts && path[i] == DOT && (i + 1 == n || path[i + 1] == SLASH) {
            assert(dot_at(path@, i as int));
            return false;
        }
        if starts && i + 1 < n && path[i] == DOT && path[i + 1] == DOT && (i + 2 == n || path[i + 2]
            == SLASH) {
            assert(dotdot_at(path@, i as int));
            return false;
        }
        if i + 1 < n && path[i] == SLASH && path[i + 1] == SLASH {
            assert(empty_segment_at(path@, i as int));
            return false;
        }
        i = i + 1;
    }
    assert forall|j: int| !dotdot_at(path@, j) && !dot_at(path@, j) && !empty_segment_at(path@, j) by {
        if 0 <= j < i {
        }
    }
    true
}

/// Checks every entry: an unsafe path anywhere is reported as
/// `UnsafeEntryPath`; failing that, an entry that is neither a file nor a
/// directory as `UnsupportedEntry`.
pub fn check_entries(entries: &Vec<ArchiveEntry>) -> (r: Result<(), JencError>)
    ensures
        r == entries_check(entries_view(entries@)),
{
    let ghost es = entries_view(entries@);
    let mut i: usize = 0;
    while i < entries.len()
        invariant
            es == entries_view(entries@),
            es.len() == entries@.len(),
            i <= entries@.len(),
            forall|j: int| 0 <= j < i ==> path_safe(#[trigger] es[j].0),
        decreases entries@.len() - i,
    {
        if !path_is_safe(entries[i].path.as_slice()) {
            assert(!path_safe(es[i as int].0));
            return Err(JencError::UnsafeEntryPath);
        }
        i = i + 1;
    }
    let mut k: usize = 0;
    while k < entries.len()
        invariant
            es == entries_view(entries@),
            es.len() == entries@.len(),
            all_paths_safe(es),
            k <= entries@.len(),
            forall|j: int| 0 <= j < k ==> (#[trigger] es[j].1) != EntryKind::Other,
        decreases entries@.len() - k,
    {
        if entries[k].kind == EntryKind::Other {
            assert(es[k as int].1 == EntryKind::Other);
            return Err(JencError::UnsupportedEntry);
        }
        k = k + 1;
    }
    Ok(())
}

/// Packs `entries`, in the order given, into a gzip-compressed tar stream.
///
/// Entries are checked first: an unsafe path or an unsupported kind is
/// rejected before anything is written. `Archive` reports a path that is
/// not UTF-8. What is packed unpacks to the same entries.
pub fn pack_entries(entries: &Vec<ArchiveEntry>) -> (r: Result<Vec<u8>, JencError>)
    ensures
        all_tar_paths_ok(entries_view(entries@)) && all_kinds_supported(entries_view(entries@))
            ==> r is Ok,
        r matches Ok(s) ==> unpack_spec(s@) == Ok::<Seq<EntryView>, JencError>(
            entries_view(entries@),
        ),
        match r {
            Ok(s) => pack_spec(entries_view(entries@)) == Ok::<Seq<u8>, JencError>(s@),
            Err(e) => e == JencError::Archive && entries_check(entries_view(entries@)) is Ok
                || pack_spec(entries_view(entries@)) == Err::<Seq<u8>, JencError>(e),
        },
{
    match check_entries(entries) {
        Err(e) => return Err(e),
        Ok(()) => {},
    }
    let ghost es = entries_view(entries@);
    let mut w = tar_builder_new();
    let mut i: usize = 0;
    while i < entries.len()
        invariant
            es == entries_view(entries@),
            entries_check(es) is Ok,
            all_kinds_supported(es),
            i <= entries@.len(),
            tar_builder_entries(w) == es.subrange(0, i as int),
            forall|j: int| 0 <= j < i ==> valid_utf8(#[trigger] es[j].0),
        decreases entries@.len() - i,
    {
        let e = &entries[i];
        let is_dir = e.kind == EntryKind::Directory;
        let mode: u32 = if is_dir { DIR_MODE } else { FILE_MODE };
        proof {
            assert(e.path@ == es[i as int].0);
            assert(all_paths_safe(es));
            assert(path_safe(es[i as int].0));
        }
        if !tar_append(&mut w, e.path.as_slice(), is_dir, mode, e.data.as_slice()) {
            return Err(JencError::Archive);
        }
        proof {
            assert(es[i as int].1 != EntryKind::Other);
            assert(es.subrange(0, i + 1) =~= es.subrange(0, i as int).push(es[i as int]));
        }
        i = i + 1;
    }
    proof {
        assert(es.subrange(0, es.len() as int) =~= es);
        assert(all_tar_paths_ok(es)) by {
            assert forall|j: int| 0 <= j < es.len() implies tar_path_ok(#[trigger] es[j].0) by {
                assert(path_safe(es[j].0));
                assert(valid_utf8(es[j].0));
            }
        }
    }
    let t = match tar_finish(w) {
        Some(t) => t,
        None => return Err(JencError::Archive),
    };
    match gzip(t.as_slice()) {
        Some(z) => Ok(z),
        None => Err(JencError::Archive),
    }
}

/// Unpacks a gzip-compressed tar stream into its entries, in stream order.
///
/// A stream that does not decompress or does not read as tar is an
/// `Archive` error. An entry whose path is absolute or holds a `..` segment
/// makes the whole stream fail with `UnsafeEntryPath`; one that is neither
/// a file nor a directory, with `UnsupportedEntry`. No entry is returned on
/// failure.
pub fn unpack_stream(stream: &[u8]) -> (r: Result<Vec<ArchiveEntry>, JencError>)
    ensures
        match r {
            Ok(v) => unpack_spec(stream@) == Ok::<Seq<EntryView>, JencError>(entries_view(v@)),
            Err(e) => unpack_spec(stream@) == Err::<Seq<EntryView>, JencError>(e),
        },
{
    let t = match gunzip(stream) {
        Some(t) => t,
        None => return Err(JencError::Archive),
    };
    let v = match tar_read(t.as_slice()) {
        Some(v) => v,
        None => return Err(JencError::Archive),
    };
    match check_entries(&v) {
        Err(e) => Err(e),
        Ok(()) => Ok(v),
    }
}

/// A stream any of whose entries has a `..` segment, an absolute path or
/// another unsafe path never unpacks: whatever else it holds, the result is an error.
pub proof fn lemma_traversal_rejected(stream: Seq<u8>, i: int)
    requires
        gunzip_of(stream) is Some,
        tar_entries_of(gunzip_of(stream)->Some_0) is Some,
        0 <= i < tar_entries_of(gunzip_of(stream)->Some_0)->Some_0.len(),
        !path_safe(tar_entries_of(gunzip_of(stream)->Some_0)->Some_0[i].0),
    ensures
        unpack_spec(stream) == Err::<Seq<EntryView>, JencError>(JencError::UnsafeEntryPath),
{
}

} // verus!
