//! Archive entry names: which may be written under a destination folder.
use vstd::prelude::*;

use crate::text::{chars_eq, chars_of, split_char, split_chars};
use std::io::Cursor;
use zip::ZipArchive;

verus! {

/// An entry name escapes the folder it is extracted into: it is absolute,
/// or one of its `/`-separated components is `..`.
pub open spec fn escapes_destination(name: Seq<char>) -> bool {
    (name.len() > 0 && name[0] == '/') || exists|i: int|
        0 <= i < split_char(name, '/').len() && #[trigger] split_char(name, '/')[i] == ".."@
}

/// Does the entry name escape the folder it is extracted into?
pub fn escapes_destination_exec(name: &str) -> (r: bool)
    ensures
        r == escapes_destination(name@),
{
    let v = chars_of(name);
    if v.len() > 0 && v[0] == '/' {
        return true;
    }
    let segs = split_chars(&v, '/');
    let dots = chars_of("..");
    let mut i: usize = 0;
    while i < segs.len()
        invariant
            i <= segs.len(),
            v@ == name@,
            dots@ == ".."@,
            segs@.len() == split_char(v@, '/').len(),
            forall|k: int| 0 <= k < segs@.len() ==> (#[trigger] segs@[k])@ == split_char(v@, '/')[k],
            forall|k: int| 0 <= k < i ==> #[trigger] split_char(v@, '/')[k] != ".."@,
        decreases segs.len() - i,
    {
        if chars_eq(&segs[i], &dots) {
            assert(split_char(v@, '/')[i as int] == ".."@);
            return true;
        }
        i += 1;
    }
    false
}

/// Declares the in-memory reader that archives are read from.
#[verifier::external_type_specification]
#[verifier::external_body]
#[verifier::reject_recursive_types(T)]
pub struct ExCursor<T>(Cursor<T>);

/// Declares the `zip` crate's archive reader.
#[verifier::external_type_specification]
#[verifier::external_body]
#[verifier::reject_recursive_types(R)]
pub struct ExZipArchive<R>(ZipArchive<R>);

/// The entries `zip` reads from a ZIP archive's central directory, in
/// order: each entry's name and uncompressed size, a name that repeats
/// kept once, at its first place, with its last record; `None` when the
/// bytes are not an archive `zip` can open.
pub uninterp spec fn zip_listing(bytes: Seq<u8>) -> Option<Seq<(Seq<char>, u64)>>;

/// The entries an open archive lists.
pub uninterp spec fn archive_entries(archive: ZipArchive<Cursor<Vec<u8>>>) -> Seq<(Seq<char>, u64)>;

/// The bytes an open archive reads from.
pub uninterp spec fn archive_bytes(archive: ZipArchive<Cursor<Vec<u8>>>) -> Seq<u8>;

/// Whether entry `index` of the ZIP archive in `bytes` opens with
/// `zip::ZipArchive::by_index`: it fails for an encrypted entry, an
/// unsupported compression or a bad local header, all read from the bytes.
pub uninterp spec fn zip_entry_opens(bytes: Seq<u8>, index: int) -> bool;

/// Opens ZIP bytes with `zip::ZipArchive::new`.
///
/// Trusted: the archive lists what `zip` reads from the bytes' central
/// directory, a function of the bytes alone, named by [`zip_listing`], and
/// keeps the bytes to read from; on failure the error's text is returned.
#[verifier::external_body]
fn open_zip(bytes: Vec<u8>) -> (r: Result<ZipArchive<Cursor<Vec<u8>>>, String>)
    ensures
        r matches Ok(a) ==> zip_listing(bytes@) == Some(archive_entries(a)),
        r matches Ok(a) ==> archive_bytes(a) == bytes@,
        r is Err ==> zip_listing(bytes@) is None,
{
    ZipArchive::new(Cursor::new(bytes)).map_err(|error| error.to_string())
}

/// The number of entries of an open archive, `ZipArchive::len`.
#[verifier::external_body]
fn zip_len(archive: &ZipArchive<Cursor<Vec<u8>>>) -> (r: usize)
    ensures
        r == archive_entries(*archive).len(),
{
    archive.len()
}

/// Name and size of entry `index`, through `ZipArchive::by_index`.
///
/// Trusted: what the entry holds is the listing's; whether the entry opens
/// is a function of the archive's bytes and the index, named by
/// [`zip_entry_opens`] (it fails for an encrypted entry, an unsupported
/// compression, a bad local header), and on failure the error's text is
/// returned. The listing and the bytes are not changed.
#[verifier::external_body]
fn zip_entry(archive: &mut ZipArchive<Cursor<Vec<u8>>>, index: usize) -> (r: Result<(String, u64), String>)
    requires
        index < archive_entries(*old(archive)).len(),
    ensures
        archive_entries(*final(archive)) == archive_entries(*old(archive)),
        archive_bytes(*final(archive)) == archive_bytes(*old(archive)),
        r is Ok <==> zip_entry_opens(archive_bytes(*old(archive)), index as int),
        r matches Ok((name, size)) ==> (name@, size) == archive_entries(*old(archive))[index as int],
{
    match archive.by_index(index) {
        Ok(entry) => Ok((entry.name().to_string(), entry.size())),
        Err(error) => Err(error.to_string()),
    }
}

/// The name and size of each entry of a ZIP archive, in order; the error
/// text when the archive or one of its entries cannot be opened. It
/// succeeds exactly when the archive opens and every entry it lists does.
pub fn read_archive_entries(bytes: Vec<u8>) -> (r: Result<Vec<(String, u64)>, String>)
    ensures
        r matches Ok(entries) ==> zip_listing(bytes@) matches Some(l) && l.len() == entries.len()
            && forall|i: int| 0 <= i < l.len() ==> (#[trigger] entries@[i]).0@ == l[i].0 && entries@[i].1 == l[i].1,
        zip_listing(bytes@) is None ==> r is Err,
        r is Ok <==> (zip_listing(bytes@) matches Some(l) && forall|i: int| 0 <= i < l.len() ==> zip_entry_opens(bytes@, i)),
{
    let ghost b = bytes@;
    let mut archive = match open_zip(bytes) {
        Ok(a) => a,
        Err(e) => {
            return Err(e);
        },
    };
    let ghost l = archive_entries(archive);
    let n = zip_len(&archive);
    let mut out: Vec<(String, u64)> = Vec::new();
    let mut i: usize = 0;
    while i < n
        invariant
            i <= n,
            n == l.len(),
            zip_listing(b) == Some(l),
            b == bytes@,
            archive_entries(archive) == l,
            archive_bytes(archive) == b,
            forall|k: int| 0 <= k < i ==> zip_entry_opens(b, k),
            out.len() == i,
            forall|k: int| 0 <= k < i ==> (#[trigger] out@[k]).0@ == l[k].0 && out@[k].1 == l[k].1,
        decreases n - i,
    {
        match zip_entry(&mut archive, i) {
            Ok(entry) => {
                out.push(entry);
            },
            Err(e) => {
                return Err(e);
            },
        }
        i += 1;
    }
    Ok(out)
}

} // verus!
