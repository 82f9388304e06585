use std::io::Cursor;
use std::io::Write;
use vstd::prelude::*;
use zip::result::ZipError;
use zip::write::FileOptions;
use zip::ZipWriter;

verus! {

/// A zip archive being written into memory. Verus sees nothing inside it:
/// `archive_entries` names what it holds.
#[verifier::external_body]
pub struct ArchiveWriter {
    inner: ZipWriter<Cursor<Vec<u8>>>,
}

#[verifier::external_type_specification]
#[verifier::external_body]
pub struct ExZipError(ZipError);

/// Entries up to this many bytes are always written: even deflate's worst
/// case keeps them below the 4 GiB that an entry without ZIP64 may take.
pub const MAX_ENTRY_LEN: usize = 0x8000_0000;

/// The zip method code of Deflate compression.
pub const DEFLATE_METHOD: u16 = 8;

/// One entry of an archive: its name, its compression method code, its unix
/// mode and its uncompressed bytes.
pub type EntryModel = (Seq<char>, u16, u32, Seq<u8>);

/// The unix mode that an entry started with permissions `mode` records: a
/// regular file with the permission bits of `mode`.
pub open spec fn file_mode(mode: u32) -> u32 {
    (mode & 0o777u32) | 0o100000u32
}

/// No entry is longer than `MAX_ENTRY_LEN` bytes.
pub open spec fn entries_within_bound(entries: Seq<EntryModel>) -> bool {
    forall|i: int| 0 <= i < entries.len() ==> (#[trigger] entries[i]).3.len() <= MAX_ENTRY_LEN
}

/// The entries that a writer holds, in the order they were started.
pub uninterp spec fn archive_entries(w: ArchiveWriter) -> Seq<EntryModel>;

/// The archive that zip writes for `entries`, central directory included.
/// A name of 65536 bytes or more does not fit its length field.
pub uninterp spec fn zip_bytes(entries: Seq<EntryModel>) -> Seq<u8>;

/// Relies on zip's `ZipWriter::new` over an empty in-memory cursor: the new
/// archive holds no entry.
#[verifier::external_body]
pub(crate) fn new_archive() -> (w: ArchiveWriter)
    ensures
        archive_entries(w) == Seq::<EntryModel>::empty(),
{
    ArchiveWriter { inner: ZipWriter::new(Cursor::new(Vec::new())) }
}

/// Relies on zip's `ZipWriter::start_file` with its default options (Deflate,
/// as the `deflate` feature makes it; no time stamp but 1980-01-01) and the
/// permissions `mode`: it closes the entry being written and appends a new,
/// empty one under exactly `name`. On an in-memory sink only an entry over
/// 4 GiB makes it fail.
#[verifier::external_body]
pub(crate) fn start_entry(w: &mut ArchiveWriter, name: &str, mode: u32) -> (r: Result<
    (),
    ZipError,
>)
    ensures
        entries_within_bound(archive_entries(*old(w))) ==> r is Ok,
        r is Ok ==> archive_entries(*final(w)) == archive_entries(*old(w)).push(
            (name@, DEFLATE_METHOD, file_mode(mode), Seq::<u8>::empty()),
        ),
{
    w.inner.start_file(name, FileOptions::default().unix_permissions(mode))
}

/// Relies on `Write::write_all` for zip's `ZipWriter`: the bytes become the
/// contents of the entry just started. On an in-memory sink only an entry
/// over 4 GiB makes it fail.
#[verifier::external_body]
pub(crate) fn write_entry_data(w: &mut ArchiveWriter, data: &[u8]) -> (r: Result<(), ZipError>)
    requires
        archive_entries(*old(w)).len() > 0,
        archive_entries(*old(w)).last().3.len() == 0,
    ensures
        entries_within_bound(archive_entries(*old(w))) && data@.len() <= MAX_ENTRY_LEN ==> r is Ok,
        r is Ok ==> archive_entries(*final(w)) == archive_entries(*old(w)).update(
            archive_entries(*old(w)).len() - 1,
            (
                archive_entries(*old(w)).last().0,
                archive_entries(*old(w)).last().1,
                archive_entries(*old(w)).last().2,
                data@,
            ),
        ),
{
    w.inner.write_all(data).map_err(ZipError::Io)
}

/// Relies on zip's `ZipWriter::finish`: it writes the central directory and
/// hands back the in-memory buffer, which is then the whole archive. On an
/// in-memory sink only an entry over 4 GiB makes it fail.
#[verifier::external_body]
pub(crate) fn finish_archive(w: ArchiveWriter) -> (r: Result<Vec<u8>, ZipError>)
    ensures
        entries_within_bound(archive_entries(w)) ==> r is Ok,
        r is Ok ==> r->Ok_0@ == zip_bytes(archive_entries(w)),
{
    let mut inner = w.inner;
    inner.finish().map(|c| c.into_inner())
}

} // verus!
