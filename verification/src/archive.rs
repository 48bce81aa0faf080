//! Building a backup archive in memory.
//!
//! An archive holds exactly one database snapshot entry under a fixed name and
//! one attachment entry per attachment file, all under a fixed directory
//! prefix.  The zip container format and the compression codec come from the
//! `zip` crate; everything around the four calls into it is verified.

use std::io::Cursor;
use std::io::Write;

use vstd::prelude::*;
use vstd::string::StringExecFns;

verus! {

#[verifier::external_type_specification]
#[verifier::external_body]
pub struct ExZipError(zip::result::ZipError);

/// An archive in the making: a `zip` writer over an in-memory buffer.
///
/// The writer type itself cannot be declared to the verifier (its `Seek`
/// bound is not supported), so it sits in a hidden field and is reasoned
/// about only through `zip_entries`.
#[verifier::external_body]
pub struct ArchiveWriter {
    inner: zip::write::ZipWriter<Cursor<Vec<u8>>>,
}

/// One entry of an archive.
pub enum ArchiveEntry {
    /// A file entry: `content` is stored under `name`.
    File { name: Seq<char>, content: Seq<u8> },
    /// A directory entry under `name` (stored with a trailing slash).
    Directory { name: Seq<char> },
}

/// The entries an archive writer holds so far, in the order they were added.
/// File and directory entries share one sequence because the writer lays
/// them out, and later emits them, in exactly that order.
pub uninterp spec fn zip_entries(writer: ArchiveWriter) -> Seq<ArchiveEntry>;

/// The bytes of the finished archive that holds exactly the given entries in
/// the given order.
pub uninterp spec fn zip_archive_bytes(entries: Seq<ArchiveEntry>) -> Seq<u8>;

/// File contents this far below the archive format's four-gibibyte per-entry
/// limit stay below it even after compression, whose worst case adds less
/// than one part in two hundred.
pub const MAX_ARCHIVE_ENTRY_BYTES: usize = 0xF000_0000;

/// Whether every file entry's content is small enough that no entry size
/// check of the writer can fail.
pub open spec fn spec_entries_fit(entries: Seq<ArchiveEntry>) -> bool {
    forall|i: int|
        0 <= i < entries.len() ==> match #[trigger] entries[i] {
            ArchiveEntry::File { content, .. } => content.len() <= MAX_ARCHIVE_ENTRY_BYTES,
            ArchiveEntry::Directory { .. } => true,
        }
}

/// Relies on zip::write::ZipWriter::new over an empty in-memory buffer:
/// a fresh writer holds no entries.
#[verifier::external_body]
fn new_archive_writer() -> (writer: ArchiveWriter)
    ensures
        zip_entries(writer) == Seq::<ArchiveEntry>::empty(),
{
    ArchiveWriter { inner: zip::write::ZipWriter::new(Cursor::new(Vec::new())) }
}

/// Relies on zip::write::ZipWriter::start_file followed by
/// std::io::Write::write_all: together they append one file entry that stores
/// exactly `data` under `name`, compressed with the Zstd codec at level 3.
/// Over an in-memory buffer the only failures are the writer's own entry
/// size checks — the uncompressed size of the new entry at the write, the
/// compressed size of the entry before it at the header update — so the call
/// succeeds whenever those entries are small enough.
#[verifier::external_body]
fn archive_write_file(writer: &mut ArchiveWriter, name: &str, data: &Vec<u8>) -> (result: Result<
    (),
    zip::result::ZipError,
>)
    ensures
        result is Ok ==> zip_entries(*final(writer)) == zip_entries(*old(writer)).push(
            ArchiveEntry::File { name: name@, content: data@ },
        ),
        spec_entries_fit(zip_entries(*old(writer))) && data@.len() <= MAX_ARCHIVE_ENTRY_BYTES
            ==> result is Ok,
{
    let options = zip::write::FileOptions::default().compression_method(
        zip::CompressionMethod::Zstd,
    ).compression_level(Some(3));
    writer.inner.start_file(name, options)?;
    writer.inner.write_all(data).map_err(zip::result::ZipError::from)?;
    Ok(())
}

/// Relies on zip::write::ZipWriter::add_directory: appends one directory
/// entry under `name` (the stored entry name carries a trailing slash).
/// Over an in-memory buffer the only failure is the compressed-size check on
/// the entry before this one, so the call succeeds whenever the entries so
/// far are small enough.
#[verifier::external_body]
fn archive_add_directory(writer: &mut ArchiveWriter, name: &str) -> (result: Result<
    (),
    zip::result::ZipError,
>)
    ensures
        result is Ok ==> zip_entries(*final(writer)) == zip_entries(*old(writer)).push(
            ArchiveEntry::Directory { name: name@ },
        ),
        spec_entries_fit(zip_entries(*old(writer))) ==> result is Ok,
{
    let options = zip::write::FileOptions::default();
    writer.inner.add_directory(name, options)
}

/// Relies on zip::write::ZipWriter::finish: closes the archive and hands back
/// the underlying buffer.  The writer runs with a fixed modification time and
/// a fixed compression codec and level, so the emitted bytes are a function
/// of the entries, in order, alone.  Over an in-memory buffer the only
/// failure is the compressed-size check on the last entry, so the call
/// succeeds whenever the entries are small enough.
#[verifier::external_body]
fn archive_finish(writer: ArchiveWriter) -> (result: Result<Vec<u8>, zip::result::ZipError>)
    ensures
        result matches Ok(bytes) ==> bytes@ == zip_archive_bytes(zip_entries(writer)),
        spec_entries_fit(zip_entries(writer)) ==> result is Ok,
{
    let mut writer = writer;
    let cursor = writer.inner.finish()?;
    Ok(cursor.into_inner())
}

/// Packaging an archive failed; the cause is the underlying zip error.
#[derive(Debug)]
pub struct ArchiveError(pub zip::result::ZipError);

/// One attachment to back up: its file name and its contents.
pub struct AttachmentFile {
    pub name: String,
    pub content: Vec<u8>,
}

/// The entry name of the database snapshot inside an archive.
pub open spec fn spec_database_entry_name() -> Seq<char> {
    "database.sqlite"@
}

/// The directory inside an archive under which attachments are mirrored.
pub open spec fn spec_attachment_folder_name() -> Seq<char> {
    "attachments"@
}

/// The entry name under which an attachment named `name` is stored.
pub open spec fn spec_attachment_entry_name(name: Seq<char>) -> Seq<char> {
    crate::paths::spec_path_join(spec_attachment_folder_name(), name)
}

/// The entries of a backup archive, in order: the database snapshot, the
/// attachment directory, then one file entry per attachment under the
/// attachment prefix.
pub open spec fn spec_backup_entries(database: Seq<u8>, attachments: Seq<AttachmentFile>) -> Seq<
    ArchiveEntry,
> {
    seq![
        ArchiveEntry::File { name: spec_database_entry_name(), content: database },
        ArchiveEntry::Directory { name: spec_attachment_folder_name() },
    ] + attachments.map_values(
        |attachment: AttachmentFile| ArchiveEntry::File {
            name: spec_attachment_entry_name(attachment.name@),
            content: attachment.content@,
        },
    )
}

proof fn lemma_backup_entries_fit(database: Seq<u8>, attachments: Seq<AttachmentFile>)
    requires
        database.len() <= MAX_ARCHIVE_ENTRY_BYTES,
        forall|i: int|
            0 <= i < attachments.len() ==> (#[trigger] attachments[i].content)@.len()
                <= MAX_ARCHIVE_ENTRY_BYTES,
    ensures
        spec_entries_fit(spec_backup_entries(database, attachments)),
{
    let entries = spec_backup_entries(database, attachments);
    assert forall|k: int| 0 <= k < entries.len() implies match #[trigger] entries[k] {
        ArchiveEntry::File { content, .. } => content.len() <= MAX_ARCHIVE_ENTRY_BYTES,
        ArchiveEntry::Directory { .. } => true,
    } by {
        if k >= 2 {
            assert(entries[k] == ArchiveEntry::File {
                name: spec_attachment_entry_name(attachments[k - 2].name@),
                content: attachments[k - 2].content@,
            });
            assert(attachments[k - 2].content@.len() <= MAX_ARCHIVE_ENTRY_BYTES);
        }
    }
}

/// Whether the database and every attachment stay within the per-entry size
/// bound, so that archiving them is owed to succeed.
pub open spec fn spec_backup_inputs_fit(database: Seq<u8>, attachments: Seq<AttachmentFile>) -> bool {
    database.len() <= MAX_ARCHIVE_ENTRY_BYTES && (forall|i: int|
        0 <= i < attachments.len() ==> (#[trigger] attachments[i].content)@.len()
            <= MAX_ARCHIVE_ENTRY_BYTES)
}

/// Packages one backup archive from the raw database bytes and the attachment
/// files, entirely in memory.
///
/// On success the returned bytes are the archive that holds exactly one
/// database entry with the database bytes, one attachment directory entry,
/// and one entry per attachment mirroring its contents byte for byte.
/// Success is owed whenever the database and every attachment stay within
/// the per-entry size bound.
pub fn build_backup_archive(database: &Vec<u8>, attachments: &Vec<AttachmentFile>) -> (result:
    Result<Vec<u8>, ArchiveError>)
    ensures
        result matches Ok(bytes) ==> bytes@ == zip_archive_bytes(
            spec_backup_entries(database@, attachments@),
        ),
        spec_backup_inputs_fit(database@, attachments@) ==> result is Ok,
{
    let mut writer = new_archive_writer();
    if let Err(cause) = archive_write_file(&mut writer, "database.sqlite", database) {
        return Err(ArchiveError(cause));
    }
    if let Err(cause) = archive_add_directory(&mut writer, "attachments") {
        return Err(ArchiveError(cause));
    }
    assert(zip_entries(writer) =~= spec_backup_entries(database@, attachments@.subrange(0, 0)));
    let attachment_count = attachments.len();
    for index in 0..attachment_count
        invariant
            attachment_count == attachments@.len(),
            zip_entries(writer) == spec_backup_entries(
                database@,
                attachments@.subrange(0, index as int),
            ),
    {
        let attachment = &attachments[index];
        let entry_name = crate::paths::path_join("attachments", attachment.name.as_str());
        let outcome = archive_write_file(&mut writer, entry_name.as_str(), &attachment.content);
        if let Err(cause) = outcome {
            proof {
                if spec_backup_inputs_fit(database@, attachments@) {
                    let prefix = attachments@.subrange(0, index as int);
                    assert forall|j: int|
                        0 <= j < prefix.len() implies (#[trigger] prefix[j].content)@.len()
                        <= MAX_ARCHIVE_ENTRY_BYTES by {
                        assert(prefix[j] == attachments@[j]);
                        assert(attachments@[j].content@.len() <= MAX_ARCHIVE_ENTRY_BYTES);
                    }
                    lemma_backup_entries_fit(database@, prefix);
                    assert(attachments@[index as int].content@.len() <= MAX_ARCHIVE_ENTRY_BYTES);
                }
            }
            return Err(ArchiveError(cause));
        }
        assert(attachments@.subrange(0, index + 1) =~= attachments@.subrange(
            0,
            index as int,
        ).push(attachments@[index as int]));
        assert(zip_entries(writer) =~= spec_backup_entries(
            database@,
            attachments@.subrange(0, index + 1),
        ));
    }
    assert(attachments@.subrange(0, attachments@.len() as int) =~= attachments@);
    proof {
        if spec_backup_inputs_fit(database@, attachments@) {
            lemma_backup_entries_fit(database@, attachments@);
        }
    }
    match archive_finish(writer) {
        Ok(bytes) => Ok(bytes),
        Err(cause) => Err(ArchiveError(cause)),
    }
}

} // verus!
