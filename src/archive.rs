use std::io::Write;
use vstd::prelude::*;

verus! {

/// A zip archive being written into memory, one entry after another.
#[verifier::external_body]
pub struct ArchiveWriter {
    inner: zip::ZipWriter<std::io::Cursor<Vec<u8>>>,
}

#[verifier::external_type_specification]
#[verifier::external_body]
pub struct ExZipError(zip::result::ZipError);

#[verifier::external_type_specification]
#[verifier::external_body]
pub struct ExIoError(std::io::Error);

/// How the bytes of an archive entry are encoded.
#[derive(PartialEq, Eq, Structural, Clone, Copy, Debug)]
pub enum Compression {
    /// Kept verbatim, without compression.
    Stored,
}

/// Largest number of bytes that one entry may hold in an archive written
/// without zip64 extensions.
pub open spec fn max_entry_len() -> nat {
    u32::MAX as nat
}

/// Whether every entry of `entries` holds at most `max_entry_len()` bytes.
pub open spec fn entries_fit(entries: Seq<(Seq<char>, Compression, Seq<u8>)>) -> bool {
    forall|j: int| 0 <= j < entries.len() ==> (#[trigger] entries[j]).2.len() <= max_entry_len()
}

/// The entries written so far into an archive writer, in order: each
/// entry's name, its compression method and the bytes written into it.
pub uninterp spec fn zip_entries(w: ArchiveWriter) -> Seq<(Seq<char>, Compression, Seq<u8>)>;

/// Whether an archive writer is still open: no call on it has failed.
pub uninterp spec fn zip_open(w: ArchiveWriter) -> bool;

/// The bytes of the finished zip archive that holds `entries`, in order,
/// each encoded by its method and dated 1980-01-01 00:00:00.
pub uninterp spec fn zip_image(entries: Seq<(Seq<char>, Compression, Seq<u8>)>) -> Seq<u8>;

/// Relies on zip::ZipWriter::new over an empty std::io::Cursor: an open
/// writer with no entries.
#[verifier::external_body]
fn new_writer() -> (w: ArchiveWriter)
    ensures
        zip_open(w),
        zip_entries(w) == Seq::<(Seq<char>, Compression, Seq<u8>)>::empty(),
{
    ArchiveWriter { inner: zip::ZipWriter::new(std::io::Cursor::new(Vec::new())) }
}

/// Relies on zip::ZipWriter::start_file, with zip::DateTime::default() as the
/// modification time: on success a new, empty entry named `name` and encoded
/// by `method` follows the earlier ones. It fails only when the writer is
/// closed or the entry it finishes holds more than `u32::MAX` bytes.
#[verifier::external_body]
fn start_file(w: &mut ArchiveWriter, name: String, method: Compression) -> (r: Result<(), zip::result::ZipError>)
    ensures
        r is Ok ==> zip_open(*final(w)) && zip_entries(*final(w)) == zip_entries(*old(w)).push(
            (name@, method, Seq::<u8>::empty()),
        ),
        zip_open(*old(w)) && entries_fit(zip_entries(*old(w))) ==> r is Ok,
{
    let method = match method {
        Compression::Stored => zip::CompressionMethod::Stored,
    };
    let options = zip::write::FileOptions::default()
        .compression_method(method)
        .last_modified_time(zip::DateTime::default());
    w.inner.start_file(name, options)
}

/// Relies on std::io::Write::write_all as zip::ZipWriter implements it: on
/// success `data` is appended to the entry that was started last. On an open
/// writer it fails only when that entry would pass `u32::MAX` bytes.
#[verifier::external_body]
fn write_entry_data(w: &mut ArchiveWriter, data: &[u8]) -> (r: Result<(), std::io::Error>)
    requires
        zip_open(*old(w)),
        zip_entries(*old(w)).len() > 0,
    ensures
        r is Ok ==> zip_open(*final(w)) && zip_entries(*final(w)) == zip_entries(*old(w)).update(
            zip_entries(*old(w)).len() - 1,
            (
                zip_entries(*old(w)).last().0,
                zip_entries(*old(w)).last().1,
                zip_entries(*old(w)).last().2 + data@,
            ),
        ),
        zip_open(*old(w)) && zip_entries(*old(w)).last().2.len() + data@.len() <= max_entry_len() ==> r is Ok,
{
    w.inner.write_all(data)
}

/// Relies on zip::ZipWriter::finish and std::io::Cursor::into_inner: on
/// success the bytes of the complete archive that holds the entries written.
/// It fails only when the writer is closed or its last entry holds more than
/// `u32::MAX` bytes.
#[verifier::external_body]
fn finish_writer(w: ArchiveWriter) -> (r: Result<Vec<u8>, zip::result::ZipError>)
    ensures
        r matches Ok(b) ==> b@ == zip_image(zip_entries(w)),
        zip_open(w) && entries_fit(zip_entries(w)) ==> r is Ok,
{
    let mut w = w;
    w.inner.finish().map(|c| c.into_inner())
}

/// One file of a subdirectory: its name and its whole contents.
pub struct SourceFile {
    pub name: String,
    pub data: Vec<u8>,
}

/// Why an archive could not be produced.
pub enum ArchiveError {
    /// The entry for the named file could not be started.
    StartEntry(String),
    /// The contents of the named file could not be written into its entry.
    WriteEntry(String),
    /// The archive could not be finished.
    Finish,
}

/// The entries that an archive of `files` holds: one per file, in order,
/// named after the file and holding its bytes.
pub open spec fn archive_entries(files: Seq<SourceFile>) -> Seq<(Seq<char>, Compression, Seq<u8>)> {
    files.map_values(|f: SourceFile| (f.name@, Compression::Stored, f.data@))
}

/// Whether every file holds at most `max_entry_len()` bytes.
pub open spec fn files_fit(files: Seq<SourceFile>) -> bool {
    forall|i: int| 0 <= i < files.len() ==> (#[trigger] files[i]).data@.len() <= max_entry_len()
}

impl ArchiveWriter {
    /// Starts an archive with no entries.
    pub fn new() -> (w: ArchiveWriter)
        ensures
            zip_open(w),
            zip_entries(w) == Seq::<(Seq<char>, Compression, Seq<u8>)>::empty(),
    {
        new_writer()
    }

    /// Appends a stored entry named `name` that holds `data`. It succeeds
    /// whenever the writer is open and neither an earlier entry nor `data`
    /// holds more than `u32::MAX` bytes.
    pub fn add_file(&mut self, name: &String, data: &[u8]) -> (r: Result<(), ArchiveError>)
        ensures
            r is Ok ==> zip_open(*final(self)) && zip_entries(*final(self)) == zip_entries(*old(self)).push(
                (name@, Compression::Stored, data@),
            ),
            zip_open(*old(self)) && entries_fit(zip_entries(*old(self))) && data@.len() <= max_entry_len()
                ==> r is Ok,
            r matches Err(ArchiveError::StartEntry(n)) ==> n@ == name@,
            r matches Err(ArchiveError::WriteEntry(n)) ==> n@ == name@,
            !(r matches Err(ArchiveError::Finish)),
    {
        match start_file(self, name.clone(), Compression::Stored) {
            Ok(()) => {},
            Err(_) => {
                return Err(ArchiveError::StartEntry(name.clone()));
            },
        }
        match write_entry_data(self, data) {
            Ok(()) => {},
            Err(_) => {
                return Err(ArchiveError::WriteEntry(name.clone()));
            },
        }
        proof {
            assert(Seq::<u8>::empty() + data@ =~= data@);
        }
        Ok(())
    }

    /// Completes the archive and returns its bytes. It succeeds whenever the
    /// writer is open and no entry holds more than `u32::MAX` bytes.
    pub fn finish(self) -> (r: Result<Vec<u8>, ArchiveError>)
        ensures
            r matches Ok(b) ==> b@ == zip_image(zip_entries(self)),
            zip_open(self) && entries_fit(zip_entries(self)) ==> r is Ok,
            r is Err ==> r == Err::<Vec<u8>, ArchiveError>(ArchiveError::Finish),
    {
        match finish_writer(self) {
            Ok(b) => Ok(b),
            Err(_) => Err(ArchiveError::Finish),
        }
    }
}

/// Produces the bytes of a zip archive that holds one stored entry for each
/// of `files`, in order, named after the file and holding its contents. It
/// succeeds whenever no file holds more than `u32::MAX` bytes.
pub fn build_archive(files: &Vec<SourceFile>) -> (r: Result<Vec<u8>, ArchiveError>)
    ensures
        r matches Ok(b) ==> b@ == zip_image(archive_entries(files@)),
        files_fit(files@) ==> r is Ok,
        r matches Err(ArchiveError::StartEntry(n)) ==> exists|i: int|
            0 <= i < files@.len() && (#[trigger] files@[i]).name@ == n@,
        r matches Err(ArchiveError::WriteEntry(n)) ==> exists|i: int|
            0 <= i < files@.len() && (#[trigger] files@[i]).name@ == n@,
{
    let mut w = ArchiveWriter::new();
    let mut k: usize = 0;
    while k < files.len()
        invariant
            k <= files@.len(),
            zip_open(w),
            zip_entries(w) == archive_entries(files@.subrange(0, k as int)),
        decreases files.len() - k,
    {
        let f = &files[k];
        proof {
            if files_fit(files@) {
                assert forall|j: int| 0 <= j < zip_entries(w).len() implies (#[trigger] zip_entries(w)[j]).2.len()
                    <= max_entry_len() by {
                    assert(files@.subrange(0, k as int)[j] == files@[j]);
                }
                assert(files@[k as int].data@.len() <= max_entry_len());
            }
        }
        match w.add_file(&f.name, f.data.as_slice()) {
            Ok(()) => {},
            Err(e) => {
                return Err(e);
            },
        }
        proof {
            assert(archive_entries(files@.subrange(0, k as int + 1)) =~= archive_entries(
                files@.subrange(0, k as int),
            ).push((f.name@, Compression::Stored, f.data@)));
        }
        k = k + 1;
    }
    proof {
        assert(files@.subrange(0, k as int) =~= files@);
        if files_fit(files@) {
            assert forall|j: int| 0 <= j < zip_entries(w).len() implies (#[trigger] zip_entries(w)[j]).2.len()
                <= max_entry_len() by {
                assert(files@[j].data@.len() <= max_entry_len());
            }
        }
    }
    w.finish()
}

/// An archive holds exactly one entry per source file, in order, and each
/// entry is stored and holds exactly the bytes of its file under the file's
/// name.
pub proof fn archive_entries_match_files(files: Seq<SourceFile>)
    ensures
        archive_entries(files).len() == files.len(),
        forall|i: int|
            0 <= i < files.len() ==> (#[trigger] archive_entries(files)[i]).0 == files[i].name@
                && archive_entries(files)[i].1 == Compression::Stored && archive_entries(files)[i].2
                == files[i].data@,
{
}

/// An empty directory always gives an archive, and that archive has no
/// entries.
pub proof fn empty_directory_gives_empty_archive(files: Seq<SourceFile>)
    requires
        files.len() == 0,
    ensures
        files_fit(files),
        archive_entries(files) == Seq::<(Seq<char>, Compression, Seq<u8>)>::empty(),
{
    assert(archive_entries(files) =~= Seq::<(Seq<char>, Compression, Seq<u8>)>::empty());
}

/// Packing the same files again gives the same archive bytes.
pub proof fn archive_is_reproducible(first: Seq<SourceFile>, second: Seq<SourceFile>)
    requires
        first.len() == second.len(),
        forall|i: int|
            0 <= i < first.len() ==> (#[trigger] first[i]).name@ == second[i].name@ && first[i].data@
                == second[i].data@,
    ensures
        zip_image(archive_entries(first)) == zip_image(archive_entries(second)),
{
    assert(archive_entries(first) =~= archive_entries(second));
}

} // verus!
