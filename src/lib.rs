//! Packs each immediate subdirectory of a root directory into one stored
//! (uncompressed) zip archive named after the subdirectory.
//!
//! The library holds the decisions: which root entries become archives, how
//! output paths are formed, how an archive's bytes are produced from a
//! directory's files, and in which order the work proceeds and when it stops.
//! Listing directories, reading files and writing archives is left to the
//! caller.

mod archive;
mod layout;
mod packer;

pub use layout::{
    archive_file_name, join_path, non_directories_are_excluded, one_archive_per_directory, plan_archives,
    extension_changes_only_outputs, jobs_are_distinct, stray_entry_has_no_job,
    progress_message, ArchiveJob, RootEntry,
};
pub use archive::{
    archive_entries_match_files, archive_is_reproducible, build_archive, empty_directory_gives_empty_archive,
    ArchiveError, ArchiveWriter, Compression, SourceFile,
};
pub use packer::{Action, Packer};
