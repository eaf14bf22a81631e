//! Read-only decoding of the on-disk structures of an NTFS volume.
//!
//! The crate turns raw bytes into validated in-memory values: the partition
//! boot sector, which gives the volume geometry, and the file records of the
//! master file table with their attributes and data runs. It never touches a
//! device itself; callers hand it the bytes they have read.
//!
//! <https://flatcap.github.io/linux-ntfs/ntfs/index.html>
//!
//! <https://en.wikipedia.org/wiki/NTFS>
pub mod file_record;
pub mod format_error;
pub mod little_endian;
pub mod master_file_table;
pub mod partition_boot_sector;
pub mod run_list;

pub use file_record::{
    apply_fixup, decode_file_record, FileRecord, FileRecordHeader, FileReference,
};
pub use format_error::FormatError;
pub use master_file_table::attribute::{
    decode_attribute, decode_attributes, Attribute, AttributeHeader, AttributeStream,
    AttributeType,
};
pub use master_file_table::{
    bootstrap_request, locate, table_runs, Flag, Lookup, MftIndex, ReadRequest,
};
pub use partition_boot_sector::{pbs, PartitionBootSector, Size, PARTITION_BOOT_SECTOR};
pub use run_list::{absolute_lcns, decode_run_list, encode_run_list, DataRun};
