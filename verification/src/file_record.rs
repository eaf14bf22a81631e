//! File Records are equivalent to inodes in Unix terminology.
//! The first FILE Record that describes a given file is called the Base FILE record and others are called Extension FILE Records.
//! A FILE Record is built up from a header, several variable length attributes and an end marker (0xFFFFFFFF).
//!
//! Header
//!| Offset | Size | OS | Description                                      |
//!|--------|------|----|--------------------------------------------------|
//!| 0x00   | 4    |    | Magic number 'FILE'                              |
//!| 0x04   | 2    |    | Offset to the Update Sequence                    |
//!| 0x06   | 2    |    | Size in words of Update Sequence (S)             |
//!| 0x08   | 8    |    | $LogFile Sequence Number (LSN)                   |
//!| 0x10   | 2    |    | Sequence number                                  |
//!| 0x12   | 2    |    | Hard link count                                  |
//!| 0x14   | 2    |    | Offset to the first Attribute                    |
//!| 0x16   | 2    |    | Flags                                            |
//!| 0x18   | 4    |    | Real size of the FILE record                     |
//!| 0x1C   | 4    |    | Allocated size of the FILE record                |
//!| 0x20   | 8    |    | File reference to the base FILE record           |
//!| 0x28   | 2    |    | Next Attribute Id                                |
//!| 0x2A   | 2    | XP | Align to a 4-byte boundary                       |
//!| 0x2C   | 4    | XP | Number of this MFT Record                        |
//!|        | 2    |    | Update Sequence Number (a)                       |
//!|        | 2S-2 |    | Update Sequence Array (a)                        |
//!
//! When a record is written, the last two bytes of each of its sectors are
//! replaced by the update sequence number, and the bytes that stood there
//! are kept in the update sequence array. A sector that does not end in the
//! update sequence number was not written together with the others: the
//! record is torn. Nothing of a record is interpreted before every sector
//! has passed this test and has its own last two bytes back.
use crate::format_error::{viewed, FormatError};
use crate::little_endian::{le_field, lemma_radix_values, read_u16, read_u32, read_u64};
use crate::master_file_table::attribute::{
    attribute_stream_of, decode_attributes, models, Attribute, AttributeModel,
};
use vstd::prelude::*;
use vstd::slice::{slice_subrange, slice_to_vec};

verus! {

/// The number of bytes in each of the sectors that make up a record.
pub const SECTOR_SIZE: usize = 512;

/// Where the last two bytes of a sector start.
pub const SECTOR_TAIL: usize = 510;

/// The first offset at which the update sequence can start in the layout
/// that holds the number of the record.
pub const LONG_HEADER_LENGTH: usize = 0x30;

/// The flag of a record that is in use.
pub const RECORD_IN_USE: u16 = 0x0001;

/// The flag of a record that describes a directory.
pub const RECORD_IS_DIRECTORY: u16 = 0x0002;

/// The number of values that the 48 bits of an entry index can take.
pub const ENTRY_LIMIT: u64 = 0x1_0000_0000_0000;

/// The identity of a file: the index of its entry in the master file table,
/// and the sequence number that the entry had when the reference was made.
/// Two references are equal only if both parts are. A reference whose
/// sequence number is not that of the entry is stale: the file it named was
/// deleted and the entry used again.
#[derive(Debug, Clone, Copy, PartialEq, Eq, Structural)]
pub struct FileReference {
    /// The index of the entry, in 48 bits.
    pub entry: u64,
    /// The sequence number.
    pub sequence: u16,
}

impl FileReference {
    /// The entry index fits its 48 bits.
    pub open spec fn wf(self) -> bool {
        self.entry < ENTRY_LIMIT
    }

    /// The reference that a packed 64-bit value holds: the entry index in the
    /// low 48 bits, the sequence number in the high 16.
    pub open spec fn unpacked(raw: u64) -> FileReference {
        FileReference { entry: raw % ENTRY_LIMIT, sequence: (raw / ENTRY_LIMIT) as u16 }
    }

    /// The packed 64-bit value of a reference.
    pub open spec fn packed(self) -> int {
        self.sequence * ENTRY_LIMIT + self.entry
    }

    /// Unpacks a reference from its 64-bit form.
    pub fn from_raw(raw: u64) -> (reference: FileReference)
        ensures
            reference == FileReference::unpacked(raw),
            reference.wf(),
            reference.packed() == raw,
    {
        FileReference { entry: raw % ENTRY_LIMIT, sequence: (raw / ENTRY_LIMIT) as u16 }
    }

    /// Packs a reference into its 64-bit form.
    pub fn to_raw(self) -> (raw: u64)
        requires
            self.wf(),
        ensures
            raw == self.packed(),
            FileReference::unpacked(raw) == self,
    {
        self.sequence as u64 * ENTRY_LIMIT + self.entry
    }

    /// Whether the reference is the zero that a base record holds in place
    /// of a reference to its base.
    pub fn is_null(self) -> (null: bool)
        ensures
            null == (self.entry == 0 && self.sequence == 0),
    {
        self.entry == 0 && self.sequence == 0
    }

    /// Whether the reference is stale with respect to a record that was read
    /// from its entry: the record has another sequence number.
    pub fn is_stale_for(self, header: &FileRecordHeader) -> (stale: bool)
        ensures
            stale == (self.sequence != header.sequence_number),
    {
        self.sequence != header.sequence_number
    }
}

/// The fixed fields at the start of a file record.
#[derive(Debug, Clone, Copy, PartialEq, Eq, Structural)]
pub struct FileRecordHeader {
    pub logfile_sequence_number: u64,
    pub sequence_number: u16,
    pub hard_link_count: u16,
    /// Bit set: [`RECORD_IN_USE`], [`RECORD_IS_DIRECTORY`].
    pub flags: u16,
    pub real_size: u32,
    pub allocated_size: u32,
    /// Zero in a base record; in an extension record, the base record.
    pub base_file_reference: FileReference,
    pub next_attribute_id: u16,
    /// The number of the record, in the layout that holds it.
    pub record_number: Option<u32>,
}

impl FileRecordHeader {
    /// The used part of a record lies within its allocated part, and that
    /// within a segment of `segment_size` bytes.
    pub open spec fn fits(self, segment_size: int) -> bool {
        self.real_size <= self.allocated_size <= segment_size
    }

    /// Whether the record is in use.
    pub fn is_in_use(&self) -> (in_use: bool)
        ensures
            in_use == (self.flags & RECORD_IN_USE != 0),
    {
        self.flags & RECORD_IN_USE != 0
    }

    /// Whether the record describes a directory.
    pub fn is_directory(&self) -> (directory: bool)
        ensures
            directory == (self.flags & RECORD_IS_DIRECTORY != 0),
    {
        self.flags & RECORD_IS_DIRECTORY != 0
    }

    /// Whether the record is a base record and not an extension of one.
    pub fn is_base(&self) -> (base: bool)
        ensures
            base == (self.base_file_reference.entry == 0 && self.base_file_reference.sequence
                == 0),
    {
        self.base_file_reference.is_null()
    }
}

/// A decoded file record: its header and its attributes in order.
#[derive(Debug, Clone, PartialEq, Eq)]
pub struct FileRecord {
    pub header: FileRecordHeader,
    pub attributes: Vec<Attribute>,
    /// Whether the end marker closed the attributes; see
    /// [`crate::master_file_table::attribute::AttributeStream`].
    pub terminated: bool,
}

/// The mathematical value of a [`FileRecord`].
pub struct FileRecordModel {
    pub header: FileRecordHeader,
    pub attributes: Seq<AttributeModel>,
    pub terminated: bool,
}

impl View for FileRecord {
    type V = FileRecordModel;

    open spec fn view(&self) -> FileRecordModel {
        FileRecordModel {
            header: self.header,
            attributes: models(self.attributes@),
            terminated: self.terminated,
        }
    }
}

/// The number of whole sectors in a record.
pub open spec fn sector_count(record: Seq<u8>) -> int {
    record.len() as int / SECTOR_SIZE as int
}

/// Where the update sequence starts: first the update sequence number, then
/// for each sector the two bytes that belong at its end.
pub open spec fn update_sequence_offset(record: Seq<u8>) -> int {
    le_field(record, 0x04, 2) as int
}

/// The number of two-byte words in the update sequence.
pub open spec fn update_sequence_length(record: Seq<u8>) -> int {
    le_field(record, 0x06, 2) as int
}

/// The update sequence holds the update sequence number and one word for
/// each sector, and ends before the tail of the first sector.
pub open spec fn update_sequence_fits(record: Seq<u8>) -> bool {
    &&& update_sequence_length(record) == sector_count(record) + 1
    &&& update_sequence_offset(record) + 2 * update_sequence_length(record) <= SECTOR_TAIL
}

/// Whether sector `k` of the record ends in the update sequence number.
pub open spec fn tail_is_stamped(record: Seq<u8>, k: int) -> bool {
    let tail = SECTOR_SIZE * k + SECTOR_TAIL;
    let usn = update_sequence_offset(record);
    record[tail] == record[usn] && record[tail + 1] == record[usn + 1]
}

/// Whether every sector of the record ends in the update sequence number.
pub open spec fn all_tails_stamped(record: Seq<u8>) -> bool {
    forall|k: int| 0 <= k < sector_count(record) ==> #[trigger] tail_is_stamped(record, k)
}

/// The byte that belongs at position `i` of the record: for the last two
/// bytes of a sector among the first `sectors`, the byte that the update
/// sequence keeps for them; anywhere else, the byte that is there.
pub open spec fn restored_byte(record: Seq<u8>, sectors: int, i: int) -> u8 {
    let k = i / SECTOR_SIZE as int;
    let within = i % SECTOR_SIZE as int;
    if within >= SECTOR_TAIL && k < sectors {
        record[update_sequence_offset(record) + 2 * (k + 1) + (within - SECTOR_TAIL)]
    } else {
        record[i]
    }
}

/// The record with the tails of its first `sectors` sectors restored.
pub open spec fn restored(record: Seq<u8>, sectors: int) -> Seq<u8> {
    Seq::new(record.len(), |i: int| restored_byte(record, sectors, i))
}

/// What the fixup makes of a record.
///
/// A record that is empty or not made of whole sectors is `Truncated`. One
/// whose update sequence does not fit, or that has a sector which does not
/// end in the update sequence number, is `BadFixup`. Any other record comes
/// out with the last two bytes of every sector restored.
pub open spec fn fixup_of(record: Seq<u8>) -> Result<Seq<u8>, FormatError> {
    if record.len() == 0 || record.len() % SECTOR_SIZE as nat != 0 {
        Err(FormatError::Truncated)
    } else if !update_sequence_fits(record) || !all_tails_stamped(record) {
        Err(FormatError::BadFixup)
    } else {
        Ok(restored(record, sector_count(record)))
    }
}

/// Verifies the tail of every sector of a record against the update
/// sequence number, and gives back the record with the tails restored.
/// The record that was handed in is left as it is.
///
/// The result is exactly [`fixup_of`].
pub fn apply_fixup(record: &[u8]) -> (result: Result<Vec<u8>, FormatError>)
    ensures
        viewed(result) == fixup_of(record@),
{
    let n = record.len();
    if n == 0 || n % SECTOR_SIZE != 0 {
        return Err(FormatError::Truncated);
    }
    let sectors = n / SECTOR_SIZE;
    let usn = read_u16(record, 0x04) as usize;
    let words = read_u16(record, 0x06) as usize;
    if words != sectors + 1 || usn + 2 * words > SECTOR_TAIL {
        return Err(FormatError::BadFixup);
    }
    let mut fixed = slice_to_vec(record);
    let mut k: usize = 0;
    proof {
        assert(fixed@ =~= restored(record@, 0));
    }
    while k < sectors
        invariant
            k <= sectors,
            n == record@.len(),
            n == sectors * SECTOR_SIZE,
            sectors == sector_count(record@),
            usn == update_sequence_offset(record@),
            usn + 2 * (sectors + 1) <= SECTOR_TAIL,
            forall|j: int| 0 <= j < k ==> #[trigger] tail_is_stamped(record@, j),
            fixed@ == restored(record@, k as int),
        decreases sectors - k,
    {
        let tail = SECTOR_SIZE * k + SECTOR_TAIL;
        if record[tail] != record[usn] || record[tail + 1] != record[usn + 1] {
            proof {
                assert(!tail_is_stamped(record@, k as int));
            }
            return Err(FormatError::BadFixup);
        }
        let kept = usn + 2 * (k + 1);
        let ghost before = fixed@;
        fixed[tail] = record[kept];
        fixed[tail + 1] = record[kept + 1];
        proof {
            assert(fixed@ =~= restored(record@, k + 1)) by {
                assert forall|i: int| 0 <= i < n implies fixed@[i] == restored_byte(
                    record@,
                    k + 1,
                    i,
                ) by {
                    assert(before[i] == restored_byte(record@, k as int, i));
                }
            }
        }
        k = k + 1;
    }
    Ok(fixed)
}

/// Byte `j` of the tail of sector `k`.
pub open spec fn tail_byte(record: Seq<u8>, k: int, j: int) -> u8 {
    record[SECTOR_SIZE * k + SECTOR_TAIL + j]
}

/// Byte `j` of the word that the update sequence keeps for sector `k`.
pub open spec fn kept_byte(record: Seq<u8>, k: int, j: int) -> u8 {
    record[update_sequence_offset(record) + 2 * (k + 1) + j]
}

/// Whether position `i` lies outside the last two bytes of its sector.
pub open spec fn outside_tails(i: int) -> bool {
    i % (SECTOR_SIZE as int) < (SECTOR_TAIL as int)
}

/// Fixup round trip. Take a record made of whole sectors, each of which
/// ends in the update sequence number, with an update sequence that keeps
/// one word for each sector. Then the fixup succeeds; the tail of every
/// sector of its result holds the word kept for that sector; and every byte
/// outside the tails is what it was.
pub proof fn lemma_fixup_restores_tails(record: Seq<u8>)
    requires
        record.len() > 0,
        record.len() % SECTOR_SIZE as nat == 0,
        update_sequence_fits(record),
        all_tails_stamped(record),
    ensures
        fixup_of(record) is Ok,
        fixup_of(record)->Ok_0.len() == record.len(),
        forall|k: int, j: int|
            0 <= k < sector_count(record) && 0 <= j < 2 ==> #[trigger] tail_byte(
                fixup_of(record)->Ok_0,
                k,
                j,
            ) == kept_byte(record, k, j),
        forall|i: int|
            0 <= i < record.len() && outside_tails(i) ==> #[trigger] fixup_of(record)->Ok_0[i]
                == record[i],
{
    let fixed = fixup_of(record)->Ok_0;
    let sectors = sector_count(record);
    assert forall|k: int, j: int| 0 <= k < sectors && 0 <= j < 2 implies #[trigger] tail_byte(
        fixed,
        k,
        j,
    ) == kept_byte(record, k, j) by {
        let i = SECTOR_SIZE * k + SECTOR_TAIL + j;
        assert(i / SECTOR_SIZE as int == k && i % SECTOR_SIZE as int == SECTOR_TAIL + j);
        assert(fixed[i] == restored_byte(record, sectors, i));
    }
}

/// A torn record is found out. In a record made of whole sectors, one
/// sector that does not end in the update sequence number makes the fixup
/// fail with `BadFixup`, whatever the number of sectors.
pub proof fn lemma_torn_sector_is_bad_fixup(record: Seq<u8>, k: int)
    requires
        record.len() > 0,
        record.len() % SECTOR_SIZE as nat == 0,
        0 <= k < sector_count(record),
        !tail_is_stamped(record, k),
    ensures
        fixup_of(record) == Err::<Seq<u8>, FormatError>(FormatError::BadFixup),
        has_file_magic(record) ==> file_record_of(record) == Err::<FileRecordModel, FormatError>(
            FormatError::BadFixup,
        ),
{
}

/// The four bytes `FILE` that start a readable record.
pub open spec fn file_magic() -> Seq<u8> {
    seq![0x46u8, 0x49u8, 0x4Cu8, 0x45u8]
}

/// The four bytes `BAAD` that start a record which was marked unreadable.
pub open spec fn baad_magic() -> Seq<u8> {
    seq![0x42u8, 0x41u8, 0x41u8, 0x44u8]
}

/// Whether the record starts with `FILE`.
pub open spec fn has_file_magic(record: Seq<u8>) -> bool {
    record.len() >= 4 && record.subrange(0, 4) == file_magic()
}

/// Whether the record starts with `BAAD`.
pub open spec fn has_baad_magic(record: Seq<u8>) -> bool {
    record.len() >= 4 && record.subrange(0, 4) == baad_magic()
}

/// The header fields of a record whose sector tails have been restored.
/// The number of the record is there where the update sequence leaves room
/// for it, that is where it starts at 0x30 or later.
pub open spec fn header_of(fixed: Seq<u8>) -> FileRecordHeader {
    FileRecordHeader {
        logfile_sequence_number: le_field(fixed, 0x08, 8) as u64,
        sequence_number: le_field(fixed, 0x10, 2) as u16,
        hard_link_count: le_field(fixed, 0x12, 2) as u16,
        flags: le_field(fixed, 0x16, 2) as u16,
        real_size: le_field(fixed, 0x18, 4) as u32,
        allocated_size: le_field(fixed, 0x1C, 4) as u32,
        base_file_reference: FileReference::unpacked(le_field(fixed, 0x20, 8) as u64),
        next_attribute_id: le_field(fixed, 0x28, 2) as u16,
        record_number: if update_sequence_offset(fixed) >= LONG_HEADER_LENGTH {
            Some(le_field(fixed, 0x2C, 4) as u32)
        } else {
            None
        },
    }
}

/// Where the first attribute of a record starts.
pub open spec fn first_attribute_offset(fixed: Seq<u8>) -> int {
    le_field(fixed, 0x14, 2) as int
}

/// What a record whose sector tails have been restored decodes to.
///
/// `Truncated` unless the real size is at most the allocated size, that at
/// most the length of the record, and the first attribute starts within the
/// real size. The attributes are those that stand between the first
/// attribute and the real size.
pub open spec fn record_body_of(fixed: Seq<u8>) -> Result<FileRecordModel, FormatError> {
    let header = header_of(fixed);
    let first = first_attribute_offset(fixed);
    if !header.fits(fixed.len() as int) || first > header.real_size {
        Err(FormatError::Truncated)
    } else {
        match attribute_stream_of(
            fixed.subrange(first, fixed.len() as int),
            header.real_size - first,
        ) {
            Err(e) => Err(e),
            Ok(stream) => Ok(
                FileRecordModel {
                    header,
                    attributes: stream.attributes,
                    terminated: stream.terminated,
                },
            ),
        }
    }
}

/// What a file record segment decodes to.
///
/// A segment of fewer than four bytes is `Truncated`. One that starts with
/// `BAAD` is `Corrupt`, and one that starts with anything but `FILE` or
/// `BAAD` is `BadMagic`. A segment that starts with `FILE` first goes
/// through the fixup, and fails as it fails; what comes out of the fixup is
/// decoded as [`record_body_of`] says.
pub open spec fn file_record_of(record: Seq<u8>) -> Result<FileRecordModel, FormatError> {
    if record.len() < 4 {
        Err(FormatError::Truncated)
    } else if has_baad_magic(record) {
        Err(FormatError::Corrupt)
    } else if !has_file_magic(record) {
        Err(FormatError::BadMagic)
    } else {
        match fixup_of(record) {
            Err(e) => Err(e),
            Ok(fixed) => record_body_of(fixed),
        }
    }
}

fn starts_with(record: &[u8], b0: u8, b1: u8, b2: u8, b3: u8) -> (found: bool)
    requires
        record@.len() >= 4,
    ensures
        found == (record@.subrange(0, 4) == seq![b0, b1, b2, b3]),
{
    let found = record[0] == b0 && record[1] == b1 && record[2] == b2 && record[3] == b3;
    proof {
        let head = record@.subrange(0, 4);
        if found {
            assert(head =~= seq![b0, b1, b2, b3]);
        } else {
            assert(head[0] == record@[0] && head[1] == record@[1] && head[2] == record@[2]
                && head[3] == record@[3]);
        }
    }
    found
}

fn decode_header(fixed: &[u8]) -> (header: FileRecordHeader)
    requires
        fixed@.len() >= SECTOR_SIZE,
    ensures
        header == header_of(fixed@),
{
    proof {
        lemma_radix_values();
    }
    let record_number = if read_u16(fixed, 0x04) as usize >= LONG_HEADER_LENGTH {
        Some(read_u32(fixed, 0x2C))
    } else {
        None
    };
    FileRecordHeader {
        logfile_sequence_number: read_u64(fixed, 0x08),
        sequence_number: read_u16(fixed, 0x10),
        hard_link_count: read_u16(fixed, 0x12),
        flags: read_u16(fixed, 0x16),
        real_size: read_u32(fixed, 0x18),
        allocated_size: read_u32(fixed, 0x1C),
        base_file_reference: FileReference::from_raw(read_u64(fixed, 0x20)),
        next_attribute_id: read_u16(fixed, 0x28),
        record_number,
    }
}

/// Decodes one file record segment: checks its magic number, verifies
/// and undoes the sector fixup, reads the header and walks the attributes.
///
/// The result is exactly [`file_record_of`]. The header of a record that
/// comes out satisfies `real_size <= allocated_size <= record.len()`.
pub fn decode_file_record(record: &[u8]) -> (result: Result<FileRecord, FormatError>)
    ensures
        viewed(result) == file_record_of(record@),
        result matches Ok(decoded) ==> decoded.header.fits(record@.len() as int),
{
    if record.len() < 4 {
        return Err(FormatError::Truncated);
    }
    if starts_with(record, 0x42, 0x41, 0x41, 0x44) {
        return Err(FormatError::Corrupt);
    }
    if !starts_with(record, 0x46, 0x49, 0x4C, 0x45) {
        return Err(FormatError::BadMagic);
    }
    let fixed_bytes = match apply_fixup(record) {
        Ok(fixed) => fixed,
        Err(e) => {
            return Err(e);
        },
    };
    let fixed = fixed_bytes.as_slice();
    let n = fixed.len();
    let header = decode_header(fixed);
    let first = read_u16(fixed, 0x14) as usize;
    proof {
        lemma_radix_values();
    }
    if header.real_size > header.allocated_size || header.allocated_size as usize > n || first
        > header.real_size as usize {
        return Err(FormatError::Truncated);
    }
    let used = header.real_size as usize - first;
    match decode_attributes(slice_subrange(fixed, first, n), used) {
        Err(e) => Err(e),
        Ok(stream) => Ok(
            FileRecord { header, attributes: stream.attributes, terminated: stream.terminated },
        ),
    }
}

/// Decoding is a function of the bytes alone: whatever two decodings of the
/// same bytes return, they return the same value. Decoding reads the record
/// through a shared reference and keeps nothing between calls.
pub proof fn lemma_decoding_is_deterministic(
    record: Seq<u8>,
    first: Result<FileRecord, FormatError>,
    second: Result<FileRecord, FormatError>,
)
    requires
        viewed(first) == file_record_of(record),
        viewed(second) == file_record_of(record),
    ensures
        viewed(first) == viewed(second),
{
}

} // verus!
