//! All file, directory and metafile data—file name, creation date, size and access permissions are stored in the Master File Table.
//! The MFT is a collection of FILE records.
//! Each file in the MFT has a `fileID`, this is analogous to an inode in unix.
//! The description of each file is packed into [FILE records](struct@crate::file_record::FileRecord).
//! If one FILE record is not large enough (this is unusual), then an $ATTRIBUTE_LIST attribute is needed.
//! The first 24 FILE records are reserved for the system files.
//!
//!| fileID | Filename  | OS  | Description                                            |
//!|--------|-----------|-----|--------------------------------------------------------|
//!| 0      | $MFT      |     | Master File Table - An index of every file             |
//!| 1      | $MFTMirr  |     | A backup copy of the first 4 records of the MFT        |
//!| 2      | $LogFile  |     | Transactional logging file                             |
//!| 3      | $Volume   |     | Serial number, creation time, dirty flag               |
//!| 4      | $AttrDef  |     | Attribute definitions                                  |
//!| 5      | . (dot)   |     | Root directory of the disk                             |
//!| 6      | $Bitmap   |     | Contains volume's cluster map (in-use vs. free)        |
//!| 7      | $Boot     |     | Boot record of the volume                              |
//!| 8      | $BadClus  |     | Lists bad clusters on the volume                       |
//!| 9      | $Quota    | NT  | Quota information                                      |
//!| 9      | $Secure   | 2K  | Security descriptors used by the volume                |
//!| 10     | $UpCase   |     | Table of uppercase characters used for collating       |
//!| 11     | $Extend   | 2K  | A directory: $ObjId, $Quota, $Reparse, $UsnJrnl        |
//!|        |           |     |                                                        |
//!| 12-15  | \<Unused> |     | Marked as in use but empty                             |
//!| 16-23  | \<Unused> |     | Marked as unused                                       |
//!|        |           |     |                                                        |
//!| Any    | $ObjId    | 2K  | Unique Ids given to every file                         |
//!| Any    | $Quota    | 2K  | Quota information                                      |
//!| Any    | $Reparse  | 2K  | Reparse point information                              |
//!| Any    | $UsnJrnl  | 2K  | Journalling of Encryption                              |
//!|        |           |     |                                                        |
//!| > 24   | A_File    |     | An ordinary file                                       |
//!| > 24   | A_Dir     |     | An ordinary directory                                  |
//!| ...    | ...       |     | ...                                                    |
use crate::file_record::{decode_file_record, file_record_of, FileRecord, FileRecordModel};
use crate::format_error::{viewed, FormatError};
use crate::master_file_table::attribute::{Attribute, AttributeModel, DATA_OFFSET};
use crate::partition_boot_sector::PartitionBootSector;
use crate::run_list::{lcn_after, lemma_lcn_bound, DataRun};
use std::collections::HashMap;
use vstd::prelude::*;

pub mod attribute;

verus! {

/// Every attribute in every MFT record has a standard header.
/// The header stores information about the attribute's type, size, name (optional) and whether it is resident, or not.
/// Its flags say how the attribute's data is stored.
/// <https://flatcap.github.io/linux-ntfs/ntfs/concepts/attribute_header.html>
#[derive(Debug, Clone, Copy, PartialEq, Eq, Structural)]
pub enum Flag {
    Compressed,
    Encrypted,
    Sparse,
}

impl Flag {
    /// The bit of the flags field that stands for the flag.
    pub open spec fn bit(self) -> u16 {
        match self {
            Flag::Compressed => 0x0001,
            Flag::Encrypted => 0x4000,
            Flag::Sparse => 0x8000,
        }
    }

    /// The bit of the flags field that stands for the flag.
    pub fn mask(self) -> (mask: u16)
        ensures
            mask == self.bit(),
    {
        match self {
            Flag::Compressed => 0x0001,
            Flag::Encrypted => 0x4000,
            Flag::Sparse => 0x8000,
        }
    }

    /// Whether the flag is set in a flags field.
    pub open spec fn set_in(self, flags: u16) -> bool {
        flags & self.bit() != 0
    }

    /// Whether the flag is set in a flags field.
    pub fn is_set_in(self, flags: u16) -> (set: bool)
        ensures
            set == self.set_in(flags),
    {
        flags & self.mask() != 0
    }
}

broadcast use vstd::std_specs::hash::group_hash_axioms;

/// Where on the volume a byte of a non-resident attribute lies.
///
/// `position` is a byte position in the data that the runs from `from` on
/// describe, on a volume whose clusters hold `cluster_bytes` bytes each. The
/// runs are walked in order, each taking up its length in the data, until
/// the position falls inside one. The answer is the start of that run on the
/// volume plus the position within it. There is none where the position lies
/// beyond the last run, inside a sparse run, or inside a run that would
/// start before the first cluster of the volume.
pub open spec fn located_from(
    runs: Seq<DataRun>,
    cluster_bytes: int,
    position: int,
    from: int,
) -> Option<int>
    decreases runs.len() - from,
{
    if from < 0 || from >= runs.len() {
        None
    } else {
        let extent = runs[from].length_in_clusters as int * cluster_bytes;
        if position < extent {
            let lcn = lcn_after(runs, from + 1);
            if runs[from].cluster_offset is Some && lcn >= 0 {
                Some(lcn * cluster_bytes + position)
            } else {
                None
            }
        } else {
            located_from(runs, cluster_bytes, position - extent, from + 1)
        }
    }
}

/// The start of the data lies at the start of the first run: where the first
/// run has clusters, starts at cluster `lcn` of the volume and is not empty,
/// position 0 is at `lcn` clusters from the start of the volume.
pub proof fn lemma_first_run_holds_the_start(runs: Seq<DataRun>, cluster_bytes: int, lcn: i64)
    requires
        runs.len() > 0,
        runs[0].cluster_offset == Some(lcn),
        runs[0].length_in_clusters > 0,
        lcn >= 0,
        cluster_bytes > 0,
    ensures
        located_from(runs, cluster_bytes, 0, 0) == Some(lcn * cluster_bytes),
{
    reveal_with_fuel(lcn_after, 2);
    assert(runs[0].length_in_clusters as int * cluster_bytes > 0) by (nonlinear_arith)
        requires
            runs[0].length_in_clusters > 0,
            cluster_bytes > 0,
    ;
}

/// What [`locate`] returns: the offset on the volume where there is one that
/// a `u64` holds, and `OutOfRange` otherwise.
pub open spec fn location_of(runs: Seq<DataRun>, cluster_bytes: int, position: int) -> Result<
    u64,
    FormatError,
> {
    match located_from(runs, cluster_bytes, position, 0) {
        Some(offset) => if offset <= u64::MAX {
            Ok(offset as u64)
        } else {
            Err(FormatError::OutOfRange)
        },
        None => Err(FormatError::OutOfRange),
    }
}

/// Maps a byte position in the data of a non-resident attribute to its byte
/// offset on the volume.
///
/// The result is exactly [`location_of`]. A position inside a sparse run
/// has no place on the volume and is `OutOfRange`, as is a position beyond
/// the last run.
pub fn locate(runs: &Vec<DataRun>, cluster_size: u32, position: u128) -> (result: Result<
    u64,
    FormatError,
>)
    ensures
        result == location_of(runs@, cluster_size as int, position as int),
{
    let cluster = cluster_size as u128;
    let mut remaining: u128 = position;
    let mut lcn: i128 = 0;
    let mut i: usize = 0;
    while i < runs.len()
        invariant
            i <= runs@.len(),
            cluster == cluster_size,
            lcn == lcn_after(runs@, i as int),
            located_from(runs@, cluster_size as int, position as int, 0) == located_from(
                runs@,
                cluster_size as int,
                remaining as int,
                i as int,
            ),
        decreases runs@.len() - i,
    {
        let run = runs[i];
        proof {
            lemma_lcn_bound(runs@, i as int);
            lemma_lcn_bound(runs@, i + 1);
            assert(run.length_in_clusters as int * cluster_size as int <= 0xFFFF_FFFF_FFFF_FFFF
                * 0xFFFF_FFFF) by (nonlinear_arith)
                requires
                    run.length_in_clusters <= 0xFFFF_FFFF_FFFF_FFFF,
                    cluster_size <= 0xFFFF_FFFF,
            ;
        }
        let extent: u128 = run.length_in_clusters as u128 * cluster;
        let start: i128 = match run.cluster_offset {
            Some(offset) => lcn + offset as i128,
            None => lcn,
        };
        if remaining < extent {
            if run.cluster_offset.is_none() || start < 0 {
                return Err(FormatError::OutOfRange);
            }
            if start > u64::MAX as i128 {
                proof {
                    assert(start * cluster_size as int + remaining > u64::MAX) by (nonlinear_arith)
                        requires
                            start > u64::MAX,
                            cluster_size >= 1,
                            remaining >= 0,
                    ;
                }
                return Err(FormatError::OutOfRange);
            }
            proof {
                assert(start * cluster_size as int <= 0xFFFF_FFFF_FFFF_FFFF * 0xFFFF_FFFF)
                    by (nonlinear_arith)
                    requires
                        0 <= start <= 0xFFFF_FFFF_FFFF_FFFF,
                        cluster_size <= 0xFFFF_FFFF,
                ;
            }
            let base: u128 = start as u128 * cluster;
            return match base.checked_add(remaining) {
                Some(offset) => if offset <= u64::MAX as u128 {
                    Ok(offset as u64)
                } else {
                    Err(FormatError::OutOfRange)
                },
                None => Err(FormatError::OutOfRange),
            };
        }
        remaining = remaining - extent;
        lcn = start;
        i = i + 1;
    }
    Err(FormatError::OutOfRange)
}

/// Whether an attribute is the unnamed `$DATA` attribute of its record.
pub open spec fn is_unnamed_data(attribute: AttributeModel) -> bool {
    attribute.header().type_code == DATA_OFFSET && attribute.header().name is None
}

/// The first unnamed `$DATA` attribute among `attributes[from..]`.
pub open spec fn first_unnamed_data(attributes: Seq<AttributeModel>, from: int) -> Option<
    AttributeModel,
>
    decreases attributes.len() - from,
{
    if from < 0 || from >= attributes.len() {
        None
    } else if is_unnamed_data(attributes[from]) {
        Some(attributes[from])
    } else {
        first_unnamed_data(attributes, from + 1)
    }
}

/// The runs that back the master file table, as its own record, record 0,
/// gives them: the runs of its unnamed `$DATA` attribute. `OutOfRange` where
/// the record has no such attribute or holds its data itself: no record can
/// then be found through it.
pub open spec fn table_runs_of(record: FileRecordModel) -> Result<Seq<DataRun>, FormatError> {
    match first_unnamed_data(record.attributes, 0) {
        Some(AttributeModel::NonResident { data_runs, .. }) => Ok(data_runs),
        _ => Err(FormatError::OutOfRange),
    }
}

/// Takes the runs that back the master file table out of its own record.
///
/// The result is exactly [`table_runs_of`].
pub fn table_runs(record: &FileRecord) -> (result: Result<Vec<DataRun>, FormatError>)
    ensures
        viewed(result) == table_runs_of(record@),
{
    let mut i: usize = 0;
    while i < record.attributes.len()
        invariant
            i <= record.attributes@.len(),
            first_unnamed_data(record@.attributes, 0) == first_unnamed_data(
                record@.attributes,
                i as int,
            ),
        decreases record.attributes@.len() - i,
    {
        let attribute = &record.attributes[i];
        assert(record@.attributes[i as int] == attribute@);
        let header = attribute.header();
        if header.type_code as u64 == DATA_OFFSET && header.name.is_none() {
            return match attribute {
                Attribute::NonResident { data_runs, .. } => {
                    let mut runs: Vec<DataRun> = Vec::new();
                    let mut j: usize = 0;
                    while j < data_runs.len()
                        invariant
                            j <= data_runs@.len(),
                            runs@ == data_runs@.subrange(0, j as int),
                        decreases data_runs@.len() - j,
                    {
                        runs.push(data_runs[j]);
                        proof {
                            assert(runs@ =~= data_runs@.subrange(0, j + 1));
                        }
                        j = j + 1;
                    }
                    proof {
                        assert(runs@ =~= data_runs@);
                    }
                    Ok(runs)
                },
                Attribute::Resident { .. } => Err(FormatError::OutOfRange),
            };
        }
        i = i + 1;
    }
    Err(FormatError::OutOfRange)
}

/// One positioned read of the volume: `length` bytes from byte `offset`.
#[derive(Debug, Clone, Copy, PartialEq, Eq, Structural)]
pub struct ReadRequest {
    pub offset: u64,
    pub length: u32,
}

/// The read that fetches record 0, the record of the master file table
/// itself. Record 0 always stands at the first cluster of the table that the
/// boot sector names, so that it can be read before anything is known of
/// where the rest of the table lies.
pub fn bootstrap_request(geometry: &PartitionBootSector) -> (result: Result<
    ReadRequest,
    FormatError,
>)
    requires
        geometry.valid(),
    ensures
        match result {
            Ok(request) => request.offset == geometry.mft_cluster_number
                * geometry.cluster_bytes() && request.length == geometry.record_bytes(),
            Err(e) => e == FormatError::OutOfRange && geometry.mft_cluster_number
                * geometry.cluster_bytes() > u64::MAX,
        },
{
    match geometry.mft_offset() {
        Ok(offset) => Ok(ReadRequest { offset, length: geometry.record_size() }),
        Err(e) => Err(e),
    }
}

/// What decoding a segment of a volume with the given geometry makes of it:
/// `Truncated` where the segment has not the length of a file record
/// segment, and otherwise what [`file_record_of`] says.
pub open spec fn segment_of(geometry: PartitionBootSector, segment: Seq<u8>) -> Result<
    FileRecordModel,
    FormatError,
> {
    if segment.len() != geometry.record_bytes() {
        Err(FormatError::Truncated)
    } else {
        file_record_of(segment)
    }
}

/// How record `n` is to be had: it is kept, or it has to be read.
#[derive(Debug, Clone, Copy, PartialEq, Eq)]
pub enum Lookup<'a> {
    /// The record is kept; here it is.
    Kept(&'a FileRecord),
    /// The record is not kept. This read fetches its segment, which
    /// [`MftIndex::insert`] then decodes and keeps.
    Fetch(ReadRequest),
}

/// The master file table of a volume: the geometry of the volume, the runs
/// that back the table, and the records decoded so far, by number.
///
/// A record is kept as it was decoded and never changed. It may be dropped
/// and decoded again at will; decoding a record anew replaces what was kept
/// for its number.
pub struct MftIndex {
    geometry: PartitionBootSector,
    runs: Vec<DataRun>,
    cache: HashMap<u64, FileRecord>,
}

impl MftIndex {
    /// The geometry of the volume.
    pub closed spec fn volume(&self) -> PartitionBootSector {
        self.geometry
    }

    /// The runs that back the table.
    pub closed spec fn extents(&self) -> Seq<DataRun> {
        self.runs@
    }

    /// The records that are kept, by number.
    pub closed spec fn records(&self) -> Map<u64, FileRecord> {
        self.cache@
    }

    /// The geometry is that of a usable volume.
    pub open spec fn wf(&self) -> bool {
        self.volume().valid()
    }

    /// The byte offset on the volume of record `n`: the position `n` times
    /// the record size in the table, mapped through the runs of the table.
    pub open spec fn offset_of(&self, n: u64) -> Result<u64, FormatError> {
        location_of(
            self.extents(),
            self.volume().cluster_bytes() as int,
            n * self.volume().record_bytes(),
        )
    }

    /// Builds the index of a volume from its geometry and from the segment
    /// that [`bootstrap_request`] names, which holds record 0.
    ///
    /// `InvalidBootSector` where the geometry is not valid. Otherwise the
    /// segment is decoded as [`segment_of`] says and the runs of the table
    /// are taken from it as [`table_runs_of`] says; the first error of the
    /// two is returned. On success record 0 is kept, and no other.
    pub fn bootstrap(geometry: PartitionBootSector, segment: &[u8]) -> (result: Result<
        MftIndex,
        FormatError,
    >)
        ensures
            match result {
                Ok(index) => {
                    &&& geometry.valid()
                    &&& index.wf()
                    &&& index.volume() == geometry
                    &&& index.records().dom() == set![0u64]
                    &&& segment_of(geometry, segment@) == Ok::<FileRecordModel, FormatError>(
                        index.records()[0]@,
                    )
                    &&& table_runs_of(index.records()[0]@) == Ok::<Seq<DataRun>, FormatError>(
                        index.extents(),
                    )
                },
                Err(e) => if !geometry.valid() {
                    e == FormatError::InvalidBootSector
                } else {
                    match segment_of(geometry, segment@) {
                        Err(failure) => e == failure,
                        Ok(record) => table_runs_of(record) == Err::<Seq<DataRun>, FormatError>(e),
                    }
                },
            },
    {
        if !geometry.is_valid() {
            return Err(FormatError::InvalidBootSector);
        }
        if segment.len() != geometry.record_size() as usize {
            return Err(FormatError::Truncated);
        }
        let record = match decode_file_record(segment) {
            Ok(record) => record,
            Err(e) => {
                return Err(e);
            },
        };
        let runs = match table_runs(&record) {
            Ok(runs) => runs,
            Err(e) => {
                return Err(e);
            },
        };
        let mut cache: HashMap<u64, FileRecord> = HashMap::new();
        cache.insert(0, record);
        let index = MftIndex { geometry, runs, cache };
        proof {
            assert(index.records().dom() =~= set![0u64]);
        }
        Ok(index)
    }

    /// The geometry of the volume.
    pub fn geometry(&self) -> (geometry: &PartitionBootSector)
        ensures
            *geometry == self.volume(),
    {
        &self.geometry
    }

    /// The runs that back the table.
    pub fn runs(&self) -> (runs: &Vec<DataRun>)
        ensures
            runs@ == self.extents(),
    {
        &self.runs
    }

    /// The byte offset on the volume at which record `n` starts.
    ///
    /// The result is exactly [`MftIndex::offset_of`]: `OutOfRange` where the
    /// record lies beyond the runs of the table or in a sparse run.
    pub fn record_offset(&self, n: u64) -> (result: Result<u64, FormatError>)
        requires
            self.wf(),
        ensures
            result == self.offset_of(n),
    {
        let size = self.geometry.record_size();
        assert(n as int * size as int <= 0xFFFF_FFFF_FFFF_FFFF * 0xFFFF_FFFF) by (nonlinear_arith)
            requires
                n <= 0xFFFF_FFFF_FFFF_FFFF,
                size <= 0xFFFF_FFFF,
        ;
        let position: u128 = n as u128 * size as u128;
        locate(&self.runs, self.geometry.cluster_size(), position)
    }

    /// The read that fetches record `n`.
    pub fn request(&self, n: u64) -> (result: Result<ReadRequest, FormatError>)
        requires
            self.wf(),
        ensures
            match result {
                Ok(request) => self.offset_of(n) == Ok::<u64, FormatError>(request.offset)
                    && request.length == self.volume().record_bytes(),
                Err(e) => self.offset_of(n) == Err::<u64, FormatError>(e),
            },
    {
        match self.record_offset(n) {
            Ok(offset) => Ok(ReadRequest { offset, length: self.geometry.record_size() }),
            Err(e) => Err(e),
        }
    }

    /// The record that is kept for number `n`, if one is.
    pub fn cached(&self, n: u64) -> (record: Option<&FileRecord>)
        ensures
            match record {
                Some(kept) => self.records().contains_key(n) && *kept == self.records()[n],
                None => !self.records().contains_key(n),
            },
    {
        self.cache.get(&n)
    }

    /// Decides how record `n` is to be had. A record that is kept is handed
    /// out, and nothing is read for it. For one that is not kept the answer
    /// is the read that fetches it, or `OutOfRange` where the record has no
    /// place on the volume.
    pub fn lookup(&self, n: u64) -> (result: Result<Lookup<'_>, FormatError>)
        requires
            self.wf(),
        ensures
            match result {
                Ok(Lookup::Kept(kept)) => self.records().contains_key(n) && *kept
                    == self.records()[n],
                Ok(Lookup::Fetch(request)) => !self.records().contains_key(n) && self.offset_of(n)
                    == Ok::<u64, FormatError>(request.offset) && request.length
                    == self.volume().record_bytes(),
                Err(e) => !self.records().contains_key(n) && self.offset_of(n) == Err::<
                    u64,
                    FormatError,
                >(e),
            },
    {
        match self.cached(n) {
            Some(kept) => Ok(Lookup::Kept(kept)),
            None => match self.request(n) {
                Ok(request) => Ok(Lookup::Fetch(request)),
                Err(e) => Err(e),
            },
        }
    }

    /// Decodes the segment that was read for record `n`, and keeps the
    /// record in place of any that was kept for `n` before.
    ///
    /// The segment is decoded as [`segment_of`] says. Where that fails,
    /// the error is returned and the index is left as it was.
    pub fn insert(&mut self, n: u64, segment: &[u8]) -> (result: Result<(), FormatError>)
        requires
            old(self).wf(),
        ensures
            final(self).wf(),
            final(self).volume() == old(self).volume(),
            final(self).extents() == old(self).extents(),
            match result {
                Ok(()) => {
                    &&& final(self).records() == old(self).records().insert(
                        n,
                        final(self).records()[n],
                    )
                    &&& segment_of(old(self).volume(), segment@) == Ok::<
                        FileRecordModel,
                        FormatError,
                    >(final(self).records()[n]@)
                },
                Err(e) => {
                    &&& segment_of(old(self).volume(), segment@) == Err::<
                        FileRecordModel,
                        FormatError,
                    >(e)
                    &&& final(self).records() == old(self).records()
                },
            },
    {
        if segment.len() != self.geometry.record_size() as usize {
            return Err(FormatError::Truncated);
        }
        let record = match decode_file_record(segment) {
            Ok(record) => record,
            Err(e) => {
                return Err(e);
            },
        };
        self.cache.insert(n, record);
        Ok(())
    }

    /// Drops the record that is kept for number `n`, if one is. It can be
    /// read and decoded again later.
    pub fn evict(&mut self, n: u64)
        ensures
            final(self).volume() == old(self).volume(),
            final(self).extents() == old(self).extents(),
            final(self).records() == old(self).records().remove(n),
    {
        self.cache.remove(&n);
    }
}

} // verus!
