//! The partition boot sector: the first 512 bytes of the volume, which
//! locate the master file table and give the volume's geometry.
//!
//!| Byte offset | Field length | Typical value      | Field name                                | Purpose                                                                     |
//!|-------------|--------------|--------------------|-------------------------------------------|-----------------------------------------------------------------------------|
//!| 0x00        | 3 bytes      | 0xEB5290           | x86 JMP and NOP instructions              | Causes execution to continue after the data structures in this boot sector. |
//!| 0x03        | 8 bytes      | 'NTFS    '         | OEM ID                                    | This is the magic number that indicates this is an NTFS file system.        |
//!| 0x0B        | 2 bytes      | 0x0200             | BPB Bytes per sector                      | The number of bytes in a disk sector.                                       |
//!| 0x0D        | 1 byte       | 0x08               | Sectors Per Cluster                       | The number of sectors in a cluster.                                         |
//!| 0x0E        | 2 bytes      | 0x0000             | Reserved Sectors, unused                  |                                                                             |
//!| 0x10        | 3 bytes      | 0x000000           | Unused                                    | This field is always 0                                                      |
//!| 0x13        | 2 bytes      | 0x0000             | Unused by NTFS                            | This field is always 0                                                      |
//!| 0x15        | 1 byte       | 0xF8               | Media Descriptor                          | The type of drive. 0xF8 is used to denote a hard drive.                     |
//!| 0x16        | 2 bytes      | 0x0000             | Unused                                    | This field is always 0                                                      |
//!| 0x18        | 2 bytes      | 0x003F             | Sectors Per Track                         | The number of disk sectors in a drive track.                                |
//!| 0x1A        | 2 bytes      | 0x00FF             | Number Of Heads                           | The number of heads on the drive.                                           |
//!| 0x1C        | 4 bytes      | 0x0000003F         | Hidden Sectors                            | The number of sectors preceding the partition.                              |
//!| 0x20        | 4 bytes      | 0x00000000         | Unused                                    | Not used by NTFS                                                            |
//!| 0x24        | 4 bytes      | 0x00800080         | EBPB Unused                               | Not used by NTFS                                                            |
//!| 0x28        | 8 bytes      | 0x00000000007FF54A | Total sectors                             | The partition size in sectors.                                              |
//!| 0x30        | 8 bytes      | 0x0000000000000004 | $MFT cluster number                       | The cluster that contains the Master File Table                             |
//!| 0x38        | 8 bytes      | 0x000000000007FF54 | $MFTMirr cluster number                   | The cluster that contains a backup of the Master File Table                 |
//!| 0x40        | 1 byte       | 0xF6               | Bytes or Clusters Per File Record Segment | A positive/negative value denotes the segment size.                         |
//!| 0x41        | 3 bytes      | 0x000000           | Unused                                    | This field is not used by NTFS                                              |
//!| 0x44        | 1 byte       | 0x01               | Bytes or Clusters Per Index Buffer        | A positive/negative value denotes the buffer size.                          |
//!| 0x45        | 3 bytes      | 0x000000           | Unused                                    | This field is not used by NTFS                                              |
//!| 0x48        | 8 bytes      | 0x1C741BC9741BA514 | Volume Serial Number                      | A unique random number assigned to this partition.                          |
//!| 0x50        | 4 bytes      | 0x00000000         | Checksum, unused                          | Supposedly a checksum.                                                      |
//!| 0x54        | 426 bytes    |                    | Bootstrap Code                            | The code that loads the rest of the operating system.                       |
//!| 0x01FE      | 2 bytes      | 0xAA55             | End-of-sector Marker                      | This flag indicates that this is a valid boot sector.                       |
use crate::format_error::FormatError;
use crate::little_endian::{
    le_field, lemma_radix_values, read_u16, read_u32, read_u64, sign_extend, twos_complement,
};
use vstd::arithmetic::power2::{
    lemma2_to64, lemma_pow2_adds, lemma_pow2_strictly_increases, lemma_pow2_unfold, pow2,
};
use vstd::prelude::*;

verus! {

///512 bytes
pub const PARTITION_BOOT_SECTOR: usize = 512;

/// The only sector size that a valid boot sector declares.
pub const BYTES_PER_SECTOR: u16 = 512;

/// The value of the two bytes that close a boot sector.
pub const END_OF_SECTOR: u16 = 0xAA55;

/// A size that the boot sector gives either in clusters or in bytes.
#[derive(Debug, Clone, Copy, PartialEq, Eq, Structural)]
pub enum Size {
    Bytes(u128),
    Clusters(u8),
}

/// The geometry of a volume, as its boot sector declares it.
#[derive(Debug, Clone, Copy, PartialEq, Eq, Structural)]
pub struct PartitionBootSector {
    pub bytes_per_sector: u16,
    pub sectors_per_cluster: u8,
    pub sectors_per_track: u16,
    pub number_of_heads: u16,
    pub hidden_sectors: u32,
    pub total_sectors: u64,
    pub mft_cluster_number: u64,
    pub mft_mirror_cluster_number: u64,
    pub file_record_segment: Size,
    pub index_buffer: Size,
    pub volume_serial_number: u64,
}

/// Two to the power 127, the largest byte count that a size field can give.
pub proof fn lemma_pow2_127()
    ensures
        pow2(127) == 0x8000_0000_0000_0000_0000_0000_0000_0000,
{
    lemma2_to64();
    lemma_pow2_adds(64, 63);
    lemma_pow2_unfold(64);
    assert(pow2(63) == 0x8000_0000_0000_0000);
    assert(pow2(127) == 0x1_0000_0000_0000_0000 * 0x8000_0000_0000_0000);
}

fn power_of_two(exponent: u32) -> (value: u128)
    requires
        exponent <= 127,
    ensures
        value == pow2(exponent as nat),
{
    let mut value: u128 = 1;
    let mut i: u32 = 0;
    proof {
        lemma2_to64();
    }
    while i < exponent
        invariant
            i <= exponent <= 127,
            value == pow2(i as nat),
        decreases exponent - i,
    {
        proof {
            lemma_pow2_unfold((i + 1) as nat);
            lemma_pow2_127();
            if i + 1 < 127 {
                lemma_pow2_strictly_increases((i + 1) as nat, 127);
            }
        }
        value = value * 2;
        i = i + 1;
    }
    value
}

impl Size {
    /// What one signed byte of the boot sector means as a size: a value
    /// `n >= 0` is `n` clusters, a negative value `-k` is `2^k` bytes. The one
    /// byte that has no meaning is `0x80`: two to the power 128 is more than
    /// any byte count this type holds.
    pub open spec fn decoded(raw: u8) -> Option<Size> {
        let n = twos_complement(raw as nat, 1);
        if n >= 0 {
            Some(Size::Clusters(n as u8))
        } else if n > -128 {
            Some(Size::Bytes(pow2((-n) as nat) as u128))
        } else {
            None
        }
    }

    /// Decodes a signed "clusters or bytes" byte of the boot sector.
    pub fn decode(raw: u8) -> (size: Option<Size>)
        ensures
            size == Size::decoded(raw),
    {
        proof {
            lemma_radix_values();
        }
        let n = sign_extend(raw as u64, 1);
        if n >= 0 {
            Some(Size::Clusters(raw))
        } else if n > -128 {
            let k: u32 = (-n) as u32;
            let count = power_of_two(k);
            Some(Size::Bytes(count))
        } else {
            None
        }
    }

    /// The number of bytes that this size stands for on a volume whose
    /// clusters hold `cluster_bytes` bytes each.
    pub open spec fn byte_count(self, cluster_bytes: nat) -> nat {
        match self {
            Size::Bytes(count) => count as nat,
            Size::Clusters(count) => count as nat * cluster_bytes,
        }
    }

    /// A byte in `1..=127` is that many clusters. A byte in `129..=255`
    /// stands for the negative number `raw - 256`, and is two to the power
    /// `256 - raw` bytes; every such power fits the `Bytes` variant.
    pub proof fn lemma_decoded(raw: u8)
        ensures
            1 <= raw <= 127 ==> Size::decoded(raw) == Some(Size::Clusters(raw)),
            129 <= raw ==> twos_complement(raw as nat, 1) == raw - 256,
            129 <= raw ==> pow2((256 - raw) as nat) <= u128::MAX,
            129 <= raw ==> Size::decoded(raw) == Some(
                Size::Bytes(pow2((256 - raw) as nat) as u128),
            ),
    {
        lemma_radix_values();
        lemma_pow2_127();
        if 129 < raw {
            lemma_pow2_strictly_increases((256 - raw) as nat, 127);
        }
    }

    /// The byte `0xF6`, which is -10, is 1024 bytes, and the byte `0x01` is
    /// one cluster.
    pub proof fn lemma_decoded_typical()
        ensures
            Size::decoded(0xF6) == Some(Size::Bytes(1024)),
            Size::decoded(0x01) == Some(Size::Clusters(1)),
    {
        lemma_radix_values();
        lemma2_to64();
    }
}

/// The first eleven bytes of an NTFS boot sector: the jump over the data
/// that follows, then the OEM identifier `NTFS` padded with four spaces.
pub open spec fn signature() -> Seq<u8> {
    seq![0xEBu8, 0x52u8, 0x90u8, 0x4Eu8, 0x54u8, 0x46u8, 0x53u8, 0x20u8, 0x20u8, 0x20u8, 0x20u8]
}

/// Whether the sector starts with the jump instruction and the OEM
/// identifier of NTFS.
pub open spec fn has_signature(sector: Seq<u8>) -> bool {
    sector.len() >= 11 && sector.subrange(0, 11) == signature()
}

/// The fields of the sector at their fixed offsets, without any validation.
/// `None` where one of the two size bytes has no meaning.
pub open spec fn raw_geometry(sector: Seq<u8>) -> Option<PartitionBootSector> {
    match (Size::decoded(sector[0x40]), Size::decoded(sector[0x44])) {
        (Some(file_record_segment), Some(index_buffer)) => Some(
            PartitionBootSector {
                bytes_per_sector: le_field(sector, 0x0B, 2) as u16,
                sectors_per_cluster: sector[0x0D],
                sectors_per_track: le_field(sector, 0x18, 2) as u16,
                number_of_heads: le_field(sector, 0x1A, 2) as u16,
                hidden_sectors: le_field(sector, 0x1C, 4) as u32,
                total_sectors: le_field(sector, 0x28, 8) as u64,
                mft_cluster_number: le_field(sector, 0x30, 8) as u64,
                mft_mirror_cluster_number: le_field(sector, 0x38, 8) as u64,
                file_record_segment,
                index_buffer,
                volume_serial_number: le_field(sector, 0x48, 8) as u64,
            },
        ),
        _ => None,
    }
}

/// What decoding a boot sector gives. A sector without the NTFS signature is
/// `NotNtfs`. One with the signature is `InvalidBootSector` unless it ends in
/// the marker `0xAA55` and its fields form a valid geometry.
pub open spec fn boot_sector_of(sector: Seq<u8>) -> Result<PartitionBootSector, FormatError> {
    if !has_signature(sector) {
        Err(FormatError::NotNtfs)
    } else if sector.len() != PARTITION_BOOT_SECTOR || le_field(sector, 0x1FE, 2)
        != END_OF_SECTOR {
        Err(FormatError::InvalidBootSector)
    } else {
        match raw_geometry(sector) {
            Some(geometry) => if geometry.valid() {
                Ok(geometry)
            } else {
                Err(FormatError::InvalidBootSector)
            },
            None => Err(FormatError::InvalidBootSector),
        }
    }
}

impl PartitionBootSector {
    /// The number of bytes in a cluster: the unit of every conversion from
    /// clusters to bytes on this volume.
    pub open spec fn cluster_bytes(&self) -> nat {
        self.bytes_per_sector as nat * self.sectors_per_cluster as nat
    }

    /// The number of bytes in a file record segment.
    pub open spec fn record_bytes(&self) -> nat {
        self.file_record_segment.byte_count(self.cluster_bytes())
    }

    /// The geometry of a usable volume: sectors of 512 bytes, and file
    /// records of a positive size that one read of at most `u32::MAX` bytes
    /// can fetch.
    pub open spec fn valid(&self) -> bool {
        &&& self.bytes_per_sector == BYTES_PER_SECTOR
        &&& 0 < self.record_bytes() <= u32::MAX
    }

    /// The number of bytes in a cluster.
    pub fn cluster_size(&self) -> (size: u32)
        ensures
            size == self.cluster_bytes(),
    {
        assert(self.bytes_per_sector as nat * self.sectors_per_cluster as nat <= 0xFFFF * 0xFF)
            by (nonlinear_arith)
            requires
                self.bytes_per_sector <= 0xFFFF,
                self.sectors_per_cluster <= 0xFF,
        ;
        self.bytes_per_sector as u32 * self.sectors_per_cluster as u32
    }

    /// Whether this geometry is that of a usable volume.
    pub fn is_valid(&self) -> (valid: bool)
        ensures
            valid == self.valid(),
    {
        if self.bytes_per_sector != BYTES_PER_SECTOR {
            return false;
        }
        let cluster_size = self.cluster_size();
        match self.file_record_segment {
            Size::Bytes(count) => 0 < count && count <= u32::MAX as u128,
            Size::Clusters(count) => {
                assert(count as nat * cluster_size as nat <= 0xFF * 0xFFFF_FFFF) by (nonlinear_arith)
                    requires
                        count <= 0xFF,
                        cluster_size <= 0xFFFF_FFFF,
                ;
                let bytes: u64 = count as u64 * cluster_size as u64;
                0 < bytes && bytes <= u32::MAX as u64
            },
        }
    }

    /// The number of bytes in a file record segment.
    pub fn record_size(&self) -> (size: u32)
        requires
            self.valid(),
        ensures
            size == self.record_bytes(),
            size > 0,
    {
        match self.file_record_segment {
            Size::Bytes(count) => count as u32,
            Size::Clusters(count) => {
                let cluster_size = self.cluster_size();
                (count as u64 * cluster_size as u64) as u32
            },
        }
    }

    /// The byte offset of the master file table on the volume: its first
    /// cluster times the cluster size. `OutOfRange` when that product is more
    /// than a `u64` holds.
    pub fn mft_offset(&self) -> (result: Result<u64, FormatError>)
        ensures
            match result {
                Ok(offset) => offset == self.mft_cluster_number * self.cluster_bytes(),
                Err(e) => e == FormatError::OutOfRange && self.mft_cluster_number
                    * self.cluster_bytes() > u64::MAX,
            },
    {
        let cluster_size = self.cluster_size();
        match self.mft_cluster_number.checked_mul(cluster_size as u64) {
            Some(offset) => Ok(offset),
            None => Err(FormatError::OutOfRange),
        }
    }
}

fn starts_with_signature(sector: &[u8]) -> (found: bool)
    ensures
        found == has_signature(sector@),
{
    if sector.len() < 11 {
        return false;
    }
    let found = sector[0] == 0xEB && sector[1] == 0x52 && sector[2] == 0x90 && sector[3] == 0x4E
        && sector[4] == 0x54 && sector[5] == 0x46 && sector[6] == 0x53 && sector[7] == 0x20
        && sector[8] == 0x20 && sector[9] == 0x20 && sector[10] == 0x20;
    proof {
        let head = sector@.subrange(0, 11);
        if found {
            assert(head =~= signature());
        } else {
            assert(head[0] == sector@[0] && head[1] == sector@[1] && head[2] == sector@[2]
                && head[3] == sector@[3] && head[4] == sector@[4] && head[5] == sector@[5]
                && head[6] == sector@[6] && head[7] == sector@[7] && head[8] == sector@[8]
                && head[9] == sector@[9] && head[10] == sector@[10]);
        }
    }
    found
}

/// Decodes the partition boot sector of a volume into its geometry.
///
/// The result is exactly [`boot_sector_of`]. In particular every geometry
/// that comes out has sectors of 512 bytes and was closed by the marker
/// `0xAA55`, and a sector that carries the NTFS signature but violates either
/// of the two is `InvalidBootSector`.
pub fn pbs(sector: &[u8; PARTITION_BOOT_SECTOR]) -> (result: Result<
    PartitionBootSector,
    FormatError,
>)
    ensures
        result == boot_sector_of(sector@),
        result matches Ok(geometry) ==> geometry.valid() && geometry.bytes_per_sector == 512
            && le_field(sector@, 0x1FE, 2) == 0xAA55,
        le_field(sector@, 0x0B, 2) != 512 || le_field(sector@, 0x1FE, 2) != 0xAA55
            ==> result is Err,
        !has_signature(sector@) ==> result == Err::<PartitionBootSector, FormatError>(
            FormatError::NotNtfs,
        ),
        has_signature(sector@) && (le_field(sector@, 0x0B, 2) != 512 || le_field(
            sector@,
            0x1FE,
            2,
        ) != 0xAA55) ==> result == Err::<PartitionBootSector, FormatError>(
            FormatError::InvalidBootSector,
        ),
{
    let bytes = sector.as_slice();
    proof {
        lemma_radix_values();
    }
    if !starts_with_signature(bytes) {
        return Err(FormatError::NotNtfs);
    }
    if read_u16(bytes, 0x1FE) != END_OF_SECTOR {
        return Err(FormatError::InvalidBootSector);
    }
    let file_record_segment = match Size::decode(bytes[0x40]) {
        Some(size) => size,
        None => {
            return Err(FormatError::InvalidBootSector);
        },
    };
    let index_buffer = match Size::decode(bytes[0x44]) {
        Some(size) => size,
        None => {
            return Err(FormatError::InvalidBootSector);
        },
    };
    let geometry = PartitionBootSector {
        bytes_per_sector: read_u16(bytes, 0x0B),
        sectors_per_cluster: bytes[0x0D],
        sectors_per_track: read_u16(bytes, 0x18),
        number_of_heads: read_u16(bytes, 0x1A),
        hidden_sectors: read_u32(bytes, 0x1C),
        total_sectors: read_u64(bytes, 0x28),
        mft_cluster_number: read_u64(bytes, 0x30),
        mft_mirror_cluster_number: read_u64(bytes, 0x38),
        file_record_segment,
        index_buffer,
        volume_serial_number: read_u64(bytes, 0x48),
    };
    if geometry.is_valid() {
        Ok(geometry)
    } else {
        Err(FormatError::InvalidBootSector)
    }
}

} // verus!
