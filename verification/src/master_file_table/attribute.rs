//! In NTFS, everything on disk is a file. Even the metadata is stored as a set of files.
//! The Master File Table (MFT) is an index of every file on the volume.
//! For each file, the MFT keeps a set of records called attributes and each attribute stores a different type of information.
//!
//! <https://flatcap.github.io/linux-ntfs/ntfs/attributes/index.html>
//!
//! Attributes follow one another in a file record. Each starts with a header
//! that declares its own length, so that the stream can be walked without
//! knowing the types in it:
//!
//!| Offset | Size | Description                                   |
//!|--------|------|-----------------------------------------------|
//!| 0x00   | 4    | Attribute type                                |
//!| 0x04   | 4    | Length of the attribute, header included      |
//!| 0x08   | 1    | Non-resident flag                             |
//!| 0x09   | 1    | Name length, in UTF-16 code units             |
//!| 0x0A   | 2    | Offset to the name                            |
//!| 0x0C   | 2    | Flags                                         |
//!| 0x0E   | 2    | Attribute id                                  |
//!
//! A resident attribute goes on with the length (0x10, 4 bytes) and the
//! offset (0x14, 2 bytes) of its value. A non-resident one goes on with the
//! offset of its run list (0x20, 2 bytes) and its allocated, real and
//! initialized sizes (0x28, 0x30 and 0x38, 8 bytes each).
use crate::format_error::{viewed, FormatError};
use crate::little_endian::{le_field, lemma_radix_values, read_u16, read_u32, read_u64};
use crate::master_file_table::Flag;
use crate::run_list::{decode_run_list, run_list_of, DataRun};
use vstd::prelude::*;
use vstd::slice::{slice_subrange, slice_to_vec};

verus! {

pub const STANDARD_INFORMATION_OFFSET: u64 = 0x10;

pub const ATTRIBUTE_LIST_OFFSET: u64 = 0x20;

pub const FILE_NAME_OFFSET: u64 = 0x30;

pub const VOLUME_VERSION_OFFSET: u64 = 0x40;  //Windows NT

pub const OBJECT_ID_OFFSET: u64 = 0x40;  //Windows 2000

pub const SECURITY_DESCRIPTOR_OFFSET: u64 = 0x50;

pub const VOLUME_NAME_OFFSET: u64 = 0x60;

pub const VOLUME_INFORMATION_OFFSET: u64 = 0x70;

pub const DATA_OFFSET: u64 = 0x80;

pub const INDEX_ROOT_OFFSET: u64 = 0x90;

pub const INDEX_ALLOCATION_OFFSET: u64 = 0xA0;

pub const BITMAP_OFFSET: u64 = 0xB0;

pub const SYMBOLIC_LINK_OFFSET: u64 = 0xC0;  //Windows NT

pub const REPARSE_POINT_OFFSET: u64 = 0xC0;  //Windows 2000

pub const EA_INFORMATION_OFFSET: u64 = 0xD0;

pub const EA_OFFSET: u64 = 0xE0;

pub const PROPERTY_SET_OFFSET: u64 = 0xF0;  //Windows NT

pub const LOGGED_UTILITY_STREAM_OFFSET: u64 = 0x100;  //Windows 2000

/// The value that stands in place of a type code at the end of the
/// attributes of a record.
pub const END_OF_ATTRIBUTES: u32 = 0xFFFF_FFFF;

/// The length of the part of the header that every attribute has.
pub const COMMON_HEADER_LENGTH: usize = 0x10;

/// The length of the header of a resident attribute.
pub const RESIDENT_HEADER_LENGTH: usize = 0x18;

/// The length of the header of a non-resident attribute.
pub const NON_RESIDENT_HEADER_LENGTH: usize = 0x40;

/// The well-known attribute types. The constants of this module are their
/// type codes. They identify what an attribute holds; they say nothing of
/// where it stands in a record, since attributes are packed one after
/// another at whatever offsets their lengths give.
#[derive(Debug, Clone, Copy, PartialEq, Eq, Structural)]
pub enum AttributeType {
    StandardInformation,
    AttributeList,
    FileName,
    ObjectId,
    SecurityDescriptor,
    VolumeName,
    VolumeInformation,
    Data,
    IndexRoot,
    IndexAllocation,
    Bitmap,
    ReparsePoint,
    EaInformation,
    Ea,
    PropertySet,
    LoggedUtilityStream,
}

impl AttributeType {
    /// The type code of a well-known attribute type.
    pub open spec fn type_code(self) -> u32 {
        match self {
            AttributeType::StandardInformation => 0x10,
            AttributeType::AttributeList => 0x20,
            AttributeType::FileName => 0x30,
            AttributeType::ObjectId => 0x40,
            AttributeType::SecurityDescriptor => 0x50,
            AttributeType::VolumeName => 0x60,
            AttributeType::VolumeInformation => 0x70,
            AttributeType::Data => 0x80,
            AttributeType::IndexRoot => 0x90,
            AttributeType::IndexAllocation => 0xA0,
            AttributeType::Bitmap => 0xB0,
            AttributeType::ReparsePoint => 0xC0,
            AttributeType::EaInformation => 0xD0,
            AttributeType::Ea => 0xE0,
            AttributeType::PropertySet => 0xF0,
            AttributeType::LoggedUtilityStream => 0x100,
        }
    }

    /// The well-known type with the given type code, if there is one.
    pub open spec fn with_code(code: u32) -> Option<AttributeType> {
        if code == 0x10 {
            Some(AttributeType::StandardInformation)
        } else if code == 0x20 {
            Some(AttributeType::AttributeList)
        } else if code == 0x30 {
            Some(AttributeType::FileName)
        } else if code == 0x40 {
            Some(AttributeType::ObjectId)
        } else if code == 0x50 {
            Some(AttributeType::SecurityDescriptor)
        } else if code == 0x60 {
            Some(AttributeType::VolumeName)
        } else if code == 0x70 {
            Some(AttributeType::VolumeInformation)
        } else if code == 0x80 {
            Some(AttributeType::Data)
        } else if code == 0x90 {
            Some(AttributeType::IndexRoot)
        } else if code == 0xA0 {
            Some(AttributeType::IndexAllocation)
        } else if code == 0xB0 {
            Some(AttributeType::Bitmap)
        } else if code == 0xC0 {
            Some(AttributeType::ReparsePoint)
        } else if code == 0xD0 {
            Some(AttributeType::EaInformation)
        } else if code == 0xE0 {
            Some(AttributeType::Ea)
        } else if code == 0xF0 {
            Some(AttributeType::PropertySet)
        } else if code == 0x100 {
            Some(AttributeType::LoggedUtilityStream)
        } else {
            None
        }
    }

    /// The type code of a well-known attribute type.
    pub fn code(self) -> (code: u32)
        ensures
            code == self.type_code(),
            AttributeType::with_code(code) == Some(self),
    {
        match self {
            AttributeType::StandardInformation => STANDARD_INFORMATION_OFFSET as u32,
            AttributeType::AttributeList => ATTRIBUTE_LIST_OFFSET as u32,
            AttributeType::FileName => FILE_NAME_OFFSET as u32,
            AttributeType::ObjectId => OBJECT_ID_OFFSET as u32,
            AttributeType::SecurityDescriptor => SECURITY_DESCRIPTOR_OFFSET as u32,
            AttributeType::VolumeName => VOLUME_NAME_OFFSET as u32,
            AttributeType::VolumeInformation => VOLUME_INFORMATION_OFFSET as u32,
            AttributeType::Data => DATA_OFFSET as u32,
            AttributeType::IndexRoot => INDEX_ROOT_OFFSET as u32,
            AttributeType::IndexAllocation => INDEX_ALLOCATION_OFFSET as u32,
            AttributeType::Bitmap => BITMAP_OFFSET as u32,
            AttributeType::ReparsePoint => REPARSE_POINT_OFFSET as u32,
            AttributeType::EaInformation => EA_INFORMATION_OFFSET as u32,
            AttributeType::Ea => EA_OFFSET as u32,
            AttributeType::PropertySet => PROPERTY_SET_OFFSET as u32,
            AttributeType::LoggedUtilityStream => LOGGED_UTILITY_STREAM_OFFSET as u32,
        }
    }

    /// Looks a type code up among the well-known types. A code that is not
    /// among them is no error: the attribute is kept as it is.
    pub fn from_code(code: u32) -> (known: Option<AttributeType>)
        ensures
            known == AttributeType::with_code(code),
            known matches Some(t) ==> t.type_code() == code,
    {
        let wide = code as u64;
        if wide == STANDARD_INFORMATION_OFFSET {
            Some(AttributeType::StandardInformation)
        } else if wide == ATTRIBUTE_LIST_OFFSET {
            Some(AttributeType::AttributeList)
        } else if wide == FILE_NAME_OFFSET {
            Some(AttributeType::FileName)
        } else if wide == OBJECT_ID_OFFSET {
            Some(AttributeType::ObjectId)
        } else if wide == SECURITY_DESCRIPTOR_OFFSET {
            Some(AttributeType::SecurityDescriptor)
        } else if wide == VOLUME_NAME_OFFSET {
            Some(AttributeType::VolumeName)
        } else if wide == VOLUME_INFORMATION_OFFSET {
            Some(AttributeType::VolumeInformation)
        } else if wide == DATA_OFFSET {
            Some(AttributeType::Data)
        } else if wide == INDEX_ROOT_OFFSET {
            Some(AttributeType::IndexRoot)
        } else if wide == INDEX_ALLOCATION_OFFSET {
            Some(AttributeType::IndexAllocation)
        } else if wide == BITMAP_OFFSET {
            Some(AttributeType::Bitmap)
        } else if wide == REPARSE_POINT_OFFSET {
            Some(AttributeType::ReparsePoint)
        } else if wide == EA_INFORMATION_OFFSET {
            Some(AttributeType::EaInformation)
        } else if wide == EA_OFFSET {
            Some(AttributeType::Ea)
        } else if wide == PROPERTY_SET_OFFSET {
            Some(AttributeType::PropertySet)
        } else if wide == LOGGED_UTILITY_STREAM_OFFSET {
            Some(AttributeType::LoggedUtilityStream)
        } else {
            None
        }
    }
}

/// What every attribute has, resident or not.
#[derive(Debug, Clone, PartialEq, Eq)]
pub struct AttributeHeader {
    /// The type of the attribute. Codes that are not well known are kept.
    pub type_code: u32,
    /// The name of the attribute in UTF-16 code units, if it has one.
    pub name: Option<Vec<u16>>,
    /// The flags of the attribute: see [`Flag`].
    pub flags: u16,
    /// The number of the attribute within its record.
    pub attribute_id: u16,
}

/// An attribute of a file record.
#[derive(Debug, Clone, PartialEq, Eq)]
pub enum Attribute {
    /// The data of the attribute is held in the record itself.
    Resident { header: AttributeHeader, data: Vec<u8> },
    /// The data of the attribute lives in clusters elsewhere on the volume.
    NonResident {
        header: AttributeHeader,
        data_runs: Vec<DataRun>,
        allocated_size: u64,
        real_size: u64,
        initialized_size: u64,
    },
}

/// The attributes of a record, in the order in which they stand in it.
#[derive(Debug, Clone, PartialEq, Eq)]
pub struct AttributeStream {
    pub attributes: Vec<Attribute>,
    /// Whether the end marker `0xFFFFFFFF` closed the attributes. Some tools
    /// leave it out; attributes that simply fill the used part of the record
    /// are accepted, and this field keeps note of it.
    pub terminated: bool,
}

/// The mathematical value of an [`AttributeHeader`].
pub struct AttributeHeaderModel {
    pub type_code: u32,
    pub name: Option<Seq<u16>>,
    pub flags: u16,
    pub attribute_id: u16,
}

/// The mathematical value of an [`Attribute`].
pub enum AttributeModel {
    Resident { header: AttributeHeaderModel, data: Seq<u8> },
    NonResident {
        header: AttributeHeaderModel,
        data_runs: Seq<DataRun>,
        allocated_size: u64,
        real_size: u64,
        initialized_size: u64,
    },
}

/// The mathematical value of an [`AttributeStream`].
pub struct AttributeStreamModel {
    pub attributes: Seq<AttributeModel>,
    pub terminated: bool,
}

impl View for AttributeHeader {
    type V = AttributeHeaderModel;

    open spec fn view(&self) -> AttributeHeaderModel {
        AttributeHeaderModel {
            type_code: self.type_code,
            name: match self.name {
                Some(units) => Some(units@),
                None => None,
            },
            flags: self.flags,
            attribute_id: self.attribute_id,
        }
    }
}

impl View for Attribute {
    type V = AttributeModel;

    open spec fn view(&self) -> AttributeModel {
        match *self {
            Attribute::Resident { header, data } => AttributeModel::Resident {
                header: header@,
                data: data@,
            },
            Attribute::NonResident {
                header,
                data_runs,
                allocated_size,
                real_size,
                initialized_size,
            } => AttributeModel::NonResident {
                header: header@,
                data_runs: data_runs@,
                allocated_size,
                real_size,
                initialized_size,
            },
        }
    }
}

/// The values of a sequence of attributes.
pub open spec fn models(attributes: Seq<Attribute>) -> Seq<AttributeModel> {
    Seq::new(attributes.len(), |i: int| attributes[i]@)
}

impl View for AttributeStream {
    type V = AttributeStreamModel;

    open spec fn view(&self) -> AttributeStreamModel {
        AttributeStreamModel {
            attributes: models(self.attributes@),
            terminated: self.terminated,
        }
    }
}

impl AttributeHeaderModel {
    /// Whether the flags of the attribute hold the given flag.
    pub open spec fn has(self, flag: Flag) -> bool {
        flag.set_in(self.flags)
    }
}

impl AttributeModel {
    /// The part that every attribute has.
    pub open spec fn header(self) -> AttributeHeaderModel {
        match self {
            AttributeModel::Resident { header, .. } => header,
            AttributeModel::NonResident { header, .. } => header,
        }
    }
}

impl AttributeHeader {
    /// Whether the flags of the attribute hold the given flag.
    pub fn has(&self, flag: Flag) -> (set: bool)
        ensures
            set == self@.has(flag),
    {
        flag.is_set_in(self.flags)
    }

    /// The well-known type of the attribute, if its type code is one.
    pub fn known_type(&self) -> (known: Option<AttributeType>)
        ensures
            known == AttributeType::with_code(self.type_code),
    {
        AttributeType::from_code(self.type_code)
    }
}

impl Attribute {
    /// The part that every attribute has.
    pub fn header(&self) -> (header: &AttributeHeader)
        ensures
            header@ == self@.header(),
    {
        match self {
            Attribute::Resident { header, .. } => header,
            Attribute::NonResident { header, .. } => header,
        }
    }

    /// Whether the data of the attribute is held in the record itself.
    pub fn is_resident(&self) -> (resident: bool)
        ensures
            resident == (self@ is Resident),
    {
        match self {
            Attribute::Resident { .. } => true,
            Attribute::NonResident { .. } => false,
        }
    }
}

/// The name that the header of `attr` declares: `length` UTF-16 code units
/// from `offset` on, least significant byte first.
pub open spec fn name_units(attr: Seq<u8>, offset: int, length: int) -> Seq<u16> {
    Seq::new(length as nat, |i: int| le_field(attr, offset + 2 * i, 2) as u16)
}

/// The name of the attribute whose bytes are `attr`: none where the
/// declared length is zero, `Truncated` where the name reaches past the end
/// of the attribute.
pub open spec fn name_of(attr: Seq<u8>) -> Result<Option<Seq<u16>>, FormatError> {
    let length = attr[0x09] as int;
    let offset = le_field(attr, 0x0A, 2) as int;
    if length == 0 {
        Ok(None)
    } else if offset + 2 * length > attr.len() {
        Err(FormatError::Truncated)
    } else {
        Ok(Some(name_units(attr, offset, length)))
    }
}

/// The attribute whose bytes, from the start of its header to its declared
/// length, are `attr`.
///
/// `Truncated` where `attr` is shorter than the header of its form, or where
/// the name, the value or the run list that the header declares reaches past
/// the end of `attr`. The errors of the run list of a non-resident attribute
/// are those of [`run_list_of`].
pub open spec fn attribute_of(attr: Seq<u8>) -> Result<AttributeModel, FormatError> {
    if attr.len() < COMMON_HEADER_LENGTH {
        Err(FormatError::Truncated)
    } else {
        match name_of(attr) {
            Err(e) => Err(e),
            Ok(name) => {
                let header = AttributeHeaderModel {
                    type_code: le_field(attr, 0x00, 4) as u32,
                    name,
                    flags: le_field(attr, 0x0C, 2) as u16,
                    attribute_id: le_field(attr, 0x0E, 2) as u16,
                };
                if attr[0x08] == 0 {
                    let value_length = le_field(attr, 0x10, 4) as int;
                    let value_offset = le_field(attr, 0x14, 2) as int;
                    if attr.len() < RESIDENT_HEADER_LENGTH || value_offset + value_length
                        > attr.len() {
                        Err(FormatError::Truncated)
                    } else {
                        Ok(
                            AttributeModel::Resident {
                                header,
                                data: attr.subrange(value_offset, value_offset + value_length),
                            },
                        )
                    }
                } else {
                    let runs_offset = le_field(attr, 0x20, 2) as int;
                    if attr.len() < NON_RESIDENT_HEADER_LENGTH || runs_offset > attr.len() {
                        Err(FormatError::Truncated)
                    } else {
                        match run_list_of(attr.subrange(runs_offset, attr.len() as int)) {
                            Err(e) => Err(e),
                            Ok(data_runs) => Ok(
                                AttributeModel::NonResident {
                                    header,
                                    data_runs,
                                    allocated_size: le_field(attr, 0x28, 8) as u64,
                                    real_size: le_field(attr, 0x30, 8) as u64,
                                    initialized_size: le_field(attr, 0x38, 8) as u64,
                                },
                            ),
                        }
                    }
                }
            },
        }
    }
}

fn decode_name(attr: &[u8]) -> (result: Result<Option<Vec<u16>>, FormatError>)
    requires
        attr@.len() >= COMMON_HEADER_LENGTH,
    ensures
        match result {
            Ok(Some(units)) => name_of(attr@) == Ok::<Option<Seq<u16>>, FormatError>(
                Some(units@),
            ),
            Ok(None) => name_of(attr@) == Ok::<Option<Seq<u16>>, FormatError>(None),
            Err(e) => name_of(attr@) == Err::<Option<Seq<u16>>, FormatError>(e),
        },
{
    let length = attr[0x09] as usize;
    let offset = read_u16(attr, 0x0A) as usize;
    if length == 0 {
        return Ok(None);
    }
    if offset + 2 * length > attr.len() {
        return Err(FormatError::Truncated);
    }
    let mut units: Vec<u16> = Vec::new();
    let mut i: usize = 0;
    while i < length
        invariant
            i <= length <= 255,
            offset + 2 * length <= attr@.len() <= usize::MAX,
            units@.len() == i,
            forall|j: int|
                0 <= j < i ==> #[trigger] units@[j] == le_field(attr@, offset + 2 * j, 2) as u16,
        decreases length - i,
    {
        let unit = read_u16(attr, offset + 2 * i);
        units.push(unit);
        i = i + 1;
    }
    proof {
        assert(units@ =~= name_units(attr@, offset as int, length as int));
    }
    Ok(Some(units))
}

/// Decodes one attribute from its bytes, which start at its header and end
/// at its declared length.
///
/// The result is exactly [`attribute_of`]. The type code is not looked at:
/// an attribute of a type that is not well known is decoded like any other.
pub fn decode_attribute(attr: &[u8]) -> (result: Result<Attribute, FormatError>)
    ensures
        viewed(result) == attribute_of(attr@),
{
    let n = attr.len();
    if n < COMMON_HEADER_LENGTH {
        return Err(FormatError::Truncated);
    }
    let name = match decode_name(attr) {
        Ok(name) => name,
        Err(e) => {
            return Err(e);
        },
    };
    let header = AttributeHeader {
        type_code: read_u32(attr, 0x00),
        name,
        flags: read_u16(attr, 0x0C),
        attribute_id: read_u16(attr, 0x0E),
    };
    if attr[0x08] == 0 {
        if n < RESIDENT_HEADER_LENGTH {
            return Err(FormatError::Truncated);
        }
        let value_length = read_u32(attr, 0x10) as usize;
        let value_offset = read_u16(attr, 0x14) as usize;
        if value_offset > n || value_length > n - value_offset {
            return Err(FormatError::Truncated);
        }
        let data = slice_to_vec(slice_subrange(attr, value_offset, value_offset + value_length));
        Ok(Attribute::Resident { header, data })
    } else {
        if n < NON_RESIDENT_HEADER_LENGTH {
            return Err(FormatError::Truncated);
        }
        let runs_offset = read_u16(attr, 0x20) as usize;
        if runs_offset > n {
            return Err(FormatError::Truncated);
        }
        let data_runs = match decode_run_list(slice_subrange(attr, runs_offset, n)) {
            Ok(runs) => runs,
            Err(e) => {
                return Err(e);
            },
        };
        Ok(
            Attribute::NonResident {
                header,
                data_runs,
                allocated_size: read_u64(attr, 0x28),
                real_size: read_u64(attr, 0x30),
                initialized_size: read_u64(attr, 0x38),
            },
        )
    }
}

/// The attributes already decoded, followed by what the rest of the stream
/// gives.
pub open spec fn stream_continued(
    done: Seq<AttributeModel>,
    rest: Result<AttributeStreamModel, FormatError>,
) -> Result<AttributeStreamModel, FormatError> {
    match rest {
        Ok(stream) => Ok(
            AttributeStreamModel {
                attributes: done + stream.attributes,
                terminated: stream.terminated,
            },
        ),
        Err(e) => Err(e),
    }
}

/// The attributes that stand in `region` from `pos` on, where `region` is
/// the used part of a record from its first attribute.
///
/// The walk ends at the end marker, or at the end of `region` if an
/// attribute ends exactly there; only the first is a terminated stream. It
/// is `Truncated` where fewer than four bytes are left for a type code, or
/// fewer than a common header for an attribute, or where the length that an
/// attribute declares is less than a common header or more than what is left
/// of `region`. An attribute that cannot be decoded fails the walk with its
/// own error.
pub open spec fn attributes_from(region: Seq<u8>, pos: int) -> Result<
    AttributeStreamModel,
    FormatError,
>
    decreases region.len() - pos,
{
    if pos < 0 || pos > region.len() {
        Err(FormatError::Truncated)
    } else if pos == region.len() {
        Ok(AttributeStreamModel { attributes: Seq::empty(), terminated: false })
    } else if region.len() - pos < 4 {
        Err(FormatError::Truncated)
    } else if le_field(region, pos, 4) == END_OF_ATTRIBUTES {
        Ok(AttributeStreamModel { attributes: Seq::empty(), terminated: true })
    } else if region.len() - pos < COMMON_HEADER_LENGTH {
        Err(FormatError::Truncated)
    } else {
        let length = le_field(region, pos + 4, 4) as int;
        if length < COMMON_HEADER_LENGTH || length > region.len() - pos {
            Err(FormatError::Truncated)
        } else {
            match attribute_of(region.subrange(pos, pos + length)) {
                Err(e) => Err(e),
                Ok(attribute) => match attributes_from(region, pos + length) {
                    Err(e) => Err(e),
                    Ok(rest) => Ok(
                        AttributeStreamModel {
                            attributes: seq![attribute] + rest.attributes,
                            terminated: rest.terminated,
                        },
                    ),
                },
            }
        }
    }
}

/// The attributes of a record whose bytes from the first attribute on are
/// `bytes`, of which the first `used` are in use. `Truncated` where more
/// bytes are said to be in use than there are.
pub open spec fn attribute_stream_of(bytes: Seq<u8>, used: int) -> Result<
    AttributeStreamModel,
    FormatError,
> {
    if used > bytes.len() {
        Err(FormatError::Truncated)
    } else {
        attributes_from(bytes.subrange(0, used), 0)
    }
}

/// Decodes the attributes of a record, in order.
///
/// `bytes` starts at the first attribute of the record, and `used` is how
/// many of these bytes the record uses: its real size, counted from the
/// first attribute. The result is exactly [`attribute_stream_of`].
pub fn decode_attributes(bytes: &[u8], used: usize) -> (result: Result<
    AttributeStream,
    FormatError,
>)
    ensures
        viewed(result) == attribute_stream_of(bytes@, used as int),
{
    if used > bytes.len() {
        return Err(FormatError::Truncated);
    }
    let region = slice_subrange(bytes, 0, used);
    let mut attributes: Vec<Attribute> = Vec::new();
    let mut pos: usize = 0;
    proof {
        assert(models(attributes@) =~= Seq::<AttributeModel>::empty());
        match attributes_from(region@, 0) {
            Ok(stream) => {
                assert(Seq::<AttributeModel>::empty() + stream.attributes =~= stream.attributes);
            },
            Err(_) => {},
        }
    }
    while pos < used
        invariant
            pos <= used <= bytes@.len(),
            region@ == bytes@.subrange(0, used as int),
            attributes_from(region@, 0) == stream_continued(
                models(attributes@),
                attributes_from(region@, pos as int),
            ),
        decreases used - pos,
    {
        if used - pos < 4 {
            return Err(FormatError::Truncated);
        }
        proof {
            lemma_radix_values();
        }
        if read_u32(region, pos) == END_OF_ATTRIBUTES {
            proof {
                assert(models(attributes@) + Seq::<AttributeModel>::empty() =~= models(
                    attributes@,
                ));
            }
            return Ok(AttributeStream { attributes, terminated: true });
        }
        if used - pos < COMMON_HEADER_LENGTH {
            return Err(FormatError::Truncated);
        }
        let length = read_u32(region, pos + 4) as usize;
        if length < COMMON_HEADER_LENGTH || length > used - pos {
            return Err(FormatError::Truncated);
        }
        let attribute = match decode_attribute(slice_subrange(region, pos, pos + length)) {
            Ok(attribute) => attribute,
            Err(e) => {
                return Err(e);
            },
        };
        proof {
            let done = models(attributes@);
            assert(models(attributes@.push(attribute)) =~= done.push(attribute@));
            match attributes_from(region@, pos + length) {
                Ok(rest) => {
                    assert(done + (seq![attribute@] + rest.attributes) =~= done.push(attribute@)
                        + rest.attributes);
                },
                Err(_) => {},
            }
        }
        attributes.push(attribute);
        pos = pos + length;
    }
    proof {
        assert(models(attributes@) + Seq::<AttributeModel>::empty() =~= models(attributes@));
    }
    Ok(AttributeStream { attributes, terminated: false })
}

} // verus!
