//! The ways in which a structure on disk can fail validation.
use vstd::prelude::*;

verus! {

/// A structural validation failure. Decoding never guesses at bytes it could
/// not validate: every failure is handed to the caller.
#[derive(Clone, Copy, Debug, PartialEq, Eq, Structural)]
pub enum FormatError {
    /// The jump instruction or the OEM identifier of the boot sector is not
    /// that of an NTFS volume.
    NotNtfs,
    /// The boot sector lacks its end-of-sector marker or describes a geometry
    /// that no volume can have.
    InvalidBootSector,
    /// A file record starts with neither `FILE` nor `BAAD`.
    BadMagic,
    /// A file record starts with `BAAD`: it was marked unreadable when it was
    /// written.
    Corrupt,
    /// A sector of a file record does not end in the update sequence number:
    /// the record was torn by a partial write.
    BadFixup,
    /// A declared offset or length reaches past the end of the bytes at hand.
    Truncated,
    /// A data run header declares a field wider than eight bytes.
    InvalidRunHeader,
    /// A position lies outside the clusters that back the master file table.
    OutOfRange,
}

impl FormatError {
    /// A short description of the failure, for messages.
    pub fn describe(&self) -> (text: &'static str)
        ensures
            text@ == Self::description(*self),
    {
        match self {
            FormatError::NotNtfs => "not an NTFS volume",
            FormatError::InvalidBootSector => "invalid boot sector",
            FormatError::BadMagic => "file record has an unknown magic number",
            FormatError::Corrupt => "file record is marked as corrupt",
            FormatError::BadFixup => "file record failed the update sequence check",
            FormatError::Truncated => "structure reaches past the end of its bytes",
            FormatError::InvalidRunHeader => "data run header declares an oversized field",
            FormatError::OutOfRange => "position is outside the master file table",
        }
    }

    /// The text that [`FormatError::describe`] returns for each failure.
    pub open spec fn description(e: FormatError) -> Seq<char> {
        match e {
            FormatError::NotNtfs => "not an NTFS volume"@,
            FormatError::InvalidBootSector => "invalid boot sector"@,
            FormatError::BadMagic => "file record has an unknown magic number"@,
            FormatError::Corrupt => "file record is marked as corrupt"@,
            FormatError::BadFixup => "file record failed the update sequence check"@,
            FormatError::Truncated => "structure reaches past the end of its bytes"@,
            FormatError::InvalidRunHeader => "data run header declares an oversized field"@,
            FormatError::OutOfRange => "position is outside the master file table"@,
        }
    }
}

/// The value of a result of decoding: the value of what was decoded, or the
/// error.
pub open spec fn viewed<T: View>(result: Result<T, FormatError>) -> Result<T::V, FormatError> {
    match result {
        Ok(value) => Ok(value@),
        Err(e) => Err(e),
    }
}

} // verus!
