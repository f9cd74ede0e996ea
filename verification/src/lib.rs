//! A data-access layer for chunk-indexed, frame-structured trajectory files.
//!
//! The layer models a file as an ordered sequence of committed frames, each
//! holding named, typed, rectangular data chunks.  It provides mode-dependent
//! open semantics, typed chunk reads and writes with strict type and rank
//! validation, and a frame-indexed snapshot and view system with sparse-frame
//! default inheritance.

use vstd::prelude::*;

pub mod element;
pub mod fl;
pub mod hoomd;

verus! {

/// The error taxonomy of the layer.  Every fallible operation reports one of
/// these instead of panicking.
#[derive(Clone, Copy, Debug, PartialEq, Eq, Structural)]
pub enum GsdError {
    /// The open-mode string is not one of the supported modes.
    InvalidMode,
    /// An overwrite or exclusive create was requested without application,
    /// schema and schema version.
    MissingMetadata,
    /// An exclusive create found the file already present.
    FileExists,
    /// A plain open did not find the file.
    FileNotFound,
    /// A buffer of rank other than 1 or 2 was handed to a chunk write.
    UnsupportedRank,
    /// A chunk was read with a type parameter other than the one it was
    /// written with.
    TypeMismatch,
    /// A chunk read found no chunk of that name in that frame.
    ChunkNotFound,
    /// A read of a chunk whose stored shape does not match the requested
    /// dimensionality.
    ShapeMismatch,
    /// A frame or view index at or beyond the number of items.
    IndexOutOfBounds,
    /// A view was requested with stride zero.
    InvalidStride,
    /// The handle was opened in a mode that does not permit writing.
    FileMustBeWritable,
    /// The handle was opened in a mode that does not permit reading chunks.
    FileMustBeReadable,
    /// The schema name of the file is not the trajectory schema.
    WrongSchema,
    /// The schema version of the file falls outside the supported range.
    UnsupportedSchemaVersion,
    /// The file is open in the append mode, which the trajectory layer does
    /// not support.
    AppendUnsupported,
    /// An engine-reported input/output failure.
    IoError,
    /// The engine reported an argument it could not accept.
    InvalidArgument,
    /// The engine reported that the file is not of this format.
    NotAGsdFile,
    /// The engine reported a file written by an unsupported format version.
    InvalidFileVersion,
    /// The engine could not allocate memory.
    MemoryAllocationFailed,
    /// The engine reported a corrupt file.
    FileCorrupt,
    /// The engine's name list is full.
    NamelistFull,
    /// An engine status this layer does not know.
    Unknown,
}

/// The storage-level discriminator identifying a chunk's scalar element type.
///
/// The engine records one of these tags with every chunk; reading a chunk as
/// a type whose tag differs from the stored one fails with
/// [`GsdError::TypeMismatch`].
#[allow(non_camel_case_types)]
#[derive(Clone, Copy, Debug, PartialEq, Eq, Structural)]
pub enum GSDType {
    UINT8,
    UINT16,
    UINT32,
    UINT64,
    INT8,
    INT16,
    INT32,
    INT64,
    FLOAT,
    DOUBLE,
}

impl GSDType {
    /// The type tag associated with the scalar element type `T`.
    pub fn from_type<T: crate::element::GsdElement>() -> (t: GSDType)
        ensures
            t == T::tag_spec(),
    {
        T::tag_of()
    }

    /// Checks that this stored tag is the tag of `T`; fails with
    /// [`GsdError::TypeMismatch`] otherwise.
    pub fn check_match<T: crate::element::GsdElement>(&self) -> (r: Result<(), GsdError>)
        ensures
            r == (if *self == T::tag_spec() {
                Ok::<(), GsdError>(())
            } else {
                Err::<(), GsdError>(GsdError::TypeMismatch)
            }),
    {
        let check_type = GSDType::from_type::<T>();
        if *self != check_type {
            Err(GsdError::TypeMismatch)
        } else {
            Ok(())
        }
    }

    /// The numeric value under which the engine stores this tag.
    pub fn tag_value(&self) -> (v: u32)
        ensures
            v == self.spec_tag_value(),
    {
        match self {
            GSDType::UINT8 => 1,
            GSDType::UINT16 => 2,
            GSDType::UINT32 => 3,
            GSDType::UINT64 => 4,
            GSDType::INT8 => 5,
            GSDType::INT16 => 6,
            GSDType::INT32 => 7,
            GSDType::INT64 => 8,
            GSDType::FLOAT => 9,
            GSDType::DOUBLE => 10,
        }
    }

    /// The numeric engine value of each tag.
    pub open spec fn spec_tag_value(&self) -> u32 {
        match self {
            GSDType::UINT8 => 1,
            GSDType::UINT16 => 2,
            GSDType::UINT32 => 3,
            GSDType::UINT64 => 4,
            GSDType::INT8 => 5,
            GSDType::INT16 => 6,
            GSDType::INT32 => 7,
            GSDType::INT64 => 8,
            GSDType::FLOAT => 9,
            GSDType::DOUBLE => 10,
        }
    }
}

/// Translates a status code of the chunked storage engine into the error
/// taxonomy of this layer.  Zero is success; the known negative codes map one
/// to one; anything else is `Unknown`.
pub fn check_gsd_errors(retval: i32) -> (r: Result<(), GsdError>)
    ensures
        r == spec_engine_status(retval),
{
    match retval {
        0 => Ok(()),
        -1 => Err(GsdError::IoError),
        -2 => Err(GsdError::InvalidArgument),
        -3 => Err(GsdError::NotAGsdFile),
        -4 => Err(GsdError::InvalidFileVersion),
        -5 => Err(GsdError::FileCorrupt),
        -6 => Err(GsdError::MemoryAllocationFailed),
        -7 => Err(GsdError::NamelistFull),
        -8 => Err(GsdError::FileMustBeWritable),
        -9 => Err(GsdError::FileMustBeReadable),
        _ => Err(GsdError::Unknown),
    }
}

/// The meaning of each engine status code, used by the contract of
/// [`check_gsd_errors`].
pub open spec fn spec_engine_status(retval: i32) -> Result<(), GsdError> {
    if retval == 0 {
        Ok(())
    } else if retval == -1 {
        Err(GsdError::IoError)
    } else if retval == -2 {
        Err(GsdError::InvalidArgument)
    } else if retval == -3 {
        Err(GsdError::NotAGsdFile)
    } else if retval == -4 {
        Err(GsdError::InvalidFileVersion)
    } else if retval == -5 {
        Err(GsdError::FileCorrupt)
    } else if retval == -6 {
        Err(GsdError::MemoryAllocationFailed)
    } else if retval == -7 {
        Err(GsdError::NamelistFull)
    } else if retval == -8 {
        Err(GsdError::FileMustBeWritable)
    } else if retval == -9 {
        Err(GsdError::FileMustBeReadable)
    } else {
        Err(GsdError::Unknown)
    }
}

} // verus!
