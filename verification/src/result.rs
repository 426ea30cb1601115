//! The error enum used within the crate and transformations between error
//! types.

use vstd::prelude::*;

verus! {

/// The general error enum of the crate.
#[derive(Clone, Copy, Debug, PartialEq, Eq, Structural)]
pub enum ErrorKind {
    MinMaxSwapped,
    MinMaxEqual,
    TooFewPoints,
    BoundingBoxMissing,
    NormalizeVecWithoutLength,
    IOError,
    ParseError,
    IndexOutOfBounds,
    IncorrectFaceID,
    IncorrectVertexID,
    IncorrectEdgeID,
    IncorrectVoxelID,
    IncorrectUnitID,
    IncorrectDimension,
    DimensionsDontMatch,
    NumberConversionError,
    NumberInWrongRange,
    ComparisionFailed,
    PlyError(PlyError),
}

/// Errors that can occur while reading .ply data.
#[derive(Clone, Copy, Debug, PartialEq, Eq, Structural)]
pub enum PlyError {
    LoadError,
    LoadStartNotFound,
    LoadFormatNotFound,
    LoadWrongPropertyCount,
    LoadVertexIndexDefinitionNotFound,
    LoadHeaderEndNotFound,
    LoadVertexCountNotFound,
    LoadFaceCountNotFound,
    LoadVertexCountIncorrect,
    LoadVerticesIncorrect,
}

impl ErrorKind {
    /// The readable text of this error, as a sequence of characters.
    pub open spec fn message(self) -> Seq<char> {
        match self {
            ErrorKind::MinMaxSwapped => "Passed min/max values are swapped (min > max)"@,
            ErrorKind::MinMaxEqual => "Passed min/max values are equal"@,
            ErrorKind::TooFewPoints => "Container had too few points for the operation"@,
            ErrorKind::BoundingBoxMissing => "Bounding box is missing for the operation"@,
            ErrorKind::NormalizeVecWithoutLength => "Can't normalize a vector of length 0"@,
            ErrorKind::IOError => "Can't read or write a file"@,
            ErrorKind::ParseError => "Can't parse data"@,
            ErrorKind::IndexOutOfBounds => "Tried to access an out of bounds index"@,
            ErrorKind::IncorrectFaceID => "Used an incorrect face id"@,
            ErrorKind::IncorrectVertexID => "Used an incorrect vertex id"@,
            ErrorKind::IncorrectEdgeID => "Used an incorrect edge id"@,
            ErrorKind::IncorrectVoxelID => "Used an incorrect voxel id"@,
            ErrorKind::IncorrectUnitID => "Used an incorrect unit id"@,
            ErrorKind::IncorrectDimension => "Trying to access an incorrect dimension"@,
            ErrorKind::DimensionsDontMatch => "Trying to mix types with different dimensions"@,
            ErrorKind::NumberConversionError => "Failed converting one number type to another"@,
            ErrorKind::NumberInWrongRange => "Passed number is within the wrong range"@,
            ErrorKind::ComparisionFailed => "Comparision between two values failed"@,
            ErrorKind::PlyError(x) => x.message(),
        }
    }

    /// Returns readable text for the ErrorKind.
    pub fn as_str(&self) -> (r: &'static str)
        ensures
            r@ == self.message(),
    {
        match *self {
            ErrorKind::MinMaxSwapped => "Passed min/max values are swapped (min > max)",
            ErrorKind::MinMaxEqual => "Passed min/max values are equal",
            ErrorKind::TooFewPoints => "Container had too few points for the operation",
            ErrorKind::BoundingBoxMissing => "Bounding box is missing for the operation",
            ErrorKind::NormalizeVecWithoutLength => "Can't normalize a vector of length 0",
            ErrorKind::IOError => "Can't read or write a file",
            ErrorKind::ParseError => "Can't parse data",
            ErrorKind::IndexOutOfBounds => "Tried to access an out of bounds index",
            ErrorKind::IncorrectFaceID => "Used an incorrect face id",
            ErrorKind::IncorrectVertexID => "Used an incorrect vertex id",
            ErrorKind::IncorrectEdgeID => "Used an incorrect edge id",
            ErrorKind::IncorrectVoxelID => "Used an incorrect voxel id",
            ErrorKind::IncorrectUnitID => "Used an incorrect unit id",
            ErrorKind::IncorrectDimension => "Trying to access an incorrect dimension",
            ErrorKind::DimensionsDontMatch => "Trying to mix types with different dimensions",
            ErrorKind::NumberConversionError => "Failed converting one number type to another",
            ErrorKind::NumberInWrongRange => "Passed number is within the wrong range",
            ErrorKind::ComparisionFailed => "Comparision between two values failed",
            ErrorKind::PlyError(x) => x.as_str(),
        }
    }
}

impl PlyError {
    /// The readable text of this error, as a sequence of characters.
    pub open spec fn message(self) -> Seq<char> {
        match self {
            PlyError::LoadError => "Error while loading .ply"@,
            PlyError::LoadStartNotFound => "Start of .ply header not found"@,
            PlyError::LoadFormatNotFound => "Format of .ply missing or not supported"@,
            PlyError::LoadWrongPropertyCount => "Property count of .ply missing or not supported"@,
            PlyError::LoadVertexIndexDefinitionNotFound => "Index definition in .ply not found"@,
            PlyError::LoadHeaderEndNotFound => "End of header definition of .ply not found"@,
            PlyError::LoadVertexCountNotFound => "Vertex count of .ply not found"@,
            PlyError::LoadFaceCountNotFound => "Face count of .ply not found"@,
            PlyError::LoadVertexCountIncorrect => "Vertex count of .ply not found"@,
            PlyError::LoadVerticesIncorrect => "Vertices in .ply incorrect"@,
        }
    }

    /// Returns readable text for the PlyError.
    pub fn as_str(&self) -> (r: &'static str)
        ensures
            r@ == self.message(),
    {
        match *self {
            PlyError::LoadError => "Error while loading .ply",
            PlyError::LoadStartNotFound => "Start of .ply header not found",
            PlyError::LoadFormatNotFound => "Format of .ply missing or not supported",
            PlyError::LoadWrongPropertyCount => "Property count of .ply missing or not supported",
            PlyError::LoadVertexIndexDefinitionNotFound => "Index definition in .ply not found",
            PlyError::LoadHeaderEndNotFound => "End of header definition of .ply not found",
            PlyError::LoadVertexCountNotFound => "Vertex count of .ply not found",
            PlyError::LoadFaceCountNotFound => "Face count of .ply not found",
            PlyError::LoadVertexCountIncorrect => "Vertex count of .ply not found",
            PlyError::LoadVerticesIncorrect => "Vertices in .ply incorrect",
        }
    }
}

/// Trait used to convert other errors to ErrorKind.
pub trait ToErrorKind {
    /// Creates an ErrorKind from this.
    fn to_error_kind(&self) -> ErrorKind;
}

impl ToErrorKind for PlyError {
    fn to_error_kind(&self) -> (r: ErrorKind) {
        ErrorKind::PlyError(*self)
    }
}

} // verus!
