//! What can go wrong.

use vstd::prelude::*;

verus! {

/// The ways in which writing or reading a container fails.
#[derive(Debug)]
pub enum ZipError {
    /// The path has no base name, or its base name is longer than the 65 535
    /// bytes that the name-length field can describe.
    InvalidName,
    /// The compression or decompression transform failed; its error is
    /// handed on as it came.
    Io(std::io::Error),
    /// The container ends before the field that was to be read.
    UnexpectedEof,
    /// A size or an offset does not fit in 64 bits.
    TooLarge,
}

/// The kinds of failure, without what a failure carries.
pub enum Failure {
    InvalidName,
    Io,
    UnexpectedEof,
    TooLarge,
}

impl ZipError {
    /// The kind of the failure.
    pub open spec fn kind(&self) -> Failure {
        match self {
            ZipError::InvalidName => Failure::InvalidName,
            ZipError::Io(_) => Failure::Io,
            ZipError::UnexpectedEof => Failure::UnexpectedEof,
            ZipError::TooLarge => Failure::TooLarge,
        }
    }

    /// What the library returns where the transform returned `outcome`: the
    /// transform's value, or the transform's error as it came.
    pub fn from_transform<T>(outcome: Result<T, std::io::Error>) -> (returned: Result<T, ZipError>)
        ensures
            match outcome {
                Ok(value) => returned == Ok::<T, ZipError>(value),
                Err(error) => returned == Err::<T, ZipError>(ZipError::Io(error)),
            },
    {
        match outcome {
            Ok(value) => Ok(value),
            Err(error) => Err(ZipError::Io(error)),
        }
    }
}

} // verus!
