//! The error taxonomy of the descriptor pipeline.

use vstd::prelude::*;

verus! {

/// What can go wrong while producing a package descriptor.
///
/// `NotFound` is reserved for a missing manifest file, `ParseError` for
/// manifest text that does not conform to the expected schema, `IoError` for
/// filesystem failures while writing the descriptor, and `SerializationError`
/// for a descriptor that cannot be encoded.
#[derive(Clone, Copy, Debug, PartialEq, Eq, Structural)]
pub enum PackageError {
    NotFound,
    ParseError,
    IoError,
    SerializationError,
}

impl PackageError {
    /// The one-line message the launcher reports for this error.
    pub fn message(&self) -> (r: String)
        ensures
            r@ == spec_message(*self),
    {
        match self {
            PackageError::NotFound => String::from_str("missing a `Cargo.toml`"),
            PackageError::ParseError => String::from_str("`Cargo.toml` does not describe a package"),
            PackageError::IoError => String::from_str("failed to write the package descriptor"),
            PackageError::SerializationError => String::from_str("failed to encode the package descriptor"),
        }
    }
}

/// The message text of each error, as a sequence of characters.
pub open spec fn spec_message(e: PackageError) -> Seq<char> {
    match e {
        PackageError::NotFound => "missing a `Cargo.toml`"@,
        PackageError::ParseError => "`Cargo.toml` does not describe a package"@,
        PackageError::IoError => "failed to write the package descriptor"@,
        PackageError::SerializationError => "failed to encode the package descriptor"@,
    }
}

} // verus!
