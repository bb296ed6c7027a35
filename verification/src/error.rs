//! The failures a conversion can report.

use vstd::prelude::*;
use vstd::std_specs::convert::FromSpecImpl;

verus! {

/// `std::io::Error`, which is carried through as it is. Nothing is known here of what one
/// holds.
#[verifier::external_type_specification]
#[verifier::external_body]
pub struct ExIoError(std::io::Error);

/// Why a conversion failed.
#[derive(Debug)]
pub enum Error {
    /// Reading the input or producing the output failed.
    IoError(std::io::Error),
    /// The vector image could not be parsed.
    ParseError,
    /// The vector image could not be turned into pixels.
    RasterizeError,
}

impl From<std::io::Error> for Error {
    fn from(error: std::io::Error) -> (r: Self) {
        Error::IoError(error)
    }
}

impl FromSpecImpl<std::io::Error> for Error {
    open spec fn obeys_from_spec() -> bool {
        true
    }

    open spec fn from_spec(error: std::io::Error) -> Self {
        Error::IoError(error)
    }
}

impl Error {
    /// The text shown to a user for this failure.
    ///
    /// The two failures of this library have fixed texts; an I/O failure is described by its
    /// own words, as `to_string` gives them.
    pub fn message(&self) -> (text: String)
        ensures
            self matches Error::IoError(error)
                ==> vstd::string::to_string_from_display_ensures::<std::io::Error>(error, text),
            self is ParseError ==> text@ == "An unknown SVG parsing error"@,
            self is RasterizeError ==> text@ == "Failed to rasterize SVG"@,
    {
        match self {
            Error::IoError(error) => error.to_string(),
            Error::ParseError => "An unknown SVG parsing error".to_owned(),
            Error::RasterizeError => "Failed to rasterize SVG".to_owned(),
        }
    }
}

/// An I/O error of the kind `InvalidInput` with the given text.
///
/// Not verified: this calls `std::io::Error::new`. Nothing is claimed of the value that comes
/// back.
#[verifier::external_body]
pub(crate) fn invalid_input(message: &str) -> std::io::Error {
    std::io::Error::new(std::io::ErrorKind::InvalidInput, message)
}

} // verus!
