//! Why browsing an object fails.
use vstd::prelude::*;

verus! {

/// An error of the file system.
#[verifier::external_type_specification]
#[verifier::external_body]
pub struct ExIoError(std::io::Error);

/// An error of reading XML into values.
#[verifier::external_type_specification]
#[verifier::external_body]
pub struct ExDeError(quick_xml::DeError);

/// Why an object cannot be browsed.
#[derive(Debug)]
pub enum Error {
    /// No folder is shared under the name.
    NotFound,
    /// The folder cannot be read.
    IO,
}

impl Error {
    /// The HTTP status that tells a client of the error.
    pub fn status(&self) -> (code: u16)
        ensures
            code == match self {
                Error::NotFound => 404u16,
                Error::IO => 500u16,
            },
    {
        match self {
            Error::NotFound => 404,
            Error::IO => 500,
        }
    }
}

impl From<std::io::Error> for Error {
    fn from(_e: std::io::Error) -> (out: Error) {
        Error::IO
    }
}

impl vstd::std_specs::convert::FromSpecImpl<std::io::Error> for Error {
    open spec fn obeys_from_spec() -> bool {
        true
    }

    open spec fn from_spec(_e: std::io::Error) -> Error {
        Error::IO
    }
}

impl From<quick_xml::DeError> for Error {
    fn from(_e: quick_xml::DeError) -> (out: Error) {
        Error::IO
    }
}

impl vstd::std_specs::convert::FromSpecImpl<quick_xml::DeError> for Error {
    open spec fn obeys_from_spec() -> bool {
        true
    }

    open spec fn from_spec(_e: quick_xml::DeError) -> Error {
        Error::IO
    }
}

} // verus!
