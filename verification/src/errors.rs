//! The ways in which a download can fail.

use vstd::prelude::*;
use vstd::std_specs::convert::FromSpecImpl;
use reqwest::Error as RequestError;

verus! {

/// A failure of the HTTP layer, as `reqwest` reports it. Carried, never looked into.
#[verifier::external_type_specification]
#[verifier::external_body]
pub struct ExRequestError(RequestError);

/// A failure of the file system, as std reports it. Carried, never looked into.
#[verifier::external_type_specification]
#[verifier::external_body]
pub struct ExIoError(std::io::Error);

/// What `HeaderValue::from_str` returns for text that no header can hold.
#[verifier::external_type_specification]
#[verifier::external_body]
pub struct ExInvalidHeaderValue(reqwest::header::InvalidHeaderValue);

/// Why a download stopped without finishing. Its `Debug` form is the text
/// to show to a user.
#[derive(Debug)]
pub enum Error {
    /// A directory that the output path names does not exist. Kept for callers
    /// that validate paths; a transfer itself never reports it.
    DirectoryNotFound(String),
    /// The request could not be sent, or the response or its body was faulty.
    RequestFailed(RequestError),
    /// The output file could not be inspected, opened, created or written.
    IO(std::io::Error),
    /// The byte range could not be put into a request header.
    InvalidHeaderValue(reqwest::header::InvalidHeaderValue),
}

impl From<RequestError> for Error {
    fn from(err: RequestError) -> (res: Self) {
        Error::RequestFailed(err)
    }
}

impl FromSpecImpl<RequestError> for Error {
    open spec fn obeys_from_spec() -> bool {
        true
    }

    open spec fn from_spec(err: RequestError) -> Self {
        Error::RequestFailed(err)
    }
}

impl From<std::io::Error> for Error {
    fn from(err: std::io::Error) -> (res: Self) {
        Error::IO(err)
    }
}

impl FromSpecImpl<std::io::Error> for Error {
    open spec fn obeys_from_spec() -> bool {
        true
    }

    open spec fn from_spec(err: std::io::Error) -> Self {
        Error::IO(err)
    }
}

} // verus!
