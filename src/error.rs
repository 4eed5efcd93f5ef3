//! The errors of the library.

use vstd::prelude::*;

verus! {

#[verifier::external_type_specification]
#[verifier::external_body]
pub struct ExIoError(std::io::Error);

#[verifier::external_type_specification]
#[verifier::external_body]
pub struct ExFromUtf8Error(std::string::FromUtf8Error);

/// Why collecting state, extracting intent or writing a report failed.
#[derive(Debug)]
pub enum Error {
    HomebrewNotFound,
    /// The activation script was not at the path given.
    NoActivationScript(String),
    /// The activation script names no manifest.
    BrewfileNotFound,
    ParseError(String),
    Io(std::io::Error),
    Utf8(std::string::FromUtf8Error),
    /// A query process could not be started.
    CommandFailed(String),
}

pub type Result<T> = std::result::Result<T, Error>;

} // verus!
