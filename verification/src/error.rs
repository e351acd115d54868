//! What can go wrong while a file is read.

use vstd::prelude::*;
use vstd::string::{to_string_from_display_ensures, StringExecFns};

verus! {

/// `std::io::Error`, carried as it comes: nothing here looks inside one.
#[verifier::external_type_specification]
#[verifier::external_body]
pub struct ExIoError(std::io::Error);

/// `std::str::Utf8Error`, carried as it comes.
#[verifier::external_type_specification]
#[verifier::external_body]
pub struct ExUtf8Error(std::str::Utf8Error);

/// `std::path::PathBuf`, carried as it comes: a path only names a file in
/// results and errors.
#[verifier::external_type_specification]
#[verifier::external_body]
pub struct ExPathBuf(std::path::PathBuf);

/// A failure that ends the reading of one file.
#[derive(Debug)]
pub enum Error {
    /// Reading or seeking failed.
    IoError(std::io::Error),
    /// The text of an entry is not UTF-8.
    Utf8Error(std::str::Utf8Error),
    /// The text of an entry, given here, has no `=`.
    MalformedVorbisComment(String),
    /// The file at this path does not start with the FLAC signature.
    InvalidFlacHeader(std::path::PathBuf),
}

/// `Display` of `std::path::Path`, through `PathBuf::display`: the path as
/// text, for a message. Nothing is claimed of the text.
#[verifier::external_body]
fn path_text(path: &std::path::PathBuf) -> (text: String) {
    path.display().to_string()
}

impl Error {
    /// The error as a line of text: what kind it is and, behind that, what
    /// it carries.
    pub fn message(&self) -> (text: String)
        ensures
            match self {
                Error::IoError(e) => exists|detail: String|
                    to_string_from_display_ensures(e, detail) && text@ == "I/O Error: "@
                        + detail@,
                Error::Utf8Error(e) => exists|detail: String|
                    to_string_from_display_ensures(e, detail) && text@ == "UTF8 error: "@
                        + detail@,
                Error::MalformedVorbisComment(e) => text@ == "Malformed vorbis comment: "@ + e@,
                Error::InvalidFlacHeader(_) => "Invalid flac file: "@.is_prefix_of(text@),
            },
    {
        match self {
            Error::IoError(e) => {
                let detail: String = e.to_string();
                String::from_str("I/O Error: ").concat(detail.as_str())
            },
            Error::Utf8Error(e) => {
                let detail: String = e.to_string();
                String::from_str("UTF8 error: ").concat(detail.as_str())
            },
            Error::MalformedVorbisComment(e) => String::from_str(
                "Malformed vorbis comment: ",
            ).concat(e.as_str()),
            Error::InvalidFlacHeader(p) => {
                let detail: String = path_text(p);
                String::from_str("Invalid flac file: ").concat(detail.as_str())
            },
        }
    }
}

impl From<std::io::Error> for Error {
    fn from(e: std::io::Error) -> (error: Error) {
        Error::IoError(e)
    }
}

impl vstd::std_specs::convert::FromSpecImpl<std::io::Error> for Error {
    open spec fn obeys_from_spec() -> bool {
        true
    }

    open spec fn from_spec(e: std::io::Error) -> Error {
        Error::IoError(e)
    }
}

impl From<std::str::Utf8Error> for Error {
    fn from(e: std::str::Utf8Error) -> (error: Error) {
        Error::Utf8Error(e)
    }
}

impl vstd::std_specs::convert::FromSpecImpl<std::str::Utf8Error> for Error {
    open spec fn obeys_from_spec() -> bool {
        true
    }

    open spec fn from_spec(e: std::str::Utf8Error) -> Error {
        Error::Utf8Error(e)
    }
}

} // verus!
