//! The parameters of one run.

use vstd::prelude::*;
use vstd::string::*;
use vstd::utf8::encode_utf8;

verus! {

/// `std::path::PathBuf`, carried through unread.
#[verifier::external_type_specification]
#[verifier::external_body]
pub struct ExPathBuf(std::path::PathBuf);

/// The deployment a run talks to.
#[derive(Clone, Copy, Debug, PartialEq, Eq, Hash, Structural)]
pub enum Environment {
    PROD,
    STAGE,
    SANDBOX,
    DEV,
}

/// The field delimiter of the input when none is given.
pub const DEFAULT_DELIMITER: &'static str = ",";

/// The number of requests that may be in flight at once when none is given.
pub const DEFAULT_LIMIT: u16 = 300;

/// What the operator asks for: the environment, the input file, the field
/// delimiter of the input and the number of requests that may be in flight
/// at once.
#[derive(Debug)]
pub struct CliParams {
    pub environment: Environment,
    pub path: std::path::PathBuf,
    pub delimiter: String,
    pub limit: u16,
}

/// The first byte of `text` in UTF-8, if it has one.
pub open spec fn first_byte(text: Seq<char>) -> Option<u8> {
    if encode_utf8(text).len() > 0 {
        Some(encode_utf8(text)[0])
    } else {
        None
    }
}

impl CliParams {
    /// The byte that separates the fields of the input: the first byte of
    /// `delimiter`. There is none when `delimiter` is empty.
    pub fn delimiter_byte(&self) -> (byte: Option<u8>)
        ensures
            byte == first_byte(self.delimiter@),
    {
        let bytes = self.delimiter.as_str().as_bytes();
        if bytes.len() > 0 {
            Some(bytes[0])
        } else {
            None
        }
    }
}

} // verus!
