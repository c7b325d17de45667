//! The one way in which decoding can fail.

use vstd::prelude::*;

verus! {

/// Why a carrier could not be decoded.
#[derive(Clone, Copy, Debug, PartialEq, Eq, Structural)]
pub enum DecodeError {
    /// The bytes recovered from the carrier are not well-formed UTF-8.
    InvalidUtf8,
}

impl DecodeError {
    /// A short description of the failure, for showing to a user.
    pub fn message(&self) -> (res: &'static str)
        ensures
            res@ == "carrier does not hold valid UTF-8 text"@,
    {
        match self {
            DecodeError::InvalidUtf8 => "carrier does not hold valid UTF-8 text",
        }
    }
}

} // verus!
