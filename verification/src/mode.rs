//! Choosing between encoding and decoding, and doing what was chosen.

use vstd::prelude::*;
use vstd::string::*;
use crate::alphabet::{is_carrier_char, ONE, ZERO};
use crate::bits::result_view;
use crate::codec::{decode, decode_spec, encode, encode_spec};
use crate::error::DecodeError;

verus! {

/// The two things that can be done with an input.
#[derive(Clone, Copy, Debug, PartialEq, Eq, Structural)]
pub enum Direction {
    /// Hide the input in a carrier.
    Encode,
    /// Recover the text that the input carries.
    Decode,
}

/// Whether `s` looks like a carrier: its first character belongs to the
/// carrier alphabet.
pub open spec fn starts_with_carrier(s: Seq<char>) -> bool {
    s.len() > 0 && is_carrier_char(s[0])
}

/// The direction for an input: a request to encode wins over a request to
/// decode; with neither, an input that looks like a carrier is decoded and
/// any other is encoded.
pub open spec fn direction_for(encode_asked: bool, decode_asked: bool, input: Seq<char>)
    -> Direction {
    if encode_asked {
        Direction::Encode
    } else if decode_asked || starts_with_carrier(input) {
        Direction::Decode
    } else {
        Direction::Encode
    }
}

/// What transcoding an input in a direction gives.
pub open spec fn transcode_spec(direction: Direction, input: Seq<char>) -> Result<
    Seq<char>,
    DecodeError,
> {
    match direction {
        Direction::Encode => Ok(encode_spec(input)),
        Direction::Decode => decode_spec(input),
    }
}

/// Tells whether the first character of `s` is a carrier character.
pub fn looks_encoded(s: &str) -> (r: bool)
    ensures
        r == starts_with_carrier(s@),
{
    if s.is_empty() {
        false
    } else {
        let first = s.get_char(0);
        first == ZERO || first == ONE
    }
}

/// Picks the direction from the two requests and, with neither, from the
/// input's first character.
pub fn choose_direction(encode_asked: bool, decode_asked: bool, input: &str) -> (d: Direction)
    ensures
        d == direction_for(encode_asked, decode_asked, input@),
{
    if encode_asked {
        Direction::Encode
    } else if decode_asked {
        Direction::Decode
    } else if looks_encoded(input) {
        Direction::Decode
    } else {
        Direction::Encode
    }
}

/// Encodes or decodes `input`, as `direction` says. Encoding never fails.
pub fn transcode(direction: Direction, input: &str) -> (res: Result<String, DecodeError>)
    ensures
        result_view(res) == transcode_spec(direction, input@),
{
    match direction {
        Direction::Encode => Ok(encode(input)),
        Direction::Decode => decode(input),
    }
}

} // verus!
