//! The two entry points: hiding text in a carrier and recovering it.

use vstd::prelude::*;
use vstd::utf8::*;
use crate::bits::{bin_to_str, bits_to_bytes, bits_to_text, bytes_to_bits, result_view, str_to_bin};
use crate::carrier::{bin_to_zw, bits_to_carrier, carrier_to_bits, zw_to_bin};
use crate::alphabet::is_carrier_string;
use crate::error::DecodeError;
use crate::laws::{decode_inverts_encode, encode_length, encode_stays_in_alphabet};

verus! {

/// The carrier of a text: its UTF-8 bytes, written in binary, digit by digit
/// in carrier characters.
pub open spec fn encode_spec(text: Seq<char>) -> Seq<char> {
    bits_to_carrier(bytes_to_bits(encode_utf8(text)))
}

/// The bytes that a carrier holds: its carrier characters, read in complete
/// groups of eight.
pub open spec fn carried_bytes(carrier: Seq<char>) -> Seq<u8> {
    bits_to_bytes(carrier_to_bits(carrier))
}

/// The text that a carrier holds, or the error where its bytes are not
/// well-formed UTF-8.
pub open spec fn decode_spec(carrier: Seq<char>) -> Result<Seq<char>, DecodeError> {
    bits_to_text(carrier_to_bits(carrier))
}

/// Hides `s` in a string of zero-width characters. Never fails. The result
/// holds carrier characters only, eight for every UTF-8 byte of `s`, and
/// decodes to `s`.
pub fn encode(s: &str) -> (res: String)
    ensures
        res@ == encode_spec(s@),
        res@.len() == 8 * encode_utf8(s@).len(),
        is_carrier_string(res@),
        decode_spec(res@) == Ok::<Seq<char>, DecodeError>(s@),
{
    proof {
        encode_length(s@);
        encode_stays_in_alphabet(s@);
        decode_inverts_encode(s@);
    }
    let bin = str_to_bin(s);
    bin_to_zw(bin.as_str())
}

/// Recovers the text hidden in `s`. Characters outside the carrier alphabet
/// are ignored, and so is an incomplete group at the end. Fails exactly when
/// the recovered bytes are not well-formed UTF-8.
pub fn decode(s: &str) -> (res: Result<String, DecodeError>)
    ensures
        result_view(res) == decode_spec(s@),
        res is Ok <==> valid_utf8(carried_bytes(s@)),
        res is Ok ==> res->Ok_0@ == decode_utf8(carried_bytes(s@)),
        res is Err ==> res->Err_0 == DecodeError::InvalidUtf8,
{
    let bin = zw_to_bin(s);
    bin_to_str(bin.as_str())
}

} // verus!
