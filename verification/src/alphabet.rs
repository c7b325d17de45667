//! The carrier alphabet and its correspondence with the binary digits.

use vstd::prelude::*;

verus! {

/// The carrier character that stands for the binary digit 0 (zero-width non-joiner).
pub const ZERO: char = '\u{200c}';

/// The carrier character that stands for the binary digit 1 (zero-width space).
pub const ONE: char = '\u{200b}';

/// Whether `c` is one of the two binary digit characters.
pub open spec fn is_bit_char(c: char) -> bool {
    c == '0' || c == '1'
}

/// Whether `c` belongs to the carrier alphabet.
pub open spec fn is_carrier_char(c: char) -> bool {
    c == ZERO || c == ONE
}

/// Whether every character of `s` is a binary digit.
pub open spec fn is_bit_string(s: Seq<char>) -> bool {
    forall|i: int| 0 <= i < s.len() ==> is_bit_char(#[trigger] s[i])
}

/// Whether every character of `s` is a carrier character.
pub open spec fn is_carrier_string(s: Seq<char>) -> bool {
    forall|i: int| 0 <= i < s.len() ==> is_carrier_char(#[trigger] s[i])
}

/// The carrier character for a binary digit; nothing for any other character.
pub open spec fn carrier_of_bit(c: char) -> Option<char> {
    if c == '0' {
        Some(ZERO)
    } else if c == '1' {
        Some(ONE)
    } else {
        None
    }
}

/// The binary digit for a carrier character; nothing for any other character.
pub open spec fn bit_of_carrier(c: char) -> Option<char> {
    if c == ZERO {
        Some('0')
    } else if c == ONE {
        Some('1')
    } else {
        None
    }
}

/// Maps a binary digit to its carrier character and rejects everything else.
pub fn bit_to_carrier(c: char) -> (r: Option<char>)
    ensures
        r == carrier_of_bit(c),
{
    if c == '0' {
        Some(ZERO)
    } else if c == '1' {
        Some(ONE)
    } else {
        None
    }
}

/// Maps a carrier character to its binary digit and rejects everything else.
pub fn carrier_to_bit(c: char) -> (r: Option<char>)
    ensures
        r == bit_of_carrier(c),
{
    if c == ZERO {
        Some('0')
    } else if c == ONE {
        Some('1')
    } else {
        None
    }
}

/// The two carrier characters differ from each other and from both binary
/// digits, so the two mappings undo each other.
pub proof fn alphabet_is_sound()
    ensures
        ZERO != ONE,
        !is_bit_char(ZERO),
        !is_bit_char(ONE),
        forall|c: char| is_bit_char(c) ==> #[trigger] carrier_of_bit(c) is Some
            && bit_of_carrier(carrier_of_bit(c)->Some_0) == Some(c),
        forall|c: char| is_carrier_char(c) ==> #[trigger] bit_of_carrier(c) is Some
            && carrier_of_bit(bit_of_carrier(c)->Some_0) == Some(c),
{
}

} // verus!
