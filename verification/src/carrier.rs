//! Bit strings and carrier strings, and the two filtering maps between them.

use vstd::prelude::*;
use crate::alphabet::{bit_of_carrier, bit_to_carrier, carrier_of_bit, carrier_to_bit};
use crate::text::{chars_of, string_from_chars};

verus! {

/// The carrier string of a bit string: every binary digit is replaced by its
/// carrier character, every other character is dropped.
pub open spec fn bits_to_carrier(bits: Seq<char>) -> Seq<char> {
    bits.filter_map(|c: char| carrier_of_bit(c))
}

/// The bit string of a carrier: every carrier character is replaced by its
/// binary digit, every other character is dropped.
pub open spec fn carrier_to_bits(carrier: Seq<char>) -> Seq<char> {
    carrier.filter_map(|c: char| bit_of_carrier(c))
}

/// Turns a bit string into a carrier string, skipping whatever is not a
/// binary digit.
pub fn bin_to_zw(s: &str) -> (res: String)
    ensures
        res@ == bits_to_carrier(s@),
{
    let chars = chars_of(s);
    let mut out: Vec<char> = Vec::new();
    for i in 0..chars.len()
        invariant
            chars@ == s@,
            out@ == bits_to_carrier(s@.take(i as int)),
    {
        proof {
            s@.lemma_filter_map_take_succ(|c: char| carrier_of_bit(c), i as int);
        }
        match bit_to_carrier(chars[i]) {
            Some(z) => out.push(z),
            None => {},
        }
    }
    assert(s@.take(chars.len() as int) == s@);
    string_from_chars(out)
}

/// Turns a carrier string into a bit string, skipping whatever is not a
/// carrier character.
pub fn zw_to_bin(s: &str) -> (res: String)
    ensures
        res@ == carrier_to_bits(s@),
{
    let chars = chars_of(s);
    let mut out: Vec<char> = Vec::new();
    for i in 0..chars.len()
        invariant
            chars@ == s@,
            out@ == carrier_to_bits(s@.take(i as int)),
    {
        proof {
            s@.lemma_filter_map_take_succ(|c: char| bit_of_carrier(c), i as int);
        }
        match carrier_to_bit(chars[i]) {
            Some(b) => out.push(b),
            None => {},
        }
    }
    assert(s@.take(chars.len() as int) == s@);
    string_from_chars(out)
}

} // verus!
