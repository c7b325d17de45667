//! Bytes and their eight-digit binary notation, most significant digit first.

use vstd::prelude::*;
use vstd::utf8::*;
use crate::alphabet::is_bit_char;
use crate::error::DecodeError;
use crate::text::{chars_of, string_from_chars};

verus! {

/// Digit `i` of the binary notation of `b`, counted from the most
/// significant digit.
pub open spec fn bit_at(b: u8, i: int) -> char {
    if (b >> ((7 - i) as u8)) & 1 == 1 {
        '1'
    } else {
        '0'
    }
}

/// The eight binary digits of one byte.
pub open spec fn byte_to_bits(b: u8) -> Seq<char> {
    Seq::new(8, |i: int| bit_at(b, i))
}

/// The bit string of a byte sequence: eight digits per byte, in byte order.
pub open spec fn bytes_to_bits(bytes: Seq<u8>) -> Seq<char> {
    Seq::new(8 * bytes.len(), |i: int| bit_at(bytes[i / 8], i % 8))
}

/// The number that a binary digit stands for; every other character counts
/// as nothing.
pub open spec fn digit_value(c: char) -> int {
    if c == '1' {
        1
    } else {
        0
    }
}

/// Whether `group` is exactly eight binary digits.
pub open spec fn is_bit_group(group: Seq<char>) -> bool {
    &&& group.len() == 8
    &&& forall|i: int| 0 <= i < 8 ==> is_bit_char(#[trigger] group[i])
}

/// The base-2 number written by eight digits.
pub open spec fn bits_to_byte(group: Seq<char>) -> int
    recommends
        group.len() == 8,
{
    128 * digit_value(group[0]) + 64 * digit_value(group[1]) + 32 * digit_value(group[2]) + 16
        * digit_value(group[3]) + 8 * digit_value(group[4]) + 4 * digit_value(group[5]) + 2
        * digit_value(group[6]) + digit_value(group[7])
}

/// The byte that a group of eight binary digits writes; nothing for any
/// other group.
pub open spec fn group_value(group: Seq<char>) -> Option<u8> {
    if is_bit_group(group) {
        Some(bits_to_byte(group) as u8)
    } else {
        None
    }
}

/// The complete groups of eight characters of `bits`, in order. A shorter
/// rest at the end belongs to no group.
pub open spec fn bit_groups(bits: Seq<char>) -> Seq<Seq<char>> {
    Seq::new(bits.len() / 8, |j: int| bits.subrange(8 * j, 8 * j + 8))
}

/// The bytes that a bit string writes, one per complete group of eight
/// binary digits.
pub open spec fn bits_to_bytes(bits: Seq<char>) -> Seq<u8> {
    bit_groups(bits).filter_map(|g: Seq<char>| group_value(g))
}

/// The text that a bit string writes, where its bytes are well-formed UTF-8.
pub open spec fn bits_to_text(bits: Seq<char>) -> Result<Seq<char>, DecodeError> {
    if valid_utf8(bits_to_bytes(bits)) {
        Ok(decode_utf8(bits_to_bytes(bits)))
    } else {
        Err(DecodeError::InvalidUtf8)
    }
}

/// Appending a byte appends its eight digits.
pub proof fn bytes_to_bits_push(bytes: Seq<u8>, b: u8)
    ensures
        bytes_to_bits(bytes.push(b)) == bytes_to_bits(bytes) + byte_to_bits(b),
{
    let left = bytes_to_bits(bytes.push(b));
    let right = bytes_to_bits(bytes) + byte_to_bits(b);
    assert(left.len() == right.len());
    assert forall|i: int| 0 <= i < left.len() implies left[i] == right[i] by {
        if i < 8 * bytes.len() {
            assert(i / 8 < bytes.len());
        } else {
            assert(i / 8 == bytes.len());
            assert(i % 8 == i - 8 * bytes.len());
        }
    }
    assert(left =~= right);
}

/// Appends the eight binary digits of `b` to `out`.
fn push_byte_bits(out: &mut Vec<char>, b: u8)
    ensures
        final(out)@ == old(out)@ + byte_to_bits(b),
{
    for k in 0..8u8
        invariant
            out@ == old(out)@ + byte_to_bits(b).take(k as int),
    {
        let shift: u8 = 7 - k;
        let c = if (b >> shift) & 1 == 1 {
            '1'
        } else {
            '0'
        };
        out.push(c);
        assert(c == bit_at(b, k as int));
        assert(out@ =~= old(out)@ + byte_to_bits(b).take(k + 1));
    }
    assert(byte_to_bits(b).take(8) == byte_to_bits(b));
}

/// Writes the UTF-8 bytes of `s` in binary notation, eight digits per byte.
pub fn str_to_bin(s: &str) -> (res: String)
    ensures
        res@ == bytes_to_bits(encode_utf8(s@)),
{
    let bytes = s.as_bytes();
    let mut out: Vec<char> = Vec::new();
    assert(out@ =~= bytes_to_bits(bytes@.take(0)));
    for j in 0..bytes.len()
        invariant
            bytes@ == encode_utf8(s@),
            out@ == bytes_to_bits(bytes@.take(j as int)),
    {
        proof {
            bytes_to_bits_push(bytes@.take(j as int), bytes@[j as int]);
            assert(bytes@.take(j as int).push(bytes@[j as int]) =~= bytes@.take(j + 1));
        }
        push_byte_bits(&mut out, bytes[j]);
    }
    assert(bytes@.take(bytes.len() as int) == bytes@);
    string_from_chars(out)
}

/// The view of a decoding result: the characters of the text, or the error.
pub open spec fn result_view(res: Result<String, DecodeError>) -> Result<Seq<char>, DecodeError> {
    match res {
        Ok(text) => Ok(text@),
        Err(e) => Err(e),
    }
}

/// The weight of digit `k` of a group, counted from the most significant.
pub open spec fn place_weight(k: int) -> int {
    if k == 0 {
        128
    } else if k == 1 {
        64
    } else if k == 2 {
        32
    } else if k == 3 {
        16
    } else if k == 4 {
        8
    } else if k == 5 {
        4
    } else if k == 6 {
        2
    } else if k == 7 {
        1
    } else {
        0
    }
}

/// The weighted sum of the first `k` digits of a group.
pub open spec fn prefix_value(group: Seq<char>, k: int) -> int
    decreases k,
{
    if k <= 0 {
        0
    } else {
        prefix_value(group, k - 1) + if group[k - 1] == '1' {
            place_weight(k - 1)
        } else {
            0
        }
    }
}

/// Reads the eight characters of `chars` from `start` on as one byte in
/// binary notation. Gives nothing if one of them is not a binary digit.
fn parse_group(chars: &Vec<char>, start: usize) -> (res: Option<u8>)
    requires
        start + 8 <= chars.len(),
    ensures
        res == group_value(chars@.subrange(start as int, start + 8)),
{
    let ghost group = chars@.subrange(start as int, start + 8);
    let mut acc: u8 = 0;
    let mut weight: u8 = 128;
    for k in 0..8usize
        invariant
            start + 8 <= chars.len(),
            group == chars@.subrange(start as int, start + 8),
            weight as int == place_weight(k as int),
            acc as int == prefix_value(group, k as int),
            acc as int + 2 * weight <= 256,
            forall|i: int| 0 <= i < k ==> is_bit_char(#[trigger] group[i]),
    {
        let c = chars[start + k];
        assert(c == group[k as int]);
        if c == '1' {
            acc = acc + weight;
        } else if c != '0' {
            assert(!is_bit_char(group[k as int]));
            return None;
        }
        weight = weight / 2;
    }
    proof {
        reveal_with_fuel(prefix_value, 9);
        assert(acc as int == bits_to_byte(group));
    }
    Some(acc)
}

/// Reads a bit string as bytes, one per complete group of eight binary
/// digits, and the bytes as UTF-8 text. Fails if the bytes are not
/// well-formed UTF-8.
pub fn bin_to_str(s: &str) -> (res: Result<String, DecodeError>)
    ensures
        result_view(res) == bits_to_text(s@),
{
    let chars = chars_of(s);
    let n = chars.len() / 8;
    let mut out: Vec<u8> = Vec::new();
    for j in 0..n
        invariant
            chars@ == s@,
            n == chars.len() / 8,
            out@ == bit_groups(s@).take(j as int).filter_map(|g: Seq<char>| group_value(g)),
    {
        proof {
            bit_groups(s@).lemma_filter_map_take_succ(|g: Seq<char>| group_value(g), j as int);
        }
        match parse_group(&chars, 8 * j) {
            Some(b) => out.push(b),
            None => {},
        }
    }
    assert(bit_groups(s@).take(n as int) == bit_groups(s@));
    match core::str::from_utf8(out.as_slice()) {
        Ok(text) => {
            proof {
                encode_utf8_decode_utf8(text@);
            }
            Ok(text.to_owned())
        },
        Err(_) => Err(DecodeError::InvalidUtf8),
    }
}

} // verus!
