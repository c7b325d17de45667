//! What holds of encoding and decoding on every input.

use vstd::prelude::*;
use vstd::utf8::*;
use crate::alphabet::{
    bit_of_carrier,
    carrier_of_bit,
    is_bit_char,
    is_bit_string,
    is_carrier_char,
    is_carrier_string,
};
use crate::bits::{
    bit_at,
    bit_groups,
    bits_to_byte,
    bits_to_bytes,
    byte_to_bits,
    bytes_to_bits,
    group_value,
    is_bit_group,
};
use crate::carrier::{bits_to_carrier, carrier_to_bits};
use crate::codec::{carried_bytes, decode_spec, encode_spec};
use crate::error::DecodeError;
use crate::filtering::{
    filter_keeps_all,
    filter_map_after_filter,
    filter_map_keeps_all,
    filter_map_skips_inserted,
};

verus! {

/// What is left of a string when every character outside the carrier
/// alphabet is taken out.
pub open spec fn filter_to_alphabet(s: Seq<char>) -> Seq<char> {
    s.filter(|c: char| is_carrier_char(c))
}

/// The longest prefix of `s` whose length is a multiple of eight.
pub open spec fn whole_groups(s: Seq<char>) -> Seq<char> {
    s.take(8 * (s.len() as int / 8))
}

/// A byte is the sum of its binary digits, each taken with its weight.
proof fn byte_is_sum_of_bits(b: u8)
    by (bit_vector)
    ensures
        ((b >> 7u8) & 1) == 0 || ((b >> 7u8) & 1) == 1,
        ((b >> 6u8) & 1) == 0 || ((b >> 6u8) & 1) == 1,
        ((b >> 5u8) & 1) == 0 || ((b >> 5u8) & 1) == 1,
        ((b >> 4u8) & 1) == 0 || ((b >> 4u8) & 1) == 1,
        ((b >> 3u8) & 1) == 0 || ((b >> 3u8) & 1) == 1,
        ((b >> 2u8) & 1) == 0 || ((b >> 2u8) & 1) == 1,
        ((b >> 1u8) & 1) == 0 || ((b >> 1u8) & 1) == 1,
        ((b >> 0u8) & 1) == 0 || ((b >> 0u8) & 1) == 1,
        128 * ((b >> 7u8) & 1) + 64 * ((b >> 6u8) & 1) + 32 * ((b >> 5u8) & 1) + 16 * ((b >> 4u8)
            & 1) + 8 * ((b >> 3u8) & 1) + 4 * ((b >> 2u8) & 1) + 2 * ((b >> 1u8) & 1) + ((b >> 0u8)
            & 1) == b,
{
}

/// Reading the eight digits of a byte gives the byte back.
pub proof fn byte_round_trip(b: u8)
    ensures
        is_bit_group(byte_to_bits(b)),
        group_value(byte_to_bits(b)) == Some(b),
{
    byte_is_sum_of_bits(b);
    let g = byte_to_bits(b);
    assert(g[0] == bit_at(b, 0) && g[1] == bit_at(b, 1) && g[2] == bit_at(b, 2) && g[3] == bit_at(
        b,
        3,
    ) && g[4] == bit_at(b, 4) && g[5] == bit_at(b, 5) && g[6] == bit_at(b, 6) && g[7] == bit_at(
        b,
        7,
    ));
    assert(bits_to_byte(g) == b as int);
}

/// Reading the digits of a byte sequence gives the bytes back.
pub proof fn bytes_round_trip(bytes: Seq<u8>)
    ensures
        is_bit_string(bytes_to_bits(bytes)),
        bits_to_bytes(bytes_to_bits(bytes)) == bytes,
{
    let bits = bytes_to_bits(bytes);
    let groups = bit_groups(bits);
    let parse = |g: Seq<char>| group_value(g);
    assert(groups.len() == bytes.len());
    assert forall|j: int| 0 <= j < groups.len() implies #[trigger] groups[j] == byte_to_bits(
        bytes[j],
    ) by {
        assert forall|k: int| 0 <= k < 8 implies groups[j][k] == byte_to_bits(bytes[j])[k] by {
            assert((8 * j + k) / 8 == j);
            assert((8 * j + k) % 8 == k);
        }
        assert(groups[j] =~= byte_to_bits(bytes[j]));
    }
    assert forall|j: int| 0 <= j < groups.len() implies parse(#[trigger] groups[j]) == Some(
        bytes[j],
    ) by {
        byte_round_trip(bytes[j]);
    }
    filter_map_keeps_all(groups, parse);
    assert(bits_to_bytes(bits) =~= bytes);
}

/// Mapping a bit string to the carrier alphabet keeps its length, yields
/// carrier characters only, and is undone by mapping back.
pub proof fn carrier_round_trip(bits: Seq<char>)
    requires
        is_bit_string(bits),
    ensures
        bits_to_carrier(bits).len() == bits.len(),
        is_carrier_string(bits_to_carrier(bits)),
        carrier_to_bits(bits_to_carrier(bits)) == bits,
{
    let there = |c: char| carrier_of_bit(c);
    let back = |c: char| bit_of_carrier(c);
    assert forall|i: int| 0 <= i < bits.len() implies there(#[trigger] bits[i]) is Some by {
        assert(is_bit_char(bits[i]));
    }
    filter_map_keeps_all(bits, there);
    let carrier = bits_to_carrier(bits);
    assert forall|i: int| 0 <= i < carrier.len() implies is_carrier_char(
        #[trigger] carrier[i],
    ) && back(carrier[i]) == Some(bits[i]) by {
        assert(is_bit_char(bits[i]));
        assert(carrier[i] == there(bits[i])->Some_0);
    }
    filter_map_keeps_all(carrier, back);
    assert(carrier_to_bits(carrier) =~= bits);
}

/// A carrier that writes out a byte sequence holds exactly those bytes. It
/// decodes to the text that they encode where they are well-formed UTF-8,
/// and fails to decode where they are not.
pub proof fn decode_reads_written_bytes(bytes: Seq<u8>)
    ensures
        carried_bytes(bits_to_carrier(bytes_to_bits(bytes))) == bytes,
        valid_utf8(bytes) ==> decode_spec(bits_to_carrier(bytes_to_bits(bytes))) == Ok::<
            Seq<char>,
            DecodeError,
        >(decode_utf8(bytes)),
        !valid_utf8(bytes) ==> decode_spec(bits_to_carrier(bytes_to_bits(bytes))) == Err::<
            Seq<char>,
            DecodeError,
        >(DecodeError::InvalidUtf8),
{
    bytes_round_trip(bytes);
    carrier_round_trip(bytes_to_bits(bytes));
}

/// Decoding the carrier of any text gives that text back.
pub proof fn decode_inverts_encode(text: Seq<char>)
    ensures
        decode_spec(encode_spec(text)) == Ok::<Seq<char>, DecodeError>(text),
{
    decode_reads_written_bytes(encode_utf8(text));
    encode_utf8_valid_utf8(text);
    encode_utf8_decode_utf8(text);
}

/// The empty text has the empty carrier, and the empty carrier holds the
/// empty text.
pub proof fn empty_maps_to_empty()
    ensures
        encode_spec(Seq::<char>::empty()) == Seq::<char>::empty(),
        decode_spec(Seq::<char>::empty()) == Ok::<Seq<char>, DecodeError>(Seq::<char>::empty()),
{
    let e = Seq::<char>::empty();
    assert(encode_utf8(e) =~= Seq::<u8>::empty());
    assert(bytes_to_bits(Seq::<u8>::empty()) =~= e);
    assert(encode_spec(e) =~= e);
    decode_inverts_encode(e);
}

/// A carrier has eight characters for every UTF-8 byte of the text.
pub proof fn encode_length(text: Seq<char>)
    ensures
        encode_spec(text).len() == 8 * encode_utf8(text).len(),
{
    bytes_round_trip(encode_utf8(text));
    carrier_round_trip(bytes_to_bits(encode_utf8(text)));
}

/// A carrier made by encoding holds carrier characters only.
pub proof fn encode_stays_in_alphabet(text: Seq<char>)
    ensures
        is_carrier_string(encode_spec(text)),
{
    bytes_round_trip(encode_utf8(text));
    carrier_round_trip(bytes_to_bits(encode_utf8(text)));
}

/// A character outside the carrier alphabet, put anywhere into a carrier,
/// does not change what the carrier decodes to.
pub proof fn decode_ignores_inserted_noise(carrier: Seq<char>, at: int, noise: char)
    requires
        0 <= at <= carrier.len(),
        !is_carrier_char(noise),
    ensures
        decode_spec(carrier.insert(at, noise)) == decode_spec(carrier),
{
    filter_map_skips_inserted(carrier, at, noise, |c: char| bit_of_carrier(c));
}

/// A string decodes as what is left of it once every character outside the
/// carrier alphabet is taken out.
pub proof fn decode_ignores_noise(carrier: Seq<char>)
    ensures
        is_carrier_string(filter_to_alphabet(carrier)),
        decode_spec(carrier) == decode_spec(filter_to_alphabet(carrier)),
{
    let keep = |c: char| is_carrier_char(c);
    assert forall|i: int| 0 <= i < carrier.filter(keep).len() implies is_carrier_char(
        #[trigger] carrier.filter(keep)[i],
    ) by {
        carrier.lemma_filter_pred(keep, i);
    }
    filter_map_after_filter(carrier, keep, |c: char| bit_of_carrier(c));
}

/// A string of carrier characters holds no noise to take out.
pub proof fn filter_keeps_carrier_strings(carrier: Seq<char>)
    requires
        is_carrier_string(carrier),
    ensures
        filter_to_alphabet(carrier) == carrier,
{
    filter_keeps_all(carrier, |c: char| is_carrier_char(c));
}

/// Two strings that hold the same carrier characters in the same order
/// decode alike, whatever else stands between them.
pub proof fn decode_depends_on_alphabet_only(a: Seq<char>, b: Seq<char>)
    requires
        filter_to_alphabet(a) == filter_to_alphabet(b),
    ensures
        decode_spec(a) == decode_spec(b),
{
    decode_ignores_noise(a);
    decode_ignores_noise(b);
}

/// A bit string and its longest prefix of complete groups write the same
/// bytes.
pub proof fn incomplete_group_writes_nothing(bits: Seq<char>)
    ensures
        bits_to_bytes(whole_groups(bits)) == bits_to_bytes(bits),
{
    let whole = whole_groups(bits);
    assert(bit_groups(whole).len() == bit_groups(bits).len());
    assert forall|j: int| 0 <= j < bit_groups(bits).len() implies #[trigger] bit_groups(whole)[j]
        == bit_groups(bits)[j] by {
        assert(bit_groups(whole)[j] =~= bit_groups(bits)[j]);
    }
    assert(bit_groups(whole) =~= bit_groups(bits));
}

/// A carrier decodes as its carrier characters cut down to the longest
/// prefix whose length is a multiple of eight.
pub proof fn decode_drops_incomplete_group(carrier: Seq<char>)
    ensures
        decode_spec(carrier) == decode_spec(whole_groups(filter_to_alphabet(carrier))),
{
    let kept = filter_to_alphabet(carrier);
    let cut = whole_groups(kept);
    let back = |c: char| bit_of_carrier(c);
    decode_ignores_noise(carrier);
    assert forall|i: int| 0 <= i < kept.len() implies back(#[trigger] kept[i]) is Some by {
        assert(is_carrier_char(kept[i]));
    }
    filter_map_keeps_all(kept, back);
    assert forall|i: int| 0 <= i < cut.len() implies back(#[trigger] cut[i]) is Some by {
        assert(cut[i] == kept[i]);
    }
    filter_map_keeps_all(cut, back);
    let bits = carrier_to_bits(kept);
    assert(carrier_to_bits(cut) =~= whole_groups(bits));
    incomplete_group_writes_nothing(bits);
}

/// Every character takes at least one byte in UTF-8.
pub proof fn utf8_is_no_shorter(text: Seq<char>)
    ensures
        encode_utf8(text).len() >= text.len(),
    decreases text.len(),
{
    if text.len() > 0 {
        utf8_is_no_shorter(text.drop_first());
    }
}

/// The carrier of a carrier is again a string of carrier characters, differs
/// from the first carrier where the text is not empty, and decoding twice
/// gives the text back.
pub proof fn double_encoding(text: Seq<char>)
    ensures
        is_carrier_string(encode_spec(encode_spec(text))),
        text.len() > 0 ==> encode_spec(encode_spec(text)) != encode_spec(text),
        decode_spec(encode_spec(encode_spec(text))) == Ok::<Seq<char>, DecodeError>(
            encode_spec(text),
        ),
        decode_spec(encode_spec(text)) == Ok::<Seq<char>, DecodeError>(text),
{
    let once = encode_spec(text);
    let twice = encode_spec(once);
    encode_stays_in_alphabet(once);
    decode_inverts_encode(once);
    decode_inverts_encode(text);
    encode_length(text);
    encode_length(once);
    utf8_is_no_shorter(text);
    utf8_is_no_shorter(once);
    if text.len() > 0 {
        assert(twice.len() > once.len());
    }
}

} // verus!
