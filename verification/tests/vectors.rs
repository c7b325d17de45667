use zw::{bin_to_str, bin_to_zw, decode, encode, str_to_bin, zw_to_bin, DecodeError, ONE, ZERO};

fn carrier_of(bits: &str) -> String {
    let mut out = String::new();
    for c in bits.chars() {
        match c {
            '0' => out.push(ZERO),
            '1' => out.push(ONE),
            _ => panic!("not a binary digit"),
        }
    }
    out
}

#[test]
fn alphabet_is_two_distinct_zero_width_characters() {
    assert_eq!(ZERO, '\u{200c}');
    assert_eq!(ONE, '\u{200b}');
    assert_ne!(ZERO, ONE);
    assert!(ZERO != '0' && ZERO != '1' && ONE != '0' && ONE != '1');
}

#[test]
fn encode_letter_x() {
    assert_eq!(encode("x"), "\u{200c}\u{200b}\u{200b}\u{200b}\u{200b}\u{200c}\u{200c}\u{200c}");
    let expected: String = vec![ZERO, ONE, ONE, ONE, ONE, ZERO, ZERO, ZERO].into_iter().collect();
    assert_eq!(encode("x"), expected);
}

#[test]
fn decode_letter_x() {
    assert_eq!(decode("\u{200c}\u{200b}\u{200b}\u{200b}\u{200b}\u{200c}\u{200c}\u{200c}"), Ok(String::from("x")));
}

#[test]
fn decode_lone_continuation_byte_fails() {
    assert_eq!(decode("\u{200b}\u{200c}\u{200c}\u{200c}\u{200c}\u{200c}\u{200c}\u{200c}"), Err(DecodeError::InvalidUtf8));
    assert_eq!(decode(&carrier_of("10000000")), Err(DecodeError::InvalidUtf8));
}

#[test]
fn decode_truncated_multibyte_character_fails() {
    let enc = encode("\u{e9}");
    assert_eq!(enc, "\u{200b}\u{200b}\u{200c}\u{200c}\u{200c}\u{200c}\u{200b}\u{200b}\u{200b}\u{200c}\u{200b}\u{200c}\u{200b}\u{200c}\u{200c}\u{200b}");
    let first_byte_only: String = enc.chars().take(8).collect();
    assert_eq!(decode(&first_byte_only), Err(DecodeError::InvalidUtf8));
}

#[test]
fn decode_unrelated_text_is_empty() {
    assert_eq!(decode("hello"), Ok(String::new()));
}

#[test]
fn empty_in_empty_out() {
    assert_eq!(encode(""), "");
    assert_eq!(decode(""), Ok(String::new()));
}

#[test]
fn encode_length_is_eight_per_byte() {
    for text in ["", "a", "hello world", "\u{e9}", "\u{20ac}", "\u{1f51d}", "Test! \u{1f51d}"] {
        assert_eq!(encode(text).chars().count(), 8 * text.len());
    }
    assert_eq!(encode("\u{1f51d}").chars().count(), 32);
}

#[test]
fn encode_stays_in_alphabet() {
    for text in ["a", "hello world", "\u{e9}\u{20ac}\u{1f51d}", "0101", "\u{200b}\u{200c}"] {
        assert!(encode(text).chars().all(|c| c == ZERO || c == ONE));
    }
}

#[test]
fn round_trip_on_many_texts() {
    for text in ["", "a", "hello world", "\u{e9}", "\u{20ac}", "\u{1f51d}", "line\nbreak\ttab", "\u{0}\u{7f}\u{80}\u{7ff}\u{800}\u{ffff}\u{10000}\u{10ffff}"] {
        assert_eq!(decode(&encode(text)), Ok(String::from(text)));
    }
}

#[test]
fn round_trip_on_every_single_byte_character() {
    for b in 0u8..128 {
        let text = String::from(b as char);
        assert_eq!(decode(&encode(&text)), Ok(text));
    }
}

#[test]
fn decode_ignores_noise() {
    let clean = "\u{200c}\u{200b}\u{200b}\u{200c}\u{200b}\u{200c}\u{200c}\u{200c}\u{200c}\u{200b}\u{200b}\u{200c}\u{200b}\u{200c}\u{200c}\u{200b}";
    assert_eq!(decode(clean), Ok(String::from("hi")));
    let mut noisy = String::from("see: ");
    for (i, c) in clean.chars().enumerate() {
        noisy.push(c);
        if i % 3 == 0 {
            noisy.push('x');
        }
        if i % 5 == 0 {
            noisy.push('\u{200d}');
        }
    }
    noisy.push_str(" 0101 end");
    assert_eq!(decode(&noisy), Ok(String::from("hi")));
    let filtered: String = noisy.chars().filter(|c| *c == ZERO || *c == ONE).collect();
    assert_eq!(filtered, clean);
    assert_eq!(decode(&noisy), decode(&filtered));
}

#[test]
fn decode_drops_incomplete_group() {
    let long = "\u{200c}\u{200b}\u{200b}\u{200c}\u{200b}\u{200c}\u{200c}\u{200c}\u{200c}\u{200b}\u{200b}\u{200c}\u{200b}\u{200c}\u{200c}\u{200b}\u{200c}\u{200b}\u{200b}";
    assert_eq!(long.chars().count(), 19);
    assert_eq!(decode(long), Ok(String::from("hi")));
    let cut: String = long.chars().take(16).collect();
    assert_eq!(decode(long), decode(&cut));
    let short = carrier_of("0110100");
    assert_eq!(decode(&short), Ok(String::new()));
}

#[test]
fn double_encoding_differs_and_comes_back() {
    for text in ["a", "Test", "\u{1f51d}"] {
        let once = encode(text);
        let twice = encode(&once);
        assert!(twice.chars().all(|c| c == ZERO || c == ONE));
        assert_ne!(once, twice);
        assert_eq!(twice.chars().count(), 24 * once.chars().count());
        let back = decode(&twice).unwrap();
        assert_eq!(back, once);
        assert_eq!(decode(&back), Ok(String::from(text)));
    }
    assert_eq!(encode(&encode("")), encode(""));
}

#[test]
fn str_to_bin_pads_to_eight_digits() {
    assert_eq!(str_to_bin(""), "");
    assert_eq!(str_to_bin("f"), "01100110");
    assert_eq!(str_to_bin("\u{0}"), "00000000");
    assert_eq!(str_to_bin("\u{1}"), "00000001");
    assert_eq!(str_to_bin("\u{7f}"), "01111111");
    assert_eq!(str_to_bin("\u{e9}"), "1100001110101001");
    assert_eq!(str_to_bin("\u{20ac}"), "111000101000001010101100");
    assert_eq!(str_to_bin("\u{1f51d}"), "11110000100111111001010010011101");
}

#[test]
fn bin_to_zw_maps_digits_and_skips_the_rest() {
    assert_eq!(bin_to_zw(""), "");
    assert_eq!(bin_to_zw("01"), "\u{200c}\u{200b}");
    assert_eq!(bin_to_zw("0 1x1-0"), carrier_of("0110"));
    assert_eq!(bin_to_zw("abc"), "");
    assert_eq!(bin_to_zw("\u{200c}\u{200b}"), "");
}

#[test]
fn zw_to_bin_maps_carrier_characters_and_skips_the_rest() {
    assert_eq!(zw_to_bin(""), "");
    assert_eq!(zw_to_bin("\u{200c}\u{200b}\u{200b}\u{200c}"), "0110");
    assert_eq!(zw_to_bin("a\u{200c}b\u{200b}01"), "01");
    assert_eq!(zw_to_bin("0101"), "");
}

#[test]
fn zw_to_bin_undoes_bin_to_zw() {
    let bits = "0100100001100101011011000110110001101111";
    assert_eq!(zw_to_bin(&bin_to_zw(bits)), bits);
}

#[test]
fn bin_to_str_reads_groups_of_eight() {
    assert_eq!(bin_to_str(""), Ok(String::new()));
    assert_eq!(bin_to_str("01100110"), Ok(String::from("f")));
    assert_eq!(bin_to_str("0100100001100101011011000110110001101111"), Ok(String::from("Hello")));
    assert_eq!(bin_to_str("00000000"), Ok(String::from("\u{0}")));
    assert_eq!(bin_to_str("01111111"), Ok(String::from("\u{7f}")));
    assert_eq!(bin_to_str("111000101000001010101100"), Ok(String::from("\u{20ac}")));
}

#[test]
fn bin_to_str_drops_short_rest() {
    assert_eq!(bin_to_str("0110011"), Ok(String::new()));
    assert_eq!(bin_to_str("01100110011"), Ok(String::from("f")));
    assert_eq!(bin_to_str("011001100110011"), Ok(String::from("f")));
}

#[test]
fn bin_to_str_skips_groups_that_are_not_binary() {
    assert_eq!(bin_to_str("0110011x01100101"), Ok(String::from("e")));
    assert_eq!(bin_to_str("+110011001100101"), Ok(String::from("e")));
    assert_eq!(bin_to_str("abcdefgh"), Ok(String::new()));
}

#[test]
fn bin_to_str_rejects_invalid_utf8() {
    assert_eq!(bin_to_str("10000000"), Err(DecodeError::InvalidUtf8));
    assert_eq!(bin_to_str("11111111"), Err(DecodeError::InvalidUtf8));
    assert_eq!(bin_to_str("1100001100100000"), Err(DecodeError::InvalidUtf8));
    assert_eq!(bin_to_str("1100000010000000"), Err(DecodeError::InvalidUtf8));
}

#[test]
fn decode_error_has_a_message() {
    assert_eq!(DecodeError::InvalidUtf8.message(), "carrier does not hold valid UTF-8 text");
}
