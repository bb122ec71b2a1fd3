//! Hex and UTF-8 decoding of the text that the player reports.

use vstd::prelude::*;
use vstd::utf8::*;

verus! {

/// Why hex digits could not be decoded, as `hex::FromHexError` says it.
#[derive(Debug, Clone, Copy, PartialEq, Eq)]
pub enum HexError {
    /// The byte `c` at position `index` is not a hex digit.
    InvalidHexCharacter { c: char, index: usize },
    /// The number of digits is odd.
    OddLength,
    /// The digits do not fill a container of fixed size.
    InvalidStringLength,
}

/// Where bytes stop being UTF-8, as `std::str::Utf8Error` says it.
#[derive(Debug, Clone, Copy, PartialEq, Eq)]
pub struct Utf8Fault {
    /// The length of the longest prefix that is valid UTF-8.
    pub valid_up_to: usize,
    /// The length of the invalid sequence that follows that prefix, or
    /// `None` when the input ends in the middle of a character.
    pub error_len: Option<usize>,
}

/// Why a piece of player text could not be decoded.
#[derive(Debug, Clone, Copy, PartialEq, Eq)]
pub enum DecodeError {
    /// The text is not pairs of hex digits.
    Hex(HexError),
    /// The hex digits decode to bytes that are not UTF-8.
    Utf8(Utf8Fault),
}

/// `b` is an ASCII hex digit, upper or lower case.
pub open spec fn is_hex_digit(b: u8) -> bool {
    (0x30 <= b <= 0x39) || (0x41 <= b <= 0x46) || (0x61 <= b <= 0x66)
}

/// The value of the hex digit `b`.
pub open spec fn hex_digit_value(b: u8) -> int {
    if 0x30 <= b <= 0x39 {
        b - 0x30
    } else if 0x41 <= b <= 0x46 {
        b - 0x41 + 10
    } else {
        b - 0x61 + 10
    }
}

/// `text` is a sequence of pairs of hex digits.
pub open spec fn is_hex_text(text: Seq<u8>) -> bool {
    &&& text.len() % 2 == 0
    &&& forall|i: int| 0 <= i < text.len() ==> is_hex_digit(#[trigger] text[i])
}

/// The bytes that the pairs of hex digits in `text` stand for, high digit first.
pub open spec fn hex_to_bytes(text: Seq<u8>) -> Seq<u8> {
    Seq::new(
        text.len() / 2,
        |i: int| (16 * hex_digit_value(text[2 * i]) + hex_digit_value(text[2 * i + 1])) as u8,
    )
}

/// How many hex digits `text` starts with.
pub open spec fn hex_digits_prefix(text: Seq<u8>) -> nat
    decreases text.len(),
{
    if text.len() == 0 || !is_hex_digit(text[0]) {
        0
    } else {
        1 + hex_digits_prefix(text.drop_first())
    }
}

/// The error for text that is not pairs of hex digits: an odd length is
/// reported first, else the first byte that is not a hex digit.
pub open spec fn hex_error(text: Seq<u8>) -> HexError {
    if text.len() % 2 != 0 {
        HexError::OddLength
    } else {
        HexError::InvalidHexCharacter {
            c: text[hex_digits_prefix(text) as int] as char,
            index: hex_digits_prefix(text) as usize,
        }
    }
}

/// `fault` describes where `bytes` stop being UTF-8: `valid_up_to` is the
/// longest valid prefix; without `error_len` the input ends one to three
/// bytes later, inside a character; with it, an invalid sequence of at least
/// one byte starts there.
pub open spec fn utf8_fault_fits(bytes: Seq<u8>, fault: Utf8Fault) -> bool {
    &&& fault.valid_up_to <= bytes.len()
    &&& valid_utf8(bytes.take(fault.valid_up_to as int))
    &&& forall|n: int|
        fault.valid_up_to < n <= bytes.len() ==> !valid_utf8(#[trigger] bytes.take(n))
    &&& match fault.error_len {
        None => 1 <= bytes.len() - fault.valid_up_to <= 3,
        Some(len) => 1 <= len && fault.valid_up_to + len <= bytes.len(),
    }
}

/// Calls `hex::decode` on the UTF-8 bytes of `text`, and gives its error as a
/// `HexError`. Trusted: it succeeds exactly when those bytes are an even
/// number of hex digits (upper or lower case), and then gives the byte of
/// each pair, high digit first; an odd length is reported before any
/// character, and otherwise the first byte that is not a hex digit, with
/// its position.
#[verifier::external_body]
pub(crate) fn hex_decode(text: &str) -> (res: Result<Vec<u8>, HexError>)
    ensures
        res is Ok <==> is_hex_text(encode_utf8(text@)),
        res matches Ok(bytes) ==> bytes@ == hex_to_bytes(encode_utf8(text@)),
        res matches Err(e) ==> e == hex_error(encode_utf8(text@)),
{
    match hex::decode(text) {
        Ok(bytes) => Ok(bytes),
        Err(hex::FromHexError::InvalidHexCharacter { c, index }) => {
            Err(HexError::InvalidHexCharacter { c, index })
        },
        Err(hex::FromHexError::OddLength) => Err(HexError::OddLength),
        Err(hex::FromHexError::InvalidStringLength) => Err(HexError::InvalidStringLength),
    }
}

/// Calls `std::str::from_utf8`, and gives its error as a `Utf8Fault`.
/// Trusted: it succeeds exactly when `bytes` is valid UTF-8, and then gives
/// the characters that `bytes` encodes; its error's `valid_up_to` is the
/// longest valid prefix, and its `error_len` is as `utf8_fault_fits` says.
/// The exact length of an invalid sequence is not stated.
#[verifier::external_body]
pub(crate) fn str_from_utf8(bytes: &[u8]) -> (res: Result<&str, Utf8Fault>)
    ensures
        res is Ok <==> valid_utf8(bytes@),
        res matches Ok(text) ==> text@ == decode_utf8(bytes@),
        res matches Err(fault) ==> utf8_fault_fits(bytes@, fault),
{
    match core::str::from_utf8(bytes) {
        Ok(text) => Ok(text),
        Err(e) => Err(Utf8Fault { valid_up_to: e.valid_up_to(), error_len: e.error_len() }),
    }
}

/// The text that the hex text `data` encodes, if it decodes: its UTF-8
/// bytes are pairs of hex digits, and the bytes these stand for are UTF-8.
pub open spec fn hex_text_decoding(data: Seq<char>) -> Option<Seq<char>> {
    let raw = encode_utf8(data);
    if is_hex_text(raw) && valid_utf8(hex_to_bytes(raw)) {
        Some(decode_utf8(hex_to_bytes(raw)))
    } else {
        None
    }
}

/// `error` is what decoding the hex text `data` fails with: the hex error
/// if `data` is not pairs of hex digits, else a fault of the decoded bytes.
pub open spec fn decoding_error(data: Seq<char>, error: DecodeError) -> bool {
    let raw = encode_utf8(data);
    if !is_hex_text(raw) {
        error == DecodeError::Hex(hex_error(raw))
    } else {
        !valid_utf8(hex_to_bytes(raw)) && (error matches DecodeError::Utf8(fault)
            && utf8_fault_fits(hex_to_bytes(raw), fault))
    }
}

/// The hex digit, lower case, for a value below 16.
pub open spec fn hex_digit_byte(value: int) -> u8 {
    if value < 10 {
        (0x30 + value) as u8
    } else {
        (0x61 + value - 10) as u8
    }
}

/// Two lower-case hex digits for each byte of `bytes`, high digit first.
pub open spec fn hex_encoding(bytes: Seq<u8>) -> Seq<u8> {
    Seq::new(
        2 * bytes.len(),
        |i: int|
            hex_digit_byte(if i % 2 == 0 { bytes[i / 2] / 16 } else { bytes[i / 2] % 16 } as int),
    )
}

/// Hex digits decode back to the bytes that they encode.
pub proof fn lemma_hex_round_trip(bytes: Seq<u8>)
    ensures
        is_hex_text(hex_encoding(bytes)),
        hex_to_bytes(hex_encoding(bytes)) == bytes,
{
    let h = hex_encoding(bytes);
    assert forall|i: int| 0 <= i < h.len() implies is_hex_digit(#[trigger] h[i]) by {
        assert(bytes[i / 2] / 16 < 16);
        assert(bytes[i / 2] % 16 < 16);
    }
    assert forall|i: int| 0 <= i < bytes.len() implies #[trigger] hex_to_bytes(h)[i] == bytes[i] by {
        assert((2 * i) % 2 == 0 && (2 * i) / 2 == i);
        assert((2 * i + 1) % 2 == 1 && (2 * i + 1) / 2 == i);
        let b = bytes[i];
        assert(16 * (b / 16) + b % 16 == b);
    }
    assert(hex_to_bytes(h) =~= bytes);
}

/// Decoding gives back any text from the hex digits of its UTF-8 bytes.
pub proof fn lemma_decoding_recovers_text(data: Seq<char>, text: Seq<char>)
    requires
        encode_utf8(data) == hex_encoding(encode_utf8(text)),
    ensures
        hex_text_decoding(data) == Some(text),
{
    lemma_hex_round_trip(encode_utf8(text));
    encode_utf8_valid_utf8(text);
    encode_utf8_decode_utf8(text);
}

/// The bytes with each upper-case ASCII letter made lower case, as
/// `to_ascii_lowercase` does.
pub open spec fn ascii_lowercase(bytes: Seq<u8>) -> Seq<u8> {
    Seq::new(
        bytes.len(),
        |i: int|
            if 0x41 <= bytes[i] <= 0x5a {
                (bytes[i] + 0x20) as u8
            } else {
                bytes[i]
            },
    )
}

/// The lower-case hex digit of a digit's value is the digit made lower case.
proof fn lemma_digit_reencodes(d: u8)
    requires
        is_hex_digit(d),
    ensures
        0 <= hex_digit_value(d) < 16,
        hex_digit_byte(hex_digit_value(d)) == ascii_lowercase(seq![d])[0],
{
}

/// Pairs of hex digits, decoded and encoded again, give the digits in lower
/// case.
pub proof fn lemma_hex_reencodes(text: Seq<u8>)
    requires
        is_hex_text(text),
    ensures
        hex_encoding(hex_to_bytes(text)) == ascii_lowercase(text),
{
    let bytes = hex_to_bytes(text);
    let again = hex_encoding(bytes);
    assert forall|j: int| 0 <= j < text.len() implies #[trigger] again[j] == ascii_lowercase(
        text,
    )[j] by {
        let i = j / 2;
        let hi = text[2 * i];
        let lo = text[2 * i + 1];
        lemma_digit_reencodes(hi);
        lemma_digit_reencodes(lo);
        let a = hex_digit_value(hi);
        let b = hex_digit_value(lo);
        let v = bytes[i];
        assert(v == 16 * a + b);
        assert(v / 16 == a && v % 16 == b) by (nonlinear_arith)
            requires
                v == 16 * a + b,
                0 <= a < 16,
                0 <= b < 16,
        ;
        if j % 2 == 0 {
            assert(j == 2 * i);
            assert(ascii_lowercase(seq![hi])[0] == ascii_lowercase(text)[j]);
        } else {
            assert(j == 2 * i + 1);
            assert(ascii_lowercase(seq![lo])[0] == ascii_lowercase(text)[j]);
        }
    }
    assert(again =~= ascii_lowercase(text));
}

/// A successful decoding gives a text whose UTF-8 bytes, written as lower-case
/// hex digits, are the input made lower case.
pub proof fn lemma_decoding_reencodes(data: Seq<char>, text: Seq<char>)
    requires
        hex_text_decoding(data) == Some(text),
    ensures
        hex_encoding(encode_utf8(text)) == ascii_lowercase(encode_utf8(data)),
{
    let raw = encode_utf8(data);
    decode_utf8_encode_utf8(hex_to_bytes(raw));
    lemma_hex_reencodes(raw);
}

/// A byte is a hex digit exactly when it is one made lower case, and then
/// has the same value.
proof fn lemma_digit_case(b: u8)
    ensures
        is_hex_digit(b) <==> is_hex_digit(ascii_lowercase(seq![b])[0]),
        is_hex_digit(b) ==> hex_digit_value(b) == hex_digit_value(ascii_lowercase(seq![b])[0]),
{
}

/// Hex digits read alike in either case: two byte sequences that agree once
/// made lower case are both pairs of hex digits or neither, and then stand
/// for the same bytes.
pub proof fn lemma_hex_ignores_case(r1: Seq<u8>, r2: Seq<u8>)
    requires
        ascii_lowercase(r1) == ascii_lowercase(r2),
    ensures
        is_hex_text(r1) <==> is_hex_text(r2),
        is_hex_text(r1) ==> hex_to_bytes(r1) == hex_to_bytes(r2),
{
    let l1 = ascii_lowercase(r1);
    let l2 = ascii_lowercase(r2);
    assert(r1.len() == l1.len() && r2.len() == l2.len());
    assert forall|i: int| 0 <= i < r1.len() implies (is_hex_digit(r1[i]) <==> is_hex_digit(
        #[trigger] r2[i],
    )) && (is_hex_digit(r1[i]) ==> hex_digit_value(r1[i]) == hex_digit_value(r2[i])) by {
        lemma_digit_case(r1[i]);
        lemma_digit_case(r2[i]);
        assert(ascii_lowercase(seq![r1[i]])[0] == l1[i]);
        assert(ascii_lowercase(seq![r2[i]])[0] == l2[i]);
    }
    if is_hex_text(r1) {
        assert forall|i: int| 0 <= i < r2.len() implies is_hex_digit(#[trigger] r2[i]) by {
            assert(is_hex_digit(r1[i]));
        }
    }
    if is_hex_text(r2) {
        assert forall|i: int| 0 <= i < r1.len() implies is_hex_digit(#[trigger] r1[i]) by {
            assert(is_hex_digit(r2[i]));
        }
    }
    if is_hex_text(r1) {
        assert forall|i: int| 0 <= i < r1.len() / 2 implies #[trigger] hex_to_bytes(r1)[i]
            == hex_to_bytes(r2)[i] by {
            assert(is_hex_digit(r1[2 * i]) && is_hex_digit(r1[2 * i + 1]));
            assert(hex_digit_value(r1[2 * i]) == hex_digit_value(r2[2 * i]));
            assert(hex_digit_value(r1[2 * i + 1]) == hex_digit_value(r2[2 * i + 1]));
        }
        assert(hex_to_bytes(r1) =~= hex_to_bytes(r2));
    }
}

/// Decoding does not depend on the case of the hex digits: two texts whose
/// UTF-8 bytes agree once made lower case decode alike.
pub proof fn lemma_decoding_ignores_case(data: Seq<char>, other: Seq<char>)
    requires
        ascii_lowercase(encode_utf8(data)) == ascii_lowercase(encode_utf8(other)),
    ensures
        hex_text_decoding(data) == hex_text_decoding(other),
{
    lemma_hex_ignores_case(encode_utf8(data), encode_utf8(other));
}

/// Decoding gives back any text from the hex digits of its UTF-8 bytes,
/// whatever the case of each digit.
pub proof fn lemma_decoding_recovers_text_any_case(data: Seq<char>, text: Seq<char>)
    requires
        ascii_lowercase(encode_utf8(data)) == hex_encoding(encode_utf8(text)),
    ensures
        hex_text_decoding(data) == Some(text),
{
    let h = hex_encoding(encode_utf8(text));
    lemma_hex_round_trip(encode_utf8(text));
    assert(ascii_lowercase(h) =~= h) by {
        assert forall|i: int| 0 <= i < h.len() implies #[trigger] ascii_lowercase(h)[i] == h[i] by {
            assert(encode_utf8(text)[i / 2] / 16 < 16);
            assert(encode_utf8(text)[i / 2] % 16 < 16);
        }
    }
    lemma_hex_ignores_case(encode_utf8(data), h);
    encode_utf8_valid_utf8(text);
    encode_utf8_decode_utf8(text);
}

} // verus!
