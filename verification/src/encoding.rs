//! Byte encodings: hexadecimal text, BCS and percent-encoding.
use crate::text::decimal;
use vstd::prelude::*;
use vstd::utf8::{encode_utf8, valid_utf8};

verus! {

/// The lower-case hexadecimal digit of a number below sixteen.
pub open spec fn hex_digit(n: int) -> char {
    if n < 10 {
        (48 + n) as char
    } else {
        (87 + n) as char
    }
}

/// Two lower-case hexadecimal digits for each byte.
pub open spec fn hex_text(bytes: Seq<u8>) -> Seq<char> {
    Seq::new(
        2 * bytes.len(),
        |i: int|
            if i % 2 == 0 {
                hex_digit(bytes[i / 2] as int / 16)
            } else {
                hex_digit(bytes[i / 2] as int % 16)
            },
    )
}

/// Whether a character is a hexadecimal digit of either case.
pub open spec fn is_hex_char(c: char) -> bool {
    '0' <= c <= '9' || 'a' <= c <= 'f' || 'A' <= c <= 'F'
}

/// The number that a hexadecimal digit stands for.
pub open spec fn hex_value(c: char) -> int {
    if '0' <= c <= '9' {
        c as int - 48
    } else if 'a' <= c <= 'f' {
        c as int - 87
    } else {
        c as int - 55
    }
}

/// Whether a text is `count` bytes in hexadecimal.
pub open spec fn is_hex(text: Seq<char>, count: nat) -> bool {
    text.len() == 2 * count && forall|i: int| 0 <= i < text.len() ==> is_hex_char(#[trigger] text[i])
}

/// The `count` bytes that a hexadecimal text stands for.
pub open spec fn hex_bytes(text: Seq<char>, count: nat) -> Seq<u8> {
    Seq::new(count, |i: int| (16 * hex_value(text[2 * i]) + hex_value(text[2 * i + 1])) as u8)
}

/// `hex::encode` writes each byte as two lower-case hexadecimal digits, the
/// high half first.
#[verifier::external_body]
pub(crate) fn hex_encode(bytes: &[u8]) -> (text: String)
    ensures
        text@ == hex_text(bytes@),
{
    hex::encode(bytes)
}

/// `hex::FromHex` for a 32-byte array reads exactly sixty-four hexadecimal
/// digits of either case, two for each byte, and fails on every other text.
#[verifier::external_body]
pub(crate) fn hex_decode_32(text: &str) -> (bytes: Option<[u8; 32]>)
    ensures
        match bytes {
            Some(b) => is_hex(text@, 32) && b@ == hex_bytes(text@, 32),
            None => !is_hex(text@, 32),
        },
{
    <[u8; 32] as hex::FromHex>::from_hex(text).ok()
}

/// Hexadecimal text has two digits a byte, and the bytes are read back from it.
pub proof fn law_hex_round_trip(bytes: Seq<u8>)
    ensures
        is_hex(hex_text(bytes), bytes.len()),
        hex_bytes(hex_text(bytes), bytes.len()) == bytes,
{
    let text = hex_text(bytes);
    assert forall|i: int| 0 <= i < text.len() implies is_hex_char(#[trigger] text[i]) by {
        lemma_hex_digit(bytes[i / 2] as int / 16);
        lemma_hex_digit(bytes[i / 2] as int % 16);
    }
    assert forall|i: int| 0 <= i < bytes.len() implies hex_bytes(text, bytes.len())[i] == bytes[i] by {
        lemma_hex_digit(bytes[i] as int / 16);
        lemma_hex_digit(bytes[i] as int % 16);
        assert((2 * i) / 2 == i && (2 * i) % 2 == 0);
        assert((2 * i + 1) / 2 == i && (2 * i + 1) % 2 == 1);
    }
    assert(hex_bytes(text, bytes.len()) =~= bytes);
}

/// A digit written is a hexadecimal digit and stands for its number.
proof fn lemma_hex_digit(n: int)
    requires
        0 <= n < 16,
    ensures
        is_hex_char(hex_digit(n)),
        hex_value(hex_digit(n)) == n,
{
}

/// A number as `count` bytes, the least significant first.
pub open spec fn little_endian(n: nat, count: nat) -> Seq<u8>
    decreases count,
{
    if count == 0 {
        Seq::empty()
    } else {
        seq![(n % 256) as u8] + little_endian(n / 256, (count - 1) as nat)
    }
}

/// The ULEB128 form of a length: seven bits a byte, the lowest first, the top
/// bit set on all but the last byte.
pub open spec fn uleb128(n: nat) -> Seq<u8>
    decreases n,
{
    if n < 128 {
        seq![n as u8]
    } else {
        seq![(128 + n % 128) as u8] + uleb128(n / 128)
    }
}

/// The longest sequence that BCS admits.
pub const BCS_MAX_SEQUENCE_LENGTH: usize = 0x7fff_ffff;

/// The BCS form of a text: the length of its UTF-8 bytes, then the bytes.
pub open spec fn bcs_text(text: Seq<char>) -> Seq<u8> {
    uleb128(encode_utf8(text).len()) + encode_utf8(text)
}

/// `bcs::to_bytes` writes a 64-bit number as eight bytes, the lowest first,
/// and cannot fail on one.
#[verifier::external_body]
pub(crate) fn bcs_u64_bytes(n: u64) -> (bytes: Result<Vec<u8>, String>)
    ensures
        bytes is Ok,
        bytes->Ok_0@ == little_endian(n as nat, 8),
{
    bcs::to_bytes(&n).map_err(|e| e.to_string())
}

/// `bcs::to_bytes` writes a truth value as one byte and cannot fail on one.
#[verifier::external_body]
pub(crate) fn bcs_bool_bytes(b: bool) -> (bytes: Result<Vec<u8>, String>)
    ensures
        bytes is Ok,
        bytes->Ok_0@ == seq![if b { 1u8 } else { 0u8 }],
{
    bcs::to_bytes(&b).map_err(|e| e.to_string())
}

/// `bcs::to_bytes` writes a 32-byte array as its bytes, without a length, and
/// cannot fail on one.
#[verifier::external_body]
pub(crate) fn bcs_array_bytes(a: &[u8; 32]) -> (bytes: Result<Vec<u8>, String>)
    ensures
        bytes is Ok,
        bytes->Ok_0@ == a@,
{
    bcs::to_bytes(a).map_err(|e| e.to_string())
}

/// `bcs::to_bytes` writes a text as the ULEB128 length of its UTF-8 bytes and
/// then the bytes; it fails where that length is beyond what BCS admits, with a
/// message that gives it.
#[verifier::external_body]
pub(crate) fn bcs_text_bytes(text: &str) -> (bytes: Result<Vec<u8>, String>)
    ensures
        match bytes {
            Ok(v) => encode_utf8(text@).len() <= BCS_MAX_SEQUENCE_LENGTH && v@ == bcs_text(text@),
            Err(e) => encode_utf8(text@).len() > BCS_MAX_SEQUENCE_LENGTH && e@
                == "exceeded max sequence length: "@ + decimal(encode_utf8(text@).len()),
        },
{
    bcs::to_bytes(text).map_err(|e| e.to_string())
}

/// Whether a byte is the ASCII code of a hexadecimal digit.
pub open spec fn is_hex_byte(b: u8) -> bool {
    is_hex_char(b as char)
}

/// Bytes with each `%xy`, where `x` and `y` are hexadecimal digits, read as one
/// byte; every other byte stands for itself.
pub open spec fn percent_decoded(bytes: Seq<u8>) -> Seq<u8>
    decreases bytes.len(),
{
    if bytes.len() == 0 {
        Seq::empty()
    } else if bytes[0] == 37 && bytes.len() >= 3 && is_hex_byte(bytes[1]) && is_hex_byte(bytes[2]) {
        seq![(16 * hex_value(bytes[1] as char) + hex_value(bytes[2] as char)) as u8]
            + percent_decoded(bytes.skip(3))
    } else {
        seq![bytes[0]] + percent_decoded(bytes.skip(1))
    }
}

/// The message of `urlencoding::decode` for a text whose decoded bytes are not
/// UTF-8.
pub uninterp spec fn percent_decode_error(text: Seq<char>) -> Seq<char>;

/// `urlencoding::decode` reads `%xy` escapes in the text's UTF-8 bytes and
/// succeeds exactly where the decoded bytes are UTF-8 again.
#[verifier::external_body]
pub(crate) fn percent_decode(text: &str) -> (decoded: Result<String, String>)
    ensures
        match decoded {
            Ok(t) => valid_utf8(percent_decoded(encode_utf8(text@))) && encode_utf8(t@)
                == percent_decoded(encode_utf8(text@)),
            Err(e) => !valid_utf8(percent_decoded(encode_utf8(text@))) && e@
                == percent_decode_error(text@),
        },
{
    urlencoding::decode(text).map(|t| t.into_owned()).map_err(|e| e.to_string())
}

} // verus!
