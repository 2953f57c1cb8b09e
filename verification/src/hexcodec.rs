//! Lowercase hexadecimal text for byte strings, through the `hex` crate.
use vstd::prelude::*;
use vstd::utf8::*;
use vstd::string::*;

verus! {

/// The lowercase hexadecimal digit of a value below 16.
pub open spec fn hex_digit_lower(v: int) -> char {
    if v < 10 {
        ((48 + v) as u8) as char
    } else {
        ((87 + v) as u8) as char
    }
}

/// Lowercase hexadecimal text of a byte string: two digits per byte,
/// high nibble first.
pub open spec fn hex_encode_spec(b: Seq<u8>) -> Seq<char> {
    Seq::new(
        2 * b.len(),
        |i: int|
            if i % 2 == 0 {
                hex_digit_lower((b[i / 2] / 16) as int)
            } else {
                hex_digit_lower((b[i / 2] % 16) as int)
            },
    )
}

/// Whether a byte is an ASCII hexadecimal digit of either case.
pub open spec fn is_hex_byte(c: u8) -> bool {
    (48 <= c <= 57) || (65 <= c <= 70) || (97 <= c <= 102)
}

/// The value of an ASCII hexadecimal digit.
pub open spec fn hex_val(c: u8) -> int {
    if c <= 57 {
        c - 48
    } else if c <= 70 {
        c - 55
    } else {
        c - 87
    }
}

/// Decoding of hexadecimal text given as bytes: `None` when the length is
/// odd or a byte is not a hexadecimal digit; otherwise one byte per pair
/// of digits.
pub open spec fn hex_decode_spec(h: Seq<u8>) -> Option<Seq<u8>> {
    if h.len() % 2 == 0 && (forall|i: int| 0 <= i < h.len() ==> is_hex_byte(#[trigger] h[i])) {
        Some(Seq::new(h.len() / 2, |i: int| (hex_val(h[2 * i]) * 16 + hex_val(h[2 * i + 1])) as u8))
    } else {
        None
    }
}

#[verifier::external_type_specification]
#[verifier::external_body]
pub struct ExFromHexError(hex::FromHexError);

/// `hex::encode`: the lowercase hexadecimal text of the bytes, two
/// digits per byte, high nibble first (as its source writes it from the
/// table `0123456789abcdef`).
#[verifier::external_body]
pub(crate) fn hex_encode(data: &[u8]) -> (r: String)
    ensures
        r@ == hex_encode_spec(data@),
{
    hex::encode(data)
}

/// `hex::decode`: fails when the text has an odd number of bytes or a byte
/// that is not a hexadecimal digit of either case; otherwise gives one byte
/// per pair of digits.
#[verifier::external_body]
pub(crate) fn hex_decode(text: &str) -> (r: Result<Vec<u8>, hex::FromHexError>)
    ensures
        match hex_decode_spec(text.spec_bytes()) {
            Some(b) => r is Ok && r->Ok_0@ == b,
            None => r is Err,
        },
{
    hex::decode(text)
}

/// The lowercase hexadecimal text of a byte string.
pub fn hex_encode_bytes(data: &[u8]) -> (r: String)
    ensures
        r@ == hex_encode_spec(data@),
{
    hex_encode(data)
}

/// The bytes that hexadecimal text (of either case) stands for, or `None`
/// when the text has an odd length or a character that is not a
/// hexadecimal digit.
pub fn hex_decode_text(text: &str) -> (r: Option<Vec<u8>>)
    ensures
        match hex_decode_spec(text.spec_bytes()) {
            Some(b) => r is Some && r->Some_0@ == b,
            None => r is None,
        },
{
    match hex_decode(text) {
        Ok(v) => Some(v),
        Err(_) => None,
    }
}

/// Whether a character is a lowercase hexadecimal digit.
pub open spec fn is_lower_hex_char(c: char) -> bool {
    ('0' <= c <= '9') || ('a' <= c <= 'f')
}

/// Hexadecimal text has two digits per byte, each a lowercase hexadecimal
/// digit.
pub proof fn lemma_hex_encode_lower(b: Seq<u8>)
    ensures
        hex_encode_spec(b).len() == 2 * b.len(),
        forall|i: int| 0 <= i < hex_encode_spec(b).len() ==> is_lower_hex_char(#[trigger] hex_encode_spec(b)[i]),
{
    let h = hex_encode_spec(b);
    assert forall|i: int| 0 <= i < h.len() implies is_lower_hex_char(#[trigger] h[i]) by {
        let v: int = if i % 2 == 0 { (b[i / 2] / 16) as int } else { (b[i / 2] % 16) as int };
        assert(0 <= v < 16);
        assert(h[i] == hex_digit_lower(v));
        if v < 10 {
            assert(((48 + v) as u8) as u32 == 48 + v);
            assert(hex_digit_lower(v) as u32 == ((48 + v) as u8) as u32);
        } else {
            assert(((87 + v) as u8) as u32 == 87 + v);
            assert(hex_digit_lower(v) as u32 == ((87 + v) as u8) as u32);
        }
    }
}

/// Hexadecimal text contains only ASCII characters.
pub proof fn lemma_hex_encode_ascii(b: Seq<u8>)
    ensures
        is_ascii_chars(hex_encode_spec(b)),
        forall|i: int|
            0 <= i < hex_encode_spec(b).len() ==> is_hex_byte(
                #[trigger] hex_encode_spec(b)[i] as u8,
            ),
{
    let h = hex_encode_spec(b);
    assert forall|i: int| 0 <= i < h.len() implies '\0' <= #[trigger] h[i] <= '\u{7f}' && is_hex_byte(h[i] as u8) by {
        let v: int = if i % 2 == 0 { (b[i / 2] / 16) as int } else { (b[i / 2] % 16) as int };
        assert(0 <= v < 16);
        assert(h[i] == hex_digit_lower(v));
    }
}

/// Decoding the UTF-8 bytes of hexadecimal text gives back the bytes that
/// were encoded.
pub proof fn lemma_hex_roundtrip(b: Seq<u8>)
    ensures
        hex_decode_spec(encode_utf8(hex_encode_spec(b))) == Some(b),
{
    let h = hex_encode_spec(b);
    lemma_hex_encode_ascii(b);
    is_ascii_chars_encode_utf8(h);
    let bytes = encode_utf8(h);
    assert(bytes.len() == 2 * b.len());
    assert forall|i: int| 0 <= i < bytes.len() implies is_hex_byte(#[trigger] bytes[i]) by {
        assert(bytes[i] == h[i] as u8);
    }
    let d = Seq::new(bytes.len() / 2, |i: int| (hex_val(bytes[2 * i]) * 16 + hex_val(bytes[2 * i + 1])) as u8);
    assert forall|i: int| 0 <= i < b.len() implies #[trigger] d[i] == b[i] by {
        let hi = (b[i] / 16) as int;
        let lo = (b[i] % 16) as int;
        assert(bytes[2 * i] == h[2 * i] as u8);
        assert(bytes[2 * i + 1] == h[2 * i + 1] as u8);
        assert(h[2 * i] == hex_digit_lower(hi));
        assert(h[2 * i + 1] == hex_digit_lower(lo));
        assert(hex_val(bytes[2 * i]) == hi);
        assert(hex_val(bytes[2 * i + 1]) == lo);
    }
    assert(d =~= b);
}

} // verus!
