//! Hexadecimal text: what the digits mean, and the two conversions of the `hex` crate.
use vstd::prelude::*;

verus! {

/// Why a text is not the hexadecimal form of any bytes.
#[derive(Clone, Copy, Debug, PartialEq, Eq, Structural)]
pub enum HexError {
    /// The character `c` at position `index` is no hexadecimal digit.
    InvalidHexCharacter { c: char, index: usize },
    /// The text has an odd number of characters.
    OddLength,
    /// The text does not fit the fixed size it is decoded into.
    InvalidStringLength,
}

/// The lowercase digit with the value `d` (below 16).
pub open spec fn hex_digit(d: int) -> u8 {
    if d < 10 {
        (48 + d) as u8
    } else {
        (87 + d) as u8
    }
}

/// Whether `c` is one of `0-9`, `a-f` and `A-F`.
pub open spec fn is_hex(c: u8) -> bool {
    48 <= c <= 57 || 97 <= c <= 102 || 65 <= c <= 70
}

/// The value of the hexadecimal digit `c`, of either case.
pub open spec fn digit_value(c: u8) -> int {
    if 48 <= c <= 57 {
        c - 48
    } else if 97 <= c <= 102 {
        c - 87
    } else {
        c - 55
    }
}

/// The hexadecimal form of `bytes`: two lowercase digits for each byte, the high one first.
pub open spec fn hex_encoding(bytes: Seq<u8>) -> Seq<u8> {
    Seq::new(
        2 * bytes.len(),
        |i: int|
            if i % 2 == 0 {
                hex_digit(bytes[i / 2] as int / 16)
            } else {
                hex_digit(bytes[i / 2] as int % 16)
            },
    )
}

/// How many characters at the start of `text` are hexadecimal digits, up to the first that is not.
pub open spec fn hex_prefix(text: Seq<u8>) -> nat
    decreases text.len(),
{
    if text.len() == 0 || !is_hex(text[0]) {
        0
    } else {
        1 + hex_prefix(text.skip(1))
    }
}

/// What `text` decodes to: an odd length is an error, and so is the first character that is no
/// digit; otherwise each pair of digits is one byte.
pub open spec fn hex_decoding(text: Seq<u8>) -> Result<Seq<u8>, HexError> {
    let p = hex_prefix(text);
    if text.len() % 2 != 0 {
        Err(HexError::OddLength)
    } else if p < text.len() {
        Err(HexError::InvalidHexCharacter { c: text[p as int] as char, index: p as usize })
    } else {
        Ok(
            Seq::new(
                text.len() / 2,
                |i: int| (digit_value(text[2 * i]) * 16 + digit_value(text[2 * i + 1])) as u8,
            ),
        )
    }
}

/// The bytes as hexadecimal text, from `hex::encode`.
///
/// Trusted: the text is two lowercase digits for each byte, the high digit first. A text of more
/// than `isize::MAX` bytes cannot be allocated, so longer data is left out.
#[verifier::external_body]
pub(crate) fn encode_hex(data: &[u8]) -> (text: Vec<u8>)
    requires
        2 * data@.len() <= isize::MAX,
    ensures
        text@ == hex_encoding(data@),
{
    hex::encode(data).into_bytes()
}

/// The bytes that a hexadecimal text stands for, from `hex::decode`.
///
/// Trusted: digits of both cases are accepted, an odd length is reported before anything else,
/// and otherwise the first character that is no digit is reported with its position.
#[verifier::external_body]
pub(crate) fn decode_hex(text: &[u8]) -> (decoded: Result<Vec<u8>, HexError>)
    ensures
        match decoded {
            Ok(bytes) => hex_decoding(text@) == Ok::<Seq<u8>, HexError>(bytes@),
            Err(err) => hex_decoding(text@) == Err::<Seq<u8>, HexError>(err),
        },
{
    match hex::decode(text) {
        Ok(bytes) => Ok(bytes),
        Err(hex::FromHexError::InvalidHexCharacter { c, index }) => {
            Err(HexError::InvalidHexCharacter { c, index })
        },
        Err(hex::FromHexError::OddLength) => Err(HexError::OddLength),
        Err(hex::FromHexError::InvalidStringLength) => Err(HexError::InvalidStringLength),
    }
}

/// The prefix of digits ends at the first character that is no digit, or with the text.
pub proof fn lemma_hex_prefix(text: Seq<u8>)
    ensures
        hex_prefix(text) <= text.len(),
        forall|i: int| 0 <= i < hex_prefix(text) ==> is_hex(#[trigger] text[i]),
        hex_prefix(text) < text.len() ==> !is_hex(text[hex_prefix(text) as int]),
    decreases text.len(),
{
    if text.len() > 0 && is_hex(text[0]) {
        let rest = text.skip(1);
        lemma_hex_prefix(rest);
        assert forall|i: int| 0 <= i < hex_prefix(text) implies is_hex(#[trigger] text[i]) by {
            if i > 0 {
                assert(rest[i - 1] == text[i]);
            }
        }
    }
}

/// Digits and their values are inverse to each other.
pub proof fn lemma_digit_value(d: int)
    requires
        0 <= d < 16,
    ensures
        is_hex(hex_digit(d)),
        digit_value(hex_digit(d)) == d,
        hex_digit(d) != 32 && hex_digit(d) != 10 && hex_digit(d) != 13 && hex_digit(d) != 43,
{
}

/// A text is all digits exactly when its prefix of digits is the whole of it.
pub proof fn lemma_all_hex(text: Seq<u8>)
    ensures
        hex_prefix(text) == text.len() <==> (forall|i: int| 0 <= i < text.len() ==> is_hex(#[trigger] text[i])),
{
    lemma_hex_prefix(text);
    if hex_prefix(text) < text.len() {
        assert(!is_hex(text[hex_prefix(text) as int]));
    }
}

/// Decoding undoes encoding, for all bytes.
pub proof fn law_decode_encode(bytes: Seq<u8>)
    ensures
        hex_decoding(hex_encoding(bytes)) == Ok::<Seq<u8>, HexError>(bytes),
{
    let text = hex_encoding(bytes);
    assert forall|i: int| 0 <= i < text.len() implies is_hex(#[trigger] text[i]) by {
        lemma_digit_value(bytes[i / 2] as int / 16);
        lemma_digit_value(bytes[i / 2] as int % 16);
    }
    lemma_all_hex(text);
    let decoded = Seq::new(
        text.len() / 2,
        |i: int| (digit_value(text[2 * i]) * 16 + digit_value(text[2 * i + 1])) as u8,
    );
    assert(decoded =~= bytes) by {
        assert forall|i: int| 0 <= i < bytes.len() implies decoded[i] == bytes[i] by {
            lemma_digit_value(bytes[i] as int / 16);
            lemma_digit_value(bytes[i] as int % 16);
            assert((2 * i) % 2 == 0 && (2 * i) / 2 == i);
            assert((2 * i + 1) % 2 == 1 && (2 * i + 1) / 2 == i);
            assert(text[2 * i] == hex_digit(bytes[i] as int / 16));
            assert(text[2 * i + 1] == hex_digit(bytes[i] as int % 16));
        }
    }
}

} // verus!
