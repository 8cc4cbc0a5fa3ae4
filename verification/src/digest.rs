//! SHA-256 digests and hexadecimal text, through the `sha2` and `hex` crates.
use vstd::prelude::*;
use vstd::utf8::*;
use crate::text::{dec_text, hex_digit};

verus! {

/// The SHA-256 digest of a byte sequence.
pub uninterp spec fn sha256(data: Seq<u8>) -> Seq<u8>;

/// Computes `sha2::Sha256::digest(data)` as a vector. Claimed: the result is
/// `sha256(data@)`, and a SHA-256 digest is 32 bytes long.
#[verifier::external_body]
pub(crate) fn sha256_digest(data: &[u8]) -> (r: Vec<u8>)
    ensures
        r@ == sha256(data@),
        r@.len() == 32,
{
    <sha2::Sha256 as sha2::Digest>::digest(data).to_vec()
}

/// Lower-case hexadecimal text of bytes, two digits per byte, high nibble first.
pub open spec fn hex_text(b: Seq<u8>) -> Seq<char>
    decreases b.len(),
{
    if b.len() == 0 {
        Seq::empty()
    } else {
        hex_text(b.drop_last()) + seq![hex_digit((b.last() / 16) as int), hex_digit((b.last() % 16) as int)]
    }
}

/// Calls `hex::encode(data)`. Claimed: lower-case digits, two per byte,
/// high nibble first (the crate's `HEX_CHARS_LOWER` table).
#[verifier::external_body]
pub(crate) fn hex_encode(data: &[u8]) -> (r: String)
    ensures
        r@ == hex_text(data@),
{
    hex::encode(data)
}

/// The value of a hexadecimal digit byte (either case).
pub open spec fn hex_value(c: u8) -> Option<int> {
    if 48 <= c <= 57 {
        Some(c - 48)
    } else if 97 <= c <= 102 {
        Some(c - 87)
    } else if 65 <= c <= 70 {
        Some(c - 55)
    } else {
        None
    }
}

/// Text that `hex::decode` accepts: an even number of hexadecimal digits.
pub open spec fn hex_valid(t: Seq<u8>) -> bool {
    &&& t.len() % 2 == 0
    &&& forall|i: int| 0 <= i < t.len() ==> #[trigger] hex_value(t[i]) is Some
}

/// The bytes that valid hexadecimal text stands for.
pub open spec fn hex_bytes(t: Seq<u8>) -> Seq<u8> {
    Seq::new(
        t.len() / 2,
        |i: int| (hex_value(t[2 * i])->0 * 16 + hex_value(t[2 * i + 1])->0) as u8,
    )
}

/// Why `hex::decode` refused a text: the variants of `hex::FromHexError`.
#[derive(Debug, Clone, Copy, PartialEq, Eq)]
pub enum HexError {
    /// A byte that is no hexadecimal digit, and its position.
    InvalidHexCharacter { c: char, index: usize },
    /// An odd number of digits.
    OddLength,
    /// A length that does not fit a fixed-size target.
    InvalidStringLength,
}

/// The position of the first byte of `t` that is no hexadecimal digit.
pub open spec fn first_non_digit(t: Seq<u8>) -> int {
    choose|k: int|
        0 <= k < t.len() && hex_value(t[k]) is None && forall|j: int|
            0 <= j < k ==> #[trigger] hex_value(t[j]) is Some
}

/// What `hex::decode` reports of a text it refuses, checked in its order:
/// first the length, then the digits from the front.
pub open spec fn hex_failure(t: Seq<u8>) -> Option<HexError> {
    if t.len() % 2 != 0 {
        Some(HexError::OddLength)
    } else if hex_valid(t) {
        None
    } else {
        Some(
            HexError::InvalidHexCharacter {
                c: t[first_non_digit(t)] as char,
                index: first_non_digit(t) as usize,
            },
        )
    }
}

/// Calls `hex::decode(text)`. Claimed, as the crate's source shows: an odd
/// length gives `OddLength`; otherwise the digits are read from the front
/// (either case) and the first byte that is no digit gives
/// `InvalidHexCharacter` with that byte as a character and its position;
/// else each digit pair gives one byte.
#[verifier::external_body]
pub(crate) fn hex_decode(text: &[u8]) -> (r: Result<Vec<u8>, HexError>)
    ensures
        r is Ok <==> hex_failure(text@) is None,
        r matches Ok(v) ==> v@ == hex_bytes(text@),
        r matches Err(e) ==> hex_failure(text@) == Some(e),
{
    match hex::decode(text) {
        Ok(v) => Ok(v),
        Err(hex::FromHexError::InvalidHexCharacter { c, index }) => Err(
            HexError::InvalidHexCharacter { c, index },
        ),
        Err(hex::FromHexError::OddLength) => Err(HexError::OddLength),
        Err(hex::FromHexError::InvalidStringLength) => Err(HexError::InvalidStringLength),
    }
}

/// The `Debug` text of a character (quoted, with escapes).
pub uninterp spec fn char_debug_text(c: char) -> Seq<char>;

/// The message that `hex::FromHexError` displays.
pub open spec fn hex_error_text(e: HexError) -> Seq<char> {
    match e {
        HexError::InvalidHexCharacter { c, index } => "Invalid character "@ + char_debug_text(c)
            + " at position "@ + dec_text(index as nat),
        HexError::OddLength => "Odd number of digits"@,
        HexError::InvalidStringLength => "Invalid string length"@,
    }
}

/// The `Display` text (`to_string`) of the `hex::FromHexError` that `e`
/// stands for. Claimed, as the crate's `Display` impl writes it:
/// `hex_error_text(e)`, where the character's `Debug` text is std's and is
/// named, not restated.
#[verifier::external_body]
pub(crate) fn hex_error_message(e: HexError) -> (r: String)
    ensures
        e matches HexError::InvalidHexCharacter { c, index } ==> r@ == "Invalid character "@
            + char_debug_text(c) + " at position "@ + dec_text(index as nat),
        e is OddLength ==> r@ == "Odd number of digits"@,
        e is InvalidStringLength ==> r@ == "Invalid string length"@,
{
    let err = match e {
        HexError::InvalidHexCharacter { c, index } => hex::FromHexError::InvalidHexCharacter { c, index },
        HexError::OddLength => hex::FromHexError::OddLength,
        HexError::InvalidStringLength => hex::FromHexError::InvalidStringLength,
    };
    err.to_string()
}

/// The UTF-8 bytes of hexadecimal text are its digits, one byte each.
pub proof fn lemma_hex_text_shape(b: Seq<u8>)
    ensures
        hex_text(b).len() == 2 * b.len(),
        forall|i: int|
            0 <= i < b.len() ==> #[trigger] hex_text(b)[2 * i] == hex_digit((b[i] / 16) as int)
                && hex_text(b)[2 * i + 1] == hex_digit((b[i] % 16) as int),
        is_ascii_chars(hex_text(b)),
    decreases b.len(),
{
    if b.len() > 0 {
        let p = b.drop_last();
        lemma_hex_text_shape(p);
        let t = hex_text(b);
        assert(t == hex_text(p) + seq![hex_digit((b.last() / 16) as int), hex_digit((b.last() % 16) as int)]);
        assert forall|i: int| 0 <= i < b.len() implies #[trigger] t[2 * i] == hex_digit((b[i] / 16) as int)
            && t[2 * i + 1] == hex_digit((b[i] % 16) as int) by {
            if i < b.len() - 1 {
                assert(p[i] == b[i]);
                assert(t[2 * i] == hex_text(p)[2 * i]);
                assert(t[2 * i + 1] == hex_text(p)[2 * i + 1]);
            } else {
                assert(b[i] == b.last());
                assert(t[2 * i] == hex_digit((b.last() / 16) as int));
                assert(t[2 * i + 1] == hex_digit((b.last() % 16) as int));
            }
        }
        assert forall|i: int| 0 <= i < t.len() implies '\0' <= #[trigger] t[i] <= '\u{7f}' by {
            if i < hex_text(p).len() {
                assert(t[i] == hex_text(p)[i]);
            } else {
                let d = if i == t.len() - 2 { (b.last() / 16) as int } else { (b.last() % 16) as int };
                assert(t[i] == hex_digit(d));
            }
        }
    }
}

/// Decoding the UTF-8 bytes of `hex_text(b)` gives back `b`.
pub proof fn lemma_hex_roundtrip(b: Seq<u8>)
    ensures
        hex_valid(encode_utf8(hex_text(b))),
        hex_bytes(encode_utf8(hex_text(b))) == b,
{
    lemma_hex_text_shape(b);
    let t = hex_text(b);
    let e = encode_utf8(t);
    is_ascii_chars_encode_utf8(t);
    assert forall|i: int| 0 <= i < e.len() implies #[trigger] hex_value(e[i]) is Some by {
        let k = i / 2;
        assert(t[2 * k] == hex_digit((b[k] / 16) as int));
        assert(t[2 * k + 1] == hex_digit((b[k] % 16) as int));
        assert(e[i] == t[i] as u8);
    }
    assert forall|k: int| 0 <= k < b.len() implies #[trigger] hex_bytes(e)[k] == b[k] by {
        assert(t[2 * k] == hex_digit((b[k] / 16) as int));
        assert(t[2 * k + 1] == hex_digit((b[k] % 16) as int));
        assert(e[2 * k] == t[2 * k] as u8);
        assert(e[2 * k + 1] == t[2 * k + 1] as u8);
    }
    assert(hex_bytes(e) =~= b);
}

} // verus!
