//! Hexadecimal text of byte strings, through the `hex` crate.

use vstd::prelude::*;
use vstd::utf8::encode_utf8;

verus! {

/// The lower-case hexadecimal digit for `n` in `0..16`.
pub open spec fn hex_digit_lower(n: int) -> char {
    if n < 10 {
        (48 + n) as char
    } else {
        (87 + n) as char
    }
}

/// Lower-case hexadecimal text of `data`: two digits per byte, high nibble
/// first.
pub open spec fn hex_lower(data: Seq<u8>) -> Seq<char> {
    Seq::new(
        2 * data.len(),
        |i: int|
            if i % 2 == 0 {
                hex_digit_lower(data[i / 2] as int / 16)
            } else {
                hex_digit_lower(data[i / 2] as int % 16)
            },
    )
}

/// Whether byte `b` is one of `0-9`, `a-f`, `A-F`.
pub open spec fn is_hex_byte(b: u8) -> bool {
    (48 <= b <= 57) || (97 <= b <= 102) || (65 <= b <= 70)
}

/// The value of the hexadecimal digit `b` (meaningful when `is_hex_byte(b)`).
pub open spec fn hex_value(b: u8) -> int {
    if 48 <= b <= 57 {
        b - 48
    } else if 97 <= b <= 102 {
        b - 87
    } else {
        b - 55
    }
}

/// Why a text is not hexadecimal.
#[derive(Clone, Copy, Debug, PartialEq, Eq, Structural)]
pub enum HexError {
    /// A byte that is not a hexadecimal digit, with its position.
    InvalidHexCharacter { c: char, index: usize },
    /// The text has an odd number of bytes.
    OddLength,
    /// The text does not fit a container of fixed size.
    InvalidStringLength,
}

/// Whether `i` is the first position of `text` that holds no hexadecimal digit.
pub open spec fn first_invalid_at(text: Seq<u8>, i: int) -> bool {
    &&& 0 <= i < text.len()
    &&& !is_hex_byte(text[i])
    &&& forall|j: int| 0 <= j < i ==> is_hex_byte(#[trigger] text[j])
}

/// The bytes that the hexadecimal text `text` (mixed case allowed) denotes,
/// or why it denotes none: odd length first, then the first byte that is not
/// a digit.
pub open spec fn hex_decode(text: Seq<u8>) -> Result<Seq<u8>, HexError> {
    if text.len() % 2 != 0 {
        Err(HexError::OddLength)
    } else if exists|i: int| first_invalid_at(text, i) {
        let i = choose|i: int| first_invalid_at(text, i);
        Err(HexError::InvalidHexCharacter { c: text[i] as char, index: i as usize })
    } else {
        Ok(
            Seq::new(
                text.len() / 2,
                |k: int| (hex_value(text[2 * k]) * 16 + hex_value(text[2 * k + 1])) as u8,
            ),
        )
    }
}

/// Calls `hex::encode`, which writes each byte as two lower-case digits, high
/// nibble first.
#[verifier::external_body]
pub(crate) fn encode_hex_lower(data: &[u8]) -> (res: String)
    ensures
        res@ == hex_lower(data@),
{
    hex::encode(data)
}

/// Calls `<Vec<u8> as hex::FromHex>::from_hex` on the bytes of `text`: an odd
/// number of bytes is refused, then the first byte that is no digit (checked
/// pair by pair, left to right); otherwise each pair of digits gives a byte.
#[verifier::external_body]
pub(crate) fn decode_hex_bytes(text: &str) -> (res: Result<Vec<u8>, HexError>)
    ensures
        match res {
            Ok(v) => hex_decode(encode_utf8(text@)) == Ok::<Seq<u8>, HexError>(v@),
            Err(e) => hex_decode(encode_utf8(text@)) == Err::<Seq<u8>, HexError>(e),
        },
{
    match <Vec<u8> as hex::FromHex>::from_hex(text) {
        Ok(v) => Ok(v),
        Err(hex::FromHexError::InvalidHexCharacter { c, index }) => Err(
            HexError::InvalidHexCharacter { c, index },
        ),
        Err(hex::FromHexError::OddLength) => Err(HexError::OddLength),
        Err(hex::FromHexError::InvalidStringLength) => Err(HexError::InvalidStringLength),
    }
}

/// Lower-case hexadecimal text of `data`.
pub fn to_hex(data: &[u8]) -> (res: String)
    ensures
        res@ == hex_lower(data@),
{
    encode_hex_lower(data)
}

/// The bytes that the hexadecimal text `text` denotes.
pub fn from_hex(text: &str) -> (res: Result<Vec<u8>, HexError>)
    ensures
        match res {
            Ok(v) => hex_decode(encode_utf8(text@)) == Ok::<Seq<u8>, HexError>(v@),
            Err(e) => hex_decode(encode_utf8(text@)) == Err::<Seq<u8>, HexError>(e),
        },
{
    decode_hex_bytes(text)
}

proof fn lemma_digit(n: int)
    requires
        0 <= n < 16,
    ensures
        ('\0' <= hex_digit_lower(n) <= '\u{7f}'),
        is_hex_byte(hex_digit_lower(n) as u8),
        hex_value(hex_digit_lower(n) as u8) == n,
{
}

/// Law: decoding the hexadecimal text that encoding writes gives back the
/// bytes encoded.
pub proof fn lemma_hex_round_trip(data: Seq<u8>)
    ensures
        hex_decode(encode_utf8(hex_lower(data))) == Ok::<Seq<u8>, HexError>(data),
{
    let c = hex_lower(data);
    assert forall|i: int| 0 <= i < c.len() implies ('\0' <= #[trigger] c[i] <= '\u{7f}') && is_hex_byte(
        c[i] as u8,
    ) && hex_value(c[i] as u8) == (if i % 2 == 0 {
        data[i / 2] as int / 16
    } else {
        data[i / 2] as int % 16
    }) by {
        if i % 2 == 0 {
            lemma_digit(data[i / 2] as int / 16);
        } else {
            lemma_digit(data[i / 2] as int % 16);
        }
    }
    assert(vstd::utf8::is_ascii_chars(c));
    vstd::utf8::is_ascii_chars_encode_utf8(c);
    let b = encode_utf8(c);
    assert(b.len() == 2 * data.len());
    assert forall|i: int| 0 <= i < b.len() implies #[trigger] is_hex_byte(b[i]) by {
        assert(c[i] as u8 == b[i]);
    }
    assert(!exists|i: int| first_invalid_at(b, i));
    let decoded = Seq::new(
        b.len() / 2,
        |k: int| (hex_value(b[2 * k]) * 16 + hex_value(b[2 * k + 1])) as u8,
    );
    assert forall|k: int| 0 <= k < data.len() implies #[trigger] decoded[k] == data[k] by {
        assert(c[2 * k] as u8 == b[2 * k]);
        assert(c[2 * k + 1] as u8 == b[2 * k + 1]);
        assert((2 * k) % 2 == 0);
        assert((2 * k + 1) % 2 == 1);
        assert((2 * k) / 2 == k);
        assert((2 * k + 1) / 2 == k);
        assert(hex_value(b[2 * k]) == data[k] as int / 16);
        assert(hex_value(b[2 * k + 1]) == data[k] as int % 16);
    }
    assert(decoded =~= data);
}

/// Law: hexadecimal text has two characters per byte, each a digit or a
/// lower-case letter from `a` to `f`.
pub proof fn lemma_hex_lower_shape(data: Seq<u8>)
    ensures
        hex_lower(data).len() == 2 * data.len(),
        forall|i: int|
            0 <= i < hex_lower(data).len() ==> ('0' <= #[trigger] hex_lower(data)[i] <= '9') || (
            'a' <= hex_lower(data)[i] <= 'f'),
{
    assert forall|i: int| 0 <= i < hex_lower(data).len() implies ('0' <= #[trigger] hex_lower(data)[i] <= '9')
        || ('a' <= hex_lower(data)[i] <= 'f') by {
        if i % 2 == 0 {
            lemma_digit(data[i / 2] as int / 16);
        } else {
            lemma_digit(data[i / 2] as int % 16);
        }
    }
}

/// Law: no byte gives no text; appending a byte appends two characters, the
/// digit of its high nibble then that of its low nibble (`0`-`9` for values
/// below ten, `a`-`f` above).
pub proof fn lemma_hex_lower_steps(data: Seq<u8>, b: u8)
    ensures
        hex_lower(Seq::empty()) == Seq::<char>::empty(),
        hex_lower(data.push(b)).len() == hex_lower(data).len() + 2,
        hex_lower(data.push(b)).take(hex_lower(data).len() as int) == hex_lower(data),
        hex_lower(data.push(b))[hex_lower(data).len() as int] as int == (if b / 16 < 10 {
            48 + b / 16
        } else {
            87 + b / 16
        }),
        hex_lower(data.push(b))[hex_lower(data).len() as int + 1] as int == (if b % 16 < 10 {
            48 + b % 16
        } else {
            87 + b % 16
        }),
{
    assert(hex_lower(Seq::<u8>::empty()) =~= Seq::<char>::empty());
    let t = data.push(b);
    let n = hex_lower(data).len() as int;
    assert(hex_lower(t).take(n) =~= hex_lower(data)) by {
        assert forall|i: int| 0 <= i < n implies hex_lower(t)[i] == hex_lower(data)[i] by {
            assert(i / 2 < data.len());
            assert(t[i / 2] == data[i / 2]);
        }
    }
    assert(n / 2 == data.len());
    assert((n + 1) / 2 == data.len());
    assert(t[data.len() as int] == b);
    lemma_digit(b as int / 16);
    lemma_digit(b as int % 16);
}

} // verus!
