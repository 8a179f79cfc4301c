//! Bytes as hexadecimal text.

use vstd::prelude::*;

verus! {

/// The error of `hex::decode`, carried without a look inside.
#[verifier::external_type_specification]
#[verifier::external_body]
pub struct ExFromHexError(hex::FromHexError);

/// The text is not the hexadecimal form of any bytes.
#[derive(Clone, Copy, Debug, PartialEq, Eq, Structural)]
pub struct InvalidHex;

impl InvalidHex {
    /// What the error is called.
    pub fn message(self) -> (text: &'static str)
        ensures
            text@ == "Invalid hex"@,
    {
        "Invalid hex"
    }
}

/// The lower-case hexadecimal digit of `n`, for `n < 16`.
pub open spec fn hex_digit(n: int) -> char {
    if n < 10 {
        ('0' as u32 + n) as char
    } else {
        ('a' as u32 + (n - 10)) as char
    }
}

/// The value of the hexadecimal digit `c`, in either case.
pub open spec fn hex_value(c: char) -> Option<int> {
    if '0' <= c <= '9' {
        Some(c as int - '0' as int)
    } else if 'a' <= c <= 'f' {
        Some(c as int - 'a' as int + 10)
    } else if 'A' <= c <= 'F' {
        Some(c as int - 'A' as int + 10)
    } else {
        None
    }
}

/// Each byte as two lower-case digits, the high one first.
pub open spec fn hex_encode(bytes: Seq<u8>) -> Seq<char> {
    Seq::new(
        2 * bytes.len(),
        |i: int|
            if i % 2 == 0 {
                hex_digit(bytes[i / 2] as int / 16)
            } else {
                hex_digit(bytes[i / 2] as int % 16)
            },
    )
}

/// Whether `text` is an even number of hexadecimal digits.
pub open spec fn is_hex(text: Seq<char>) -> bool {
    &&& text.len() % 2 == 0
    &&& forall|i: int| 0 <= i < text.len() ==> (#[trigger] hex_value(text[i])) is Some
}

/// The bytes that `text` stands for, if it is hexadecimal.
pub open spec fn hex_decode(text: Seq<char>) -> Option<Seq<u8>> {
    if is_hex(text) {
        Some(
            Seq::new(
                text.len() / 2,
                |i: int| (16 * hex_value(text[2 * i])->0 + hex_value(text[2 * i + 1])->0) as u8,
            ),
        )
    } else {
        None
    }
}

/// Calls `hex::encode`, which writes each byte as two lower-case digits, the high one first.
#[verifier::external_body]
pub(crate) fn encode(data: &Vec<u8>) -> (text: String)
    requires
        2 * data@.len() <= isize::MAX,
    ensures
        text@ == hex_encode(data@),
{
    hex::encode(data)
}

/// Calls `hex::decode`, which accepts an even number of digits in either case and nothing
/// else, and reads each pair as one byte.
#[verifier::external_body]
fn decode_text(text: &str) -> (res: Result<Vec<u8>, hex::FromHexError>)
    ensures
        match res {
            Ok(bytes) => hex_decode(text@) == Some(bytes@),
            Err(_) => hex_decode(text@) is None,
        },
{
    hex::decode(text)
}

/// The bytes that `text` stands for.
pub(crate) fn decode(text: &str) -> (res: Result<Vec<u8>, InvalidHex>)
    ensures
        match res {
            Ok(bytes) => hex_decode(text@) == Some(bytes@),
            Err(_) => hex_decode(text@) is None,
        },
{
    match decode_text(text) {
        Ok(bytes) => Ok(bytes),
        Err(_) => Err(InvalidHex),
    }
}

/// Decoding what was encoded gives the bytes back.
pub proof fn hex_round_trip(bytes: Seq<u8>)
    ensures
        hex_decode(hex_encode(bytes)) == Some(bytes),
{
    let text = hex_encode(bytes);
    assert forall|i: int| 0 <= i < text.len() implies (#[trigger] hex_value(text[i])) is Some by {
        assert(0 <= bytes[i / 2] as int / 16 < 16);
        assert(0 <= bytes[i / 2] as int % 16 < 16);
    }
    let back = hex_decode(text)->0;
    assert forall|i: int| 0 <= i < bytes.len() implies back[i] == bytes[i] by {
        let b = bytes[i] as int;
        assert((2 * i) / 2 == i && (2 * i) % 2 == 0);
        assert((2 * i + 1) / 2 == i && (2 * i + 1) % 2 == 1);
        assert(text[2 * i] == hex_digit(b / 16));
        assert(text[2 * i + 1] == hex_digit(b % 16));
        assert(hex_value(hex_digit(b / 16)) == Some(b / 16));
        assert(hex_value(hex_digit(b % 16)) == Some(b % 16));
        assert(16 * (b / 16) + b % 16 == b);
    }
    assert(back =~= bytes);
}

/// Different bytes have different hexadecimal forms.
pub proof fn hex_injective(a: Seq<u8>, b: Seq<u8>)
    requires
        hex_encode(a) == hex_encode(b),
    ensures
        a == b,
{
    hex_round_trip(a);
    hex_round_trip(b);
}

} // verus!
