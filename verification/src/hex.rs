//! Hexadecimal digits, and bytes written as pairs of them.

use vstd::prelude::*;
use vstd::string::StringSliceAdditionalSpecFns;

verus! {

/// The value of the hexadecimal digit with the given code, in either case;
/// -1 for any other code.
pub open spec fn hex_value(code: int) -> int {
    if '0' as int <= code <= '9' as int {
        code - '0' as int
    } else if 'a' as int <= code <= 'f' as int {
        code - 'a' as int + 10
    } else if 'A' as int <= code <= 'F' as int {
        code - 'A' as int + 10
    } else {
        -1
    }
}

/// Whether a character is a hexadecimal digit.
pub open spec fn is_hex_digit(c: char) -> bool {
    hex_value(c as int) >= 0
}

/// The byte that two hexadecimal digits spell, the high one first.
pub open spec fn pair_value(high: int, low: int) -> int {
    16 * hex_value(high) + hex_value(low)
}

/// Whether a text in bytes spells bytes: an even number of hexadecimal
/// digits.
pub open spec fn decodes(bytes: Seq<u8>) -> bool {
    &&& bytes.len() % 2 == 0
    &&& forall|i: int| 0 <= i < bytes.len() ==> hex_value(#[trigger] bytes[i] as int) >= 0
}

/// The bytes that an even number of hexadecimal digits spell.
pub open spec fn decoded(bytes: Seq<u8>) -> Seq<u8> {
    Seq::new(
        bytes.len() / 2,
        |k: int| pair_value(bytes[2 * k] as int, bytes[2 * k + 1] as int) as u8,
    )
}

/// The sixteen digits, lower case.
pub open spec fn lower_digits() -> Seq<char> {
    seq!['0', '1', '2', '3', '4', '5', '6', '7', '8', '9', 'a', 'b', 'c', 'd', 'e', 'f']
}

/// Bytes written as two lower-case digits each, the high one first.
pub open spec fn encoded_lower(bytes: Seq<u8>) -> Seq<char> {
    Seq::new(
        2 * bytes.len(),
        |i: int|
            if i % 2 == 0 {
                lower_digits()[bytes[i / 2] as int / 16]
            } else {
                lower_digits()[bytes[i / 2] as int % 16]
            },
    )
}

/// The error of `base16::decode`.
#[verifier::external_type_specification]
#[verifier::external_body]
pub struct ExDecodeError(base16::DecodeError);

/// `base16::decode` on the bytes of a text. It succeeds exactly on an even
/// number of bytes that are all hexadecimal digits, of either case, and then
/// gives one byte for each pair, the first digit of a pair counting 16.
#[verifier::external_body]
pub(crate) fn decode(input: &str) -> (out: Result<Vec<u8>, base16::DecodeError>)
    ensures
        out is Ok <==> decodes(input.spec_bytes()),
        out is Ok ==> out->Ok_0@ == decoded(input.spec_bytes()),
{
    base16::decode(input)
}

/// `base16::encode_lower`: two lower-case digits for each byte, the high one
/// first. It panics where twice the length does not fit `usize`.
#[verifier::external_body]
pub(crate) fn encode_lower(bytes: &[u8]) -> (out: String)
    requires
        2 * bytes@.len() <= usize::MAX,
    ensures
        out@ == encoded_lower(bytes@),
{
    base16::encode_lower(bytes)
}

} // verus!
