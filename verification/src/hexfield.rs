use crate::error::Error;
use crate::raw::RawStr;
use vstd::prelude::*;

verus! {

/// The value of a hexadecimal digit in either case, or -1 for any other
/// byte.
pub open spec fn hex_value(c: u8) -> int {
    if 48 <= c <= 57 {
        c - 48
    } else if 97 <= c <= 102 {
        c - 87
    } else if 65 <= c <= 70 {
        c - 55
    } else {
        -1
    }
}

/// The byte is a hexadecimal digit, in either case.
pub open spec fn is_hex_digit(c: u8) -> bool {
    hex_value(c) >= 0
}

/// An even number of hexadecimal digits and nothing else.
pub open spec fn is_hex_text(s: Seq<u8>) -> bool {
    s.len() % 2 == 0 && forall|i: int| 0 <= i < s.len() ==> is_hex_digit(#[trigger] s[i])
}

/// The byte that two hexadecimal digits spell.
pub open spec fn hex_byte(hi: u8, lo: u8) -> u8 {
    (hex_value(hi) * 16 + hex_value(lo)) as u8
}

/// The bytes that a hexadecimal text spells, two digits to a byte.
pub open spec fn hex_bytes(s: Seq<u8>) -> Seq<u8> {
    Seq::new((s.len() / 2) as nat, |i: int| hex_byte(s[2 * i], s[2 * i + 1]))
}

/// Four bytes read as one number, the most significant byte first.
pub open spec fn be_u32(b: Seq<u8>) -> u32 {
    (b[0] as int * 16777216 + b[1] as int * 65536 + b[2] as int * 256 + b[3] as int) as u32
}

/// The number that eight hexadecimal digits spell.
pub open spec fn hex_u32(s: Seq<u8>) -> u32 {
    be_u32(hex_bytes(s))
}

#[verifier::external_type_specification]
#[verifier::external_body]
pub struct ExFromHexError(hex::FromHexError);

/// Calls `hex::decode`. It succeeds exactly on an even number of
/// hexadecimal digits, in either case, and gives the byte that each pair of
/// digits spells.
#[verifier::external_body]
fn decode_hex(text: &[u8]) -> (r: Result<Vec<u8>, hex::FromHexError>)
    ensures
        r.is_ok() <==> is_hex_text(text@),
        r matches Ok(bytes) ==> bytes@ == hex_bytes(text@),
{
    hex::decode(text)
}

/// Reads eight hexadecimal digits as a 32-bit number, the most significant
/// digit first. Anything else is `InvalidData`: an odd number of bytes, a
/// byte that is no hexadecimal digit, or digits for more or fewer than four
/// bytes.
pub fn parse_hex_u32(field: &RawStr<'_>) -> (r: Result<u32, Error>)
    ensures
        (is_hex_text(field@) && field@.len() == 8) ==> r is Ok && r->Ok_0 == hex_u32(field@),
        !(is_hex_text(field@) && field@.len() == 8) ==> r is Err && r->Err_0 is InvalidData,
{
    match decode_hex(field.as_bytes()) {
        Ok(bytes) => {
            if bytes.len() == 4 {
                let b0: u32 = bytes[0] as u32;
                let b1: u32 = bytes[1] as u32;
                let b2: u32 = bytes[2] as u32;
                let b3: u32 = bytes[3] as u32;
                Ok(b0 * 16777216 + b1 * 65536 + b2 * 256 + b3)
            } else {
                Err(Error::InvalidData)
            }
        },
        Err(_) => Err(Error::InvalidData),
    }
}

} // verus!
