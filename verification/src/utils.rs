//! Text helpers: comparing strings and turning colon-separated hexadecimal
//! into raw bytes.

use vstd::prelude::*;
use vstd::utf8::{encode_utf8, encode_utf8_decode_utf8};

verus! {

/// The value of one ASCII hexadecimal digit, upper or lower case.
pub open spec fn hex_digit_value(c: u8) -> Option<u8> {
    if 0x30 <= c <= 0x39 {
        Some((c - 0x30) as u8)
    } else if 0x41 <= c <= 0x46 {
        Some((c - 0x41 + 10) as u8)
    } else if 0x61 <= c <= 0x66 {
        Some((c - 0x61 + 10) as u8)
    } else {
        None
    }
}

/// Text made of an even number of hexadecimal digits and nothing else.
pub open spec fn is_hex_text(text: Seq<u8>) -> bool {
    &&& text.len() % 2 == 0
    &&& forall|i: int| 0 <= i < text.len() ==> hex_digit_value(#[trigger] text[i]) is Some
}

/// The byte that the digit pair at position `i` of `text` stands for: the
/// first digit is the high nibble.
pub open spec fn hex_pair_value(text: Seq<u8>, i: int) -> u8 {
    (16 * hex_digit_value(text[2 * i]).unwrap() + hex_digit_value(text[2 * i + 1]).unwrap()) as u8
}

/// The bytes that a hexadecimal text stands for, one per digit pair.
pub open spec fn hex_bytes(text: Seq<u8>) -> Seq<u8> {
    Seq::new(text.len() / 2, |i: int| hex_pair_value(text, i))
}

/// `text` with every colon taken out.
pub open spec fn without_colons(text: Seq<u8>) -> Seq<u8> {
    text.filter(|b: u8| b != 0x3a)
}

/// The bytes that a payload text stands for: its hexadecimal digit pairs,
/// read after every colon has been dropped. `None` where what is left is not
/// hexadecimal.
pub open spec fn payload_bytes(text: Seq<char>) -> Option<Seq<u8>> {
    let digits = without_colons(encode_utf8(text));
    if is_hex_text(digits) {
        Some(hex_bytes(digits))
    } else {
        None
    }
}

/// `hex::FromHexError`, carried through as it is.
#[verifier::external_type_specification]
#[verifier::external_body]
pub struct ExFromHexError(hex::FromHexError);

/// `hex::decode` on a byte string. It succeeds exactly on an even number of
/// hexadecimal digits, and then returns one byte per digit pair, the first
/// digit of a pair being the high nibble.
#[verifier::external_body]
fn hex_decode(text: &Vec<u8>) -> (decoded: Result<Vec<u8>, hex::FromHexError>)
    ensures
        decoded is Ok <==> is_hex_text(text@),
        decoded matches Ok(bytes) ==> bytes@ == hex_bytes(text@),
{
    hex::decode(text)
}

/// Reads a payload as the capture export writes it, such as `a1:b2:c3`.
pub fn convert_payload_to_buff(payload: &str) -> (buff: Option<Vec<u8>>)
    ensures
        match buff {
            Some(bytes) => payload_bytes(payload@) == Some(bytes@),
            None => payload_bytes(payload@) is None,
        },
{
    let text = payload.as_bytes();
    let mut hex_stream: Vec<u8> = Vec::new();
    let mut i: usize = 0;
    while i < text.len()
        invariant
            i <= text.len(),
            text@ == encode_utf8(payload@),
            hex_stream@ == without_colons(text@.take(i as int)),
        decreases text.len() - i,
    {
        proof {
            reveal(Seq::filter);
            assert(text@.take(i + 1).drop_last() == text@.take(i as int));
        }
        if text[i] != 0x3a {
            hex_stream.push(text[i]);
        }
        i += 1;
    }
    proof {
        reveal(Seq::filter);
        assert(text@.take(i as int) == text@);
    }
    match hex_decode(&hex_stream) {
        Ok(bytes) => Some(bytes),
        Err(_) => None,
    }
}

/// Whether two strings hold the same text.
pub fn same_text(left: &str, right: &str) -> (same: bool)
    ensures
        same == (left@ == right@),
{
    let a = left.as_bytes();
    let b = right.as_bytes();
    proof {
        encode_utf8_decode_utf8(left@);
        encode_utf8_decode_utf8(right@);
    }
    if a.len() != b.len() {
        return false;
    }
    let mut i: usize = 0;
    while i < a.len()
        invariant
            i <= a.len(),
            a.len() == b.len(),
            a@ == encode_utf8(left@),
            b@ == encode_utf8(right@),
            a@.take(i as int) == b@.take(i as int),
        decreases a.len() - i,
    {
        if a[i] != b[i] {
            return false;
        }
        proof {
            assert(a@.take(i + 1) == a@.take(i as int).push(a@[i as int]));
            assert(b@.take(i + 1) == b@.take(i as int).push(b@[i as int]));
        }
        i += 1;
    }
    proof {
        assert(a@.take(i as int) == a@);
        assert(b@.take(i as int) == b@);
    }
    true
}

} // verus!
