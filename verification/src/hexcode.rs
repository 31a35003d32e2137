//! The text form of a digest: two lowercase hexadecimal digits per byte.

use hex::FromHex;
use vstd::prelude::*;

verus! {

/// The lowercase hexadecimal digit that stands for `nibble`, which is below 16.
pub open spec fn lower_hex_digit(nibble: int) -> char {
    if nibble < 10 {
        (0x30 + nibble) as char
    } else {
        (0x57 + nibble) as char
    }
}

/// The value of a hexadecimal digit of either case, `None` for any other character.
pub open spec fn hex_digit_value(c: char) -> Option<int> {
    if '0' <= c && c <= '9' {
        Some(c as int - 0x30)
    } else if 'a' <= c && c <= 'f' {
        Some(c as int - 0x57)
    } else if 'A' <= c && c <= 'F' {
        Some(c as int - 0x37)
    } else {
        None
    }
}

/// The hexadecimal text of `data`: the high nibble of each byte, then the low one.
pub open spec fn hex_text(data: Seq<u8>) -> Seq<char> {
    Seq::new(
        2 * data.len(),
        |i: int|
            lower_hex_digit(
                if i % 2 == 0 {
                    data[i / 2] as int / 16
                } else {
                    data[i / 2] as int % 16
                },
            ),
    )
}

/// Whether `text` is an even number of hexadecimal digits.
pub open spec fn is_hex_text(text: Seq<char>) -> bool {
    &&& text.len() % 2 == 0
    &&& forall|i: int| 0 <= i < text.len() ==> (#[trigger] hex_digit_value(text[i])) is Some
}

/// The bytes that a hexadecimal text stands for, one per pair of digits.
pub open spec fn hex_bytes(text: Seq<char>) -> Seq<u8> {
    Seq::new(
        text.len() / 2,
        |i: int|
            (16 * hex_digit_value(text[2 * i]).unwrap() + hex_digit_value(
                text[2 * i + 1],
            ).unwrap()) as u8,
    )
}

/// `hex::encode`: the crate writes every byte as two digits taken from its
/// lowercase table, the high nibble first.
#[verifier::external_body]
fn hex_encode(data: &Vec<u8>) -> (text: String)
    ensures
        text@ == hex_text(data@),
{
    hex::encode(data)
}

/// `Vec::<u8>::from_hex`: the crate refuses a text of odd length or one that
/// holds anything but hexadecimal digits of either case, and otherwise
/// packs each pair of digits into one byte.
#[verifier::external_body]
fn hex_decode(text: &str) -> (bytes: Option<Vec<u8>>)
    ensures
        match bytes {
            Some(b) => is_hex_text(text@) && b@ == hex_bytes(text@),
            None => !is_hex_text(text@),
        },
{
    Vec::from_hex(text).ok()
}

/// Writes a digest as ledger text.
pub fn encode(digest: &Vec<u8>) -> (text: String)
    ensures
        text@ == hex_text(digest@),
{
    hex_encode(digest)
}

/// Reads a digest back from ledger text; `None` when the text is not an even
/// number of hexadecimal digits.
pub fn decode(text: &str) -> (digest: Option<Vec<u8>>)
    ensures
        is_hex_text(text@) ==> digest is Some && digest.unwrap()@ == hex_bytes(text@),
        !is_hex_text(text@) ==> digest is None,
{
    hex_decode(text)
}

/// Reading back what `encode` wrote gives the digest that was written.
pub proof fn lemma_decode_encode(data: Seq<u8>)
    ensures
        is_hex_text(hex_text(data)),
        hex_bytes(hex_text(data)) == data,
{
    let t = hex_text(data);
    assert forall|i: int| 0 <= i < t.len() implies (#[trigger] hex_digit_value(t[i])) is Some by {
        let b = data[i / 2] as int;
        assert(0 <= b / 16 < 16 && 0 <= b % 16 < 16);
    }
    assert forall|i: int| 0 <= i < data.len() implies hex_bytes(t)[i] == data[i] by {
        let b = data[i] as int;
        assert(0 <= b / 16 < 16 && 0 <= b % 16 < 16);
        assert((2 * i) / 2 == i && (2 * i + 1) / 2 == i);
        assert((2 * i) % 2 == 0 && (2 * i + 1) % 2 == 1);
        assert(hex_digit_value(lower_hex_digit(b / 16)) == Some(b / 16));
        assert(hex_digit_value(lower_hex_digit(b % 16)) == Some(b % 16));
        assert(16 * (b / 16) + b % 16 == b);
    }
    assert(hex_bytes(t) =~= data);
}

} // verus!
