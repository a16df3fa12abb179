//! Hexadecimal text.

use vstd::prelude::*;
use vstd::string::*;
use crate::payload::{Value, ValueView};

verus! {

/// The number that a hexadecimal digit stands for; both cases count.
pub open spec fn hex_digit(c: char) -> Option<u8> {
    let code = c as u32;
    if 48 <= code <= 57 {
        Some((code - 48) as u8)
    } else if 65 <= code <= 70 {
        Some((code - 55) as u8)
    } else if 97 <= code <= 102 {
        Some((code - 87) as u8)
    } else {
        None
    }
}

/// Whether `text` is an even number of hexadecimal digits.
pub open spec fn is_hex(text: Seq<char>) -> bool {
    &&& text.len() % 2 == 0
    &&& forall|at: int| 0 <= at < text.len() ==> hex_digit(#[trigger] text[at]) is Some
}

/// The bytes that hexadecimal `text` writes out, two digits to a byte, the
/// high one first.
pub open spec fn hex_bytes(text: Seq<char>) -> Seq<u8> {
    Seq::new(
        text.len() / 2,
        |at: int|
            (hex_digit(text[2 * at]).unwrap() * 16 + hex_digit(text[2 * at + 1]).unwrap()) as u8,
    )
}

/// `hex::decode`: the bytes that `text` writes out, where `text` is an even
/// number of hexadecimal digits of either case, and nothing otherwise.
#[verifier::external_body]
fn hex_decode(text: &str) -> (bytes: Option<Vec<u8>>)
    ensures
        bytes is Some <==> is_hex(text@),
        bytes is Some ==> bytes.unwrap()@ == hex_bytes(text@),
{
    match hex::decode(text) {
        Ok(bytes) => Some(bytes),
        Err(_) => None,
    }
}

/// `receiver` without its first two characters, which are taken for a `0x`
/// prefix whatever they are.
pub open spec fn digits_of(receiver: Seq<char>) -> Seq<char> {
    if receiver.len() >= 2 {
        receiver.subrange(2, receiver.len() as int)
    } else {
        Seq::empty()
    }
}

/// How a receiver is written into a message body: as the bytes that it
/// spells, where what follows its first two characters is hexadecimal, and as
/// the text itself otherwise.
pub open spec fn receiver_value_of(receiver: Seq<char>) -> ValueView {
    if is_hex(digits_of(receiver)) {
        ValueView::Bytes(hex_bytes(digits_of(receiver)))
    } else {
        ValueView::Text(receiver)
    }
}

/// The value that stands for `receiver` in a message body.
pub fn receiver_value(receiver: String) -> (value: Value)
    ensures
        value@ == receiver_value_of(receiver@),
{
    let text = receiver.as_str();
    let count = text.unicode_len();
    let digits = if count >= 2 {
        text.substring_char(2, count)
    } else {
        text.substring_char(count, count)
    };
    assert(digits@ =~= digits_of(receiver@));
    match hex_decode(digits) {
        Some(bytes) => Value::Bytes(bytes),
        None => Value::Text(receiver),
    }
}

} // verus!
