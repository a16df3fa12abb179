//! The wire format of a message body.
//!
//! A body is its items, one after the other, with nothing before, between or
//! after them. An item is its name followed by its value. A name is text. A
//! value is one tag byte followed by what the tag announces: a byte string, a
//! 128-bit number, text, a native address or a foreign address. Text is the
//! byte string of its UTF-8 encoding. A byte string is its length as a 64-bit
//! little-endian number followed by the bytes; a 128-bit number is its sixteen
//! bytes, little-endian.

use vstd::prelude::*;
use vstd::bytes::*;
use vstd::slice::*;
use vstd::string::*;
use vstd::utf8::*;
use crate::account::AccountId;
use crate::error::Error;
use crate::payload::{Address, AddressView, Item, ItemView, Payload, Value, ValueView};

verus! {

/// Tag of a byte string.
pub const TAG_BYTES: u8 = 0;

/// Tag of a 128-bit number.
pub const TAG_UINT128: u8 = 1;

/// Tag of text.
pub const TAG_TEXT: u8 = 2;

/// Tag of a native address.
pub const TAG_NATIVE: u8 = 3;

/// Tag of a foreign address.
pub const TAG_FOREIGN: u8 = 4;

/// The encoding of a byte string.
pub open spec fn blob_wire(bytes: Seq<u8>) -> Seq<u8> {
    spec_u64_to_le_bytes(bytes.len() as u64) + bytes
}

/// The encoding of text.
pub open spec fn text_wire(text: Seq<char>) -> Seq<u8> {
    blob_wire(encode_utf8(text))
}

/// The encoding of a value.
pub open spec fn value_wire(value: ValueView) -> Seq<u8> {
    match value {
        ValueView::Bytes(bytes) => seq![TAG_BYTES] + blob_wire(bytes),
        ValueView::Uint128(number) => seq![TAG_UINT128] + spec_u128_to_le_bytes(number),
        ValueView::Text(text) => seq![TAG_TEXT] + text_wire(text),
        ValueView::Address(AddressView::Native(account)) => seq![TAG_NATIVE] + blob_wire(account),
        ValueView::Address(AddressView::Foreign(text)) => seq![TAG_FOREIGN] + text_wire(text),
    }
}

/// The encoding of an item.
pub open spec fn item_wire(item: ItemView) -> Seq<u8> {
    text_wire(item.key) + value_wire(item.value)
}

/// The encoding of a body.
pub open spec fn payload_wire(items: Seq<ItemView>) -> Seq<u8>
    decreases items.len(),
{
    if items.len() == 0 {
        Seq::empty()
    } else {
        payload_wire(items.drop_last()) + item_wire(items.last())
    }
}

/// Whether the length of every byte string in the encoding of `value` can be
/// written in 64 bits.
pub open spec fn value_fits(value: ValueView) -> bool {
    match value {
        ValueView::Bytes(bytes) => bytes.len() <= u64::MAX,
        ValueView::Uint128(_) => true,
        ValueView::Text(text) => encode_utf8(text).len() <= u64::MAX,
        ValueView::Address(AddressView::Native(account)) => account.len() <= u64::MAX,
        ValueView::Address(AddressView::Foreign(text)) => encode_utf8(text).len() <= u64::MAX,
    }
}

/// The same of an item.
pub open spec fn item_fits(item: ItemView) -> bool {
    encode_utf8(item.key).len() <= u64::MAX && value_fits(item.value)
}

/// The same of a body. Every body held in memory fits.
pub open spec fn payload_fits(items: Seq<ItemView>) -> bool {
    forall|at: int| 0 <= at < items.len() ==> item_fits(#[trigger] items[at])
}

fn put_bytes(out: &mut Vec<u8>, bytes: &[u8])
    ensures
        final(out)@ == old(out)@ + bytes@,
{
    let mut i: usize = 0;
    while i < bytes.len()
        invariant
            i <= bytes@.len(),
            out@ == old(out)@ + bytes@.take(i as int),
        decreases bytes@.len() - i,
    {
        out.push(bytes[i]);
        assert(bytes@.take(i + 1) =~= bytes@.take(i as int).push(bytes@[i as int]));
        i += 1;
    }
    assert(bytes@.take(i as int) =~= bytes@);
}

fn put_blob(out: &mut Vec<u8>, bytes: &[u8])
    ensures
        bytes@.len() <= u64::MAX,
        final(out)@ == old(out)@ + blob_wire(bytes@),
{
    let head = u64_to_le_bytes(bytes.len() as u64);
    put_bytes(out, head.as_slice());
    put_bytes(out, bytes);
    assert(out@ =~= old(out)@ + blob_wire(bytes@));
}

fn put_text(out: &mut Vec<u8>, text: &String)
    ensures
        encode_utf8(text@).len() <= u64::MAX,
        final(out)@ == old(out)@ + text_wire(text@),
{
    put_blob(out, text.as_str().as_bytes());
}

fn put_value(out: &mut Vec<u8>, value: &Value)
    ensures
        value_fits(value@),
        final(out)@ == old(out)@ + value_wire(value@),
{
    match value {
        Value::Bytes(bytes) => {
            out.push(TAG_BYTES);
            put_blob(out, bytes.as_slice());
        },
        Value::Uint128(number) => {
            out.push(TAG_UINT128);
            let body = u128_to_le_bytes(*number);
            put_bytes(out, body.as_slice());
        },
        Value::Text(text) => {
            out.push(TAG_TEXT);
            put_text(out, text);
        },
        Value::Address(Address::Native(account)) => {
            out.push(TAG_NATIVE);
            put_blob(out, account.bytes.as_slice());
        },
        Value::Address(Address::Foreign(text)) => {
            out.push(TAG_FOREIGN);
            put_text(out, text);
        },
    }
    assert(out@ =~= old(out)@ + value_wire(value@));
}

/// The bytes that carry `payload`. They carry nothing else: decoding them
/// gives `payload` back.
pub fn encode(payload: &Payload) -> (wire: Vec<u8>)
    ensures
        payload_fits(payload@),
        wire@ == payload_wire(payload@),
        parse_payload(wire@) == Some(payload@),
{
    let mut wire: Vec<u8> = Vec::new();
    let mut i: usize = 0;
    assert(payload@.take(0) =~= Seq::<ItemView>::empty());
    while i < payload.items.len()
        invariant
            i <= payload.items@.len(),
            payload@.len() == payload.items@.len(),
            wire@ == payload_wire(payload@.take(i as int)),
            forall|at: int| 0 <= at < i ==> item_fits(#[trigger] payload@[at]),
        decreases payload.items@.len() - i,
    {
        let item = &payload.items[i];
        let ghost before = wire@;
        put_text(&mut wire, &item.key);
        put_value(&mut wire, &item.value);
        proof {
            let upto = payload@.take(i + 1);
            assert(upto.drop_last() =~= payload@.take(i as int));
            assert(upto.last() == item@);
            assert(wire@ =~= before + item_wire(item@));
        }
        i += 1;
    }
    assert(payload@.take(i as int) =~= payload@);
    proof {
        lemma_decode_encode(payload@);
    }
    wire
}

/// Reads a byte string from the front of `wire`: the bytes, and how many
/// bytes of `wire` they took with their length.
pub open spec fn parse_blob(wire: Seq<u8>) -> Option<(Seq<u8>, int)> {
    if wire.len() < 8 {
        None
    } else {
        let length = spec_u64_from_le_bytes(wire.subrange(0, 8)) as int;
        if wire.len() - 8 < length {
            None
        } else {
            Some((wire.subrange(8, 8 + length), 8 + length))
        }
    }
}

/// Reads text from the front of `wire`.
pub open spec fn parse_text(wire: Seq<u8>) -> Option<(Seq<char>, int)> {
    match parse_blob(wire) {
        Some((bytes, used)) => if valid_utf8(bytes) {
            Some((decode_utf8(bytes), used))
        } else {
            None
        },
        None => None,
    }
}

/// Reads a value from the front of `wire`.
pub open spec fn parse_value(wire: Seq<u8>) -> Option<(ValueView, int)> {
    if wire.len() == 0 {
        None
    } else {
        let body = wire.subrange(1, wire.len() as int);
        if wire[0] == TAG_BYTES {
            match parse_blob(body) {
                Some((bytes, used)) => Some((ValueView::Bytes(bytes), 1 + used)),
                None => None,
            }
        } else if wire[0] == TAG_UINT128 {
            if body.len() < 16 {
                None
            } else {
                Some((ValueView::Uint128(spec_u128_from_le_bytes(body.subrange(0, 16))), 17))
            }
        } else if wire[0] == TAG_TEXT {
            match parse_text(body) {
                Some((text, used)) => Some((ValueView::Text(text), 1 + used)),
                None => None,
            }
        } else if wire[0] == TAG_NATIVE {
            match parse_blob(body) {
                Some((account, used)) => Some(
                    (ValueView::Address(AddressView::Native(account)), 1 + used),
                ),
                None => None,
            }
        } else if wire[0] == TAG_FOREIGN {
            match parse_text(body) {
                Some((text, used)) => Some(
                    (ValueView::Address(AddressView::Foreign(text)), 1 + used),
                ),
                None => None,
            }
        } else {
            None
        }
    }
}

/// Reads an item from the front of `wire`.
pub open spec fn parse_item(wire: Seq<u8>) -> Option<(ItemView, int)> {
    match parse_text(wire) {
        Some((key, used)) => match parse_value(wire.subrange(used, wire.len() as int)) {
            Some((value, more)) => Some((ItemView { key, value }, used + more)),
            None => None,
        },
        None => None,
    }
}

/// The body that `wire` carries, if it carries one: `wire` is read item by
/// item until nothing is left.
pub open spec fn parse_payload(wire: Seq<u8>) -> Option<Seq<ItemView>>
    decreases wire.len(),
{
    if wire.len() == 0 {
        Some(Seq::empty())
    } else {
        match parse_item(wire) {
            Some((item, used)) => if 0 < used <= wire.len() {
                match parse_payload(wire.subrange(used, wire.len() as int)) {
                    Some(rest) => Some(seq![item] + rest),
                    None => None,
                }
            } else {
                None
            },
            None => None,
        }
    }
}

/// `String::from_utf8` of std: the text that `bytes` encode, where they are
/// well-formed UTF-8, and nothing where they are not.
#[verifier::external_body]
fn text_from_utf8(bytes: Vec<u8>) -> (text: Option<String>)
    ensures
        text is Some <==> valid_utf8(bytes@),
        text is Some ==> text.unwrap()@ == decode_utf8(bytes@),
{
    match String::from_utf8(bytes) {
        Ok(text) => Some(text),
        Err(_) => None,
    }
}

fn read_blob<'a>(wire: &'a [u8], at: usize) -> (read: Option<(&'a [u8], usize)>)
    requires
        at <= wire@.len(),
    ensures
        match parse_blob(wire@.subrange(at as int, wire@.len() as int)) {
            Some((bytes, used)) => read matches Some((found, next)) && found@ == bytes && next
                == at + used && at + 8 <= next <= wire@.len(),
            None => read is None,
        },
{
    let ghost tail = wire@.subrange(at as int, wire@.len() as int);
    if wire.len() - at < 8 {
        return None;
    }
    let length = u64_from_le_bytes(slice_subrange(wire, at, at + 8));
    assert(tail.subrange(0, 8) =~= wire@.subrange(at as int, at + 8));
    if ((wire.len() - at - 8) as u64) < length {
        return None;
    }
    let start = at + 8;
    let end = start + length as usize;
    assert(tail.subrange(8, 8 + length) =~= wire@.subrange(start as int, end as int));
    Some((slice_subrange(wire, start, end), end))
}

fn read_text(wire: &[u8], at: usize) -> (read: Option<(String, usize)>)
    requires
        at <= wire@.len(),
    ensures
        match parse_text(wire@.subrange(at as int, wire@.len() as int)) {
            Some((text, used)) => read matches Some((found, next)) && found@ == text && next
                == at + used && at + 8 <= next <= wire@.len(),
            None => read is None,
        },
{
    match read_blob(wire, at) {
        Some((bytes, next)) => match text_from_utf8(slice_to_vec(bytes)) {
            Some(text) => Some((text, next)),
            None => None,
        },
        None => None,
    }
}

fn read_value(wire: &[u8], at: usize) -> (read: Option<(Value, usize)>)
    requires
        at <= wire@.len(),
    ensures
        match parse_value(wire@.subrange(at as int, wire@.len() as int)) {
            Some((value, used)) => read matches Some((found, next)) && found@ == value && next
                == at + used && at + 9 <= next <= wire@.len(),
            None => read is None,
        },
{
    let ghost tail = wire@.subrange(at as int, wire@.len() as int);
    if at >= wire.len() {
        return None;
    }
    let tag = wire[at];
    let from = at + 1;
    assert(tail.subrange(1, tail.len() as int) =~= wire@.subrange(from as int, wire@.len() as int));
    if tag == TAG_BYTES {
        match read_blob(wire, from) {
            Some((bytes, next)) => Some((Value::Bytes(slice_to_vec(bytes)), next)),
            None => None,
        }
    } else if tag == TAG_UINT128 {
        if wire.len() - from < 16 {
            return None;
        }
        let number = u128_from_le_bytes(slice_subrange(wire, from, from + 16));
        assert(tail.subrange(1, tail.len() as int).subrange(0, 16) =~= wire@.subrange(
            from as int,
            from + 16,
        ));
        Some((Value::Uint128(number), from + 16))
    } else if tag == TAG_TEXT {
        match read_text(wire, from) {
            Some((text, next)) => Some((Value::Text(text), next)),
            None => None,
        }
    } else if tag == TAG_NATIVE {
        match read_blob(wire, from) {
            Some((bytes, next)) => Some(
                (Value::Address(Address::Native(AccountId::new(slice_to_vec(bytes)))), next),
            ),
            None => None,
        }
    } else if tag == TAG_FOREIGN {
        match read_text(wire, from) {
            Some((text, next)) => Some((Value::Address(Address::Foreign(text)), next)),
            None => None,
        }
    } else {
        None
    }
}

fn read_item(wire: &[u8], at: usize) -> (read: Option<(Item, usize)>)
    requires
        at <= wire@.len(),
    ensures
        match parse_item(wire@.subrange(at as int, wire@.len() as int)) {
            Some((item, used)) => read matches Some((found, next)) && found@ == item && next
                == at + used && at + 17 <= next <= wire@.len(),
            None => read is None,
        },
{
    let ghost tail = wire@.subrange(at as int, wire@.len() as int);
    match read_text(wire, at) {
        Some((key, from)) => {
            assert(tail.subrange(from - at, tail.len() as int) =~= wire@.subrange(
                from as int,
                wire@.len() as int,
            ));
            match read_value(wire, from) {
                Some((value, next)) => Some((Item { key, value }, next)),
                None => None,
            }
        },
        None => None,
    }
}

/// The body that `wire` carries: the one that `wire` is the encoding of.
/// Bytes that are the encoding of no body are refused: input that ends early,
/// an unknown tag, text that is not UTF-8.
pub fn decode(wire: &[u8]) -> (decoded: Result<Payload, Error>)
    ensures
        match parse_payload(wire@) {
            Some(items) => decoded matches Ok(payload) && payload@ == items,
            None => decoded matches Err(error) && error == Error::CodecError,
        },
        decoded matches Ok(payload) ==> payload_fits(payload@) && payload_wire(payload@) == wire@,
        decoded is Err ==> forall|items: Seq<ItemView>|
            payload_fits(items) ==> #[trigger] payload_wire(items) != wire@,
{
    proof {
        lemma_encode_decode(wire@);
        if parse_payload(wire@) is None {
            assert forall|items: Seq<ItemView>| payload_fits(items) implies #[trigger] payload_wire(
                items,
            ) != wire@ by {
                lemma_decode_encode(items);
            }
        }
    }
    let mut items: Vec<Item> = Vec::new();
    let mut at: usize = 0;
    assert(wire@.subrange(0, wire@.len() as int) =~= wire@);
    while at < wire.len()
        invariant
            at <= wire@.len(),
            parse_payload(wire@) is None ==> forall|items: Seq<ItemView>|
                payload_fits(items) ==> #[trigger] payload_wire(items) != wire@,
            parse_payload(wire@) == match parse_payload(
                wire@.subrange(at as int, wire@.len() as int),
            ) {
                Some(rest) => Some(items@.map_values(|item: Item| item@) + rest),
                None => None,
            },
        decreases wire@.len() - at,
    {
        let ghost tail = wire@.subrange(at as int, wire@.len() as int);
        let ghost done = items@.map_values(|item: Item| item@);
        match read_item(wire, at) {
            Some((item, next)) => {
                proof {
                    let after = wire@.subrange(next as int, wire@.len() as int);
                    assert(tail.subrange(next - at, tail.len() as int) =~= after);
                    assert(items@.push(item).map_values(|item: Item| item@) =~= done.push(item@));
                    if let Some(rest) = parse_payload(after) {
                        assert(done.push(item@) + rest =~= done + (seq![item@] + rest));
                    }
                }
                items.push(item);
                at = next;
            },
            None => {
                return Err(Error::CodecError);
            },
        }
    }
    let payload = Payload { items };
    assert(payload@ + Seq::<ItemView>::empty() =~= payload@);
    Ok(payload)
}

/// A body that starts with `first` is encoded as `first` followed by the
/// encoding of the rest.
pub proof fn lemma_payload_wire_front(first: ItemView, rest: Seq<ItemView>)
    ensures
        payload_wire(seq![first] + rest) == item_wire(first) + payload_wire(rest),
    decreases rest.len(),
{
    let all = seq![first] + rest;
    if rest.len() == 0 {
        assert(all.drop_last() =~= rest);
        assert(all.last() == first);
        assert(payload_wire(rest) =~= Seq::<u8>::empty());
        assert(payload_wire(all) =~= item_wire(first));
        assert(payload_wire(rest) =~= Seq::<u8>::empty());
        assert(item_wire(first) + payload_wire(rest) =~= item_wire(first));
    } else {
        assert(all.drop_last() =~= seq![first] + rest.drop_last());
        assert(all.last() == rest.last());
        lemma_payload_wire_front(first, rest.drop_last());
        assert(payload_wire(all) =~= item_wire(first) + payload_wire(rest));
    }
}

proof fn lemma_blob_round_trip(bytes: Seq<u8>, tail: Seq<u8>)
    requires
        bytes.len() <= u64::MAX,
    ensures
        parse_blob(blob_wire(bytes) + tail) == Some((bytes, 8 + bytes.len() as int)),
        blob_wire(bytes).len() == 8 + bytes.len(),
{
    lemma_auto_spec_u64_to_from_le_bytes();
    let head = spec_u64_to_le_bytes(bytes.len() as u64);
    let wire = blob_wire(bytes) + tail;
    assert(wire.subrange(0, 8) =~= head);
    assert(wire.subrange(8, 8 + bytes.len() as int) =~= bytes);
}

proof fn lemma_text_round_trip(text: Seq<char>, tail: Seq<u8>)
    requires
        encode_utf8(text).len() <= u64::MAX,
    ensures
        parse_text(text_wire(text) + tail) == Some((text, 8 + encode_utf8(text).len() as int)),
        text_wire(text).len() == 8 + encode_utf8(text).len(),
{
    lemma_blob_round_trip(encode_utf8(text), tail);
    encode_utf8_valid_utf8(text);
    encode_utf8_decode_utf8(text);
}

proof fn lemma_value_round_trip(value: ValueView, tail: Seq<u8>)
    requires
        value_fits(value),
    ensures
        parse_value(value_wire(value) + tail) == Some((value, value_wire(value).len() as int)),
{
    let wire = value_wire(value) + tail;
    let body = wire.subrange(1, wire.len() as int);
    match value {
        ValueView::Bytes(bytes) => {
            lemma_blob_round_trip(bytes, tail);
            assert(body =~= blob_wire(bytes) + tail);
        },
        ValueView::Uint128(number) => {
            lemma_auto_spec_u128_to_from_le_bytes();
            assert(body =~= spec_u128_to_le_bytes(number) + tail);
            assert(body.subrange(0, 16) =~= spec_u128_to_le_bytes(number));
        },
        ValueView::Text(text) => {
            lemma_text_round_trip(text, tail);
            assert(body =~= text_wire(text) + tail);
        },
        ValueView::Address(AddressView::Native(account)) => {
            lemma_blob_round_trip(account, tail);
            assert(body =~= blob_wire(account) + tail);
        },
        ValueView::Address(AddressView::Foreign(text)) => {
            lemma_text_round_trip(text, tail);
            assert(body =~= text_wire(text) + tail);
        },
    }
}

proof fn lemma_item_round_trip(item: ItemView, tail: Seq<u8>)
    requires
        item_fits(item),
    ensures
        parse_item(item_wire(item) + tail) == Some((item, item_wire(item).len() as int)),
        item_wire(item).len() > 0,
{
    let wire = item_wire(item) + tail;
    let key_wire = text_wire(item.key);
    assert(wire =~= key_wire + (value_wire(item.value) + tail));
    lemma_text_round_trip(item.key, value_wire(item.value) + tail);
    assert(wire.subrange(key_wire.len() as int, wire.len() as int) =~= value_wire(item.value)
        + tail);
    lemma_value_round_trip(item.value, tail);
}

/// Decoding undoes encoding: the bytes that carry a body carry that body and
/// no other.
pub proof fn lemma_decode_encode(items: Seq<ItemView>)
    requires
        payload_fits(items),
    ensures
        parse_payload(payload_wire(items)) == Some(items),
    decreases items.len(),
{
    if items.len() == 0 {
        assert(items =~= Seq::<ItemView>::empty());
    } else {
        let first = items[0];
        let rest = items.drop_first();
        assert(items =~= seq![first] + rest);
        lemma_payload_wire_front(first, rest);
        let wire = payload_wire(items);
        lemma_item_round_trip(first, payload_wire(rest));
        let used = item_wire(first).len() as int;
        assert(wire.subrange(used, wire.len() as int) =~= payload_wire(rest));
        assert(payload_fits(rest)) by {
            assert forall|at: int| 0 <= at < rest.len() implies item_fits(
                #[trigger] rest[at],
            ) by {
                assert(rest[at] == items[at + 1]);
            }
        }
        lemma_decode_encode(rest);
    }
}

proof fn lemma_blob_canonical(wire: Seq<u8>)
    ensures
        parse_blob(wire) matches Some((bytes, used)) ==> {
            &&& bytes.len() <= u64::MAX
            &&& used == 8 + bytes.len()
            &&& used <= wire.len()
            &&& wire.subrange(0, used) == blob_wire(bytes)
        },
{
    if let Some((bytes, used)) = parse_blob(wire) {
        lemma_auto_spec_u64_to_from_le_bytes();
        let head = wire.subrange(0, 8);
        let length = spec_u64_from_le_bytes(head);
        assert(spec_u64_to_le_bytes(length) == head);
        assert(bytes.len() == length);
        assert(wire.subrange(0, used) =~= head + bytes);
    }
}

proof fn lemma_text_canonical(wire: Seq<u8>)
    ensures
        parse_text(wire) matches Some((text, used)) ==> {
            &&& encode_utf8(text).len() <= u64::MAX
            &&& used == 8 + encode_utf8(text).len()
            &&& used <= wire.len()
            &&& wire.subrange(0, used) == text_wire(text)
        },
{
    if let Some((text, used)) = parse_text(wire) {
        lemma_blob_canonical(wire);
        let bytes = parse_blob(wire).unwrap().0;
        decode_utf8_encode_utf8(bytes);
    }
}

proof fn lemma_value_canonical(wire: Seq<u8>)
    ensures
        parse_value(wire) matches Some((value, used)) ==> {
            &&& value_fits(value)
            &&& 0 < used <= wire.len()
            &&& wire.subrange(0, used) == value_wire(value)
        },
{
    if let Some((value, used)) = parse_value(wire) {
        let body = wire.subrange(1, wire.len() as int);
        lemma_blob_canonical(body);
        lemma_text_canonical(body);
        lemma_auto_spec_u128_to_from_le_bytes();
        assert(wire.subrange(0, used) =~= seq![wire[0]] + body.subrange(0, used - 1));
    }
}

proof fn lemma_item_canonical(wire: Seq<u8>)
    ensures
        parse_item(wire) matches Some((item, used)) ==> {
            &&& item_fits(item)
            &&& 0 < used <= wire.len()
            &&& wire.subrange(0, used) == item_wire(item)
        },
{
    if let Some((item, used)) = parse_item(wire) {
        lemma_text_canonical(wire);
        let key_used = parse_text(wire).unwrap().1;
        let after = wire.subrange(key_used, wire.len() as int);
        lemma_value_canonical(after);
        assert(wire.subrange(0, used) =~= wire.subrange(0, key_used) + after.subrange(
            0,
            used - key_used,
        ));
    }
}

/// Encoding is canonical: bytes that carry a body are the encoding of that
/// body, so no two byte strings carry the same body and decoding fails only on
/// bytes that no body is encoded to.
pub proof fn lemma_encode_decode(wire: Seq<u8>)
    ensures
        parse_payload(wire) matches Some(items) ==> payload_fits(items) && payload_wire(items)
            == wire,
    decreases wire.len(),
{
    if let Some(items) = parse_payload(wire) {
        if wire.len() == 0 {
            assert(payload_wire(items) =~= wire);
        } else {
            lemma_item_canonical(wire);
            let (first, used) = parse_item(wire).unwrap();
            let after = wire.subrange(used, wire.len() as int);
            lemma_encode_decode(after);
            let rest = parse_payload(after).unwrap();
            assert(items == seq![first] + rest);
            lemma_payload_wire_front(first, rest);
            assert(wire =~= wire.subrange(0, used) + after);
            assert(payload_fits(items)) by {
                assert forall|at: int| 0 <= at < items.len() implies item_fits(
                    #[trigger] items[at],
                ) by {
                    if at > 0 {
                        assert(items[at] == rest[at - 1]);
                    }
                }
            }
        }
    }
}

/// No two bodies share an encoding.
pub proof fn lemma_encode_injective(a: Seq<ItemView>, b: Seq<ItemView>)
    requires
        payload_fits(a),
        payload_fits(b),
        payload_wire(a) == payload_wire(b),
    ensures
        a == b,
{
    lemma_decode_encode(a);
    lemma_decode_encode(b);
}

} // verus!
