use locker::account::AccountId;
use locker::codec::{decode, encode};
use locker::error::Error;
use locker::payload::{Address, Item, Payload, Value};

fn le64(n: u64) -> Vec<u8> {
    n.to_le_bytes().to_vec()
}

fn key_wire(key: &str) -> Vec<u8> {
    let mut wire = le64(key.len() as u64);
    wire.extend_from_slice(key.as_bytes());
    wire
}

#[test]
fn round_trip_of_two_items() {
    let mut payload = Payload::new();
    payload.push_item("to".to_string(), Value::Text("alice.near".to_string()));
    payload.push_item("num".to_string(), Value::Uint128(30));
    let wire = encode(&payload);
    assert_eq!(decode(&wire), Ok(payload));
}

#[test]
fn round_trip_of_every_kind_of_value() {
    let mut payload = Payload::new();
    payload.push_item("bytes".to_string(), Value::Bytes(vec![0, 1, 2, 255]));
    payload.push_item("none".to_string(), Value::Bytes(vec![]));
    payload.push_item("max".to_string(), Value::Uint128(u128::MAX));
    payload.push_item("zero".to_string(), Value::Uint128(0));
    payload.push_item("text".to_string(), Value::Text("héllo ✓ 𝄞".to_string()));
    payload.push_item(
        "native".to_string(),
        Value::Address(Address::Native(AccountId::new(vec![7; 32]))),
    );
    payload.push_item(
        "foreign".to_string(),
        Value::Address(Address::Foreign("0xABCDEF".to_string())),
    );
    payload.push_item("".to_string(), Value::Text("".to_string()));
    let wire = encode(&payload);
    let back = decode(&wire).unwrap();
    assert_eq!(back, payload);
    assert_eq!(back.len(), 8);
}

#[test]
fn empty_body_is_no_bytes() {
    let payload = Payload::new();
    assert_eq!(encode(&payload), Vec::<u8>::new());
    assert_eq!(decode(&[]), Ok(Payload::new()));
}

#[test]
fn wire_of_a_byte_string() {
    let mut payload = Payload::new();
    payload.push_item("to".to_string(), Value::Bytes(vec![1, 2]));
    let expected: Vec<u8> = vec![
        2, 0, 0, 0, 0, 0, 0, 0, b't', b'o', // name
        0, // tag
        2, 0, 0, 0, 0, 0, 0, 0, 1, 2, // bytes
    ];
    assert_eq!(encode(&payload), expected);
}

#[test]
fn wire_of_a_number() {
    let mut payload = Payload::new();
    payload.push_item("num".to_string(), Value::Uint128(0x0102_0304));
    let mut expected = key_wire("num");
    expected.push(1);
    expected.extend_from_slice(&[4, 3, 2, 1, 0, 0, 0, 0, 0, 0, 0, 0, 0, 0, 0, 0]);
    assert_eq!(encode(&payload), expected);
}

#[test]
fn wire_of_text_counts_bytes_not_characters() {
    let mut payload = Payload::new();
    payload.push_item("t".to_string(), Value::Text("é".to_string()));
    let mut expected = key_wire("t");
    expected.push(2);
    expected.extend_from_slice(&le64(2));
    expected.extend_from_slice(&[0xc3, 0xa9]);
    assert_eq!(encode(&payload), expected);
}

#[test]
fn wire_of_addresses_tells_native_from_foreign() {
    let mut native = Payload::new();
    native.push_item("a".to_string(), Value::Address(Address::Native(AccountId::new(vec![0x41]))));
    let mut foreign = Payload::new();
    foreign.push_item("a".to_string(), Value::Address(Address::Foreign("A".to_string())));
    let mut expected_native = key_wire("a");
    expected_native.push(3);
    expected_native.extend_from_slice(&le64(1));
    expected_native.push(0x41);
    let mut expected_foreign = key_wire("a");
    expected_foreign.push(4);
    expected_foreign.extend_from_slice(&le64(1));
    expected_foreign.push(0x41);
    assert_eq!(encode(&native), expected_native);
    assert_eq!(encode(&foreign), expected_foreign);
    assert_eq!(decode(&expected_native), Ok(native));
    assert_eq!(decode(&expected_foreign), Ok(foreign));
}

#[test]
fn a_native_address_is_not_a_byte_string() {
    let mut bytes = Payload::new();
    bytes.push_item("a".to_string(), Value::Bytes(vec![9, 9]));
    let mut native = Payload::new();
    native.push_item("a".to_string(), Value::Address(Address::Native(AccountId::new(vec![9, 9]))));
    assert_ne!(encode(&bytes), encode(&native));
    assert_ne!(decode(&encode(&bytes)), decode(&encode(&native)));
}

#[test]
fn items_keep_their_order_on_the_wire() {
    let mut first = Payload::new();
    first.push_item("a".to_string(), Value::Uint128(1));
    first.push_item("b".to_string(), Value::Uint128(2));
    let mut second = Payload::new();
    second.push_item("b".to_string(), Value::Uint128(2));
    second.push_item("a".to_string(), Value::Uint128(1));
    assert_ne!(encode(&first), encode(&second));
    assert_eq!(decode(&encode(&first)).unwrap().items[0].key, "a");
    assert_eq!(decode(&encode(&second)).unwrap().items[0].key, "b");
}

#[test]
fn a_name_pushed_twice_stays_twice() {
    let mut payload = Payload::new();
    payload.push_item("k".to_string(), Value::Uint128(1));
    payload.push_item("k".to_string(), Value::Uint128(2));
    assert_eq!(payload.len(), 2);
    assert_eq!(payload.get_item(&"k".to_string()), Some(&Value::Uint128(1)));
    let back = decode(&encode(&payload)).unwrap();
    assert_eq!(back, payload);
    assert_eq!(back.get_item(&"k".to_string()), Some(&Value::Uint128(1)));
}

#[test]
fn get_item_of_a_name_that_is_not_there() {
    let mut payload = Payload::new();
    payload.push_item("to".to_string(), Value::Uint128(1));
    assert_eq!(payload.get_item(&"num".to_string()), None);
    assert_eq!(Payload::new().get_item(&"to".to_string()), None);
}

#[test]
fn push_item_appends() {
    let mut payload = Payload::new();
    payload.push_item("x".to_string(), Value::Bytes(vec![1]));
    payload.push_item("y".to_string(), Value::Text("z".to_string()));
    assert_eq!(
        payload.items,
        vec![
            Item { key: "x".to_string(), value: Value::Bytes(vec![1]) },
            Item { key: "y".to_string(), value: Value::Text("z".to_string()) },
        ]
    );
}

#[test]
fn decode_refuses_input_that_ends_early() {
    let mut payload = Payload::new();
    payload.push_item("to".to_string(), Value::Bytes(vec![1, 2, 3]));
    payload.push_item("num".to_string(), Value::Uint128(5));
    let wire = encode(&payload);
    for cut in 1..wire.len() {
        let decoded = decode(&wire[..cut]);
        if cut == 22 {
            // the first item alone is a body
            assert_eq!(decoded.unwrap().len(), 1);
        } else {
            assert_eq!(decoded, Err(Error::CodecError));
        }
    }
}

#[test]
fn decode_refuses_an_unknown_tag() {
    let mut wire = key_wire("k");
    wire.push(5);
    wire.extend_from_slice(&le64(0));
    assert_eq!(decode(&wire), Err(Error::CodecError));
    wire[9] = 255;
    assert_eq!(decode(&wire), Err(Error::CodecError));
    wire[9] = 0;
    assert_eq!(decode(&wire).unwrap().items[0].value, Value::Bytes(vec![]));
}

#[test]
fn decode_refuses_text_that_is_not_utf8() {
    let mut bad_key = le64(1);
    bad_key.push(0xff);
    bad_key.push(1);
    bad_key.extend_from_slice(&[0; 16]);
    assert_eq!(decode(&bad_key), Err(Error::CodecError));

    let mut bad_text = key_wire("k");
    bad_text.push(2);
    bad_text.extend_from_slice(&le64(2));
    bad_text.extend_from_slice(&[0xc3, 0x28]);
    assert_eq!(decode(&bad_text), Err(Error::CodecError));

    // a surrogate, written as three bytes
    let mut surrogate = key_wire("k");
    surrogate.push(4);
    surrogate.extend_from_slice(&le64(3));
    surrogate.extend_from_slice(&[0xed, 0xa0, 0x80]);
    assert_eq!(decode(&surrogate), Err(Error::CodecError));
}

#[test]
fn decode_refuses_a_length_beyond_the_input() {
    let mut wire = key_wire("k");
    wire.push(0);
    wire.extend_from_slice(&le64(u64::MAX));
    wire.extend_from_slice(&[1, 2, 3]);
    assert_eq!(decode(&wire), Err(Error::CodecError));
    let mut key_too_long = le64(4);
    key_too_long.extend_from_slice(b"abc");
    assert_eq!(decode(&key_too_long), Err(Error::CodecError));
}

#[test]
fn decode_refuses_a_short_number() {
    let mut wire = key_wire("num");
    wire.push(1);
    wire.extend_from_slice(&[0; 15]);
    assert_eq!(decode(&wire), Err(Error::CodecError));
    wire.push(0);
    assert_eq!(decode(&wire).unwrap().items[0].value, Value::Uint128(0));
}

#[test]
fn what_decodes_encodes_to_the_same_bytes() {
    let mut wire = key_wire("to");
    wire.push(4);
    wire.extend_from_slice(&le64(3));
    wire.extend_from_slice(b"abc");
    wire.extend_from_slice(&key_wire("num"));
    wire.push(1);
    wire.extend_from_slice(&77u128.to_le_bytes());
    let payload = decode(&wire).unwrap();
    assert_eq!(encode(&payload), wire);
    assert_eq!(payload.get_item(&"num".to_string()), Some(&Value::Uint128(77)));
}

#[test]
fn clones_are_equal() {
    let mut payload = Payload::new();
    payload.push_item("a".to_string(), Value::Address(Address::Foreign("x".to_string())));
    payload.push_item("b".to_string(), Value::Bytes(vec![3]));
    assert_eq!(payload.clone(), payload);
}
