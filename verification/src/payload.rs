//! The body of a cross-chain call: an ordered list of named, typed items.

use vstd::prelude::*;
use crate::account::AccountId;

verus! {

/// An address carried in a message body.
#[derive(Debug, PartialEq, Eq)]
pub enum Address {
    /// An account of the chain that reads the message.
    Native(AccountId),
    /// An address of some other chain, kept as the text it was given in.
    Foreign(String),
}

/// What an [`Address`] stands for.
pub enum AddressView {
    Native(Seq<u8>),
    Foreign(Seq<char>),
}

impl View for Address {
    type V = AddressView;

    open spec fn view(&self) -> AddressView {
        match *self {
            Address::Native(account) => AddressView::Native(account@),
            Address::Foreign(text) => AddressView::Foreign(text@),
        }
    }
}

impl Clone for Address {
    fn clone(&self) -> (copy: Address)
        ensures
            copy@ == self@,
    {
        match self {
            Address::Native(account) => Address::Native(account.clone()),
            Address::Foreign(text) => Address::Foreign(text.clone()),
        }
    }
}

/// The value of one item.
#[derive(Debug, PartialEq, Eq)]
pub enum Value {
    Bytes(Vec<u8>),
    Uint128(u128),
    Text(String),
    Address(Address),
}

/// What a [`Value`] stands for.
pub enum ValueView {
    Bytes(Seq<u8>),
    Uint128(u128),
    Text(Seq<char>),
    Address(AddressView),
}

impl View for Value {
    type V = ValueView;

    open spec fn view(&self) -> ValueView {
        match *self {
            Value::Bytes(bytes) => ValueView::Bytes(bytes@),
            Value::Uint128(number) => ValueView::Uint128(number),
            Value::Text(text) => ValueView::Text(text@),
            Value::Address(address) => ValueView::Address(address@),
        }
    }
}

impl Clone for Value {
    fn clone(&self) -> (copy: Value)
        ensures
            copy@ == self@,
    {
        match self {
            Value::Bytes(bytes) => Value::Bytes(bytes.clone()),
            Value::Uint128(number) => Value::Uint128(*number),
            Value::Text(text) => Value::Text(text.clone()),
            Value::Address(address) => Value::Address(address.clone()),
        }
    }
}

/// A named value.
#[derive(Debug, PartialEq, Eq)]
pub struct Item {
    pub key: String,
    pub value: Value,
}

/// What an [`Item`] stands for.
pub struct ItemView {
    pub key: Seq<char>,
    pub value: ValueView,
}

impl View for Item {
    type V = ItemView;

    open spec fn view(&self) -> ItemView {
        ItemView { key: self.key@, value: self.value@ }
    }
}

/// Whether `items[at]` is the first item of `items` named `key`.
pub open spec fn first_named(items: Seq<ItemView>, key: Seq<char>, at: int) -> bool {
    &&& 0 <= at < items.len()
    &&& items[at].key == key
    &&& forall|before: int| 0 <= before < at ==> (#[trigger] items[before]).key != key
}

/// Whether some item of `items` is named `key`.
pub open spec fn has_key(items: Seq<ItemView>, key: Seq<char>) -> bool {
    exists|at: int| first_named(items, key, at)
}

/// The value of the first item of `items` named `key`, if there is one.
pub open spec fn value_of(items: Seq<ItemView>, key: Seq<char>) -> Option<ValueView> {
    if has_key(items, key) {
        Some(items[choose|at: int| first_named(items, key, at)].value)
    } else {
        None
    }
}

/// Whether no two items of `items` share a name.
pub open spec fn keys_unique(items: Seq<ItemView>) -> bool {
    forall|i: int, j: int|
        0 <= i < j < items.len() ==> (#[trigger] items[i]).key != (#[trigger] items[j]).key
}

/// A message body. Items keep the order in which they were pushed, and that
/// order is part of the encoding.
#[derive(Debug, PartialEq, Eq)]
pub struct Payload {
    pub items: Vec<Item>,
}

impl View for Payload {
    type V = Seq<ItemView>;

    open spec fn view(&self) -> Seq<ItemView> {
        self.items@.map_values(|item: Item| item@)
    }
}

impl Payload {
    /// The empty body.
    pub fn new() -> (payload: Payload)
        ensures
            payload@ == Seq::<ItemView>::empty(),
    {
        let payload = Payload { items: Vec::new() };
        assert(payload@ =~= Seq::<ItemView>::empty());
        payload
    }

    /// The number of items.
    pub fn len(&self) -> (n: usize)
        ensures
            n == self@.len(),
    {
        self.items.len()
    }

    /// Appends an item named `key`. Nothing is checked against the items
    /// already there: a second item of the same name stays behind the first.
    pub fn push_item(&mut self, key: String, value: Value)
        ensures
            final(self)@ == old(self)@.push(ItemView { key: key@, value: value@ }),
    {
        let ghost added = ItemView { key: key@, value: value@ };
        self.items.push(Item { key, value });
        assert(self@ =~= old(self)@.push(added));
    }

    /// The value of the first item named `key`, if there is one.
    pub fn get_item(&self, key: &String) -> (found: Option<&Value>)
        ensures
            match found {
                Some(value) => value_of(self@, key@) == Some(value@),
                None => value_of(self@, key@) is None,
            },
    {
        let mut i: usize = 0;
        while i < self.items.len()
            invariant
                i <= self.items@.len(),
                forall|before: int| 0 <= before < i ==> self@[before].key != key@,
            decreases self.items@.len() - i,
        {
            if self.items[i].key == *key {
                proof {
                    assert(first_named(self@, key@, i as int));
                    let chosen = choose|at: int| first_named(self@, key@, at);
                    if chosen < i {
                        assert(self@[chosen].key == key@);
                    }
                    if i < chosen {
                        assert(self@[i as int].key == key@);
                    }
                }
                return Some(&self.items[i].value);
            }
            i += 1;
        }
        None
    }
}

impl Clone for Payload {
    fn clone(&self) -> (copy: Payload)
        ensures
            copy@ == self@,
    {
        let mut items: Vec<Item> = Vec::new();
        let mut i: usize = 0;
        while i < self.items.len()
            invariant
                i <= self.items@.len(),
                items@.len() == i,
                forall|j: int| 0 <= j < i ==> items@[j]@ == self.items@[j]@,
            decreases self.items@.len() - i,
        {
            let item = &self.items[i];
            items.push(Item { key: item.key.clone(), value: item.value.clone() });
            i += 1;
        }
        let copy = Payload { items };
        assert(copy@ =~= self@);
        copy
    }
}

} // verus!
