//! Wire values and native values.

use crate::dynamo::attribute_value::AttributeValueType;
use crate::number::Number;
use vstd::prelude::*;
use vstd::string::*;

verus! {

/// A tagged wire value, as the store holds it. A map is held as the list of
/// its entries.
#[derive(Debug, PartialEq, Eq)]
pub enum AttributeValue {
    B(Vec<u8>),
    Bool(bool),
    Bs(Vec<Vec<u8>>),
    L(Vec<AttributeValue>),
    M(Vec<(String, AttributeValue)>),
    N(String),
    Ns(Vec<String>),
    Null(bool),
    S(String),
    Ss(Vec<String>),
}

/// What a wire value holds.
pub enum Wire {
    B(Seq<u8>),
    Bool(bool),
    Bs(Seq<Seq<u8>>),
    L(Seq<Wire>),
    M(Seq<(Seq<char>, Wire)>),
    N(Seq<char>),
    Ns(Seq<Seq<char>>),
    Null(bool),
    S(Seq<char>),
    Ss(Seq<Seq<char>>),
}

impl View for AttributeValue {
    type V = Wire;

    open spec fn view(&self) -> Wire {
        wire_of(*self)
    }
}

/// What a wire value holds.
pub open spec fn wire_of(value: AttributeValue) -> Wire
    decreases value,
{
    match value {
        AttributeValue::B(bytes) => Wire::B(bytes@),
        AttributeValue::Bool(b) => Wire::Bool(b),
        AttributeValue::Bs(items) => Wire::Bs(Seq::new(items@.len(), |i: int| items@[i]@)),
        AttributeValue::L(items) => Wire::L(
            Seq::new(
                items@.len(),
                |i: int|
                    if 0 <= i < items@.len() {
                        wire_of(items@[i])
                    } else {
                        Wire::Null(true)
                    },
            ),
        ),
        AttributeValue::M(entries) => Wire::M(
            Seq::new(
                entries@.len(),
                |i: int|
                    if 0 <= i < entries@.len() {
                        (entries@[i].0@, wire_of(entries@[i].1))
                    } else {
                        (Seq::empty(), Wire::Null(true))
                    },
            ),
        ),
        AttributeValue::N(text) => Wire::N(text@),
        AttributeValue::Ns(items) => Wire::Ns(Seq::new(items@.len(), |i: int| items@[i]@)),
        AttributeValue::Null(b) => Wire::Null(b),
        AttributeValue::S(text) => Wire::S(text@),
        AttributeValue::Ss(items) => Wire::Ss(Seq::new(items@.len(), |i: int| items@[i]@)),
    }
}


impl Wire {
    /// The tag of the value.
    pub open spec fn tag(self) -> AttributeValueType {
        match self {
            Wire::B(_) => AttributeValueType::B,
            Wire::Bool(_) => AttributeValueType::Bool,
            Wire::Bs(_) => AttributeValueType::Bs,
            Wire::L(_) => AttributeValueType::L,
            Wire::M(_) => AttributeValueType::M,
            Wire::N(_) => AttributeValueType::N,
            Wire::Ns(_) => AttributeValueType::Ns,
            Wire::Null(_) => AttributeValueType::Null,
            Wire::S(_) => AttributeValueType::S,
            Wire::Ss(_) => AttributeValueType::Ss,
        }
    }
}

/// A native value, as a record holds it. A map is held as the list of its
/// entries, a record as the list of the values of its fields.
#[derive(Debug, PartialEq, Eq)]
pub enum Value {
    Number(Number),
    Text(String),
    Binary(Vec<u8>),
    Bool(bool),
    /// A flag that is present or absent.
    Null(Option<()>),
    List(Vec<Value>),
    Mapping(Vec<(String, Value)>),
    Record(Vec<Value>),
}

/// What a native value holds.
pub enum Native {
    Number(int),
    Text(Seq<char>),
    Binary(Seq<u8>),
    Bool(bool),
    /// A flag, by whether it is absent.
    Null(bool),
    List(Seq<Native>),
    Mapping(Seq<(Seq<char>, Native)>),
    Record(Seq<Native>),
}

impl View for Value {
    type V = Native;

    open spec fn view(&self) -> Native {
        native_of(*self)
    }
}

/// What a native value holds.
pub open spec fn native_of(value: Value) -> Native
    decreases value,
{
    match value {
        Value::Number(number) => Native::Number(number@),
        Value::Text(text) => Native::Text(text@),
        Value::Binary(bytes) => Native::Binary(bytes@),
        Value::Bool(b) => Native::Bool(b),
        Value::Null(flag) => Native::Null(flag is None),
        Value::List(items) => Native::List(
            Seq::new(
                items@.len(),
                |i: int|
                    if 0 <= i < items@.len() {
                        native_of(items@[i])
                    } else {
                        Native::Null(true)
                    },
            ),
        ),
        Value::Mapping(entries) => Native::Mapping(
            Seq::new(
                entries@.len(),
                |i: int|
                    if 0 <= i < entries@.len() {
                        (entries@[i].0@, native_of(entries@[i].1))
                    } else {
                        (Seq::empty(), Native::Null(true))
                    },
            ),
        ),
        Value::Record(values) => Native::Record(
            Seq::new(
                values@.len(),
                |i: int|
                    if 0 <= i < values@.len() {
                        native_of(values@[i])
                    } else {
                        Native::Null(true)
                    },
            ),
        ),
    }
}

/// What each of `values` holds.
pub open spec fn natives(values: Seq<Value>) -> Seq<Native> {
    Seq::new(values.len(), |i: int| values[i]@)
}

/// What each of `entries` holds, under its key.
pub open spec fn native_entries(entries: Seq<(String, Value)>) -> Seq<(Seq<char>, Native)> {
    Seq::new(entries.len(), |i: int| (entries[i].0@, entries[i].1@))
}

/// What each of `values` holds.
pub open spec fn wires(values: Seq<AttributeValue>) -> Seq<Wire> {
    Seq::new(values.len(), |i: int| values[i]@)
}

/// What each of `entries` holds, under its key.
pub open spec fn wire_entries(entries: Seq<(String, AttributeValue)>) -> Seq<(Seq<char>, Wire)> {
    Seq::new(entries.len(), |i: int| (entries[i].0@, entries[i].1@))
}

/// What each of `texts` holds.
pub open spec fn text_views(texts: Seq<String>) -> Seq<Seq<char>> {
    Seq::new(texts.len(), |i: int| texts[i]@)
}

/// What each of `blobs` holds.
pub open spec fn blob_views(blobs: Seq<Vec<u8>>) -> Seq<Seq<u8>> {
    Seq::new(blobs.len(), |i: int| blobs[i]@)
}

/// The views of the variants, over the views of what they hold.
pub proof fn lemma_views(wire: AttributeValue, value: Value)
    ensures
        wire matches AttributeValue::L(items) ==> wire@ == Wire::L(wires(items@)),
        wire matches AttributeValue::M(entries) ==> wire@ == Wire::M(wire_entries(entries@)),
        wire matches AttributeValue::Ns(items) ==> wire@ == Wire::Ns(text_views(items@)),
        wire matches AttributeValue::Ss(items) ==> wire@ == Wire::Ss(text_views(items@)),
        wire matches AttributeValue::Bs(items) ==> wire@ == Wire::Bs(blob_views(items@)),
        value matches Value::List(items) ==> value@ == Native::List(natives(items@)),
        value matches Value::Mapping(entries) ==> value@ == Native::Mapping(
            native_entries(entries@),
        ),
        value matches Value::Record(values) ==> value@ == Native::Record(natives(values@)),
{
    match wire {
        AttributeValue::L(items) => {
            assert(wire@->L_0 =~= wires(items@));
        },
        AttributeValue::M(entries) => {
            assert(wire@->M_0.len() == entries@.len());
            assert forall|i: int| 0 <= i < entries@.len() implies wire@->M_0[i] == wire_entries(
                entries@,
            )[i] by {
                assert(wire@->M_0[i] == (entries@[i].0@, entries@[i].1@));
            }
            assert(wire@->M_0 =~= wire_entries(entries@));
        },
        AttributeValue::Ns(items) => {
            assert(wire@->Ns_0 =~= text_views(items@));
        },
        AttributeValue::Ss(items) => {
            assert(wire@->Ss_0 =~= text_views(items@));
        },
        AttributeValue::Bs(items) => {
            assert(wire@->Bs_0 =~= blob_views(items@));
        },
        _ => {},
    }
    match value {
        Value::List(items) => {
            assert(value@->List_0 =~= natives(items@));
        },
        Value::Mapping(entries) => {
            assert(value@->Mapping_0.len() == entries@.len());
            assert forall|i: int| 0 <= i < entries@.len() implies value@->Mapping_0[i]
                == native_entries(entries@)[i] by {
                assert(value@->Mapping_0[i] == (entries@[i].0@, entries@[i].1@));
            }
            assert(value@->Mapping_0 =~= native_entries(entries@));
        },
        Value::Record(values) => {
            assert(value@->Record_0 =~= natives(values@));
        },
        _ => {},
    }
}


/// Copies binary data.
pub fn copy_bytes(bytes: &Vec<u8>) -> (copy: Vec<u8>)
    ensures
        copy@ == bytes@,
{
    let mut copy: Vec<u8> = Vec::new();
    let mut i: usize = 0;
    while i < bytes.len()
        invariant
            i <= bytes@.len(),
            copy@ == bytes@.take(i as int),
        decreases bytes@.len() - i,
    {
        copy.push(bytes[i]);
        i += 1;
        assert(bytes@.take(i as int) =~= bytes@.take(i - 1).push(bytes@[i - 1]));
    }
    assert(bytes@.take(bytes@.len() as int) =~= bytes@);
    copy
}

/// Copies a list of texts.
pub fn copy_texts(texts: &Vec<String>) -> (copy: Vec<String>)
    ensures
        text_views(copy@) == text_views(texts@),
{
    let mut copy: Vec<String> = Vec::new();
    let mut i: usize = 0;
    while i < texts.len()
        invariant
            i <= texts@.len(),
            copy@.len() == i,
            forall|j: int| 0 <= j < i ==> copy@[j]@ == texts@[j]@,
        decreases texts@.len() - i,
    {
        copy.push(texts[i].clone());
        i += 1;
    }
    assert(text_views(copy@) =~= text_views(texts@));
    copy
}

/// Copies a list of binary data.
pub fn copy_blobs(blobs: &Vec<Vec<u8>>) -> (copy: Vec<Vec<u8>>)
    ensures
        blob_views(copy@) == blob_views(blobs@),
{
    let mut copy: Vec<Vec<u8>> = Vec::new();
    let mut i: usize = 0;
    while i < blobs.len()
        invariant
            i <= blobs@.len(),
            copy@.len() == i,
            forall|j: int| 0 <= j < i ==> copy@[j]@ == blobs@[j]@,
        decreases blobs@.len() - i,
    {
        copy.push(copy_bytes(&blobs[i]));
        i += 1;
    }
    assert(blob_views(copy@) =~= blob_views(blobs@));
    copy
}

impl AttributeValue {
    /// The tag of the value.
    pub fn wire_tag(&self) -> (tag: AttributeValueType)
        ensures
            tag == self@.tag(),
    {
        match self {
            AttributeValue::B(_) => AttributeValueType::B,
            AttributeValue::Bool(_) => AttributeValueType::Bool,
            AttributeValue::Bs(_) => AttributeValueType::Bs,
            AttributeValue::L(_) => AttributeValueType::L,
            AttributeValue::M(_) => AttributeValueType::M,
            AttributeValue::N(_) => AttributeValueType::N,
            AttributeValue::Ns(_) => AttributeValueType::Ns,
            AttributeValue::Null(_) => AttributeValueType::Null,
            AttributeValue::S(_) => AttributeValueType::S,
            AttributeValue::Ss(_) => AttributeValueType::Ss,
        }
    }

    /// A copy of the value that holds what the value holds.
    #[verifier::loop_isolation(false)]
    pub fn duplicate(&self) -> (copy: AttributeValue)
        ensures
            copy@ == self@,
        decreases self,
    {
        proof {
            lemma_views(*self, Value::Bool(true));
        }
        let copy = match self {
            AttributeValue::B(bytes) => AttributeValue::B(copy_bytes(bytes)),
            AttributeValue::Bool(b) => AttributeValue::Bool(*b),
            AttributeValue::Bs(items) => AttributeValue::Bs(copy_blobs(items)),
            AttributeValue::L(items) => {
                let mut copies: Vec<AttributeValue> = Vec::new();
                let mut i: usize = 0;
                while i < items.len()
                    invariant
                        i <= items@.len(),
                        copies@.len() == i,
                        forall|j: int| 0 <= j < i ==> copies@[j]@ == items@[j]@,
                    decreases items@.len() - i,
                {
                    copies.push(items[i].duplicate());
                    i += 1;
                }
                assert(wires(copies@) =~= wires(items@));
                AttributeValue::L(copies)
            },
            AttributeValue::M(entries) => {
                let mut copies: Vec<(String, AttributeValue)> = Vec::new();
                let mut i: usize = 0;
                while i < entries.len()
                    invariant
                        i <= entries@.len(),
                        copies@.len() == i,
                        forall|j: int|
                            0 <= j < i ==> copies@[j].0@ == entries@[j].0@ && copies@[j].1@
                                == entries@[j].1@,
                    decreases entries@.len() - i,
                {
                    copies.push((entries[i].0.clone(), entries[i].1.duplicate()));
                    i += 1;
                }
                assert(wire_entries(copies@) =~= wire_entries(entries@));
                AttributeValue::M(copies)
            },
            AttributeValue::N(text) => AttributeValue::N(text.clone()),
            AttributeValue::Ns(items) => AttributeValue::Ns(copy_texts(items)),
            AttributeValue::Null(b) => AttributeValue::Null(*b),
            AttributeValue::S(text) => AttributeValue::S(text.clone()),
            AttributeValue::Ss(items) => AttributeValue::Ss(copy_texts(items)),
        };
        proof {
            lemma_views(copy, Value::Bool(true));
        }
        copy
    }
}

} // verus!
