//! What the conversions between records and wire maps compute.

use crate::ast::ty::IntKind;
use crate::dynamo::attribute_value::AttributeValueType;
use crate::code::same_text;
use crate::number::{decimal, lemma_decimal_round_trip, number_value, Number};
use crate::util::{pascal_case, to_pascal_case};
use crate::value::{
    blob_views, copy_bytes, lemma_views, native_entries, natives, text_views, wire_entries,
    wires, AttributeValue, Native, Value, Wire,
};
use vstd::prelude::*;
use vstd::string::*;

verus! {

/// The layout of a value: its shape, with the fields of every embedded
/// record spelled out.
#[derive(Debug, PartialEq, Eq)]
pub enum Layout {
    Number(IntKind),
    Text,
    Binary,
    Bool,
    /// A flag that is present or absent.
    Null,
    List(Box<Layout>),
    /// A map with text keys.
    Mapping(Box<Layout>),
    /// A record, by the names and layouts of its fields.
    Record(Vec<(String, Layout)>),
}

/// What a layout holds.
pub enum LayoutView {
    Number(IntKind),
    Text,
    Binary,
    Bool,
    Null,
    List(Box<LayoutView>),
    Mapping(Box<LayoutView>),
    /// A record, by the names and layouts of its fields.
    Record(Seq<(Seq<char>, LayoutView)>),
}

impl View for Layout {
    type V = LayoutView;

    open spec fn view(&self) -> LayoutView {
        layout_view(*self)
    }
}

/// What a layout holds.
pub open spec fn layout_view(layout: Layout) -> LayoutView
    decreases layout,
{
    match layout {
        Layout::Number(kind) => LayoutView::Number(kind),
        Layout::Text => LayoutView::Text,
        Layout::Binary => LayoutView::Binary,
        Layout::Bool => LayoutView::Bool,
        Layout::Null => LayoutView::Null,
        Layout::List(element) => LayoutView::List(Box::new(layout_view(*element))),
        Layout::Mapping(inner) => LayoutView::Mapping(Box::new(layout_view(*inner))),
        Layout::Record(fields) => LayoutView::Record(
            Seq::new(
                fields@.len(),
                |i: int|
                    if 0 <= i < fields@.len() {
                        (fields@[i].0@, layout_view(fields@[i].1))
                    } else {
                        (Seq::empty(), LayoutView::Null)
                    },
            ),
        ),
    }
}

/// What the fields of a record hold: their names and layouts.
pub open spec fn field_layouts(fields: Seq<(String, Layout)>) -> Seq<(Seq<char>, LayoutView)> {
    Seq::new(fields.len(), |i: int| (fields[i].0@, fields[i].1@))
}

/// The views of the variants, over the views of what they hold.
pub proof fn lemma_layout_view(layout: Layout)
    ensures
        layout matches Layout::List(element) ==> layout@ == LayoutView::List(Box::new((*element)@)),
        layout matches Layout::Mapping(inner) ==> layout@ == LayoutView::Mapping(
            Box::new((*inner)@),
        ),
        layout matches Layout::Record(fields) ==> layout@ == LayoutView::Record(
            field_layouts(fields@),
        ),
        layout matches Layout::Number(kind) ==> layout@ == LayoutView::Number(kind),
        layout is Text ==> layout@ is Text,
        layout is Binary ==> layout@ is Binary,
        layout is Bool ==> layout@ is Bool,
        layout is Null ==> layout@ is Null,
{
    match layout {
        Layout::Record(fields) => {
            assert(layout@->Record_0 =~= field_layouts(fields@));
        },
        _ => {},
    }
}

/// The wire attribute names of `fields`, in their order.
pub open spec fn attribute_names(fields: Seq<(Seq<char>, LayoutView)>) -> Seq<Seq<char>> {
    Seq::new(fields.len(), |i: int| pascal_case(fields[i].0))
}

impl LayoutView {
    /// The wire tag of a value of this layout.
    pub open spec fn tag(self) -> AttributeValueType
        decreases self,
    {
        match self {
            LayoutView::Number(_) => AttributeValueType::N,
            LayoutView::Text => AttributeValueType::S,
            LayoutView::Binary => AttributeValueType::B,
            LayoutView::Bool => AttributeValueType::Bool,
            LayoutView::Null => AttributeValueType::Null,
            LayoutView::List(element) => element.tag().plural(),
            LayoutView::Mapping(_) => AttributeValueType::M,
            LayoutView::Record(_) => AttributeValueType::M,
        }
    }

    /// No record, at any depth, has two fields with one wire attribute name.
    pub open spec fn wf(self) -> bool
        decreases self,
    {
        match self {
            LayoutView::List(element) => element.wf(),
            LayoutView::Mapping(value) => value.wf(),
            LayoutView::Record(fields) => fields_wf(fields),
            _ => true,
        }
    }
}

/// No two of `fields` share a wire attribute name, and the layout of each
/// is well formed.
pub open spec fn fields_wf(fields: Seq<(Seq<char>, LayoutView)>) -> bool
    decreases fields,
{
    &&& attribute_names(fields).no_duplicates()
    &&& forall|i: int| 0 <= i < fields.len() ==> (#[trigger] fields[i]).1.wf()
}

/// Whether a native value has the given layout: a number is one of its
/// integer type, a list holds values of one layout, a record holds one value
/// for every field.
pub open spec fn typed(layout: LayoutView, value: Native) -> bool
    decreases layout,
{
    match layout {
        LayoutView::Number(kind) => value matches Native::Number(i) && kind.holds(i),
        LayoutView::Text => value is Text,
        LayoutView::Binary => value is Binary,
        LayoutView::Bool => value is Bool,
        LayoutView::Null => value is Null,
        LayoutView::List(element) => value matches Native::List(items) && forall|i: int|
            0 <= i < items.len() ==> typed(*element, #[trigger] items[i]),
        LayoutView::Mapping(inner) => value matches Native::Mapping(entries) && forall|i: int|
            0 <= i < entries.len() ==> typed(*inner, (#[trigger] entries[i]).1),
        LayoutView::Record(fields) => value matches Native::Record(values) && fields_typed(
            fields,
            values,
        ),
    }
}

/// Whether `values` are the values of `fields`, one for each.
pub open spec fn fields_typed(fields: Seq<(Seq<char>, LayoutView)>, values: Seq<Native>) -> bool
    decreases fields,
{
    &&& values.len() == fields.len()
    &&& forall|i: int| 0 <= i < fields.len() ==> typed(fields[i].1, #[trigger] values[i])
}

/// The decimal text of each of `items`, which are numbers.
pub open spec fn decimals(items: Seq<Native>) -> Seq<Seq<char>> {
    Seq::new(items.len(), |i: int| decimal(items[i]->Number_0))
}

/// The text of each of `items`, which are text.
pub open spec fn texts_of(items: Seq<Native>) -> Seq<Seq<char>> {
    Seq::new(items.len(), |i: int| items[i]->Text_0)
}

/// The bytes of each of `items`, which are binary data.
pub open spec fn blobs_of(items: Seq<Native>) -> Seq<Seq<u8>> {
    Seq::new(items.len(), |i: int| items[i]->Binary_0)
}

/// The wire value that a native value of the given layout travels as.
pub open spec fn encoded(layout: LayoutView, value: Native) -> Wire
    decreases layout, 0nat,
{
    match layout {
        LayoutView::Number(_) => Wire::N(decimal(value->Number_0)),
        LayoutView::Text => Wire::S(value->Text_0),
        LayoutView::Binary => Wire::B(value->Binary_0),
        LayoutView::Bool => Wire::Bool(value->Bool_0),
        LayoutView::Null => Wire::Null(value->Null_0),
        LayoutView::List(element) => match element.tag() {
            AttributeValueType::N => Wire::Ns(decimals(value->List_0)),
            AttributeValueType::S => Wire::Ss(texts_of(value->List_0)),
            AttributeValueType::B => Wire::Bs(blobs_of(value->List_0)),
            _ => Wire::L(encoded_items(*element, value->List_0)),
        },
        LayoutView::Mapping(inner) => Wire::M(encoded_entries(*inner, value->Mapping_0)),
        LayoutView::Record(fields) => Wire::M(encoded_fields(fields, value->Record_0)),
    }
}

/// The wire values of the elements of a list, in their order.
pub open spec fn encoded_items(element: LayoutView, items: Seq<Native>) -> Seq<Wire>
    decreases element, 1nat,
{
    Seq::new(items.len(), |i: int| encoded(element, items[i]))
}

/// The wire entries of a map: every value encoded, under its key as it is.
pub open spec fn encoded_entries(inner: LayoutView, entries: Seq<(Seq<char>, Native)>) -> Seq<
    (Seq<char>, Wire),
>
    decreases inner, 1nat,
{
    Seq::new(entries.len(), |i: int| (entries[i].0, encoded(inner, entries[i].1)))
}

/// The wire map of a record: one entry for every field, in the order of the
/// fields, under the field's wire attribute name.
pub open spec fn encoded_fields(fields: Seq<(Seq<char>, LayoutView)>, values: Seq<Native>) -> Seq<
    (Seq<char>, Wire),
>
    decreases fields,
{
    Seq::new(
        fields.len(),
        |i: int|
            if 0 <= i < fields.len() {
                (pascal_case(fields[i].0), encoded(fields[i].1, values[i]))
            } else {
                (Seq::empty(), Wire::Null(true))
            },
    )
}

/// The value under `key` in a wire map: that of the first entry with the
/// key.
pub open spec fn lookup(entries: Seq<(Seq<char>, Wire)>, key: Seq<char>) -> Option<Wire>
    decreases entries.len(),
{
    if entries.len() == 0 {
        None
    } else if entries[0].0 == key {
        Some(entries[0].1)
    } else {
        lookup(entries.drop_first(), key)
    }
}

/// All of `results` if none is a failure, and the first failure otherwise.
pub open spec fn collect<T>(results: Seq<Result<T, Wire>>) -> Result<Seq<T>, Wire>
    decreases results.len(),
{
    if results.len() == 0 {
        Ok(Seq::empty())
    } else {
        match collect(results.drop_last()) {
            Err(e) => Err(e),
            Ok(front) => match results.last() {
                Err(e) => Err(e),
                Ok(v) => Ok(front.push(v)),
            },
        }
    }
}

/// The number that one element of a number set spells; a null value is the
/// failure where it spells none.
pub open spec fn number_of(text: Seq<char>, kind: IntKind) -> Result<Native, Wire> {
    match number_value(text, kind) {
        Some(i) => Ok(Native::Number(i)),
        None => Err(Wire::Null(true)),
    }
}

/// What each element of a number set is read as.
pub open spec fn numbers_of(texts: Seq<Seq<char>>, kind: IntKind) -> Seq<Result<Native, Wire>> {
    Seq::new(texts.len(), |i: int| number_of(texts[i], kind))
}

/// The elements of a text set as native values.
pub open spec fn text_items(texts: Seq<Seq<char>>) -> Seq<Native> {
    Seq::new(texts.len(), |i: int| Native::Text(texts[i]))
}

/// The elements of a binary set as native values.
pub open spec fn binary_items(blobs: Seq<Seq<u8>>) -> Seq<Native> {
    Seq::new(blobs.len(), |i: int| Native::Binary(blobs[i]))
}

/// `values` under the keys of `entries`, one for one.
pub open spec fn keyed(entries: Seq<(Seq<char>, Wire)>, values: Seq<Native>) -> Seq<
    (Seq<char>, Native),
> {
    Seq::new(entries.len(), |i: int| (entries[i].0, values[i]))
}

/// The native value that a wire value is read as under the given layout, or
/// the failure: the wire value that carries the wrong tag, at whatever depth
/// it stands, and a null value where text spells no number, where an
/// attribute is missing and where an embedded record fails.
pub open spec fn decoded(layout: LayoutView, wire: Wire) -> Result<Native, Wire>
    decreases layout, 0nat,
{
    match layout {
        LayoutView::Number(kind) => match wire {
            Wire::N(text) => number_of(text, kind),
            _ => Err(wire),
        },
        LayoutView::Text => match wire {
            Wire::S(text) => Ok(Native::Text(text)),
            _ => Err(wire),
        },
        LayoutView::Binary => match wire {
            Wire::B(bytes) => Ok(Native::Binary(bytes)),
            _ => Err(wire),
        },
        LayoutView::Bool => match wire {
            Wire::Bool(b) => Ok(Native::Bool(b)),
            _ => Err(wire),
        },
        LayoutView::Null => match wire {
            Wire::Null(absent) => Ok(Native::Null(absent)),
            _ => Err(wire),
        },
        LayoutView::List(element) => match element.tag() {
            AttributeValueType::N => match wire {
                Wire::Ns(texts) => match collect(numbers_of(texts, element->Number_0)) {
                    Ok(items) => Ok(Native::List(items)),
                    Err(e) => Err(e),
                },
                _ => Err(wire),
            },
            AttributeValueType::S => match wire {
                Wire::Ss(texts) => Ok(Native::List(text_items(texts))),
                _ => Err(wire),
            },
            AttributeValueType::B => match wire {
                Wire::Bs(blobs) => Ok(Native::List(binary_items(blobs))),
                _ => Err(wire),
            },
            _ => match wire {
                Wire::L(items) => match collect(decoded_items(*element, items)) {
                    Ok(values) => Ok(Native::List(values)),
                    Err(e) => Err(e),
                },
                _ => Err(wire),
            },
        },
        LayoutView::Mapping(inner) => match wire {
            Wire::M(entries) => match collect(decoded_values(*inner, entries)) {
                Ok(values) => Ok(Native::Mapping(keyed(entries, values))),
                Err(e) => Err(e),
            },
            _ => Err(wire),
        },
        LayoutView::Record(fields) => match wire {
            Wire::M(entries) => match decoded_fields(fields, entries) {
                Ok(values) => Ok(Native::Record(values)),
                Err(_) => Err(Wire::Null(true)),
            },
            _ => Err(wire),
        },
    }
}

/// What each element of a list is read as.
pub open spec fn decoded_items(element: LayoutView, items: Seq<Wire>) -> Seq<Result<Native, Wire>>
    decreases element, 1nat,
{
    Seq::new(items.len(), |i: int| decoded(element, items[i]))
}

/// What the value of each entry of a map is read as.
pub open spec fn decoded_values(inner: LayoutView, entries: Seq<(Seq<char>, Wire)>) -> Seq<
    Result<Native, Wire>,
>
    decreases inner, 1nat,
{
    Seq::new(entries.len(), |i: int| decoded(inner, entries[i].1))
}

/// What the field at `i` is read as from a wire map: a null value is the
/// failure where the map has no entry under the field's wire attribute name.
pub open spec fn decoded_field(fields: Seq<(Seq<char>, LayoutView)>, entries: Seq<(Seq<char>, Wire)>, i: int)
    -> Result<Native, Wire>
    decreases fields, 0nat,
{
    if 0 <= i < fields.len() {
        match lookup(entries, pascal_case(fields[i].0)) {
            None => Err(Wire::Null(true)),
            Some(wire) => decoded(fields[i].1, wire),
        }
    } else {
        Err(Wire::Null(true))
    }
}

/// What each field of a record is read as from a wire map.
pub open spec fn field_results(fields: Seq<(Seq<char>, LayoutView)>, entries: Seq<(Seq<char>, Wire)>)
    -> Seq<Result<Native, Wire>>
    decreases fields, 1nat,
{
    Seq::new(fields.len(), |i: int| decoded_field(fields, entries, i))
}

/// The values of the fields of a record, read from its wire map in the
/// order of the fields: all of them, or the failure of the first field that
/// fails.
pub open spec fn decoded_fields(fields: Seq<(Seq<char>, LayoutView)>, entries: Seq<(Seq<char>, Wire)>)
    -> Result<Seq<Native>, Wire>
    decreases fields, 2nat,
{
    collect(field_results(fields, entries))
}

/// Where every result is a success, all of them are collected.
pub proof fn lemma_collect_ok<T>(results: Seq<Result<T, Wire>>, values: Seq<T>)
    requires
        results.len() == values.len(),
        forall|i: int| 0 <= i < results.len() ==> results[i] == Ok::<T, Wire>(values[i]),
    ensures
        collect(results) == Ok::<Seq<T>, Wire>(values),
    decreases results.len(),
{
    if results.len() == 0 {
        assert(values =~= Seq::empty());
    } else {
        lemma_collect_ok(results.drop_last(), values.drop_last());
        assert(values =~= values.drop_last().push(values.last()));
    }
}

/// One more result is collected behind those before it, unless one of them
/// failed.
pub proof fn lemma_collect_step<T>(results: Seq<Result<T, Wire>>, i: int)
    requires
        0 <= i < results.len(),
    ensures
        collect(results.take(i + 1)) == match collect(results.take(i)) {
            Err(e) => Err(e),
            Ok(front) => match results[i] {
                Err(e) => Err(e),
                Ok(v) => Ok(front.push(v)),
            },
        },
{
    assert(results.take(i + 1).drop_last() =~= results.take(i));
}

/// Nothing is collected from no results, and everything from all of them.
pub proof fn lemma_collect_ends<T>(results: Seq<Result<T, Wire>>)
    ensures
        collect(results.take(0)) == Ok::<Seq<T>, Wire>(Seq::empty()),
        collect(results.take(results.len() as int)) == collect(results),
{
    assert(results.take(0) =~= Seq::empty());
    assert(results.take(results.len() as int) =~= results);
}

/// A failure among the first results is the failure of all of them.
pub proof fn lemma_collect_failure<T>(results: Seq<Result<T, Wire>>, k: int)
    requires
        0 <= k <= results.len(),
        collect(results.take(k)) is Err,
    ensures
        collect(results) == collect(results.take(k)),
    decreases results.len(),
{
    if k == results.len() {
        assert(results.take(k) =~= results);
    } else {
        assert(results.drop_last().take(k) =~= results.take(k));
        lemma_collect_failure(results.drop_last(), k);
    }
}

/// Only a number has the tag of a number, only text that of text, only
/// binary data that of binary data.
pub proof fn lemma_scalar_layout(layout: LayoutView)
    ensures
        layout.tag() == AttributeValueType::N <==> layout is Number,
        layout.tag() == AttributeValueType::S <==> layout is Text,
        layout.tag() == AttributeValueType::B <==> layout is Binary,
{
}

/// Where keys are distinct, every entry is found under its key.
pub proof fn lemma_lookup_distinct(entries: Seq<(Seq<char>, Wire)>, i: int)
    requires
        0 <= i < entries.len(),
        forall|a: int, b: int|
            0 <= a < b < entries.len() ==> (#[trigger] entries[a]).0 != (#[trigger] entries[b]).0,
    ensures
        lookup(entries, entries[i].0) == Some(entries[i].1),
    decreases i,
{
    if i > 0 {
        let rest = entries.drop_first();
        assert(entries[0].0 != entries[i].0);
        assert forall|a: int, b: int| 0 <= a < b < rest.len() implies (#[trigger] rest[a]).0 != (
        #[trigger] rest[b]).0 by {
            assert(rest[a] == entries[a + 1]);
            assert(rest[b] == entries[b + 1]);
        }
        lemma_lookup_distinct(rest, i - 1);
    }
}

/// A wire value carries the tag of the layout it was encoded under.
pub proof fn lemma_encoded_tag(layout: LayoutView, value: Native)
    ensures
        encoded(layout, value).tag() == layout.tag(),
{
    match layout {
        LayoutView::List(element) => {
            lemma_scalar_layout(*element);
        },
        _ => {},
    }
}

/// A wire value with another tag than the layout's is refused, and is
/// itself the failure.
pub proof fn lemma_mismatched_tag(layout: LayoutView, wire: Wire)
    requires
        wire.tag() != layout.tag(),
    ensures
        decoded(layout, wire) == Err::<Native, Wire>(wire),
{
    match layout {
        LayoutView::List(element) => {
            lemma_scalar_layout(*element);
        },
        _ => {},
    }
}

/// Encoding and decoding are inverse: a native value that has the layout
/// is read back, from the wire value it travels as, as itself. Numbers,
/// text, binary data, booleans and flags, lists of them at any depth, maps
/// at any depth with their keys as they were, and embedded records.
pub proof fn lemma_round_trip(layout: LayoutView, value: Native)
    requires
        layout.wf(),
        typed(layout, value),
    ensures
        decoded(layout, encoded(layout, value)) == Ok::<Native, Wire>(value),
    decreases layout,
{
    match layout {
        LayoutView::Number(kind) => {
            lemma_decimal_round_trip(value->Number_0, kind);
        },
        LayoutView::List(element) => {
            let items = value->List_0;
            lemma_scalar_layout(*element);
            match element.tag() {
                AttributeValueType::N => {
                    let kind = element->Number_0;
                    let results = numbers_of(decimals(items), kind);
                    assert forall|i: int| 0 <= i < results.len() implies results[i] == Ok::<
                        Native,
                        Wire,
                    >(items[i]) by {
                        assert(typed(*element, items[i]));
                        lemma_decimal_round_trip(items[i]->Number_0, kind);
                    }
                    lemma_collect_ok(results, items);
                },
                AttributeValueType::S => {
                    assert forall|i: int| 0 <= i < items.len() implies text_items(
                        texts_of(items),
                    )[i] == items[i] by {
                        assert(typed(*element, items[i]));
                    }
                    assert(text_items(texts_of(items)) =~= items);
                },
                AttributeValueType::B => {
                    assert forall|i: int| 0 <= i < items.len() implies binary_items(
                        blobs_of(items),
                    )[i] == items[i] by {
                        assert(typed(*element, items[i]));
                    }
                    assert(binary_items(blobs_of(items)) =~= items);
                },
                _ => {
                    let results = decoded_items(*element, encoded_items(*element, items));
                    assert forall|i: int| 0 <= i < results.len() implies results[i] == Ok::<
                        Native,
                        Wire,
                    >(items[i]) by {
                        assert(typed(*element, items[i]));
                        lemma_round_trip(*element, items[i]);
                    }
                    lemma_collect_ok(results, items);
                },
            }
        },
        LayoutView::Mapping(inner) => {
            let entries = value->Mapping_0;
            let wires = encoded_entries(*inner, entries);
            let results = decoded_values(*inner, wires);
            let values = Seq::new(entries.len(), |i: int| entries[i].1);
            assert forall|i: int| 0 <= i < results.len() implies results[i] == Ok::<Native, Wire>(
                values[i],
            ) by {
                assert(typed(*inner, entries[i].1));
                lemma_round_trip(*inner, entries[i].1);
            }
            lemma_collect_ok(results, values);
            assert(keyed(wires, values) =~= entries);
        },
        LayoutView::Record(fields) => {
            lemma_fields_round_trip(fields, value->Record_0);
        },
        _ => {},
    }
}

/// A map travels as a wire map with the same keys, in the same order, each
/// over the encoding of its value.
pub proof fn lemma_map_keys(inner: LayoutView, value: Native)
    requires
        typed(LayoutView::Mapping(Box::new(inner)), value),
    ensures
        encoded(LayoutView::Mapping(Box::new(inner)), value) is M,
        encoded(LayoutView::Mapping(Box::new(inner)), value)->M_0.len()
            == value->Mapping_0.len(),
        forall|i: int|
            0 <= i < value->Mapping_0.len() ==> (#[trigger] encoded(
                LayoutView::Mapping(Box::new(inner)),
                value,
            )->M_0[i]) == (value->Mapping_0[i].0, encoded(inner, value->Mapping_0[i].1)),
{
}

/// The values of the fields of a record are read back from the wire map of
/// the record as themselves.
pub proof fn lemma_fields_round_trip(fields: Seq<(Seq<char>, LayoutView)>, values: Seq<Native>)
    requires
        fields_wf(fields),
        fields_typed(fields, values),
    ensures
        decoded_fields(fields, encoded_fields(fields, values)) == Ok::<Seq<Native>, Wire>(values),
    decreases fields,
{
    let entries = encoded_fields(fields, values);
    let results = field_results(fields, entries);
    assert forall|a: int, b: int| 0 <= a < b < entries.len() implies (#[trigger] entries[a]).0 != (
    #[trigger] entries[b]).0 by {
        assert(attribute_names(fields)[a] == entries[a].0);
        assert(attribute_names(fields)[b] == entries[b].0);
    }
    assert forall|i: int| 0 <= i < results.len() implies results[i] == Ok::<Native, Wire>(
        values[i],
    ) by {
        lemma_lookup_distinct(entries, i);
        assert(fields[i].1.wf());
        lemma_round_trip(fields[i].1, values[i]);
    }
    lemma_collect_ok(results, values);
}

/// The failure of the first field that fails is the failure of the record.
pub proof fn lemma_first_failing_field(
    fields: Seq<(Seq<char>, LayoutView)>,
    entries: Seq<(Seq<char>, Wire)>,
    i: int,
)
    requires
        0 <= i < fields.len(),
        forall|j: int| 0 <= j < i ==> #[trigger] decoded_field(fields, entries, j) is Ok,
        decoded_field(fields, entries, i) is Err,
    ensures
        decoded_fields(fields, entries) == Err::<Seq<Native>, Wire>(
            decoded_field(fields, entries, i)->Err_0,
        ),
{
    let results = field_results(fields, entries);
    assert forall|j: int| 0 <= j < i implies (#[trigger] results[j]) is Ok by {
        assert(decoded_field(fields, entries, j) is Ok);
    }
    assert(results[i] == decoded_field(fields, entries, i));
    lemma_collect_front(results, i);
    lemma_collect_step(results, i);
    lemma_collect_failure(results, i + 1);
}

proof fn lemma_collect_front<T>(results: Seq<Result<T, Wire>>, k: int)
    requires
        0 <= k <= results.len(),
        forall|j: int| 0 <= j < k ==> (#[trigger] results[j]) is Ok,
    ensures
        collect(results.take(k)) is Ok,
    decreases k,
{
    if k > 0 {
        lemma_collect_front(results, k - 1);
        lemma_collect_step(results, k - 1);
    } else {
        lemma_collect_ends(results);
    }
}

/// A wire map in which the value of one attribute carries the wrong tag is
/// refused with that very value, if every field before reads well. No
/// record comes out of it.
pub proof fn lemma_corrupted_attribute(
    fields: Seq<(Seq<char>, LayoutView)>,
    entries: Seq<(Seq<char>, Wire)>,
    i: int,
    wire: Wire,
)
    requires
        0 <= i < fields.len(),
        forall|j: int| 0 <= j < i ==> #[trigger] decoded_field(fields, entries, j) is Ok,
        lookup(entries, pascal_case(fields[i].0)) == Some(wire),
        wire.tag() != fields[i].1.tag(),
    ensures
        decoded_fields(fields, entries) == Err::<Seq<Native>, Wire>(wire),
{
    lemma_mismatched_tag(fields[i].1, wire);
    lemma_first_failing_field(fields, entries, i);
}


impl Layout {
    /// Computes the wire tag of a value of this layout.
    pub fn wire_tag(&self) -> (tag: AttributeValueType)
        ensures
            tag == self@.tag(),
        decreases self,
    {
        proof {
            lemma_layout_view(*self);
        }
        match self {
            Layout::Number(_) => AttributeValueType::N,
            Layout::Text => AttributeValueType::S,
            Layout::Binary => AttributeValueType::B,
            Layout::Bool => AttributeValueType::Bool,
            Layout::Null => AttributeValueType::Null,
            Layout::List(element) => element.wire_tag().to_plural(),
            Layout::Mapping(_) => AttributeValueType::M,
            Layout::Record(_) => AttributeValueType::M,
        }
    }
}

/// Finds the value under `key` in a wire map.
pub fn find<'a>(entries: &'a Vec<(String, AttributeValue)>, key: &str) -> (found: Option<
    &'a AttributeValue,
>)
    ensures
        match lookup(wire_entries(entries@), key@) {
            Some(wire) => found matches Some(value) && value@ == wire,
            None => found is None,
        },
{
    let ghost all = wire_entries(entries@);
    let mut i: usize = 0;
    assert(all.skip(0) =~= all);
    while i < entries.len()
        invariant
            i <= entries@.len(),
            all == wire_entries(entries@),
            lookup(all, key@) == lookup(all.skip(i as int), key@),
        decreases entries@.len() - i,
    {
        proof {
            assert(all.skip(i as int)[0] == all[i as int]);
            assert(all.skip(i as int).drop_first() =~= all.skip(i + 1));
        }
        if same_text(entries[i].0.as_str(), key) {
            return Some(&entries[i].1);
        }
        i += 1;
    }
    assert(all.skip(entries@.len() as int) =~= Seq::empty());
    None
}

/// Encodes a native value under a layout. A value that does not have the
/// layout has no encoding.
#[verifier::loop_isolation(false)]
pub fn encode(layout: &Layout, value: &Value) -> (res: Option<AttributeValue>)
    ensures
        res is Some <==> typed(layout@, value@),
        res matches Some(wire) ==> wire@ == encoded(layout@, value@),
    decreases layout, 0nat,
{
    proof {
        lemma_views(AttributeValue::Bool(true), *value);
        lemma_layout_view(*layout);
    }
    match layout {
        Layout::Number(kind) => match value {
            Value::Number(number) => {
                if number.fits(*kind) {
                    Some(AttributeValue::N(number.to_decimal()))
                } else {
                    None
                }
            },
            _ => None,
        },
        Layout::Text => match value {
            Value::Text(text) => Some(AttributeValue::S(text.clone())),
            _ => None,
        },
        Layout::Binary => match value {
            Value::Binary(bytes) => Some(AttributeValue::B(copy_bytes(bytes))),
            _ => None,
        },
        Layout::Bool => match value {
            Value::Bool(b) => Some(AttributeValue::Bool(*b)),
            _ => None,
        },
        Layout::Null => match value {
            Value::Null(flag) => Some(AttributeValue::Null(flag.is_none())),
            _ => None,
        },
        Layout::List(element) => {
            let items = match value {
                Value::List(items) => items,
                _ => {
                    return None;
                },
            };
            let ghost all = natives(items@);
            proof {
                lemma_scalar_layout((**element)@);
                lemma_layout_view(**element);
            }
            match element.wire_tag() {
                AttributeValueType::N => {
                    let kind = match &**element {
                        Layout::Number(kind) => *kind,
                        _ => {
                            return None;
                        },
                    };
                    let mut texts: Vec<String> = Vec::new();
                    let mut i: usize = 0;
                    while i < items.len()
                        invariant
                            i <= items@.len(),
                            texts@.len() == i,
                            forall|j: int| 0 <= j < i ==> typed((**element)@, #[trigger] all[j]),
                            forall|j: int| 0 <= j < i ==> texts@[j]@ == decimals(all)[j],
                        decreases items@.len() - i,
                    {
                        match &items[i] {
                            Value::Number(number) => {
                                if !number.fits(kind) {
                                    assert(!typed((**element)@, all[i as int]));
                                    return None;
                                }
                                texts.push(number.to_decimal());
                            },
                            _ => {
                                assert(!typed((**element)@, all[i as int]));
                                return None;
                            },
                        }
                        i += 1;
                    }
                    assert(text_views(texts@) =~= decimals(all));
                    let wire = AttributeValue::Ns(texts);
                    proof {
                        lemma_views(wire, *value);
                    }
                    Some(wire)
                },
                AttributeValueType::S => {
                    let mut texts: Vec<String> = Vec::new();
                    let mut i: usize = 0;
                    while i < items.len()
                        invariant
                            i <= items@.len(),
                            texts@.len() == i,
                            forall|j: int| 0 <= j < i ==> typed((**element)@, #[trigger] all[j]),
                            forall|j: int| 0 <= j < i ==> texts@[j]@ == texts_of(all)[j],
                        decreases items@.len() - i,
                    {
                        match &items[i] {
                            Value::Text(text) => {
                                texts.push(text.clone());
                            },
                            _ => {
                                assert(!typed((**element)@, all[i as int]));
                                return None;
                            },
                        }
                        i += 1;
                    }
                    assert(text_views(texts@) =~= texts_of(all));
                    let wire = AttributeValue::Ss(texts);
                    proof {
                        lemma_views(wire, *value);
                    }
                    Some(wire)
                },
                AttributeValueType::B => {
                    let mut blobs: Vec<Vec<u8>> = Vec::new();
                    let mut i: usize = 0;
                    while i < items.len()
                        invariant
                            i <= items@.len(),
                            blobs@.len() == i,
                            forall|j: int| 0 <= j < i ==> typed((**element)@, #[trigger] all[j]),
                            forall|j: int| 0 <= j < i ==> blobs@[j]@ == blobs_of(all)[j],
                        decreases items@.len() - i,
                    {
                        match &items[i] {
                            Value::Binary(bytes) => {
                                blobs.push(copy_bytes(bytes));
                            },
                            _ => {
                                assert(!typed((**element)@, all[i as int]));
                                return None;
                            },
                        }
                        i += 1;
                    }
                    assert(blob_views(blobs@) =~= blobs_of(all));
                    let wire = AttributeValue::Bs(blobs);
                    proof {
                        lemma_views(wire, *value);
                    }
                    Some(wire)
                },
                _ => {
                    let mut encodings: Vec<AttributeValue> = Vec::new();
                    let mut i: usize = 0;
                    while i < items.len()
                        invariant
                            i <= items@.len(),
                            encodings@.len() == i,
                            forall|j: int| 0 <= j < i ==> typed((**element)@, #[trigger] all[j]),
                            forall|j: int|
                                0 <= j < i ==> encodings@[j]@ == encoded_items((**element)@, all)[j],
                        decreases items@.len() - i,
                    {
                        match encode(element, &items[i]) {
                            Some(wire) => {
                                encodings.push(wire);
                            },
                            None => {
                                assert(!typed((**element)@, all[i as int]));
                                return None;
                            },
                        }
                        i += 1;
                    }
                    assert(wires(encodings@) =~= encoded_items((**element)@, all));
                    let wire = AttributeValue::L(encodings);
                    proof {
                        lemma_views(wire, *value);
                    }
                    Some(wire)
                },
            }
        },
        Layout::Mapping(inner) => {
            let entries = match value {
                Value::Mapping(entries) => entries,
                _ => {
                    return None;
                },
            };
            let ghost all = native_entries(entries@);
            let mut encodings: Vec<(String, AttributeValue)> = Vec::new();
            let mut i: usize = 0;
            while i < entries.len()
                invariant
                    i <= entries@.len(),
                    encodings@.len() == i,
                    forall|j: int| 0 <= j < i ==> typed((**inner)@, (#[trigger] all[j]).1),
                    forall|j: int|
                        0 <= j < i ==> (encodings@[j].0@, encodings@[j].1@) == encoded_entries(
                            (**inner)@,
                            all,
                        )[j],
                decreases entries@.len() - i,
            {
                match encode(inner, &entries[i].1) {
                    Some(wire) => {
                        encodings.push((entries[i].0.clone(), wire));
                    },
                    None => {
                        assert(!typed((**inner)@, all[i as int].1));
                        return None;
                    },
                }
                i += 1;
            }
            assert(wire_entries(encodings@) =~= encoded_entries((**inner)@, all));
            let wire = AttributeValue::M(encodings);
            proof {
                lemma_views(wire, *value);
            }
            Some(wire)
        },
        Layout::Record(fields) => {
            let values = match value {
                Value::Record(values) => values,
                _ => {
                    return None;
                },
            };
            match encode_record(fields, values) {
                Some(entries) => {
                    let wire = AttributeValue::M(entries);
                    proof {
                        lemma_views(wire, *value);
                    }
                    Some(wire)
                },
                None => None,
            }
        },
    }
}

/// Encodes a record into its wire map: one entry for every field, in the
/// order of the fields, under the field's wire attribute name. Values that
/// are not those of the fields have no encoding.
#[verifier::loop_isolation(false)]
pub fn encode_record(fields: &Vec<(String, Layout)>, values: &Vec<Value>) -> (res: Option<
    Vec<(String, AttributeValue)>,
>)
    ensures
        res is Some <==> fields_typed(field_layouts(fields@), natives(values@)),
        res matches Some(entries) ==> wire_entries(entries@) == encoded_fields(
            field_layouts(fields@),
            natives(values@),
        ),
    decreases fields, 1nat,
{
    let ghost all = natives(values@);
    if values.len() != fields.len() {
        return None;
    }
    let mut entries: Vec<(String, AttributeValue)> = Vec::new();
    let mut i: usize = 0;
    while i < fields.len()
        invariant
            i <= fields@.len(),
            entries@.len() == i,
            forall|j: int| 0 <= j < i ==> typed(fields@[j].1@, #[trigger] all[j]),
            forall|j: int|
                0 <= j < i ==> (entries@[j].0@, entries@[j].1@) == encoded_fields(field_layouts(fields@), all)[j],
        decreases fields@.len() - i,
    {
        match encode(&fields[i].1, &values[i]) {
            Some(wire) => {
                entries.push((to_pascal_case(fields[i].0.as_str()), wire));
            },
            None => {
                assert(!typed(fields@[i as int].1@, all[i as int]));
                return None;
            },
        }
        i += 1;
    }
    assert(wire_entries(entries@) =~= encoded_fields(field_layouts(fields@), all));
    Some(entries)
}

/// Decodes a wire value under a layout. The failure is a wire value: the one
/// that carries the wrong tag, at whatever depth it stands, or a null value
/// where text spells no number, where an attribute of an embedded record is
/// missing and where an embedded record fails.
#[verifier::loop_isolation(false)]
pub fn decode(layout: &Layout, wire: &AttributeValue) -> (res: Result<Value, AttributeValue>)
    ensures
        match decoded(layout@, wire@) {
            Ok(native) => res matches Ok(value) && value@ == native,
            Err(failure) => res matches Err(e) && e@ == failure,
        },
    decreases layout, 0nat,
{
    proof {
        lemma_views(*wire, Value::Bool(true));
        lemma_layout_view(*layout);
    }
    match layout {
        Layout::Number(kind) => match wire {
            AttributeValue::N(text) => match Number::parse(text.as_str(), *kind) {
                Some(number) => Ok(Value::Number(number)),
                None => Err(AttributeValue::Null(true)),
            },
            _ => Err(wire.duplicate()),
        },
        Layout::Text => match wire {
            AttributeValue::S(text) => Ok(Value::Text(text.clone())),
            _ => Err(wire.duplicate()),
        },
        Layout::Binary => match wire {
            AttributeValue::B(bytes) => Ok(Value::Binary(copy_bytes(bytes))),
            _ => Err(wire.duplicate()),
        },
        Layout::Bool => match wire {
            AttributeValue::Bool(b) => Ok(Value::Bool(*b)),
            _ => Err(wire.duplicate()),
        },
        Layout::Null => match wire {
            AttributeValue::Null(absent) => {
                if *absent {
                    Ok(Value::Null(None))
                } else {
                    Ok(Value::Null(Some(())))
                }
            },
            _ => Err(wire.duplicate()),
        },
        Layout::List(element) => {
            proof {
                lemma_scalar_layout((**element)@);
                lemma_layout_view(**element);
            }
            match element.wire_tag() {
                AttributeValueType::N => {
                    let kind = match &**element {
                        Layout::Number(kind) => *kind,
                        _ => {
                            return Err(wire.duplicate());
                        },
                    };
                    let texts = match wire {
                        AttributeValue::Ns(texts) => texts,
                        _ => {
                            return Err(wire.duplicate());
                        },
                    };
                    let ghost results = numbers_of(text_views(texts@), kind);
                    let mut items: Vec<Value> = Vec::new();
                    let mut i: usize = 0;
                    proof {
                        lemma_collect_ends(results);
                        assert(natives(items@) =~= Seq::empty());
                    }
                    while i < texts.len()
                        invariant
                            i <= texts@.len(),
                            collect(results.take(i as int)) == Ok::<Seq<Native>, Wire>(
                                natives(items@),
                            ),
                        decreases texts@.len() - i,
                    {
                        proof {
                            lemma_collect_step(results, i as int);
                        }
                        let ghost before = natives(items@);
                        match Number::parse(texts[i].as_str(), kind) {
                            Some(number) => {
                                items.push(Value::Number(number));
                                assert(natives(items@) =~= before.push(Native::Number(number@)));
                            },
                            None => {
                                proof {
                                    lemma_collect_failure(results, i + 1);
                                }
                                return Err(AttributeValue::Null(true));
                            },
                        }
                        i += 1;
                    }
                    proof {
                        lemma_collect_ends(results);
                    }
                    let value = Value::List(items);
                    proof {
                        lemma_views(*wire, value);
                    }
                    Ok(value)
                },
                AttributeValueType::S => {
                    let texts = match wire {
                        AttributeValue::Ss(texts) => texts,
                        _ => {
                            return Err(wire.duplicate());
                        },
                    };
                    let mut items: Vec<Value> = Vec::new();
                    let mut i: usize = 0;
                    while i < texts.len()
                        invariant
                            i <= texts@.len(),
                            items@.len() == i,
                            forall|j: int| 0 <= j < i ==> items@[j]@ == Native::Text(texts@[j]@),
                        decreases texts@.len() - i,
                    {
                        items.push(Value::Text(texts[i].clone()));
                        i += 1;
                    }
                    assert(natives(items@) =~= text_items(text_views(texts@)));
                    let value = Value::List(items);
                    proof {
                        lemma_views(*wire, value);
                    }
                    Ok(value)
                },
                AttributeValueType::B => {
                    let blobs = match wire {
                        AttributeValue::Bs(blobs) => blobs,
                        _ => {
                            return Err(wire.duplicate());
                        },
                    };
                    let mut items: Vec<Value> = Vec::new();
                    let mut i: usize = 0;
                    while i < blobs.len()
                        invariant
                            i <= blobs@.len(),
                            items@.len() == i,
                            forall|j: int| 0 <= j < i ==> items@[j]@ == Native::Binary(blobs@[j]@),
                        decreases blobs@.len() - i,
                    {
                        items.push(Value::Binary(copy_bytes(&blobs[i])));
                        i += 1;
                    }
                    assert(natives(items@) =~= binary_items(blob_views(blobs@)));
                    let value = Value::List(items);
                    proof {
                        lemma_views(*wire, value);
                    }
                    Ok(value)
                },
                _ => {
                    let elements = match wire {
                        AttributeValue::L(elements) => elements,
                        _ => {
                            return Err(wire.duplicate());
                        },
                    };
                    let ghost results = decoded_items((**element)@, wires(elements@));
                    let mut items: Vec<Value> = Vec::new();
                    let mut i: usize = 0;
                    proof {
                        lemma_collect_ends(results);
                        assert(natives(items@) =~= Seq::empty());
                    }
                    while i < elements.len()
                        invariant
                            i <= elements@.len(),
                            collect(results.take(i as int)) == Ok::<Seq<Native>, Wire>(
                                natives(items@),
                            ),
                        decreases elements@.len() - i,
                    {
                        proof {
                            lemma_collect_step(results, i as int);
                        }
                        let ghost before = natives(items@);
                        match decode(element, &elements[i]) {
                            Ok(item) => {
                                items.push(item);
                                assert(natives(items@) =~= before.push(item@));
                            },
                            Err(e) => {
                                proof {
                                    lemma_collect_failure(results, i + 1);
                                }
                                return Err(e);
                            },
                        }
                        i += 1;
                    }
                    proof {
                        lemma_collect_ends(results);
                    }
                    let value = Value::List(items);
                    proof {
                        lemma_views(*wire, value);
                    }
                    Ok(value)
                },
            }
        },
        Layout::Mapping(inner) => {
            let entries = match wire {
                AttributeValue::M(entries) => entries,
                _ => {
                    return Err(wire.duplicate());
                },
            };
            let ghost all = wire_entries(entries@);
            let ghost results = decoded_values((**inner)@, all);
            let mut decodings: Vec<(String, Value)> = Vec::new();
            let mut i: usize = 0;
            proof {
                lemma_collect_ends(results);
            }
            let ghost values: Seq<Native> = Seq::empty();
            while i < entries.len()
                invariant
                    i <= entries@.len(),
                    decodings@.len() == i,
                    values.len() == i,
                    collect(results.take(i as int)) == Ok::<Seq<Native>, Wire>(values),
                    forall|j: int|
                        0 <= j < i ==> (#[trigger] decodings@[j]).0@ == entries@[j].0@,
                    forall|j: int| 0 <= j < i ==> (#[trigger] decodings@[j]).1@ == values[j],
                decreases entries@.len() - i,
            {
                proof {
                    lemma_collect_step(results, i as int);
                }
                match decode(inner, &entries[i].1) {
                    Ok(value) => {
                        let ghost front = values;
                        let ghost done = decodings@;
                        proof {
                            values = values.push(value@);
                        }
                        decodings.push((entries[i].0.clone(), value));
                        assert forall|j: int| 0 <= j < i + 1 implies (#[trigger] decodings@[j]).1@
                            == values[j] by {
                            if j < i {
                                assert(decodings@[j] == done[j]);
                                assert(values[j] == front[j]);
                            }
                        }
                    },
                    Err(e) => {
                        proof {
                            lemma_collect_failure(results, i + 1);
                        }
                        return Err(e);
                    },
                }
                i += 1;
            }
            proof {
                lemma_collect_ends(results);
                assert(native_entries(decodings@) =~= keyed(all, values));
            }
            let value = Value::Mapping(decodings);
            proof {
                lemma_views(*wire, value);
            }
            Ok(value)
        },
        Layout::Record(fields) => {
            let entries = match wire {
                AttributeValue::M(entries) => entries,
                _ => {
                    return Err(wire.duplicate());
                },
            };
            match decode_record(fields, entries) {
                Ok(values) => {
                    let value = Value::Record(values);
                    proof {
                        lemma_views(*wire, value);
                    }
                    Ok(value)
                },
                Err(_) => Err(AttributeValue::Null(true)),
            }
        },
    }
}

/// Decodes the wire map of a record into the values of its fields, in the
/// order of the fields. It fails with the failure of the first field that
/// fails, which is the very wire value that carries a wrong tag, and hands
/// out no value then.
#[verifier::loop_isolation(false)]
pub fn decode_record(fields: &Vec<(String, Layout)>, entries: &Vec<(String, AttributeValue)>) -> (res:
    Result<Vec<Value>, AttributeValue>)
    ensures
        match decoded_fields(field_layouts(fields@), wire_entries(entries@)) {
            Ok(expected) => res matches Ok(values) && natives(values@) == expected,
            Err(failure) => res matches Err(e) && e@ == failure,
        },
    decreases fields, 1nat,
{
    let ghost all = wire_entries(entries@);
    let ghost results = field_results(field_layouts(fields@), all);
    let mut values: Vec<Value> = Vec::new();
    let mut i: usize = 0;
    proof {
        lemma_collect_ends(results);
        assert(natives(values@) =~= Seq::empty());
    }
    while i < fields.len()
        invariant
            i <= fields@.len(),
            collect(results.take(i as int)) == Ok::<Seq<Native>, Wire>(natives(values@)),
        decreases fields@.len() - i,
    {
        proof {
            lemma_collect_step(results, i as int);
        }
        let ghost before = natives(values@);
        let name = to_pascal_case(fields[i].0.as_str());
        let wire = match find(entries, name.as_str()) {
            Some(wire) => wire,
            None => {
                proof {
                    lemma_collect_failure(results, i + 1);
                }
                return Err(AttributeValue::Null(true));
            },
        };
        match decode(&fields[i].1, wire) {
            Ok(value) => {
                values.push(value);
                assert(natives(values@) =~= before.push(value@));
            },
            Err(e) => {
                proof {
                    lemma_collect_failure(results, i + 1);
                }
                return Err(e);
            },
        }
        i += 1;
    }
    proof {
        lemma_collect_ends(results);
    }
    Ok(values)
}


/// A list of lists travels as a generic list whose elements each carry the
/// tag of the inner list: the set of the scalar where the inner elements
/// are scalars, the generic list otherwise.
pub proof fn lemma_nested_list_tags(element: LayoutView, value: Native)
    requires
        typed(LayoutView::List(Box::new(LayoutView::List(Box::new(element)))), value),
    ensures
        encoded(LayoutView::List(Box::new(LayoutView::List(Box::new(element)))), value) is L,
        encoded(
            LayoutView::List(Box::new(LayoutView::List(Box::new(element)))),
            value,
        )->L_0.len() == value->List_0.len(),
        forall|i: int|
            0 <= i < value->List_0.len() ==> (#[trigger] encoded(
                LayoutView::List(Box::new(LayoutView::List(Box::new(element)))),
                value,
            )->L_0[i]).tag() == element.tag().plural(),
{
    let inner = LayoutView::List(Box::new(element));
    let outer = LayoutView::List(Box::new(inner));
    let items = value->List_0;
    lemma_scalar_layout(inner);
    assert(encoded(outer, value) == Wire::L(encoded_items(inner, items)));
    assert forall|i: int| 0 <= i < items.len() implies (#[trigger] encoded(outer, value)->L_0[i]).tag()
        == element.tag().plural() by {
        lemma_encoded_tag(inner, items[i]);
    }
}

/// Tells whether no two of `fields` share a wire attribute name.
#[verifier::loop_isolation(false)]
pub fn distinct_names(fields: &Vec<(String, Layout)>) -> (distinct: bool)
    ensures
        distinct == attribute_names(field_layouts(fields@)).no_duplicates(),
{
    let ghost names = attribute_names(field_layouts(fields@));
    let mut b: usize = 0;
    while b < fields.len()
        invariant
            b <= fields@.len(),
            forall|i: int, j: int| 0 <= i < j < b ==> names[i] != names[j],
        decreases fields@.len() - b,
    {
        let name = to_pascal_case(fields[b].0.as_str());
        assert(name@ == names[b as int]);
        let mut a: usize = 0;
        while a < b
            invariant
                a <= b,
                forall|i: int| 0 <= i < a ==> names[i] != names[b as int],
            decreases b - a,
        {
            let other = to_pascal_case(fields[a].0.as_str());
            assert(other@ == names[a as int]);
            if same_text(other.as_str(), name.as_str()) {
                assert(!names.no_duplicates());
                return false;
            }
            a += 1;
        }
        b += 1;
    }
    assert(names.no_duplicates()) by {
        assert forall|i: int, j: int| 0 <= i < names.len() && 0 <= j < names.len() && i
            != j implies names[i] != names[j] by {
            if i < j {
                assert(names[i] != names[j]);
            } else {
                assert(names[j] != names[i]);
            }
        }
    }
    true
}

impl Layout {
    /// Tells whether no record of the layout, at any depth, has two fields
    /// with one wire attribute name. Values of such a layout come back from
    /// their encoding as they were.
    pub fn is_wf(&self) -> (wf: bool)
        ensures
            wf == self@.wf(),
        decreases self, 0nat,
    {
        proof {
            lemma_layout_view(*self);
        }
        match self {
            Layout::List(element) => element.is_wf(),
            Layout::Mapping(inner) => inner.is_wf(),
            Layout::Record(fields) => fields_are_wf(fields),
            _ => true,
        }
    }
}

/// Tells whether no two of `fields` share a wire attribute name and the
/// layout of each is well formed.
#[verifier::loop_isolation(false)]
pub fn fields_are_wf(fields: &Vec<(String, Layout)>) -> (wf: bool)
    ensures
        wf == fields_wf(field_layouts(fields@)),
    decreases fields, 1nat,
{
    if !distinct_names(fields) {
        return false;
    }
    let ghost all = field_layouts(fields@);
    let mut i: usize = 0;
    while i < fields.len()
        invariant
            i <= fields@.len(),
            forall|j: int| 0 <= j < i ==> (#[trigger] all[j]).1.wf(),
        decreases fields@.len() - i,
    {
        if !fields[i].1.is_wf() {
            assert(!all[i as int].1.wf());
            return false;
        }
        i += 1;
    }
    true
}

} // verus!
