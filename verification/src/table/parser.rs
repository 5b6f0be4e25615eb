//! What the markers above a field declare.

use crate::ast::meta::{Literal, Meta, MetaValue, NestedMeta};
use crate::code::same_text;
use crate::container::{Container, Declarations};
use crate::dynamo::attribute_definition::{scalar_type_of, ScalarAttributeType};
use crate::dynamo::attribute_value::AttributeValueType;
use crate::dynamo::key_schema::KeySchemaType;
use crate::error::GenError;
use crate::groups::{extended, NamedGroups};
use crate::table::tags::{
    holds_markers, is_marker_entry, GLOBAL_SECONDARY_INDEX_ENTRY, LOCAL_SECONDARY_INDEX_ENTRY,
    SECONDARY_INDEX_NAME,
};
use crate::util::{strip_quote_mark, try_fold, unquoted};
use vstd::prelude::*;
use vstd::string::*;

verus! {

/// The role that a marker's keyword gives, if it is a key marker.
pub open spec fn key_type_of(path: Seq<char>) -> Option<KeySchemaType> {
    if path == KeySchemaType::HashKey.keyword() {
        Some(KeySchemaType::HashKey)
    } else if path == KeySchemaType::RangeKey.keyword() {
        Some(KeySchemaType::RangeKey)
    } else {
        None
    }
}

/// The scalar type that a literal names.
pub open spec fn scalar_named(literal: Literal) -> Result<ScalarAttributeType, GenError> {
    if !literal.is_str {
        Err(GenError::InvalidKeyTypeFormat)
    } else if unquoted(literal.tokens@) == Some("B"@) {
        Ok(ScalarAttributeType::B)
    } else if unquoted(literal.tokens@) == Some("N"@) {
        Ok(ScalarAttributeType::N)
    } else if unquoted(literal.tokens@) == Some("S"@) {
        Ok(ScalarAttributeType::S)
    } else {
        Err(GenError::InvalidScalarAttributeType)
    }
}

/// The scalar type of the key attribute that a key marker declares on a
/// field with the given wire tag. The marker is a bare word, or names the
/// type in one string literal between parentheses; the field has to have a
/// scalar tag, and a type that is named has to be the field's.
pub open spec fn key_scalar(value: MetaValue, tag: AttributeValueType) -> Result<
    ScalarAttributeType,
    GenError,
> {
    match scalar_type_of(tag) {
        Err(e) => Err(e),
        Ok(scalar) => match value {
            MetaValue::Word => Ok(scalar),
            MetaValue::List(items) => {
                if items@.len() == 1 && items@[0] is Literal {
                    match scalar_named(items@[0]->Literal_0) {
                        Err(e) => Err(e),
                        Ok(named) => if named == scalar {
                            Ok(scalar)
                        } else {
                            Err(GenError::ScalarTypeMismatch)
                        },
                    }
                } else {
                    Err(GenError::InvalidKeyTypeFormat)
                }
            },
            _ => Err(GenError::MalformedMarker),
        },
    }
}

/// `items` with `item` at its end, unless it holds `item` already.
pub open spec fn with_new<A>(items: Seq<A>, item: A) -> Seq<A> {
    if items.contains(item) {
        items
    } else {
        items.push(item)
    }
}

/// What a marker adds to a key group and to the attribute definitions: a key
/// marker adds its role and the field's scalar type, any other marker
/// nothing.
pub open spec fn declare_key(
    key_schemas: Seq<KeySchemaType>,
    attribute_definitions: Seq<ScalarAttributeType>,
    meta: Meta,
    tag: AttributeValueType,
) -> Result<(Seq<KeySchemaType>, Seq<ScalarAttributeType>), GenError> {
    match key_type_of(meta.path@) {
        None => Ok((key_schemas, attribute_definitions)),
        Some(key_type) => match key_scalar(meta.value, tag) {
            Err(e) => Err(e),
            Ok(scalar) => Ok((key_schemas.push(key_type), with_new(attribute_definitions, scalar))),
        },
    }
}

/// How far the declaration of one secondary index has got.
pub struct IndexState {
    /// The name of the index, empty until it is given.
    pub name: Seq<char>,
    pub groups: Seq<(Seq<char>, Seq<KeySchemaType>)>,
    pub attribute_definitions: Seq<ScalarAttributeType>,
}

/// What one item of a secondary-index marker declares.
///
/// `index_name = "..."` names the index, and opens its group if it has none
/// yet. A key marker adds its role to the group of the index named so far,
/// and the field's scalar type to the attribute definitions. A bare word
/// that is neither declares nothing. Every item but `index_name` needs the
/// index to be named already.
pub open spec fn declare_index_item(state: IndexState, item: NestedMeta, tag: AttributeValueType)
    -> Result<IndexState, GenError> {
    match item {
        NestedMeta::Meta(meta) => {
            if meta.path@ == SECONDARY_INDEX_NAME@ {
                match meta.value {
                    MetaValue::NameValue(literal) => match unquoted(literal.tokens@) {
                        None => Err(GenError::InvalidIndexName),
                        Some(name) => if name.len() == 0 {
                            Err(GenError::EmptyIndexName)
                        } else {
                            Ok(
                                IndexState {
                                    name,
                                    groups: extended(state.groups, name, Seq::empty()),
                                    attribute_definitions: state.attribute_definitions,
                                },
                            )
                        },
                    },
                    _ => Err(GenError::MalformedMarker),
                }
            } else {
                match declare_key(Seq::empty(), state.attribute_definitions, meta, tag) {
                    Err(e) => Err(e),
                    Ok((key_schemas, attribute_definitions)) => {
                        if state.name.len() == 0 {
                            Err(GenError::EmptyIndexName)
                        } else if key_type_of(meta.path@) is None && !(meta.value is Word) {
                            Err(GenError::MalformedMarker)
                        } else {
                            Ok(
                                IndexState {
                                    name: state.name,
                                    groups: extended(state.groups, state.name, key_schemas),
                                    attribute_definitions,
                                },
                            )
                        }
                    },
                }
            }
        },
        _ => Err(GenError::MalformedMarker),
    }
}

/// [`declare_index_item`] on a field with the given wire tag.
pub open spec fn index_item_step(tag: AttributeValueType) -> spec_fn(
    IndexState,
    NestedMeta,
) -> Result<IndexState, GenError> {
    |state: IndexState, item: NestedMeta| declare_index_item(state, item, tag)
}

/// What a marker adds to the secondary indexes that `entry` opens: nothing
/// unless it is that marker; what its items declare, from left to right, if
/// it is.
pub open spec fn declare_index(
    entry: Seq<char>,
    attribute_definitions: Seq<ScalarAttributeType>,
    groups: Seq<(Seq<char>, Seq<KeySchemaType>)>,
    meta: Meta,
    tag: AttributeValueType,
) -> Result<(Seq<ScalarAttributeType>, Seq<(Seq<char>, Seq<KeySchemaType>)>), GenError> {
    if meta.path@ != entry {
        Ok((attribute_definitions, groups))
    } else {
        match meta.value {
            MetaValue::List(items) => match try_fold(
                IndexState { name: Seq::empty(), groups, attribute_definitions },
                items@,
                index_item_step(tag),
            ) {
                Err(e) => Err(e),
                Ok(state) => Ok((state.attribute_definitions, state.groups)),
            },
            _ => Err(GenError::MalformedMarker),
        }
    }
}

/// Whether the generator reads markers with this keyword.
pub open spec fn is_known(path: Seq<char>) -> bool {
    key_type_of(path) is Some || path == LOCAL_SECONDARY_INDEX_ENTRY@ || path
        == GLOBAL_SECONDARY_INDEX_ENTRY@
}

/// What one marker of a field declares: a role in the primary key, roles in
/// secondary indexes, or, for a bare word that the generator does not read,
/// nothing.
pub open spec fn declare_marker(declared: Declarations, item: NestedMeta, tag: AttributeValueType)
    -> Result<Declarations, GenError> {
    match item {
        NestedMeta::Meta(meta) => match declare_key(
            declared.key_schemas,
            declared.attribute_definitions,
            meta,
            tag,
        ) {
            Err(e) => Err(e),
            Ok((key_schemas, definitions)) => match declare_index(
                LOCAL_SECONDARY_INDEX_ENTRY@,
                definitions,
                declared.local_secondary_indexes,
                meta,
                tag,
            ) {
                Err(e) => Err(e),
                Ok((definitions, local)) => match declare_index(
                    GLOBAL_SECONDARY_INDEX_ENTRY@,
                    definitions,
                    declared.global_secondary_indexes,
                    meta,
                    tag,
                ) {
                    Err(e) => Err(e),
                    Ok((definitions, global)) => {
                        if !is_known(meta.path@) && !(meta.value is Word) {
                            Err(GenError::MalformedMarker)
                        } else {
                            Ok(
                                Declarations {
                                    key_schemas,
                                    attribute_definitions: definitions,
                                    local_secondary_indexes: local,
                                    global_secondary_indexes: global,
                                },
                            )
                        }
                    },
                },
            },
        },
        _ => Err(GenError::MalformedMarker),
    }
}

/// [`declare_marker`] on a field with the given wire tag.
pub open spec fn marker_step(tag: AttributeValueType) -> spec_fn(
    Declarations,
    NestedMeta,
) -> Result<Declarations, GenError> {
    |declared: Declarations, item: NestedMeta| declare_marker(declared, item, tag)
}

/// What one attribute above a field declares: nothing unless it is the
/// attribute that holds the markers; what its markers declare, from left to
/// right, if it is.
pub open spec fn declare_attribute(declared: Declarations, attr: Meta, tag: AttributeValueType)
    -> Result<Declarations, GenError> {
    if !holds_markers(attr.path@) {
        Ok(declared)
    } else {
        match attr.value {
            MetaValue::List(items) => try_fold(declared, items@, marker_step(tag)),
            _ => Err(GenError::MalformedMarker),
        }
    }
}

/// [`declare_attribute`] on a field with the given wire tag.
pub open spec fn attribute_step(tag: AttributeValueType) -> spec_fn(Declarations, Meta) -> Result<
    Declarations,
    GenError,
> {
    |declared: Declarations, attr: Meta| declare_attribute(declared, attr, tag)
}

/// What the attributes above a field declare, from top to bottom.
pub open spec fn declared(before: Declarations, attrs: Seq<Meta>, tag: AttributeValueType)
    -> Result<Declarations, GenError> {
    try_fold(before, attrs, attribute_step(tag))
}

/// The role that a marker's keyword gives, if it is a key marker.
fn key_type_named(path: &str) -> (key_type: Option<KeySchemaType>)
    ensures
        key_type == key_type_of(path@),
{
    if same_text(path, KeySchemaType::HashKey.as_str()) {
        Some(KeySchemaType::HashKey)
    } else if same_text(path, KeySchemaType::RangeKey.as_str()) {
        Some(KeySchemaType::RangeKey)
    } else {
        None
    }
}

/// Reads the scalar type that a literal names.
fn parse_scalar_name(literal: &Literal) -> (res: Result<ScalarAttributeType, GenError>)
    ensures
        res == scalar_named(*literal),
{
    if !literal.is_str {
        return Err(GenError::InvalidKeyTypeFormat);
    }
    match strip_quote_mark(literal.tokens.as_str()) {
        Some(name) => {
            if same_text(name, "B") {
                Ok(ScalarAttributeType::B)
            } else if same_text(name, "N") {
                Ok(ScalarAttributeType::N)
            } else if same_text(name, "S") {
                Ok(ScalarAttributeType::S)
            } else {
                Err(GenError::InvalidScalarAttributeType)
            }
        },
        None => Err(GenError::InvalidScalarAttributeType),
    }
}

/// Works out the scalar type of the key attribute that a key marker
/// declares.
fn parse_key_scalar(value: &MetaValue, attribute_value_type: AttributeValueType) -> (res: Result<
    ScalarAttributeType,
    GenError,
>)
    ensures
        res == key_scalar(*value, attribute_value_type),
{
    let scalar = ScalarAttributeType::from_attribute_value_type(attribute_value_type)?;
    match value {
        MetaValue::Word => Ok(scalar),
        MetaValue::List(items) => {
            if items.len() != 1 {
                return Err(GenError::InvalidKeyTypeFormat);
            }
            match &items[0] {
                NestedMeta::Literal(literal) => {
                    let named = parse_scalar_name(literal)?;
                    if named == scalar {
                        Ok(scalar)
                    } else {
                        Err(GenError::ScalarTypeMismatch)
                    }
                },
                _ => Err(GenError::InvalidKeyTypeFormat),
            }
        },
        _ => Err(GenError::MalformedMarker),
    }
}

/// Tells whether `scalar` is among the attribute definitions.
fn holds(attribute_definitions: &Vec<ScalarAttributeType>, scalar: ScalarAttributeType) -> (found:
    bool)
    ensures
        found == attribute_definitions@.contains(scalar),
{
    let mut i: usize = 0;
    while i < attribute_definitions.len()
        invariant
            i <= attribute_definitions@.len(),
            forall|j: int| 0 <= j < i ==> attribute_definitions@[j] != scalar,
        decreases attribute_definitions@.len() - i,
    {
        if attribute_definitions[i] == scalar {
            return true;
        }
        i += 1;
    }
    false
}

/// Reads one marker as a key marker: adds its role to `key_schemas` and the
/// field's scalar type to `attribute_definitions`, once. Any other marker
/// changes nothing.
pub fn parse_key_schemas(
    table: &Meta,
    attribute_value_type: AttributeValueType,
    key_schemas: &mut Vec<KeySchemaType>,
    attribute_definitions: &mut Vec<ScalarAttributeType>,
) -> (res: Result<(), GenError>)
    ensures
        match declare_key(
            old(key_schemas)@,
            old(attribute_definitions)@,
            *table,
            attribute_value_type,
        ) {
            Err(e) => res == Err::<(), GenError>(e) && final(key_schemas)@ == old(key_schemas)@
                && final(attribute_definitions)@ == old(attribute_definitions)@,
            Ok((keys, definitions)) => res is Ok && final(key_schemas)@ == keys
                && final(attribute_definitions)@ == definitions,
        },
{
    match key_type_named(table.path.as_str()) {
        Some(key_type) => {
            let scalar_attribute_type = parse_key_scalar(&table.value, attribute_value_type)?;
            key_schemas.push(key_type);
            if !holds(attribute_definitions, scalar_attribute_type) {
                attribute_definitions.push(scalar_attribute_type);
            }
            Ok(())
        },
        None => Ok(()),
    }
}


/// Reads one marker as the declaration of secondary indexes, if `entry` is
/// its keyword: every item of it, from left to right.
#[verifier::loop_isolation(false)]
pub fn parse_secondary_index_key_schemas(
    entry: &str,
    table: &Meta,
    attribute_value_type: AttributeValueType,
    attribute_definitions: &mut Vec<ScalarAttributeType>,
    secondary_indexes: &mut NamedGroups<KeySchemaType>,
) -> (res: Result<(), GenError>)
    ensures
        old(secondary_indexes).wf() ==> final(secondary_indexes).wf(),
        match declare_index(
            entry@,
            old(attribute_definitions)@,
            old(secondary_indexes)@,
            *table,
            attribute_value_type,
        ) {
            Err(e) => res == Err::<(), GenError>(e),
            Ok((definitions, groups)) => res is Ok && final(attribute_definitions)@ == definitions
                && final(secondary_indexes)@ == groups,
        },
{
    if !same_text(table.path.as_str(), entry) {
        return Ok(());
    }
    let items = match &table.value {
        MetaValue::List(items) => items,
        _ => {
            return Err(GenError::MalformedMarker);
        },
    };
    let ghost step = index_item_step(attribute_value_type);
    let ghost start = IndexState {
        name: Seq::empty(),
        groups: secondary_indexes@,
        attribute_definitions: attribute_definitions@,
    };
    let mut index_name = String::new();
    let mut i: usize = 0;
    assert(items@.skip(0) =~= items@);
    while i < items.len()
        invariant
            i <= items@.len(),
            old(secondary_indexes).wf() ==> secondary_indexes.wf(),
            step == index_item_step(attribute_value_type),
            try_fold(start, items@, step) == try_fold(
                IndexState {
                    name: index_name@,
                    groups: secondary_indexes@,
                    attribute_definitions: attribute_definitions@,
                },
                items@.skip(i as int),
                step,
            ),
        decreases items@.len() - i,
    {
        let ghost state = IndexState {
            name: index_name@,
            groups: secondary_indexes@,
            attribute_definitions: attribute_definitions@,
        };
        proof {
            assert(items@.skip(i as int)[0] == items@[i as int]);
            assert(items@.skip(i as int).drop_first() =~= items@.skip(i + 1));
            assert(try_fold(state, items@.skip(i as int), step) == match step(
                state,
                items@[i as int],
            ) {
                Err(e) => Err(e),
                Ok(next) => try_fold(next, items@.skip(i + 1), step),
            });
        }
        match &items[i] {
            NestedMeta::Meta(nested_meta) => {
                if same_text(nested_meta.path.as_str(), SECONDARY_INDEX_NAME) {
                    match &nested_meta.value {
                        MetaValue::NameValue(literal) => {
                            match strip_quote_mark(literal.tokens.as_str()) {
                                Some(name) => {
                                    if name.is_empty() {
                                        return Err(GenError::EmptyIndexName);
                                    }
                                    index_name = String::from_str(name);
                                    let key_schemas: Vec<KeySchemaType> = Vec::new();
                                    secondary_indexes.extend(index_name.as_str(), &key_schemas);
                                },
                                None => {
                                    return Err(GenError::InvalidIndexName);
                                },
                            }
                        },
                        _ => {
                            return Err(GenError::MalformedMarker);
                        },
                    }
                } else {
                    let mut key_schemas: Vec<KeySchemaType> = Vec::new();
                    parse_key_schemas(
                        nested_meta,
                        attribute_value_type,
                        &mut key_schemas,
                        attribute_definitions,
                    )?;
                    if index_name.as_str().is_empty() {
                        return Err(GenError::EmptyIndexName);
                    }
                    let is_key = key_type_named(nested_meta.path.as_str()).is_some();
                    let is_word = match &nested_meta.value {
                        MetaValue::Word => true,
                        _ => false,
                    };
                    if !is_key && !is_word {
                        return Err(GenError::MalformedMarker);
                    }
                    secondary_indexes.extend(index_name.as_str(), &key_schemas);
                }
            },
            _ => {
                return Err(GenError::MalformedMarker);
            },
        }
        i += 1;
    }
    proof {
        assert(items@.skip(items@.len() as int) =~= Seq::empty());
    }
    Ok(())
}

/// Reads one marker as the declaration of local secondary indexes.
pub fn parse_local_secondary_index_key_schemas(
    table: &Meta,
    attribute_value_type: AttributeValueType,
    attribute_definitions: &mut Vec<ScalarAttributeType>,
    local_secondary_indexes: &mut NamedGroups<KeySchemaType>,
) -> (res: Result<(), GenError>)
    ensures
        old(local_secondary_indexes).wf() ==> final(local_secondary_indexes).wf(),
        match declare_index(
            LOCAL_SECONDARY_INDEX_ENTRY@,
            old(attribute_definitions)@,
            old(local_secondary_indexes)@,
            *table,
            attribute_value_type,
        ) {
            Err(e) => res == Err::<(), GenError>(e),
            Ok((definitions, groups)) => res is Ok && final(attribute_definitions)@ == definitions
                && final(local_secondary_indexes)@ == groups,
        },
{
    parse_secondary_index_key_schemas(
        LOCAL_SECONDARY_INDEX_ENTRY,
        table,
        attribute_value_type,
        attribute_definitions,
        local_secondary_indexes,
    )
}

/// Reads one marker as the declaration of global secondary indexes.
pub fn parse_global_secondary_index_key_schemas(
    table: &Meta,
    attribute_value_type: AttributeValueType,
    attribute_definitions: &mut Vec<ScalarAttributeType>,
    global_secondary_indexes: &mut NamedGroups<KeySchemaType>,
) -> (res: Result<(), GenError>)
    ensures
        old(global_secondary_indexes).wf() ==> final(global_secondary_indexes).wf(),
        match declare_index(
            GLOBAL_SECONDARY_INDEX_ENTRY@,
            old(attribute_definitions)@,
            old(global_secondary_indexes)@,
            *table,
            attribute_value_type,
        ) {
            Err(e) => res == Err::<(), GenError>(e),
            Ok((definitions, groups)) => res is Ok && final(attribute_definitions)@ == definitions
                && final(global_secondary_indexes)@ == groups,
        },
{
    parse_secondary_index_key_schemas(
        GLOBAL_SECONDARY_INDEX_ENTRY,
        table,
        attribute_value_type,
        attribute_definitions,
        global_secondary_indexes,
    )
}

/// Reads one marker of a field.
fn parse_marker(item: &NestedMeta, attribute_value_type: AttributeValueType, container: &mut Container)
    -> (res: Result<(), GenError>)
    ensures
        old(container).wf() ==> final(container).wf(),
        final(container).same_expansion(*old(container)),
        match declare_marker(old(container).declarations(), *item, attribute_value_type) {
            Err(e) => res == Err::<(), GenError>(e),
            Ok(declared) => res is Ok && final(container).declarations() == declared,
        },
{
    let table_meta = match item {
        NestedMeta::Meta(meta) => meta,
        _ => {
            return Err(GenError::MalformedMarker);
        },
    };
    parse_key_schemas(
        table_meta,
        attribute_value_type,
        &mut container.key_schemas,
        &mut container.attribute_definitions,
    )?;
    parse_local_secondary_index_key_schemas(
        table_meta,
        attribute_value_type,
        &mut container.attribute_definitions,
        &mut container.local_secondary_index_key_schemas,
    )?;
    parse_global_secondary_index_key_schemas(
        table_meta,
        attribute_value_type,
        &mut container.attribute_definitions,
        &mut container.global_secondary_index_key_schemas,
    )?;
    let path = table_meta.path.as_str();
    let known = key_type_named(path).is_some() || same_text(path, LOCAL_SECONDARY_INDEX_ENTRY)
        || same_text(path, GLOBAL_SECONDARY_INDEX_ENTRY);
    let is_word = match &table_meta.value {
        MetaValue::Word => true,
        _ => false,
    };
    if !known && !is_word {
        return Err(GenError::MalformedMarker);
    }
    Ok(())
}

/// Reads the attributes above a field: the primary-key roles, the
/// secondary-index roles and the key attribute types that its markers
/// declare, added to what `container` holds. The emitted expressions in
/// `container` stay as they are.
#[verifier::loop_isolation(false)]
pub fn parse_from_dynamo_attrs(
    attrs: &Vec<Meta>,
    attribute_value_type: AttributeValueType,
    container: &mut Container,
) -> (res: Result<(), GenError>)
    ensures
        old(container).wf() ==> final(container).wf(),
        final(container).same_expansion(*old(container)),
        match declared(old(container).declarations(), attrs@, attribute_value_type) {
            Err(e) => res == Err::<(), GenError>(e),
            Ok(declared) => res is Ok && final(container).declarations() == declared,
        },
{
    let ghost start = container.declarations();
    let ghost attr_step = attribute_step(attribute_value_type);
    let ghost item_step = marker_step(attribute_value_type);
    let mut a: usize = 0;
    assert(attrs@.skip(0) =~= attrs@);
    while a < attrs.len()
        invariant
            a <= attrs@.len(),
            old(container).wf() ==> container.wf(),
            container.same_expansion(*old(container)),
            attr_step == attribute_step(attribute_value_type),
            item_step == marker_step(attribute_value_type),
            try_fold(start, attrs@, attr_step) == try_fold(
                container.declarations(),
                attrs@.skip(a as int),
                attr_step,
            ),
        decreases attrs@.len() - a,
    {
        let ghost before = container.declarations();
        proof {
            assert(attrs@.skip(a as int)[0] == attrs@[a as int]);
            assert(attrs@.skip(a as int).drop_first() =~= attrs@.skip(a + 1));
            assert(try_fold(before, attrs@.skip(a as int), attr_step) == match attr_step(
                before,
                attrs@[a as int],
            ) {
                Err(e) => Err(e),
                Ok(next) => try_fold(next, attrs@.skip(a + 1), attr_step),
            });
        }
        let attr = &attrs[a];
        if is_marker_entry(attr.path.as_str()) {
            let items = match &attr.value {
                MetaValue::List(items) => items,
                _ => {
                    return Err(GenError::MalformedMarker);
                },
            };
            let mut i: usize = 0;
            assert(items@.skip(0) =~= items@);
            while i < items.len()
                invariant
                    i <= items@.len(),
                    old(container).wf() ==> container.wf(),
                    container.same_expansion(*old(container)),
                    item_step == marker_step(attribute_value_type),
                    try_fold(before, items@, item_step) == try_fold(
                        container.declarations(),
                        items@.skip(i as int),
                        item_step,
                    ),
                decreases items@.len() - i,
            {
                let ghost state = container.declarations();
                proof {
                    assert(items@.skip(i as int)[0] == items@[i as int]);
                    assert(items@.skip(i as int).drop_first() =~= items@.skip(i + 1));
                    assert(try_fold(state, items@.skip(i as int), item_step) == match item_step(
                        state,
                        items@[i as int],
                    ) {
                        Err(e) => Err(e),
                        Ok(next) => try_fold(next, items@.skip(i + 1), item_step),
                    });
                }
                match parse_marker(&items[i], attribute_value_type, container) {
                    Ok(()) => {},
                    Err(e) => {
                        return Err(e);
                    },
                }
                i += 1;
            }
            proof {
                assert(items@.skip(items@.len() as int) =~= Seq::empty());
            }
        }
        a += 1;
    }
    proof {
        assert(attrs@.skip(attrs@.len() as int) =~= Seq::empty());
    }
    Ok(())
}


/// What one marker of a field declares where only the primary key and
/// global secondary indexes are read.
pub open spec fn declare_key_marker(
    declared: Declarations,
    item: NestedMeta,
    tag: AttributeValueType,
) -> Result<Declarations, GenError> {
    match item {
        NestedMeta::Meta(meta) => match declare_key(
            declared.key_schemas,
            declared.attribute_definitions,
            meta,
            tag,
        ) {
            Err(e) => Err(e),
            Ok((key_schemas, definitions)) => match declare_index(
                GLOBAL_SECONDARY_INDEX_ENTRY@,
                definitions,
                declared.global_secondary_indexes,
                meta,
                tag,
            ) {
                Err(e) => Err(e),
                Ok((definitions, global)) => {
                    if key_type_of(meta.path@) is None && meta.path@
                        != GLOBAL_SECONDARY_INDEX_ENTRY@ && !(meta.value is Word) {
                        Err(GenError::MalformedMarker)
                    } else {
                        Ok(
                            Declarations {
                                key_schemas,
                                attribute_definitions: definitions,
                                local_secondary_indexes: declared.local_secondary_indexes,
                                global_secondary_indexes: global,
                            },
                        )
                    }
                },
            },
        },
        _ => Err(GenError::MalformedMarker),
    }
}

/// [`declare_key_marker`] on a field with the given wire tag.
pub open spec fn key_marker_step(tag: AttributeValueType) -> spec_fn(
    Declarations,
    NestedMeta,
) -> Result<Declarations, GenError> {
    |declared: Declarations, item: NestedMeta| declare_key_marker(declared, item, tag)
}

/// What one attribute above a field declares where only the primary key
/// and global secondary indexes are read.
pub open spec fn declare_key_attribute(declared: Declarations, attr: Meta, tag: AttributeValueType)
    -> Result<Declarations, GenError> {
    if !holds_markers(attr.path@) {
        Ok(declared)
    } else {
        match attr.value {
            MetaValue::List(items) => try_fold(declared, items@, key_marker_step(tag)),
            _ => Err(GenError::MalformedMarker),
        }
    }
}

/// [`declare_key_attribute`] on a field with the given wire tag.
pub open spec fn key_attribute_step(tag: AttributeValueType) -> spec_fn(
    Declarations,
    Meta,
) -> Result<Declarations, GenError> {
    |declared: Declarations, attr: Meta| declare_key_attribute(declared, attr, tag)
}

/// What the attributes above a field declare, from top to bottom, where
/// only the primary key and global secondary indexes are read.
pub open spec fn declared_keys(before: Declarations, attrs: Seq<Meta>, tag: AttributeValueType)
    -> Result<Declarations, GenError> {
    try_fold(before, attrs, key_attribute_step(tag))
}

/// The three parts that [`parse_keys`] works on, as declarations.
pub open spec fn key_declarations(
    key_schemas: Seq<KeySchemaType>,
    attribute_definitions: Seq<ScalarAttributeType>,
    global_secondary_indexes: Seq<(Seq<char>, Seq<KeySchemaType>)>,
) -> Declarations {
    Declarations {
        key_schemas,
        attribute_definitions,
        local_secondary_indexes: Seq::empty(),
        global_secondary_indexes,
    }
}

/// Reads the attributes above a field for the primary-key roles, the roles
/// in global secondary indexes and the key attribute types that its
/// markers declare, and adds them to the three parts.
#[verifier::loop_isolation(false)]
pub fn parse_keys(
    attrs: &Vec<Meta>,
    attribute_value_type: AttributeValueType,
    key_schemas: &mut Vec<KeySchemaType>,
    attribute_definitions: &mut Vec<ScalarAttributeType>,
    global_secondary_indexes: &mut NamedGroups<KeySchemaType>,
) -> (res: Result<(), GenError>)
    ensures
        old(global_secondary_indexes).wf() ==> final(global_secondary_indexes).wf(),
        match declared_keys(
            key_declarations(
                old(key_schemas)@,
                old(attribute_definitions)@,
                old(global_secondary_indexes)@,
            ),
            attrs@,
            attribute_value_type,
        ) {
            Err(e) => res == Err::<(), GenError>(e),
            Ok(declared) => res is Ok && key_declarations(
                final(key_schemas)@,
                final(attribute_definitions)@,
                final(global_secondary_indexes)@,
            ) == declared,
        },
{
    let ghost start = key_declarations(
        key_schemas@,
        attribute_definitions@,
        global_secondary_indexes@,
    );
    let ghost attr_step = key_attribute_step(attribute_value_type);
    let ghost item_step = key_marker_step(attribute_value_type);
    let mut a: usize = 0;
    assert(attrs@.skip(0) =~= attrs@);
    while a < attrs.len()
        invariant
            a <= attrs@.len(),
            old(global_secondary_indexes).wf() ==> global_secondary_indexes.wf(),
            try_fold(start, attrs@, attr_step) == try_fold(
                key_declarations(
                    key_schemas@,
                    attribute_definitions@,
                    global_secondary_indexes@,
                ),
                attrs@.skip(a as int),
                attr_step,
            ),
        decreases attrs@.len() - a,
    {
        let ghost before = key_declarations(
            key_schemas@,
            attribute_definitions@,
            global_secondary_indexes@,
        );
        proof {
            assert(attrs@.skip(a as int)[0] == attrs@[a as int]);
            assert(attrs@.skip(a as int).drop_first() =~= attrs@.skip(a + 1));
            assert(try_fold(before, attrs@.skip(a as int), attr_step) == match attr_step(
                before,
                attrs@[a as int],
            ) {
                Err(e) => Err(e),
                Ok(next) => try_fold(next, attrs@.skip(a + 1), attr_step),
            });
        }
        let attr = &attrs[a];
        if is_marker_entry(attr.path.as_str()) {
            let items = match &attr.value {
                MetaValue::List(items) => items,
                _ => {
                    return Err(GenError::MalformedMarker);
                },
            };
            let mut i: usize = 0;
            assert(items@.skip(0) =~= items@);
            while i < items.len()
                invariant
                    i <= items@.len(),
                    old(global_secondary_indexes).wf() ==> global_secondary_indexes.wf(),
                    try_fold(before, items@, item_step) == try_fold(
                        key_declarations(
                            key_schemas@,
                            attribute_definitions@,
                            global_secondary_indexes@,
                        ),
                        items@.skip(i as int),
                        item_step,
                    ),
                decreases items@.len() - i,
            {
                let ghost state = key_declarations(
                    key_schemas@,
                    attribute_definitions@,
                    global_secondary_indexes@,
                );
                proof {
                    assert(items@.skip(i as int)[0] == items@[i as int]);
                    assert(items@.skip(i as int).drop_first() =~= items@.skip(i + 1));
                    assert(try_fold(state, items@.skip(i as int), item_step) == match item_step(
                        state,
                        items@[i as int],
                    ) {
                        Err(e) => Err(e),
                        Ok(next) => try_fold(next, items@.skip(i + 1), item_step),
                    });
                }
                let table_meta = match &items[i] {
                    NestedMeta::Meta(meta) => meta,
                    _ => {
                        return Err(GenError::MalformedMarker);
                    },
                };
                parse_key_schemas(
                    table_meta,
                    attribute_value_type,
                    key_schemas,
                    attribute_definitions,
                )?;
                parse_global_secondary_index_key_schemas(
                    table_meta,
                    attribute_value_type,
                    attribute_definitions,
                    global_secondary_indexes,
                )?;
                let path = table_meta.path.as_str();
                let known = key_type_named(path).is_some() || same_text(
                    path,
                    GLOBAL_SECONDARY_INDEX_ENTRY,
                );
                let is_word = match &table_meta.value {
                    MetaValue::Word => true,
                    _ => false,
                };
                if !known && !is_word {
                    return Err(GenError::MalformedMarker);
                }
                i += 1;
            }
            proof {
                assert(items@.skip(items@.len() as int) =~= Seq::empty());
            }
        }
        a += 1;
    }
    proof {
        assert(attrs@.skip(attrs@.len() as int) =~= Seq::empty());
    }
    Ok(())
}

} // verus!
