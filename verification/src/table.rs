//! Assembly of everything that is emitted for a table.

pub mod attr;
pub mod parser;
pub mod tags;

use crate::ast::input::{Data, DeriveInput, Field};
use crate::ast::meta::{Meta, MetaValue, NestedMeta};
use crate::ast::ty::{classify, classify_type, shape_of};
use crate::dynamo::key_schema::{lemma_partition_key_first, sorted_by_role, valid_group};
use crate::code::{
    concat_map, join3, join4, join5, join6, join7, join_map, lemma_concat_map_step,
    literal_string, same_text, string_literal,
};
use crate::container::{
    allowed, field_initializer, field_initializers, expand_impl_conversions as expand_container_conversions,
    impl_conversions, views, Container, ContainerView, Declarations,
};
use crate::dynamo::attribute_definition::{attribute_definition_code, ScalarAttributeType};
use crate::dynamo::attribute_value::{decoder, encoder, expand_attribute_value, Names};
use crate::dynamo::key_schema::{
    expand_key_schema, key_schema_code, lemma_sorted_by_role_keeps_entries, validate_key_schemas,
    validated, KeySchemaType,
};
use crate::error::GenError;
use crate::groups::{extended, names_of as group_names, NamedGroups};
use crate::table::parser::{declared, parse_from_dynamo_attrs};
use crate::table::tags::{
    holds_markers, is_marker_entry, KEY_TABLE_NAME, PRIMARY_KEY_INPUT_STRUCT_POSTFIX,
};
use crate::util::{pascal_case, to_pascal_case, try_fold};
use vstd::prelude::*;
use vstd::string::*;

verus! {

/// The table name after one structure-level marker: `table_name = "..."`
/// sets it, a bare word that the generator does not read leaves it.
pub open spec fn name_marker(current: Seq<char>, item: NestedMeta) -> Result<Seq<char>, GenError> {
    match item {
        NestedMeta::Meta(meta) => {
            if meta.path@ == KEY_TABLE_NAME@ {
                match meta.value {
                    MetaValue::NameValue(literal) => if literal.is_str {
                        Ok(literal.tokens@)
                    } else {
                        Err(GenError::MalformedMarker)
                    },
                    _ => Err(GenError::MalformedMarker),
                }
            } else if meta.value is Word {
                Ok(current)
            } else {
                Err(GenError::MalformedMarker)
            }
        },
        _ => Err(GenError::MalformedMarker),
    }
}

/// [`name_marker`] as a step.
pub open spec fn name_marker_step() -> spec_fn(Seq<char>, NestedMeta) -> Result<
    Seq<char>,
    GenError,
> {
    |current: Seq<char>, item: NestedMeta| name_marker(current, item)
}

/// The table name after one attribute above the structure.
pub open spec fn name_attribute(current: Seq<char>, attr: Meta) -> Result<Seq<char>, GenError> {
    if !holds_markers(attr.path@) {
        Ok(current)
    } else {
        match attr.value {
            MetaValue::List(items) => try_fold(current, items@, name_marker_step()),
            _ => Err(GenError::MalformedMarker),
        }
    }
}

/// [`name_attribute`] as a step.
pub open spec fn name_attribute_step() -> spec_fn(Seq<char>, Meta) -> Result<Seq<char>, GenError> {
    |current: Seq<char>, attr: Meta| name_attribute(current, attr)
}

/// The table name of a structure, as a string literal: the last
/// `table_name` that its attributes give, and the structure's name with
/// every word capitalised when they give none.
pub open spec fn table_name_of(ident: Seq<char>, attrs: Seq<Meta>) -> Result<Seq<char>, GenError> {
    try_fold(string_literal(pascal_case(ident)), attrs, name_attribute_step())
}

/// Finds the table name of the structure `id` with the attributes `attrs`.
#[verifier::loop_isolation(false)]
pub fn get_table_name(id: &str, attrs: &Vec<Meta>) -> (res: Result<String, GenError>)
    ensures
        match table_name_of(id@, attrs@) {
            Err(e) => res matches Err(err) && err == e,
            Ok(name) => res matches Ok(table_name) && table_name@ == name,
        },
{
    let mut table_name = literal_string(to_pascal_case(id).as_str());
    let ghost start = table_name@;
    let ghost attr_step = name_attribute_step();
    let ghost item_step = name_marker_step();
    let mut a: usize = 0;
    assert(attrs@.skip(0) =~= attrs@);
    while a < attrs.len()
        invariant
            a <= attrs@.len(),
            try_fold(start, attrs@, attr_step) == try_fold(
                table_name@,
                attrs@.skip(a as int),
                attr_step,
            ),
        decreases attrs@.len() - a,
    {
        let ghost before = table_name@;
        proof {
            assert(attrs@.skip(a as int)[0] == attrs@[a as int]);
            assert(attrs@.skip(a as int).drop_first() =~= attrs@.skip(a + 1));
            assert(try_fold(before, attrs@.skip(a as int), attr_step) == match attr_step(
                before,
                attrs@[a as int],
            ) {
                Err(e) => Err(e),
                Ok(next) => try_fold(next, attrs@.skip(a + 1), attr_step),
            });
        }
        let attr = &attrs[a];
        if is_marker_entry(attr.path.as_str()) {
            let items = match &attr.value {
                MetaValue::List(items) => items,
                _ => {
                    return Err(GenError::MalformedMarker);
                },
            };
            let mut i: usize = 0;
            assert(items@.skip(0) =~= items@);
            while i < items.len()
                invariant
                    i <= items@.len(),
                    try_fold(before, items@, item_step) == try_fold(
                        table_name@,
                        items@.skip(i as int),
                        item_step,
                    ),
                decreases items@.len() - i,
            {
                let ghost state = table_name@;
                proof {
                    assert(items@.skip(i as int)[0] == items@[i as int]);
                    assert(items@.skip(i as int).drop_first() =~= items@.skip(i + 1));
                    assert(try_fold(state, items@.skip(i as int), item_step) == match item_step(
                        state,
                        items@[i as int],
                    ) {
                        Err(e) => Err(e),
                        Ok(next) => try_fold(next, items@.skip(i + 1), item_step),
                    });
                }
                match &items[i] {
                    NestedMeta::Meta(table) => {
                        if same_text(table.path.as_str(), KEY_TABLE_NAME) {
                            match &table.value {
                                MetaValue::NameValue(literal) => {
                                    if !literal.is_str {
                                        return Err(GenError::MalformedMarker);
                                    }
                                    table_name = literal.tokens.clone();
                                },
                                _ => {
                                    return Err(GenError::MalformedMarker);
                                },
                            }
                        } else {
                            match &table.value {
                                MetaValue::Word => {},
                                _ => {
                                    return Err(GenError::MalformedMarker);
                                },
                            }
                        }
                    },
                    _ => {
                        return Err(GenError::MalformedMarker);
                    },
                }
                i += 1;
            }
            proof {
                assert(items@.skip(items@.len() as int) =~= Seq::empty());
            }
        }
        a += 1;
    }
    proof {
        assert(attrs@.skip(attrs@.len() as int) =~= Seq::empty());
    }
    Ok(table_name)
}

/// Nothing declared.
pub open spec fn no_declarations() -> Declarations {
    Declarations {
        key_schemas: Seq::empty(),
        attribute_definitions: Seq::empty(),
        local_secondary_indexes: Seq::empty(),
        global_secondary_indexes: Seq::empty(),
    }
}

/// What the generator derives for one field: its two expressions, written
/// over the field's own name at the top nesting level, and, where markers
/// are read, what they declare. A field without a name, a type without a
/// shape and a marker that cannot be read are refused.
pub open spec fn field_view(field: Field, target: Seq<char>, source: Seq<char>, markers: bool)
    -> Result<ContainerView, GenError> {
    match field.ident {
        None => Err(GenError::FieldIdentNotFound),
        Some(ident) => match shape_of(field.ty.expr) {
            Err(e) => Err(e),
            Ok(shape) => {
                let names = Names { field: ident@, member: ident@, target, source };
                let declarations = if markers {
                    declared(no_declarations(), field.attrs@, shape.tag())
                } else {
                    Ok(no_declarations())
                };
                match declarations {
                    Err(e) => Err(e),
                    Ok(declared) => Ok(
                        ContainerView {
                            field_ident: ident@,
                            ty: field.ty,
                            declared,
                            target,
                            encoder: encoder(names, shape, 0),
                            decoder: decoder(names, shape, 0),
                        },
                    ),
                }
            },
        },
    }
}

/// [`field_view`] added to the views of the fields before.
pub open spec fn field_step(target: Seq<char>, source: Seq<char>, markers: bool) -> spec_fn(
    Seq<ContainerView>,
    Field,
) -> Result<Seq<ContainerView>, GenError> {
    |done: Seq<ContainerView>, field: Field|
        match field_view(field, target, source, markers) {
            Err(e) => Err(e),
            Ok(view) => Ok(done.push(view)),
        }
}

/// What the generator derives for the fields of a structure, in the order of
/// their declaration; the first field that is refused refuses the structure.
pub open spec fn field_views(fields: Seq<Field>, target: Seq<char>, source: Seq<char>, markers: bool)
    -> Result<Seq<ContainerView>, GenError> {
    try_fold(Seq::empty(), fields, field_step(target, source, markers))
}

/// Whether every one of `containers` is well formed.
pub open spec fn all_wf(containers: Seq<Container>) -> bool {
    forall|i: int| 0 <= i < containers.len() ==> (#[trigger] containers[i]).wf()
}

/// Derives the container of one field.
pub fn container_of_field<'a>(
    field: &'a Field,
    to_attribute_ident: &'a str,
    from_attribute_ident: &str,
    markers: bool,
) -> (res: Result<Container<'a>, GenError>)
    ensures
        match field_view(*field, to_attribute_ident@, from_attribute_ident@, markers) {
            Err(e) => res matches Err(err) && err == e,
            Ok(view) => res matches Ok(container) && container@ == view && container.wf(),
        },
{
    let ident = match &field.ident {
        Some(ident) => ident.as_str(),
        None => {
            return Err(GenError::FieldIdentNotFound);
        },
    };
    let ty = &field.ty;
    let container = Container::new(ident, ty, to_attribute_ident);
    assert(container.declarations() == no_declarations());
    let (mut container, attribute_value_type) = expand_attribute_value(
        ident,
        from_attribute_ident,
        ty,
        0,
        container,
    )?;
    if markers {
        parse_from_dynamo_attrs(&field.attrs, attribute_value_type, &mut container)?;
    }
    Ok(container)
}

/// Derives the containers of the fields of a table structure, markers
/// included.
#[verifier::loop_isolation(false)]
pub fn get_attribute_types_containers<'a>(
    fields: &'a Vec<Field>,
    to_attribute_ident: &'a str,
    from_attribute_ident: &str,
) -> (res: Result<Vec<Container<'a>>, GenError>)
    ensures
        match field_views(fields@, to_attribute_ident@, from_attribute_ident@, true) {
            Err(e) => res matches Err(err) && err == e,
            Ok(expected) => res matches Ok(containers) && views(containers@) == expected && all_wf(
                containers@,
            ),
        },
{
    let ghost step = field_step(to_attribute_ident@, from_attribute_ident@, true);
    let mut containers: Vec<Container<'a>> = Vec::new();
    let mut i: usize = 0;
    assert(fields@.skip(0) =~= fields@);
    assert(views(containers@) =~= Seq::empty());
    while i < fields.len()
        invariant
            i <= fields@.len(),
            all_wf(containers@),
            try_fold(Seq::empty(), fields@, step) == try_fold(
                views(containers@),
                fields@.skip(i as int),
                step,
            ),
        decreases fields@.len() - i,
    {
        let ghost done = views(containers@);
        proof {
            assert(fields@.skip(i as int)[0] == fields@[i as int]);
            assert(fields@.skip(i as int).drop_first() =~= fields@.skip(i + 1));
            assert(try_fold(done, fields@.skip(i as int), step) == match step(
                done,
                fields@[i as int],
            ) {
                Err(e) => Err(e),
                Ok(next) => try_fold(next, fields@.skip(i + 1), step),
            });
        }
        let container = container_of_field(
            &fields[i],
            to_attribute_ident,
            from_attribute_ident,
            true,
        )?;
        containers.push(container);
        assert(views(containers@) =~= done.push(container@));
        i += 1;
    }
    proof {
        assert(fields@.skip(fields@.len() as int) =~= Seq::empty());
    }
    Ok(containers)
}


/// A key entry: the position of a field in the structure, and a role of it.
pub type KeyEntry = (usize, KeySchemaType);

/// The roles `roles` given to the field at `position`.
pub open spec fn entries_of<R>(position: int, roles: Seq<R>) -> Seq<(usize, R)> {
    Seq::new(roles.len(), |j: int| (position as usize, roles[j]))
}

/// The primary key group as it was declared: every primary-key role of
/// every field, in the order of the fields and, for one field, of its
/// markers.
pub open spec fn key_entries(views: Seq<ContainerView>) -> Seq<KeyEntry>
    decreases views.len(),
{
    if views.len() == 0 {
        Seq::empty()
    } else {
        key_entries(views.drop_last()) + entries_of(
            views.len() - 1,
            views.last().declared.key_schemas,
        )
    }
}

/// Whether every entry is about one of the first `fields` fields.
pub open spec fn positions_below<R>(entries: Seq<(usize, R)>, fields: int) -> bool {
    forall|k: int| 0 <= k < entries.len() ==> (#[trigger] entries[k]).0 < fields
}

/// Gathers the primary key group as it was declared.
#[verifier::loop_isolation(false)]
pub fn collect_key_schemas(containers: &Vec<Container>) -> (entries: Vec<KeyEntry>)
    ensures
        entries@ == key_entries(views(containers@)),
        positions_below(entries@, containers@.len() as int),
{
    let ghost all = views(containers@);
    let mut entries: Vec<KeyEntry> = Vec::new();
    let mut i: usize = 0;
    assert(all.take(0) =~= Seq::empty());
    while i < containers.len()
        invariant
            i <= containers@.len(),
            entries@ == key_entries(all.take(i as int)),
            positions_below(entries@, i as int),
        decreases containers@.len() - i,
    {
        let roles = &containers[i].key_schemas;
        let ghost before = entries@;
        let mut j: usize = 0;
        while j < roles.len()
            invariant
                j <= roles@.len(),
                entries@ == before + entries_of(i as int, roles@.take(j as int)),
                positions_below(entries@, i + 1),
            decreases roles@.len() - j,
        {
            entries.push((i, roles[j]));
            j += 1;
            assert(entries_of(i as int, roles@.take(j as int)) =~= entries_of(
                i as int,
                roles@.take(j - 1),
            ).push((i, roles@[j - 1])));
        }
        proof {
            assert(roles@.take(roles@.len() as int) =~= roles@);
            assert(all.take(i + 1).drop_last() =~= all.take(i as int));
            assert(all.take(i + 1).last() == containers@[i as int]@);
        }
        i += 1;
    }
    assert(all.take(containers@.len() as int) =~= all);
    entries
}

/// The attribute definitions as they were declared: every scalar type that
/// the key markers of a field ask for, in the order of the fields.
pub open spec fn definition_entries(views: Seq<ContainerView>) -> Seq<(usize, ScalarAttributeType)>
    decreases views.len(),
{
    if views.len() == 0 {
        Seq::empty()
    } else {
        definition_entries(views.drop_last()) + entries_of(
            views.len() - 1,
            views.last().declared.attribute_definitions,
        )
    }
}

/// The wire attribute name of the field at `position`.
pub open spec fn attribute_name(views: Seq<ContainerView>, position: usize) -> Seq<char> {
    pascal_case(views[position as int].field_ident)
}

/// Whether `definitions` define the attribute that `entry` is about.
pub open spec fn defines(
    views: Seq<ContainerView>,
    definitions: Seq<(usize, ScalarAttributeType)>,
    entry: (usize, ScalarAttributeType),
) -> bool {
    exists|i: int|
        0 <= i < definitions.len() && attribute_name(views, #[trigger] definitions[i].0)
            == attribute_name(views, entry.0)
}

/// Whether `definitions` give the attribute that `entry` is about another
/// type than `entry` does.
pub open spec fn contradicts(
    views: Seq<ContainerView>,
    definitions: Seq<(usize, ScalarAttributeType)>,
    entry: (usize, ScalarAttributeType),
) -> bool {
    exists|i: int|
        0 <= i < definitions.len() && attribute_name(views, #[trigger] definitions[i].0)
            == attribute_name(views, entry.0) && definitions[i].1 != entry.1
}

/// The definitions after one more entry: an attribute is defined once, under
/// the first field that asks for it, and two fields that share an attribute
/// name have to agree on its type.
pub open spec fn define(
    views: Seq<ContainerView>,
    definitions: Seq<(usize, ScalarAttributeType)>,
    entry: (usize, ScalarAttributeType),
) -> Result<Seq<(usize, ScalarAttributeType)>, GenError> {
    if contradicts(views, definitions, entry) {
        Err(GenError::ConflictingAttributeType)
    } else if defines(views, definitions, entry) {
        Ok(definitions)
    } else {
        Ok(definitions.push(entry))
    }
}

/// [`define`] over the fields `views`.
pub open spec fn define_step(views: Seq<ContainerView>) -> spec_fn(
    Seq<(usize, ScalarAttributeType)>,
    (usize, ScalarAttributeType),
) -> Result<Seq<(usize, ScalarAttributeType)>, GenError> {
    |definitions: Seq<(usize, ScalarAttributeType)>, entry: (usize, ScalarAttributeType)|
        define(views, definitions, entry)
}

/// The attribute definitions of the table: one for every attribute that a
/// key of the table or of a secondary index is made of.
pub open spec fn attribute_definitions_of(views: Seq<ContainerView>) -> Result<
    Seq<(usize, ScalarAttributeType)>,
    GenError,
> {
    try_fold(Seq::empty(), definition_entries(views), define_step(views))
}

/// Gathers the attribute definitions as they were declared.
#[verifier::loop_isolation(false)]
pub fn collect_attribute_definitions(containers: &Vec<Container>) -> (entries: Vec<
    (usize, ScalarAttributeType),
>)
    ensures
        entries@ == definition_entries(views(containers@)),
        forall|k: int| 0 <= k < entries@.len() ==> (#[trigger] entries@[k]).0 < containers@.len(),
{
    let ghost all = views(containers@);
    let mut entries: Vec<(usize, ScalarAttributeType)> = Vec::new();
    let mut i: usize = 0;
    assert(all.take(0) =~= Seq::empty());
    while i < containers.len()
        invariant
            i <= containers@.len(),
            entries@ == definition_entries(all.take(i as int)),
            forall|k: int| 0 <= k < entries@.len() ==> (#[trigger] entries@[k]).0 < i,
        decreases containers@.len() - i,
    {
        let scalars = &containers[i].attribute_definitions;
        let ghost before = entries@;
        let mut j: usize = 0;
        while j < scalars.len()
            invariant
                j <= scalars@.len(),
                entries@ == before + entries_of(i as int, scalars@.take(j as int)),
                forall|k: int| 0 <= k < entries@.len() ==> (#[trigger] entries@[k]).0 <= i,
            decreases scalars@.len() - j,
        {
            entries.push((i, scalars[j]));
            j += 1;
            assert(entries_of(i as int, scalars@.take(j as int)) =~= entries_of(
                i as int,
                scalars@.take(j - 1),
            ).push((i, scalars@[j - 1])));
        }
        proof {
            assert(scalars@.take(scalars@.len() as int) =~= scalars@);
            assert(all.take(i + 1).drop_last() =~= all.take(i as int));
            assert(all.take(i + 1).last() == containers@[i as int]@);
        }
        i += 1;
    }
    assert(all.take(containers@.len() as int) =~= all);
    entries
}

/// Works out the attribute definitions of the table: the fields that any key
/// is made of, each attribute name once, with its scalar type.
#[verifier::loop_isolation(false)]
pub fn attribute_definitions(containers: &Vec<Container>) -> (res: Result<
    Vec<(usize, ScalarAttributeType)>,
    GenError,
>)
    ensures
        match attribute_definitions_of(views(containers@)) {
            Err(e) => res matches Err(err) && err == e,
            Ok(expected) => res matches Ok(definitions) && definitions@ == expected && forall|
                k: int,
            |
                0 <= k < definitions@.len() ==> (#[trigger] definitions@[k]).0 < containers@.len(),
        },
{
    let ghost all = views(containers@);
    let ghost step = define_step(all);
    let entries = collect_attribute_definitions(containers);
    let mut definitions: Vec<(usize, ScalarAttributeType)> = Vec::new();
    let mut i: usize = 0;
    assert(entries@.skip(0) =~= entries@);
    while i < entries.len()
        invariant
            i <= entries@.len(),
            forall|k: int|
                0 <= k < definitions@.len() ==> (#[trigger] definitions@[k]).0 < containers@.len(),
            try_fold(Seq::empty(), entries@, step) == try_fold(
                definitions@,
                entries@.skip(i as int),
                step,
            ),
        decreases entries@.len() - i,
    {
        let entry = entries[i];
        proof {
            assert(entries@.skip(i as int)[0] == entries@[i as int]);
            assert(entries@.skip(i as int).drop_first() =~= entries@.skip(i + 1));
            assert(try_fold(definitions@, entries@.skip(i as int), step) == match step(
                definitions@,
                entry,
            ) {
                Err(e) => Err(e),
                Ok(next) => try_fold(next, entries@.skip(i + 1), step),
            });
        }
        let name = to_pascal_case(containers[entry.0].field_ident);
        assert(name@ == attribute_name(all, entry.0));
        let mut known = false;
        let mut k: usize = 0;
        while k < definitions.len()
            invariant
                k <= definitions@.len(),
                known == defines(all, definitions@.take(k as int), entry),
                !contradicts(all, definitions@.take(k as int), entry),
            decreases definitions@.len() - k,
        {
            let other = definitions[k];
            let other_name = to_pascal_case(containers[other.0].field_ident);
            assert(other_name@ == attribute_name(all, other.0));
            let ghost seen = definitions@.take(k as int);
            let ghost next = definitions@.take(k + 1);
            proof {
                assert(next =~= seen.push(other));
                assert(forall|m: int| 0 <= m < seen.len() ==> seen[m] == next[m]);
                if defines(all, seen, entry) {
                    let m = choose|m: int|
                        0 <= m < seen.len() && attribute_name(all, #[trigger] seen[m].0)
                            == attribute_name(all, entry.0);
                    assert(next[m] == seen[m]);
                }
            }
            if same_text(other_name.as_str(), name.as_str()) {
                assert(next[k as int] == other);
                if other.1 != entry.1 {
                    assert(contradicts(all, next, entry));
                    proof {
                        lemma_contradicts_grows(all, next, definitions@, entry);
                    }
                    return Err(GenError::ConflictingAttributeType);
                }
                known = true;
                assert(defines(all, next, entry));
            }
            proof {
                if contradicts(all, next, entry) {
                    let m = choose|m: int|
                        0 <= m < next.len() && attribute_name(all, #[trigger] next[m].0)
                            == attribute_name(all, entry.0) && next[m].1 != entry.1;
                    if m < k {
                        assert(seen[m] == next[m]);
                    }
                }
                if defines(all, next, entry) && !known {
                    let m = choose|m: int|
                        0 <= m < next.len() && attribute_name(all, #[trigger] next[m].0)
                            == attribute_name(all, entry.0);
                    if m < k {
                        assert(seen[m] == next[m]);
                    }
                }
            }
            k += 1;
        }
        assert(definitions@.take(definitions@.len() as int) =~= definitions@);
        if !known {
            definitions.push(entry);
        }
        i += 1;
    }
    proof {
        assert(entries@.skip(entries@.len() as int) =~= Seq::empty());
    }
    Ok(definitions)
}

proof fn lemma_contradicts_grows(
    views: Seq<ContainerView>,
    part: Seq<(usize, ScalarAttributeType)>,
    whole: Seq<(usize, ScalarAttributeType)>,
    entry: (usize, ScalarAttributeType),
)
    requires
        contradicts(views, part, entry),
        part.len() <= whole.len(),
        forall|m: int| 0 <= m < part.len() ==> part[m] == whole[m],
    ensures
        contradicts(views, whole, entry),
{
    let m = choose|m: int|
        0 <= m < part.len() && attribute_name(views, #[trigger] part[m].0) == attribute_name(
            views,
            entry.0,
        ) && part[m].1 != entry.1;
    assert(whole[m] == part[m]);
}


/// The primary key of the table: the group as it was declared, checked and
/// with the partition key first.
pub open spec fn primary_key_of(views: Seq<ContainerView>) -> Result<Seq<KeyEntry>, GenError> {
    validated(key_entries(views))
}

/// Works out the primary key of the table. It has exactly one partition key
/// and at most one sort key, and the partition key comes first, wherever the
/// fields stand in the structure.
pub fn primary_key_schema(containers: &Vec<Container>) -> (res: Result<Vec<KeyEntry>, GenError>)
    ensures
        match primary_key_of(views(containers@)) {
            Err(e) => res matches Err(err) && err == e,
            Ok(expected) => res matches Ok(keys) && keys@ == expected && positions_below(
                keys@,
                containers@.len() as int,
            ),
        },
{
    let entries = collect_key_schemas(containers);
    let keys = validate_key_schemas(&entries)?;
    proof {
        lemma_sorted_by_role_keeps_entries(entries@);
    }
    Ok(keys)
}

/// The index groups that one field declares.
pub open spec fn index_groups_of(view: ContainerView, global: bool) -> Seq<
    (Seq<char>, Seq<KeySchemaType>),
> {
    if global {
        view.declared.global_secondary_indexes
    } else {
        view.declared.local_secondary_indexes
    }
}

/// `merged` with the roles that the field at `position` has in `groups`,
/// each added to the end of the group of its index.
pub open spec fn with_field_indexes(
    merged: Seq<(Seq<char>, Seq<KeyEntry>)>,
    position: int,
    groups: Seq<(Seq<char>, Seq<KeySchemaType>)>,
) -> Seq<(Seq<char>, Seq<KeyEntry>)>
    decreases groups.len(),
{
    if groups.len() == 0 {
        merged
    } else {
        extended(
            with_field_indexes(merged, position, groups.drop_last()),
            groups.last().0,
            entries_of(position, groups.last().1),
        )
    }
}

/// The secondary indexes as they were declared: under every index name the
/// roles of the fields in it, in the order of the fields. The names stand in
/// the order in which they were first met.
pub open spec fn index_entries(views: Seq<ContainerView>, global: bool) -> Seq<
    (Seq<char>, Seq<KeyEntry>),
>
    decreases views.len(),
{
    if views.len() == 0 {
        Seq::empty()
    } else {
        with_field_indexes(
            index_entries(views.drop_last(), global),
            views.len() - 1,
            index_groups_of(views.last(), global),
        )
    }
}

/// The check of one more group: it joins those that passed, sorted by role,
/// or fails the whole.
pub open spec fn validate_group_step() -> spec_fn(
    Seq<(Seq<char>, Seq<KeyEntry>)>,
    (Seq<char>, Seq<KeyEntry>),
) -> Result<Seq<(Seq<char>, Seq<KeyEntry>)>, GenError> {
    |done: Seq<(Seq<char>, Seq<KeyEntry>)>, group: (Seq<char>, Seq<KeyEntry>)|
        match validated(group.1) {
            Err(e) => Err(e),
            Ok(sorted) => Ok(done.push((group.0, sorted))),
        }
}

/// The secondary indexes of the table: every group as it was declared,
/// checked as the primary key is and with its partition key first. The first
/// group that breaks a rule refuses the table.
pub open spec fn secondary_indexes_of(views: Seq<ContainerView>, global: bool) -> Result<
    Seq<(Seq<char>, Seq<KeyEntry>)>,
    GenError,
> {
    try_fold(Seq::empty(), index_entries(views, global), validate_group_step())
}

/// Whether every entry of every group is about one of the first `fields`
/// fields.
pub open spec fn groups_below(groups: Seq<(Seq<char>, Seq<KeyEntry>)>, fields: int) -> bool {
    forall|g: int| 0 <= g < groups.len() ==> positions_below((#[trigger] groups[g]).1, fields)
}

proof fn lemma_extended_below(
    groups: Seq<(Seq<char>, Seq<KeyEntry>)>,
    name: Seq<char>,
    items: Seq<KeyEntry>,
    fields: int,
)
    requires
        groups_below(groups, fields),
        positions_below(items, fields),
    ensures
        groups_below(extended(groups, name, items), fields),
{
    let after = extended(groups, name, items);
    crate::groups::lemma_first_named(groups, name);
    assert forall|g: int| 0 <= g < after.len() implies positions_below(
        (#[trigger] after[g]).1,
        fields,
    ) by {
        if g < groups.len() {
            assert(positions_below(groups[g].1, fields));
            if after[g] != groups[g] {
                assert(after[g].1 == groups[g].1 + items);
            }
        } else {
            assert(after[g].1 == items);
        }
    }
}

/// Gathers the secondary indexes as they were declared, local or global.
#[verifier::loop_isolation(false)]
pub fn collect_secondary_indexes(containers: &Vec<Container>, global: bool) -> (merged:
    NamedGroups<KeyEntry>)
    ensures
        merged.wf(),
        merged@ == index_entries(views(containers@), global),
        groups_below(merged@, containers@.len() as int),
{
    let ghost all = views(containers@);
    let mut merged: NamedGroups<KeyEntry> = NamedGroups::new();
    let mut i: usize = 0;
    assert(all.take(0) =~= Seq::empty());
    while i < containers.len()
        invariant
            i <= containers@.len(),
            merged.wf(),
            merged@ == index_entries(all.take(i as int), global),
            groups_below(merged@, containers@.len() as int),
        decreases containers@.len() - i,
    {
        let groups = if global {
            &containers[i].global_secondary_index_key_schemas
        } else {
            &containers[i].local_secondary_index_key_schemas
        };
        assert(groups@ == index_groups_of(all[i as int], global));
        let ghost before = merged@;
        let mut g: usize = 0;
        assert(groups@.take(0) =~= Seq::empty());
        while g < groups.entries.len()
            invariant
                g <= groups@.len(),
                merged.wf(),
                merged@ == with_field_indexes(before, i as int, groups@.take(g as int)),
                groups_below(merged@, containers@.len() as int),
            decreases groups@.len() - g,
        {
            let roles = &groups.entries[g].1;
            let mut items: Vec<KeyEntry> = Vec::new();
            let mut j: usize = 0;
            while j < roles.len()
                invariant
                    j <= roles@.len(),
                    items@ == entries_of(i as int, roles@.take(j as int)),
                decreases roles@.len() - j,
            {
                items.push((i, roles[j]));
                j += 1;
                assert(entries_of(i as int, roles@.take(j as int)) =~= entries_of(
                    i as int,
                    roles@.take(j - 1),
                ).push((i, roles@[j - 1])));
            }
            proof {
                assert(roles@.take(roles@.len() as int) =~= roles@);
                assert(groups@.take(g + 1).drop_last() =~= groups@.take(g as int));
                assert(groups@.take(g + 1).last() == groups@[g as int]);
                lemma_extended_below(
                    merged@,
                    groups@[g as int].0,
                    items@,
                    containers@.len() as int,
                );
            }
            merged.extend(groups.entries[g].0.as_str(), &items);
            g += 1;
        }
        proof {
            assert(groups@.take(groups@.len() as int) =~= groups@);
            assert(all.take(i + 1).drop_last() =~= all.take(i as int));
            assert(all.take(i + 1).last() == all[i as int]);
        }
        i += 1;
    }
    assert(all.take(containers@.len() as int) =~= all);
    merged
}

/// Works out the secondary indexes of the table, local or global: under
/// every index name its key schema, partition key first.
#[verifier::loop_isolation(false)]
pub fn secondary_index_key_schemas(containers: &Vec<Container>, global: bool) -> (res: Result<
    NamedGroups<KeyEntry>,
    GenError,
>)
    ensures
        match secondary_indexes_of(views(containers@), global) {
            Err(e) => res matches Err(err) && err == e,
            Ok(expected) => res matches Ok(indexes) && indexes@ == expected && indexes.wf()
                && groups_below(indexes@, containers@.len() as int),
        },
{
    let merged = collect_secondary_indexes(containers, global);
    let ghost step = validate_group_step();
    let mut indexes: NamedGroups<KeyEntry> = NamedGroups { entries: Vec::new() };
    let mut i: usize = 0;
    assert(merged@.skip(0) =~= merged@);
    assert(indexes@ =~= Seq::empty());
    assert(group_names(indexes@) =~= group_names(merged@).take(0));
    while i < merged.entries.len()
        invariant
            i <= merged@.len(),
            group_names(indexes@) == group_names(merged@).take(i as int),
            groups_below(indexes@, containers@.len() as int),
            try_fold(Seq::empty(), merged@, step) == try_fold(
                indexes@,
                merged@.skip(i as int),
                step,
            ),
        decreases merged@.len() - i,
    {
        let ghost done = indexes@;
        proof {
            assert(merged@.skip(i as int)[0] == merged@[i as int]);
            assert(merged@.skip(i as int).drop_first() =~= merged@.skip(i + 1));
            assert(try_fold(done, merged@.skip(i as int), step) == match step(
                done,
                merged@[i as int],
            ) {
                Err(e) => Err(e),
                Ok(next) => try_fold(next, merged@.skip(i + 1), step),
            });
            assert(positions_below(merged@[i as int].1, containers@.len() as int));
        }
        let sorted = validate_key_schemas(&merged.entries[i].1)?;
        proof {
            lemma_sorted_by_role_keeps_entries(merged@[i as int].1);
        }
        indexes.entries.push((merged.entries[i].0.clone(), sorted));
        proof {
            assert(indexes@ =~= done.push((merged@[i as int].0, sorted@)));
            assert(group_names(indexes@) =~= group_names(merged@).take(i + 1));
            assert forall|g: int| 0 <= g < indexes@.len() implies positions_below(
                (#[trigger] indexes@[g]).1,
                containers@.len() as int,
            ) by {
                if g < done.len() {
                    assert(indexes@[g] == done[g]);
                }
            }
        }
        i += 1;
    }
    proof {
        assert(merged@.skip(merged@.len() as int) =~= Seq::empty());
        assert(group_names(merged@).take(merged@.len() as int) =~= group_names(merged@));
    }
    Ok(indexes)
}


/// The emitted accessor of the table name.
pub open spec fn get_table_name_fn_code(table_name: Seq<char>) -> Seq<char> {
    "fn get_table_name() -> &'static ::std::primitive::str { "@ + table_name + " }"@
}

/// Emits the accessor of the table name. `table_name` is the name as a
/// string literal.
pub fn expand_get_table_name_fn(table_name: &str) -> (code: String)
    ensures
        code@ == get_table_name_fn_code(table_name@),
{
    join3("fn get_table_name() -> &'static ::std::primitive::str { ", table_name, " }")
}

/// The field that a key-bearing field gives to the primary-key structure;
/// any other field gives none.
pub open spec fn primary_key_field() -> spec_fn(ContainerView) -> Seq<char> {
    |view: ContainerView|
        if view.declared.key_schemas.len() > 0 {
            "pub "@ + view.field_ident + ": "@ + view.ty.tokens@ + ", "@
        } else {
            Seq::empty()
        }
}

/// The emitted primary-key structure: the fields of the record that carry a
/// primary-key role, under the record's name with a postfix.
pub open spec fn primary_key_struct_code(
    vis: Seq<char>,
    struct_name: Seq<char>,
    views: Seq<ContainerView>,
) -> Seq<char> {
    "#[derive(Debug, Clone, Eq, PartialEq, Ord, PartialOrd)] "@ + vis + " struct "@ + struct_name
        + PRIMARY_KEY_INPUT_STRUCT_POSTFIX@ + " { "@ + concat_map(views, primary_key_field())
        + " }"@
}

/// Emits the structures that stand before the record's own items: the
/// primary-key structure.
#[verifier::loop_isolation(false)]
pub fn expand_prelude_structs(vis: &str, struct_name: &str, containers: &Vec<Container>) -> (structs:
    Vec<String>)
    ensures
        structs@.len() == 1,
        structs@[0]@ == primary_key_struct_code(vis@, struct_name@, views(containers@)),
{
    let ghost all = views(containers@);
    let ghost part = primary_key_field();
    let mut primary_key_fields = String::new();
    let mut i: usize = 0;
    assert(all.take(0) =~= Seq::empty());
    while i < containers.len()
        invariant
            i <= containers@.len(),
            primary_key_fields@ == concat_map(all.take(i as int), part),
        decreases containers@.len() - i,
    {
        let c = &containers[i];
        proof {
            lemma_concat_map_step(all, part, i as int);
        }
        if c.key_schemas.len() > 0 {
            let field = join5("pub ", c.field_ident, ": ", c.ty.tokens.as_str(), ", ");
            primary_key_fields.append(field.as_str());
        } else {
            assert(primary_key_fields@ + Seq::<char>::empty() =~= primary_key_fields@);
        }
        i += 1;
    }
    assert(all.take(containers@.len() as int) =~= all);
    let primary_key_input_struct = join7(
        "#[derive(Debug, Clone, Eq, PartialEq, Ord, PartialOrd)] ",
        vis,
        " struct ",
        struct_name,
        PRIMARY_KEY_INPUT_STRUCT_POSTFIX,
        " { ",
        primary_key_fields.as_str(),
    ).concat(" }");
    let mut structs: Vec<String> = Vec::new();
    structs.push(primary_key_input_struct);
    structs
}

/// The emitted call that hands one attribute definition to the builder.
pub open spec fn definition_call(views: Seq<ContainerView>) -> spec_fn(
    (usize, ScalarAttributeType),
) -> Seq<char> {
    |entry: (usize, ScalarAttributeType)|
        ".attribute_definitions("@ + attribute_definition_code(
            entry.1,
            attribute_name(views, entry.0),
        ) + ")"@
}

/// The emitted call that hands one key-schema element to the builder.
pub open spec fn key_schema_call(views: Seq<ContainerView>) -> spec_fn(KeyEntry) -> Seq<char> {
    |entry: KeyEntry|
        ".key_schema("@ + key_schema_code(attribute_name(views, entry.0), entry.1) + ")"@
}

/// The emitted contributor to a table-creation request: the table name, the
/// attribute definitions in the order of the fields, and the primary key
/// schema with the partition key first. Refused where two key fields
/// disagree on an attribute's type, and where the primary key breaks a rule.
pub open spec fn create_table_fn_code(views: Seq<ContainerView>, table_name: Seq<char>) -> Result<
    Seq<char>,
    GenError,
> {
    match attribute_definitions_of(views) {
        Err(e) => Err(e),
        Ok(definitions) => match primary_key_of(views) {
            Err(e) => Err(e),
            Ok(keys) => Ok(
                "fn create_table(mut builder: ::aws_sdk_dynamodb::operation::create_table::builders::CreateTableFluentBuilder) -> ::aws_sdk_dynamodb::operation::create_table::builders::CreateTableFluentBuilder { builder.table_name("@
                    + table_name + ")"@ + concat_map(definitions, definition_call(views))
                    + concat_map(keys, key_schema_call(views)) + " }"@,
            ),
        },
    }
}

/// Emits the contributor to a table-creation request.
#[verifier::loop_isolation(false)]
pub fn expand_create_table_fn(containers: &Vec<Container>, table_name: &str) -> (res: Result<
    String,
    GenError,
>)
    ensures
        match create_table_fn_code(views(containers@), table_name@) {
            Err(e) => res matches Err(err) && err == e,
            Ok(expected) => res matches Ok(code) && code@ == expected,
        },
{
    let ghost all = views(containers@);
    let definitions = attribute_definitions(containers)?;
    let key_schemas = primary_key_schema(containers)?;
    let ghost definition_part = definition_call(all);
    let mut attribute_definitions_token_stream = String::new();
    let mut i: usize = 0;
    assert(definitions@.take(0) =~= Seq::empty());
    while i < definitions.len()
        invariant
            i <= definitions@.len(),
            attribute_definitions_token_stream@ == concat_map(
                definitions@.take(i as int),
                definition_part,
            ),
        decreases definitions@.len() - i,
    {
        let (position, scalar) = definitions[i];
        proof {
            lemma_concat_map_step(definitions@, definition_part, i as int);
        }
        let call = join3(
            ".attribute_definitions(",
            scalar.expand_attribute_definition(containers[position].field_ident).as_str(),
            ")",
        );
        attribute_definitions_token_stream.append(call.as_str());
        i += 1;
    }
    assert(definitions@.take(definitions@.len() as int) =~= definitions@);
    let key_schema_token_stream = key_schema_calls(containers, &key_schemas);
    Ok(
        join6(
            "fn create_table(mut builder: ::aws_sdk_dynamodb::operation::create_table::builders::CreateTableFluentBuilder) -> ::aws_sdk_dynamodb::operation::create_table::builders::CreateTableFluentBuilder { builder.table_name(",
            table_name,
            ")",
            attribute_definitions_token_stream.as_str(),
            key_schema_token_stream.as_str(),
            " }",
        ),
    )
}

#[verifier::loop_isolation(false)]
fn key_schema_calls(containers: &Vec<Container>, key_schemas: &Vec<KeyEntry>) -> (code: String)
    requires
        positions_below(key_schemas@, containers@.len() as int),
    ensures
        code@ == concat_map(key_schemas@, key_schema_call(views(containers@))),
{
    let ghost part = key_schema_call(views(containers@));
    let mut code = String::new();
    let mut i: usize = 0;
    assert(key_schemas@.take(0) =~= Seq::empty());
    while i < key_schemas.len()
        invariant
            i <= key_schemas@.len(),
            code@ == concat_map(key_schemas@.take(i as int), part),
        decreases key_schemas@.len() - i,
    {
        let (position, key_type) = key_schemas[i];
        proof {
            lemma_concat_map_step(key_schemas@, part, i as int);
        }
        let call = join3(
            ".key_schema(",
            expand_key_schema(containers[position].field_ident, key_type).as_str(),
            ")",
        );
        code.append(call.as_str());
        i += 1;
    }
    assert(key_schemas@.take(key_schemas@.len() as int) =~= key_schemas@);
    code
}

/// The emitted conversion of a wire map into the record. It fails with the
/// first wire value that does not fit, and hands out no record then.
pub open spec fn from_attribute_value_fn_code(views: Seq<ContainerView>, source: Seq<char>) -> Seq<
    char,
> {
    "fn from_attribute_value("@ + source
        + ": &::std::collections::HashMap<::std::string::String, ::aws_sdk_dynamodb::types::AttributeValue>) -> Result<Self, ::aws_sdk_dynamodb::types::AttributeValue> { Ok(Self { "@
        + join_map(views, field_initializer(), ", "@) + " }) }"@
}

/// Emits the conversion of a wire map into the record.
pub fn expand_from_attribute_value_fn(containers: &Vec<Container>, from_attribute_ident: &str) -> (code:
    String)
    ensures
        code@ == from_attribute_value_fn_code(views(containers@), from_attribute_ident@),
{
    let fields = field_initializers(containers);
    join5(
        "fn from_attribute_value(",
        from_attribute_ident,
        ": &::std::collections::HashMap<::std::string::String, ::aws_sdk_dynamodb::types::AttributeValue>) -> Result<Self, ::aws_sdk_dynamodb::types::AttributeValue> { Ok(Self { ",
        fields.as_str(),
        " }) }",
    )
}

/// The emitted call that hands the wire item of one field to the builder.
pub open spec fn item_call() -> spec_fn(ContainerView) -> Seq<char> {
    |view: ContainerView|
        ".item("@ + string_literal(pascal_case(view.field_ident)) + ".to_string(), "@
            + view.encoder + ")"@
}

/// The emitted contributor to an item-write request: the table name and one
/// wire item for every field, in the order of the fields.
pub open spec fn put_item_fn_code(views: Seq<ContainerView>, table_name: Seq<char>) -> Seq<char> {
    "fn put_item(&self, mut builder: ::aws_sdk_dynamodb::operation::put_item::builders::PutItemFluentBuilder) -> aws_sdk_dynamodb::operation::put_item::builders::PutItemFluentBuilder { builder.table_name("@
        + table_name + ")"@ + concat_map(views, item_call()) + " }"@
}

/// Emits the contributor to an item-write request.
#[verifier::loop_isolation(false)]
pub fn expand_put_item_fn(containers: &Vec<Container>, table_name: &str) -> (code: String)
    ensures
        code@ == put_item_fn_code(views(containers@), table_name@),
{
    let ghost all = views(containers@);
    let ghost part = item_call();
    let mut to_items = String::new();
    let mut i: usize = 0;
    assert(all.take(0) =~= Seq::empty());
    while i < containers.len()
        invariant
            i <= containers@.len(),
            to_items@ == concat_map(all.take(i as int), part),
        decreases containers@.len() - i,
    {
        let c = &containers[i];
        proof {
            lemma_concat_map_step(all, part, i as int);
        }
        let ident_lit = literal_string(to_pascal_case(c.field_ident).as_str());
        let item = join5(
            ".item(",
            ident_lit.as_str(),
            ".to_string(), ",
            c.to_attribute_token_stream.as_str(),
            ")",
        );
        to_items.append(item.as_str());
        i += 1;
    }
    assert(all.take(containers@.len() as int) =~= all);
    join5(
        "fn put_item(&self, mut builder: ::aws_sdk_dynamodb::operation::put_item::builders::PutItemFluentBuilder) -> aws_sdk_dynamodb::operation::put_item::builders::PutItemFluentBuilder { builder.table_name(",
        table_name,
        ")",
        to_items.as_str(),
        " }",
    )
}

/// The emitted statement that puts the key attribute of one key-bearing
/// field into the lookup key; a field without a primary-key role adds none,
/// and a key-bearing field whose type has no shape refuses the whole.
pub open spec fn primary_key_insert() -> spec_fn(Seq<char>, ContainerView) -> Result<
    Seq<char>,
    GenError,
> {
    |done: Seq<char>, view: ContainerView|
        if view.declared.key_schemas.len() == 0 {
            Ok(done)
        } else {
            match classify(view.ty.expr) {
                Err(e) => Err(e),
                Ok(tag) => Ok(
                    done + "primary_keys.insert("@ + string_literal(pascal_case(view.field_ident))
                        + ".to_string(), ::aws_sdk_dynamodb::types::AttributeValue::"@ + tag.name()
                        + "(input."@ + view.field_ident + ".to_string())); "@,
                ),
            }
        }
}

/// The emitted conversion of a primary-key structure into the wire map of
/// the key attributes alone, for point lookups.
pub open spec fn get_primary_keys_fn_code(struct_name: Seq<char>, views: Seq<ContainerView>)
    -> Result<Seq<char>, GenError> {
    match try_fold(Seq::empty(), views, primary_key_insert()) {
        Err(e) => Err(e),
        Ok(inserts) => Ok(
            "fn get_primary_keys(input: "@ + struct_name + PRIMARY_KEY_INPUT_STRUCT_POSTFIX@
                + ") -> ::std::collections::HashMap<::std::string::String, ::aws_sdk_dynamodb::types::AttributeValue> { let mut primary_keys = ::std::collections::HashMap::new(); "@
                + inserts + "primary_keys }"@,
        ),
    }
}

/// Emits the conversion of a primary-key structure into the wire map of the
/// key attributes.
#[verifier::loop_isolation(false)]
pub fn expand_get_primary_keys_fn(struct_name: &str, containers: &Vec<Container>) -> (res: Result<
    String,
    GenError,
>)
    ensures
        match get_primary_keys_fn_code(struct_name@, views(containers@)) {
            Err(e) => res matches Err(err) && err == e,
            Ok(expected) => res matches Ok(code) && code@ == expected,
        },
{
    let ghost all = views(containers@);
    let ghost step = primary_key_insert();
    let mut primary_key_fields = String::new();
    let mut i: usize = 0;
    assert(all.skip(0) =~= all);
    while i < containers.len()
        invariant
            i <= containers@.len(),
            try_fold(Seq::empty(), all, step) == try_fold(
                primary_key_fields@,
                all.skip(i as int),
                step,
            ),
        decreases containers@.len() - i,
    {
        let c = &containers[i];
        let ghost done = primary_key_fields@;
        proof {
            assert(all.skip(i as int)[0] == all[i as int]);
            assert(all.skip(i as int).drop_first() =~= all.skip(i + 1));
            assert(try_fold(done, all.skip(i as int), step) == match step(done, all[i as int]) {
                Err(e) => Err(e),
                Ok(next) => try_fold(next, all.skip(i + 1), step),
            });
        }
        if c.key_schemas.len() > 0 {
            let ty = classify_type(&c.ty.expr)?;
            let ident_to_key = literal_string(to_pascal_case(c.field_ident).as_str());
            let insert = join7(
                "primary_keys.insert(",
                ident_to_key.as_str(),
                ".to_string(), ::aws_sdk_dynamodb::types::AttributeValue::",
                ty.as_str(),
                "(input.",
                c.field_ident,
                ".to_string())); ",
            );
            proof {
                assert(done + insert@ =~= done + "primary_keys.insert("@ + string_literal(
                    pascal_case(c.field_ident@),
                ) + ".to_string(), ::aws_sdk_dynamodb::types::AttributeValue::"@ + ty.name()
                    + "(input."@ + c.field_ident@ + ".to_string())); "@);
            }
            primary_key_fields.append(insert.as_str());
        }
        i += 1;
    }
    proof {
        assert(all.skip(containers@.len() as int) =~= Seq::empty());
    }
    Ok(
        join5(
            "fn get_primary_keys(input: ",
            struct_name,
            PRIMARY_KEY_INPUT_STRUCT_POSTFIX,
            ") -> ::std::collections::HashMap<::std::string::String, ::aws_sdk_dynamodb::types::AttributeValue> { let mut primary_keys = ::std::collections::HashMap::new(); ",
            primary_key_fields.as_str(),
        ).concat("primary_keys }"),
    )
}


/// The variable that the emitted accessor collects the indexes in.
pub open spec fn index_variable(global: bool) -> Seq<char> {
    if global {
        "gsi_key_schemas"@
    } else {
        "lsi_key_schemas"@
    }
}

/// The name of the emitted accessor.
pub open spec fn index_fn_name(global: bool) -> Seq<char> {
    if global {
        "get_global_secondary_index_key_schemas"@
    } else {
        "get_local_secondary_index_key_schemas"@
    }
}

/// The emitted statement that adds one key-schema element to the schema of
/// the index `index_name`.
pub open spec fn index_push(views: Seq<ContainerView>, variable: Seq<char>, index_name: Seq<char>)
    -> spec_fn(KeyEntry) -> Seq<char> {
    |entry: KeyEntry|
        variable + ".entry("@ + string_literal(index_name) + ".to_string()).or_default().push("@
            + key_schema_code(attribute_name(views, entry.0), entry.1) + "); "@
}

/// The emitted statements that build the schema of one index.
pub open spec fn index_pushes(views: Seq<ContainerView>, variable: Seq<char>) -> spec_fn(
    (Seq<char>, Seq<KeyEntry>),
) -> Seq<char> {
    |group: (Seq<char>, Seq<KeyEntry>)|
        concat_map(group.1, index_push(views, variable, group.0))
}

/// The emitted accessor of the secondary-index schemas, local or global: a
/// map from every index name to its key schema, partition key first.
/// Refused where the group of an index breaks a rule.
pub open spec fn secondary_index_fn_code(views: Seq<ContainerView>, global: bool) -> Result<
    Seq<char>,
    GenError,
> {
    match secondary_indexes_of(views, global) {
        Err(e) => Err(e),
        Ok(indexes) => Ok(
            "fn "@ + index_fn_name(global)
                + "() -> ::std::collections::HashMap<::std::string::String, Vec<::aws_sdk_dynamodb::types::KeySchemaElement>> { let mut "@
                + index_variable(global)
                + ": std::collections::HashMap<String, Vec<aws_sdk_dynamodb::types::KeySchemaElement>> = std::collections::HashMap::new(); "@
                + concat_map(indexes, index_pushes(views, index_variable(global))) + "; "@
                + index_variable(global) + " }"@,
        ),
    }
}

/// Emits the accessor of the secondary-index schemas, local or global.
#[verifier::loop_isolation(false)]
pub fn expand_secondary_index_key_schemas_fn(containers: &Vec<Container>, global: bool) -> (res:
    Result<String, GenError>)
    ensures
        match secondary_index_fn_code(views(containers@), global) {
            Err(e) => res matches Err(err) && err == e,
            Ok(expected) => res matches Ok(code) && code@ == expected,
        },
{
    let ghost all = views(containers@);
    let indexes = secondary_index_key_schemas(containers, global)?;
    let variable = if global {
        "gsi_key_schemas"
    } else {
        "lsi_key_schemas"
    };
    let name = if global {
        "get_global_secondary_index_key_schemas"
    } else {
        "get_local_secondary_index_key_schemas"
    };
    let ghost part = index_pushes(all, variable@);
    let mut key_schema_token_stream = String::new();
    let mut g: usize = 0;
    assert(indexes@.take(0) =~= Seq::empty());
    while g < indexes.entries.len()
        invariant
            g <= indexes@.len(),
            key_schema_token_stream@ == concat_map(indexes@.take(g as int), part),
        decreases indexes@.len() - g,
    {
        let index_name = literal_string(indexes.entries[g].0.as_str());
        let ks = &indexes.entries[g].1;
        assert(ks@ == indexes@[g as int].1);
        assert(positions_below(ks@, containers@.len() as int));
        let ghost push = index_push(all, variable@, indexes@[g as int].0);
        let mut pushes = String::new();
        let mut k: usize = 0;
        assert(ks@.take(0) =~= Seq::empty());
        while k < ks.len()
            invariant
                k <= ks@.len(),
                pushes@ == concat_map(ks@.take(k as int), push),
            decreases ks@.len() - k,
        {
            let (position, key_schema_type) = ks[k];
            proof {
                lemma_concat_map_step(ks@, push, k as int);
            }
            let statement = join6(
                variable,
                ".entry(",
                index_name.as_str(),
                ".to_string()).or_default().push(",
                expand_key_schema(containers[position].field_ident, key_schema_type).as_str(),
                "); ",
            );
            pushes.append(statement.as_str());
            k += 1;
        }
        proof {
            assert(ks@.take(ks@.len() as int) =~= ks@);
            lemma_concat_map_step(indexes@, part, g as int);
        }
        key_schema_token_stream.append(pushes.as_str());
        g += 1;
    }
    assert(indexes@.take(indexes@.len() as int) =~= indexes@);
    Ok(
        join7(
            "fn ",
            name,
            "() -> ::std::collections::HashMap<::std::string::String, Vec<::aws_sdk_dynamodb::types::KeySchemaElement>> { let mut ",
            variable,
            ": std::collections::HashMap<String, Vec<aws_sdk_dynamodb::types::KeySchemaElement>> = std::collections::HashMap::new(); ",
            key_schema_token_stream.as_str(),
            "; ",
        ).concat(variable).concat(" }"),
    )
}

/// Emits the accessor of the local secondary-index schemas.
pub fn expand_local_secondary_index_key_schemas_fn(containers: &Vec<Container>) -> (res: Result<
    String,
    GenError,
>)
    ensures
        match secondary_index_fn_code(views(containers@), false) {
            Err(e) => res matches Err(err) && err == e,
            Ok(expected) => res matches Ok(code) && code@ == expected,
        },
{
    expand_secondary_index_key_schemas_fn(containers, false)
}

/// Emits the accessor of the global secondary-index schemas.
pub fn expand_global_secondary_index_key_schemas_fn(containers: &Vec<Container>) -> (res: Result<
    String,
    GenError,
>)
    ensures
        match secondary_index_fn_code(views(containers@), true) {
            Err(e) => res matches Err(err) && err == e,
            Ok(expected) => res matches Ok(code) && code@ == expected,
        },
{
    expand_secondary_index_key_schemas_fn(containers, true)
}

/// The primary key of a table has its partition key first and its sort key,
/// if it has one, second, in whatever order the fields were declared.
pub proof fn lemma_primary_key_is_ordered(views: Seq<ContainerView>)
    requires
        primary_key_of(views) is Ok,
    ensures
        valid_group(key_entries(views)),
        1 <= primary_key_of(views).unwrap().len() <= 2,
        primary_key_of(views).unwrap()[0].1 == KeySchemaType::HashKey,
        primary_key_of(views).unwrap().len() == 2 ==> primary_key_of(views).unwrap()[1].1
            == KeySchemaType::RangeKey,
{
    lemma_partition_key_first(key_entries(views));
}

/// The groups that pass the check come out under their names and in their
/// order, each sorted by role.
pub proof fn lemma_validated_groups(
    done: Seq<(Seq<char>, Seq<KeyEntry>)>,
    groups: Seq<(Seq<char>, Seq<KeyEntry>)>,
)
    requires
        try_fold(done, groups, validate_group_step()) is Ok,
    ensures
        try_fold(done, groups, validate_group_step()).unwrap().len() == done.len() + groups.len(),
        forall|i: int|
            0 <= i < done.len() ==> try_fold(done, groups, validate_group_step()).unwrap()[i]
                == done[i],
        forall|j: int|
            0 <= j < groups.len() ==> valid_group((#[trigger] groups[j]).1) && try_fold(
                done,
                groups,
                validate_group_step(),
            ).unwrap()[done.len() + j] == (groups[j].0, sorted_by_role(groups[j].1)),
    decreases groups.len(),
{
    if groups.len() > 0 {
        let step = validate_group_step();
        let next = step(done, groups[0]).unwrap();
        assert(next == done.push((groups[0].0, sorted_by_role(groups[0].1))));
        lemma_validated_groups(next, groups.drop_first());
        let result = try_fold(done, groups, step).unwrap();
        assert(result == try_fold(next, groups.drop_first(), step).unwrap());
        assert forall|j: int| 0 <= j < groups.len() implies valid_group((#[trigger] groups[j]).1)
            && result[done.len() + j] == (groups[j].0, sorted_by_role(groups[j].1)) by {
            if j == 0 {
                assert(result[done.len() as int] == next[done.len() as int]);
            } else {
                assert(groups.drop_first()[j - 1] == groups[j]);
                assert(result[next.len() + (j - 1)] == (
                    groups.drop_first()[j - 1].0,
                    sorted_by_role(groups.drop_first()[j - 1].1),
                ));
            }
        }
        assert forall|i: int| 0 <= i < done.len() implies result[i] == done[i] by {
            assert(next[i] == done[i]);
        }
    }
}

/// Every secondary index of a table comes out under the name it was
/// declared with, as a key schema of one or two elements with the partition
/// key first, on whichever fields and in whatever order its roles were
/// declared.
pub proof fn lemma_secondary_indexes_are_ordered(views: Seq<ContainerView>, global: bool, g: int)
    requires
        secondary_indexes_of(views, global) is Ok,
        0 <= g < index_entries(views, global).len(),
    ensures
        secondary_indexes_of(views, global).unwrap().len() == index_entries(views, global).len(),
        secondary_indexes_of(views, global).unwrap()[g].0 == index_entries(views, global)[g].0,
        secondary_indexes_of(views, global).unwrap()[g].1 == sorted_by_role(
            index_entries(views, global)[g].1,
        ),
        1 <= secondary_indexes_of(views, global).unwrap()[g].1.len() <= 2,
        secondary_indexes_of(views, global).unwrap()[g].1.len() == index_entries(
            views,
            global,
        )[g].1.len(),
        secondary_indexes_of(views, global).unwrap()[g].1[0].1 == KeySchemaType::HashKey,
        secondary_indexes_of(views, global).unwrap()[g].1.len() == 2 ==> secondary_indexes_of(
            views,
            global,
        ).unwrap()[g].1[1].1 == KeySchemaType::RangeKey,
{
    let declared = index_entries(views, global);
    lemma_validated_groups(Seq::empty(), declared);
    let result = secondary_indexes_of(views, global).unwrap();
    assert(valid_group(declared[g].1));
    assert(result[0 + g] == (declared[g].0, sorted_by_role(declared[g].1)));
    lemma_partition_key_first(declared[g].1);
}


/// The emitted conversions of a table record: those of its fields written
/// over `value`, markers read as for the table itself.
pub open spec fn table_conversions(ident: Seq<char>, fields: Seq<Field>) -> Result<
    Seq<Seq<char>>,
    GenError,
> {
    match field_views(fields, "value"@, "value"@, true) {
        Err(e) => Err(e),
        Ok(views) => Ok(impl_conversions(ident, views)),
    }
}

/// Emits the conversions between a table record and a wire map.
pub fn expand_impl_conversions(ident: &str, fields: &Vec<Field>) -> (res: Result<
    Vec<String>,
    GenError,
>)
    ensures
        match table_conversions(ident@, fields@) {
            Err(e) => res matches Err(err) && err == e,
            Ok(expected) => res matches Ok(impls) && crate::container::texts(impls@) == expected,
        },
{
    let to_attribute_ident = "value";
    let from_attribute_ident = "value";
    let containers = get_attribute_types_containers(
        fields,
        to_attribute_ident,
        from_attribute_ident,
    )?;
    expand_container_conversions(ident, &containers)
}

/// The items of the record's own implementation block, each under the
/// record's visibility.
pub open spec fn table_items(
    vis: Seq<char>,
    get_table_name: Seq<char>,
    create_table: Seq<char>,
    local: Seq<char>,
    global: Seq<char>,
    from_attribute_value: Seq<char>,
    put_item: Seq<char>,
    get_primary_keys: Seq<char>,
) -> Seq<char> {
    vis + " "@ + get_table_name + " "@ + vis + " "@ + create_table + " "@ + vis + " "@ + local
        + " "@ + vis + " "@ + global + " "@ + vis + " "@ + from_attribute_value + " "@ + vis
        + " "@ + put_item + " "@ + vis + " "@ + get_primary_keys
}

/// Everything that is emitted for a table record: the primary-key structure,
/// the conversions between the record and a wire map, and the record's own
/// items. Nothing is emitted unless everything can be: the first failure, in
/// the order in which the parts are worked out, is the result.
pub open spec fn table_code(input: DeriveInput) -> Result<Seq<char>, GenError> {
    match table_name_of(input.ident@, input.attrs@) {
        Err(e) => Err(e),
        Ok(table_name) => match input.data {
            Data::Other => Err(GenError::OnlyStruct),
            Data::Struct(fields) => match field_views(fields@, "self"@, "value"@, true) {
                Err(e) => Err(e),
                Ok(views) => match create_table_fn_code(views, table_name) {
                    Err(e) => Err(e),
                    Ok(create_table) => match secondary_index_fn_code(views, false) {
                        Err(e) => Err(e),
                        Ok(local) => match secondary_index_fn_code(views, true) {
                            Err(e) => Err(e),
                            Ok(global) => match get_primary_keys_fn_code(input.ident@, views) {
                                Err(e) => Err(e),
                                Ok(get_primary_keys) => match table_conversions(
                                    input.ident@,
                                    fields@,
                                ) {
                                    Err(e) => Err(e),
                                    Ok(conversions) => Ok(
                                        primary_key_struct_code(
                                            input.vis@,
                                            input.ident@,
                                            views,
                                        ) + " "@ + allowed(conversions)
                                            + "#[allow(clippy::map_clone)] #[allow(clippy::needless_question_mark)] #[allow(dead_code)] impl "@
                                            + input.generics@ + " "@ + input.ident@ + " "@
                                            + input.generics@ + " { "@ + table_items(
                                            input.vis@,
                                            get_table_name_fn_code(table_name),
                                            create_table,
                                            local,
                                            global,
                                            from_attribute_value_fn_code(views, "value"@),
                                            put_item_fn_code(views, table_name),
                                            get_primary_keys,
                                        ) + " }"@,
                                    ),
                                },
                            },
                        },
                    },
                },
            },
        },
    }
}

/// Puts the items of the implementation block one after the other, each
/// under the visibility.
fn join_items(
    vis: &str,
    get_table_name: &str,
    create_table: &str,
    local: &str,
    global: &str,
    from_attribute_value: &str,
    put_item: &str,
    get_primary_keys: &str,
) -> (code: String)
    ensures
        code@ == table_items(
            vis@,
            get_table_name@,
            create_table@,
            local@,
            global@,
            from_attribute_value@,
            put_item@,
            get_primary_keys@,
        ),
{
    let mut code = join4(vis, " ", get_table_name, " ");
    code.append(vis);
    code.append(" ");
    code.append(create_table);
    code.append(" ");
    code.append(vis);
    code.append(" ");
    code.append(local);
    code.append(" ");
    code.append(vis);
    code.append(" ");
    code.append(global);
    code.append(" ");
    code.append(vis);
    code.append(" ");
    code.append(from_attribute_value);
    code.append(" ");
    code.append(vis);
    code.append(" ");
    code.append(put_item);
    code.append(" ");
    code.append(vis);
    code.append(" ");
    code.append(get_primary_keys);
    code
}

/// Generates everything for a table record: checks the definition, works
/// out the schema, and emits the text of the primary-key structure, of the
/// conversions and of the record's own items.
pub fn expand_table(input: &DeriveInput) -> (res: Result<String, GenError>)
    ensures
        match table_code(*input) {
            Err(e) => res matches Err(err) && err == e,
            Ok(expected) => res matches Ok(code) && code@ == expected,
        },
{
    let ident = input.ident.as_str();
    let vis = input.vis.as_str();
    let generics = input.generics.as_str();
    let table_name = get_table_name(ident, &input.attrs)?;
    let fields = match &input.data {
        Data::Struct(fields) => fields,
        _ => {
            return Err(GenError::OnlyStruct);
        },
    };
    let to_attribute_ident = "self";
    let from_attribute_ident = "value";
    let attribute_types_containers = get_attribute_types_containers(
        fields,
        to_attribute_ident,
        from_attribute_ident,
    )?;
    let prelude_structs = expand_prelude_structs(vis, ident, &attribute_types_containers);
    let get_table_name_fn = expand_get_table_name_fn(table_name.as_str());
    let create_table_fn = expand_create_table_fn(&attribute_types_containers, table_name.as_str())?;
    let local_secondary_index_key_schemas_fn = expand_local_secondary_index_key_schemas_fn(
        &attribute_types_containers,
    )?;
    let global_secondary_index_key_schemas_fn = expand_global_secondary_index_key_schemas_fn(
        &attribute_types_containers,
    )?;
    let from_attribute_value_fn = expand_from_attribute_value_fn(
        &attribute_types_containers,
        from_attribute_ident,
    );
    let put_item_fn = expand_put_item_fn(&attribute_types_containers, table_name.as_str());
    let get_primary_keys_fn = expand_get_primary_keys_fn(ident, &attribute_types_containers)?;
    let conversions = expand_impl_conversions(ident, fields)?;
    let conversions = crate::container::allow_all(&conversions);
    let items = join_items(
        vis,
        get_table_name_fn.as_str(),
        create_table_fn.as_str(),
        local_secondary_index_key_schemas_fn.as_str(),
        global_secondary_index_key_schemas_fn.as_str(),
        from_attribute_value_fn.as_str(),
        put_item_fn.as_str(),
        get_primary_keys_fn.as_str(),
    );
    let mut code = join7(
        prelude_structs[0].as_str(),
        " ",
        conversions.as_str(),
        "#[allow(clippy::map_clone)] #[allow(clippy::needless_question_mark)] #[allow(dead_code)] impl ",
        generics,
        " ",
        ident,
    );
    code.append(" ");
    code.append(generics);
    code.append(" { ");
    code.append(items.as_str());
    code.append(" }");
    Ok(code)
}


/// The first of `fields` that is refused on its own account: for want of a
/// name, for its type, or for a marker above it.
pub open spec fn first_refused(fields: Seq<Field>, markers: bool) -> Option<int>
    decreases fields.len(),
{
    if fields.len() == 0 {
        None
    } else if first_refused(fields.drop_last(), markers) is Some {
        first_refused(fields.drop_last(), markers)
    } else if field_view(fields.last(), "self"@, "value"@, markers) is Err {
        Some(fields.len() - 1)
    } else {
        None
    }
}

/// Finds the first field that is refused on its own account, so that a
/// failure of the whole can be reported at it.
#[verifier::loop_isolation(false)]
pub fn locate_refused_field(fields: &Vec<Field>, markers: bool) -> (res: Option<usize>)
    ensures
        match res {
            Some(at) => at < fields@.len() && first_refused(fields@, markers) == Some(at as int),
            None => first_refused(fields@, markers) is None,
        },
{
    let mut i: usize = 0;
    assert(fields@.take(0) =~= Seq::empty());
    while i < fields.len()
        invariant
            i <= fields@.len(),
            first_refused(fields@.take(i as int), markers) is None,
        decreases fields@.len() - i,
    {
        proof {
            assert(fields@.take(i + 1).drop_last() =~= fields@.take(i as int));
            assert(fields@.take(i + 1).last() == fields@[i as int]);
        }
        if container_of_field(&fields[i], "self", "value", markers).is_err() {
            proof {
                lemma_first_refused_found(fields@, markers, i as int);
            }
            return Some(i);
        }
        i += 1;
    }
    assert(fields@.take(fields@.len() as int) =~= fields@);
    None
}

proof fn lemma_first_refused_found(fields: Seq<Field>, markers: bool, at: int)
    requires
        0 <= at < fields.len(),
        first_refused(fields.take(at), markers) is None,
        field_view(fields[at], "self"@, "value"@, markers) is Err,
    ensures
        first_refused(fields, markers) == Some(at),
    decreases fields.len(),
{
    if at == fields.len() - 1 {
        assert(fields.drop_last() =~= fields.take(at));
    } else {
        assert(fields.drop_last().take(at) =~= fields.take(at));
        lemma_first_refused_found(fields.drop_last(), markers, at);
    }
}

/// The fields of a structure are refused exactly where one of them is
/// refused on its own account, and for the reason of the first such field,
/// whatever names the expressions are written over.
pub proof fn lemma_refused_field(
    fields: Seq<Field>,
    target: Seq<char>,
    source: Seq<char>,
    markers: bool,
)
    ensures
        match first_refused(fields, markers) {
            Some(at) => 0 <= at < fields.len() && field_view(fields[at], target, source, markers)
                is Err && field_views(fields, target, source, markers) == Err::<
                Seq<ContainerView>,
                GenError,
            >(field_view(fields[at], target, source, markers)->Err_0),
            None => field_views(fields, target, source, markers) is Ok,
        },
{
    lemma_first_refused_bounds(fields, markers);
    lemma_fold_fields(Seq::empty(), fields, target, source, markers);
}

proof fn lemma_first_refused_bounds(fields: Seq<Field>, markers: bool)
    ensures
        match first_refused(fields, markers) {
            Some(at) => 0 <= at < fields.len() && field_view(fields[at], "self"@, "value"@, markers)
                is Err && forall|j: int|
                0 <= j < at ==> #[trigger] field_view(fields[j], "self"@, "value"@, markers) is Ok,
            None => forall|j: int|
                0 <= j < fields.len() ==> #[trigger] field_view(
                    fields[j],
                    "self"@,
                    "value"@,
                    markers,
                ) is Ok,
        },
    decreases fields.len(),
{
    if fields.len() > 0 {
        lemma_first_refused_bounds(fields.drop_last(), markers);
        let front = fields.drop_last();
        assert forall|j: int| 0 <= j < front.len() implies front[j] == fields[j] by {}
        match first_refused(front, markers) {
            Some(at) => {
                assert(front[at] == fields[at]);
                assert forall|j: int| 0 <= j < at implies #[trigger] field_view(
                    fields[j],
                    "self"@,
                    "value"@,
                    markers,
                ) is Ok by {
                    assert(front[j] == fields[j]);
                    assert(field_view(front[j], "self"@, "value"@, markers) is Ok);
                }
            },
            None => {
                assert forall|j: int| 0 <= j < front.len() implies #[trigger] field_view(
                    fields[j],
                    "self"@,
                    "value"@,
                    markers,
                ) is Ok by {
                    assert(front[j] == fields[j]);
                    assert(field_view(front[j], "self"@, "value"@, markers) is Ok);
                }
            },
        }
    }
}

proof fn lemma_fold_fields(
    done: Seq<ContainerView>,
    fields: Seq<Field>,
    target: Seq<char>,
    source: Seq<char>,
    markers: bool,
)
    ensures
        match first_refused(fields, markers) {
            Some(at) => 0 <= at < fields.len() && field_view(fields[at], target, source, markers)
                is Err && try_fold(done, fields, field_step(target, source, markers)) == Err::<
                Seq<ContainerView>,
                GenError,
            >(field_view(fields[at], target, source, markers)->Err_0),
            None => try_fold(done, fields, field_step(target, source, markers)) is Ok,
        },
    decreases fields.len(),
{
    lemma_first_refused_bounds(fields, markers);
    if fields.len() > 0 {
        let step = field_step(target, source, markers);
        let rest = fields.drop_first();
        lemma_first_refused_bounds(rest, markers);
        assert forall|j: int| 0 <= j < rest.len() implies rest[j] == fields[j + 1] by {}
        match field_view(fields[0], target, source, markers) {
            Err(e) => {
                assert(field_view(fields[0], "self"@, "value"@, markers) is Err);
                if first_refused(fields, markers) != Some(0int) {
                    match first_refused(fields, markers) {
                        Some(at) => {
                            assert(field_view(fields[0], "self"@, "value"@, markers) is Ok);
                        },
                        None => {
                            assert(field_view(fields[0], "self"@, "value"@, markers) is Ok);
                        },
                    }
                }
            },
            Ok(view) => {
                assert(field_view(fields[0], "self"@, "value"@, markers) is Ok);
                lemma_fold_fields(done.push(view), rest, target, source, markers);
                match first_refused(rest, markers) {
                    Some(at) => {
                        assert(rest[at] == fields[at + 1]);
                        if first_refused(fields, markers) != Some(at + 1) {
                            match first_refused(fields, markers) {
                                Some(other) => {
                                    if other < at + 1 {
                                        if other > 0 {
                                            assert(rest[other - 1] == fields[other]);
                                            assert(field_view(
                                                rest[other - 1],
                                                "self"@,
                                                "value"@,
                                                markers,
                                            ) is Ok);
                                        }
                                    } else {
                                        assert(field_view(
                                            fields[at + 1],
                                            "self"@,
                                            "value"@,
                                            markers,
                                        ) is Ok);
                                    }
                                },
                                None => {
                                    assert(field_view(fields[at + 1], "self"@, "value"@, markers)
                                        is Ok);
                                },
                            }
                        }
                    },
                    None => {
                        match first_refused(fields, markers) {
                            Some(other) => {
                                if other > 0 {
                                    assert(rest[other - 1] == fields[other]);
                                    assert(field_view(rest[other - 1], "self"@, "value"@, markers)
                                        is Ok);
                                }
                            },
                            None => {},
                        }
                    },
                }
            },
        }
    }
}

/// The first group that breaks a rule.
pub open spec fn first_invalid(groups: Seq<(Seq<char>, Seq<KeyEntry>)>) -> Option<int>
    decreases groups.len(),
{
    if groups.len() == 0 {
        None
    } else if first_invalid(groups.drop_last()) is Some {
        first_invalid(groups.drop_last())
    } else if validated(groups.last().1) is Err {
        Some(groups.len() - 1)
    } else {
        None
    }
}

/// Finds the name of the first secondary index, local or global, whose key
/// group breaks a rule, so that the failure can be reported with it.
#[verifier::loop_isolation(false)]
pub fn locate_invalid_index(containers: &Vec<Container>, global: bool) -> (res: Option<String>)
    ensures
        match first_invalid(index_entries(views(containers@), global)) {
            Some(at) => res matches Some(name) && 0 <= at < index_entries(
                views(containers@),
                global,
            ).len() && name@ == index_entries(views(containers@), global)[at].0,
            None => res is None,
        },
{
    let merged = collect_secondary_indexes(containers, global);
    let mut g: usize = 0;
    assert(merged@.take(0) =~= Seq::empty());
    while g < merged.entries.len()
        invariant
            g <= merged@.len(),
            first_invalid(merged@.take(g as int)) is None,
        decreases merged@.len() - g,
    {
        proof {
            assert(merged@.take(g + 1).drop_last() =~= merged@.take(g as int));
            assert(merged@.take(g + 1).last() == merged@[g as int]);
        }
        if validate_key_schemas(&merged.entries[g].1).is_err() {
            proof {
                lemma_first_invalid_found(merged@, g as int);
            }
            return Some(merged.entries[g].0.clone());
        }
        g += 1;
    }
    assert(merged@.take(merged@.len() as int) =~= merged@);
    None
}

proof fn lemma_first_invalid_found(groups: Seq<(Seq<char>, Seq<KeyEntry>)>, at: int)
    requires
        0 <= at < groups.len(),
        first_invalid(groups.take(at)) is None,
        validated(groups[at].1) is Err,
    ensures
        first_invalid(groups) == Some(at),
    decreases groups.len(),
{
    if at == groups.len() - 1 {
        assert(groups.drop_last() =~= groups.take(at));
    } else {
        assert(groups.drop_last().take(at) =~= groups.take(at));
        lemma_first_invalid_found(groups.drop_last(), at);
    }
}

} // verus!
