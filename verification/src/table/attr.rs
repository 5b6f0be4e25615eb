//! The schema of a table as data: what the key markers of a structure
//! declare, checked and under wire attribute names.

use crate::ast::input::Field;
use crate::container::{Container, ContainerView};
use crate::dynamo::attribute_definition::ScalarAttributeType;
use crate::dynamo::key_schema::KeySchemaType;
use crate::error::GenError;
use crate::groups::NamedGroups;
use crate::table::{
    attribute_definitions, attribute_definitions_of, attribute_name, field_views,
    get_attribute_types_containers, groups_below, positions_below, primary_key_of,
    primary_key_schema, secondary_index_key_schemas, secondary_indexes_of, KeyEntry,
};
use crate::util::to_pascal_case;
use vstd::prelude::*;
use vstd::string::*;

verus! {

/// The schema of a table.
#[derive(Debug, PartialEq, Eq)]
pub struct Attrs {
    /// The primary key: the partition key, then the sort key if there is
    /// one, each under its wire attribute name.
    pub key_schemas: Vec<(String, KeySchemaType)>,
    /// The type of every attribute that a key is made of, each attribute
    /// once.
    pub attribute_definitions: Vec<(String, ScalarAttributeType)>,
    /// The key schema of every local secondary index, by index name.
    pub local_secondary_indexes: NamedGroups<(String, KeySchemaType)>,
    /// The key schema of every global secondary index, by index name.
    pub global_secondary_indexes: NamedGroups<(String, KeySchemaType)>,
}

/// `entries` with the wire attribute name of its field in place of every
/// position.
pub open spec fn named<R>(views: Seq<ContainerView>, entries: Seq<(usize, R)>) -> Seq<
    (Seq<char>, R),
> {
    Seq::new(entries.len(), |i: int| (attribute_name(views, entries[i].0), entries[i].1))
}

/// [`named`] for every group.
pub open spec fn named_groups(
    views: Seq<ContainerView>,
    groups: Seq<(Seq<char>, Seq<KeyEntry>)>,
) -> Seq<(Seq<char>, Seq<(Seq<char>, KeySchemaType)>)> {
    Seq::new(groups.len(), |g: int| (groups[g].0, named(views, groups[g].1)))
}

/// What named entries hold.
pub open spec fn entry_views<R>(entries: Seq<(String, R)>) -> Seq<(Seq<char>, R)> {
    Seq::new(entries.len(), |i: int| (entries[i].0@, entries[i].1))
}

/// What named groups hold.
pub open spec fn group_views(groups: Seq<(Seq<char>, Seq<(String, KeySchemaType)>)>) -> Seq<
    (Seq<char>, Seq<(Seq<char>, KeySchemaType)>),
> {
    Seq::new(groups.len(), |g: int| (groups[g].0, entry_views(groups[g].1)))
}

/// What a schema holds.
pub struct AttrsView {
    pub key_schemas: Seq<(Seq<char>, KeySchemaType)>,
    pub attribute_definitions: Seq<(Seq<char>, ScalarAttributeType)>,
    pub local_secondary_indexes: Seq<(Seq<char>, Seq<(Seq<char>, KeySchemaType)>)>,
    pub global_secondary_indexes: Seq<(Seq<char>, Seq<(Seq<char>, KeySchemaType)>)>,
}

impl View for Attrs {
    type V = AttrsView;

    open spec fn view(&self) -> AttrsView {
        AttrsView {
            key_schemas: entry_views(self.key_schemas@),
            attribute_definitions: entry_views(self.attribute_definitions@),
            local_secondary_indexes: group_views(self.local_secondary_indexes@),
            global_secondary_indexes: group_views(self.global_secondary_indexes@),
        }
    }
}

/// The schema that the fields of a structure declare, or the first reason
/// why they declare none: a field that is refused, a primary key that breaks
/// a rule, a secondary index that does, global ones first, or two key
/// fields that disagree on the type of one attribute.
pub open spec fn schema_of(fields: Seq<Field>) -> Result<AttrsView, GenError> {
    match field_views(fields, "self"@, "value"@, true) {
        Err(e) => Err(e),
        Ok(views) => match primary_key_of(views) {
            Err(e) => Err(e),
            Ok(keys) => match secondary_indexes_of(views, true) {
                Err(e) => Err(e),
                Ok(global) => match secondary_indexes_of(views, false) {
                    Err(e) => Err(e),
                    Ok(local) => match attribute_definitions_of(views) {
                        Err(e) => Err(e),
                        Ok(definitions) => Ok(
                            AttrsView {
                                key_schemas: named(views, keys),
                                attribute_definitions: named(views, definitions),
                                local_secondary_indexes: named_groups(views, local),
                                global_secondary_indexes: named_groups(views, global),
                            },
                        ),
                    },
                },
            },
        },
    }
}

/// Puts the wire attribute name of its field in place of every position.
fn name_entries<R: Copy>(containers: &Vec<Container>, entries: &Vec<(usize, R)>) -> (res: Vec<
    (String, R),
>)
    requires
        positions_below(entries@, containers@.len() as int),
    ensures
        entry_views(res@) == named(crate::container::views(containers@), entries@),
{
    let mut res: Vec<(String, R)> = Vec::new();
    let mut i: usize = 0;
    while i < entries.len()
        invariant
            i <= entries@.len(),
            res@.len() == i,
            positions_below(entries@, containers@.len() as int),
            forall|j: int|
                0 <= j < i ==> (#[trigger] res@[j]).0@ == attribute_name(
                    crate::container::views(containers@),
                    entries@[j].0,
                ) && res@[j].1 == entries@[j].1,
        decreases entries@.len() - i,
    {
        let (position, role) = entries[i];
        assert(entries@[i as int].0 < containers@.len());
        res.push((to_pascal_case(containers[position].field_ident), role));
        i += 1;
    }
    assert(entry_views(res@) =~= named(crate::container::views(containers@), entries@));
    res
}

/// Puts wire attribute names in place of positions in every group.
fn name_groups(containers: &Vec<Container>, groups: &NamedGroups<KeyEntry>) -> (res: NamedGroups<
    (String, KeySchemaType),
>)
    requires
        groups.wf(),
        groups_below(groups@, containers@.len() as int),
    ensures
        res.wf(),
        group_views(res@) == named_groups(crate::container::views(containers@), groups@),
{
    let mut res: NamedGroups<(String, KeySchemaType)> = NamedGroups { entries: Vec::new() };
    let mut g: usize = 0;
    while g < groups.entries.len()
        invariant
            g <= groups@.len(),
            res@.len() == g,
            groups_below(groups@, containers@.len() as int),
            forall|k: int|
                0 <= k < g ==> (#[trigger] res@[k]).0 == groups@[k].0 && entry_views(res@[k].1)
                    == named(crate::container::views(containers@), groups@[k].1),
        decreases groups@.len() - g,
    {
        assert(positions_below(groups@[g as int].1, containers@.len() as int));
        let entries = name_entries(containers, &groups.entries[g].1);
        let ghost before = res@;
        res.entries.push((groups.entries[g].0.clone(), entries));
        assert forall|k: int| 0 <= k < g + 1 implies (#[trigger] res@[k]).0 == groups@[k].0
            && entry_views(res@[k].1) == named(
            crate::container::views(containers@),
            groups@[k].1,
        ) by {
            if k < g {
                assert(res@[k] == before[k]);
            }
        }
        g += 1;
    }
    assert(group_views(res@) =~= named_groups(crate::container::views(containers@), groups@));
    assert(crate::groups::names_of(res@) =~= crate::groups::names_of(groups@));
    res
}

impl Attrs {
    /// Works out the schema that the fields of a structure declare.
    pub fn parse_table_fields(fields: &Vec<Field>) -> (res: Result<Attrs, GenError>)
        ensures
            match schema_of(fields@) {
                Err(e) => res matches Err(err) && err == e,
                Ok(schema) => res matches Ok(attrs) && attrs@ == schema,
            },
    {
        let containers = get_attribute_types_containers(fields, "self", "value")?;
        let keys = primary_key_schema(&containers)?;
        let global = secondary_index_key_schemas(&containers, true)?;
        let local = secondary_index_key_schemas(&containers, false)?;
        let definitions = attribute_definitions(&containers)?;
        Ok(
            Attrs {
                key_schemas: name_entries(&containers, &keys),
                attribute_definitions: name_entries(&containers, &definitions),
                local_secondary_indexes: name_groups(&containers, &local),
                global_secondary_indexes: name_groups(&containers, &global),
            },
        )
    }
}

} // verus!
