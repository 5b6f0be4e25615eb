//! From the definition of a record to the layout of its values.

use crate::ast::input::Field;
use crate::ast::ty::{resolve, shape_of, Shape};
use crate::code::same_text;
use crate::codec::{field_layouts, lemma_layout_view, Layout, LayoutView};
use crate::error::GenError;
use crate::util::try_fold;
use vstd::prelude::*;
use vstd::string::*;

verus! {

/// The record types whose fields are known, by name.
pub type Records = Vec<(String, Vec<(String, Layout)>)>;

/// What known record types hold: their names, and the names and layouts of
/// their fields.
pub open spec fn record_views(records: Seq<(String, Vec<(String, Layout)>)>) -> Seq<
    (Seq<char>, Seq<(Seq<char>, LayoutView)>),
> {
    Seq::new(records.len(), |i: int| (records[i].0@, field_layouts(records[i].1@)))
}

/// The fields of the record type `name`: those of the first known type with
/// the name.
pub open spec fn known_record(
    records: Seq<(Seq<char>, Seq<(Seq<char>, LayoutView)>)>,
    name: Seq<char>,
) -> Option<Seq<(Seq<char>, LayoutView)>>
    decreases records.len(),
{
    if records.len() == 0 {
        None
    } else if records[0].0 == name {
        Some(records[0].1)
    } else {
        known_record(records.drop_first(), name)
    }
}

/// The layout of the values of a shape: the shape itself, with the fields
/// of every embedded record in place of its name. A shape that names a
/// record type that is not known has none.
pub open spec fn layout_for(
    shape: Shape,
    records: Seq<(Seq<char>, Seq<(Seq<char>, LayoutView)>)>,
) -> Option<LayoutView>
    decreases shape,
{
    match shape {
        Shape::Number(kind) => Some(LayoutView::Number(kind)),
        Shape::Text => Some(LayoutView::Text),
        Shape::Binary => Some(LayoutView::Binary),
        Shape::Bool => Some(LayoutView::Bool),
        Shape::Null => Some(LayoutView::Null),
        Shape::Record(name) => match known_record(records, name@) {
            Some(fields) => Some(LayoutView::Record(fields)),
            None => None,
        },
        Shape::List(element) => match layout_for(*element, records) {
            Some(layout) => Some(LayoutView::List(Box::new(layout))),
            None => None,
        },
        Shape::Mapping(inner) => match layout_for(*inner, records) {
            Some(layout) => Some(LayoutView::Mapping(Box::new(layout))),
            None => None,
        },
    }
}

/// The name and the layout of one field of a record.
pub open spec fn field_layout(
    field: Field,
    records: Seq<(Seq<char>, Seq<(Seq<char>, LayoutView)>)>,
) -> Result<(Seq<char>, LayoutView), GenError> {
    match field.ident {
        None => Err(GenError::FieldIdentNotFound),
        Some(ident) => match shape_of(field.ty.expr) {
            Err(e) => Err(e),
            Ok(shape) => match layout_for(shape, records) {
                None => Err(GenError::UnknownRecord),
                Some(layout) => Ok((ident@, layout)),
            },
        },
    }
}

/// [`field_layout`] added to the layouts of the fields before.
pub open spec fn field_layout_step(records: Seq<(Seq<char>, Seq<(Seq<char>, LayoutView)>)>)
    -> spec_fn(Seq<(Seq<char>, LayoutView)>, Field) -> Result<
    Seq<(Seq<char>, LayoutView)>,
    GenError,
> {
    |done: Seq<(Seq<char>, LayoutView)>, field: Field|
        match field_layout(field, records) {
            Err(e) => Err(e),
            Ok(layout) => Ok(done.push(layout)),
        }
}

/// The names and layouts of the fields of a record, in the order of their
/// declaration; the first field that has none refuses the record.
pub open spec fn record_layout_of(
    fields: Seq<Field>,
    records: Seq<(Seq<char>, Seq<(Seq<char>, LayoutView)>)>,
) -> Result<Seq<(Seq<char>, LayoutView)>, GenError> {
    try_fold(Seq::empty(), fields, field_layout_step(records))
}

impl Layout {
    /// A copy of the layout that holds what the layout holds.
    pub fn duplicate(&self) -> (copy: Layout)
        ensures
            copy@ == self@,
        decreases self, 0nat,
    {
        proof {
            lemma_layout_view(*self);
        }
        let copy = match self {
            Layout::Number(kind) => Layout::Number(*kind),
            Layout::Text => Layout::Text,
            Layout::Binary => Layout::Binary,
            Layout::Bool => Layout::Bool,
            Layout::Null => Layout::Null,
            Layout::List(element) => Layout::List(Box::new(element.duplicate())),
            Layout::Mapping(inner) => Layout::Mapping(Box::new(inner.duplicate())),
            Layout::Record(fields) => Layout::Record(duplicate_fields(fields)),
        };
        proof {
            lemma_layout_view(copy);
        }
        copy
    }
}

/// A copy of the fields of a record.
#[verifier::loop_isolation(false)]
pub fn duplicate_fields(fields: &Vec<(String, Layout)>) -> (copy: Vec<(String, Layout)>)
    ensures
        field_layouts(copy@) == field_layouts(fields@),
    decreases fields, 1nat,
{
    let mut copy: Vec<(String, Layout)> = Vec::new();
    let mut i: usize = 0;
    while i < fields.len()
        invariant
            i <= fields@.len(),
            copy@.len() == i,
            forall|j: int|
                0 <= j < i ==> (#[trigger] copy@[j]).0@ == fields@[j].0@ && copy@[j].1@
                    == fields@[j].1@,
        decreases fields@.len() - i,
    {
        copy.push((fields[i].0.clone(), fields[i].1.duplicate()));
        i += 1;
    }
    assert(field_layouts(copy@) =~= field_layouts(fields@));
    copy
}

/// Works out the layout of the values of a shape. The fields of embedded
/// records are looked up in `records`; a record type that is not there
/// leaves the shape without a layout.
#[verifier::loop_isolation(false)]
pub fn layout_of(shape: &Shape, records: &Records) -> (res: Option<Layout>)
    ensures
        match layout_for(*shape, record_views(records@)) {
            Some(expected) => res matches Some(layout) && layout@ == expected,
            None => res is None,
        },
    decreases shape,
{
    let layout = match shape {
        Shape::Number(kind) => Layout::Number(*kind),
        Shape::Text => Layout::Text,
        Shape::Binary => Layout::Binary,
        Shape::Bool => Layout::Bool,
        Shape::Null => Layout::Null,
        Shape::Record(name) => {
            let ghost all = record_views(records@);
            let mut i: usize = 0;
            assert(all.skip(0) =~= all);
            while i < records.len()
                invariant
                    i <= records@.len(),
                    all == record_views(records@),
                    known_record(all, name@) == known_record(all.skip(i as int), name@),
                decreases records@.len() - i,
            {
                proof {
                    assert(all.skip(i as int)[0] == all[i as int]);
                    assert(all.skip(i as int).drop_first() =~= all.skip(i + 1));
                }
                if same_text(records[i].0.as_str(), name.as_str()) {
                    let layout = Layout::Record(duplicate_fields(&records[i].1));
                    proof {
                        lemma_layout_view(layout);
                    }
                    return Some(layout);
                }
                i += 1;
            }
            assert(all.skip(records@.len() as int) =~= Seq::empty());
            return None;
        },
        Shape::List(element) => match layout_of(element, records) {
            Some(layout) => Layout::List(Box::new(layout)),
            None => {
                return None;
            },
        },
        Shape::Mapping(inner) => match layout_of(inner, records) {
            Some(layout) => Layout::Mapping(Box::new(layout)),
            None => {
                return None;
            },
        },
    };
    proof {
        lemma_layout_view(layout);
    }
    Some(layout)
}

/// Works out the names and layouts of the fields of a record from its
/// definition, the fields of embedded records being known already.
#[verifier::loop_isolation(false)]
pub fn record_layout(fields: &Vec<Field>, records: &Records) -> (res: Result<
    Vec<(String, Layout)>,
    GenError,
>)
    ensures
        match record_layout_of(fields@, record_views(records@)) {
            Err(e) => res matches Err(err) && err == e,
            Ok(expected) => res matches Ok(layouts) && field_layouts(layouts@) == expected,
        },
{
    let ghost known = record_views(records@);
    let ghost step = field_layout_step(known);
    let mut layouts: Vec<(String, Layout)> = Vec::new();
    let mut i: usize = 0;
    assert(fields@.skip(0) =~= fields@);
    assert(field_layouts(layouts@) =~= Seq::empty());
    while i < fields.len()
        invariant
            i <= fields@.len(),
            try_fold(Seq::empty(), fields@, step) == try_fold(
                field_layouts(layouts@),
                fields@.skip(i as int),
                step,
            ),
        decreases fields@.len() - i,
    {
        let ghost done = field_layouts(layouts@);
        proof {
            assert(fields@.skip(i as int)[0] == fields@[i as int]);
            assert(fields@.skip(i as int).drop_first() =~= fields@.skip(i + 1));
            assert(try_fold(done, fields@.skip(i as int), step) == match step(
                done,
                fields@[i as int],
            ) {
                Err(e) => Err(e),
                Ok(next) => try_fold(next, fields@.skip(i + 1), step),
            });
        }
        let field = &fields[i];
        let ident = match &field.ident {
            Some(ident) => ident.clone(),
            None => {
                return Err(GenError::FieldIdentNotFound);
            },
        };
        let shape = resolve(&field.ty.expr)?;
        let layout = match layout_of(&shape, records) {
            Some(layout) => layout,
            None => {
                return Err(GenError::UnknownRecord);
            },
        };
        layouts.push((ident, layout));
        assert(field_layouts(layouts@) =~= done.push((ident@, layout@)));
        i += 1;
    }
    proof {
        assert(fields@.skip(fields@.len() as int) =~= Seq::empty());
    }
    Ok(layouts)
}

/// The values of a type travel under the tag that the type is classified
/// with.
pub proof fn lemma_layout_tag(
    shape: Shape,
    records: Seq<(Seq<char>, Seq<(Seq<char>, LayoutView)>)>,
)
    requires
        layout_for(shape, records) is Some,
    ensures
        layout_for(shape, records)->Some_0.tag() == shape.tag(),
    decreases shape,
{
    match shape {
        Shape::List(element) => {
            lemma_layout_tag(*element, records);
        },
        _ => {},
    }
}

} // verus!
