//! Fields by the argument list of one of their markers.

use crate::ast::input::Field;
use crate::ast::meta::{Meta, MetaValue, NestedMeta};
use crate::ast::ty::FieldType;
use crate::code::same_text;
use vstd::prelude::*;
use vstd::string::*;

verus! {

/// A field with the argument list of a marker of it.
///
/// ```rust,ignore
///  #[table(hash_key("S"))]
///  pub name: String,
/// ```
///
/// ty: String, ident: name, ext: "S"
pub struct ExtField<'a> {
    pub _ty: &'a FieldType,
    pub ident: &'a Option<String>,
    pub ext: &'a Vec<NestedMeta>,
}

/// The marker that an attribute holds, if it holds exactly one and that one
/// has an argument list.
pub open spec fn listed_marker(attr: Meta) -> Option<Meta> {
    match attr.value {
        MetaValue::List(items) => {
            if items@.len() == 1 && items@[0] is Meta && items@[0]->Meta_0.value is List {
                Some(items@[0]->Meta_0)
            } else {
                None
            }
        },
        _ => None,
    }
}

/// Whether an attribute holds the marker `key`, alone and with an argument
/// list.
pub open spec fn holds_listed(attr: Meta, key: Seq<char>) -> bool {
    listed_marker(attr) matches Some(marker) && marker.path@ == key
}

/// The first of `attrs` that holds the marker `key` with an argument list.
pub open spec fn first_listed(attrs: Seq<Meta>, key: Seq<char>) -> Option<int>
    decreases attrs.len(),
{
    if attrs.len() == 0 {
        None
    } else if first_listed(attrs.drop_last(), key) is Some {
        first_listed(attrs.drop_last(), key)
    } else if holds_listed(attrs.last(), key) {
        Some(attrs.len() - 1)
    } else {
        None
    }
}

/// The positions of the fields that have the marker `key` with an argument
/// list, in the order of the fields.
pub open spec fn listed_fields(fields: Seq<Field>, key: Seq<char>) -> Seq<int>
    decreases fields.len(),
{
    if fields.len() == 0 {
        Seq::empty()
    } else if first_listed(fields.last().attrs@, key) is Some {
        listed_fields(fields.drop_last(), key).push(fields.len() - 1)
    } else {
        listed_fields(fields.drop_last(), key)
    }
}

impl<'a> ExtField<'a> {
    /// Whether this is the field `field` with the argument list of the first
    /// of its markers `key` that has one.
    pub open spec fn is_from(self, field: Field, key: Seq<char>) -> bool {
        &&& *self._ty == field.ty
        &&& *self.ident == field.ident
        &&& first_listed(field.attrs@, key) matches Some(at)
        &&& listed_marker(field.attrs@[at]) matches Some(marker)
        &&& marker.value == MetaValue::List(*self.ext)
    }

    /// Whether this is the field at `position` with the argument list of
    /// the first of its markers `key` that has one.
    pub open spec fn is_at(self, fields: Seq<Field>, position: int, key: Seq<char>) -> bool {
        0 <= position < fields.len() && self.is_from(fields[position], key)
    }

    /// Picks the fields that have the marker `key` with an argument list,
    /// each with the argument list of the first such marker.
    #[verifier::loop_isolation(false)]
    pub fn get_paren_kv(fields: &'a Vec<Field>, key: &str) -> (res: Vec<Self>)
        ensures
            res@.len() == listed_fields(fields@, key@).len(),
            forall|k: int|
                0 <= k < res@.len() ==> (#[trigger] res@[k]).is_at(
                    fields@,
                    listed_fields(fields@, key@)[k],
                    key@,
                ),
    {
        let mut res: Vec<ExtField<'a>> = Vec::new();
        let mut f: usize = 0;
        let ghost mut positions: Seq<int> = Seq::empty();
        assert(fields@.take(0) =~= Seq::empty());
        while f < fields.len()
            invariant
                f <= fields@.len(),
                positions == listed_fields(fields@.take(f as int), key@),
                res@.len() == positions.len(),
                forall|k: int|
                    0 <= k < res@.len() ==> (#[trigger] res@[k]).is_at(fields@, positions[k], key@),
            decreases fields@.len() - f,
        {
            let field = &fields[f];
            let ghost before = positions;
            let ghost done = res@;
            proof {
                assert(fields@.take(f + 1).drop_last() =~= fields@.take(f as int));
                assert(fields@.take(f + 1).last() == fields@[f as int]);
            }
            let mut a: usize = 0;
            let mut found = false;
            assert(field.attrs@.take(0) =~= Seq::empty());
            while a < field.attrs.len() && !found
                invariant
                    a <= field.attrs@.len(),
                    !found ==> first_listed(field.attrs@.take(a as int), key@) is None && res@
                        == done,
                    found ==> first_listed(field.attrs@, key@) is Some && res@.len() == done.len()
                        + 1 && res@.last().is_from(*field, key@) && res@.drop_last() == done,
                decreases field.attrs@.len() - a + (if found { 0int } else { 1int }),
            {
                let attr = &field.attrs[a];
                proof {
                    assert(field.attrs@.take(a + 1).drop_last() =~= field.attrs@.take(a as int));
                    assert(field.attrs@.take(a + 1).last() == field.attrs@[a as int]);
                }
                let mut hit = false;
                match &attr.value {
                    MetaValue::List(items) => {
                        if items.len() == 1 {
                            match &items[0] {
                                NestedMeta::Meta(marker) => match &marker.value {
                                    MetaValue::List(ext) => {
                                        if same_text(marker.path.as_str(), key) {
                                            proof {
                                                lemma_first_listed_found(
                                                    field.attrs@,
                                                    key@,
                                                    a as int,
                                                );
                                            }
                                            res.push(
                                                ExtField {
                                                    _ty: &field.ty,
                                                    ident: &field.ident,
                                                    ext,
                                                },
                                            );
                                            hit = true;
                                        }
                                    },
                                    _ => {},
                                },
                                _ => {},
                            }
                        }
                    },
                    _ => {},
                }
                if hit {
                    found = true;
                } else {
                    a += 1;
                }
            }
            proof {
                if found {
                    positions = before.push(f as int);
                } else {
                    assert(field.attrs@.take(field.attrs@.len() as int) =~= field.attrs@);
                }
                assert(positions == listed_fields(fields@.take(f + 1), key@));
                assert forall|k: int| 0 <= k < res@.len() implies (#[trigger] res@[k]).is_at(
                    fields@,
                    positions[k],
                    key@,
                ) by {
                    if k < done.len() {
                        assert(res@.drop_last()[k] == res@[k] || res@ == done);
                        assert(res@[k] == done[k]);
                        assert(done[k].is_at(fields@, before[k], key@));
                        assert(positions[k] == before[k]);
                    } else {
                        assert(res@[k] == res@.last());
                        assert(positions[k] == f);
                    }
                }
            }
            f += 1;
        }
        assert(fields@.take(fields@.len() as int) =~= fields@);
        res
    }
}

/// Where no attribute before one that holds the marker does, that one is
/// the first.
pub proof fn lemma_first_listed_found(attrs: Seq<Meta>, key: Seq<char>, at: int)
    requires
        0 <= at < attrs.len(),
        first_listed(attrs.take(at), key) is None,
        holds_listed(attrs[at], key),
    ensures
        first_listed(attrs, key) == Some(at),
    decreases attrs.len(),
{
    if at == attrs.len() - 1 {
        assert(attrs.drop_last() =~= attrs.take(at));
    } else {
        assert(attrs.drop_last().take(at) =~= attrs.take(at));
        lemma_first_listed_found(attrs.drop_last(), key, at);
    }
}

} // verus!
