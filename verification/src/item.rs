//! Assembly of what is emitted for a record that is embedded in another.

use crate::ast::input::{Data, DeriveInput, Field};
use crate::container::{allow_all, allowed, expand_impl_conversions, impl_conversions, views, Container};
use crate::error::GenError;
use crate::table::{all_wf, container_of_field, field_step, field_views};
use crate::util::try_fold;
use vstd::prelude::*;
use vstd::string::*;

verus! {

/// Derives the containers of the fields of an embedded record. Markers are
/// not read.
#[verifier::loop_isolation(false)]
pub fn get_attribute_types_containers<'a>(
    fields: &'a Vec<Field>,
    to_attribute_ident: &'a str,
    from_attribute_ident: &str,
) -> (res: Result<Vec<Container<'a>>, GenError>)
    ensures
        match field_views(fields@, to_attribute_ident@, from_attribute_ident@, false) {
            Err(e) => res matches Err(err) && err == e,
            Ok(expected) => res matches Ok(containers) && views(containers@) == expected && all_wf(
                containers@,
            ),
        },
{
    let ghost step = field_step(to_attribute_ident@, from_attribute_ident@, false);
    let mut containers: Vec<Container<'a>> = Vec::new();
    let mut i: usize = 0;
    assert(fields@.skip(0) =~= fields@);
    assert(views(containers@) =~= Seq::empty());
    while i < fields.len()
        invariant
            i <= fields@.len(),
            all_wf(containers@),
            try_fold(Seq::empty(), fields@, step) == try_fold(
                views(containers@),
                fields@.skip(i as int),
                step,
            ),
        decreases fields@.len() - i,
    {
        let ghost done = views(containers@);
        proof {
            assert(fields@.skip(i as int)[0] == fields@[i as int]);
            assert(fields@.skip(i as int).drop_first() =~= fields@.skip(i + 1));
            assert(try_fold(done, fields@.skip(i as int), step) == match step(
                done,
                fields@[i as int],
            ) {
                Err(e) => Err(e),
                Ok(next) => try_fold(next, fields@.skip(i + 1), step),
            });
        }
        let container = container_of_field(
            &fields[i],
            to_attribute_ident,
            from_attribute_ident,
            false,
        )?;
        containers.push(container);
        assert(views(containers@) =~= done.push(container@));
        i += 1;
    }
    proof {
        assert(fields@.skip(fields@.len() as int) =~= Seq::empty());
    }
    Ok(containers)
}

/// Everything that is emitted for an embedded record: the conversions
/// between it and a wire map. Only a structure whose fields all have a name
/// and a supported type has them.
pub open spec fn item_code(input: DeriveInput) -> Result<Seq<char>, GenError> {
    match input.data {
        Data::Other => Err(GenError::OnlyStruct),
        Data::Struct(fields) => match field_views(fields@, "value"@, "value"@, false) {
            Err(e) => Err(e),
            Ok(views) => Ok(allowed(impl_conversions(input.ident@, views))),
        },
    }
}

/// Generates the conversions of an embedded record.
pub fn expand_item(input: &DeriveInput) -> (res: Result<String, GenError>)
    ensures
        match item_code(*input) {
            Err(e) => res matches Err(err) && err == e,
            Ok(expected) => res matches Ok(code) && code@ == expected,
        },
{
    let fields = match &input.data {
        Data::Struct(fields) => fields,
        _ => {
            return Err(GenError::OnlyStruct);
        },
    };
    let to_attribute_ident = "value";
    let from_attribute_ident = "value";
    let containers = get_attribute_types_containers(
        fields,
        to_attribute_ident,
        from_attribute_ident,
    )?;
    let impl_conversions = expand_impl_conversions(input.ident.as_str(), &containers)?;
    Ok(allow_all(&impl_conversions))
}

} // verus!
