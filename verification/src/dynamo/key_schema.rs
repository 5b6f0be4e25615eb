//! Key roles and the validation of a key group.

use crate::code::{join5, literal_string, string_literal};
use crate::error::GenError;
use crate::util::{pascal_case, to_pascal_case};
use vstd::prelude::*;
use vstd::string::*;

verus! {

/// The role of a field in a key group. The partition key orders before the
/// sort key.
#[derive(Copy, Clone, Debug, Eq, PartialEq, Ord, PartialOrd, Structural)]
pub enum KeySchemaType {
    HashKey,
    RangeKey,
}

impl KeySchemaType {
    /// The marker keyword that gives a field this role.
    pub open spec fn keyword(self) -> Seq<char> {
        match self {
            KeySchemaType::HashKey => "hash_key"@,
            KeySchemaType::RangeKey => "range_key"@,
        }
    }

    /// The store's own name for the role.
    pub open spec fn key_type_path(self) -> Seq<char> {
        match self {
            KeySchemaType::HashKey => "::aws_sdk_dynamodb::types::KeyType::Hash"@,
            KeySchemaType::RangeKey => "::aws_sdk_dynamodb::types::KeyType::Range"@,
        }
    }

    /// The marker keyword that gives a field this role.
    pub fn as_str(&self) -> (keyword: &'static str)
        ensures
            keyword@ == self.keyword(),
    {
        match self {
            KeySchemaType::HashKey => "hash_key",
            KeySchemaType::RangeKey => "range_key",
        }
    }

    /// The marker keyword that gives a field this role, as owned text.
    pub fn to_string(&self) -> (keyword: String)
        ensures
            keyword@ == self.keyword(),
    {
        String::from_str(self.as_str())
    }
}

/// The emitted expression that builds the key-schema element of the
/// attribute `name` with the given role.
pub open spec fn key_schema_code(name: Seq<char>, key_type: KeySchemaType) -> Seq<char> {
    "aws_sdk_dynamodb::types::KeySchemaElement::builder().attribute_name("@ + string_literal(name)
        + ".to_string()).key_type("@ + key_type.key_type_path() + ").build().unwrap()"@
}

/// Emits the expression that builds the key-schema element of the field
/// `id`, under the field's wire attribute name.
pub fn expand_key_schema(id: &str, key_type: KeySchemaType) -> (code: String)
    ensures
        code@ == key_schema_code(pascal_case(id@), key_type),
{
    let ident = literal_string(to_pascal_case(id).as_str());
    let key_type = match key_type {
        KeySchemaType::HashKey => "::aws_sdk_dynamodb::types::KeyType::Hash",
        KeySchemaType::RangeKey => "::aws_sdk_dynamodb::types::KeyType::Range",
    };
    join5(
        "aws_sdk_dynamodb::types::KeySchemaElement::builder().attribute_name(",
        ident.as_str(),
        ".to_string()).key_type(",
        key_type,
        ").build().unwrap()",
    )
}

/// The entries of a key group that carry `role`.
pub open spec fn with_role<T>(role: KeySchemaType) -> spec_fn((T, KeySchemaType)) -> bool {
    |entry: (T, KeySchemaType)| entry.1 == role
}

/// How many entries of `group` carry `role`.
pub open spec fn role_count<T>(group: Seq<(T, KeySchemaType)>, role: KeySchemaType) -> nat {
    group.filter(with_role(role)).len()
}

/// `group` stably sorted by role: its partition keys in the order they stand
/// in, then its sort keys in the order they stand in.
pub open spec fn sorted_by_role<T>(group: Seq<(T, KeySchemaType)>) -> Seq<(T, KeySchemaType)> {
    group.filter(with_role(KeySchemaType::HashKey)) + group.filter(
        with_role(KeySchemaType::RangeKey),
    )
}

/// What the check of a key group answers: the first rule it breaks, or
/// nothing.
pub open spec fn group_error<T>(group: Seq<(T, KeySchemaType)>) -> Option<GenError> {
    if role_count(group, KeySchemaType::HashKey) == 0 {
        Some(GenError::HashKeyNotFound)
    } else if role_count(group, KeySchemaType::HashKey) >= 2 {
        Some(GenError::MultipleHashKeys)
    } else if role_count(group, KeySchemaType::RangeKey) > 1 {
        Some(GenError::MultipleRangeKeys)
    } else {
        None
    }
}

/// A group is valid when it has exactly one partition key and at most one
/// sort key.
pub open spec fn valid_group<T>(group: Seq<(T, KeySchemaType)>) -> bool {
    role_count(group, KeySchemaType::HashKey) == 1 && role_count(group, KeySchemaType::RangeKey)
        <= 1
}

/// Counts the entries of `group` that carry `role`.
pub fn count_role<T>(group: &Vec<(T, KeySchemaType)>, role: KeySchemaType) -> (count: usize)
    ensures
        count == role_count(group@, role),
{
    let mut count: usize = 0;
    let mut i: usize = 0;
    while i < group.len()
        invariant
            i <= group.len(),
            count <= i,
            count == role_count(group@.take(i as int), role),
        decreases group.len() - i,
    {
        proof {
            assert(group@.take(i + 1) =~= group@.take(i as int).push(group@[i as int]));
            group@.take(i as int).lemma_filter_push(group@[i as int], with_role(role));
        }
        if group[i].1 == role {
            count += 1;
        }
        i += 1;
    }
    proof {
        assert(group@.take(group.len() as int) =~= group@);
    }
    count
}

/// The stable sort by role of any group, valid or not.
pub fn sort_by_role<T: Copy>(group: &Vec<(T, KeySchemaType)>) -> (sorted: Vec<(T, KeySchemaType)>)
    ensures
        sorted@ == sorted_by_role(group@),
{
    let mut sorted: Vec<(T, KeySchemaType)> = Vec::new();
    let mut i: usize = 0;
    while i < group.len()
        invariant
            i <= group.len(),
            sorted@ == group@.take(i as int).filter(with_role(KeySchemaType::HashKey)),
        decreases group.len() - i,
    {
        proof {
            assert(group@.take(i + 1) =~= group@.take(i as int).push(group@[i as int]));
            group@.take(i as int).lemma_filter_push(
                group@[i as int],
                with_role(KeySchemaType::HashKey),
            );
        }
        if group[i].1 == KeySchemaType::HashKey {
            sorted.push(group[i]);
        }
        i += 1;
    }
    proof {
        assert(group@.take(group.len() as int) =~= group@);
    }
    let mut j: usize = 0;
    while j < group.len()
        invariant
            j <= group.len(),
            sorted@ == group@.filter(with_role(KeySchemaType::HashKey)) + group@.take(
                j as int,
            ).filter(with_role(KeySchemaType::RangeKey)),
        decreases group.len() - j,
    {
        proof {
            assert(group@.take(j + 1) =~= group@.take(j as int).push(group@[j as int]));
            group@.take(j as int).lemma_filter_push(
                group@[j as int],
                with_role(KeySchemaType::RangeKey),
            );
        }
        if group[j].1 == KeySchemaType::RangeKey {
            sorted.push(group[j]);
        }
        j += 1;
    }
    proof {
        assert(group@.take(group.len() as int) =~= group@);
    }
    sorted
}

/// What the check of a key group hands back: the group sorted by role, or
/// the first rule that the group breaks.
pub open spec fn validated<T>(group: Seq<(T, KeySchemaType)>) -> Result<
    Seq<(T, KeySchemaType)>,
    GenError,
> {
    match group_error(group) {
        Some(e) => Err(e),
        None => Ok(sorted_by_role(group)),
    }
}

/// Checks that a key group has exactly one partition key and at most one sort
/// key, and hands it back with the partition key first.
pub fn validate_key_schemas<T: Copy>(key_schemas: &Vec<(T, KeySchemaType)>) -> (res: Result<
    Vec<(T, KeySchemaType)>,
    GenError,
>)
    ensures
        match validated(key_schemas@) {
            Err(e) => res matches Err(err) && err == e,
            Ok(sorted) => res matches Ok(group) && group@ == sorted,
        },
{
    let hash_keys = count_role(key_schemas, KeySchemaType::HashKey);
    if hash_keys == 0 {
        return Err(GenError::HashKeyNotFound);
    }
    if hash_keys >= 2 {
        return Err(GenError::MultipleHashKeys);
    }
    if count_role(key_schemas, KeySchemaType::RangeKey) > 1 {
        return Err(GenError::MultipleRangeKeys);
    }
    Ok(sort_by_role(key_schemas))
}

/// Checks that a key group has exactly one partition key and at most one sort
/// key, and puts the partition key first. A group that breaks a rule is left
/// as it was.
pub fn validate_and_sort_key_schemas<T: Copy>(key_schemas: &mut Vec<(T, KeySchemaType)>) -> (res:
    Result<(), GenError>)
    ensures
        match group_error(old(key_schemas)@) {
            Some(e) => res == Err::<(), GenError>(e) && final(key_schemas)@ == old(key_schemas)@,
            None => res is Ok && final(key_schemas)@ == sorted_by_role(old(key_schemas)@),
        },
{
    let sorted = validate_key_schemas(key_schemas)?;
    *key_schemas = sorted;
    Ok(())
}

/// Every entry of a group is a partition key or a sort key, so sorting by
/// role keeps the length.
pub proof fn lemma_sorted_by_role_len<T>(group: Seq<(T, KeySchemaType)>)
    ensures
        sorted_by_role(group).len() == group.len(),
        role_count(group, KeySchemaType::HashKey) + role_count(group, KeySchemaType::RangeKey)
            == group.len(),
    decreases group.len(),
{
    if group.len() > 0 {
        let front = group.drop_last();
        let last = group.last();
        lemma_sorted_by_role_len(front);
        assert(group =~= front.push(last));
        front.lemma_filter_push(last, with_role(KeySchemaType::HashKey));
        front.lemma_filter_push(last, with_role(KeySchemaType::RangeKey));
    }
}

/// In a group sorted by role no sort key stands before a partition key, and
/// the roles are counted as before.
pub proof fn lemma_sorted_by_role_is_ordered<T>(group: Seq<(T, KeySchemaType)>)
    ensures
        forall|i: int, j: int|
            0 <= i < j < sorted_by_role(group).len() ==> !(sorted_by_role(group)[i].1
                == KeySchemaType::RangeKey && sorted_by_role(group)[j].1
                == KeySchemaType::HashKey),
        forall|i: int|
            0 <= i < sorted_by_role(group).len() ==> (sorted_by_role(group)[i].1
                == KeySchemaType::HashKey <==> i < role_count(group, KeySchemaType::HashKey)),
{
    let hash = group.filter(with_role(KeySchemaType::HashKey));
    let range = group.filter(with_role(KeySchemaType::RangeKey));
    assert forall|i: int| 0 <= i < hash.len() implies hash[i].1 == KeySchemaType::HashKey by {
        group.lemma_filter_pred(with_role(KeySchemaType::HashKey), i);
    }
    assert forall|i: int| 0 <= i < range.len() implies range[i].1 == KeySchemaType::RangeKey by {
        group.lemma_filter_pred(with_role(KeySchemaType::RangeKey), i);
    }
}

/// Sorting by role neither adds an entry nor changes one.
pub proof fn lemma_sorted_by_role_keeps_entries<T>(group: Seq<(T, KeySchemaType)>)
    ensures
        forall|k: int|
            0 <= k < sorted_by_role(group).len() ==> group.contains(
                #[trigger] sorted_by_role(group)[k],
            ),
{
    let hash = group.filter(with_role(KeySchemaType::HashKey));
    let range = group.filter(with_role(KeySchemaType::RangeKey));
    assert forall|k: int| 0 <= k < sorted_by_role(group).len() implies group.contains(
        #[trigger] sorted_by_role(group)[k],
    ) by {
        let entry = sorted_by_role(group)[k];
        if k < hash.len() {
            assert(hash[k] == entry);
            assert(hash.contains(entry));
            group.lemma_filter_contains_rev(with_role(KeySchemaType::HashKey), entry);
        } else {
            assert(range[k - hash.len()] == entry);
            assert(range.contains(entry));
            group.lemma_filter_contains_rev(with_role(KeySchemaType::RangeKey), entry);
        }
    }
}

/// Whatever order the fields were declared in, a valid group comes out with
/// its partition key first and its sort key, if it has one, second.
pub proof fn lemma_partition_key_first<T>(group: Seq<(T, KeySchemaType)>)
    requires
        valid_group(group),
    ensures
        1 <= sorted_by_role(group).len() <= 2,
        sorted_by_role(group).len() == group.len(),
        sorted_by_role(group)[0].1 == KeySchemaType::HashKey,
        sorted_by_role(group).len() == 2 ==> sorted_by_role(group)[1].1
            == KeySchemaType::RangeKey,
        group.contains(sorted_by_role(group)[0]),
        sorted_by_role(group).len() == 2 ==> group.contains(sorted_by_role(group)[1]),
{
    lemma_sorted_by_role_len(group);
    lemma_sorted_by_role_is_ordered(group);
    let hash = group.filter(with_role(KeySchemaType::HashKey));
    let range = group.filter(with_role(KeySchemaType::RangeKey));
    assert(hash.contains(hash[0]));
    group.lemma_filter_contains_rev(with_role(KeySchemaType::HashKey), hash[0]);
    if range.len() == 1 {
        assert(range.contains(range[0]));
        group.lemma_filter_contains_rev(with_role(KeySchemaType::RangeKey), range[0]);
        assert(sorted_by_role(group)[1] == range[0]);
    }
}

/// Sorting a group by role checks out exactly as the group itself does, and
/// sorting it again changes nothing.
pub proof fn lemma_sorted_by_role_is_stable<T>(group: Seq<(T, KeySchemaType)>)
    ensures
        role_count(sorted_by_role(group), KeySchemaType::HashKey) == role_count(
            group,
            KeySchemaType::HashKey,
        ),
        role_count(sorted_by_role(group), KeySchemaType::RangeKey) == role_count(
            group,
            KeySchemaType::RangeKey,
        ),
        group_error(sorted_by_role(group)) == group_error(group),
        sorted_by_role(sorted_by_role(group)) == sorted_by_role(group),
{
    let hash = group.filter(with_role(KeySchemaType::HashKey));
    let range = group.filter(with_role(KeySchemaType::RangeKey));
    lemma_filter_of_filter(group, KeySchemaType::HashKey, KeySchemaType::HashKey);
    lemma_filter_of_filter(group, KeySchemaType::HashKey, KeySchemaType::RangeKey);
    lemma_filter_of_filter(group, KeySchemaType::RangeKey, KeySchemaType::HashKey);
    lemma_filter_of_filter(group, KeySchemaType::RangeKey, KeySchemaType::RangeKey);
    Seq::filter_distributes_over_add(hash, range, with_role(KeySchemaType::HashKey));
    Seq::filter_distributes_over_add(hash, range, with_role(KeySchemaType::RangeKey));
    assert(sorted_by_role(group).filter(with_role(KeySchemaType::HashKey)) =~= hash);
    assert(sorted_by_role(group).filter(with_role(KeySchemaType::RangeKey)) =~= range);
}

proof fn lemma_filter_of_filter<T>(
    group: Seq<(T, KeySchemaType)>,
    first: KeySchemaType,
    second: KeySchemaType,
)
    ensures
        group.filter(with_role(first)).filter(with_role(second)) == if first == second {
            group.filter(with_role(first))
        } else {
            Seq::empty()
        },
    decreases group.len(),
{
    if group.len() == 0 {
        assert(group.filter(with_role(first)) =~= Seq::empty());
        assert(Seq::<(T, KeySchemaType)>::empty().filter(with_role(second)) =~= Seq::empty());
    } else {
        let front = group.drop_last();
        let last = group.last();
        lemma_filter_of_filter(front, first, second);
        assert(group =~= front.push(last));
        front.lemma_filter_push(last, with_role(first));
        if last.1 == first {
            front.filter(with_role(first)).lemma_filter_push(last, with_role(second));
        }
    }
}

} // verus!
