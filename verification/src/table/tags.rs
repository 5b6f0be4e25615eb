//! The words of the marker language.

use crate::code::same_text;
use vstd::prelude::*;

verus! {

/// The attribute that holds every marker.
pub const AWS_DYNAMO_ATTR_META_ENTRY: &'static str = "aws_dynamo";

/// The short name of the attribute that holds every marker.
pub const TABLE_ATTR_META_ENTRY: &'static str = "table";

/// Whether an attribute with this name holds markers.
pub open spec fn holds_markers(path: Seq<char>) -> bool {
    path == AWS_DYNAMO_ATTR_META_ENTRY@ || path == TABLE_ATTR_META_ENTRY@
}

/// Tells whether an attribute with this name holds markers.
pub fn is_marker_entry(path: &str) -> (holds: bool)
    ensures
        holds == holds_markers(path@),
{
    same_text(path, AWS_DYNAMO_ATTR_META_ENTRY) || same_text(path, TABLE_ATTR_META_ENTRY)
}

/// The structure-level key that names the table.
pub const KEY_TABLE_NAME: &'static str = "table_name";

/// What is appended to the structure's name for the name of its primary-key
/// structure.
pub const PRIMARY_KEY_INPUT_STRUCT_POSTFIX: &'static str = "PrimaryKey";

/// The marker that opens the declaration of a local secondary index.
pub const LOCAL_SECONDARY_INDEX_ENTRY: &'static str = "local_secondary_index";

/// The marker that opens the declaration of a global secondary index.
pub const GLOBAL_SECONDARY_INDEX_ENTRY: &'static str = "global_secondary_index";

/// The key that names a secondary index.
pub const SECONDARY_INDEX_NAME: &'static str = "index_name";

} // verus!
