//! Cascade deletes of the tag registry: a PLC connection with its groups
//! and tags, or a group with its tags. Each has a preview that only counts.
//! Write targets and rules are never deleted by a cascade; the preview
//! counts those left pointing at deleted rows so the user can be warned.

use vstd::prelude::*;
use vstd::string::*;

use crate::error::{not_found, ServiceError};
use crate::text::int_decimal;

verus! {

/// Would-be effects of deleting a PLC connection: the groups and tags that
/// go with it, and the write targets and rules left dangling.
#[derive(Clone, Copy, PartialEq, Eq, Debug, Structural)]
pub struct ConnectionCascadePreview {
    pub groups: i64,
    pub tags: i64,
    pub write_targets: i64,
    pub write_rules: i64,
}

/// Would-be effects of deleting a collection group: its tags, and the
/// rules left dangling.
#[derive(Clone, Copy, PartialEq, Eq, Debug, Structural)]
pub struct GroupCascadePreview {
    pub tags: i64,
    pub write_rules: i64,
}

/// What a connection cascade deleted besides the connection itself.
#[derive(Clone, Copy, PartialEq, Eq, Debug, Structural)]
pub struct ConnectionCascadeSummary {
    pub groups: u64,
    pub tags: u64,
}

/// What a group cascade deleted besides the group itself.
#[derive(Clone, Copy, PartialEq, Eq, Debug, Structural)]
pub struct GroupCascadeSummary {
    pub tags: u64,
}

/// The failure for a connection that does not exist.
pub fn connection_not_found(id: i64) -> (r: ServiceError)
    ensures
        r matches ServiceError::NotFound { resource, id: ident } && resource@ == "plc_connections"@
            && ident@ == int_decimal(id as int),
{
    not_found("plc_connections", id)
}

/// The failure for a collection group that does not exist.
pub fn group_not_found(id: i64) -> (r: ServiceError)
    ensures
        r matches ServiceError::NotFound { resource, id: ident } && resource@ == "collection_groups"@
            && ident@ == int_decimal(id as int),
{
    not_found("collection_groups", id)
}

} // verus!
