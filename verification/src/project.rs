//! Project files: the header check, the refusal to import while armed, and
//! the id remapping that re-parents every imported row.
//!
//! An import replaces the whole configuration. Row ids in the file are
//! never trusted as target ids: each parent's new id is recorded as it is
//! inserted, and every reference is looked up in that record, so a
//! reference to a row absent from the file rejects the import.

use std::collections::HashMap;

use vstd::prelude::*;
use vstd::string::*;

use crate::error::{FieldError, ServiceError};
use crate::text::{int_decimal, push_i64};

verus! {

/// The one accepted `format` tag.
pub open spec fn project_format() -> Seq<char> {
    "relay-wright-project"@
}

/// The project-file schema version this library reads and writes.
pub const VERSION: u32 = 1;

/// The `format` tag written on export.
pub fn format_tag() -> (r: &'static str)
    ensures
        r@ == project_format(),
{
    "relay-wright-project"
}

/// Per-table row counts applied by an import.
#[derive(Clone, Copy, PartialEq, Eq, Debug, Structural)]
pub struct ImportSummary {
    pub plc_connections: usize,
    pub collection_groups: usize,
    pub tags: usize,
    pub write_targets: usize,
    pub write_rules: usize,
    pub write_rule_conditions: usize,
    pub qr_strings: usize,
}

/// The message for an unknown `format`.
pub open spec fn format_message(format: Seq<char>) -> Seq<char> {
    "未知のプロジェクト形式です（期待: relay-wright-project、実際: "@ + format + "）"@
}

/// The message for an unreadable `version`.
pub open spec fn version_message(version: int) -> Seq<char> {
    "このバージョンのプロジェクトファイル（version "@ + int_decimal(version)
        + "）は読み込めません（対応 version 1）"@
}

/// Whether `e` is a validation failure holding exactly one field error with
/// the given field and message.
pub open spec fn single_field_error(e: ServiceError, field: Seq<char>, message: Seq<char>) -> bool {
    &&& e matches ServiceError::Validation { field_errors }
    &&& field_errors@.len() == 1
    &&& field_errors@[0].field@ == field
    &&& field_errors@[0].message@ == message
}

fn single_error(field: &str, message: String) -> (r: ServiceError)
    ensures
        single_field_error(r, field@, message@),
{
    ServiceError::Validation {
        field_errors: vec![FieldError { field: field.to_owned(), message }],
    }
}

/// Checks a project file's header: the `format` first, then the `version`.
pub fn check_header(format: &str, version: u32) -> (r: Result<(), ServiceError>)
    ensures
        r is Ok <==> format@ == project_format() && version == VERSION,
        format@ != project_format() ==> (r matches Err(e) && single_field_error(
            e,
            "format"@,
            format_message(format@),
        )),
        format@ == project_format() && version != VERSION ==> (r matches Err(e)
            && single_field_error(e, "version"@, version_message(version as int))),
{
    if !crate::text::str_eq(format, "relay-wright-project") {
        let mut m = String::from_str("未知のプロジェクト形式です（期待: relay-wright-project、実際: ");
        m.append(format);
        m.append("）");
        return Err(single_error("format", m));
    }
    if version != VERSION {
        let mut m = String::from_str("このバージョンのプロジェクトファイル（version ");
        push_i64(&mut m, version as i64);
        m.append("）は読み込めません（対応 version 1）");
        return Err(single_error("version", m));
    }
    Ok(())
}

/// The refusal of an import while the engine is armed.
pub open spec fn armed_import_message() -> Seq<char> {
    "エンジンがアーム中です。インポート前にディスアームしてください"@
}

/// An import is refused while the engine is armed (importing changes what
/// it would write); with no engine running nothing is armed.
pub fn import_allowed(armed: bool) -> (r: Result<(), ServiceError>)
    ensures
        r is Ok <==> !armed,
        r matches Err(e) ==> (e matches ServiceError::Other(m) && m@ == armed_import_message()),
{
    if armed {
        Err(ServiceError::Other(String::from_str("エンジンがアーム中です。インポート前にディスアームしてください")))
    } else {
        Ok(())
    }
}

/// The message for a reference to a row absent from the file.
pub open spec fn missing_reference_message(old: int) -> Seq<char> {
    "プロジェクトファイル内で参照先が見つかりません（id="@ + int_decimal(old) + "）"@
}

/// What resolving file id `old` through `map` gives: the new id, or the
/// refusal naming `entity.field`.
pub open spec fn remap_outcome(
    map: Map<i64, i64>,
    old: i64,
    entity: Seq<char>,
    field: Seq<char>,
    r: Result<i64, ServiceError>,
) -> bool {
    if map.contains_key(old) {
        r == Ok::<i64, ServiceError>(map[old])
    } else {
        r matches Err(e) && single_field_error(
            e,
            entity + "."@ + field,
            missing_reference_message(old as int),
        )
    }
}

/// Resolves a file-local id to the id the row was given on import, or
/// rejects the import as referentially inconsistent.
pub fn remap(map: &HashMap<i64, i64>, old: i64, entity: &str, field: &str) -> (r: Result<
    i64,
    ServiceError,
>)
    ensures
        remap_outcome(map@, old, entity@, field@, r),
{
    broadcast use vstd::std_specs::hash::group_hash_axioms;

    match map.get(&old) {
        Some(v) => Ok(*v),
        None => {
            let mut f = entity.to_owned();
            f.append(".");
            f.append(field);
            let mut m = String::from_str("プロジェクトファイル内で参照先が見つかりません（id=");
            push_i64(&mut m, old);
            m.append("）");
            Err(ServiceError::Validation { field_errors: vec![FieldError { field: f, message: m }] })
        },
    }
}

/// A rule's references after remapping.
#[derive(Debug)]
pub struct RuleRefs {
    pub write_target_id: i64,
    pub write_source_tag_id: Option<i64>,
    pub condition_sources: Vec<i64>,
}

/// Whether every reference of a rule resolves.
pub open spec fn rule_refs_resolve(
    write_target_id: i64,
    write_source_tag_id: Option<i64>,
    condition_sources: Seq<i64>,
    target_map: Map<i64, i64>,
    tag_map: Map<i64, i64>,
) -> bool {
    &&& target_map.contains_key(write_target_id)
    &&& (write_source_tag_id matches Some(s) ==> tag_map.contains_key(s))
    &&& forall|i: int| 0 <= i < condition_sources.len() ==> tag_map.contains_key(condition_sources[i])
}

/// Remaps a rule's write target, optional copy source and every
/// condition's source tag, in that order; the first reference that does
/// not resolve rejects the rule with its own field named.
pub fn remap_rule_refs(
    write_target_id: i64,
    write_source_tag_id: Option<i64>,
    condition_sources: &Vec<i64>,
    target_map: &HashMap<i64, i64>,
    tag_map: &HashMap<i64, i64>,
) -> (r: Result<RuleRefs, ServiceError>)
    ensures
        r is Ok <==> rule_refs_resolve(
            write_target_id,
            write_source_tag_id,
            condition_sources@,
            target_map@,
            tag_map@,
        ),
        r matches Ok(refs) ==> {
            &&& refs.write_target_id == target_map@[write_target_id]
            &&& refs.write_source_tag_id == match write_source_tag_id {
                Some(s) => Some(tag_map@[s]),
                None => None::<i64>,
            }
            &&& refs.condition_sources@.len() == condition_sources@.len()
            &&& forall|i: int|
                0 <= i < condition_sources@.len() ==> #[trigger] refs.condition_sources@[i]
                    == tag_map@[condition_sources@[i]]
        },
        !target_map@.contains_key(write_target_id) ==> remap_outcome(
            target_map@,
            write_target_id,
            "writeRules"@,
            "writeTargetId"@,
            match r {
                Ok(refs) => Ok(refs.write_target_id),
                Err(e) => Err(e),
            },
        ),
        target_map@.contains_key(write_target_id) && (write_source_tag_id matches Some(s)
            && !tag_map@.contains_key(s)) ==> (r matches Err(e) && single_field_error(
            e,
            "writeRules.writeSourceTagId"@,
            missing_reference_message(write_source_tag_id->0 as int),
        )),
        target_map@.contains_key(write_target_id) && (write_source_tag_id matches Some(s)
            ==> tag_map@.contains_key(s)) && r is Err ==> (r matches Err(e) && exists|k: int|
            #![trigger condition_sources@[k]]
            0 <= k < condition_sources@.len() && !tag_map@.contains_key(condition_sources@[k])
                && (forall|j: int| 0 <= j < k ==> tag_map@.contains_key(condition_sources@[j]))
                && single_field_error(
                e,
                "writeRules.conditions.sourceTagId"@,
                missing_reference_message(condition_sources@[k] as int),
            )),
{
    let t = match remap(target_map, write_target_id, "writeRules", "writeTargetId") {
        Ok(t) => t,
        Err(e) => {
            proof {
                reveal_strlit("writeRules");
                reveal_strlit(".");
                reveal_strlit("writeTargetId");
            }
            return Err(e);
        },
    };
    let s = match write_source_tag_id {
        Some(id) => match remap(tag_map, id, "writeRules", "writeSourceTagId") {
            Ok(v) => Some(v),
            Err(e) => {
                proof {
                    reveal_strlit("writeRules");
                    reveal_strlit(".");
                    reveal_strlit("writeSourceTagId");
                    reveal_strlit("writeRules.writeSourceTagId");
                    assert("writeRules"@ + "."@ + "writeSourceTagId"@ =~= "writeRules.writeSourceTagId"@);
                }
                return Err(e);
            },
        },
        None => None,
    };
    let mut out: Vec<i64> = Vec::new();
    let n = condition_sources.len();
    let mut i: usize = 0;
    while i < n
        invariant
            n == condition_sources@.len(),
            i <= n,
            out@.len() == i,
            target_map@.contains_key(write_target_id),
            t == target_map@[write_target_id],
            write_source_tag_id matches Some(src) ==> tag_map@.contains_key(src),
            s == match write_source_tag_id {
                Some(src) => Some(tag_map@[src]),
                None => None::<i64>,
            },
            forall|j: int| 0 <= j < i ==> tag_map@.contains_key(condition_sources@[j]),
            forall|j: int| 0 <= j < i ==> #[trigger] out@[j] == tag_map@[condition_sources@[j]],
        decreases n - i,
    {
        match remap(tag_map, condition_sources[i], "writeRules.conditions", "sourceTagId") {
            Ok(v) => out.push(v),
            Err(e) => {
                proof {
                    reveal_strlit("writeRules.conditions");
                    reveal_strlit(".");
                    reveal_strlit("sourceTagId");
                    reveal_strlit("writeRules.conditions.sourceTagId");
                    assert("writeRules.conditions"@ + "."@ + "sourceTagId"@
                        =~= "writeRules.conditions.sourceTagId"@);
                    assert(!tag_map@.contains_key(condition_sources@[i as int]));
                }
                return Err(e);
            },
        }
        i = i + 1;
    }
    Ok(RuleRefs { write_target_id: t, write_source_tag_id: s, condition_sources: out })
}

} // verus!
