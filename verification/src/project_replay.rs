//! Validating a whole project file before any of it is applied, by
//! replaying it in order: PLC connections, collection groups, tags, write
//! targets, write rules, QR strings. Every reference must resolve to a row
//! earlier in the file; every target and rule must pass the same checks a
//! normal create does (names unique, and no enabled rule may close a write
//! loop with the rules replayed before it). The first failure rejects the
//! whole file.
//!
//! Verdicts this library cannot compute (the tag registry's own checks on
//! connections, groups and tags, the scaling bounds, QR strings) come in as
//! already-computed field errors.

use std::collections::HashMap;

use vstd::prelude::*;
use vstd::string::*;

use crate::error::{error_views, FieldError, ServiceError};
use crate::project::{
    armed_import_message, check_header, format_message, import_allowed, missing_reference_message, project_format,
    version_message, VERSION, remap, remap_rule_refs, rule_refs_resolve, single_field_error, RuleRefs};
use crate::text::{trim, trim_spec};
use crate::write_cycle::{
    closes_cycle, cycle_refusal, detect_write_cycle, devices_view, other_rule_edges, others_edges,
    rule_edges, Device, DeviceView, EdgeView, OtherRule,
};
use crate::write_rules::{collect_rule_errors, rule_errors_of, ResolvedRefs, RuleDraft, TypeMeta};
use crate::write_targets::{contains_str, strings_of, target_errors_spec, validate_target, TargetDraft};

verus! {

broadcast use vstd::std_specs::hash::group_hash_axioms;

/// A collection group row of the file.
pub struct ProjectGroup {
    pub id: i64,
    pub plc_connection_id: i64,
}

/// A tag row of the file: its group, its address and its type.
pub struct ProjectTag {
    pub id: i64,
    pub collection_group_id: i64,
    pub address: String,
    pub meta: TypeMeta,
}

/// A write target row of the file.
pub struct ProjectTarget {
    pub id: i64,
    pub draft: TargetDraft,
    pub string_length: Option<i64>,
}

/// A write rule row of the file, with its conditions.
pub struct ProjectRule {
    pub id: i64,
    pub draft: RuleDraft,
}

/// The rows of a project file, in file order, with their file-local ids.
pub struct ProjectRows {
    pub connections: Vec<i64>,
    pub groups: Vec<ProjectGroup>,
    pub tags: Vec<ProjectTag>,
    pub targets: Vec<ProjectTarget>,
    pub rules: Vec<ProjectRule>,
    pub qr_strings: usize,
}

/// The verdicts computed elsewhere, one list of field errors per row (empty
/// when the row passes): the registry's own checks on each connection,
/// group and tag, each target's scaling bounds, and each QR string.
pub struct OutsideVerdicts {
    pub connections: Vec<Vec<FieldError>>,
    pub groups: Vec<Vec<FieldError>>,
    pub tags: Vec<Vec<FieldError>>,
    pub target_scaling: Vec<Vec<FieldError>>,
    pub qr_strings: Vec<Vec<FieldError>>,
}

/// What a failure must look like.
pub type Failure = spec_fn(ServiceError) -> bool;

/// A validation failure with exactly these field errors.
pub open spec fn fields_failure(fs: Seq<(Seq<char>, Seq<char>)>) -> Failure {
    |e: ServiceError| e matches ServiceError::Validation { field_errors } && error_views(field_errors@) == fs
}

/// A reference to a row absent from the file, named `field`.
pub open spec fn missing_failure(field: Seq<char>, old: i64) -> Failure {
    |e: ServiceError| single_field_error(e, field, missing_reference_message(old as int))
}

/// The failure of a name already taken.
pub open spec fn taken_failure() -> Failure {
    fields_failure(seq![("name"@, "既に使用されています"@)])
}

/// The earlier failure if there is one, else `later`.
pub open spec fn or_else(first: Option<Failure>, later: Option<Failure>) -> Option<Failure> {
    match first {
        Some(f) => Some(f),
        None => later,
    }
}

/// The outside verdict on a row, as a failure when it has errors.
pub open spec fn verdict_failure(errors: Seq<FieldError>) -> Option<Failure> {
    if errors.len() > 0 {
        Some(fields_failure(error_views(errors)))
    } else {
        None
    }
}

/// The first failure among rows `0..n`, row `i` failing as `step(i)` says.
pub open spec fn first_failure(step: spec_fn(int) -> Option<Failure>, n: int) -> Option<Failure>
    decreases n,
{
    if n <= 0 {
        None
    } else {
        or_else(first_failure(step, n - 1), step(n - 1))
    }
}

/// Once some row has failed, later rows change nothing.
pub proof fn lemma_first_failure_sticks(step: spec_fn(int) -> Option<Failure>, m: int, n: int)
    requires
        m <= n,
        first_failure(step, m) is Some,
    ensures
        first_failure(step, n) == first_failure(step, m),
    decreases n - m,
{
    if m < n {
        lemma_first_failure_sticks(step, m, n - 1);
    }
}

// --- connections ---------------------------------------------------------

/// The first failure among the first `n` rows judged only by outside
/// verdicts.
pub open spec fn verdicts_failure(vs: Seq<Vec<FieldError>>, n: int) -> Option<Failure> {
    first_failure(|i: int| verdict_failure(vs[i]@), n)
}

/// The first failure among the first `n` connections.
pub open spec fn connections_failure(o: OutsideVerdicts, n: int) -> Option<Failure> {
    verdicts_failure(o.connections@, n)
}

// --- groups ----------------------------------------------------------------

/// Each group id of the first `n` groups to its connection id (a later row
/// with the same id replaces an earlier one).
pub open spec fn group_conn(p: ProjectRows, n: int) -> Map<i64, i64>
    decreases n,
{
    if n <= 0 {
        Map::empty()
    } else {
        group_conn(p, n - 1).insert(p.groups@[n - 1].id, p.groups@[n - 1].plc_connection_id)
    }
}

/// How group `i` fails, if it does.
pub open spec fn group_failure(p: ProjectRows, o: OutsideVerdicts, i: int) -> Option<Failure> {
    if !p.connections@.contains(p.groups@[i].plc_connection_id) {
        Some(missing_failure("collectionGroups"@ + "."@ + "plcConnectionId"@, p.groups@[i].plc_connection_id))
    } else {
        verdict_failure(o.groups@[i]@)
    }
}

/// The first failure among the first `n` groups.
pub open spec fn groups_failure(p: ProjectRows, o: OutsideVerdicts, n: int) -> Option<Failure> {
    first_failure(|i: int| group_failure(p, o, i), n)
}

// --- tags --------------------------------------------------------------------

/// Each tag id of the first `n` tags to its row index.
pub open spec fn tag_index(p: ProjectRows, n: int) -> Map<i64, i64>
    decreases n,
{
    if n <= 0 {
        Map::empty()
    } else {
        tag_index(p, n - 1).insert(p.tags@[n - 1].id, (n - 1) as i64)
    }
}

/// How tag `i` fails, if it does.
pub open spec fn tag_failure(p: ProjectRows, o: OutsideVerdicts, i: int) -> Option<Failure> {
    if !group_conn(p, p.groups@.len() as int).contains_key(p.tags@[i].collection_group_id) {
        Some(missing_failure("tags"@ + "."@ + "collectionGroupId"@, p.tags@[i].collection_group_id))
    } else {
        verdict_failure(o.tags@[i]@)
    }
}

/// The first failure among the first `n` tags.
pub open spec fn tags_failure(p: ProjectRows, o: OutsideVerdicts, n: int) -> Option<Failure> {
    first_failure(|i: int| tag_failure(p, o, i), n)
}

// --- targets ---------------------------------------------------------------

/// Each target id of the first `n` targets to its row index.
pub open spec fn target_index(p: ProjectRows, n: int) -> Map<i64, i64>
    decreases n,
{
    if n <= 0 {
        Map::empty()
    } else {
        target_index(p, n - 1).insert(p.targets@[n - 1].id, (n - 1) as i64)
    }
}

/// The trimmed names of the first `n` targets.
pub open spec fn target_names(p: ProjectRows, n: int) -> Set<Seq<char>>
    decreases n,
{
    if n <= 0 {
        Set::empty()
    } else {
        target_names(p, n - 1).insert(trim_spec(p.targets@[n - 1].draft.name@))
    }
}

/// How target `i` fails, if it does: its connection must be in the file,
/// then it must pass the target checks, then its name must be new.
pub open spec fn target_failure(
    p: ProjectRows,
    allowed: Seq<Seq<char>>,
    o: OutsideVerdicts,
    i: int,
) -> Option<Failure> {
    let d = p.targets@[i].draft;
    let errs = target_errors_spec(d, allowed, error_views(o.target_scaling@[i]@), true);
    if !p.connections@.contains(d.plc_connection_id) {
        Some(missing_failure("writeTargets"@ + "."@ + "plcConnectionId"@, d.plc_connection_id))
    } else if errs.len() > 0 {
        Some(fields_failure(errs))
    } else if target_names(p, i).contains(trim_spec(d.name@)) {
        Some(taken_failure())
    } else {
        None
    }
}

/// The first failure among the first `n` targets.
pub open spec fn targets_failure(p: ProjectRows, allowed: Seq<Seq<char>>, o: OutsideVerdicts, n: int) -> Option<
    Failure,
> {
    first_failure(|i: int| target_failure(p, allowed, o, i), n)
}

// --- rules -----------------------------------------------------------------

/// The type of target row `k`.
pub open spec fn target_meta(p: ProjectRows, k: int) -> TypeMeta {
    TypeMeta { data_type: p.targets@[k].draft.data_type, string_length: p.targets@[k].string_length }
}

/// The type of the tag with file id `id`.
pub open spec fn tag_meta(p: ProjectRows, id: i64) -> TypeMeta {
    p.tags@[tag_index(p, p.tags@.len() as int)[id] as int].meta
}

/// The device of the tag with file id `id`: its group's connection and its
/// trimmed address.
pub open spec fn tag_device(p: ProjectRows, id: i64) -> DeviceView {
    let t = p.tags@[tag_index(p, p.tags@.len() as int)[id] as int];
    (group_conn(p, p.groups@.len() as int)[t.collection_group_id], trim_spec(t.address@))
}

/// The device of the target with file id `id`.
pub open spec fn target_device(p: ProjectRows, id: i64) -> DeviceView {
    let d = p.targets@[target_index(p, p.targets@.len() as int)[id] as int].draft;
    (d.plc_connection_id, trim_spec(d.address@))
}

/// The source devices of rule `i`, condition by condition.
pub open spec fn rule_sources(p: ProjectRows, i: int) -> Seq<DeviceView> {
    p.rules@[i].draft.conditions@.map_values(|c: crate::write_rule_conditions::ConditionFacts| tag_device(p, c.source_tag_id))
}

/// The condition source types of rule `i`.
pub open spec fn rule_condition_metas(p: ProjectRows, i: int) -> Seq<Option<TypeMeta>> {
    p.rules@[i].draft.conditions@.map_values(|c: crate::write_rule_conditions::ConditionFacts| Some(tag_meta(p, c.source_tag_id)))
}

/// The loop edges the first `n` rules add: each enabled rule links each of
/// its source devices to its target device.
pub open spec fn loop_edges(p: ProjectRows, n: int) -> Seq<EdgeView>
    decreases n,
{
    if n <= 0 {
        Seq::empty()
    } else {
        loop_edges(p, n - 1) + if p.rules@[n - 1].draft.enabled {
            rule_edges(
                rule_sources(p, n - 1),
                target_device(p, p.rules@[n - 1].draft.write_target_id),
                trim_spec(p.rules@[n - 1].draft.name@),
            )
        } else {
            Seq::empty()
        }
    }
}

/// The trimmed names of the first `n` rules.
pub open spec fn rule_names(p: ProjectRows, n: int) -> Set<Seq<char>>
    decreases n,
{
    if n <= 0 {
        Set::empty()
    } else {
        rule_names(p, n - 1).insert(trim_spec(p.rules@[n - 1].draft.name@))
    }
}

/// The first condition of rule `i` whose source tag is not in the file.
pub open spec fn first_missing_condition(p: ProjectRows, i: int) -> Failure {
    let cs = p.rules@[i].draft.conditions@;
    let tags = tag_index(p, p.tags@.len() as int);
    |e: ServiceError|
        exists|k: int|
            #![trigger cs[k]]
            0 <= k < cs.len() && !tags.contains_key(cs[k].source_tag_id) && (forall|j: int|
                0 <= j < k ==> tags.contains_key(cs[j].source_tag_id)) && single_field_error(
                e,
                "writeRules.conditions.sourceTagId"@,
                missing_reference_message(cs[k].source_tag_id as int),
            )
}

/// How rule `i` fails, if it does: its references must resolve within the
/// file (target, copy source, conditions, in that order), then it must pass
/// the rule checks, then, when enabled, it must not close a write loop with
/// the rules before it, and its name must be new.
pub open spec fn rule_failure(p: ProjectRows, i: int) -> Option<Failure> {
    let d = p.rules@[i].draft;
    let targets = target_index(p, p.targets@.len() as int);
    let tags = tag_index(p, p.tags@.len() as int);
    let name = trim_spec(d.name@);
    if !targets.contains_key(d.write_target_id) {
        Some(missing_failure("writeRules"@ + "."@ + "writeTargetId"@, d.write_target_id))
    } else if d.write_source_tag_id matches Some(s) && !tags.contains_key(s) {
        Some(missing_failure("writeRules.writeSourceTagId"@, d.write_source_tag_id->0))
    } else if exists|j: int|
        0 <= j < d.conditions@.len() && !tags.contains_key(#[trigger] d.conditions@[j].source_tag_id) {
        Some(first_missing_condition(p, i))
    } else {
        let errs = rule_errors_of(
            d,
            Some(target_meta(p, targets[d.write_target_id] as int)),
            match d.write_source_tag_id {
                Some(s) => Some(tag_meta(p, s)),
                None => None,
            },
            rule_condition_metas(p, i),
        );
        let sources = rule_sources(p, i);
        let target = target_device(p, d.write_target_id);
        let es = rule_edges(sources, target, name) + loop_edges(p, i);
        if errs.len() > 0 {
            Some(fields_failure(errs))
        } else if d.enabled && closes_cycle(es, sources, target) {
            Some(|e: ServiceError| cycle_refusal(es, sources, target, name, e))
        } else if rule_names(p, i).contains(name) {
            Some(taken_failure())
        } else {
            None
        }
    }
}

/// The first failure among the first `n` rules.
pub open spec fn rules_failure(p: ProjectRows, n: int) -> Option<Failure> {
    first_failure(|i: int| rule_failure(p, i), n)
}

// --- QR strings ------------------------------------------------------------

/// The first failure among the first `n` QR strings.
pub open spec fn qr_failure(o: OutsideVerdicts, n: int) -> Option<Failure> {
    verdicts_failure(o.qr_strings@, n)
}

// --- the whole file --------------------------------------------------------

/// The first failure of the replay, in file order, or `None` when the file
/// replays cleanly.
pub open spec fn replay_failure(p: ProjectRows, allowed: Seq<Seq<char>>, o: OutsideVerdicts) -> Option<Failure> {
    or_else(
        connections_failure(o, p.connections@.len() as int),
        or_else(
            groups_failure(p, o, p.groups@.len() as int),
            or_else(
                tags_failure(p, o, p.tags@.len() as int),
                or_else(
                    targets_failure(p, allowed, o, p.targets@.len() as int),
                    or_else(rules_failure(p, p.rules@.len() as int), qr_failure(o, p.qr_strings as int)),
                ),
            ),
        ),
    )
}

/// Whether the file replays without a failure.
pub open spec fn project_replays(p: ProjectRows, allowed: Seq<Seq<char>>, o: OutsideVerdicts) -> bool {
    replay_failure(p, allowed, o) is None
}

/// The outside verdicts cover every row.
pub open spec fn verdicts_cover(p: ProjectRows, o: OutsideVerdicts) -> bool {
    &&& o.connections@.len() == p.connections@.len()
    &&& o.groups@.len() == p.groups@.len()
    &&& o.tags@.len() == p.tags@.len()
    &&& o.target_scaling@.len() == p.targets@.len()
    &&& o.qr_strings@.len() == p.qr_strings
}

/// A copy of a list of field errors.
fn copy_errors(v: &Vec<FieldError>) -> (r: Vec<FieldError>)
    ensures
        error_views(r@) == error_views(v@),
{
    let mut out: Vec<FieldError> = Vec::new();
    let mut i: usize = 0;
    while i < v.len()
        invariant
            i <= v@.len(),
            error_views(out@) == error_views(v@.take(i as int)),
        decreases v.len() - i,
    {
        let ghost before = out@;
        let fe = FieldError { field: v[i].field.clone(), message: v[i].message.clone() };
        assert(fe.view_pair() == v@[i as int].view_pair());
        out.push(fe);
        proof {
            assert(v@.take(i + 1) =~= v@.take(i as int).push(v@[i as int]));
            assert(error_views(before.push(fe)) =~= error_views(before).push(fe.view_pair()));
            assert(error_views(v@.take(i as int).push(v@[i as int])) =~= error_views(v@.take(i as int)).push(
                v@[i as int].view_pair(),
            ));
            assert(error_views(out@) =~= error_views(v@.take(i + 1)));
        }
        i = i + 1;
    }
    proof {
        assert(v@.take(v@.len() as int) =~= v@);
    }
    out
}

/// Rows judged only by outside verdicts: the first row with errors fails.
fn check_verdicts(vs: &Vec<Vec<FieldError>>) -> (r: Result<(), ServiceError>)
    ensures
        r is Ok <==> verdicts_failure(vs@, vs@.len() as int) is None,
        r matches Err(e) ==> (verdicts_failure(vs@, vs@.len() as int)->0)(e),
{
    let ghost step = |i: int| verdict_failure(vs@[i]@);
    let mut i: usize = 0;
    while i < vs.len()
        invariant
            i <= vs@.len(),
            step == (|i: int| verdict_failure(vs@[i]@)),
            first_failure(step, i as int) is None,
        decreases vs.len() - i,
    {
        if vs[i].len() > 0 {
            let e = ServiceError::Validation { field_errors: copy_errors(&vs[i]) };
            proof {
                assert(first_failure(step, i + 1) == step(i as int));
                lemma_first_failure_sticks(step, i + 1, vs@.len() as int);
            }
            return Err(e);
        }
        i = i + 1;
    }
    Ok(())
}

/// The file's connection ids (each to itself).
fn connection_ids(p: &ProjectRows) -> (r: HashMap<i64, i64>)
    ensures
        forall|x: i64| r@.contains_key(x) <==> p.connections@.contains(x),
{
    let mut m: HashMap<i64, i64> = HashMap::new();
    let mut i: usize = 0;
    while i < p.connections.len()
        invariant
            i <= p.connections@.len(),
            forall|x: i64| m@.contains_key(x) <==> p.connections@.take(i as int).contains(x),
        decreases p.connections.len() - i,
    {
        let c = p.connections[i];
        m.insert(c, c);
        proof {
            assert(p.connections@.take(i + 1) =~= p.connections@.take(i as int).push(c));
            assert forall|x: i64| m@.contains_key(x) <==> p.connections@.take(i + 1).contains(x) by {
                if x == c {
                    assert(p.connections@.take(i + 1)[i as int] == c);
                }
                if p.connections@.take(i + 1).contains(x) && x != c {
                    let k = choose|k: int| 0 <= k < i + 1 && #[trigger] p.connections@.take(i + 1)[k] == x;
                    assert(p.connections@.take(i as int)[k] == x);
                }
            }
        }
        i = i + 1;
    }
    proof {
        assert(p.connections@.take(p.connections@.len() as int) =~= p.connections@);
    }
    m
}

/// Replays the groups: each names a connection of the file and passes its
/// own checks. Gives each group id's connection.
fn check_groups(p: &ProjectRows, o: &OutsideVerdicts, conns: &HashMap<i64, i64>) -> (r: Result<
    HashMap<i64, i64>,
    ServiceError,
>)
    requires
        forall|x: i64| conns@.contains_key(x) <==> p.connections@.contains(x),
        o.groups@.len() == p.groups@.len(),
    ensures
        r is Ok <==> groups_failure(*p, *o, p.groups@.len() as int) is None,
        r matches Ok(m) ==> m@ == group_conn(*p, p.groups@.len() as int),
        r matches Err(e) ==> (groups_failure(*p, *o, p.groups@.len() as int)->0)(e),
{
    let ghost step = |i: int| group_failure(*p, *o, i);
    let mut m: HashMap<i64, i64> = HashMap::new();
    let mut i: usize = 0;
    while i < p.groups.len()
        invariant
            i <= p.groups@.len(),
            o.groups@.len() == p.groups@.len(),
            forall|x: i64| conns@.contains_key(x) <==> p.connections@.contains(x),
            step == (|i: int| group_failure(*p, *o, i)),
            first_failure(step, i as int) is None,
            m@ == group_conn(*p, i as int),
        decreases p.groups.len() - i,
    {
        let g = &p.groups[i];
        match remap(conns, g.plc_connection_id, "collectionGroups", "plcConnectionId") {
            Ok(_) => {},
            Err(e) => {
                proof {
                    assert(first_failure(step, i + 1) == step(i as int));
                    lemma_first_failure_sticks(step, i + 1, p.groups@.len() as int);
                }
                return Err(e);
            },
        }
        if o.groups[i].len() > 0 {
            let e = ServiceError::Validation { field_errors: copy_errors(&o.groups[i]) };
            proof {
                assert(first_failure(step, i + 1) == step(i as int));
                lemma_first_failure_sticks(step, i + 1, p.groups@.len() as int);
            }
            return Err(e);
        }
        m.insert(g.id, g.plc_connection_id);
        i = i + 1;
    }
    Ok(m)
}

/// Replays the tags: each names a group of the file and passes its own
/// checks. Gives each tag id's row index.
fn check_tags(p: &ProjectRows, o: &OutsideVerdicts, groups: &HashMap<i64, i64>) -> (r: Result<
    HashMap<i64, i64>,
    ServiceError,
>)
    requires
        groups@ == group_conn(*p, p.groups@.len() as int),
        o.tags@.len() == p.tags@.len(),
        p.tags@.len() < i64::MAX,
    ensures
        r is Ok <==> tags_failure(*p, *o, p.tags@.len() as int) is None,
        r matches Ok(m) ==> m@ == tag_index(*p, p.tags@.len() as int),
        r matches Err(e) ==> (tags_failure(*p, *o, p.tags@.len() as int)->0)(e),
{
    let ghost step = |i: int| tag_failure(*p, *o, i);
    let mut m: HashMap<i64, i64> = HashMap::new();
    let mut i: usize = 0;
    while i < p.tags.len()
        invariant
            i <= p.tags@.len(),
            p.tags@.len() < i64::MAX,
            o.tags@.len() == p.tags@.len(),
            groups@ == group_conn(*p, p.groups@.len() as int),
            step == (|i: int| tag_failure(*p, *o, i)),
            first_failure(step, i as int) is None,
            m@ == tag_index(*p, i as int),
        decreases p.tags.len() - i,
    {
        let t = &p.tags[i];
        match remap(groups, t.collection_group_id, "tags", "collectionGroupId") {
            Ok(_) => {},
            Err(e) => {
                proof {
                    assert(first_failure(step, i + 1) == step(i as int));
                    lemma_first_failure_sticks(step, i + 1, p.tags@.len() as int);
                }
                return Err(e);
            },
        }
        if o.tags[i].len() > 0 {
            let e = ServiceError::Validation { field_errors: copy_errors(&o.tags[i]) };
            proof {
                assert(first_failure(step, i + 1) == step(i as int));
                lemma_first_failure_sticks(step, i + 1, p.tags@.len() as int);
            }
            return Err(e);
        }
        m.insert(t.id, i as i64);
        i = i + 1;
    }
    Ok(m)
}

/// The error for a name already taken.
fn taken_error() -> (r: ServiceError)
    ensures
        (taken_failure())(r),
{
    let v = vec![FieldError { field: String::from_str("name"), message: String::from_str("既に使用されています") }];
    proof {
        assert(error_views(v@) =~= seq![("name"@, "既に使用されています"@)]);
    }
    ServiceError::Validation { field_errors: v }
}

/// Replays the write targets: each names a connection of the file, passes
/// the target checks and has a new name. Gives each target id's row index.
fn check_targets(
    p: &ProjectRows,
    allowed_data_types: &Vec<String>,
    o: &OutsideVerdicts,
    conns: &HashMap<i64, i64>,
) -> (r: Result<HashMap<i64, i64>, ServiceError>)
    requires
        forall|x: i64| conns@.contains_key(x) <==> p.connections@.contains(x),
        o.target_scaling@.len() == p.targets@.len(),
        p.targets@.len() < i64::MAX,
    ensures
        r is Ok <==> targets_failure(*p, strings_of(allowed_data_types@), *o, p.targets@.len() as int) is None,
        r matches Ok(m) ==> m@ == target_index(*p, p.targets@.len() as int),
        r matches Err(e) ==> (targets_failure(*p, strings_of(allowed_data_types@), *o, p.targets@.len() as int)->0)(
            e,
        ),
{
    let ghost allowed = strings_of(allowed_data_types@);
    let ghost step = |i: int| target_failure(*p, allowed, *o, i);
    let mut m: HashMap<i64, i64> = HashMap::new();
    let mut names: Vec<String> = Vec::new();
    let mut i: usize = 0;
    while i < p.targets.len()
        invariant
            i <= p.targets@.len(),
            p.targets@.len() < i64::MAX,
            o.target_scaling@.len() == p.targets@.len(),
            forall|x: i64| conns@.contains_key(x) <==> p.connections@.contains(x),
            allowed == strings_of(allowed_data_types@),
            step == (|i: int| target_failure(*p, allowed, *o, i)),
            first_failure(step, i as int) is None,
            m@ == target_index(*p, i as int),
            forall|x: Seq<char>| strings_of(names@).contains(x) <==> target_names(*p, i as int).contains(x),
        decreases p.targets.len() - i,
    {
        let d = &p.targets[i].draft;
        match remap(conns, d.plc_connection_id, "writeTargets", "plcConnectionId") {
            Ok(_) => {},
            Err(e) => {
                proof {
                    assert(first_failure(step, i + 1) == step(i as int));
                    lemma_first_failure_sticks(step, i + 1, p.targets@.len() as int);
                }
                return Err(e);
            },
        }
        let (errs, norm) = validate_target(d, allowed_data_types, copy_errors(&o.target_scaling[i]), true);
        if errs.len() > 0 {
            let e = ServiceError::Validation { field_errors: errs };
            proof {
                assert(first_failure(step, i + 1) == step(i as int));
                lemma_first_failure_sticks(step, i + 1, p.targets@.len() as int);
            }
            return Err(e);
        }
        if contains_str(&names, norm.name.as_str()) {
            let e = taken_error();
            proof {
                assert(first_failure(step, i + 1) == step(i as int));
                lemma_first_failure_sticks(step, i + 1, p.targets@.len() as int);
            }
            return Err(e);
        }
        let ghost old_names = names@;
        names.push(norm.name);
        proof {
            assert(strings_of(names@) =~= strings_of(old_names).push(trim_spec(d.name@)));
            assert forall|x: Seq<char>| strings_of(names@).contains(x) <==> target_names(*p, i + 1).contains(x) by {
                if x == trim_spec(d.name@) {
                    assert(strings_of(names@)[old_names.len() as int] == x);
                }
                if strings_of(names@).contains(x) && x != trim_spec(d.name@) {
                    let k = choose|k: int| 0 <= k < strings_of(names@).len() && #[trigger] strings_of(names@)[k] == x;
                    assert(strings_of(old_names)[k] == x);
                }
                if strings_of(old_names).contains(x) {
                    let k = choose|k: int| 0 <= k < strings_of(old_names).len() && #[trigger] strings_of(old_names)[k] == x;
                    assert(strings_of(names@)[k] == x);
                }
            }
        }
        m.insert(p.targets[i].id, i as i64);
        i = i + 1;
    }
    Ok(m)
}

/// Before the first failure, no row failed.
proof fn lemma_first_failure_none(step: spec_fn(int) -> Option<Failure>, n: int, i: int)
    requires
        first_failure(step, n) is None,
        0 <= i < n,
    ensures
        step(i) is None,
    decreases n,
{
    if i < n - 1 {
        lemma_first_failure_none(step, n - 1, i);
    }
}

/// A tag id of the file maps to the index of a tag row.
proof fn lemma_tag_index_in_range(p: ProjectRows, n: int, id: i64)
    requires
        0 <= n <= p.tags@.len(),
        p.tags@.len() < i64::MAX,
        tag_index(p, n).contains_key(id),
    ensures
        0 <= tag_index(p, n)[id] < n,
    decreases n,
{
    if n > 0 && p.tags@[n - 1].id != id {
        lemma_tag_index_in_range(p, n - 1, id);
    }
}

/// A target id of the file maps to the index of a target row.
proof fn lemma_target_index_in_range(p: ProjectRows, n: int, id: i64)
    requires
        0 <= n <= p.targets@.len(),
        p.targets@.len() < i64::MAX,
        target_index(p, n).contains_key(id),
    ensures
        0 <= target_index(p, n)[id] < n,
    decreases n,
{
    if n > 0 && p.targets@[n - 1].id != id {
        lemma_target_index_in_range(p, n - 1, id);
    }
}

/// A copy of a type.
fn copy_meta(m: &TypeMeta) -> (r: TypeMeta)
    ensures
        r == *m,
{
    TypeMeta { data_type: m.data_type.clone(), string_length: m.string_length }
}

/// What rule `i` needs looked up once its references resolved: the types
/// for the rule checks, its source devices and its target device.
fn rule_lookups(
    p: &ProjectRows,
    groups: &HashMap<i64, i64>,
    tags: &HashMap<i64, i64>,
    targets: &HashMap<i64, i64>,
    refs: &RuleRefs,
    i: usize,
) -> (r: (ResolvedRefs, Vec<Device>, Device))
    requires
        i < p.rules@.len(),
        p.tags@.len() < i64::MAX,
        p.targets@.len() < i64::MAX,
        groups@ == group_conn(*p, p.groups@.len() as int),
        tags@ == tag_index(*p, p.tags@.len() as int),
        targets@ == target_index(*p, p.targets@.len() as int),
        forall|k: int| 0 <= k < p.tags@.len() ==> groups@.contains_key(#[trigger] p.tags@[k].collection_group_id),
        ({
            let d = p.rules@[i as int].draft;
            let cs = d.conditions@.map_values(|c: crate::write_rule_conditions::ConditionFacts| c.source_tag_id);
            &&& rule_refs_resolve(d.write_target_id, d.write_source_tag_id, cs, targets@, tags@)
            &&& refs.write_target_id == targets@[d.write_target_id]
            &&& refs.write_source_tag_id == match d.write_source_tag_id {
                Some(s) => Some(tags@[s]),
                None => None::<i64>,
            }
            &&& refs.condition_sources@.len() == cs.len()
            &&& forall|j: int| 0 <= j < cs.len() ==> #[trigger] refs.condition_sources@[j] == tags@[cs[j]]
        }),
    ensures
        ({
            let d = p.rules@[i as int].draft;
            &&& r.0.target == Some(target_meta(*p, targets@[d.write_target_id] as int))
            &&& r.0.copy_source == match d.write_source_tag_id {
                Some(s) => Some(tag_meta(*p, s)),
                None => None::<TypeMeta>,
            }
            &&& r.0.condition_sources@ == rule_condition_metas(*p, i as int)
            &&& devices_view(r.1@) == rule_sources(*p, i as int)
            &&& r.2@ == target_device(*p, d.write_target_id)
        }),
{
    let ghost d = p.rules@[i as int].draft;
    let ghost cs = d.conditions@.map_values(|c: crate::write_rule_conditions::ConditionFacts| c.source_tag_id);
    proof {
        lemma_target_index_in_range(*p, p.targets@.len() as int, d.write_target_id);
    }
    proof {
        assert(p.targets@.len() == p.targets.len());
        assert(0 <= refs.write_target_id < p.targets.len());
    }
    let ti = refs.write_target_id as usize;
    assert(ti as int == targets@[d.write_target_id] as int);
    let target = &p.targets[ti];
    assert(*target == p.targets@[targets@[d.write_target_id] as int]);
    let tmeta = TypeMeta { data_type: target.draft.data_type.clone(), string_length: target.string_length };
    let tdev = Device { connection_id: target.draft.plc_connection_id, address: trim(target.draft.address.as_str()) };
    let copy = match refs.write_source_tag_id {
        Some(k) => {
            proof {
                lemma_tag_index_in_range(*p, p.tags@.len() as int, d.write_source_tag_id->0);
                assert(p.tags@.len() == p.tags.len());
                assert(k == tags@[d.write_source_tag_id->0]);
            }
            let m = copy_meta(&p.tags[k as usize].meta);
            proof {
                assert(m == tag_meta(*p, d.write_source_tag_id->0));
            }
            Some(m)
        },
        None => None,
    };
    let mut metas: Vec<Option<TypeMeta>> = Vec::new();
    let mut devs: Vec<Device> = Vec::new();
    let n = refs.condition_sources.len();
    let mut j: usize = 0;
    while j < n
        invariant
            n == refs.condition_sources@.len(),
            n == cs.len(),
            cs == d.conditions@.map_values(|c: crate::write_rule_conditions::ConditionFacts| c.source_tag_id),
            i < p.rules@.len(),
            p.tags@.len() < i64::MAX,
            d == p.rules@[i as int].draft,
            j <= n,
            groups@ == group_conn(*p, p.groups@.len() as int),
            tags@ == tag_index(*p, p.tags@.len() as int),
            forall|k: int| 0 <= k < p.tags@.len() ==> groups@.contains_key(#[trigger] p.tags@[k].collection_group_id),
            forall|q: int| 0 <= q < cs.len() ==> tags@.contains_key(cs[q]),
            forall|q: int| 0 <= q < cs.len() ==> #[trigger] refs.condition_sources@[q] == tags@[cs[q]],
            metas@.len() == j,
            devs@.len() == j,
            forall|q: int| 0 <= q < j ==> #[trigger] metas@[q] == rule_condition_metas(*p, i as int)[q],
            forall|q: int| 0 <= q < j ==> #[trigger] devs@[q]@ == rule_sources(*p, i as int)[q],
        decreases n - j,
    {
        proof {
            assert(cs[j as int] == d.conditions@[j as int].source_tag_id);
            lemma_tag_index_in_range(*p, p.tags@.len() as int, cs[j as int]);
        }
        assert(refs.condition_sources@[j as int] == tags@[cs[j as int]]);
        assert(0 <= refs.condition_sources@[j as int] < p.tags@.len());
        assert(p.tags@.len() == p.tags.len());
        let k = refs.condition_sources[j] as usize;
        let t = &p.tags[k];
        metas.push(Some(copy_meta(&t.meta)));
        let conn = match groups.get(&t.collection_group_id) {
            Some(c) => *c,
            None => {
                proof {
                    assert(groups@.contains_key(p.tags@[k as int].collection_group_id));
                }
                0
            },
        };
        devs.push(Device { connection_id: conn, address: trim(t.address.as_str()) });
        proof {
            assert(k as int == tags@[cs[j as int]] as int);
            assert(rule_condition_metas(*p, i as int)[j as int] == Some(tag_meta(*p, cs[j as int])));
            assert(rule_sources(*p, i as int)[j as int] == tag_device(*p, cs[j as int]));
            assert(devs@[j as int]@ == tag_device(*p, cs[j as int]));
        }
        j = j + 1;
    }
    proof {
        assert(metas@ =~= rule_condition_metas(*p, i as int));
        assert(devices_view(devs@) =~= rule_sources(*p, i as int));
        assert(tmeta == target_meta(*p, targets@[d.write_target_id] as int));
        assert(tdev@ == target_device(*p, d.write_target_id));
    }
    (ResolvedRefs { target: Some(tmeta), copy_source: copy, condition_sources: metas }, devs, tdev)
}

/// The condition source ids of a rule draft.
fn condition_source_ids(d: &RuleDraft) -> (r: Vec<i64>)
    ensures
        r@ == d.conditions@.map_values(|c: crate::write_rule_conditions::ConditionFacts| c.source_tag_id),
{
    let mut out: Vec<i64> = Vec::new();
    let mut j: usize = 0;
    while j < d.conditions.len()
        invariant
            j <= d.conditions@.len(),
            out@ =~= d.conditions@.take(j as int).map_values(
                |c: crate::write_rule_conditions::ConditionFacts| c.source_tag_id,
            ),
        decreases d.conditions.len() - j,
    {
        out.push(d.conditions[j].source_tag_id);
        proof {
            assert(d.conditions@.take(j + 1) =~= d.conditions@.take(j as int).push(d.conditions@[j as int]));
        }
        j = j + 1;
    }
    proof {
        assert(d.conditions@.take(d.conditions@.len() as int) =~= d.conditions@);
    }
    out
}

/// Replays the write rules: references, rule checks, write loops against
/// the enabled rules before, new names.
fn check_rules(
    p: &ProjectRows,
    groups: &HashMap<i64, i64>,
    tags: &HashMap<i64, i64>,
    targets: &HashMap<i64, i64>,
) -> (r: Result<(), ServiceError>)
    requires
        p.tags@.len() < i64::MAX,
        p.targets@.len() < i64::MAX,
        groups@ == group_conn(*p, p.groups@.len() as int),
        tags@ == tag_index(*p, p.tags@.len() as int),
        targets@ == target_index(*p, p.targets@.len() as int),
        forall|k: int| 0 <= k < p.tags@.len() ==> groups@.contains_key(#[trigger] p.tags@[k].collection_group_id),
    ensures
        r is Ok <==> rules_failure(*p, p.rules@.len() as int) is None,
        r matches Err(e) ==> (rules_failure(*p, p.rules@.len() as int)->0)(e),
{
    let ghost step = |i: int| rule_failure(*p, i);
    let mut names: Vec<String> = Vec::new();
    let mut others: Vec<OtherRule> = Vec::new();
    let mut i: usize = 0;
    while i < p.rules.len()
        invariant
            i <= p.rules@.len(),
            p.tags@.len() < i64::MAX,
            p.targets@.len() < i64::MAX,
            groups@ == group_conn(*p, p.groups@.len() as int),
            tags@ == tag_index(*p, p.tags@.len() as int),
            targets@ == target_index(*p, p.targets@.len() as int),
            forall|k: int| 0 <= k < p.tags@.len() ==> groups@.contains_key(#[trigger] p.tags@[k].collection_group_id),
            step == (|i: int| rule_failure(*p, i)),
            first_failure(step, i as int) is None,
            forall|x: Seq<char>| strings_of(names@).contains(x) <==> rule_names(*p, i as int).contains(x),
            others_edges(others@) == loop_edges(*p, i as int),
        decreases p.rules.len() - i,
    {
        let d = &p.rules[i].draft;
        let ghost cs = d.conditions@.map_values(|c: crate::write_rule_conditions::ConditionFacts| c.source_tag_id);
        let sources = condition_source_ids(d);
        let refs = match remap_rule_refs(d.write_target_id, d.write_source_tag_id, &sources, targets, tags) {
            Ok(refs) => refs,
            Err(e) => {
                proof {
                    if targets@.contains_key(d.write_target_id) && !(d.write_source_tag_id matches Some(s)
                        && !tags@.contains_key(s)) {
                        let k = choose|k: int|
                            #![trigger sources@[k]]
                            0 <= k < sources@.len() && !tags@.contains_key(sources@[k]) && (forall|j: int|
                                0 <= j < k ==> tags@.contains_key(sources@[j])) && single_field_error(
                                e,
                                "writeRules.conditions.sourceTagId"@,
                                missing_reference_message(sources@[k] as int),
                            );
                        assert(sources@[k] == d.conditions@[k].source_tag_id);
                        assert forall|j: int| 0 <= j < k implies tags@.contains_key(
                            d.conditions@[j].source_tag_id,
                        ) by {
                            assert(sources@[j] == d.conditions@[j].source_tag_id);
                        }
                        assert((first_missing_condition(*p, i as int))(e));
                    }
                    assert(first_failure(step, i + 1) == step(i as int));
                    lemma_first_failure_sticks(step, i + 1, p.rules@.len() as int);
                }
                return Err(e);
            },
        };
        proof {
            assert forall|j: int| 0 <= j < d.conditions@.len() implies tags@.contains_key(
                #[trigger] d.conditions@[j].source_tag_id,
            ) by {
                assert(sources@[j] == d.conditions@[j].source_tag_id);
            }
        }
        let (resolved, srcs, tdev) = rule_lookups(p, groups, tags, targets, &refs, i);
        let errs = collect_rule_errors(d, &resolved);
        if errs.len() > 0 {
            let e = ServiceError::Validation { field_errors: errs };
            proof {
                assert(first_failure(step, i + 1) == step(i as int));
                lemma_first_failure_sticks(step, i + 1, p.rules@.len() as int);
            }
            return Err(e);
        }
        let name = trim(d.name.as_str());
        let target = Some(tdev);
        if d.enabled {
            match detect_write_cycle(true, d.name.as_str(), &target, &srcs, &others) {
                Ok(()) => {},
                Err(e) => {
                    proof {
                        assert(first_failure(step, i + 1) == step(i as int));
                        lemma_first_failure_sticks(step, i + 1, p.rules@.len() as int);
                    }
                    return Err(e);
                },
            }
        }
        if contains_str(&names, name.as_str()) {
            let e = taken_error();
            proof {
                assert(first_failure(step, i + 1) == step(i as int));
                lemma_first_failure_sticks(step, i + 1, p.rules@.len() as int);
            }
            return Err(e);
        }
        let ghost old_names = names@;
        let ghost old_others = others@;
        let tdev = match target {
            Some(t) => t,
            None => Device { connection_id: 0, address: String::new() },
        };
        if d.enabled {
            let o = OtherRule { name: name.clone(), devices: Some((srcs, tdev)) };
            others.push(o);
            proof {
                assert(others@.drop_last() =~= old_others);
            }
        }
        names.push(name);
        proof {
            assert(strings_of(names@) =~= strings_of(old_names).push(trim_spec(d.name@)));
            assert forall|x: Seq<char>| strings_of(names@).contains(x) <==> rule_names(*p, i + 1).contains(x) by {
                if x == trim_spec(d.name@) {
                    assert(strings_of(names@)[old_names.len() as int] == x);
                }
                if strings_of(names@).contains(x) && x != trim_spec(d.name@) {
                    let k = choose|k: int| 0 <= k < strings_of(names@).len() && #[trigger] strings_of(names@)[k] == x;
                    assert(strings_of(old_names)[k] == x);
                }
                if strings_of(old_names).contains(x) {
                    let k = choose|k: int| 0 <= k < strings_of(old_names).len() && #[trigger] strings_of(old_names)[k] == x;
                    assert(strings_of(names@)[k] == x);
                }
            }
        }
        i = i + 1;
    }
    Ok(())
}

/// Validates a whole project file before any of it is applied, by
/// replaying it in file order (see [`replay_failure`]): `Ok` exactly when
/// it replays cleanly, else the first failure. `allowed_data_types` is the
/// registry's list of data types; `outside` carries the verdicts computed
/// elsewhere, one per row.
pub fn validate_project(p: &ProjectRows, allowed_data_types: &Vec<String>, outside: &OutsideVerdicts) -> (r: Result<
    (),
    ServiceError,
>)
    requires
        verdicts_cover(*p, *outside),
        p.tags@.len() < i64::MAX,
        p.targets@.len() < i64::MAX,
    ensures
        r is Ok <==> project_replays(*p, strings_of(allowed_data_types@), *outside),
        r matches Err(e) ==> (replay_failure(*p, strings_of(allowed_data_types@), *outside)->0)(e),
{
    check_verdicts(&outside.connections)?;
    let conns = connection_ids(p);
    let groups = check_groups(p, outside, &conns)?;
    let tags = check_tags(p, outside, &groups)?;
    proof {
        assert forall|k: int| 0 <= k < p.tags@.len() implies groups@.contains_key(
            #[trigger] p.tags@[k].collection_group_id,
        ) by {
            lemma_first_failure_none(|i: int| tag_failure(*p, *outside, i), p.tags@.len() as int, k);
        }
    }
    let targets = check_targets(p, allowed_data_types, outside, &conns)?;
    check_rules(p, &groups, &tags, &targets)?;
    check_verdicts(&outside.qr_strings)?;
    Ok(())
}

/// Whether an import may replace the configuration: the engine is
/// disarmed, the header is this format and version, and the file replays
/// cleanly, checked in that order. The caller applies the file only on `Ok`,
/// so a refused import changes nothing.
pub fn import_gate(
    armed: bool,
    format: &str,
    version: u32,
    p: &ProjectRows,
    allowed_data_types: &Vec<String>,
    outside: &OutsideVerdicts,
) -> (r: Result<(), ServiceError>)
    requires
        verdicts_cover(*p, *outside),
        p.tags@.len() < i64::MAX,
        p.targets@.len() < i64::MAX,
    ensures
        r is Ok <==> (!armed && format@ == project_format() && version == VERSION && project_replays(
            *p,
            strings_of(allowed_data_types@),
            *outside,
        )),
        armed ==> (r matches Err(e) && e matches ServiceError::Other(m) && m@ == armed_import_message()),
        !armed && format@ != project_format() ==> (r matches Err(e) && single_field_error(
            e,
            "format"@,
            format_message(format@),
        )),
        !armed && format@ == project_format() && version != VERSION ==> (r matches Err(e) && single_field_error(
            e,
            "version"@,
            version_message(version as int),
        )),
        !armed && format@ == project_format() && version == VERSION ==> (r matches Err(e) ==> (replay_failure(
            *p,
            strings_of(allowed_data_types@),
            *outside,
        )->0)(e)),
{
    import_allowed(armed)?;
    check_header(format, version)?;
    validate_project(p, allowed_data_types, outside)
}

} // verus!
