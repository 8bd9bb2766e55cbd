use relay_wright::error::{FieldError, ServiceError};
use relay_wright::project::{format_tag, VERSION};
use relay_wright::project_replay::{
    import_gate, validate_project, OutsideVerdicts, ProjectGroup, ProjectRows, ProjectRule, ProjectTag, ProjectTarget,
};
use relay_wright::write_rule_conditions::ConditionFacts;
use relay_wright::write_rules::{RuleDraft, TypeMeta};
use relay_wright::write_targets::TargetDraft;

fn allowed() -> Vec<String> {
    vec!["u16".to_string(), "f32".to_string(), "string".to_string()]
}

fn meta(dt: &str) -> TypeMeta {
    TypeMeta { data_type: dt.to_string(), string_length: None }
}

fn tag(id: i64, group: i64, addr: &str) -> ProjectTag {
    ProjectTag { id, collection_group_id: group, address: addr.to_string(), meta: meta("u16") }
}

fn target(id: i64, name: &str, conn: i64, addr: &str) -> ProjectTarget {
    ProjectTarget {
        id,
        draft: TargetDraft {
            name: name.to_string(),
            plc_connection_id: conn,
            address: addr.to_string(),
            data_type: "u16".to_string(),
            unit: None,
            decimals: 0,
            enabled: true,
        },
        string_length: None,
    }
}

fn cond(source: i64) -> ConditionFacts {
    ConditionFacts {
        source_tag_id: source,
        operator: "gt".to_string(),
        has_threshold_value: true,
        has_threshold_value_2: false,
        bounds_inverted: false,
        threshold_not_bit: false,
        threshold_text: None,
    }
}

fn rule(id: i64, name: &str, target: i64, source: i64) -> ProjectRule {
    ProjectRule {
        id,
        draft: RuleDraft {
            name: name.to_string(),
            enabled: true,
            edge_mode: "rising".to_string(),
            cooldown_ms: None,
            write_target_id: target,
            write_value_mode: "constant".to_string(),
            has_write_constant_value: true,
            write_constant_text: None,
            write_source_tag_id: None,
            conditions: vec![cond(source)],
        },
    }
}

/// One connection (10), one group (20), tags 30 (D100) and 31 (D200), a
/// target 40 writing D300 and a rule from tag 30 to that target.
fn file() -> ProjectRows {
    ProjectRows {
        connections: vec![10],
        groups: vec![ProjectGroup { id: 20, plc_connection_id: 10 }],
        tags: vec![tag(30, 20, "D100"), tag(31, 20, "D200")],
        targets: vec![target(40, "T1", 10, "D300")],
        rules: vec![rule(50, "R1", 40, 30)],
        qr_strings: 0,
    }
}

fn passing(p: &ProjectRows) -> OutsideVerdicts {
    OutsideVerdicts {
        connections: p.connections.iter().map(|_| vec![]).collect(),
        groups: p.groups.iter().map(|_| vec![]).collect(),
        tags: p.tags.iter().map(|_| vec![]).collect(),
        target_scaling: p.targets.iter().map(|_| vec![]).collect(),
        qr_strings: (0..p.qr_strings).map(|_| vec![]).collect(),
    }
}

fn pairs(e: &ServiceError) -> Vec<(String, String)> {
    match e {
        ServiceError::Validation { field_errors } => {
            field_errors.iter().map(|f| (f.field.clone(), f.message.clone())).collect()
        }
        _ => panic!("expected a validation error"),
    }
}

#[test]
fn a_consistent_file_replays() {
    let p = file();
    assert!(validate_project(&p, &allowed(), &passing(&p)).is_ok());
}

#[test]
fn an_empty_file_replays() {
    let p = ProjectRows { connections: vec![], groups: vec![], tags: vec![], targets: vec![], rules: vec![], qr_strings: 0 };
    assert!(validate_project(&p, &allowed(), &passing(&p)).is_ok());
}

#[test]
fn a_tag_in_a_group_absent_from_the_file_rejects_it() {
    let mut p = file();
    p.tags[1].collection_group_id = 21;
    let e = validate_project(&p, &allowed(), &passing(&p)).unwrap_err();
    assert_eq!(
        pairs(&e),
        vec![("tags.collectionGroupId".to_string(), "プロジェクトファイル内で参照先が見つかりません（id=21）".to_string())]
    );
}

#[test]
fn a_group_on_a_connection_absent_from_the_file_rejects_it() {
    let mut p = file();
    p.groups[0].plc_connection_id = 11;
    let e = validate_project(&p, &allowed(), &passing(&p)).unwrap_err();
    assert_eq!(pairs(&e)[0].0, "collectionGroups.plcConnectionId");
}

#[test]
fn a_rule_on_a_target_absent_from_the_file_rejects_it() {
    let mut p = file();
    p.rules[0].draft.write_target_id = 41;
    let e = validate_project(&p, &allowed(), &passing(&p)).unwrap_err();
    assert_eq!(
        pairs(&e),
        vec![("writeRules.writeTargetId".to_string(), "プロジェクトファイル内で参照先が見つかりません（id=41）".to_string())]
    );
}

#[test]
fn a_duplicate_target_name_rejects_the_file() {
    let mut p = file();
    p.targets.push(target(41, " T1 ", 10, "D301"));
    let e = validate_project(&p, &allowed(), &passing(&p)).unwrap_err();
    assert_eq!(pairs(&e), vec![("name".to_string(), "既に使用されています".to_string())]);
}

#[test]
fn a_target_of_an_unknown_data_type_rejects_the_file() {
    let mut p = file();
    p.targets[0].draft.data_type = "i8".to_string();
    let e = validate_project(&p, &allowed(), &passing(&p)).unwrap_err();
    assert_eq!(pairs(&e)[0].0, "dataType");
}

#[test]
fn a_rule_writing_its_own_source_is_a_loop_and_rejects_the_file() {
    let mut p = file();
    p.targets[0].draft.address = "D100".to_string();
    let e = validate_project(&p, &allowed(), &passing(&p)).unwrap_err();
    assert_eq!(
        pairs(&e),
        vec![(
            "enabled".to_string(),
            "書き込みループを検出しました: ルール「R1」を有効にすると、ルール「R1」との間で読み書きが循環します".to_string()
        )]
    );
}

#[test]
fn a_disabled_self_loop_replays() {
    let mut p = file();
    p.targets[0].draft.address = "D100".to_string();
    p.rules[0].draft.enabled = false;
    assert!(validate_project(&p, &allowed(), &passing(&p)).is_ok());
}

#[test]
fn a_loop_through_an_earlier_rule_names_that_rule() {
    // R1 reads D100 and writes D300; R2 reads D300 (tag 32) and writes D100.
    let mut p = file();
    p.tags.push(tag(32, 20, "D300"));
    p.targets.push(target(41, "T2", 10, "D100"));
    p.rules.push(rule(51, "R2", 41, 32));
    let e = validate_project(&p, &allowed(), &passing(&p)).unwrap_err();
    let v = pairs(&e);
    assert_eq!(v.len(), 1);
    assert_eq!(v[0].0, "enabled");
    assert!(v[0].1.contains("ルール「R2」を有効にすると、ルール「R1」との間で"), "{}", v[0].1);
}

#[test]
fn a_duplicate_rule_name_rejects_the_file() {
    let mut p = file();
    p.rules.push(rule(51, "R1", 40, 31));
    let e = validate_project(&p, &allowed(), &passing(&p)).unwrap_err();
    assert_eq!(pairs(&e), vec![("name".to_string(), "既に使用されています".to_string())]);
}

#[test]
fn an_outside_verdict_on_a_tag_rejects_the_file() {
    let p = file();
    let mut o = passing(&p);
    o.tags[0] = vec![FieldError { field: "address".to_string(), message: "bad".to_string() }];
    let e = validate_project(&p, &allowed(), &o).unwrap_err();
    assert_eq!(pairs(&e), vec![("address".to_string(), "bad".to_string())]);
}

#[test]
fn the_earliest_failure_in_file_order_wins() {
    let mut p = file();
    p.targets[0].draft.data_type = "i8".to_string();
    p.rules[0].draft.write_target_id = 41;
    let mut o = passing(&p);
    o.connections[0] = vec![FieldError { field: "host".to_string(), message: "bad host".to_string() }];
    let e = validate_project(&p, &allowed(), &o).unwrap_err();
    assert_eq!(pairs(&e), vec![("host".to_string(), "bad host".to_string())]);
}

#[test]
fn an_import_is_gated_by_arming_header_then_replay() {
    let p = file();
    let o = passing(&p);
    assert!(import_gate(false, format_tag(), VERSION, &p, &allowed(), &o).is_ok());
    assert!(matches!(import_gate(true, format_tag(), VERSION, &p, &allowed(), &o), Err(ServiceError::Other(_))));
    assert_eq!(pairs(&import_gate(false, "other", VERSION, &p, &allowed(), &o).unwrap_err())[0].0, "format");
    assert_eq!(pairs(&import_gate(false, format_tag(), VERSION + 1, &p, &allowed(), &o).unwrap_err())[0].0, "version");
    let mut bad = file();
    bad.tags[1].collection_group_id = 21;
    let o = passing(&bad);
    assert_eq!(
        pairs(&import_gate(false, format_tag(), VERSION, &bad, &allowed(), &o).unwrap_err())[0].0,
        "tags.collectionGroupId"
    );
}
