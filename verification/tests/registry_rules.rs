use relay_wright::compile::plan_rule;
use relay_wright::rule_engine::{EdgeMode, Operator};
use relay_wright::compile::{choose_value_mode, register_sources, string_words, ValueModeChoice};
use relay_wright::error::{not_found, ServiceError};
use relay_wright::registry::{connection_not_found, group_not_found, ConnectionCascadePreview};
use relay_wright::support::{
    collapse_scaling, max_length_message, range_message, required_message, sjis_error_from_encoding,
    sjis_text_error, write_error, WriteViolation,
};
use relay_wright::write_cycle::{detect_write_cycle, find_path, Device, DeviceEdge, OtherRule};
use relay_wright::write_rule_conditions::{field, is_allowed_operator, validate_condition_input, ConditionFacts, SourceTagKind};
use relay_wright::write_rules::{collect_rule_errors, normalize, persisted_upper, ResolvedRefs, RuleDraft, TypeMeta};
use relay_wright::write_targets::{check_delete, default_decimals, default_enabled, validate_target, TargetDraft};

use std::collections::HashSet;

fn dev(conn: i64, addr: &str) -> Device {
    Device { connection_id: conn, address: addr.to_string() }
}

fn pairs(errors: &[relay_wright::error::FieldError]) -> Vec<(String, String)> {
    errors.iter().map(|e| (e.field.clone(), e.message.clone())).collect()
}

#[test]
fn a_rule_writing_its_own_source_is_a_loop() {
    let r = detect_write_cycle(true, " R1 ", &Some(dev(1, "D100")), &vec![dev(1, "D100")], &vec![]);
    match r {
        Err(ServiceError::Validation { field_errors }) => {
            assert_eq!(field_errors.len(), 1);
            assert_eq!(field_errors[0].field, "enabled");
            assert_eq!(
                field_errors[0].message,
                "書き込みループを検出しました: ルール「R1」を有効にすると、ルール「R1」との間で読み書きが循環します"
            );
        }
        _ => panic!("expected a loop"),
    }
}

#[test]
fn a_loop_through_another_rule_names_it() {
    let others = vec![OtherRule { name: "R2".to_string(), devices: Some((vec![dev(1, "D200")], dev(1, "D100"))) }];
    let r = detect_write_cycle(true, "R1", &Some(dev(1, "D200")), &vec![dev(1, "D100")], &others);
    match r {
        Err(ServiceError::Validation { field_errors }) => {
            assert!(field_errors[0].message.contains("ルール「R1」"));
        }
        _ => panic!("expected a loop"),
    }
}

#[test]
fn no_loop_disabled_or_unresolved_passes() {
    let others = vec![OtherRule { name: "R2".to_string(), devices: Some((vec![dev(1, "D300")], dev(1, "D400"))) }];
    assert!(detect_write_cycle(true, "R1", &Some(dev(1, "D200")), &vec![dev(1, "D100")], &others).is_ok());
    assert!(detect_write_cycle(false, "R1", &Some(dev(1, "D100")), &vec![dev(1, "D100")], &others).is_ok());
    assert!(detect_write_cycle(true, "R1", &None, &vec![dev(1, "D100")], &others).is_ok());
    let other_conn = detect_write_cycle(true, "R1", &Some(dev(2, "D100")), &vec![dev(1, "D100")], &vec![]);
    assert!(other_conn.is_ok(), "the same address on another connection is another device");
}

#[test]
fn field_names_and_messages() {
    assert_eq!(field(3, "operator"), "conditions.3.operator");
    assert_eq!(required_message(), "必須項目です");
    assert_eq!(max_length_message(100), "100文字以内で入力してください");
    assert_eq!(range_message(0, 6), "0〜6の範囲で入力してください");
    assert!(is_allowed_operator("bit_is"));
    assert!(!is_allowed_operator("ge"));
}

fn numeric_cond(op: &str) -> ConditionFacts {
    ConditionFacts {
        source_tag_id: 1,
        operator: op.to_string(),
        has_threshold_value: true,
        has_threshold_value_2: false,
        bounds_inverted: false,
        threshold_not_bit: false,
        threshold_text: None,
    }
}

#[test]
fn condition_validation_reports_in_order() {
    let errs = validate_condition_input(&numeric_cond("ge"), 0, Some(SourceTagKind::Numeric));
    assert_eq!(
        pairs(&errs),
        vec![(
            "conditions.0.operator".to_string(),
            "対応演算子は eq, neq, gt, gte, lt, lte, between, bit_is のいずれかです".to_string()
        )]
    );
    let mut c = numeric_cond("between");
    c.has_threshold_value = false;
    let errs = validate_condition_input(&c, 2, Some(SourceTagKind::Numeric));
    assert_eq!(
        pairs(&errs),
        vec![
            ("conditions.2.thresholdValue".to_string(), "必須項目です".to_string()),
            (
                "conditions.2.thresholdValue2".to_string(),
                "between には上限値（2つ目のしきい値）が必要です".to_string()
            ),
        ]
    );
    let mut s = numeric_cond("gt");
    s.has_threshold_value = false;
    s.threshold_text = Some("ABCDE".to_string());
    let errs = validate_condition_input(&s, 1, Some(SourceTagKind::Str { length: 2 }));
    assert_eq!(
        pairs(&errs),
        vec![
            (
                "conditions.1.operator".to_string(),
                "文字列タグの条件で使える演算子は eq, neq のみです".to_string()
            ),
            (
                "conditions.1.thresholdText".to_string(),
                "Shift-JIS で 5 バイトになり、2 語（4 バイト）に収まりません".to_string()
            ),
        ]
    );
    assert!(validate_condition_input(&numeric_cond("gt"), 0, None).is_empty());
}

#[test]
fn shift_jis_checks_capacity_and_mappability() {
    assert_eq!(sjis_text_error("ABCD", 2), None);
    assert_eq!(sjis_text_error("あい", 2), None, "two double-byte characters fit two words");
    assert_eq!(
        sjis_text_error("ABC", 1).as_deref(),
        Some("Shift-JIS で 3 バイトになり、1 語（2 バイト）に収まりません")
    );
    assert_eq!(sjis_text_error("😀", 10).as_deref(), Some("Shift-JIS で表現できない文字を含みます"));
}

fn draft() -> RuleDraft {
    RuleDraft {
        name: "R1".to_string(),
        enabled: true,
        edge_mode: "rising".to_string(),
        cooldown_ms: None,
        write_target_id: 5,
        write_value_mode: "constant".to_string(),
        has_write_constant_value: true,
        write_constant_text: None,
        write_source_tag_id: None,
        conditions: vec![numeric_cond("gt")],
    }
}

fn numeric_meta() -> TypeMeta {
    TypeMeta { data_type: "u16".to_string(), string_length: None }
}

#[test]
fn a_valid_rule_draft_has_no_errors() {
    let refs = ResolvedRefs { target: Some(numeric_meta()), copy_source: None, condition_sources: vec![Some(numeric_meta())] };
    assert!(collect_rule_errors(&draft(), &refs).is_empty());
}

#[test]
fn rule_draft_errors_come_in_report_order() {
    let mut d = draft();
    d.name = "   ".to_string();
    d.edge_mode = "level".to_string();
    d.cooldown_ms = Some(-1);
    d.conditions = vec![];
    let refs = ResolvedRefs { target: None, copy_source: None, condition_sources: vec![] };
    assert_eq!(
        pairs(&collect_rule_errors(&d, &refs)),
        vec![
            ("name".to_string(), "必須項目です".to_string()),
            ("edgeMode".to_string(), "対応エッジモードは rising, falling, change のいずれかです".to_string()),
            ("cooldownMs".to_string(), "クールダウンは0以上にしてください".to_string()),
            ("writeTargetId".to_string(), "指定された書き込み先が見つかりません".to_string()),
            ("conditions".to_string(), "条件を1つ以上設定してください".to_string()),
        ]
    );
}

#[test]
fn copying_a_longer_string_into_a_shorter_target_is_refused() {
    let mut d = draft();
    d.write_value_mode = "copy_from_source".to_string();
    d.has_write_constant_value = false;
    d.write_source_tag_id = Some(9);
    let refs = ResolvedRefs {
        target: Some(TypeMeta { data_type: "string".to_string(), string_length: Some(2) }),
        copy_source: Some(TypeMeta { data_type: "string".to_string(), string_length: Some(8) }),
        condition_sources: vec![Some(numeric_meta())],
    };
    assert_eq!(
        pairs(&collect_rule_errors(&d, &refs)),
        vec![(
            "writeSourceTagId".to_string(),
            "コピー先の文字列長（2語）がコピー元（8語）より短いため、コピーできません".to_string()
        )]
    );
}

#[test]
fn normalize_keeps_only_the_selected_mode() {
    let n = normalize("constant", Some(1.5f64), Some("x".to_string()), Some(3));
    assert_eq!(n.constant_value, Some(1.5));
    assert_eq!(n.source_tag_id, None);
    let n = normalize("copy_from_source", Some(1.5f64), Some("x".to_string()), Some(3));
    assert_eq!(n.constant_value, None);
    assert_eq!(n.constant_text, None);
    assert_eq!(n.source_tag_id, Some(3));
    assert_eq!(persisted_upper("between", Some(9.0f64)), Some(9.0));
    assert_eq!(persisted_upper("gt", Some(9.0f64)), None);
}

fn target_draft() -> TargetDraft {
    TargetDraft {
        name: " T1 ".to_string(),
        plc_connection_id: 1,
        address: " D100 ".to_string(),
        data_type: "u16".to_string(),
        unit: Some("  ".to_string()),
        decimals: default_decimals(),
        enabled: default_enabled(),
    }
}

#[test]
fn target_validation_trims_and_reports() {
    let allowed = vec!["u16".to_string(), "f32".to_string()];
    let (errs, n) = validate_target(&target_draft(), &allowed, vec![], true);
    assert!(errs.is_empty());
    assert_eq!(n.name, "T1");
    assert_eq!(n.address, "D100");
    assert_eq!(n.unit, None);

    let mut d = target_draft();
    d.data_type = "i8".to_string();
    d.decimals = 7;
    let (errs, _) = validate_target(&d, &allowed, vec![], false);
    assert_eq!(
        pairs(&errs),
        vec![
            ("dataType".to_string(), "対応データ型は u16, f32 のいずれかです".to_string()),
            ("decimals".to_string(), "0〜6の範囲で入力してください".to_string()),
            ("plcConnectionId".to_string(), "指定されたPLC接続が見つかりません".to_string()),
        ]
    );
}

#[test]
fn deleting_a_target_in_use_is_refused() {
    assert!(check_delete(0).is_none());
    let e = check_delete(3).unwrap();
    assert_eq!(e.field, "id");
    assert_eq!(e.message, "この書き込み先を使用している書き込みルールが3件あるため削除できません");
}

#[test]
fn not_found_errors_name_the_resource() {
    match connection_not_found(42) {
        ServiceError::NotFound { resource, id } => {
            assert_eq!(resource, "plc_connections");
            assert_eq!(id, "42");
        }
        _ => panic!(),
    }
    match group_not_found(-7) {
        ServiceError::NotFound { resource, id } => {
            assert_eq!(resource, "collection_groups");
            assert_eq!(id, "-7");
        }
        _ => panic!(),
    }
    assert!(matches!(not_found("tags", 1), ServiceError::NotFound { .. }));
    let p = ConnectionCascadePreview { groups: 2, tags: 3, write_targets: 1, write_rules: 1 };
    assert_eq!(p.tags, 3);
}

#[test]
fn string_spans_and_value_modes() {
    assert_eq!(string_words(Some(1)), Some(1));
    assert_eq!(string_words(Some(128)), Some(128));
    assert_eq!(string_words(Some(0)), None);
    assert_eq!(string_words(Some(129)), None);
    assert_eq!(string_words(None), None);
    assert_eq!(choose_value_mode("constant", true, false, true, None), Some(ValueModeChoice::ConstantText));
    assert_eq!(choose_value_mode("constant", true, true, false, None), None);
    assert_eq!(choose_value_mode("constant", false, true, false, None), Some(ValueModeChoice::Constant));
    assert_eq!(choose_value_mode("copy_from_source", false, false, false, Some(4)), Some(ValueModeChoice::CopyFromSource(4)));
    assert_eq!(choose_value_mode("copy_from_source", false, false, false, None), None);
    assert_eq!(choose_value_mode("toggle", false, true, true, Some(4)), None);
}

#[test]
fn each_source_is_polled_once() {
    let mut polled: HashSet<i64> = HashSet::new();
    assert_eq!(register_sources(&mut polled, &vec![1, 2, 1]), vec![true, true, false]);
    assert_eq!(register_sources(&mut polled, &vec![2, 3]), vec![false, true]);
    let mut all: Vec<i64> = polled.into_iter().collect();
    all.sort();
    assert_eq!(all, vec![1, 2, 3]);
}

#[test]
fn a_rule_compiles_only_when_everything_resolves() {
    let ops = vec!["gt".to_string(), "between".to_string()];
    let p = plan_rule("rising", Some(false), "constant", true, false, None, &ops, &vec![true, true], false)
        .expect("compiles");
    assert_eq!(p.edge_mode, EdgeMode::Rising);
    assert_eq!(p.value_mode, ValueModeChoice::Constant);
    assert_eq!(p.operators, vec![Operator::Gt, Operator::Between]);

    assert!(plan_rule("level", Some(false), "constant", true, false, None, &ops, &vec![true, true], false).is_none());
    assert!(plan_rule("rising", None, "constant", true, false, None, &ops, &vec![true, true], false).is_none());
    assert!(plan_rule("rising", Some(false), "constant", true, false, None, &ops, &vec![true, false], false).is_none());
    let bad_op = vec!["gt".to_string(), "ge".to_string()];
    assert!(plan_rule("rising", Some(false), "constant", true, false, None, &bad_op, &vec![true, true], false).is_none());
    assert!(plan_rule("rising", Some(false), "constant", true, false, None, &vec![], &vec![], false).is_none());
    assert!(plan_rule("falling", Some(true), "copy_from_source", false, false, Some(4), &ops, &vec![true, true], false).is_none());
    let copy = plan_rule("falling", Some(true), "copy_from_source", false, false, Some(4), &ops, &vec![true, true], true)
        .expect("compiles");
    assert_eq!(copy.value_mode, ValueModeChoice::CopyFromSource(4));
}

#[test]
fn the_encoded_length_verdict() {
    assert_eq!(sjis_error_from_encoding(4, false, 2), None);
    assert_eq!(
        sjis_error_from_encoding(5, false, 2).as_deref(),
        Some("Shift-JIS で 5 バイトになり、2 語（4 バイト）に収まりません")
    );
    assert_eq!(sjis_error_from_encoding(1, true, 10).as_deref(), Some("Shift-JIS で表現できない文字を含みます"));
    assert_eq!(sjis_error_from_encoding(1_000_000, false, -1), None, "a negative span leaves no limit");
}

#[test]
fn failed_writes_are_reported_by_constraint() {
    match write_error(WriteViolation::Unique, "name", "writeTargetId", "missing", "db".to_string()) {
        ServiceError::Validation { field_errors } => {
            assert_eq!(pairs(&field_errors), vec![("name".to_string(), "既に使用されています".to_string())]);
        }
        _ => panic!(),
    }
    match write_error(WriteViolation::ForeignKey, "name", "writeTargetId", "missing", "db".to_string()) {
        ServiceError::Validation { field_errors } => {
            assert_eq!(pairs(&field_errors), vec![("writeTargetId".to_string(), "missing".to_string())]);
        }
        _ => panic!(),
    }
    match write_error(WriteViolation::Other, "name", "writeTargetId", "missing", "disk I/O error".to_string()) {
        ServiceError::Storage(m) => assert_eq!(m, "disk I/O error"),
        _ => panic!(),
    }
    assert_eq!(collapse_scaling(Some(0.0), Some(10.0), Some(0.0), Some(100.0)), Some((0.0, 10.0, 0.0, 100.0)));
    assert_eq!(collapse_scaling(Some(0.0), None, Some(0.0), Some(100.0)), None);
}

#[test]
fn find_path_follows_edges_and_labels_them() {
    let e = |a: &str, b: &str, r: &str| DeviceEdge { from: dev(1, a), to: dev(1, b), rule_name: r.to_string() };
    let edges = vec![e("A", "B", "R1"), e("B", "C", "R2"), e("X", "A", "R3")];
    assert_eq!(find_path(&edges, &dev(1, "A"), &dev(1, "C")), Some(vec!["R1".to_string(), "R2".to_string()]));
    assert_eq!(find_path(&edges, &dev(1, "A"), &dev(1, "A")), Some(vec![]));
    assert_eq!(find_path(&edges, &dev(1, "C"), &dev(1, "A")), None);
    assert_eq!(find_path(&edges, &dev(2, "A"), &dev(1, "C")), None);
}

#[test]
fn an_inverted_pair_needs_both_bounds() {
    let mut c = numeric_cond("between");
    c.has_threshold_value = false;
    c.has_threshold_value_2 = true;
    c.bounds_inverted = true;
    let errs = validate_condition_input(&c, 1, Some(SourceTagKind::Numeric));
    assert_eq!(pairs(&errs), vec![("conditions.1.thresholdValue".to_string(), "必須項目です".to_string())]);
    c.has_threshold_value = true;
    let errs = validate_condition_input(&c, 1, Some(SourceTagKind::Numeric));
    assert_eq!(
        pairs(&errs),
        vec![("conditions.1.thresholdValue2".to_string(), "上限値は下限値以上にしてください".to_string())]
    );
}

fn string_meta(words: i64) -> TypeMeta {
    TypeMeta { data_type: "string".to_string(), string_length: Some(words) }
}

fn fields(errors: &[relay_wright::error::FieldError]) -> Vec<String> {
    errors.iter().map(|e| e.field.clone()).collect()
}

/// A constant rule writing "NG" into a string target, on one string condition.
fn string_draft() -> RuleDraft {
    let mut d = draft();
    d.has_write_constant_value = false;
    d.write_constant_text = Some("NG".to_string());
    d.conditions[0].operator = "eq".to_string();
    d.conditions[0].has_threshold_value = false;
    d.conditions[0].threshold_text = Some("OK".to_string());
    d
}

/// A string target of `words` words, on a string condition source of 4 words.
fn string_refs(words: i64) -> ResolvedRefs {
    ResolvedRefs { target: Some(string_meta(words)), copy_source: None, condition_sources: vec![Some(string_meta(4))] }
}

#[test]
fn string_target_constant_requires_text_and_rejects_numeric_constant() {
    // 2 words = 4 bytes.
    assert!(collect_rule_errors(&string_draft(), &string_refs(2)).is_empty());

    let mut d = string_draft();
    d.has_write_constant_value = true;
    assert!(fields(&collect_rule_errors(&d, &string_refs(2))).contains(&"writeConstantValue".to_string()));

    let mut d = string_draft();
    d.write_constant_text = None;
    assert!(fields(&collect_rule_errors(&d, &string_refs(2))).contains(&"writeConstantText".to_string()));

    let mut d = string_draft();
    d.write_constant_text = Some("ABCDE".to_string());
    assert!(fields(&collect_rule_errors(&d, &string_refs(2))).contains(&"writeConstantText".to_string()));
}

#[test]
fn numeric_target_rejects_text_constant() {
    let mut d = draft();
    d.write_constant_text = Some("NG".to_string());
    let refs = ResolvedRefs { target: Some(numeric_meta()), copy_source: None, condition_sources: vec![Some(numeric_meta())] };
    assert!(fields(&collect_rule_errors(&d, &refs)).contains(&"writeConstantText".to_string()));
}

#[test]
fn copy_string_to_string_requires_target_at_least_source_length() {
    let mut d = draft();
    d.enabled = false;
    d.write_value_mode = "copy_from_source".to_string();
    d.has_write_constant_value = false;
    d.write_source_tag_id = Some(9);
    let refs = |target_words: i64| ResolvedRefs {
        target: Some(string_meta(target_words)),
        copy_source: Some(string_meta(4)),
        condition_sources: vec![Some(numeric_meta())],
    };
    let errs = collect_rule_errors(&d, &refs(2));
    assert_eq!(errs[0].field, "writeSourceTagId");
    assert!(errs[0].message.contains("2語"), "message should name the lengths: {}", errs[0].message);
    assert!(collect_rule_errors(&d, &refs(4)).is_empty());
    // A number into a number adds no error; a string into a number does.
    let num = ResolvedRefs { target: Some(numeric_meta()), copy_source: Some(numeric_meta()), condition_sources: vec![Some(numeric_meta())] };
    assert!(collect_rule_errors(&d, &num).is_empty());
    let s2n = ResolvedRefs { target: Some(numeric_meta()), copy_source: Some(string_meta(4)), condition_sources: vec![Some(numeric_meta())] };
    assert_eq!(fields(&collect_rule_errors(&d, &s2n)), vec!["writeSourceTagId".to_string()]);
}

#[test]
fn create_rejects_empty_name() {
    let allowed = vec!["u16".to_string()];
    let mut d = target_draft();
    d.name = "   ".to_string();
    let (errs, _) = validate_target(&d, &allowed, vec![], true);
    assert_eq!(errs[0].field, "name");
}

#[test]
fn create_rejects_name_over_max_len() {
    let allowed = vec!["u16".to_string()];
    let mut d = target_draft();
    d.name = "あ".repeat(101);
    let (errs, _) = validate_target(&d, &allowed, vec![], true);
    assert_eq!(errs[0].field, "name");
    assert_eq!(errs[0].message, max_length_message(100));
}

#[test]
fn create_rejects_empty_address() {
    let allowed = vec!["u16".to_string()];
    let mut d = target_draft();
    d.address = "  ".to_string();
    let (errs, _) = validate_target(&d, &allowed, vec![], true);
    assert_eq!(errs[0].field, "address");
}
