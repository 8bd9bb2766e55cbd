use relay_wright::rest::access_decision;
use std::collections::HashMap;

use relay_wright::error::ServiceError;
use relay_wright::hub::{
    app_id_text, generate_installation_id, hub_error, hub_view, installation_id_from_bytes, HubErrorKind,
    HubRecordView, HubTagView, SettingsMirror, UnavailableKeyStore,
};
use relay_wright::monitor::{
    assemble_group_read, is_manual_write_disabled, manual_write_disabled, parse_bit_input, require_slmp,
    rounds_unscaled_value, value_error,
};
use relay_wright::project::{check_header, format_tag, import_allowed, remap, remap_rule_refs, ImportSummary, VERSION};
use relay_wright::rest::{
    bearer_token, default_payload_enabled, default_plc_protocol, default_plc_unit_id, default_tag_decimals,
};
use relay_wright::text::{i64_to_string, trim};
use relay_wright::write_audit_query::{audit_column, default_sort, SortKey};

fn single(e: &ServiceError) -> (String, String) {
    match e {
        ServiceError::Validation { field_errors } => {
            assert_eq!(field_errors.len(), 1);
            (field_errors[0].field.clone(), field_errors[0].message.clone())
        }
        _ => panic!("expected a validation error"),
    }
}

fn other(e: &ServiceError) -> String {
    match e {
        ServiceError::Other(m) => m.clone(),
        _ => panic!("expected Other"),
    }
}

#[test]
fn the_manual_write_refusal_is_recognised_exactly() {
    let e = manual_write_disabled();
    assert_eq!(other(&e), "手動書き込みは設定で無効です(設定画面から有効化できます)");
    assert!(is_manual_write_disabled(&e));
    assert!(!is_manual_write_disabled(&ServiceError::Other("書き込み結果が返されませんでした".to_string())));
    assert!(!is_manual_write_disabled(&ServiceError::Forbidden));
}

#[test]
fn the_monitor_serves_slmp_only() {
    assert!(require_slmp(3, "slmp").is_ok());
    let e = require_slmp(3, "modbus-tcp").unwrap_err();
    assert_eq!(
        other(&e),
        "タグモニタは SLMP 接続のみ対応です(接続 3 は protocol=modbus-tcp, relay-wright は現時点で他プロトコルに未対応)"
    );
    assert!(require_slmp(3, "SLMP").is_err());
}

#[test]
fn bit_inputs_ignore_ascii_case() {
    assert_eq!(parse_bit_input("ON"), Ok(true));
    assert_eq!(parse_bit_input("True"), Ok(true));
    assert_eq!(parse_bit_input("1"), Ok(true));
    assert_eq!(parse_bit_input("off"), Ok(false));
    assert_eq!(parse_bit_input("FALSE"), Ok(false));
    assert_eq!(parse_bit_input("0"), Ok(false));
    assert_eq!(
        parse_bit_input("2"),
        Err("bit タグには 0/1（または true/false）を入力してください".to_string())
    );
    assert!(parse_bit_input("yes").is_err());
}

#[test]
fn a_group_read_keeps_every_tag_in_order() {
    let resolved = vec![None, Some("データ型/文字列長を解決できません".to_string()), None, None];
    let out = assemble_group_read(
        &resolved,
        Ok(vec![Ok(1.5f64), Err("bad read".to_string()), Ok(3.0)]),
    );
    assert_eq!(
        out,
        vec![
            Ok(1.5),
            Err("データ型/文字列長を解決できません".to_string()),
            Err("bad read".to_string()),
            Ok(3.0),
        ]
    );
    let down = assemble_group_read::<f64>(&resolved, Err("session down".to_string()));
    assert_eq!(
        down,
        vec![
            Err("session down".to_string()),
            Err("データ型/文字列長を解決できません".to_string()),
            Err("session down".to_string()),
            Err("session down".to_string()),
        ]
    );
}

#[test]
fn project_headers_are_checked_format_first() {
    assert_eq!(format_tag(), "relay-wright-project");
    assert_eq!(VERSION, 1);
    assert!(check_header("relay-wright-project", 1).is_ok());
    assert_eq!(
        single(&check_header("other", 2).unwrap_err()),
        (
            "format".to_string(),
            "未知のプロジェクト形式です（期待: relay-wright-project、実際: other）".to_string()
        )
    );
    assert_eq!(
        single(&check_header("relay-wright-project", 2).unwrap_err()),
        (
            "version".to_string(),
            "このバージョンのプロジェクトファイル（version 2）は読み込めません（対応 version 1）".to_string()
        )
    );
}

#[test]
fn an_armed_engine_refuses_imports() {
    assert!(import_allowed(false).is_ok());
    assert_eq!(
        other(&import_allowed(true).unwrap_err()),
        "エンジンがアーム中です。インポート前にディスアームしてください"
    );
    let s = ImportSummary {
        plc_connections: 1,
        collection_groups: 2,
        tags: 3,
        write_targets: 4,
        write_rules: 5,
        write_rule_conditions: 6,
        qr_strings: 7,
    };
    assert_eq!(s.write_rule_conditions, 6);
}

#[test]
fn remapping_follows_the_recorded_ids() {
    let mut m: HashMap<i64, i64> = HashMap::new();
    m.insert(10, 100);
    assert_eq!(remap(&m, 10, "tags", "collectionGroupId").unwrap(), 100);
    assert_eq!(
        single(&remap(&m, 11, "tags", "collectionGroupId").unwrap_err()),
        (
            "tags.collectionGroupId".to_string(),
            "プロジェクトファイル内で参照先が見つかりません（id=11）".to_string()
        )
    );
}

#[test]
fn rule_references_are_remapped_or_the_first_missing_one_is_named() {
    let mut targets: HashMap<i64, i64> = HashMap::new();
    targets.insert(1, 101);
    let mut tags: HashMap<i64, i64> = HashMap::new();
    tags.insert(5, 505);
    tags.insert(6, 606);
    let refs = remap_rule_refs(1, Some(6), &vec![5, 6], &targets, &tags).unwrap();
    assert_eq!(refs.write_target_id, 101);
    assert_eq!(refs.write_source_tag_id, Some(606));
    assert_eq!(refs.condition_sources, vec![505, 606]);

    let e = remap_rule_refs(2, Some(9), &vec![9], &targets, &tags).unwrap_err();
    assert_eq!(single(&e).0, "writeRules.writeTargetId");
    let e = remap_rule_refs(1, Some(9), &vec![9], &targets, &tags).unwrap_err();
    assert_eq!(single(&e).0, "writeRules.writeSourceTagId");
    let e = remap_rule_refs(1, None, &vec![5, 8, 9], &targets, &tags).unwrap_err();
    assert_eq!(
        single(&e),
        (
            "writeRules.conditions.sourceTagId".to_string(),
            "プロジェクトファイル内で参照先が見つかりません（id=8）".to_string()
        )
    );
}

#[test]
fn installation_ids_are_version_4_uuids() {
    let bytes: Vec<u8> = (0u8..16).map(|i| 0xf0 | i).collect();
    let id = installation_id_from_bytes(&bytes);
    assert_eq!(id, "f0f1f2f3-f4f5-46f7-b8f9-fafbfcfdfeff");
    let zeros = installation_id_from_bytes(&vec![0u8; 16]);
    assert_eq!(zeros, "00000000-0000-4000-8000-000000000000");
}

#[test]
fn generated_ids_differ() {
    let a = generate_installation_id().expect("random source");
    let b = generate_installation_id().expect("random source");
    assert_eq!(a.len(), 36);
    assert_eq!(a.as_bytes()[14], b'4');
    assert_ne!(a, b);
}

#[test]
fn the_unavailable_key_store_refuses_to_write_but_reads_as_empty() {
    let store = UnavailableKeyStore;
    assert_eq!(store.get("hub:x:1:y"), None);
    let e = store.set("hub:x:1:y", "secret").unwrap_err();
    assert_eq!(
        e.detail,
        "この実行形態では OS キーリングを利用できません（デスクトップアプリから設定してください）"
    );
    assert!(store.delete("hub:x:1:y").is_ok());
    assert_eq!(app_id_text(), "relay-wright");
}

#[test]
fn the_mirror_hands_each_change_out_once() {
    let mut m: SettingsMirror<String> = SettingsMirror::new();
    assert_eq!(m.take_dirty(), None);
    m.save(&"rec".to_string());
    assert_eq!(m.current(), Some("rec".to_string()));
    assert_eq!(m.take_dirty(), Some(Some("rec".to_string())));
    assert_eq!(m.take_dirty(), None);
    m.clear();
    assert_eq!(m.load(), None);
    assert_eq!(m.take_dirty(), Some(None));
    m.save(&"x".to_string());
    m.reset(Some("from settings".to_string()));
    assert_eq!(m.take_dirty(), None, "a reset leaves nothing to write back");
    assert_eq!(m.current(), Some("from settings".to_string()));
}

#[test]
fn hub_failures_have_their_messages() {
    assert_eq!(
        single(&hub_error(HubErrorKind::InvalidEndpoint, "", "")),
        ("endpoint".to_string(), "接続先は http://ホスト:ポート の形式で入力してください".to_string())
    );
    assert_eq!(
        single(&hub_error(HubErrorKind::InvalidKey, "", "")),
        ("key".to_string(), "APIキーの形式が正しくありません".to_string())
    );
    assert_eq!(other(&hub_error(HubErrorKind::KeyStore, "", "")), "OSキーリングを利用できません");
    assert_eq!(other(&hub_error(HubErrorKind::KeyStore, "locked", "")), "locked");
    assert_eq!(
        other(&hub_error(HubErrorKind::ForbiddenScope, "tags:write", "")),
        "このスコープの自動発行は許可されていません: tags:write"
    );
    assert_eq!(
        other(&hub_error(HubErrorKind::NotConfigured, "", "")),
        "Hubへの接続がまだ設定されていません"
    );
    assert_eq!(other(&hub_error(HubErrorKind::Other, "", "boom")), "Hubへの接続に失敗しました: boom");
    match hub_error(HubErrorKind::State, "disk full", "") {
        ServiceError::Storage(m) => assert_eq!(m, "Hub接続設定の保存に失敗しました: disk full"),
        _ => panic!(),
    }
}

#[test]
fn payload_defaults_and_bearer_tokens() {
    assert!(default_payload_enabled());
    assert_eq!(default_plc_protocol(), "modbus-tcp");
    assert_eq!(default_plc_unit_id(), 1);
    assert_eq!(default_tag_decimals(), 0);
    assert_eq!(bearer_token(Some("Bearer abc.def")), Some("abc.def"));
    assert_eq!(bearer_token(Some("Bearer ")), Some(""));
    assert_eq!(bearer_token(Some("bearer abc")), None);
    assert_eq!(bearer_token(Some("Basic abc")), None);
    assert_eq!(bearer_token(None), None);
}

#[test]
fn audit_columns_and_default_order() {
    assert_eq!(audit_column("writeRuleId"), Some("write_rule_id"));
    assert_eq!(audit_column("ts"), Some("ts"));
    assert_eq!(audit_column("password"), None);
    let d = default_sort(vec![]);
    assert_eq!(d.len(), 1);
    assert_eq!(d[0].field, "ts");
    assert!(d[0].descending);
    let kept = default_sort(vec![SortKey { field: "id".to_string(), descending: false }]);
    assert_eq!(kept[0].field, "id");
    assert!(!kept[0].descending);
}

#[test]
fn text_helpers() {
    assert_eq!(trim("\u{3000} a b \t"), "a b");
    assert_eq!(i64_to_string(i64::MIN), "-9223372036854775808");
    assert_eq!(i64_to_string(0), "0");
}

#[test]
fn the_role_check_fails_closed() {
    let ok = access_decision(true, Some(true));
    assert!(ok.allow && !ok.record_denial);
    let low = access_decision(true, Some(false));
    assert!(!low.allow && low.record_denial);
    let unreadable = access_decision(true, None);
    assert!(!unreadable.allow && unreadable.record_denial);
    let anonymous = access_decision(false, None);
    assert!(!anonymous.allow && !anonymous.record_denial);
    let no_identity = access_decision(false, Some(true));
    assert!(!no_identity.allow && !no_identity.record_denial);
}

#[test]
fn manual_write_input_errors_and_rounding() {
    assert_eq!(
        single(&value_error("有限の数値を入力してください".to_string())),
        ("value".to_string(), "有限の数値を入力してください".to_string())
    );
    assert!(rounds_unscaled_value(true, "u16"));
    assert!(rounds_unscaled_value(true, "i32"));
    assert!(!rounds_unscaled_value(true, "f32"));
    assert!(!rounds_unscaled_value(false, "u16"));
}

#[test]
fn the_hub_view_tells_no_catalog_from_an_empty_one() {
    let rec = HubRecordView {
        endpoint: "http://hub:8080".to_string(),
        key_name: Some("relay-wright:1".to_string()),
        selected_tags: vec!["line1.temp".to_string()],
    };
    let v = hub_view("connected", Some(&rec), Some(vec![]));
    assert_eq!(v.status, "connected");
    assert_eq!(v.endpoint.as_deref(), Some("http://hub:8080"));
    assert_eq!(v.key_name.as_deref(), Some("relay-wright:1"));
    assert_eq!(v.selected_tags, vec!["line1.temp".to_string()]);
    assert!(matches!(v.tags, Some(ref t) if t.is_empty()));

    let tag = HubTagView {
        external_name: "line1.temp".to_string(),
        name: "temp".to_string(),
        data_type: "f32".to_string(),
        unit: None,
        tag_kind: "plc".to_string(),
    };
    let none = hub_view("not_configured", None, None);
    assert!(none.endpoint.is_none() && none.key_name.is_none() && none.selected_tags.is_empty());
    assert!(none.tags.is_none());
    let with_tags = hub_view("connected", None, Some(vec![tag]));
    assert_eq!(with_tags.tags.unwrap()[0].name, "temp");
}
