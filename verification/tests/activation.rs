//! Activation plans, codes and life-cycle words.

use cmx_mdm::activation::{
    default_key_dedup, default_key_kind, default_key_weight, plan_create, plan_lines, plan_update,
    ActivationConfig, LineMapping,
};
use cmx_mdm::codegen::{code_from, format_radix, CodeGenerator, RandomCodeGenerator};
use cmx_mdm::ctx::{current_actor_id, current_user_id};
use cmx_mdm::json::{Json, Number, Object};
use cmx_mdm::lifecycle::{LifecycleStatus, MdmQuery};

/// The library's value for a JSON text.
fn json(text: &str) -> Json {
    let v: serde_json::Value = serde_json::from_str(text).unwrap();
    of_serde(&v)
}

fn of_serde(v: &serde_json::Value) -> Json {
    match v {
        serde_json::Value::Null => Json::Null,
        serde_json::Value::Bool(b) => Json::Bool(*b),
        serde_json::Value::Number(n) => match (n.as_u64(), n.as_i64()) {
            (Some(u), _) => Json::Num(Number::PosInt(u)),
            (_, Some(i)) => Json::Num(Number::NegInt(i)),
            _ => Json::Num(Number::Float(n.to_string())),
        },
        serde_json::Value::String(s) => Json::Str(s.clone()),
        serde_json::Value::Array(a) => Json::Arr(a.iter().map(of_serde).collect()),
        serde_json::Value::Object(o) => {
            let mut r = Object::new();
            for (k, x) in o {
                r.insert(k.clone(), of_serde(x));
            }
            Json::Obj(r)
        }
    }
}

fn object(text: &str) -> Object {
    match json(text) {
        Json::Obj(o) => o,
        other => panic!("not an object: {other:?}"),
    }
}

fn text<'a>(o: &'a Object, k: &str) -> Option<&'a str> {
    o.get(k).and_then(|v| v.as_str()).map(|s| s.as_str())
}

fn sample_cfg() -> ActivationConfig {
    ActivationConfig {
        activation_code: "supplier_apply".to_string(),
        source_doc_type: "mdm_supplier_apply".to_string(),
        cr_type: "create".to_string(),
        target_dict: "supplier".to_string(),
        target_table: "cm_supplier".to_string(),
        header_mapping: object(r#"{ "name": "name", "tax_no": "tax_no" }"#),
        line_mappings: vec![LineMapping {
            line_type: "bank_account".to_string(),
            target_dict: "supplier_bank".to_string(),
            target_table: "cm_bank_account".to_string(),
            parent_field: "supplier_id".to_string(),
            fields: object(r#"{ "account_no": "account_no" }"#),
            field_order: vec![],
        }],
        code_rule_code: None,
        subject_name_field: Some("name".to_string()),
        subject_code_field: None,
        header_groups: vec![],
        doc_code_rules: Object::new(),
        key_fields: vec![],
    }
}

#[test]
fn plan_create_carries_mapped_fields_and_forces_published() {
    let cfg = sample_cfg();
    let cr_head = object(
        r#"{ "subject_name": "B公司",
             "payload": { "name": "B公司", "tax_no": "911", "extra": "忽略" } }"#,
    );
    let plan = plan_create(&cfg, &cr_head, "SUPPLI-abc");
    assert_eq!(text(&plan.header_row, "name"), Some("B公司"));
    assert_eq!(text(&plan.header_row, "tax_no"), Some("911"));
    assert_eq!(text(&plan.header_row, "code"), Some("SUPPLI-abc"));
    assert!(plan.header_row.get("extra").is_none());
    assert_eq!(text(&plan.header_row, "lifecycle_status"), Some("published"));
    assert_eq!(plan.header_row.get("published_version").and_then(|v| v.as_i64()), Some(1));
}

#[test]
fn plan_create_skips_empty_and_null_fields() {
    let mut cfg = sample_cfg();
    cfg.header_mapping = object(
        r#"{ "name": "name", "tax_no": "tax_no", "status": "status", "sort_no": "sort_no" }"#,
    );
    let cr_head = object(
        r#"{ "payload": { "name": "A公司", "tax_no": "911", "status": "", "sort_no": null } }"#,
    );
    let plan = plan_create(&cfg, &cr_head, "SUPPLI-x");
    assert_eq!(text(&plan.header_row, "name"), Some("A公司"));
    assert_eq!(text(&plan.header_row, "tax_no"), Some("911"));
    assert!(plan.header_row.get("status").is_none(), "空串 status 应跳过");
    assert!(plan.header_row.get("sort_no").is_none(), "null sort_no 应跳过");
}

#[test]
fn plan_create_maps_subject_name_when_payload_misses_it() {
    let cfg = sample_cfg();
    let cr_head = object(r#"{ "subject_name": "张三供应商", "payload": { "tax_no": "911" } }"#);
    let plan = plan_create(&cfg, &cr_head, "GYS-001");
    assert_eq!(text(&plan.header_row, "name"), Some("张三供应商"));
    assert_eq!(text(&plan.header_row, "tax_no"), Some("911"));
}

#[test]
fn plan_update_skips_empty_str_but_keeps_null() {
    let mut cfg = sample_cfg();
    cfg.header_mapping = object(r#"{ "tax_no": "tax_no", "status": "status" }"#);
    let cr_head = Object::new();
    let deltas = json(
        r#"{ "tax_no": { "old": "911", "new": "" }, "status": { "old": 1, "new": null } }"#,
    );
    let plan = plan_update(&cfg, &cr_head, &deltas, 1);
    assert!(plan.header_row.get("tax_no").is_none(), "空串 new 应跳过不更新");
    assert!(plan.header_row.get("status").map(|v| v.is_null()) == Some(true), "null new 应保留");
}

#[test]
fn plan_update_takes_new_value_from_deltas_and_bumps_version() {
    let mut cfg = sample_cfg();
    cfg.cr_type = "update".to_string();
    let cr_head = Object::new();
    let deltas = json(
        r#"{ "tax_no": { "old": "911", "new": "922" }, "name": { "old": "B", "new": "B公司" } }"#,
    );
    let plan = plan_update(&cfg, &cr_head, &deltas, 3);
    assert_eq!(text(&plan.header_row, "tax_no"), Some("922"));
    assert_eq!(text(&plan.header_row, "name"), Some("B公司"));
    assert_eq!(plan.header_row.get("published_version").and_then(|v| v.as_i64()), Some(4));
    assert!(plan.header_row.get("lifecycle_status").is_none());
}

#[test]
fn plan_update_maps_subject_name_rename() {
    let cfg = sample_cfg();
    let deltas = json(
        r#"{ "subject_name": { "old": "旧名", "new": "新名" },
             "tax_no": { "old": "911", "new": "922" } }"#,
    );
    let plan = plan_update(&cfg, &Object::new(), &deltas, 1);
    assert_eq!(text(&plan.header_row, "name"), Some("新名"));
    assert_eq!(text(&plan.header_row, "tax_no"), Some("922"));
    assert_eq!(plan.header_row.get("published_version").and_then(|v| v.as_i64()), Some(2));
}

#[test]
fn plan_lines_diffs_insert_and_update() {
    let cfg = sample_cfg();
    let cr_lines = vec![
        json(
            r#"{ "line_type": "bank_account", "line_action": "insert",
                 "line_payload": { "account_no": "工行6222" } }"#,
        ),
        json(
            r#"{ "line_type": "bank_account", "line_action": "insert", "line_target_id": 9001,
                 "line_payload": { "account_no": "工行9999" } }"#,
        ),
    ];
    let plan = plan_lines(&cfg, &cr_lines, 8001);
    assert_eq!(plan.inserts.len(), 1);
    let (table, parent_col, row) = &plan.inserts[0];
    assert_eq!(table, "cm_bank_account");
    assert_eq!(parent_col, "supplier_id");
    assert_eq!(text(row, "account_no"), Some("工行6222"));
    assert_eq!(row.get("supplier_id").and_then(|v| v.as_i64()), Some(8001));
    assert_eq!(text(row, "lifecycle_status"), Some("published"));
    assert_eq!(plan.updates.len(), 1);
    let (utable, uid, urow) = &plan.updates[0];
    assert_eq!(utable, "cm_bank_account");
    assert_eq!(*uid, 9001);
    assert_eq!(text(urow, "account_no"), Some("工行9999"));
    assert!(urow.get("supplier_id").is_none(), "update 行不应回填关联列");
    assert!(urow.get("lifecycle_status").is_none(), "update 行不改 lifecycle");
}

#[test]
fn a_line_of_an_unmapped_type_is_left_out() {
    let cfg = sample_cfg();
    let lines = vec![json(r#"{ "line_type": "contact", "line_payload": { "account_no": "1" } }"#)];
    let plan = plan_lines(&cfg, &lines, 1);
    assert!(plan.inserts.is_empty() && plan.updates.is_empty());
}

#[test]
fn a_key_field_has_defaults() {
    assert_eq!(default_key_weight(), 100);
    assert_eq!(default_key_kind(), "EditDistance");
    assert!(default_key_dedup());
}

#[test]
fn generates_non_empty_code_with_prefix_and_separator() {
    let g = RandomCodeGenerator;
    let code = g.generate("supplier", None, 7_300_000_000_001);
    assert!(code.starts_with("SUPPLI-"), "code={code}");
    let rand_part = code.split('-').nth(1).unwrap();
    assert!(!rand_part.is_empty());
}

#[test]
fn generates_unique_codes() {
    let g = RandomCodeGenerator;
    let a = g.generate("supplier", None, 7_300_000_000_001);
    let b = g.generate("supplier", None, 7_300_000_000_002);
    assert_ne!(a, b);
}

#[test]
fn empty_dict_code_falls_back_to_mdm_prefix() {
    let g = RandomCodeGenerator;
    let code = g.generate("", None, 7_300_000_000_001);
    assert!(code.starts_with("MDM-"), "code={code}");
}

#[test]
fn format_radix_basic() {
    assert_eq!(format_radix(0, 36), "0");
    assert_eq!(format_radix(35, 36), "z");
    assert_eq!(format_radix(36, 36), "10");
}

#[test]
fn a_code_is_a_short_prefix_and_the_id() {
    assert_eq!(RandomCodeGenerator.generate("supplier", Some("rule"), 36), "SUPPLI-10");
    assert_eq!(RandomCodeGenerator.generate("mat", None, 35), "MAT-z");
    assert_eq!(code_from("STRASSE", 71), "STRASS-1z");
}

#[test]
fn life_cycle_words() {
    assert_eq!(LifecycleStatus::Published.as_str(), "published");
    assert_eq!(LifecycleStatus::Frozen.as_str(), "frozen");
    assert_eq!(LifecycleStatus::Archived.as_str(), "archived");
    assert_eq!(LifecycleStatus::Merged.as_str(), "merged");
    assert_eq!(LifecycleStatus::default_for_new().as_str(), "published");
    assert!(MdmQuery::default().dict_code.is_none());
}

#[test]
fn the_acting_user() {
    assert_eq!(current_user_id(Some("u1")), Some("u1".to_string()));
    assert_eq!(current_user_id(None), None);
    assert_eq!(current_actor_id(Some("42")), 42);
    assert_eq!(current_actor_id(Some("not a number")), 0);
    assert_eq!(current_actor_id(None), 0);
}

#[test]
fn a_draft_becomes_a_published_row() {
    let cr_head = object(r#"{ "subject_name": "B公司", "payload": { "tax_no": "911", "status": "" } }"#);
    let plan = plan_create(&sample_cfg(), &cr_head, "GYS-001");
    assert_eq!(text(&plan.header_row, "lifecycle_status"), Some("published"));
    assert_eq!(text(&plan.header_row, "code"), Some("GYS-001"));
    assert!(plan.header_row.get("status").is_none());
    assert_eq!(text(&plan.header_row, "name"), Some("B公司"));
}
