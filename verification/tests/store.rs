//! Statements for the store, and what is read back from it.

use cmx_mdm::handlers::flow_cb::{classify_callback_event, EventAction};
use cmx_mdm::json::{same_json, Json, Number, Object};
use cmx_mdm::store::dispatch_store::truncate;
use cmx_mdm::store::jsonb::{parse_jsonb_field, parse_jsonb_fields};
use cmx_mdm::store::scan_store::{cluster_bytes, cluster_hash, hex_encode, sort_ids};

/// The library's value for a JSON text.
fn json(text: &str) -> Json {
    let v: serde_json::Value = serde_json::from_str(text).unwrap();
    of_serde(&v)
}

fn of_serde(v: &serde_json::Value) -> Json {
    match v {
        serde_json::Value::Null => Json::Null,
        serde_json::Value::Bool(b) => Json::Bool(*b),
        serde_json::Value::Number(n) => match (n.as_u64(), n.as_i64()) {
            (Some(u), _) => Json::Num(Number::PosInt(u)),
            (_, Some(i)) => Json::Num(Number::NegInt(i)),
            _ => Json::Num(Number::Float(n.to_string())),
        },
        serde_json::Value::String(s) => Json::Str(s.clone()),
        serde_json::Value::Array(a) => Json::Arr(a.iter().map(of_serde).collect()),
        serde_json::Value::Object(o) => {
            let mut r = Object::new();
            for (k, x) in o {
                r.insert(k.clone(), of_serde(x));
            }
            Json::Obj(r)
        }
    }
}

#[test]
fn truncate_respects_char_boundary() {
    assert_eq!(truncate("abcdef", 3), "abc");
    assert_eq!(truncate("中国", 4), "中");
    assert_eq!(truncate("短", 10), "短");
}

#[test]
fn cluster_hash_deterministic_unordered() {
    let a = cluster_hash(&[3, 1, 2]);
    let b = cluster_hash(&[1, 2, 3]);
    let c = cluster_hash(&[3, 2, 1]);
    assert_eq!(a, b);
    assert_eq!(a, c);
}

#[test]
fn cluster_hash_differs_for_different_members() {
    let a = cluster_hash(&[1, 2, 3]);
    let b = cluster_hash(&[1, 2, 4]);
    assert_ne!(a, b);
}

#[test]
fn cluster_hash_length_32() {
    let h = cluster_hash(&[1, 2]);
    assert_eq!(h.len(), 32, "hash 应为 32 hex 字符，实际 {}", h.len());
}

#[test]
fn classify_covers_all_rules() {
    let cfg = "mdm_cr_approval";
    assert_eq!(
        classify_callback_event("instance.completed", "COMPLETED", cfg, cfg),
        EventAction::SyncCompleted
    );
    assert_eq!(
        classify_callback_event("instance.terminated", "TERMINATED", cfg, cfg),
        EventAction::SyncTerminated
    );
    assert_eq!(
        classify_callback_event("instance.terminated", "COMPLETED", cfg, cfg),
        EventAction::Ignore
    );
    assert_eq!(
        classify_callback_event("instance.completed", "COMPLETED", "pay_review", cfg),
        EventAction::Ignore
    );
    assert_eq!(
        classify_callback_event("task.created", "", cfg, cfg),
        EventAction::Ignore
    );
    assert_eq!(
        classify_callback_event("instance.completed", "COMPLETED", "", cfg),
        EventAction::SyncCompleted
    );
}

#[test]
fn a_cluster_mark_is_a_digest_of_the_sorted_ids() {
    assert_eq!(sort_ids(&[3, -1, 2]), vec![-1, 2, 3]);
    assert_eq!(cluster_bytes(&[258])[..], [2, 1, 0, 0, 0, 0, 0, 0]);
    assert_eq!(hex_encode(&[0, 10, 255]), "000aff");
    assert_eq!(cluster_hash(&[2, 1]), "0c730b69905c5ef7a4ca5269f7236540");
    assert_eq!(cluster_hash(&[258, -1]), "df765f38c3751f9931497f9b2367afc6");
}

#[test]
fn json_columns_are_read_back() {
    let mut row = json(r#"{"a": "{\"x\": [1, -2, 1.5, null, true]}", "b": "no json", "c": 3}"#);
    parse_jsonb_fields(&mut row, &["a", "b", "c", "d"]);
    assert!(same_json(&row, &json(r#"{"a": {"x": [1, -2, 1.5, null, true]}, "b": "no json", "c": 3}"#)));
    let mut scalar = json("7");
    parse_jsonb_field(&mut scalar, "a");
    assert!(same_json(&scalar, &json("7")));
}
