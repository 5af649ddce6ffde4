//! The statements that are sent to the store.

use cmx_mdm::activation::{ActivationConfig, HeaderGroup, KeyField, LineMapping};
use cmx_mdm::json::{same_json, Json, Number, Object};
use cmx_mdm::sql::{
    build_insert_sql, build_update_line_sql, build_update_sql, to_dv, validate_ident, SqlType,
    SqlValue, Statement,
};
use cmx_mdm::store::activation_store::{
    delete_by_code, find_by_doc_type, line_tables_for_dict, list, read_activation_row,
    read_line_tables, upsert,
};
use cmx_mdm::store::cr_service::{
    abort_cr, check_status, check_status_in, doc_status, get_cr_detail, list_cr, load_cr_head,
    load_cr_lines, read_cr_head, read_cr_lines, read_cr_list,
};
use cmx_mdm::store::dct_accessor::{
    complete_row, find_ids_by_name_like, get_version, insert_header, load_table_columns,
    lock_record, reparent_lines, reparent_lines_by_ids, select_bigint_col, select_line_ids,
    select_line_keys, select_row_json, set_lifecycle, set_lifecycle_by_ids, update_header,
    update_line,
};
use cmx_mdm::store::loader::{load_by_ids, load_published, load_suspects, row_record};
use cmx_mdm::store::match_config_store::{
    delete_match_config, get_match_config, list_match_config, read_config_row, resolve_id,
    resolved_id, upsert_match_config,
};
use cmx_mdm::store::match_group::{
    count_merge_by_status, get_match_group, insert_match_group, list_match_groups,
    transition_match_group, update_match_group, NewMatchGroup,
};
use cmx_mdm::store::md_accessor::{
    activate_xref, claim_cr, cr_updated_before, deactivate_xref, set_cr_status, try_set_cr_status,
    write_audit, write_event, AuditEntry,
};
use cmx_mdm::store::query::total_of;

/// The library's value for a JSON text.
fn json(text: &str) -> Json {
    let v: serde_json::Value = serde_json::from_str(text).unwrap();
    of_serde(&v)
}

fn of_serde(v: &serde_json::Value) -> Json {
    match v {
        serde_json::Value::Null => Json::Null,
        serde_json::Value::Bool(b) => Json::Bool(*b),
        serde_json::Value::Number(n) => match (n.as_u64(), n.as_i64()) {
            (Some(u), _) => Json::Num(Number::PosInt(u)),
            (_, Some(i)) => Json::Num(Number::NegInt(i)),
            _ => Json::Num(Number::Float(n.to_string())),
        },
        serde_json::Value::String(s) => Json::Str(s.clone()),
        serde_json::Value::Array(a) => Json::Arr(a.iter().map(of_serde).collect()),
        serde_json::Value::Object(o) => {
            let mut r = Object::new();
            for (k, x) in o {
                r.insert(k.clone(), of_serde(x));
            }
            Json::Obj(r)
        }
    }
}

fn object(text: &str) -> Object {
    match json(text) {
        Json::Obj(o) => o,
        other => panic!("not an object: {other:?}"),
    }
}

/// A parameter as a short text: the value, with its type where that is not plain.
fn shown(v: &SqlValue) -> String {
    match v {
        SqlValue::Null => "null".to_string(),
        SqlValue::NullTyped(SqlType::Int) => "null:int".to_string(),
        SqlValue::NullTyped(SqlType::Text) => "null:text".to_string(),
        SqlValue::NullTyped(SqlType::Json) => "null:json".to_string(),
        SqlValue::Bool(b) => b.to_string(),
        SqlValue::Int(i) => i.to_string(),
        SqlValue::Float(n) => format!("float:{n:?}"),
        SqlValue::Text(s) => format!("'{s}'"),
        SqlValue::Json(s) => format!("json:{s}"),
    }
}

fn params(s: &Statement) -> Vec<String> {
    s.params.iter().map(shown).collect()
}

fn check(s: &Statement, sql: &str, expected: &[&str]) {
    assert_eq!(s.sql, sql);
    assert_eq!(params(s), expected.iter().map(|x| x.to_string()).collect::<Vec<String>>());
}

#[test]
fn values_become_parameters() {
    let v = |t: &str| shown(&to_dv(&json(t)));
    for digits in ["31.245270191439438", "121.48791951161945", "0.30000000000000004", "-0.0"] {
        let double = Json::Num(Number::Float(digits.to_string()));
        assert_eq!(shown(&to_dv(&Json::Arr(vec![double]))), format!("json:[{digits}]"));
    }
    assert_eq!(v("null"), "null");
    assert_eq!(v("true"), "true");
    assert_eq!(v("-7"), "-7");
    assert_eq!(v("\"x\""), "'x'");
    assert_eq!(v("[1, {\"b\": 2, \"a\": 1}]"), "json:[1,{\"a\":1,\"b\":2}]");
    assert!(v("1.5").starts_with("float:"));
    assert!(v("18446744073709551615").starts_with("float:"));
}

#[test]
fn rows_become_statements() {
    let row = object(r#"{"code": "C", "create_time": null, "n": 5}"#);
    check(
        &build_insert_sql("cm_x", &row, 9),
        "INSERT INTO cm_x (id, code, create_time, n) VALUES ($1, $2, now(), $3)",
        &["9", "'C'", "5"],
    );
    check(
        &build_update_sql("cm_x", 9, &object(r#"{"code": "C", "n": 5}"#), 3),
        "UPDATE cm_x SET code = $1, n = $2 WHERE id = $3 AND published_version = $4 \
         AND lifecycle_status = 'published'",
        &["'C'", "5", "9", "3"],
    );
    check(
        &build_update_line_sql("cm_l", 9, &row),
        "UPDATE cm_l SET code = $1, n = $2, update_time = now(), \
         published_version = published_version + 1 WHERE id = $3 AND lifecycle_status = 'published'",
        &["'C'", "5", "9"],
    );
}

#[test]
fn names_are_checked() {
    assert!(validate_ident("cm_supplier2").is_ok());
    assert_eq!(validate_ident("").unwrap_err(), "非法标识符: ");
    assert_eq!(validate_ident("a;b").unwrap_err(), "非法标识符: a;b");
    assert_eq!(validate_ident("表").unwrap_err(), "非法标识符: 表");
    assert!(get_version("a b", 1).is_err());
    assert!(select_bigint_col("t", "c-d", 1).is_err());
    assert!(reparent_lines("t", "", 1, 2).is_err());
    assert!(load_published("t", &["id", "x y"]).is_err());
}

#[test]
fn a_new_record_gets_the_columns_that_its_table_has() {
    let cols: Vec<String> = ["code", "name", "status", "create_by", "create_time"]
        .iter()
        .map(|s| s.to_string())
        .collect();
    let row = object(r#"{"code": "C9"}"#);
    let full = complete_row(&cols, &row, 42, 7);
    assert!(same_json(
        &Json::Obj(full),
        &json(r#"{"code": "C9", "create_by": 7, "create_time": null, "name": "MDM-42", "status": 1}"#)
    ));
    check(
        &insert_header("cm_x", &row, &cols, 42, 7).unwrap(),
        "INSERT INTO cm_x (id, code, create_by, create_time, name, status) \
         VALUES ($1, $2, $3, now(), $4, $5)",
        &["42", "'C9'", "7", "'MDM-42'", "1"],
    );
    assert!(insert_header("cm x", &row, &cols, 42, 7).is_err());
}

#[test]
fn record_statements() {
    check(
        &load_table_columns("cm_x"),
        "SELECT column_name FROM information_schema.columns WHERE table_name = $1",
        &["'cm_x'"],
    );
    let named = vec!["name".to_string()];
    check(
        &find_ids_by_name_like("cm_x", &named, "华").unwrap().unwrap(),
        "SELECT id FROM cm_x WHERE name ILIKE $1",
        &["'%华%'"],
    );
    assert!(find_ids_by_name_like("cm_x", &vec![], "华").unwrap().is_none());
    assert_eq!(
        update_header("cm_x", 1, &object(r#"{"a": 1}"#), 2).unwrap().sql,
        build_update_sql("cm_x", 1, &object(r#"{"a": 1}"#), 2).sql
    );
    assert!(update_line("cm_x", 1, &object(r#"{"a": 1}"#)).is_ok());
    check(&get_version("t", 4).unwrap(), "SELECT published_version FROM t WHERE id = $1", &["4"]);
    check(&select_bigint_col("t", "p", 4).unwrap(), "SELECT p FROM t WHERE id = $1", &["4"]);
    check(&lock_record("t", 4).unwrap(), "SELECT id FROM t WHERE id = $1 FOR UPDATE", &["4"]);
    check(&select_row_json("t", 4), "SELECT * FROM t WHERE id = $1", &["4"]);
    check(
        &set_lifecycle("t", 4, "published", "merged").unwrap(),
        "UPDATE t SET lifecycle_status = $1, published_version = published_version + 1, \
         update_time = now() WHERE id = $2 AND lifecycle_status = $3",
        &["'merged'", "4", "'published'"],
    );
    check(
        &set_lifecycle_by_ids("t", &[4, 5], "merged", "published").unwrap().unwrap(),
        "UPDATE t SET lifecycle_status = $1, published_version = published_version + 1, \
         update_time = now() WHERE lifecycle_status = $2 AND id IN ($3, $4)",
        &["'published'", "'merged'", "4", "5"],
    );
    assert!(set_lifecycle_by_ids("t;", &[], "a", "b").unwrap().is_none());
}

#[test]
fn line_statements() {
    check(
        &reparent_lines("l", "p", 1, 2).unwrap(),
        "UPDATE l SET p = $1, update_time = now() WHERE p = $2",
        &["2", "1"],
    );
    check(
        &select_line_ids("l", "p", 1).unwrap(),
        "SELECT id FROM l WHERE p = $1 ORDER BY id",
        &["1"],
    );
    check(
        &reparent_lines_by_ids("l", "p", &[8, 9], 2).unwrap().unwrap(),
        "UPDATE l SET p = $1, update_time = now() WHERE id IN ($2, $3)",
        &["2", "8", "9"],
    );
    assert!(reparent_lines_by_ids("l", "p", &[], 2).unwrap().is_none());
    check(
        &select_line_keys("l", "p", 1, &["a", "b"]).unwrap(),
        "SELECT id, a, b FROM l WHERE p = $1 AND lifecycle_status = 'published' ORDER BY id",
        &["1"],
    );
}

#[test]
fn loading_records() {
    check(
        &load_published("t", &["id", "name"]).unwrap(),
        "SELECT id, name FROM t WHERE lifecycle_status = 'published'",
        &[],
    );
    check(
        &load_by_ids("t", &["id"], &[3, 4]).unwrap().unwrap(),
        "SELECT id FROM t WHERE id IN ($1, $2)",
        &["3", "4"],
    );
    assert!(load_by_ids("t", &["id"], &[]).unwrap().is_none());
    check(
        &load_suspects("t", &["id", "a"], &["a", "b"]).unwrap().unwrap(),
        "WITH s_a AS (SELECT a AS k FROM t WHERE lifecycle_status='published' AND a IS NOT NULL \
         AND a <> '' GROUP BY a HAVING COUNT(*) > 1), s_b AS (SELECT b AS k FROM t WHERE \
         lifecycle_status='published' AND b IS NOT NULL AND b <> '' GROUP BY b HAVING COUNT(*) > 1) \
         SELECT DISTINCT id, a FROM t t WHERE lifecycle_status='published' AND (t.a IN (SELECT k \
         FROM s_a) OR t.b IN (SELECT k FROM s_b)) LIMIT 50000",
        &[],
    );
    assert!(load_suspects("t", &["id"], &[]).unwrap().is_none());
    let r = row_record(&json(r#"{"id": 5, "name": "x"}"#));
    assert_eq!((r.id, r.fields.len()), (5, 2));
    assert_eq!(row_record(&json("3")).id, 0);
}

#[test]
fn governance_tables() {
    let old = json(r#"{"a": 1}"#);
    let entry = AuditEntry {
        id: 1,
        dict_code: "supplier",
        record_id: 2,
        version: 3,
        action: "merge",
        source_cr_id: None,
        field: None,
        old_value: Some(&old),
        new_value: None,
        operated_by: 9,
    };
    let s = write_audit(&entry);
    assert!(s.sql.starts_with("INSERT INTO md_audit (id, dict_code, record_id, version, action, source_cr_id,"));
    assert_eq!(
        params(&s),
        vec!["1", "'supplier'", "2", "3", "'merge'", "null:int", "null", "json:{\"a\":1}", "null:json", "9"]
    );
    let s = write_event("e1", "supplier", 2, "merged", &old);
    assert!(s.sql.ends_with("VALUES ($1,$2,$3,$4,$5,now())"));
    assert_eq!(params(&s), vec!["'e1'", "'supplier'", "2", "'merged'", "json:{\"a\":1}"]);
    check(
        &set_cr_status(5, "aborted"),
        "UPDATE cv_mdm_apply SET doc_status = $1 WHERE id = $2",
        &["'aborted'", "5"],
    );
    let claimed = "UPDATE cv_mdm_apply SET doc_status = $3, update_time = now() \
                   WHERE id = $4 AND doc_status IN ($1,$2)";
    check(
        &try_set_cr_status(5, &["draft", "rejected"], "approving").unwrap(),
        claimed,
        &["'draft'", "'rejected'", "'approving'", "5"],
    );
    assert_eq!(claim_cr(5, &["draft", "rejected"], "approving").sql, claimed);
    assert!(try_set_cr_status(5, &[], "approving").is_err());
    check(
        &cr_updated_before(5, 30),
        "SELECT COUNT(*) AS c FROM cv_mdm_apply WHERE id = $1 AND update_time < now() - \
         ($2::int8 * interval '1 second')",
        &["5", "30"],
    );
    let xref = "UPDATE md_xref SET xref_status = $1 WHERE dict_code = $2 AND record_id = $3";
    check(&deactivate_xref("d", 7), xref, &["'inactive'", "'d'", "7"]);
    check(&activate_xref("d", 7), xref, &["'active'", "'d'", "7"]);
}

#[test]
fn merge_requests() {
    let ids = json("[1, 2]");
    let g = NewMatchGroup {
        id: 5,
        dict_code: "d",
        group_key: "k",
        member_ids: &ids,
        master_id: Some(1),
        score: 100,
        decision: "AutoMerge",
        status: "pending",
    };
    let s = insert_match_group(&g);
    assert_eq!(params(&s), vec!["5", "'d'", "'k'", "json:[1,2]", "1", "100", "'AutoMerge'", "'pending'"]);
    check(
        &update_match_group(5, "merged", None, None),
        "UPDATE md_merge_record SET status = $1, survivorship_log = $2, master_id = $3 WHERE id = $4",
        &["'merged'", "null:json", "null:int", "5"],
    );
    check(
        &transition_match_group(5, "pending", "rejected"),
        "UPDATE md_merge_record SET status = $1 WHERE id = $2 AND status = $3",
        &["'rejected'", "5", "'pending'"],
    );
    assert_eq!(params(&get_match_group(5)), vec!["5"]);
    check(
        &count_merge_by_status(Some("d")),
        "SELECT status, COUNT(*)::bigint AS c FROM md_merge_record WHERE dict_code = $1 GROUP BY status",
        &["'d'"],
    );
    check(
        &count_merge_by_status(None),
        "SELECT status, COUNT(*)::bigint AS c FROM md_merge_record GROUP BY status",
        &[],
    );
    let q = list_match_groups(Some("d"), None, &["pending"], &[7], 3, 10);
    check(
        &q.count,
        "SELECT COUNT(*) AS c FROM md_merge_record WHERE 1=1 AND dict_code = $1 AND status NOT IN ($2) \
         AND (master_id IN ($3) OR EXISTS (SELECT 1 FROM jsonb_array_elements_text(member_ids) AS mid \
         WHERE mid::bigint IN ($4)))",
        &["'d'", "'pending'", "7", "7"],
    );
    assert!(q.list.sql.ends_with("ORDER BY created_at DESC, id DESC LIMIT $5 OFFSET $6"));
    assert_eq!(params(&q.list)[4..], ["10".to_string(), "20".to_string()]);
    let first = list_match_groups(None, None, &[], &[], 0, -1);
    assert_eq!(params(&first.list), vec!["20", "0"]);
    assert_eq!(total_of(&vec![json(r#"{"c": 12}"#)]), 12);
    assert_eq!(total_of(&vec![]), 0);
}

#[test]
fn change_requests() {
    check(&load_cr_head(3), "SELECT * FROM cv_mdm_apply WHERE id = $1", &["3"]);
    check(
        &load_cr_lines(3),
        "SELECT * FROM cv_mdm_apply_line WHERE upper_id = $1 ORDER BY line_no",
        &["3"],
    );
    assert_eq!(read_cr_head(&vec![], 3).unwrap_err(), "CR 3 不存在");
    assert_eq!(read_cr_head(&vec![json("7")], 3).unwrap_err(), "CR 3 头非对象");
    let head = read_cr_head(
        &vec![json(r#"{"doc_status": "draft", "payload": "{\"a\": 1}"}"#)],
        3,
    )
    .unwrap();
    assert!(same_json(head.get("payload").unwrap(), &json(r#"{"a": 1}"#)));
    assert_eq!(doc_status(&head), "draft");
    assert!(check_status(3, &head, "draft").is_ok());
    assert_eq!(check_status(3, &head, "approving").unwrap_err(), "CR 3 状态「draft」不符(须 approving)");
    assert!(check_status_in(3, &head, &["rejected", "draft"]).is_ok());
    assert_eq!(
        check_status_in(3, &head, &["a", "b"]).unwrap_err(),
        "CR 3 状态「draft」不符(须 a 或 b)"
    );
    check(
        &abort_cr(3, &head).unwrap(),
        "UPDATE cv_mdm_apply SET doc_status = $1 WHERE id = $2",
        &["'aborted'", "3"],
    );
    assert!(abort_cr(3, &Object::new()).is_err());
    let lines = read_cr_lines(&vec![json(r#"{"line_payload": "[1]", "line_deltas": null}"#)]);
    assert!(same_json(&lines[0], &json(r#"{"line_payload": [1], "line_deltas": null}"#)));
    let listed = read_cr_list(&vec![json(r#"{"payload": "{}", "field_deltas": "x"}"#)]);
    assert!(same_json(&listed[0], &json(r#"{"payload": {}, "field_deltas": "x"}"#)));
    let detail = get_cr_detail(head, lines);
    assert!(detail.get("head").is_some() && detail.get("lines").is_some());
    let q = list_cr(Some("draft"), None, Some(" 华东 "), 2, 5);
    check(
        &q.count,
        "SELECT COUNT(*) AS c FROM cv_mdm_apply WHERE delete_flag = 0 AND doc_status = $1 \
         AND (doc_no ILIKE $2 OR subject_name ILIKE $2)",
        &["'draft'", "'%华东%'"],
    );
    check(
        &q.list,
        "SELECT * FROM cv_mdm_apply WHERE delete_flag = 0 AND doc_status = $1 \
         AND (doc_no ILIKE $2 OR subject_name ILIKE $2) ORDER BY create_time DESC LIMIT $3 OFFSET $4",
        &["'draft'", "'%华东%'", "5", "5"],
    );
    assert_eq!(list_cr(None, None, Some("  "), 1, 5).count.params.len(), 0);
}

#[test]
fn match_rules() {
    let good = json(
        r#"{"ruleName": "r", "dict_code": "d", "targetTable": "t", "specs": [1],
            "clusterKeys": ["a"], "thresholds": null}"#,
    );
    let w = upsert_match_config(&good, 77).unwrap();
    assert_eq!(w.id, 77);
    assert_eq!(
        params(&w.insert),
        vec!["77", "'r'", "'d'", "'t'", "json:[1]", "json:[\"a\"]", "json:[]", "null:json"]
    );
    check(
        &w.resolve.unwrap(),
        "SELECT id FROM md_match_config WHERE dict_code = $1 AND rule_name = $2",
        &["'d'", "'r'"],
    );
    let kept = upsert_match_config(
        &json(r#"{"id": 5, "rule_name": "r", "dict_code": "d", "target_table": "t", "thresholds": {"x": 1}}"#),
        77,
    )
    .unwrap();
    assert_eq!(kept.id, 5);
    assert!(kept.resolve.is_none());
    assert_eq!(params(&kept.insert)[7], "json:{\"x\":1}");
    let e = |t: &str| upsert_match_config(&json(t), 1).unwrap_err();
    assert_eq!(e("{}"), "rule_name 必填");
    assert_eq!(e(r#"{"rule_name": "r"}"#), "dict_code 必填");
    assert_eq!(e(r#"{"rule_name": "r", "dictCode": "d"}"#), "target_table 必填");
    assert_eq!(resolved_id(&vec![json(r#"{"id": 8}"#)]), Ok(8));
    assert_eq!(resolved_id(&vec![]), Err("保存后反查规则 id 为空".to_string()));
    assert_eq!(params(&resolve_id("d", "r")), vec!["'d'", "'r'"]);
    let mut row = json(r#"{"specs": "[]", "thresholds": "{}"}"#);
    read_config_row(&mut row);
    assert!(same_json(&row, &json(r#"{"specs": [], "thresholds": {}}"#)));
    assert_eq!(params(&list_match_config(Some("d"))), vec!["'d'"]);
    assert!(list_match_config(None).sql.contains("WHERE is_active = TRUE ORDER BY rule_name"));
    assert_eq!(params(&get_match_config(4)), vec!["4"]);
    check(
        &delete_match_config(4),
        "UPDATE md_match_config SET is_active = FALSE WHERE id = $1",
        &["4"],
    );
}

#[test]
fn activation_mappings() {
    assert_eq!(params(&find_by_doc_type("s", "create")), vec!["'s'", "'create'"]);
    let s = list(Some("s"), None, Some("d"));
    assert!(s.sql.contains("WHERE is_active = TRUE AND source_doc_type = $1 AND target_dict = $2 ORDER BY activation_code"));
    assert_eq!(params(&s), vec!["'s'", "'d'"]);
    check(&delete_by_code("c"), "DELETE FROM mdm_activation WHERE activation_code = $1", &["'c'"]);
    assert_eq!(params(&line_tables_for_dict("d")), vec!["'d'"]);
    let tables = read_line_tables(&vec![
        json(r#"{"line_mappings": "[{\"targetTable\": \"t\", \"parentIdField\": \"p\", \"targetDict\": \"x\"}]"}"#),
        json(r#"{"line_mappings": [{"targetTable": "t", "parentIdField": "p", "targetDict": "y"},
                                   {"targetTable": "", "parentIdField": "p"},
                                   {"targetTable": "t", "parentIdField": "q"}]}"#),
        json(r#"{"line_mappings": null}"#),
    ]);
    let shown: Vec<(&str, &str, &str)> = tables
        .iter()
        .map(|t| (t.table.as_str(), t.parent_field.as_str(), t.dict_code.as_str()))
        .collect();
    assert_eq!(shown, vec![("t", "p", "x"), ("t", "q", "")]);
    let mut row = json(r#"{"header_mapping": "{\"a\": \"b\"}", "key_fields": "[]"}"#);
    read_activation_row(&mut row);
    assert!(same_json(&row, &json(r#"{"header_mapping": {"a": "b"}, "key_fields": []}"#)));
    let cfg = ActivationConfig {
        activation_code: "a".to_string(),
        source_doc_type: "s".to_string(),
        cr_type: "create".to_string(),
        target_dict: "d".to_string(),
        target_table: "t".to_string(),
        header_mapping: object(r#"{"a": "b"}"#),
        line_mappings: vec![LineMapping {
            line_type: "l".to_string(),
            target_dict: "d2".to_string(),
            target_table: "t2".to_string(),
            parent_field: "p".to_string(),
            fields: object(r#"{"x": "y"}"#),
            field_order: vec!["x".to_string()],
        }],
        code_rule_code: None,
        subject_name_field: Some("name".to_string()),
        subject_code_field: None,
        header_groups: vec![HeaderGroup {
            group_code: "g".to_string(),
            group_name: "G".to_string(),
            fields: vec!["a".to_string()],
        }],
        doc_code_rules: object(r#"{"code": "R1"}"#),
        key_fields: vec![KeyField {
            field: "name".to_string(),
            weight: 100,
            kind: "Exact".to_string(),
            dedup: true,
        }],
    };
    assert_eq!(
        params(&upsert("id1", &cfg)),
        vec![
            "'id1'",
            "'a'",
            "'s'",
            "'create'",
            "'d'",
            "'t'",
            r#"json:{"a":"b"}"#,
            r#"json:[{"fieldOrder":["x"],"fields":{"x":"y"},"lineType":"l","parentIdField":"p","targetDict":"d2","targetTable":"t2"}]"#,
            "null",
            "'name'",
            "null",
            r#"json:[{"fields":["a"],"groupCode":"g","groupName":"G"}]"#,
            r#"json:{"code":"R1"}"#,
            r#"json:[{"dedup":true,"field":"name","kind":"Exact","weight":100}]"#
        ]
    );
}
