//! Merging records and undoing a merge.

use cmx_mdm::json::{same_json, Json, Number, Object};
use cmx_mdm::match_algo::MatchRecord;
use cmx_mdm::merge::{MergeRequest, MergeRun, StepAction, StepEvent};
use cmx_mdm::merge_parts::{
    apply_overrides, check_overrides, ids_value, lifecycle_of, listed_ids, master_update,
    merge_rows, record_version, select_parties, split_lines, LineKey, LineTableInfo,
};
use cmx_mdm::sql::{SqlType, SqlValue, Statement};
use cmx_mdm::survivorship::SurvivorRule;
use cmx_mdm::unmerge::{
    read_record, restore_victim, undo_step, unmerge_statements, victim_restored, UndoAction,
    UndoStage, UnmergeRequest,
};

/// The library's value for a JSON text.
fn json(text: &str) -> Json {
    let v: serde_json::Value = serde_json::from_str(text).unwrap();
    of_serde(&v)
}

fn of_serde(v: &serde_json::Value) -> Json {
    match v {
        serde_json::Value::Null => Json::Null,
        serde_json::Value::Bool(b) => Json::Bool(*b),
        serde_json::Value::Number(n) => match (n.as_u64(), n.as_i64()) {
            (Some(u), _) => Json::Num(Number::PosInt(u)),
            (_, Some(i)) => Json::Num(Number::NegInt(i)),
            _ => Json::Num(Number::Float(n.to_string())),
        },
        serde_json::Value::String(s) => Json::Str(s.clone()),
        serde_json::Value::Array(a) => Json::Arr(a.iter().map(of_serde).collect()),
        serde_json::Value::Object(o) => {
            let mut r = Object::new();
            for (k, x) in o {
                r.insert(k.clone(), of_serde(x));
            }
            Json::Obj(r)
        }
    }
}

fn object(text: &str) -> Object {
    match json(text) {
        Json::Obj(o) => o,
        other => panic!("not an object: {other:?}"),
    }
}

fn record(text: &str) -> MatchRecord {
    let fields = object(text);
    let id = fields.get("id").and_then(|v| v.as_i64()).unwrap_or(0);
    MatchRecord { id, fields }
}

fn names(s: &[&str]) -> Vec<String> {
    s.iter().map(|x| x.to_string()).collect()
}

fn request() -> MergeRequest {
    MergeRequest {
        dict_code: "supplier".to_string(),
        head_table: "cm_supplier".to_string(),
        master_id: 1,
        victim_ids: vec![2],
        survive_fields: names(&["name", "phone"]),
        rules: vec![],
        overrides: object(r#"{"phone": "999"}"#),
        line_tables: vec![
            LineTableInfo {
                table: "cm_contact".to_string(),
                parent_field: "supplier_id".to_string(),
                dedup_keys: vec![],
            },
            LineTableInfo {
                table: "cm_bank".to_string(),
                parent_field: "supplier_id".to_string(),
                dedup_keys: names(&["account_no"]),
            },
        ],
        operated_by: 7,
        match_group_id: 50,
        audit_id: 60,
        event_id: "evt-70".to_string(),
    }
}

fn rows(r: &[&str]) -> StepEvent {
    StepEvent { rows: r.iter().map(|t| json(t)).collect(), affected: 0 }
}

fn changed(n: u64) -> StepEvent {
    StepEvent { rows: vec![], affected: n }
}

fn sql_of(a: &StepAction) -> String {
    match a {
        StepAction::Query(s) | StepAction::Execute(s) => s.sql.clone(),
        other => panic!("no statement: {other:?}"),
    }
}

fn statement(a: StepAction) -> Statement {
    match a {
        StepAction::Query(s) | StepAction::Execute(s) => s,
        other => panic!("no statement: {other:?}"),
    }
}

fn failure(a: StepAction) -> String {
    match a {
        StepAction::Fail(e) => e,
        other => panic!("no failure: {other:?}"),
    }
}

const MASTER: &str = r#"{"id": 1, "lifecycle_status": "published", "published_version": 4,
                         "name": "甲", "phone": ""}"#;
const VICTIM: &str = r#"{"id": 2, "lifecycle_status": "published", "published_version": 1,
                         "name": "乙", "phone": "222"}"#;

fn json_param(s: &Statement, i: usize) -> Json {
    match &s.params[i] {
        SqlValue::Json(t) => json(t),
        other => panic!("no JSON: {other:?}"),
    }
}

#[test]
fn a_merge_runs_statement_by_statement() {
    let mut run = MergeRun::new(request());
    let none = changed(0);
    assert_eq!(sql_of(&run.step(&none)), "SELECT id FROM cm_supplier WHERE id = $1 FOR UPDATE");
    assert_eq!(
        sql_of(&run.step(&rows(&[r#"{"id": 1}"#]))),
        "SELECT id, lifecycle_status, published_version, update_time, name, phone \
         FROM cm_supplier WHERE id IN ($1, $2)"
    );
    let a = run.step(&rows(&[VICTIM, MASTER]));
    assert!(sql_of(&a).starts_with("UPDATE cm_supplier SET lifecycle_status = $1"));
    let a = run.step(&changed(1));
    assert_eq!(sql_of(&a), "SELECT id FROM cm_contact WHERE supplier_id = $1 ORDER BY id");
    let a = run.step(&rows(&[r#"{"id": 11}"#, r#"{"id": 12}"#]));
    assert!(sql_of(&a).starts_with("UPDATE cm_contact SET supplier_id = $1"));
    let a = run.step(&changed(2));
    assert!(sql_of(&a).starts_with("SELECT id, account_no FROM cm_bank"));
    let a = run.step(&rows(&[r#"{"id": 21, "account_no": "A"}"#, r#"{"id": 22, "account_no": "B"}"#]));
    assert!(sql_of(&a).starts_with("SELECT id, account_no FROM cm_bank"));
    let a = statement(run.step(&rows(&[r#"{"id": 31, "account_no": "B"}"#])));
    assert_eq!(a.sql, "UPDATE cm_bank SET supplier_id = $1, update_time = now() WHERE id IN ($2)");
    assert!(matches!(a.params[1], SqlValue::Int(21)));
    let a = statement(run.step(&changed(1)));
    assert!(a.sql.starts_with("UPDATE cm_bank SET lifecycle_status = $1"));
    assert!(matches!(a.params[2], SqlValue::Int(22)));
    let a = run.step(&changed(1));
    assert!(sql_of(&a).starts_with("UPDATE md_xref SET xref_status = $1"));
    let a = statement(run.step(&changed(0)));
    assert_eq!(
        a.sql,
        "UPDATE cm_supplier SET name = $1, phone = $2, published_version = $3 WHERE id = $4 \
         AND published_version = $5 AND lifecycle_status = 'published'"
    );
    assert!(matches!(&a.params[1], SqlValue::Text(t) if t == "999"));
    assert!(matches!(a.params[2], SqlValue::Int(5)));
    let a = run.step(&changed(1));
    assert!(sql_of(&a).starts_with("INSERT INTO md_audit"));
    let a = run.step(&changed(1));
    assert_eq!(sql_of(&a), "SELECT * FROM cm_supplier WHERE id = $1");
    let a = statement(run.step(&rows(&[r#"{"id": 1, "name": "甲"}"#])));
    assert!(a.sql.starts_with("INSERT INTO md_event_log"));
    assert!(same_json(
        &json_param(&a, 4),
        &json(
            r#"{"match_group_id": 50, "master_id": 1, "victim_ids": [2], "version": 5,
                "survivorship": [{"field": "name", "from": "master"},
                                 {"field": "phone", "from": "override"}],
                "snapshot": {"id": 1, "name": "甲"}}"#
        )
    ));
    let a = run.step(&changed(1));
    assert!(sql_of(&a).starts_with("UPDATE md_merge_record SET status = $1 WHERE id = $2"));
    let a = statement(run.step(&changed(1)));
    assert!(a.sql.starts_with("UPDATE md_merge_record SET status = $1, survivorship_log = $2"));
    assert!(same_json(
        &json_param(&a, 1),
        &json(
            r#"{"fields": [{"field": "name", "from": "master", "value": "甲"},
                           {"field": "phone", "from": "override", "value": "999"}],
                "reparented": {"cm_contact": [11, 12], "cm_bank": [21]},
                "deduped": {"cm_bank": [22]}}"#
        )
    ));
    match run.step(&changed(1)) {
        StepAction::Done(s) => {
            assert_eq!((s.master_id, s.reparented_total, s.deduped_total), (1, 3, 1));
        }
        other => panic!("not done: {other:?}"),
    }
}

/// The record of a merge of two victims, each with lines of its own.
fn record_of_two() -> Json {
    let mut q = request();
    q.victim_ids = vec![2, 3];
    q.line_tables.truncate(1);
    let mut run = MergeRun::new(q);
    run.step(&changed(0));
    run.step(&rows(&[r#"{"id": 1}"#]));
    let third = r#"{"id": 3, "lifecycle_status": "published", "name": "丙"}"#;
    run.step(&rows(&[MASTER, VICTIM, third]));
    let mut a = run.step(&changed(1));
    let mut lines = vec![
        rows(&[r#"{"id": 13}"#, r#"{"id": 14}"#]),
        rows(&[r#"{"id": 11}"#, r#"{"id": 12}"#]),
    ];
    let mut record = None;
    for _ in 0..40 {
        let sql = match &a {
            StepAction::Done(s) => {
                assert_eq!((s.reparented_total, s.deduped_total), (4, 0));
                break;
            }
            other => sql_of(other),
        };
        let next = if sql.starts_with("SELECT id FROM cm_contact") {
            lines.pop().unwrap()
        } else if sql.starts_with("SELECT *") {
            rows(&[MASTER])
        } else {
            changed(1)
        };
        if sql.contains("survivorship_log = $2") {
            record = Some(json_param(&statement(a), 1));
        }
        a = run.step(&next);
    }
    assert!(matches!(a, StepAction::Done(_)));
    record.unwrap()
}

fn member(v: &Json, k: &str) -> Json {
    v.get(k).unwrap().clone()
}

#[test]
fn a_merge_of_two_records_notes_the_lines_of_both() {
    let record = record_of_two();
    assert!(same_json(&member(&record, "reparented"), &json(r#"{"cm_contact": [11, 12, 13, 14]}"#)));
    assert!(same_json(&member(&record, "deduped"), &json("{}")));
    assert!(same_json(
        &member(&record, "victims"),
        &json(
            r#"[{"id": 2, "reparented": {"cm_contact": [11, 12]}, "deduped": {}},
                {"id": 3, "reparented": {"cm_contact": [13, 14]}, "deduped": {}}]"#
        )
    ));
}

#[test]
fn an_undo_gives_back_the_lines_of_its_victim() {
    let record = record_of_two();
    for (victim, first, second) in [(2, 11, 12), (3, 13, 14)] {
        let mut q = undo();
        q.victim_id = victim;
        let s = unmerge_statements(&q, &record).unwrap();
        assert_eq!(s.len(), 4);
        assert!(matches!(s[0].params[0], SqlValue::Int(v) if v == victim));
        assert!(matches!(s[0].params[1], SqlValue::Int(l) if l == first));
        assert!(matches!(s[0].params[2], SqlValue::Int(l) if l == second));
    }
    let mut q = undo();
    q.victim_id = 9;
    assert_eq!(unmerge_statements(&q, &record).unwrap().len(), 3);
}

#[test]
fn a_merge_refuses_what_it_cannot_do() {
    let mut q = request();
    q.overrides = object(r#"{"code": "x"}"#);
    assert_eq!(failure(MergeRun::new(q).step(&changed(0))), "overrides 字段 code 不在存活字段清单");

    let mut run = MergeRun::new(request());
    run.step(&changed(0));
    assert_eq!(failure(run.step(&rows(&[]))), "master 1 不存在");

    let loaded = |r: &[&str]| {
        let mut run = MergeRun::new(request());
        run.step(&changed(0));
        run.step(&rows(&[r#"{"id": 1}"#]));
        failure(run.step(&rows(r)))
    };
    assert_eq!(loaded(&[VICTIM]), "master 1 读取失败");
    assert_eq!(loaded(&[r#"{"id": 1, "lifecycle_status": "merged"}"#, VICTIM]), "master 1 非 published");
    assert_eq!(loaded(&[MASTER]), "部分 victim 读取失败");
    assert_eq!(
        loaded(&[MASTER, r#"{"id": 2, "lifecycle_status": "merged"}"#]),
        "victim 2 非 published（可能已被合并）"
    );

    let mut run = MergeRun::new(request());
    run.step(&changed(0));
    run.step(&rows(&[r#"{"id": 1}"#]));
    run.step(&rows(&[MASTER, VICTIM]));
    assert_eq!(failure(run.step(&changed(0))), "victim 2 状态冲突（双 merge 拦截）");
}

fn without_lines() -> MergeRequest {
    let mut q = request();
    q.line_tables = vec![];
    q
}

#[test]
fn a_merge_fails_on_a_changed_master_or_a_rejected_request() {
    let mut run = MergeRun::new(without_lines());
    run.step(&changed(0));
    run.step(&rows(&[r#"{"id": 1}"#]));
    run.step(&rows(&[MASTER, VICTIM]));
    run.step(&changed(1));
    run.step(&changed(1));
    assert_eq!(failure(run.step(&changed(0))), "master 1 版本冲突");

    let ends = |status: &str| {
        let mut run = MergeRun::new(without_lines());
        run.step(&changed(0));
        run.step(&rows(&[r#"{"id": 1}"#]));
        run.step(&rows(&[MASTER, VICTIM]));
        run.step(&changed(1));
        run.step(&changed(1));
        run.step(&changed(1));
        run.step(&changed(1));
        run.step(&rows(&[]));
        run.step(&changed(1));
        let a = run.step(&changed(0));
        assert!(sql_of(&a).starts_with("SELECT id, dict_code, group_key"));
        run.step(&rows(&[&format!(r#"{{"status": "{status}"}}"#)]))
    };
    assert_eq!(failure(ends("rejected")), "group 50 已被驳回，不可合并");
    assert!(matches!(ends("reviewed"), StepAction::Execute(_)));
}

#[test]
fn parts_of_a_merge() {
    let fields = names(&["name"]);
    assert!(check_overrides(&Object::new(), &fields).is_ok());
    assert!(check_overrides(&object(r#"{"x": 1}"#), &fields).is_err());
    assert_eq!(lifecycle_of(&record(MASTER)), "published");
    assert_eq!(lifecycle_of(&record("{}")), "");
    assert_eq!(record_version(&object(r#"{"published_version": 9}"#)), 9);
    assert_eq!(record_version(&Object::new()), 1);
    let (m, vs) = select_parties(&vec![record(VICTIM), record(MASTER)], 1, &vec![2]).unwrap();
    assert_eq!((m.id, vs.len(), vs[0].id), (1, 1, 2));
    let (row, log) = merge_rows(&m, &vs, &names(&["name", "phone"]), &vec![]);
    assert_eq!(row.get("phone").and_then(|v| v.as_str()).map(|s| s.as_str()), Some("222"));
    assert_eq!(log.len(), 2);
    let mut row = row;
    let mut log = log;
    apply_overrides(&mut row, &mut log, &object(r#"{"name": "丙", "zip": 1}"#));
    assert_eq!(log.len(), 3);
    assert_eq!(log[0].from, "override");
    let upd = master_update(&row, &names(&["name", "nothing"]), 4);
    assert!(same_json(&Json::Obj(upd), &json(r#"{"name": "丙", "published_version": 5}"#)));
    let rules = vec![("name".to_string(), SurvivorRule::Latest)];
    assert_eq!(merge_rows(&m, &vs, &names(&["name"]), &rules).1[0].from, "master");
}

#[test]
fn lines_move_or_retire() {
    let line = |id: i64, k: &str| LineKey { id, values: vec![Json::string(k), Json::integer(1)] };
    let victim = vec![line(1, "a"), line(2, "b"), line(3, "a")];
    let master = vec![line(9, "b")];
    assert_eq!(split_lines(&victim, &master), (vec![1, 3], vec![2]));
    assert_eq!(listed_ids(Some(&ids_value(&vec![5, -6]))), vec![5, -6]);
    assert!(listed_ids(None).is_empty());
    assert!(listed_ids(Some(&json(r#"[1, "x"]"#))).is_empty());
}

fn undo() -> UnmergeRequest {
    let q = request();
    UnmergeRequest {
        dict_code: q.dict_code,
        head_table: q.head_table,
        master_id: 1,
        victim_id: 2,
        line_tables: q.line_tables,
        operated_by: 7,
        match_group_id: 50,
        audit_id: 61,
    }
}

#[test]
fn an_undo_gives_back_what_the_merge_noted() {
    let q = undo();
    let first = restore_victim(&q).unwrap();
    assert!(first.sql.starts_with("UPDATE cm_supplier SET lifecycle_status = $1"));
    assert!(matches!(&first.params[0], SqlValue::Text(t) if t == "published"));
    assert!(victim_restored(&q, 1).is_ok());
    assert_eq!(victim_restored(&q, 0).unwrap_err(), "victim 2 非 merged（双 unmerge 拦截）");
    let group = json(
        r#"{"survivorship_log": "{\"reparented\": {\"cm_contact\": [11, 12]}, \"deduped\": {\"cm_bank\": [22]}}"}"#,
    );
    let noted = read_record(&q, Some(&group)).unwrap();
    let s = unmerge_statements(&q, &noted).unwrap();
    let sqls: Vec<&str> = s.iter().map(|x| x.sql.as_str()).collect();
    assert_eq!(sqls.len(), 5);
    assert_eq!(
        sqls[0],
        "UPDATE cm_contact SET supplier_id = $1, update_time = now() WHERE id IN ($2, $3)"
    );
    assert!(matches!(s[0].params[0], SqlValue::Int(2)));
    assert!(sqls[1].starts_with("UPDATE cm_bank SET lifecycle_status = $1"));
    assert!(sqls[2].starts_with("UPDATE md_xref"));
    assert!(matches!(&s[2].params[0], SqlValue::Text(t) if t == "active"));
    assert!(sqls[3].starts_with("INSERT INTO md_audit"));
    assert!(matches!(s[3].params[5], SqlValue::Int(2)));
    assert!(sqls[4].starts_with("UPDATE md_merge_record SET status = $1, survivorship_log = $2"));
    assert!(matches!(s[4].params[1], SqlValue::NullTyped(SqlType::Json)));
    assert_eq!(read_record(&q, None).unwrap_err(), "group 50 不存在");
    let unread = read_record(&q, Some(&json(r#"{"survivorship_log": "no json"}"#))).unwrap();
    assert!(same_json(&unread, &Json::Null));
}

#[test]
fn an_undo_runs_step_by_step() {
    let q = undo();
    let (stage, a) = undo_step(&q, UndoStage::Start, &changed(0));
    assert!(matches!(a, UndoAction::Execute(s) if s.sql.starts_with("UPDATE cm_supplier")));
    let (stage, a) = undo_step(&q, stage, &changed(1));
    assert!(matches!(a, UndoAction::Query(s) if s.sql.contains("FROM md_merge_record WHERE id = $1")));
    let (mut stage, mut a) = undo_step(
        &q,
        stage,
        &rows(&[r#"{"survivorship_log": {"reparented": {"cm_contact": [11]}}}"#]),
    );
    let mut sqls = Vec::new();
    while let UndoAction::Execute(s) = a {
        sqls.push(s.sql);
        (stage, a) = undo_step(&q, stage, &changed(1));
    }
    assert!(matches!(a, UndoAction::Done));
    assert_eq!(sqls.len(), 4);
    assert!(sqls[0].starts_with("UPDATE cm_contact SET supplier_id = $1"));
    let refused = |stage, ev: &StepEvent| match undo_step(&q, stage, ev).1 {
        UndoAction::Fail(e) => e,
        other => panic!("not refused: {other:?}"),
    };
    assert_eq!(refused(UndoStage::Restoring, &changed(0)), "victim 2 非 merged（双 unmerge 拦截）");
    assert_eq!(refused(UndoStage::Group, &rows(&[])), "group 50 不存在");
}
