//! The queue of deliveries, subscriptions, events and findings.

use cmx_mdm::distribution::config::DistCfg;
use cmx_mdm::distribution::dispatcher::{delivery_plan, next_part, note_part};
use cmx_mdm::distribution::envelope::DeliveryResult;
use cmx_mdm::handlers::scan_run::{mdm_match_scan_run, ScanAction, ScanEvent, ScanStage};
use cmx_mdm::handlers::scan::ScanRunBody;
use cmx_mdm::json::{same_json, Json, Number, Object};
use cmx_mdm::match_algo::{FieldKind, MatchFieldSpec, MatchRecord};
use cmx_mdm::sql::{SqlType, SqlValue, Statement};
use cmx_mdm::store::dispatch_store::{
    claim_dispatches, dispatch_stats, fanout_rows, get_dispatch, insert_dispatches,
    list_consumer_offsets, list_dispatches, load_events_by_ids, load_subscriptions_by_ids,
    mark_dispatch, publish_rebuild, publish_select, read_events, reclaim_running,
    retry_dispatches, skip_dispatches, upsert_consumer_offset, watermark_of, NewDispatch,
};
use cmx_mdm::store::fanout::{fanout_tick, FanoutAction, FanoutEvent, FanoutStage};
use cmx_mdm::store::governance::{
    delete_subscription, get_subscription, list_audit, list_events, list_subscriptions,
    read_subscriptions, set_subscription_active, upsert_subscription,
};
use cmx_mdm::store::scan_store::{
    cluster_hash, count_scan_by_status, get_scan, insert_findings, list_scans,
    load_pending_hashes, read_scans, texts_of_column, transition_scan_status, PreparedCluster,
};

/// The library's value for a JSON text.
fn json(text: &str) -> Json {
    let v: serde_json::Value = serde_json::from_str(text).unwrap();
    of_serde(&v)
}

fn of_serde(v: &serde_json::Value) -> Json {
    match v {
        serde_json::Value::Null => Json::Null,
        serde_json::Value::Bool(b) => Json::Bool(*b),
        serde_json::Value::Number(n) => match (n.as_u64(), n.as_i64()) {
            (Some(u), _) => Json::Num(Number::PosInt(u)),
            (_, Some(i)) => Json::Num(Number::NegInt(i)),
            _ => Json::Num(Number::Float(n.to_string())),
        },
        serde_json::Value::String(s) => Json::Str(s.clone()),
        serde_json::Value::Array(a) => Json::Arr(a.iter().map(of_serde).collect()),
        serde_json::Value::Object(o) => {
            let mut r = Object::new();
            for (k, x) in o {
                r.insert(k.clone(), of_serde(x));
            }
            Json::Obj(r)
        }
    }
}

/// A parameter as a short text: the value, with its type where that is not plain.
fn shown(v: &SqlValue) -> String {
    match v {
        SqlValue::Null => "null".to_string(),
        SqlValue::NullTyped(SqlType::Int) => "null:int".to_string(),
        SqlValue::NullTyped(SqlType::Text) => "null:text".to_string(),
        SqlValue::NullTyped(SqlType::Json) => "null:json".to_string(),
        SqlValue::Bool(b) => b.to_string(),
        SqlValue::Int(i) => i.to_string(),
        SqlValue::Float(n) => format!("float:{n:?}"),
        SqlValue::Text(s) => format!("'{s}'"),
        SqlValue::Json(s) => format!("json:{s}"),
    }
}

fn params(s: &Statement) -> Vec<String> {
    s.params.iter().map(shown).collect()
}

fn check(s: &Statement, sql: &str, expected: &[&str]) {
    assert_eq!(s.sql, sql);
    assert_eq!(params(s), expected.iter().map(|x| x.to_string()).collect::<Vec<String>>());
}

fn query(a: FanoutAction) -> Statement {
    match a {
        FanoutAction::Query(s) | FanoutAction::Execute(s) => s,
        other => panic!("no statement: {other:?}"),
    }
}

#[test]
fn a_round_delivers_events_and_moves_the_mark() {
    let (stage, a) = fanout_tick(500, FanoutStage::Start, FanoutEvent::Begin);
    check(
        &query(a),
        "SELECT last_seq FROM md_dist_watermark WHERE key = $1 FOR UPDATE",
        &["'fanout'"],
    );
    let (stage, a) =
        fanout_tick(500, stage, FanoutEvent::Rows(vec![json(r#"{"last_seq": 4}"#)]));
    check(
        &query(a),
        "SELECT id, seq, dict_code, record_id, event_type, payload FROM md_event_log \
         WHERE seq > $1 ORDER BY seq ASC LIMIT $2",
        &["4", "500"],
    );
    let events = vec![
        json(r#"{"id": "e5", "seq": 5, "dict_code": "d", "record_id": 50, "event_type": "created",
                 "payload": "{\"snapshot\": {\"status\": \"A\"}}"}"#),
        json(r#"{"id": "e6", "seq": 6, "dict_code": "d", "record_id": 60, "event_type": "created",
                 "payload": "{\"snapshot\": {\"status\": \"B\"}}"}"#),
    ];
    let (stage, a) = fanout_tick(500, stage, FanoutEvent::Rows(events));
    check(
        &query(a),
        "SELECT id, dict_code, channel, event_types, filter FROM md_subscription \
         WHERE active = TRUE AND channel <> 'rest_pull'",
        &[],
    );
    let subs = vec![
        json(r#"{"id": 1, "dict_code": "d", "event_types": "[]",
                 "filter": "{\"conditions\": [{\"field\": \"status\", \"op\": \"eq\", \"value\": \"B\"}]}"}"#),
        json(r#"{"id": 2, "dict_code": "d", "event_types": "[]", "filter": "{}"}"#),
        json(r#"{"id": 3, "dict_code": "other", "event_types": "[]", "filter": "{}"}"#),
    ];
    let (stage, a) = fanout_tick(500, stage, FanoutEvent::Rows(subs));
    assert!(matches!(a, FanoutAction::NewIds(3)));
    let (stage, a) = fanout_tick(500, stage, FanoutEvent::Ids(vec![71, 72, 73]));
    check(
        &query(a),
        "INSERT INTO md_dispatch_log (id, subscription_id, event_id, event_seq, dict_code, record_id, \
         status) VALUES ($1,$2,$3,$4,$5,$6,'pending'),($7,$8,$9,$10,$11,$12,'pending'),\
         ($13,$14,$15,$16,$17,$18,'pending') ON CONFLICT (subscription_id, event_id) DO NOTHING",
        &[
            "71", "2", "'e5'", "5", "'d'", "50", "72", "1", "'e6'", "6", "'d'", "60", "73", "2",
            "'e6'", "6", "'d'", "60",
        ],
    );
    let (stage, a) = fanout_tick(500, stage, FanoutEvent::Changed(2));
    check(
        &query(a),
        "UPDATE md_dist_watermark SET last_seq = $1, updated_at = now() WHERE key = $2",
        &["6", "'fanout'"],
    );
    let (_, a) = fanout_tick(500, stage, FanoutEvent::Changed(1));
    assert!(matches!(a, FanoutAction::Done(2)));
}

fn at_events() -> FanoutStage {
    let (stage, _) = fanout_tick(9, FanoutStage::Start, FanoutEvent::Begin);
    fanout_tick(9, stage, FanoutEvent::Rows(vec![])).0
}

#[test]
fn a_round_ends_without_events_and_moves_on_without_subscriptions() {
    let (_, a) = fanout_tick(9, at_events(), FanoutEvent::Rows(vec![]));
    assert!(matches!(a, FanoutAction::Done(0)));
    let ev = vec![json(r#"{"id": "e", "seq": 8, "dict_code": "d"}"#)];
    let (stage, _) = fanout_tick(9, at_events(), FanoutEvent::Rows(ev));
    let (stage, a) = fanout_tick(9, stage, FanoutEvent::Rows(vec![]));
    assert!(query(a).sql.starts_with("UPDATE md_dist_watermark"));
    let (_, a) = fanout_tick(9, stage, FanoutEvent::Changed(1));
    assert!(matches!(a, FanoutAction::Done(0)));
    let (_, a) = fanout_tick(9, FanoutStage::Start, FanoutEvent::Changed(1));
    assert!(matches!(a, FanoutAction::Fail(_)));
    let (_, a) = fanout_tick(
        9,
        FanoutStage::Ids(
            vec![NewDispatch {
                subscription_id: 1,
                event_id: "e".to_string(),
                event_seq: 1,
                dict_code: "d".to_string(),
                record_id: 1,
            }],
            None,
        ),
        FanoutEvent::Ids(vec![]),
    );
    assert!(matches!(a, FanoutAction::Fail(e) if e == "新 id 不足"));
    assert_eq!(watermark_of(&vec![]), 0);
}

#[test]
fn inserts_are_cut_into_parts() {
    let rows: Vec<NewDispatch> = (0..501)
        .map(|i| NewDispatch {
            subscription_id: i,
            event_id: format!("e{i}"),
            event_seq: i,
            dict_code: "d".to_string(),
            record_id: i,
        })
        .collect();
    let ids: Vec<i64> = (1000..1501).collect();
    let s = insert_dispatches(&rows, &ids, "DO NOTHING");
    assert_eq!(s.len(), 2);
    assert_eq!((s[0].params.len(), s[1].params.len()), (3000, 6));
    assert!(matches!(s[1].params[0], SqlValue::Int(1500)));
    let ev = vec![json(r#"{"id": "e", "dict_code": "d"}"#)];
    let subs = vec![json(r#"{"id": 3, "dict_code": "d"}"#)];
    assert_eq!(fanout_rows(&ev, &subs).len(), 1);
}

#[test]
fn the_queue() {
    assert_eq!(params(&reclaim_running(10)), vec!["'10'"]);
    assert!(claim_dispatches(7).sql.contains("FOR UPDATE SKIP LOCKED LIMIT $1"));
    check(
        &mark_dispatch(5, "failed", 2, Some(99), Some(503), Some("busy"), Some(&"x".repeat(600))),
        "UPDATE md_dispatch_log SET status = $1, attempts = $2, next_retry_at = to_timestamp(99), \
         http_status = $3, last_error = $4, response_snippet = $5, delivered_at = NULL, \
         updated_at = now() WHERE id = $6",
        &["'failed'", "2", "503", "'busy'", &format!("'{}'", "x".repeat(512)), "5"],
    );
    let d = mark_dispatch(5, "delivered", 1, Some(99), None, None, None);
    assert!(d.sql.contains("next_retry_at = NULL") && d.sql.contains("delivered_at = now()"));
    assert_eq!(params(&d)[2..5], ["null:int", "null:text", "null:text"].map(String::from));
    let q = list_dispatches(&json(
        r#"{"subscriptionId": 3, "status": "dead", "eventId": "", "timeTo": "2026", "page": 2, "pageSize": 5}"#,
    ));
    check(
        &q.list,
        "SELECT d.*, s.name AS sub_name, s.target_sys AS sub_target_sys FROM md_dispatch_log d LEFT JOIN \
         md_subscription s ON s.id = d.subscription_id WHERE 1=1 AND d.subscription_id = $1 AND \
         d.status = $2 AND d.created_at <= $3::text::timestamptz ORDER BY d.created_at DESC, d.id DESC \
         LIMIT $4 OFFSET $5",
        &["3", "'dead'", "'2026'", "5", "5"],
    );
    assert_eq!(params(&get_dispatch(4)), vec!["4"]);
    check(
        &retry_dispatches(&json(r#"{"ids": [1, "x", 2], "status": "dead"}"#)),
        "UPDATE md_dispatch_log SET status = 'pending', next_retry_at = NULL, updated_at = now() \
         WHERE id IN ($1,$2) AND status IN ('failed','dead')",
        &["1", "2"],
    );
    check(
        &retry_dispatches(&json(r#"{"subscriptionId": 9}"#)),
        "UPDATE md_dispatch_log SET status = 'pending', next_retry_at = NULL, updated_at = now() \
         WHERE status = $1 AND subscription_id = $2 AND status IN ('failed','dead')",
        &["'dead'", "9"],
    );
    check(
        &retry_dispatches(&json(r#"{"status": "delivered"}"#)),
        "UPDATE md_dispatch_log SET status = 'pending', next_retry_at = NULL, updated_at = now() \
         WHERE status = $1 AND status IN ('failed','dead')",
        &["'delivered'"],
    );
    check(
        &skip_dispatches(&[1, 2]).unwrap(),
        "UPDATE md_dispatch_log SET status = 'skipped', next_retry_at = NULL, updated_at = now() \
         WHERE id IN ($1,$2) AND status = 'dead'",
        &["1", "2"],
    );
    assert!(skip_dispatches(&[]).is_none());
    assert_eq!(params(&dispatch_stats()), vec!["1"]);
    let w = upsert_consumer_offset(77, "erp", "d", 12);
    assert_eq!(params(&w.update), vec!["12", "'erp'", "'d'"]);
    assert_eq!(params(&w.insert), vec!["77", "'erp'", "'d'", "12"]);
    assert_eq!(params(&w.rest(0).unwrap()), vec!["77", "'erp'", "'d'", "12"]);
    assert!(upsert_consumer_offset(77, "erp", "d", 12).rest(1).is_none());
    assert!(list_consumer_offsets().params.is_empty());
    check(
        &load_subscriptions_by_ids(&[4, 5]).unwrap(),
        "SELECT * FROM md_subscription WHERE id IN ($1,$2)",
        &["4", "5"],
    );
    assert!(load_subscriptions_by_ids(&[]).is_none());
    assert_eq!(params(&load_events_by_ids(&vec!["a".to_string()]).unwrap()), vec!["'a'"]);
    assert!(load_events_by_ids(&vec![]).is_none());
    let ev = read_events(&vec![json(r#"{"payload": "{\"version\": 2}"}"#)]);
    assert!(same_json(&ev[0], &json(r#"{"payload": {"version": 2}}"#)));
}

#[test]
fn events_are_sent_again() {
    check(
        &publish_select(&json(r#"{"subscriptionId": 3, "dictCode": "d", "fromSeq": 1, "toSeq": 9}"#)),
        "SELECT s.id AS sub_id, e.id AS event_id, e.seq, e.dict_code, e.record_id FROM md_event_log e \
         JOIN md_subscription s ON s.dict_code = e.dict_code WHERE s.channel <> 'rest_pull' AND s.id = $1 \
         AND s.dict_code = $2 AND e.seq >= $3 AND e.seq <= $4 ORDER BY e.seq ASC LIMIT 5000",
        &["3", "'d'", "1", "9"],
    );
    let combos = vec![json(r#"{"sub_id": 3, "event_id": "e", "seq": 4, "dict_code": "d", "record_id": 8}"#)];
    let plain = publish_rebuild(&json("{}"), &combos, &[70]);
    assert!(plain[0].sql.ends_with("ON CONFLICT (subscription_id, event_id) DO NOTHING"));
    assert_eq!(params(&plain[0]), vec!["70", "3", "'e'", "4", "'d'", "8"]);
    let forced = publish_rebuild(&json(r#"{"force": true}"#), &combos, &[70]);
    assert!(forced[0].sql.ends_with(
        "DO UPDATE SET status = 'pending', next_retry_at = NULL, updated_at = now()"
    ));
    assert!(publish_rebuild(&json("{}"), &vec![], &[]).is_empty());
}

#[test]
fn subscriptions_and_trails() {
    check(
        &list_audit(Some("d"), Some(4), 1, 10).count,
        "SELECT COUNT(*) AS c FROM md_audit WHERE 1=1 AND dict_code = $1 AND record_id = $2",
        &["'d'", "4"],
    );
    let newest = list_events(None, Some(7), Some("DESC"), 1, 10).list;
    assert!(newest.sql.contains("WHERE 1=1 AND seq > $1 ORDER BY seq DESC LIMIT $2 OFFSET $3"));
    assert!(list_events(None, None, Some("x"), 1, 10).list.sql.contains("ORDER BY seq ASC"));
    let q = list_subscriptions(&json(r#"{"targetSys": "", "dictCode": "d", "active": false}"#));
    check(
        &q.count,
        "SELECT COUNT(*) AS c FROM md_subscription WHERE 1=1 AND dict_code = $1 AND active = $2",
        &["'d'", "false"],
    );
    let w = upsert_subscription(
        &json(r#"{"target_sys": "ERP", "dict_code": "d", "filter": {"a": 1}, "name": "n"}"#),
        55,
    );
    assert_eq!(w.id, 55);
    assert_eq!(
        params(&w.statement),
        vec![
            "55", "'ERP'", "'d'", "json:{\"a\":1}", "null:json", "'webhook'", "true", "'n'",
            "null:text", "json:{}", "json:[]", "8", "10000", "50", "null:text"
        ]
    );
    assert_eq!(upsert_subscription(&json(r#"{"id": 4}"#), 55).id, 4);
    check(&delete_subscription(3), "DELETE FROM md_subscription WHERE id = $1", &["3"]);
    check(
        &set_subscription_active(3, false),
        "UPDATE md_subscription SET active = $1, updated_at = now() WHERE id = $2",
        &["false", "3"],
    );
    check(&get_subscription(3), "SELECT * FROM md_subscription WHERE id = $1", &["3"]);
    let s = read_subscriptions(&vec![json(r#"{"filter": "{}", "channel_config": "{\"url\": \"u\"}"}"#)]);
    assert!(same_json(&s[0], &json(r#"{"filter": {}, "channel_config": {"url": "u"}}"#)));
}

fn cluster(key: &str, ids: &[i64]) -> PreparedCluster {
    PreparedCluster { cluster_key: key.to_string(), member_ids: ids.to_vec(), max_score: 90 }
}

#[test]
fn findings_that_wait_are_not_entered_again() {
    let found = vec![cluster("a", &[2, 1]), cluster("b", &[3, 4])];
    let plan = insert_findings("d", &found, &vec![cluster_hash(&[1, 2])], &[70, 71]);
    assert_eq!((plan.stats.inserted, plan.stats.skipped), (1, 1));
    assert_eq!(
        params(&plan.inserts[0]),
        vec!["70", "'d'", "'b'", &format!("'{}'", cluster_hash(&[3, 4])), "json:[3,4]", "2", "90"]
    );
    check(
        &load_pending_hashes("d"),
        "SELECT cluster_hash FROM md_match_scan WHERE dict_code = $1 AND status = 'pending'",
        &["'d'"],
    );
    check(
        &transition_scan_status(4, "pending", "ignored", 9),
        "UPDATE md_match_scan SET status = $1, resolved_at = now(), resolved_by = $4 \
         WHERE id = $2 AND status = $3",
        &["'ignored'", "4", "'pending'", "9"],
    );
    assert_eq!(params(&count_scan_by_status(Some("d"))), vec!["'d'"]);
    assert_eq!(params(&list_scans(None, Some("pending"), 1, 5).list), vec!["'pending'", "5", "0"]);
    assert_eq!(params(&get_scan(4)), vec!["4"]);
    let scans = read_scans(&vec![json(r#"{"member_ids": "[1, 2]"}"#)]);
    assert!(same_json(&scans[0], &json(r#"{"member_ids": [1, 2]}"#)));
    assert_eq!(texts_of_column(&vec![json(r#"{"h": "x"}"#), json(r#"{"h": 1}"#)], "h"), vec!["x"]);
}

fn scan_start(names: &[&str]) -> ScanStage {
    let rs = names
        .iter()
        .enumerate()
        .map(|(i, n)| {
            let mut fields = Object::new();
            fields.insert("name".to_string(), Json::string(n));
            MatchRecord { id: i as i64 + 1, fields }
        })
        .collect();
    let body = ScanRunBody {
        dict_code: "d".to_string(),
        target_table: "t".to_string(),
        specs: vec![],
        cluster_keys: vec!["name".to_string()],
        survive_fields: vec![],
        min_score: None,
    };
    let specs = vec![MatchFieldSpec { field: "name".to_string(), weight: 1, kind: FieldKind::Exact }];
    ScanStage::Start(body, specs, rs)
}

fn step(stage: ScanStage, event: ScanEvent) -> (ScanStage, Statement) {
    match mdm_match_scan_run(stage, event) {
        (s, ScanAction::Query(q)) | (s, ScanAction::Execute(q)) => (s, q),
        other => panic!("no statement: {other:?}"),
    }
}

#[test]
fn a_scan_enters_what_it_finds() {
    let (stage, q) = step(scan_start(&["甲", "乙", "甲"]), ScanEvent::Begin);
    assert!(q.sql.starts_with("SELECT cluster_hash FROM md_match_scan"));
    let (stage, a) = mdm_match_scan_run(stage, ScanEvent::Rows(vec![]));
    assert!(matches!(a, ScanAction::NewIds(1)));
    let (stage, q) = step(stage, ScanEvent::Ids(vec![40]));
    assert_eq!(params(&q)[4], "json:[1,3]");
    let (stage, q) = step(stage, ScanEvent::Changed(1));
    check(
        &q,
        "SELECT COUNT(*) AS c FROM md_match_scan WHERE 1=1 AND dict_code = $1 AND status = $2",
        &["'d'", "'pending'"],
    );
    match mdm_match_scan_run(stage, ScanEvent::Rows(vec![json(r#"{"c": 5}"#)])).1 {
        ScanAction::Answer(v) => assert!(same_json(
            &v,
            &json(r#"{"newFindings": 1, "skipped": 0, "pendingTotal": 5}"#)
        )),
        other => panic!("no answer: {other:?}"),
    }
    let (_, q) = step(scan_start(&["甲", "乙"]), ScanEvent::Begin);
    assert!(q.sql.starts_with("SELECT COUNT(*)"));
    let (stage, _) = step(scan_start(&["甲", "甲"]), ScanEvent::Begin);
    let waits = format!(r#"{{"cluster_hash": "{}"}}"#, cluster_hash(&[1, 2]));
    let (stage, _) = mdm_match_scan_run(stage, ScanEvent::Rows(vec![json(&waits)]));
    let (_, q) = step(stage, ScanEvent::Ids(vec![40]));
    assert!(q.sql.starts_with("SELECT COUNT(*)"));
    let (_, a) = mdm_match_scan_run(ScanStage::Over, ScanEvent::Failed("x".to_string()));
    assert!(matches!(a, ScanAction::Fail(e) if e == "x"));
}

#[test]
fn a_group_is_sent_part_by_part() {
    let rows: Vec<Json> = (1..=3)
        .map(|i| json(&format!(r#"{{"id": {i}, "event_id": "e{i}", "attempts": 0}}"#)))
        .collect();
    let events: Vec<Json> =
        (1..=3).map(|i| json(&format!(r#"{{"id": "e{i}", "seq": {i}}}"#))).collect();
    let sub = json(r#"{"id": 9, "batch_size": 2, "retry_max": 1}"#);
    let plan = delivery_plan(&sub);
    let first = next_part(&rows, &plan, &events, 0).unwrap();
    assert_eq!((first.end, first.envelopes.len()), (2, 2));
    let second = next_part(&rows, &plan, &events, first.end).unwrap();
    assert_eq!((second.end, second.envelopes[0].event_id.as_str()), (3, "e3"));
    assert!(next_part(&rows, &plan, &events, second.end).is_none());
    let results = vec![
        DeliveryResult::ok("e1", Some(200), None),
        DeliveryResult::fail("e2", true, Some(500), "down"),
    ];
    let notes = note_part(&rows, 0, 2, &sub, &results, plan.retry_max, &DistCfg::default(), Some(0));
    assert_eq!(params(&notes[0].statement)[0], "'delivered'");
    assert!(notes[0].notice.is_none());
    assert_eq!(params(&notes[1].statement)[0], "'dead'");
    assert_eq!(notes[1].notice.as_ref().unwrap().body, "事件 e2 投递耗尽重试进入死信：down");
}
