//! Requests and their answers.

use cmx_mdm::handlers::activation::{mdm_activations_delete, mdm_activations_save};
use cmx_mdm::handlers::dedup::{
    config_defaults, dedup_keys_from, line_table_info, mdm_check_key, mdm_find_duplicates,
    text_list, CheckKeyBody, FindDupBody,
};
use cmx_mdm::handlers::distribution::{
    mdm_dispatches_detail, mdm_dispatches_query, mdm_dispatches_skip, mdm_events_ack,
    mdm_records_snapshot, read_max_seq, snapshot_dict, snapshot_max_seq, snapshot_page, unknown_dict,
};
use cmx_mdm::handlers::governance::{
    activate_subscription, check_channel, check_subscription, check_test, count_answer,
    draft_subscription, id_answer, keep_secret_if_masked, kept_secret_of, mask_secret,
    mdm_events_list, mdm_publish, mdm_subscriptions_channels, mdm_subscriptions_delete,
    mdm_subscriptions_list,
    mdm_subscriptions_save, mdm_subscriptions_set_active, mdm_subscriptions_test, required_id,
    subscription_query, test_target, GovListQuery,
};
use cmx_mdm::handlers::match_config::mdm_match_configs_delete;
use cmx_mdm::handlers::merge::{
    dicts_of_groups, enrich_group_names, excludes_pending, group_parts, ids_of_dict, member_list,
    mdm_merge_request_detail, mdm_merge_request_reject, mdm_merge_requests_list,
    mdm_merge_requests_undo, name_search, push_names, reject_trace, reject_transition,
    survivor_rules, undo_parts, MergeBody, MergeListPlan, MergeListQuery,
};
use cmx_mdm::handlers::merge_create::{
    mdm_merge_requests_create, CreateAction, CreateEvent, CreateStage, MergeInput,
};
use cmx_mdm::handlers::scan::{
    ignore_scan, mdm_match_scan_detail, mdm_match_scan_ignore, scan_parts, ScanRunBody,
};
use cmx_mdm::handlers::search::{search_step, SearchAction, SearchBody, SearchEvent, SearchStage};
use cmx_mdm::handlers::workbench::mdm_workbench_summary;
use cmx_mdm::handlers::{
    default_kind, default_page, default_page_size, default_weight, mdm_health, to_match_specs,
    SpecDto,
};
use cmx_mdm::json::{same_json, Json, Number, Object};
use cmx_mdm::match_algo::{FieldKind, MatchFieldSpec, MatchRecord};
use cmx_mdm::merge_parts::MergeStats;
use cmx_mdm::sql::{SqlType, SqlValue, Statement};
use cmx_mdm::store::activation_store::LineTable;
use cmx_mdm::survivorship::SurvivorRule;

/// The library's value for a JSON text.
fn json(text: &str) -> Json {
    let v: serde_json::Value = serde_json::from_str(text).unwrap();
    of_serde(&v)
}

fn of_serde(v: &serde_json::Value) -> Json {
    match v {
        serde_json::Value::Null => Json::Null,
        serde_json::Value::Bool(b) => Json::Bool(*b),
        serde_json::Value::Number(n) => match (n.as_u64(), n.as_i64()) {
            (Some(u), _) => Json::Num(Number::PosInt(u)),
            (_, Some(i)) => Json::Num(Number::NegInt(i)),
            _ => Json::Num(Number::Float(n.to_string())),
        },
        serde_json::Value::String(s) => Json::Str(s.clone()),
        serde_json::Value::Array(a) => Json::Arr(a.iter().map(of_serde).collect()),
        serde_json::Value::Object(o) => {
            let mut r = Object::new();
            for (k, x) in o {
                r.insert(k.clone(), of_serde(x));
            }
            Json::Obj(r)
        }
    }
}

fn object(text: &str) -> Object {
    match json(text) {
        Json::Obj(o) => o,
        other => panic!("not an object: {other:?}"),
    }
}

/// A parameter as a short text: the value, with its type where that is not plain.
fn shown(v: &SqlValue) -> String {
    match v {
        SqlValue::Null => "null".to_string(),
        SqlValue::NullTyped(SqlType::Int) => "null:int".to_string(),
        SqlValue::NullTyped(SqlType::Text) => "null:text".to_string(),
        SqlValue::NullTyped(SqlType::Json) => "null:json".to_string(),
        SqlValue::Bool(b) => b.to_string(),
        SqlValue::Int(i) => i.to_string(),
        SqlValue::Float(n) => format!("float:{n:?}"),
        SqlValue::Text(s) => format!("'{s}'"),
        SqlValue::Json(s) => format!("json:{s}"),
    }
}

fn params(s: &Statement) -> Vec<String> {
    s.params.iter().map(shown).collect()
}

fn check(s: &Statement, sql: &str, expected: &[&str]) {
    assert_eq!(s.sql, sql);
    assert_eq!(params(s), expected.iter().map(|x| x.to_string()).collect::<Vec<String>>());
}

fn is(v: &Json, text: &str) {
    assert!(same_json(v, &json(text)), "{v:?}");
}

fn names(s: &[&str]) -> Vec<String> {
    s.iter().map(|x| x.to_string()).collect()
}

fn dto(field: &str, kind: &str) -> SpecDto {
    SpecDto { field: field.to_string(), weight: 10, kind: kind.to_string() }
}

fn record(id: i64, text: &str) -> MatchRecord {
    MatchRecord { id, fields: object(text) }
}

#[test]
fn defaults_of_a_request() {
    assert_eq!((default_page(), default_page_size()), (1, 20));
    assert_eq!((default_weight(), default_kind().as_str()), (0, "Exact"));
    is(&mdm_health(), r#"{"module": "mdm", "status": "ok"}"#);
}

#[test]
fn comparisons_are_named() {
    let ok = to_match_specs(&vec![
        dto("a", "Exact"),
        dto("b", "exact"),
        dto("c", "EditDistance"),
        dto("d", "edit_distance"),
        dto("e", "editDistance"),
    ])
    .unwrap();
    let kinds: Vec<FieldKind> = ok.iter().map(|s| s.kind).collect();
    assert_eq!(kinds[..2], [FieldKind::Exact, FieldKind::Exact]);
    assert_eq!(kinds[2..], [FieldKind::EditDistance; 3]);
    assert_eq!(
        to_match_specs(&vec![dto("a", "So\"und")]).unwrap_err(),
        "字段 a 的比较方式 \"So\\\"und\" 不合法（Exact / EditDistance）"
    );
}

fn find_body() -> FindDupBody {
    FindDupBody {
        dict_code: "supplier".to_string(),
        record_id: 1,
        target_table: "".to_string(),
        specs: vec![],
        cluster_keys: names(&["name"]),
        survive_fields: vec![],
        display_fields: names(&["label", "code"]),
    }
}

#[test]
fn a_search_is_filled_from_the_rules() {
    let (stage, a) = search_step(SearchStage::Start(SearchBody::Find(find_body())), SearchEvent::Begin);
    match a {
        SearchAction::QueryRules(s) => assert_eq!(params(&s), vec!["'supplier'"]),
        other => panic!("{other:?}"),
    }
    let rule = json(
        r#"{"target_table": "cm_supplier", "specs": "[]", "cluster_keys": "[\"tax_no\"]",
            "survive_fields": "[\"name\", \"phone\"]"}"#,
    );
    let (stage, a) = search_step(stage, SearchEvent::Rules(vec![rule], vec![dto("name", "Exact")]));
    match a {
        SearchAction::Query(s) => {
            assert_eq!(
                s.sql,
                "WITH s_name AS (SELECT name AS k FROM cm_supplier \
                 WHERE lifecycle_status='published' AND name IS NOT NULL AND name <> '' \
                 GROUP BY name HAVING COUNT(*) > 1) \
                 SELECT DISTINCT code, id, label, name, phone, update_time FROM cm_supplier t \
                 WHERE lifecycle_status='published' AND (t.name IN (SELECT k FROM s_name)) \
                 LIMIT 50000"
            );
            assert!(s.params.is_empty());
        }
        other => panic!("{other:?}"),
    }
    let rows = vec![json(r#"{"id": 1, "name": "甲"}"#), json(r#"{"id": 2, "name": "甲"}"#)];
    let (_, a) = search_step(stage, SearchEvent::Rows(rows));
    match a {
        SearchAction::Compare(body, specs, rs) => {
            let keys = body.keys();
            let v = mdm_find_duplicates(&rs, 1, &specs, &keys).unwrap();
            is(
                &v,
                r#"{"targetId": 1, "targetFields": {"id": 1, "name": "甲"},
                    "candidates": [{"recordId": 2, "score": 100, "decision": "AutoMerge",
                                    "fields": {"id": 2, "name": "甲"}}],
                    "thresholds": {"auto_merge": 95, "review": 80}}"#,
            );
            assert_eq!(
                mdm_find_duplicates(&rs, 9, &specs, &keys).unwrap_err(),
                "记录 9 不存在或非 published"
            );
        }
        other => panic!("{other:?}"),
    }
}

#[test]
fn a_record_with_a_key_of_its_own_is_not_among_those_read() {
    let mut body = find_body();
    body.target_table = "cm_supplier".to_string();
    body.specs = vec![dto("name", "Exact")];
    body.survive_fields = names(&["name"]);
    let (stage, _) = search_step(SearchStage::Start(SearchBody::Find(body)), SearchEvent::Begin);
    match search_step(stage, SearchEvent::Rows(vec![])).1 {
        SearchAction::Compare(body, specs, rs) => assert_eq!(
            mdm_find_duplicates(&rs, 1, &specs, &body.keys()).unwrap_err(),
            "记录 1 不存在或非 published"
        ),
        other => panic!("{other:?}"),
    }
}

fn key_body(name: &str, tax_no: &str) -> CheckKeyBody {
    let mut key_value = Object::new();
    key_value.insert("name".to_string(), Json::string(name));
    key_value.insert("tax_no".to_string(), Json::string(tax_no));
    CheckKeyBody {
        dict_code: "supplier".to_string(),
        target_table: "cm_supplier".to_string(),
        key_value,
        specs: vec![dto("name", "EditDistance")],
        cluster_keys: names(&["tax_no"]),
    }
}

#[test]
fn one_published_record_stands_in_the_way() {
    let start = SearchStage::Start(SearchBody::Check(key_body("A公司", "911")));
    let (stage, a) = search_step(start, SearchEvent::Begin);
    match a {
        SearchAction::Query(s) => {
            assert_eq!(
                s.sql,
                "SELECT code, id, name, tax_no, update_time FROM cm_supplier \
                 WHERE lifecycle_status = 'published' AND tax_no = $1"
            );
            assert_eq!(params(&s), vec!["'911'"]);
        }
        other => panic!("{other:?}"),
    }
    let row = json(r#"{"id": 7, "code": "SUP001", "name": "A公司", "tax_no": "911"}"#);
    match search_step(stage, SearchEvent::Rows(vec![row])).1 {
        SearchAction::Compare(SearchBody::Check(b), specs, rs) => {
            let keys: Vec<&str> = b.cluster_keys.iter().map(|k| k.as_str()).collect();
            is(
                &mdm_check_key(&rs, b.key_value, &specs, &keys),
                r#"{"exists": true, "id": 7, "code": "SUP001",
                    "message": "已存在相同记录：SUP001（A公司）"}"#,
            );
        }
        other => panic!("{other:?}"),
    }
    let start = SearchStage::Start(SearchBody::Check(key_body("A公司", "")));
    assert!(matches!(
        search_step(start, SearchEvent::Begin).1,
        SearchAction::Compare(_, _, rs) if rs.is_empty()
    ));
}

fn search_fault(b: SearchBody) -> String {
    let (stage, a) = search_step(SearchStage::Start(b), SearchEvent::Begin);
    let a = match a {
        SearchAction::QueryRules(_) => search_step(stage, SearchEvent::Rules(vec![], vec![])).1,
        other => other,
    };
    match a {
        SearchAction::Fail(e) => e,
        other => panic!("{other:?}"),
    }
}

#[test]
fn a_search_says_what_it_lacks() {
    let check = |specs: Vec<SpecDto>, table: &str, keys: &[&str]| {
        search_fault(SearchBody::Check(CheckKeyBody {
            dict_code: "d".to_string(),
            target_table: table.to_string(),
            key_value: Object::new(),
            specs,
            cluster_keys: names(keys),
        }))
    };
    assert_eq!(check(vec![], "t", &["a"]), "查重字段（specs）不能为空（body 未传且 match_config 无配置）");
    assert_eq!(check(vec![dto("a", "Exact")], "", &["a"]), "target_table 不能为空（body 未传且 match_config 无配置）");
    assert_eq!(check(vec![dto("a", "Exact")], "t", &[]), "cluster_keys 不能为空（body 未传且 match_config 无配置）");
    assert_eq!(check(vec![dto("a b", "Exact")], "t", &["a"]), "非法标识符: a b");
    let scan = ScanRunBody {
        dict_code: "d".to_string(),
        target_table: "t".to_string(),
        specs: vec![dto("a", "x")],
        cluster_keys: names(&["a"]),
        survive_fields: names(&["a"]),
        min_score: Some(70),
    };
    assert_eq!(scan.lowest_score(), 70);
    assert!(search_fault(SearchBody::Scan(scan)).starts_with("字段 a 的比较方式"));
}

#[test]
fn a_key_that_is_taken_is_reported() {
    let specs = vec![MatchFieldSpec { field: "tax_no".to_string(), weight: 1, kind: FieldKind::Exact }];
    let all = vec![
        record(5, r#"{"tax_no": "9", "code": "SUP001", "name": "A公司"}"#),
        record(6, r#"{"tax_no": "8"}"#),
    ];
    let ask = |t: &str| mdm_check_key(&all, object(t), &specs, &["tax_no"]);
    is(
        &ask(r#"{"tax_no": "9"}"#),
        r#"{"exists": true, "id": 5, "code": "SUP001", "message": "已存在相同记录：SUP001（A公司）"}"#,
    );
    is(
        &ask(r#"{"tax_no": "8"}"#),
        r#"{"exists": true, "id": 6, "code": "", "message": "已存在相同记录：id=6"}"#,
    );
    is(&ask(r#"{"tax_no": "7"}"#), r#"{"exists": false}"#);
}

#[test]
fn details_are_told_apart_by_their_first_key() {
    let keys = vec![names(&["supplier_id", "account_no"]), names(&["x"])];
    assert_eq!(dedup_keys_from(&keys, "supplier_id"), vec!["account_no"]);
    assert!(dedup_keys_from(&[], "supplier_id").is_empty());
    let t = |dict: &str| LineTable {
        table: "t".to_string(),
        parent_field: "supplier_id".to_string(),
        dict_code: dict.to_string(),
    };
    assert_eq!(line_table_info(t("d"), Some(&keys)).dedup_keys, vec!["account_no"]);
    assert!(line_table_info(t(""), Some(&keys)).dedup_keys.is_empty());
    assert!(line_table_info(t("d"), None).dedup_keys.is_empty());
    assert_eq!(text_list(&json(r#"{"a": ["x", "y"]}"#), "a"), vec!["x", "y"]);
    assert!(text_list(&json(r#"{"a": ["x", 1]}"#), "a").is_empty());
    assert!(config_defaults(&vec![json(r#"{"target_table": ""}"#)], vec![]).is_none());
}

fn merge_body() -> MergeBody {
    MergeBody {
        dict_code: "supplier".to_string(),
        master_id: 1,
        victim_ids: vec![2, 3],
        merge_id: None,
        target_table: "".to_string(),
        survive_fields: vec![],
        survivorship: Some(object(r#"{"name": "latest"}"#)),
        overrides: None,
        scan_id: Some(44),
    }
}

fn input() -> MergeInput {
    MergeInput { operated_by: 7, group_id: 50, audit_id: 60, event_id: "e70".to_string() }
}

fn create(stage: CreateStage, event: CreateEvent) -> (CreateStage, CreateAction) {
    mdm_merge_requests_create(&input(), stage, event)
}

#[test]
fn a_merge_is_carried_out_step_by_step() {
    let (stage, a) = create(CreateStage::Start(merge_body()), CreateEvent::Begin);
    assert!(matches!(a, CreateAction::Query(s) if s.sql.contains("FROM md_match_config")));
    let rule = json(r#"{"target_table": "cm_supplier", "survive_fields": "[\"name\"]"}"#);
    let (stage, a) = create(stage, CreateEvent::Rows(vec![rule]));
    assert!(matches!(a, CreateAction::Query(s) if s.sql.starts_with("SELECT line_mappings")));
    let mappings = json(
        r#"{"line_mappings": [{"targetTable": "cm_x", "parentIdField": "p"},
                              {"targetTable": "cm_y", "parentIdField": "p", "targetDict": "y"}]}"#,
    );
    let (stage, a) = create(stage, CreateEvent::Rows(vec![mappings]));
    assert!(matches!(a, CreateAction::ReadKeys(d) if d == "y"));
    let (stage, a) = create(stage, CreateEvent::Keys(Some(vec![names(&["p", "no"])])));
    match a {
        CreateAction::Execute(s) => assert_eq!(
            params(&s),
            vec!["50", "'supplier'", "'merge:1'", "json:[1,2,3]", "1", "100", "'automerge'", "'pending'"]
        ),
        other => panic!("{other:?}"),
    }
    let (stage, a) = create(stage, CreateEvent::Changed(1));
    match a {
        CreateAction::Merge(q) => {
            assert_eq!((q.match_group_id, q.operated_by, q.audit_id), (50, 7, 60));
            assert_eq!(q.head_table, "cm_supplier");
            assert_eq!(q.survive_fields, vec!["name"]);
            assert_eq!(q.rules, vec![("name".to_string(), SurvivorRule::Latest)]);
            assert!(q.line_tables[0].dedup_keys.is_empty());
            assert_eq!(q.line_tables[1].dedup_keys, vec!["no"]);
        }
        other => panic!("{other:?}"),
    }
    let stats = MergeStats { master_id: 1, reparented_total: 4, deduped_total: 2 };
    let (stage, a) = create(stage, CreateEvent::Merged(stats));
    match a {
        CreateAction::Execute(s) => assert_eq!(params(&s), vec!["'resolved'", "44", "'pending'", "7"]),
        other => panic!("{other:?}"),
    }
    let (_, a) = create(stage, CreateEvent::Failed("down".to_string()));
    match a {
        CreateAction::Answer(v) => is(
            &v,
            r#"{"masterId": 1, "matchGroupId": 50, "reparentedTotal": 4, "dedupedTotal": 2}"#,
        ),
        other => panic!("{other:?}"),
    }
}

fn create_fault(b: MergeBody) -> String {
    let (stage, a) = create(CreateStage::Start(b), CreateEvent::Begin);
    let (stage, a) = match a {
        CreateAction::Query(s) if s.sql.contains("md_match_config") => {
            create(stage, CreateEvent::Rows(vec![]))
        }
        other => (stage, other),
    };
    match a {
        CreateAction::Fail(e) => return e,
        CreateAction::Query(_) => {}
        other => panic!("{other:?}"),
    }
    match create(stage, CreateEvent::Rows(vec![])).1 {
        CreateAction::Fail(e) => e,
        other => panic!("{other:?}"),
    }
}

#[test]
fn a_merge_needs_a_table_and_known_rules() {
    assert_eq!(create_fault(merge_body()), "target_table 不能为空（body 未传且 match_config 无配置）");
    let mut b = merge_body();
    b.target_table = "cm_supplier".to_string();
    b.merge_id = Some(9);
    b.survivorship = Some(object(r#"{"name": "victim"}"#));
    assert_eq!(
        create_fault(b),
        "字段 name 的 survivorship 规则 Some(\"victim\") 不合法（master/fullest/latest；选 victim/手填请走 overrides）"
    );
    assert_eq!(
        survivor_rules(&object(r#"{"a": 1}"#)).unwrap_err(),
        "字段 a 的 survivorship 规则 None 不合法（master/fullest/latest；选 victim/手填请走 overrides）"
    );
    let r = survivor_rules(&object(r#"{"a": "fullest", "b": "master"}"#)).unwrap();
    assert_eq!(r[0].1, SurvivorRule::Fullest);
    assert_eq!(r[1].1, SurvivorRule::MasterFirst);
}

#[test]
fn lists_of_merge_requests() {
    let mut q = MergeListQuery {
        dict_code: Some("d".to_string()),
        status: None,
        exclude_pending: None,
        page: 1,
        page_size: 10,
        kw: None,
    };
    match mdm_merge_requests_list(&q, None) {
        MergeListPlan::Query(p) => assert_eq!(params(&p.count), vec!["'d'", "'pending'"]),
        other => panic!("{other:?}"),
    }
    match mdm_merge_requests_list(&q, Some(&vec![])) {
        MergeListPlan::Empty(v) => is(&v, r#"{"list": [], "total": 0, "page": 1, "pageSize": 10}"#),
        other => panic!("{other:?}"),
    }
    q.exclude_pending = Some("false".to_string());
    match mdm_merge_requests_list(&q, Some(&vec![4])) {
        MergeListPlan::Query(p) => assert_eq!(params(&p.count), vec!["'d'", "4", "4"]),
        other => panic!("{other:?}"),
    }
    assert!(excludes_pending(Some("no")) && !excludes_pending(Some("0")));
    assert_eq!(name_search(Some(" 华 "), Some("d")), Some("华".to_string()));
    assert_eq!(name_search(Some(" "), Some("d")), None);
    assert_eq!(name_search(Some("x"), None), None);
}

#[test]
fn groups_get_the_names_of_their_records() {
    let groups = vec![
        json(r#"{"dict_code": "d", "master_id": 1, "member_ids": "[1, 2]"}"#),
        json(r#"{"dict_code": "", "master_id": 0, "member_ids": null}"#),
    ];
    assert_eq!(dicts_of_groups(&groups), vec!["d"]);
    assert_eq!(ids_of_dict(&groups, "d"), vec![1, 1, 2]);
    assert_eq!(member_list(&groups[0]), vec![1, 2]);
    let mut found = Vec::new();
    push_names(&mut found, "d", &vec![record(1, r#"{"name": "甲", "code": "C1"}"#)]);
    let named = enrich_group_names(&groups, &found);
    is(
        &named[0],
        r#"{"dict_code": "d", "master_id": 1, "member_ids": "[1, 2]", "masterName": "甲", "masterCode": "C1",
            "memberNames": [{"id": 1, "name": "甲", "code": "C1"}, {"id": 2, "name": "", "code": ""}]}"#,
    );
    is(&named[1], r#"{"dict_code": "", "master_id": 0, "member_ids": null, "memberNames": []}"#);
}

#[test]
fn one_merge_request() {
    let g = json(r#"{"dict_code": "d", "master_id": 1, "member_ids": "[1, 2, 3]", "survivorship_log": "{}"}"#);
    let p = group_parts(Some(g), 8).unwrap();
    assert_eq!((p.dict_code.as_str(), p.master_id, &p.victim_ids), ("d", 1, &vec![2, 3]));
    let v = mdm_merge_request_detail(
        p.group,
        &vec![record(1, r#"{"id": 1}"#)],
        &vec![record(2, r#"{"id": 2}"#)],
    );
    is(
        &v,
        r#"{"group": {"dict_code": "d", "master_id": 1, "member_ids": [1, 2, 3], "survivorship_log": {}},
            "master": {"id": 1}, "victims": [{"id": 2}]}"#,
    );
    assert_eq!(group_parts(None, 8).unwrap_err(), "合并请求 8 不存在");
    assert_eq!(group_parts(Some(json("{}")), 8).unwrap_err(), "合并记录 dict_code 缺失");
    assert_eq!(params(&reject_transition(8)), vec!["'rejected'", "8", "'pending'"]);
    assert_eq!(reject_trace(8, 0, 7, None).unwrap_err(), "group 8 非 pending，不可驳回");
    assert_eq!(
        params(&reject_trace(8, 1, 7, Some("no")).unwrap()),
        vec!["'rejected'", "json:{\"reason\":\"no\",\"rejected_by\":7}", "null:int", "8"]
    );
    is(&mdm_merge_request_reject(8), r#"{"mergeId": 8, "status": "rejected"}"#);
    let u = undo_parts(Some(&json(r#"{"dict_code": "d", "master_id": 1, "member_ids": "[1, 4, 5]"}"#)), 8)
        .unwrap();
    assert_eq!((u.master_id, u.victim_id), (1, 4));
    is(&mdm_merge_requests_undo(&u), r#"{"masterId": 1, "victimId": 4, "status": "unmerged"}"#);
    assert_eq!(undo_parts(None, 8).unwrap_err(), "合并请求 8 不存在");
}

fn gov_query() -> GovListQuery {
    GovListQuery {
        dict_code: Some("d".to_string()),
        record_id: None,
        since: Some(5),
        order: None,
        target_sys: None,
        channel: None,
        active: Some(true),
        page: 1,
        page_size: 2,
    }
}

#[test]
fn pages_of_events_say_where_to_go_on() {
    let list = vec![json(r#"{"seq": 7}"#), json(r#"{"seq": 6}"#)];
    is(
        &mdm_events_list(list, 3, &gov_query()),
        r#"{"list": [{"seq": 7}, {"seq": 6}], "total": 3, "page": 1, "pageSize": 2, "nextSince": 7,
            "hasMore": true}"#,
    );
    is(
        &mdm_events_list(vec![], 2, &gov_query()),
        r#"{"list": [], "total": 2, "page": 1, "pageSize": 2, "nextSince": 5, "hasMore": false}"#,
    );
    is(
        &subscription_query(&gov_query()),
        r#"{"targetSys": null, "dictCode": "d", "channel": null, "active": true, "page": 1, "pageSize": 2}"#,
    );
}

#[test]
fn secrets_are_hidden_and_survive() {
    let stored = json(r#"{"id": 3, "channel_config": {"url": "u", "secret": "s3"}}"#);
    let mut shown_sub = stored.clone();
    mask_secret(&mut shown_sub);
    is(&shown_sub, r#"{"id": 3, "channel_config": {"url": "u", "secret": "***"}}"#);
    assert_eq!(kept_secret_of(&shown_sub), Some(3));
    assert_eq!(kept_secret_of(&stored), None);
    keep_secret_if_masked(&mut shown_sub, &stored);
    assert!(same_json(&shown_sub, &stored));
    let page = mdm_subscriptions_list(
        &vec![json(r#"{"id": 3, "channel_config": "{\"secret\": \"s3\"}"}"#)],
        1,
        &gov_query(),
    );
    is(
        &page,
        r#"{"list": [{"id": 3, "channel_config": {"secret": "***"}}], "total": 1, "page": 1, "pageSize": 2}"#,
    );
}

#[test]
fn subscriptions_are_checked_before_they_are_saved() {
    assert_eq!(
        check_subscription(&json(r#"{"target_sys": " ", "dict_code": "d"}"#)).unwrap_err(),
        "target_sys / dict_code 不能为空"
    );
    assert_eq!(check_subscription(&json(r#"{"target_sys": "E", "dict_code": "d"}"#)).unwrap(), "webhook");
    assert!(check_channel("rest_pull", false).is_ok() && check_channel("fax", true).is_ok());
    assert_eq!(check_channel("fax", false).unwrap_err(), "通道 fax 未注册或未启用");
    let body = json(r#"{"target_sys": "E", "dict_code": "d", "channel": "webhook"}"#);
    let d = draft_subscription(body.clone(), None).unwrap();
    let w = mdm_subscriptions_save(d, true, None, Some("u1"), 55).unwrap();
    assert_eq!(w.id, 55);
    assert_eq!(params(&w.statement)[14], "'u1'");
    let d = draft_subscription(body, None).unwrap();
    assert_eq!(mdm_subscriptions_save(d, true, Some("bad url"), None, 55).unwrap_err(), "bad url");
    assert_eq!(required_id(&json("{}")).unwrap_err(), "id 不能为空");
    assert_eq!(mdm_subscriptions_delete(3, None).unwrap_err(), "订阅 3 不存在");
    assert_eq!(
        mdm_subscriptions_delete(3, Some(&json(r#"{"active": true}"#))).unwrap_err(),
        "订阅启用中，请先停用再删除（投递流水将保留审计）"
    );
    assert!(mdm_subscriptions_delete(3, Some(&json("{}"))).is_ok());
    assert_eq!(params(&activate_subscription(&json(r#"{"id": 3}"#)).unwrap()), vec!["true", "3"]);
    is(&mdm_subscriptions_set_active(3, 1).unwrap(), r#"{"updated": 1}"#);
    assert_eq!(mdm_subscriptions_set_active(3, 0).unwrap_err(), "订阅 3 不存在");
    is(&count_answer("deleted", 2), r#"{"deleted": 2}"#);
    is(&mdm_publish(&vec![1, 0, 1]), r#"{"created": 2}"#);
    is(&mdm_publish(&vec![]), r#"{"created": 0}"#);
    is(&id_answer("id", 2), r#"{"id": 2}"#);
}

#[test]
fn subscriptions_are_tested() {
    let stored = json(r#"{"channel": "webhook", "channel_config": {"url": "u"}, "timeout_ms": 9}"#);
    let t = test_target(&json(r#"{"id": 3}"#), Some(&stored)).unwrap();
    assert_eq!(t.channel, "webhook");
    is(&t.config, r#"{"url": "u", "timeout_ms": 9}"#);
    assert_eq!(test_target(&json(r#"{"id": 3}"#), None).unwrap_err(), "订阅 3 不存在");
    let t = test_target(&json(r#"{"channel": "fax", "channel_config": {"secret": "***"}}"#), None).unwrap();
    assert_eq!(check_test(&t, false).unwrap_err(), "通道 fax 未注册或未启用");
    assert_eq!(check_test(&t, true).unwrap_err(), "secret 为掩码值，请重新填写或改用已保存订阅测试");
    is(&mdm_subscriptions_test(None, 12), r#"{"ok": true, "detail": "连接成功", "latencyMs": 12}"#);
    is(&mdm_subscriptions_test(Some("no"), 3), r#"{"ok": false, "detail": "no", "latencyMs": 3}"#);
    is(
        &mdm_subscriptions_channels(&names(&["webhook"])),
        r#"{"list": [{"type": "webhook", "label": "webhook"}, {"type": "rest_pull", "label": "rest_pull"}]}"#,
    );
}

#[test]
fn deliveries_and_snapshots() {
    is(
        &mdm_dispatches_query(&json("{}"), vec![], 0),
        r#"{"list": [], "total": 0, "page": 1, "pageSize": 20}"#,
    );
    assert_eq!(mdm_dispatches_detail(4, None).unwrap_err(), "投递实例 4 不存在");
    assert_eq!(mdm_dispatches_skip(&json(r#"{"ids": []}"#)).unwrap_err(), "ids 不能为空");
    assert_eq!(params(&mdm_dispatches_skip(&json(r#"{"ids": [3]}"#)).unwrap()), vec!["3"]);
    assert_eq!(mdm_events_ack(&json("{}"), 1).unwrap_err(), "seq 不能为空");
    assert_eq!(
        mdm_events_ack(&json(r#"{"seq": 1, "consumerId": "c"}"#), 1).unwrap_err(),
        "consumerId / dictCode 不能为空"
    );
    assert!(mdm_events_ack(&json(r#"{"seq": 1, "consumerId": "c", "dictCode": "d"}"#), 1).is_ok());
    assert_eq!(snapshot_dict(&json(r#"{"dictCode": " "}"#)).unwrap_err(), "dictCode 不能为空");
    assert_eq!(unknown_dict("d"), "字典 d 的 DCT 元数据不存在");
    let p = snapshot_page("cm_x", &json(r#"{"updatedFrom": "2026-01-01", "updatedTo": "2026-02-01", "page": 2}"#));
    check(
        &p.list,
        "SELECT * FROM cm_x WHERE lifecycle_status = 'published' AND update_time >= $1::text::timestamptz \
         AND update_time < ($2::text::timestamptz) + interval '1 day' ORDER BY update_time DESC, id DESC \
         LIMIT $3 OFFSET $4",
        &["'2026-01-01'", "'2026-02-01'", "20", "20"],
    );
    assert_eq!(params(&snapshot_max_seq("d")), vec!["'d'"]);
    assert_eq!((read_max_seq(&vec![json(r#"{"m": 9}"#)]), read_max_seq(&vec![])), (9, 0));
    is(
        &mdm_records_snapshot(&json(r#"{"page": -1}"#), vec![], 0, 9),
        r#"{"list": [], "total": 0, "page": 1, "pageSize": 20, "maxSeq": 9}"#,
    );
}

#[test]
fn findings_and_the_workbench() {
    let scan = json(r#"{"dict_code": "d", "member_ids": [1, 2]}"#);
    let p = scan_parts(Some(&scan), 4).unwrap();
    assert_eq!((p.dict_code.as_str(), &p.member_ids), ("d", &vec![1, 2]));
    assert_eq!(scan_parts(None, 4).unwrap_err(), "发现项 4 不存在");
    is(
        &mdm_match_scan_detail(scan, &vec![record(1, r#"{"id": 1}"#)]),
        r#"{"scan": {"dict_code": "d", "member_ids": [1, 2]}, "members": [{"id": 1}]}"#,
    );
    assert_eq!(params(&ignore_scan(4, 7)), vec!["'ignored'", "4", "'pending'", "7"]);
    is(&mdm_match_scan_ignore(4, 1).unwrap(), r#"{"scanId": 4, "status": "ignored"}"#);
    assert_eq!(mdm_match_scan_ignore(4, 0).unwrap_err(), "发现项 4 非 pending，不可忽略");
    is(
        &mdm_workbench_summary(
            Some("d"),
            &vec![json(r#"{"status": "pending", "c": 2}"#)],
            &vec![json(r#"{"status": "reviewed", "c": 1}"#)],
        ),
        r#"{"dictCode": "d", "findings": {"pending": 2}, "merges": {"reviewed": 1}}"#,
    );
    is(&mdm_activations_save("a"), r#"{"activationCode": "a"}"#);
    is(&mdm_activations_delete("a", 1), r#"{"activationCode": "a", "affected": 1}"#);
    is(&mdm_match_configs_delete(4, 1), r#"{"configId": 4, "affected": 1}"#);
}
