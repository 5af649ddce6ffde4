//! Change requests and their approvals.

use cmx_mdm::distribution::channels::sign_body;
use cmx_mdm::flow::{
    flow_cfg, is_already_done, manual_override_guard, start_instance, text_column, FlowCfg,
    FlowSettings, MDM_BIZ_TABLE,
};
use cmx_mdm::handlers::cr::{find_apply_task, mdm_cr_submit, SubmitInput, SubmitStage};
use cmx_mdm::handlers::flow_cb::{
    id_list, mdm_cr_flow_history, mdm_cr_flow_status, mdm_cr_withdraw, mdm_flow_callback,
    sync_flow_result_with, EventAction, StatusStage, SyncInput, SyncStage, WithdrawStage,
};
use cmx_mdm::handlers::flow_step::{FlowAction, FlowEvent};
use cmx_mdm::handlers::review::{
    bearer_token, check_action, check_applicant, check_reviewer, context_head, locate_apply_task,
    locate_open_task, locate_review_task, mdm_cr_review, mdm_cr_review_context, read_cr_status,
    LocateAction, LocateInput, LocateStage, Located,
};
use cmx_mdm::json::{same_json, Json, Number, Object};
use cmx_mdm::sql::{SqlValue, Statement};

/// The library's value for a JSON text.
fn json(text: &str) -> Json {
    let v: serde_json::Value = serde_json::from_str(text).unwrap();
    of_serde(&v)
}

fn of_serde(v: &serde_json::Value) -> Json {
    match v {
        serde_json::Value::Null => Json::Null,
        serde_json::Value::Bool(b) => Json::Bool(*b),
        serde_json::Value::Number(n) => match (n.as_u64(), n.as_i64()) {
            (Some(u), _) => Json::Num(Number::PosInt(u)),
            (_, Some(i)) => Json::Num(Number::NegInt(i)),
            _ => Json::Num(Number::Float(n.to_string())),
        },
        serde_json::Value::String(s) => Json::Str(s.clone()),
        serde_json::Value::Array(a) => Json::Arr(a.iter().map(of_serde).collect()),
        serde_json::Value::Object(o) => {
            let mut r = Object::new();
            for (k, x) in o {
                r.insert(k.clone(), of_serde(x));
            }
            Json::Obj(r)
        }
    }
}

fn object(text: &str) -> Object {
    match json(text) {
        Json::Obj(o) => o,
        other => panic!("not an object: {other:?}"),
    }
}

fn is(v: &Json, text: &str) {
    assert!(same_json(v, &json(text)), "{v:?}");
}

fn rows(r: &[&str]) -> FlowEvent {
    FlowEvent::Rows(r.iter().map(|t| json(t)).collect())
}

fn failure(a: FlowAction) -> String {
    match a {
        FlowAction::Fail(e) => e,
        other => panic!("no failure: {other:?}"),
    }
}

fn executed(a: FlowAction) -> Statement {
    match a {
        FlowAction::Execute(s) => s,
        other => panic!("no statement: {other:?}"),
    }
}

fn first_text(s: &Statement) -> String {
    match &s.params[0] {
        SqlValue::Text(t) => t.clone(),
        other => panic!("no text: {other:?}"),
    }
}

/// The state that a claim moves a change request to.
fn claimed(a: FlowAction) -> String {
    let s = executed(a);
    match &s.params[s.params.len() - 2] {
        SqlValue::Text(t) => t.clone(),
        other => panic!("no text: {other:?}"),
    }
}

#[test]
fn flow_settings() {
    let none = FlowSettings { definition_key: None, webhook_secret: None, manual_override_enabled: None };
    let d = flow_cfg(&none);
    assert_eq!((d.definition_key.as_str(), d.webhook_secret.as_str()), ("mdm_cr_approval", ""));
    assert_eq!(
        manual_override_guard(&d).unwrap_err(),
        "流程审批模式已启用，手动端点已关闭（[mdm.flow].manual_override_enabled）"
    );
    let c = flow_cfg(&FlowSettings {
        definition_key: Some(" k ".to_string()),
        webhook_secret: Some(" s ".to_string()),
        manual_override_enabled: Some("1".to_string()),
    });
    assert_eq!((c.definition_key.as_str(), c.webhook_secret.as_str()), ("k", " s "));
    assert!(manual_override_guard(&c).is_ok());
    assert_eq!(FlowCfg::default().definition_key, "mdm_cr_approval");
    assert!(is_already_done(true, "x TaskNotActionable") && is_already_done(true, "任务不可办"));
    assert!(!is_already_done(false, "TaskNotActionable") && !is_already_done(true, "other"));
}

#[test]
fn an_approval_is_started_with_its_document() {
    let head = object(r#"{"create_by": 77, "doc_no": "CR-1", "subject_name": "甲", "cr_type": null}"#);
    assert_eq!(text_column(&head, "create_by"), "77");
    let r = start_instance(&head, 5, Some(" 张三 "), "k");
    assert_eq!((r.business_key.as_str(), r.biz_id.as_str(), r.role.as_str()), ("CR-1", "5", "approval"));
    assert_eq!(r.biz_table, MDM_BIZ_TABLE);
    is(
        &r.variables,
        r#"{"initiator": "77", "docNo": "CR-1", "docType": "", "targetDictCode": "", "crType": "",
            "subjectName": "甲", "bizTable": "cv_mdm_apply", "bizId": "5", "initiatorName": "张三"}"#,
    );
    assert!(start_instance(&head, 5, Some("  "), "k").variables.get("initiatorName").is_none());
}

#[test]
fn callbacks_are_signed_json() {
    let body = br#"{"event": "instance.completed", "instanceId": "i1", "definitionKey": "k"}"#;
    let sig = sign_body("s", body);
    let p = mdm_flow_callback("s", body, Some(&sig), "k").unwrap();
    assert_eq!((p.action, p.instance_id.as_str()), (EventAction::SyncCompleted, "i1"));
    assert_eq!(mdm_flow_callback("s", body, None, "k").unwrap_err(), "webhook 签名校验失败");
    let text = b"no json";
    let e = mdm_flow_callback("s", text, Some(&sign_body("s", text)), "k").unwrap_err();
    assert!(e.starts_with("webhook 载荷非 JSON: expected"), "{e}");
}

fn sync_input(event: &str, state: Option<&str>) -> SyncInput {
    SyncInput {
        instance_id: "i1".to_string(),
        event: event.to_string(),
        payload_state: state.map(|s| s.to_string()),
        definition_key: String::new(),
        expected_key: "k".to_string(),
    }
}

fn synced_to_instances(i: &SyncInput) -> SyncStage {
    let (stage, a) = sync_flow_result_with(i, SyncStage::Start, FlowEvent::Begin);
    assert!(matches!(a, FlowAction::ReadLinks(x) if x == "i1"));
    let (stage, a) = sync_flow_result_with(
        i,
        stage,
        rows(&[r#"{"bizTable": "other"}"#, r#"{"bizTable": "cv_mdm_apply", "bizId": "5"}"#]),
    );
    assert!(matches!(a, FlowAction::ReadInstances(5)));
    stage
}

#[test]
fn an_approval_that_passed_is_activated() {
    let i = sync_input("completed", None);
    let (stage, a) = sync_flow_result_with(
        &i,
        synced_to_instances(&i),
        rows(&[r#"{"instanceId": "i1"}"#, r#"{"instanceId": "i0"}"#]),
    );
    assert!(matches!(a, FlowAction::ReadVariables(x) if x == "i1"));
    let (stage, a) = sync_flow_result_with(&i, stage, FlowEvent::Value(json(r#"{"lastDecision": "approve"}"#)));
    assert_eq!(claimed(a), "activating");
    let (stage, a) = sync_flow_result_with(&i, stage, FlowEvent::Changed(1));
    assert!(matches!(a, FlowAction::Activate(5)));
    let (stage, a) = sync_flow_result_with(&i, stage, FlowEvent::Failed("boom".to_string()));
    assert_eq!(claimed(a), "approving");
    let (_, a) = sync_flow_result_with(&i, stage, FlowEvent::Changed(1));
    assert_eq!(failure(a), "激活失败: boom");
}

#[test]
fn an_approval_that_was_rejected_or_cancelled_is_noted() {
    let i = sync_input("completed", None);
    let (stage, _) =
        sync_flow_result_with(&i, synced_to_instances(&i), rows(&[r#"{"instanceId": "i1"}"#]));
    let (_, a) = sync_flow_result_with(&i, stage, FlowEvent::Value(json(r#"{"lastDecision": "reject"}"#)));
    assert_eq!(claimed(a), "rejected");
    let i = sync_input("terminated", Some("TERMINATED"));
    let (_, a) =
        sync_flow_result_with(&i, synced_to_instances(&i), rows(&[r#"{"instanceId": "i1"}"#]));
    assert_eq!(claimed(a), "aborted");
    let i = sync_input("terminated", Some("COMPLETED"));
    let (_, a) =
        sync_flow_result_with(&i, synced_to_instances(&i), rows(&[r#"{"instanceId": "i1"}"#]));
    assert!(matches!(a, FlowAction::Finish));
    let i = sync_input("odd", None);
    let (_, a) =
        sync_flow_result_with(&i, synced_to_instances(&i), rows(&[r#"{"instanceId": "i1"}"#]));
    assert_eq!(failure(a), "不支持的事件类型: odd");
}

#[test]
fn late_and_foreign_events_change_nothing() {
    let i = sync_input("completed", None);
    let (_, a) = sync_flow_result_with(&i, synced_to_instances(&i), rows(&[r#"{"instanceId": "i2"}"#]));
    assert!(matches!(a, FlowAction::Finish));
    let mut foreign = sync_input("completed", None);
    foreign.definition_key = "pay".to_string();
    let (_, a) = sync_flow_result_with(&foreign, SyncStage::Start, FlowEvent::Begin);
    assert!(matches!(a, FlowAction::Finish));
    let (stage, _) = sync_flow_result_with(&i, SyncStage::Start, FlowEvent::Begin);
    let (_, a) = sync_flow_result_with(&i, stage, rows(&[]));
    assert!(matches!(a, FlowAction::Finish));
    let (stage, _) = sync_flow_result_with(&i, SyncStage::Start, FlowEvent::Begin);
    let (_, a) = sync_flow_result_with(&i, stage, rows(&[r#"{"bizTable": "cv_mdm_apply", "bizId": "x"}"#]));
    assert_eq!(failure(a), "bizId 非法: Some(String(\"x\"))");
}

fn submit_input() -> SubmitInput {
    SubmitInput { cr_id: 5, initiator_name: None, definition_key: "k".to_string() }
}

fn submit_to_orphans(from: &str) -> SubmitStage {
    let i = submit_input();
    let (stage, a) = mdm_cr_submit(&i, SubmitStage::Start, FlowEvent::Begin);
    assert!(matches!(a, FlowAction::Query(_)));
    let head = format!(r#"{{"doc_status": "{from}", "create_by": "u1"}}"#);
    let (stage, a) = mdm_cr_submit(&i, stage, rows(&[&head]));
    let claim = executed(a);
    assert_eq!(
        claim.sql,
        "UPDATE cv_mdm_apply SET doc_status = $2, update_time = now() WHERE id = $3 \
         AND doc_status IN ($1)"
    );
    assert_eq!(first_text(&claim), from);
    let (stage, _) = mdm_cr_submit(&i, stage, FlowEvent::Changed(1));
    let (stage, a) =
        mdm_cr_submit(&i, stage, rows(&[r#"{"doc_status": "approving", "create_by": "u1"}"#]));
    assert!(matches!(a, FlowAction::ReadInstances(5)));
    stage
}

#[test]
fn a_change_request_is_submitted() {
    let i = submit_input();
    let (stage, a) = mdm_cr_submit(&i, submit_to_orphans("draft"), rows(&[r#"{"state": "COMPLETED"}"#]));
    assert!(matches!(a, FlowAction::Start(_)));
    let view = json(r#"{"instanceId": "i1", "tasks": [{"id": "t1", "nodeBpmnId": "Task_APPLY"}]}"#);
    assert_eq!(find_apply_task(&view), Some("t1".to_string()));
    let (stage, a) = mdm_cr_submit(&i, stage, FlowEvent::Value(view));
    assert!(matches!(a, FlowAction::CompleteApply(t, n, o) if t == "t1" && n == "i1" && o == "u1"));
    let (_, a) = mdm_cr_submit(&i, stage, FlowEvent::Failed("x".to_string()));
    match a {
        FlowAction::Answer(v) => is(&v, r#"{"crId": 5, "status": "approving", "instanceId": "i1"}"#),
        other => panic!("{other:?}"),
    }
    let done = json(r#"{"tasks": [{"id": "t1", "node": "apply", "completed": true}]}"#);
    assert_eq!(find_apply_task(&done), None);
}

#[test]
fn a_submission_that_fails_is_rolled_back() {
    let i = submit_input();
    let (stage, _) = mdm_cr_submit(&i, SubmitStage::Start, FlowEvent::Begin);
    let (stage, _) = mdm_cr_submit(&i, stage, rows(&[r#"{"doc_status": "draft"}"#]));
    assert_eq!(failure(mdm_cr_submit(&i, stage, FlowEvent::Changed(0)).1), "单据状态已变更，请刷新后重试");
    let (stage, _) = mdm_cr_submit(&i, SubmitStage::Start, FlowEvent::Begin);
    let (_, a) = mdm_cr_submit(&i, stage, rows(&[r#"{"doc_status": "approving"}"#]));
    assert_eq!(failure(a), "单据状态已变更，请刷新后重试");
    for from in ["draft", "rejected"] {
        let (stage, a) = mdm_cr_submit(&i, submit_to_orphans(from), rows(&[r#"{"state": "ACTIVE"}"#]));
        assert_eq!(first_text(&executed(a)), from);
        assert_eq!(
            failure(mdm_cr_submit(&i, stage, FlowEvent::Changed(1)).1),
            "存在未终结的流程实例，请联系管理员处理（运维台取消后重提）"
        );
        let (stage, _) = mdm_cr_submit(&i, submit_to_orphans(from), FlowEvent::Failed("?".to_string()));
        let (stage, a) = mdm_cr_submit(&i, stage, FlowEvent::Failed("down".to_string()));
        assert_eq!(first_text(&executed(a)), from);
        assert_eq!(failure(mdm_cr_submit(&i, stage, FlowEvent::Changed(1)).1), "发起审批流程失败: down");
    }
}

fn withdraw_to_instances(user: &str) -> (WithdrawStage, FlowAction) {
    let (stage, _) = mdm_cr_withdraw(5, Some(user), WithdrawStage::Start, FlowEvent::Begin);
    mdm_cr_withdraw(5, Some(user), stage, rows(&[r#"{"doc_status": "approving", "create_by": "u1"}"#]))
}

#[test]
fn a_change_request_is_taken_back_by_whoever_made_it() {
    assert_eq!(failure(withdraw_to_instances("u2").1), "仅申请人可撤回");
    let (stage, a) = withdraw_to_instances("u1");
    assert!(matches!(a, FlowAction::ReadInstances(5)));
    let (stage, a) =
        mdm_cr_withdraw(5, Some("u1"), stage, rows(&[r#"{"state": "ACTIVE", "instanceId": "i1"}"#]));
    assert!(matches!(a, FlowAction::Cancel(i, r) if i == "i1" && r == "申请人撤回"));
    let (stage, a) = mdm_cr_withdraw(5, Some("u1"), stage, FlowEvent::Done);
    assert_eq!(first_text(&executed(a)), "draft");
    match mdm_cr_withdraw(5, Some("u1"), stage, FlowEvent::Changed(1)).1 {
        FlowAction::Answer(v) => is(&v, r#"{"crId": 5, "status": "draft"}"#),
        other => panic!("{other:?}"),
    }
    let (stage, _) = withdraw_to_instances("u1");
    let (stage, a) =
        mdm_cr_withdraw(5, Some("u1"), stage, rows(&[r#"{"state": "COMPLETED", "instanceId": "i1"}"#]));
    assert!(matches!(a, FlowAction::Sync(i, e, Some(s)) if i == "i1" && e == "completed" && s == "COMPLETED"));
    assert_eq!(
        failure(mdm_cr_withdraw(5, Some("u1"), stage, FlowEvent::Done).1),
        "流程已办结/已终止，不可撤回"
    );
    let (stage, _) = withdraw_to_instances("u1");
    assert_eq!(failure(mdm_cr_withdraw(5, Some("u1"), stage, rows(&[])).1), "无流程实例，无需撤回");
}

#[test]
fn the_state_of_an_approval_heals_the_change_request() {
    assert_eq!(id_list("1, 2,x, -3"), vec![1, 2, -3]);
    let head = |s: &str| {
        let (stage, _) = mdm_cr_flow_status(5, StatusStage::Start, FlowEvent::Begin);
        mdm_cr_flow_status(5, stage, rows(&[&format!(r#"{{"doc_status": "{s}"}}"#)]))
    };
    let empty = r#"{"crId": 5, "instanceId": null, "state": null}"#;
    match head("draft").1 {
        FlowAction::Answer(v) => is(&v, empty),
        other => panic!("{other:?}"),
    }
    let (stage, a) = mdm_cr_flow_status(5, head("approving").0, rows(&[]));
    assert!(matches!(a, FlowAction::Query(s) if s.sql.contains("interval '1 second'")));
    let (stage, a) = mdm_cr_flow_status(5, stage, rows(&[r#"{"c": 1}"#]));
    assert_eq!(claimed(a), "draft");
    match mdm_cr_flow_status(5, stage, FlowEvent::Changed(1)).1 {
        FlowAction::Answer(v) => is(&v, empty),
        other => panic!("{other:?}"),
    }
    let (stage, a) = mdm_cr_flow_status(
        5,
        head("activating").0,
        rows(&[r#"{"instanceId": "i1", "state": "TERMINATED", "businessKey": "b"}"#]),
    );
    assert!(matches!(a, FlowAction::Sync(_, e, Some(s)) if e == "terminated" && s == "TERMINATED"));
    match mdm_cr_flow_status(5, stage, FlowEvent::Failed("x".to_string())).1 {
        FlowAction::Answer(v) => is(
            &v,
            r#"{"crId": 5, "instanceId": "i1", "state": "TERMINATED", "businessKey": "b"}"#,
        ),
        other => panic!("{other:?}"),
    }
    is(
        &mdm_cr_flow_history(&json(r#"{"instanceId": "i1", "state": "ACTIVE"}"#), vec![json("1")]),
        r#"{"instanceId": "i1", "state": "ACTIVE", "businessKey": null, "createdAt": null, "comments": [1]}"#,
    );
}

fn locate(i: &LocateInput, task: &str) -> (LocateStage, LocateAction) {
    let (stage, _) = locate_open_task(i, LocateStage::Start, FlowEvent::Begin);
    let (stage, a) = locate_open_task(
        i,
        stage,
        rows(&[r#"{"state": "COMPLETED"}"#, r#"{"state": "ACTIVE", "instanceId": "i1"}"#]),
    );
    assert!(matches!(a, LocateAction::Ask(FlowAction::ReadDetail(x)) if x == "i1"));
    locate_open_task(i, stage, FlowEvent::Value(json(&format!(r#"{{"tasks": [{task}]}}"#))))
}

fn found(a: LocateAction) -> Located {
    match a {
        LocateAction::Found(l) => l,
        other => panic!("{other:?}"),
    }
}

#[test]
fn a_task_is_done_by_whoever_may() {
    let i = locate_review_task(5, "u1");
    let l = found(locate(&i, r#"{"id": "t1", "nodeBpmnId": "Review_1", "assignee": "u1"}"#).1);
    assert_eq!((l.instance_id.as_str(), l.task_id.as_str(), l.can), ("i1", "t1", true));
    assert!(check_reviewer(&l).is_ok());
    let l = found(locate(&i, r#"{"id": "t1", "nodeBpmnId": "review", "assignee": "u2"}"#).1);
    assert_eq!(check_reviewer(&l).unwrap_err(), "您不是该单据当前环节的审批人（既非办理人也不在候选池）");
    assert_eq!(check_applicant(&l).unwrap_err(), "您不是该单据当前重办环节的办理人（发起人）");
    let (stage, a) = locate(&i, r#"{"id": "t1", "nodeBpmnId": "review"}"#);
    assert!(matches!(a, LocateAction::Ask(FlowAction::ReadClaimable(u)) if u == "u1"));
    let (_, a) = locate_open_task(&i, stage, FlowEvent::Names(vec!["t1".to_string()]));
    assert!(found(a).can);
    let (_, a) = locate(&i, r#"{"id": "t1", "nodeBpmnId": "apply"}"#);
    assert!(matches!(a, LocateAction::Fail(e) if e == "审批任务不存在或已办结"));
    let j = locate_apply_task(5, "");
    assert!(!found(locate(&j, r#"{"id": "t1", "nodeBpmnId": "apply"}"#).1).can);
    let (stage, _) = locate_open_task(&i, LocateStage::Start, FlowEvent::Begin);
    let (_, a) = locate_open_task(&i, stage, rows(&[]));
    assert!(matches!(a, LocateAction::Fail(e) if e == "该单据当前没有进行中的审批流程"));
}

#[test]
fn reviews_are_answered() {
    assert_eq!(bearer_token(Some("Bearer abc")), Some("abc".to_string()));
    assert_eq!(bearer_token(Some("Basic abc")), None);
    assert!(check_action("approve").is_ok() && check_action("reject").is_ok());
    assert_eq!(check_action("maybe").unwrap_err(), "action 仅支持 approve / reject");
    let head = vec![json(r#"{"doc_status": "activated", "create_by": "u1"}"#)];
    assert_eq!(read_cr_status(&head, 5), "activated");
    assert_eq!(read_cr_status(&vec![json(r#"{"doc_status": "draft"}"#)], 5), "");
    is(
        &mdm_cr_review(5, "approve", "i1", &head),
        r#"{"crId": 5, "action": "approve", "status": "activated", "instanceId": "i1"}"#,
    );
    is(
        &mdm_cr_review(5, "reject", "i1", &head),
        r#"{"crId": 5, "action": "reject", "status": "rejected", "instanceId": "i1"}"#,
    );
    is(
        &context_head(Some(&head), 5, "u1").unwrap_err(),
        r#"{"crId": 5, "instanceId": null, "taskId": null, "canReview": false, "canWithdraw": false, "state": null}"#,
    );
    let going = vec![json(r#"{"doc_status": "approving", "create_by": "u1"}"#)];
    assert_eq!(context_head(Some(&going), 5, "u1").unwrap(), true);
    assert_eq!(context_head(Some(&going), 5, "u2").unwrap(), false);
    let apply = Located { instance_id: "i1".to_string(), task_id: "t2".to_string(), can: true };
    is(
        &mdm_cr_review_context(5, true, None, Some(apply)),
        r#"{"crId": 5, "instanceId": "i1", "taskId": null, "canReview": false, "canApply": true,
            "applyTaskId": "t2", "canWithdraw": true, "state": "ACTIVE"}"#,
    );
}
