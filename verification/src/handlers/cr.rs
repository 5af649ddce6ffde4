//! Change requests: how they are submitted, given up and listed.

use crate::distribution::transform::{text_at, text_member};
use crate::flow::{
    column_text, is_open_at, open_at, start_instance, start_of, text_column, StartV,
};
use crate::handlers::flow_cb::{
    checked_head, head_in, head_query, query_head, set_to, status_statement,
};
use crate::handlers::flow_step::{out_of_step, stray_event, FlowAction, FlowActionV, FlowEvent,
    FlowEventV};
use crate::handlers::put;
use crate::json::{
    json_get, json_str, number_of, obj_put, values_view, Json, JsonV, ObjV, Object,
};
use crate::match_algo::{keys_view, opt_text};
use crate::outside::{lowercase, to_lower};
use crate::store::cr_service::{doc_status, head_of, read_cr_head, status_of};
use crate::store::md_accessor::{claim_cr, claim_statement};
use crate::text::same_text;
use vstd::prelude::*;

verus! {

/// A request about one change request.
#[derive(Debug)]
pub struct CrIdBody {
    pub cr_id: i64,
}

/// A request for a page of change requests.
#[derive(Debug)]
pub struct CrListQuery {
    pub doc_status: Option<String>,
    pub doc_type: Option<String>,
    pub keyword: Option<String>,
    pub page: i64,
    pub page_size: i64,
}

/// A request for one change request.
#[derive(Debug)]
pub struct CrDetailQuery {
    pub cr_id: i64,
}

/// The node of a task: under either of two names.
pub open spec fn task_node(t: JsonV) -> Seq<char> {
    match json_get(t, "nodeBpmnId"@) {
        Some(v) => match json_str(Some(v)) {
            Some(s) => s,
            None => Seq::empty(),
        },
        None => text_at(t, "node"@),
    }
}

fn node_of(t: &Json) -> (r: String)
    ensures
        r@ == task_node(t@),
{
    match t.get("nodeBpmnId") {
        Some(v) => match v {
            Json::Str(s) => s.clone(),
            _ => String::new(),
        },
        None => text_member(t, "node"),
    }
}

/// The first open task at the node where a request is confirmed, that has an id.
pub open spec fn apply_task(tasks: Seq<JsonV>) -> Option<Seq<char>>
    decreases tasks.len(),
{
    if tasks.len() == 0 {
        None
    } else if open_at(lowercase(task_node(tasks[0])), tasks[0], "apply"@) && json_str(
        json_get(tasks[0], "id"@),
    ) is Some {
        json_str(json_get(tasks[0], "id"@))
    } else {
        apply_task(tasks.drop_first())
    }
}

/// The tasks of an approval.
pub open spec fn tasks_of(view: JsonV) -> Seq<JsonV> {
    match json_get(view, "tasks"@) {
        Some(JsonV::Arr(a)) => a,
        _ => Seq::empty(),
    }
}

/// The task at which a new approval waits for its maker.
pub fn find_apply_task(view: &Json) -> (r: Option<String>)
    ensures
        opt_text(r) == apply_task(tasks_of(view@)),
{
    let list: Option<&Vec<Json>> = match view.get("tasks") {
        Some(v) => v.as_array(),
        None => None,
    };
    if let Some(a) = list {
        let ghost all = values_view(a@);
        let mut i: usize = 0;
        assert(all.skip(0) =~= all);
        while i < a.len()
            invariant
                i <= a@.len(),
                all == values_view(a@),
                tasks_of(view@) == all,
                apply_task(all) == apply_task(all.skip(i as int)),
            decreases a@.len() - i,
        {
            assert(all.skip(i as int)[0] == a@[i as int]@);
            assert(all.skip(i as int).drop_first() =~= all.skip(i + 1));
            let node = to_lower(node_of(&a[i]).as_str());
            if is_open_at(node.as_str(), &a[i], "apply") {
                if let Some(Json::Str(s)) = a[i].get("id") {
                    return Some(s.clone());
                }
            }
            i += 1;
        }
        assert(all.skip(all.len() as int) =~= Seq::<JsonV>::empty());
    }
    None
}

/// The id of a new approval: under either of two names.
pub open spec fn new_instance(view: JsonV) -> Seq<char> {
    match json_get(view, "id"@) {
        Some(v) => match json_str(Some(v)) {
            Some(s) => s,
            None => Seq::empty(),
        },
        None => text_at(view, "instanceId"@),
    }
}

fn instance_of(view: &Json) -> (r: String)
    ensures
        r@ == new_instance(view@),
{
    match view.get("id") {
        Some(v) => match v {
            Json::Str(s) => s.clone(),
            _ => String::new(),
        },
        None => text_member(view, "instanceId"),
    }
}

/// Whether one of the approvals runs.
pub open spec fn one_runs(instances: Seq<JsonV>) -> bool {
    exists|i: int|
        0 <= i < instances.len() && json_str(json_get(#[trigger] instances[i], "state"@)) == Some(
            "ACTIVE"@,
        )
}

fn some_runs(instances: &Vec<Json>) -> (r: bool)
    ensures
        r == one_runs(values_view(instances@)),
{
    let ghost all = values_view(instances@);
    let mut i: usize = 0;
    while i < instances.len()
        invariant
            i <= instances@.len(),
            all == values_view(instances@),
            forall|k: int|
                0 <= k < i ==> json_str(json_get(#[trigger] all[k], "state"@)) != Some("ACTIVE"@),
        decreases instances@.len() - i,
    {
        assert(all[i as int] == instances@[i as int]@);
        if let Some(Json::Str(s)) = instances[i].get("state") {
            if same_text(s.as_str(), "ACTIVE") {
                return true;
            }
        }
        i += 1;
    }
    false
}

/// What a submission is about: the change request, the name of its maker, where it is known, and
/// the definition that approvals follow.
#[derive(Debug)]
pub struct SubmitInput {
    pub cr_id: i64,
    pub initiator_name: Option<String>,
    pub definition_key: String,
}

/// What a submission waits for.
#[derive(Debug)]
pub enum SubmitStage {
    Start,
    /// The state of the change request before it is claimed.
    State,
    /// The state that it is claimed from, as in the stages below.
    Claiming(String),
    Head(String),
    /// The head of the change request.
    Orphans(String, Object),
    Starting(String, Object),
    /// The id of the approval.
    Confirming(String),
    /// The text of the error that is reported once the change request is back.
    RollingBack(String),
    Over,
}

/// What a stage stands for.
#[verifier::ext_equal]
pub enum SubmitStageV {
    Start,
    State,
    Claiming(Seq<char>),
    Head(Seq<char>),
    Orphans(Seq<char>, ObjV),
    Starting(Seq<char>, ObjV),
    Confirming(Seq<char>),
    RollingBack(Seq<char>),
    Over,
}

impl SubmitStage {
    pub open spec fn view(&self) -> SubmitStageV {
        match *self {
            SubmitStage::Start => SubmitStageV::Start,
            SubmitStage::State => SubmitStageV::State,
            SubmitStage::Claiming(s) => SubmitStageV::Claiming(s@),
            SubmitStage::Head(s) => SubmitStageV::Head(s@),
            SubmitStage::Orphans(s, h) => SubmitStageV::Orphans(s@, h@),
            SubmitStage::Starting(s, h) => SubmitStageV::Starting(s@, h@),
            SubmitStage::Confirming(i) => SubmitStageV::Confirming(i@),
            SubmitStage::RollingBack(m) => SubmitStageV::RollingBack(m@),
            SubmitStage::Over => SubmitStageV::Over,
        }
    }
}

/// A change request with its state and its approval, as they are answered.
pub open spec fn instance_answer(cr_id: i64, status: Seq<char>, instance_id: Seq<char>) -> JsonV {
    JsonV::Obj(
        obj_put(
            obj_put(
                obj_put(Seq::empty(), "crId"@, JsonV::Num(number_of(cr_id))),
                "status"@,
                JsonV::Str(status),
            ),
            "instanceId"@,
            JsonV::Str(instance_id),
        ),
    )
}

/// Answers with a change request, its state and its approval.
pub fn answer_instance(cr_id: i64, status: &str, instance_id: &str) -> (r: Json)
    ensures
        r@ == instance_answer(cr_id, status@, instance_id@),
{
    let o = put(Object::new(), "crId", Json::integer(cr_id));
    let o = put(o, "status", Json::string(status));
    Json::Obj(put(o, "instanceId", Json::string(instance_id)))
}

/// The request to start the approval.
pub open spec fn start_for(i: SubmitInput, head: ObjV) -> StartV {
    start_of(head, i.cr_id, opt_text(i.initiator_name), i.definition_key@)
}

/// The state from which a change request can be submitted: a draft, or one that was rejected.
pub open spec fn submit_state(rows: Seq<JsonV>, cr_id: i64) -> Option<Seq<char>> {
    match head_of(rows, cr_id) {
        Ok(h) => if status_of(h) == "draft"@ || status_of(h) == "rejected"@ {
            Some(status_of(h))
        } else {
            None
        },
        Err(_) => None,
    }
}

/// The failure of a submission whose change request is not, or no longer, in such a state.
pub open spec fn submit_lost() -> (SubmitStageV, FlowActionV) {
    (SubmitStageV::Over, FlowActionV::Fail("单据状态已变更，请刷新后重试"@))
}

/// One step of a submission: a draft, or a request that was rejected, is claimed; no second
/// approval is started beside one that runs; where none can be started the change request is in
/// the state again that it was claimed from; the task at which the approval waits for its maker is done for them, and where
/// that fails it stays open.
pub open spec fn submitted(i: SubmitInput, stage: SubmitStageV, event: FlowEventV) -> (
    SubmitStageV,
    FlowActionV,
) {
    match (stage, event) {
        (SubmitStageV::RollingBack(m), _) => (SubmitStageV::Over, FlowActionV::Fail(m)),
        (SubmitStageV::Confirming(id), _) => (
            SubmitStageV::Over,
            FlowActionV::Answer(instance_answer(i.cr_id, "approving"@, id)),
        ),
        (SubmitStageV::Start, FlowEventV::Begin) => (SubmitStageV::State, head_query(i.cr_id)),
        (SubmitStageV::State, FlowEventV::Rows(rows)) => match submit_state(rows, i.cr_id) {
            Some(from) => (
                SubmitStageV::Claiming(from),
                FlowActionV::Execute(claim_statement(i.cr_id, seq![from], "approving"@)),
            ),
            None => submit_lost(),
        },
        (SubmitStageV::Claiming(from), FlowEventV::Changed(n)) => if n > 0 {
            (SubmitStageV::Head(from), head_query(i.cr_id))
        } else {
            submit_lost()
        },
        (SubmitStageV::Head(from), FlowEventV::Rows(rows)) => match head_in(
            rows,
            i.cr_id,
            "approving"@,
        ) {
            Err(e) => (SubmitStageV::Over, FlowActionV::Fail(e)),
            Ok(h) => (SubmitStageV::Orphans(from, h), FlowActionV::ReadInstances(i.cr_id)),
        },
        (SubmitStageV::Orphans(from, h), FlowEventV::Rows(list)) => if one_runs(list) {
            (
                SubmitStageV::RollingBack(
                    "存在未终结的流程实例，请联系管理员处理（运维台取消后重提）"@,
                ),
                FlowActionV::Execute(status_statement(i.cr_id, from)),
            )
        } else {
            (SubmitStageV::Starting(from, h), FlowActionV::Start(start_for(i, h)))
        },
        (SubmitStageV::Orphans(from, h), FlowEventV::Failed(_)) => (
            SubmitStageV::Starting(from, h),
            FlowActionV::Start(start_for(i, h)),
        ),
        (SubmitStageV::Starting(_, h), FlowEventV::Value(view)) => match apply_task(tasks_of(view)) {
            Some(t) => (
                SubmitStageV::Confirming(new_instance(view)),
                FlowActionV::CompleteApply(
                    t,
                    new_instance(view),
                    column_text(h, "create_by"@),
                ),
            ),
            None => (
                SubmitStageV::Over,
                FlowActionV::Answer(
                    instance_answer(i.cr_id, "approving"@, new_instance(view)),
                ),
            ),
        },
        (SubmitStageV::Starting(from, _), FlowEventV::Failed(m)) => (
            SubmitStageV::RollingBack("发起审批流程失败: "@ + m),
            FlowActionV::Execute(status_statement(i.cr_id, from)),
        ),
        (_, FlowEventV::Failed(m)) => (SubmitStageV::Over, FlowActionV::Fail(m)),
        _ => (SubmitStageV::Over, out_of_step()),
    }
}

fn state_to_submit(rows: &Vec<Json>, cr_id: i64) -> (r: Option<String>)
    ensures
        opt_text(r) == submit_state(values_view(rows@), cr_id),
{
    match read_cr_head(rows, cr_id) {
        Ok(h) => {
            let s = doc_status(&h);
            if same_text(s.as_str(), "draft") || same_text(s.as_str(), "rejected") {
                Some(s)
            } else {
                None
            }
        },
        Err(_) => None,
    }
}

fn claim_for_submit(cr_id: i64, from: &str) -> (r: FlowAction)
    ensures
        r@ == FlowActionV::Execute(claim_statement(cr_id, seq![from@], "approving"@)),
{
    let states = [from];
    let s = claim_cr(cr_id, states.as_slice(), "approving");
    assert(keys_view(states@) =~= seq![from@]);
    FlowAction::Execute(s)
}

fn claim_lost() -> (r: (SubmitStage, FlowAction))
    ensures
        (r.0@, r.1@) == submit_lost(),
{
    (SubmitStage::Over, FlowAction::Fail("单据状态已变更，请刷新后重试".to_owned()))
}

fn ask_to_start(i: &SubmitInput, head: &Object) -> (r: FlowAction)
    ensures
        r@ == FlowActionV::Start(start_for(*i, head@)),
{
    let name: Option<&str> = match &i.initiator_name {
        Some(n) => Some(n.as_str()),
        None => None,
    };
    FlowAction::Start(start_instance(head, i.cr_id, name, i.definition_key.as_str()))
}

fn after_start(i: &SubmitInput, head: &Object, view: &Json) -> (r: (SubmitStage, FlowAction))
    ensures
        forall|from: Seq<char>|
            (r.0@, r.1@) == #[trigger] submitted(
                *i,
                SubmitStageV::Starting(from, head@),
                FlowEventV::Value(view@),
            ),
{
    let id = instance_of(view);
    match find_apply_task(view) {
        Some(t) => (
            SubmitStage::Confirming(id.clone()),
            FlowAction::CompleteApply(t, id, text_column(head, "create_by")),
        ),
        None => (
            SubmitStage::Over,
            FlowAction::Answer(answer_instance(i.cr_id, "approving", id.as_str())),
        ),
    }
}

/// One step of a submission.
pub fn mdm_cr_submit(i: &SubmitInput, stage: SubmitStage, event: FlowEvent) -> (r: (
    SubmitStage,
    FlowAction,
))
    ensures
        (r.0@, r.1@) == submitted(*i, stage@, event@),
{
    match (stage, event) {
        (SubmitStage::RollingBack(m), _) => (SubmitStage::Over, FlowAction::Fail(m)),
        (SubmitStage::Confirming(id), _) => (
            SubmitStage::Over,
            FlowAction::Answer(answer_instance(i.cr_id, "approving", id.as_str())),
        ),
        (SubmitStage::Start, FlowEvent::Begin) => (SubmitStage::State, query_head(i.cr_id)),
        (SubmitStage::State, FlowEvent::Rows(rows)) => match state_to_submit(&rows, i.cr_id) {
            Some(from) => {
                let a = claim_for_submit(i.cr_id, from.as_str());
                (SubmitStage::Claiming(from), a)
            },
            None => claim_lost(),
        },
        (SubmitStage::Claiming(from), FlowEvent::Changed(n)) => if n > 0 {
            (SubmitStage::Head(from), query_head(i.cr_id))
        } else {
            claim_lost()
        },
        (SubmitStage::Head(from), FlowEvent::Rows(rows)) => match checked_head(
            &rows,
            i.cr_id,
            "approving",
        ) {
            Err(e) => (SubmitStage::Over, FlowAction::Fail(e)),
            Ok(h) => (SubmitStage::Orphans(from, h), FlowAction::ReadInstances(i.cr_id)),
        },
        (SubmitStage::Orphans(from, h), FlowEvent::Rows(list)) => if some_runs(&list) {
            (
                SubmitStage::RollingBack(
                    "存在未终结的流程实例，请联系管理员处理（运维台取消后重提）".to_owned(),
                ),
                set_to(i.cr_id, from.as_str()),
            )
        } else {
            let a = ask_to_start(i, &h);
            (SubmitStage::Starting(from, h), a)
        },
        (SubmitStage::Orphans(from, h), FlowEvent::Failed(_)) => {
            let a = ask_to_start(i, &h);
            (SubmitStage::Starting(from, h), a)
        },
        (SubmitStage::Starting(_, h), FlowEvent::Value(view)) => after_start(i, &h, &view),
        (SubmitStage::Starting(from, _), FlowEvent::Failed(m)) => {
            let mut e: String = "发起审批流程失败: ".to_owned();
            e.append(m.as_str());
            (SubmitStage::RollingBack(e), set_to(i.cr_id, from.as_str()))
        },
        (_, FlowEvent::Failed(m)) => (SubmitStage::Over, FlowAction::Fail(m)),
        _ => (SubmitStage::Over, stray_event()),
    }
}

/// An approval is started only for a change request that was claimed, and not beside one that is
/// known to run.
pub proof fn law_submitted(i: SubmitInput, stage: SubmitStageV, event: FlowEventV)
    ensures
        submitted(i, stage, event).1 is Start ==> stage is Orphans && match event {
            FlowEventV::Rows(l) => !one_runs(l),
            _ => true,
        },
        submitted(i, stage, event).0 is Orphans ==> stage is Head && (event matches
            FlowEventV::Rows(rows) && head_in(rows, i.cr_id, "approving"@) is Ok),
        submitted(i, stage, event).0 is Head ==> stage is Claiming && (event matches
            FlowEventV::Changed(n) && n > 0),
{
}

/// The state that a stage remembers as the one before the claim.
pub open spec fn claimed_from(s: SubmitStageV) -> Option<Seq<char>> {
    match s {
        SubmitStageV::Claiming(from) => Some(from),
        SubmitStageV::Head(from) => Some(from),
        SubmitStageV::Orphans(from, _) => Some(from),
        SubmitStageV::Starting(from, _) => Some(from),
        _ => None,
    }
}

/// A change request is claimed from exactly the state that it was found in, a draft or rejected,
/// and that state is remembered as long as the submission goes on.
pub proof fn law_submit_remembers(i: SubmitInput, stage: SubmitStageV, event: FlowEventV)
    ensures
        claimed_from(submitted(i, stage, event).0) matches Some(from) ==> {
            ||| claimed_from(stage) == Some(from)
            ||| stage is State && (event matches FlowEventV::Rows(rows) && submit_state(
                rows,
                i.cr_id,
            ) == Some(from)) && submitted(i, stage, event).1 == FlowActionV::Execute(
                claim_statement(i.cr_id, seq![from], "approving"@),
            )
        },
{
}

/// Where no approval could be started, or one runs already, the change request is in the state
/// again that it was claimed from, and the error is reported.
pub proof fn law_submit_rolls_back(
    i: SubmitInput,
    from: Seq<char>,
    h: ObjV,
    m: Seq<char>,
    list: Seq<JsonV>,
    next: FlowEventV,
)
    requires
        one_runs(list),
    ensures
        submitted(i, SubmitStageV::Starting(from, h), FlowEventV::Failed(m)) == (
            SubmitStageV::RollingBack("发起审批流程失败: "@ + m),
            FlowActionV::Execute(status_statement(i.cr_id, from)),
        ),
        submitted(i, SubmitStageV::RollingBack("发起审批流程失败: "@ + m), next).1
            == FlowActionV::Fail("发起审批流程失败: "@ + m),
        submitted(i, SubmitStageV::Orphans(from, h), FlowEventV::Rows(list)).1
            == FlowActionV::Execute(status_statement(i.cr_id, from)),
{
}

} // verus!
