//! What an approver does: the task is found, the right to it is checked, and the outcome is read.

use crate::distribution::transform::{text_at, text_member};
use crate::flow::{column_text, is_open_at, open_at, text_column};
use crate::handlers::cr::tasks_of;
use crate::handlers::flow_step::{FlowAction, FlowActionV, FlowEvent, FlowEventV};
use crate::handlers::put;
use crate::json::{
    json_get, json_str, number_of, obj_put, values_view, Json, JsonV, ObjV, Object,
};
use crate::match_algo::keys_view;
use crate::outside::{lowercase, to_lower};
use crate::store::cr_service::{check_status_in, doc_status, head_of, read_cr_head, status_of};
use crate::store::query::opt_str;
use crate::store::dct_accessor::has_text;
use crate::text::{has_prefix, same_text, strip_prefix};
use vstd::prelude::*;

verus! {

/// A decision on a change request.
#[derive(Debug)]
pub struct ReviewBody {
    pub cr_id: i64,
    /// `approve` or `reject`.
    pub action: String,
    pub comment: Option<String>,
}

/// A change request that is sent back.
#[derive(Debug)]
pub struct ReturnBody {
    pub cr_id: i64,
    pub reason: Option<String>,
    /// The node that it is sent back to; the one before unless set.
    pub target_bpmn_id: Option<String>,
}

/// A change request that its maker confirms again.
#[derive(Debug)]
pub struct ConfirmApplyBody {
    pub cr_id: i64,
}

/// A request for what a user can do about a change request.
#[derive(Debug)]
pub struct ReviewContextQuery {
    pub cr_id: i64,
}

/// The token of a user, from a header.
pub fn bearer_token(header: Option<&str>) -> (r: Option<String>)
    ensures
        match opt_str(header) {
            Some(h) => if has_prefix(h, "Bearer "@) {
                r matches Some(t) && t@ == h.skip("Bearer "@.len() as int)
            } else {
                r is None
            },
            None => r is None,
        },
{
    match header {
        Some(h) => strip_prefix(h, "Bearer "),
        None => None,
    }
}

/// A task of an approval, and whether the user may do it.
#[derive(Debug)]
pub struct Located {
    pub instance_id: String,
    pub task_id: String,
    pub can: bool,
}

/// What a located task stands for.
#[verifier::ext_equal]
pub struct LocatedV {
    pub instance_id: Seq<char>,
    pub task_id: Seq<char>,
    pub can: bool,
}

impl Located {
    pub open spec fn view(&self) -> LocatedV {
        LocatedV { instance_id: self.instance_id@, task_id: self.task_id@, can: self.can }
    }
}

/// What is searched for: an open task whose node holds a word.
#[derive(Debug)]
pub struct LocateInput {
    pub cr_id: i64,
    pub user: String,
    pub word: String,
    /// What is said where there is none.
    pub missing: String,
}

/// What a search for a task waits for.
#[derive(Debug)]
pub enum LocateStage {
    Start,
    Instances,
    Detail(String),
    Pool(String, String),
    Over,
}

/// What a stage stands for.
#[verifier::ext_equal]
pub enum LocateStageV {
    Start,
    Instances,
    Detail(Seq<char>),
    Pool(Seq<char>, Seq<char>),
    Over,
}

impl LocateStage {
    pub open spec fn view(&self) -> LocateStageV {
        match *self {
            LocateStage::Start => LocateStageV::Start,
            LocateStage::Instances => LocateStageV::Instances,
            LocateStage::Detail(i) => LocateStageV::Detail(i@),
            LocateStage::Pool(i, t) => LocateStageV::Pool(i@, t@),
            LocateStage::Over => LocateStageV::Over,
        }
    }
}

/// What a search for a task does next.
#[derive(Debug)]
pub enum LocateAction {
    Ask(FlowAction),
    Found(Located),
    Fail(String),
}

/// What an action stands for.
#[verifier::ext_equal]
pub enum LocateActionV {
    Ask(FlowActionV),
    Found(LocatedV),
    Fail(Seq<char>),
}

impl LocateAction {
    pub open spec fn view(&self) -> LocateActionV {
        match *self {
            LocateAction::Ask(a) => LocateActionV::Ask(a@),
            LocateAction::Found(l) => LocateActionV::Found(l@),
            LocateAction::Fail(e) => LocateActionV::Fail(e@),
        }
    }
}

/// The first approval that runs.
pub open spec fn running(instances: Seq<JsonV>) -> Option<JsonV>
    decreases instances.len(),
{
    if instances.len() == 0 {
        None
    } else if json_str(json_get(instances[0], "state"@)) == Some("ACTIVE"@) {
        Some(instances[0])
    } else {
        running(instances.drop_first())
    }
}

fn find_running(instances: &Vec<Json>) -> (r: Option<&Json>)
    ensures
        match r {
            Some(i) => running(values_view(instances@)) == Some(i@),
            None => running(values_view(instances@)) is None,
        },
{
    let ghost all = values_view(instances@);
    let mut i: usize = 0;
    assert(all.skip(0) =~= all);
    while i < instances.len()
        invariant
            i <= instances@.len(),
            all == values_view(instances@),
            running(all) == running(all.skip(i as int)),
        decreases instances@.len() - i,
    {
        assert(all.skip(i as int)[0] == instances@[i as int]@);
        assert(all.skip(i as int).drop_first() =~= all.skip(i + 1));
        if let Some(Json::Str(s)) = instances[i].get("state") {
            if same_text(s.as_str(), "ACTIVE") {
                return Some(&instances[i]);
            }
        }
        i += 1;
    }
    None
}

/// The first open task whose node holds a word.
pub open spec fn open_task(tasks: Seq<JsonV>, word: Seq<char>) -> Option<JsonV>
    decreases tasks.len(),
{
    if tasks.len() == 0 {
        None
    } else if open_at(lowercase(text_at(tasks[0], "nodeBpmnId"@)), tasks[0], word) {
        Some(tasks[0])
    } else {
        open_task(tasks.drop_first(), word)
    }
}

fn find_open_task<'a>(tasks: &'a Vec<Json>, word: &str) -> (r: Option<&'a Json>)
    ensures
        match r {
            Some(t) => open_task(values_view(tasks@), word@) == Some(t@),
            None => open_task(values_view(tasks@), word@) is None,
        },
{
    let ghost all = values_view(tasks@);
    let mut i: usize = 0;
    assert(all.skip(0) =~= all);
    while i < tasks.len()
        invariant
            i <= tasks@.len(),
            all == values_view(tasks@),
            open_task(all, word@) == open_task(all.skip(i as int), word@),
        decreases tasks@.len() - i,
    {
        assert(all.skip(i as int)[0] == tasks@[i as int]@);
        assert(all.skip(i as int).drop_first() =~= all.skip(i + 1));
        let node = to_lower(text_member(&tasks[i], "nodeBpmnId").as_str());
        if is_open_at(node.as_str(), &tasks[i], word) {
            return Some(&tasks[i]);
        }
        i += 1;
    }
    None
}

/// The task that was found: whoever it is assigned to may do it; one that is assigned to nobody
/// may be done by those who can take it.
pub open spec fn task_found(user: Seq<char>, instance: Seq<char>, task: JsonV) -> (
    LocateStageV,
    LocateActionV,
) {
    let id = text_at(task, "id"@);
    let assignee = text_at(task, "assignee"@);
    if assignee.len() > 0 {
        (
            LocateStageV::Over,
            LocateActionV::Found(
                LocatedV { instance_id: instance, task_id: id, can: assignee == user },
            ),
        )
    } else if user.len() == 0 {
        (
            LocateStageV::Over,
            LocateActionV::Found(LocatedV { instance_id: instance, task_id: id, can: false }),
        )
    } else {
        (
            LocateStageV::Pool(instance, id),
            LocateActionV::Ask(FlowActionV::ReadClaimable(user)),
        )
    }
}

/// One step of a search for a task.
pub open spec fn located(i: LocateInput, stage: LocateStageV, event: FlowEventV) -> (
    LocateStageV,
    LocateActionV,
) {
    match (stage, event) {
        (LocateStageV::Pool(instance, task), FlowEventV::Failed(_)) => (
            LocateStageV::Over,
            LocateActionV::Found(
                LocatedV { instance_id: instance, task_id: task, can: false },
            ),
        ),
        (LocateStageV::Pool(instance, task), FlowEventV::Names(ids)) => (
            LocateStageV::Over,
            LocateActionV::Found(
                LocatedV { instance_id: instance, task_id: task, can: ids.contains(task) },
            ),
        ),
        (_, FlowEventV::Failed(m)) => (LocateStageV::Over, LocateActionV::Fail(m)),
        (LocateStageV::Start, FlowEventV::Begin) => (
            LocateStageV::Instances,
            LocateActionV::Ask(FlowActionV::ReadInstances(i.cr_id)),
        ),
        (LocateStageV::Instances, FlowEventV::Rows(list)) => match running(list) {
            Some(inst) => (
                LocateStageV::Detail(text_at(inst, "instanceId"@)),
                LocateActionV::Ask(FlowActionV::ReadDetail(text_at(inst, "instanceId"@))),
            ),
            None => (
                LocateStageV::Over,
                LocateActionV::Fail("该单据当前没有进行中的审批流程"@),
            ),
        },
        (LocateStageV::Detail(instance), FlowEventV::Value(v)) => match open_task(
            tasks_of(v),
            i.word@,
        ) {
            Some(t) => task_found(i.user@, instance, t),
            None => (LocateStageV::Over, LocateActionV::Fail(i.missing@)),
        },
        _ => (LocateStageV::Over, LocateActionV::Fail("流程步骤与事件不符"@)),
    }
}

fn after_task(user: &str, instance: String, task: &Json) -> (r: (LocateStage, LocateAction))
    ensures
        (r.0@, r.1@) == task_found(user@, instance@, task@),
{
    let id = text_member(task, "id");
    let assignee = text_member(task, "assignee");
    if !assignee.as_str().is_empty() {
        let can = same_text(assignee.as_str(), user);
        (
            LocateStage::Over,
            LocateAction::Found(Located { instance_id: instance, task_id: id, can }),
        )
    } else if user.is_empty() {
        (
            LocateStage::Over,
            LocateAction::Found(Located { instance_id: instance, task_id: id, can: false }),
        )
    } else {
        (
            LocateStage::Pool(instance, id),
            LocateAction::Ask(FlowAction::ReadClaimable(user.to_owned())),
        )
    }
}

fn after_detail(i: &LocateInput, instance: String, v: &Json) -> (r: (LocateStage, LocateAction))
    ensures
        (r.0@, r.1@) == located(*i, LocateStageV::Detail(instance@), FlowEventV::Value(v@)),
{
    let none: Vec<Json> = Vec::new();
    assert(values_view(none@) =~= Seq::<JsonV>::empty());
    let tasks: &Vec<Json> = match v.get("tasks") {
        Some(t) => match t.as_array() {
            Some(a) => a,
            None => &none,
        },
        None => &none,
    };
    assert(values_view(tasks@) =~= tasks_of(v@));
    match find_open_task(tasks, i.word.as_str()) {
        Some(t) => after_task(i.user.as_str(), instance, t),
        None => (LocateStage::Over, LocateAction::Fail(i.missing.clone())),
    }
}

/// One step of a search for a task.
pub fn locate_open_task(i: &LocateInput, stage: LocateStage, event: FlowEvent) -> (r: (
    LocateStage,
    LocateAction,
))
    ensures
        (r.0@, r.1@) == located(*i, stage@, event@),
{
    match (stage, event) {
        (LocateStage::Pool(instance, task), FlowEvent::Failed(_)) => (
            LocateStage::Over,
            LocateAction::Found(Located { instance_id: instance, task_id: task, can: false }),
        ),
        (LocateStage::Pool(instance, task), FlowEvent::Names(ids)) => {
            let can = has_text(&ids, task.as_str());
            (
                LocateStage::Over,
                LocateAction::Found(Located { instance_id: instance, task_id: task, can }),
            )
        },
        (_, FlowEvent::Failed(m)) => (LocateStage::Over, LocateAction::Fail(m)),
        (LocateStage::Start, FlowEvent::Begin) => (
            LocateStage::Instances,
            LocateAction::Ask(FlowAction::ReadInstances(i.cr_id)),
        ),
        (LocateStage::Instances, FlowEvent::Rows(list)) => match find_running(&list) {
            Some(inst) => {
                let id = text_member(inst, "instanceId");
                (
                    LocateStage::Detail(id.clone()),
                    LocateAction::Ask(FlowAction::ReadDetail(id)),
                )
            },
            None => (
                LocateStage::Over,
                LocateAction::Fail("该单据当前没有进行中的审批流程".to_owned()),
            ),
        },
        (LocateStage::Detail(instance), FlowEvent::Value(v)) => after_detail(i, instance, &v),
        _ => (LocateStage::Over, LocateAction::Fail("流程步骤与事件不符".to_owned())),
    }
}

/// The search for the task of an approver.
pub fn locate_review_task(cr_id: i64, user: &str) -> (r: LocateInput)
    ensures
        r.cr_id == cr_id,
        r.user@ == user@,
        r.word@ == "review"@,
        r.missing@ == "审批任务不存在或已办结"@,
{
    LocateInput {
        cr_id,
        user: user.to_owned(),
        word: "review".to_owned(),
        missing: "审批任务不存在或已办结".to_owned(),
    }
}

/// The search for the task at which a request that was sent back waits for its maker.
pub fn locate_apply_task(cr_id: i64, user: &str) -> (r: LocateInput)
    ensures
        r.cr_id == cr_id,
        r.user@ == user@,
        r.word@ == "apply"@,
        r.missing@ == "重办任务不存在或已办结"@,
{
    LocateInput {
        cr_id,
        user: user.to_owned(),
        word: "apply".to_owned(),
        missing: "重办任务不存在或已办结".to_owned(),
    }
}

/// Nobody does a task that is assigned to another, and one without an assignee only those who can
/// take it.
pub proof fn law_located(i: LocateInput, stage: LocateStageV, event: FlowEventV)
    ensures
        located(i, stage, event).1 matches LocateActionV::Found(l) && l.can ==> {
            ||| stage matches LocateStageV::Pool(_, t) && (event matches FlowEventV::Names(ids)
                && ids.contains(t))
            ||| stage is Detail && (event matches FlowEventV::Value(v) && (open_task(
                tasks_of(v),
                i.word@,
            ) matches Some(t) && text_at(t, "assignee"@) == i.user@ && i.user@.len() > 0))
        },
{
}

/// The decisions that there are.
pub fn check_action(action: &str) -> (r: Result<(), String>)
    ensures
        match r {
            Ok(_) => action@ == "approve"@ || action@ == "reject"@,
            Err(e) => action@ != "approve"@ && action@ != "reject"@ && e@
                == "action 仅支持 approve / reject"@,
        },
{
    if same_text(action, "approve") || same_text(action, "reject") {
        Ok(())
    } else {
        Err("action 仅支持 approve / reject".to_owned())
    }
}

/// Refuses a user who may not decide.
pub fn check_reviewer(l: &Located) -> (r: Result<(), String>)
    ensures
        match r {
            Ok(_) => l.can,
            Err(e) => !l.can && e@
                == "您不是该单据当前环节的审批人（既非办理人也不在候选池）"@,
        },
{
    if l.can {
        Ok(())
    } else {
        Err(
            "您不是该单据当前环节的审批人（既非办理人也不在候选池）".to_owned(),
        )
    }
}

/// Refuses a user who did not make the request.
pub fn check_applicant(l: &Located) -> (r: Result<(), String>)
    ensures
        match r {
            Ok(_) => l.can,
            Err(e) => !l.can && e@ == "您不是该单据当前重办环节的办理人（发起人）"@,
        },
{
    if l.can {
        Ok(())
    } else {
        Err("您不是该单据当前重办环节的办理人（发起人）".to_owned())
    }
}

/// The state of a change request after a decision, as it is read; empty where it cannot be.
pub open spec fn read_status(rows: Seq<JsonV>, cr_id: i64) -> Seq<char> {
    match head_of(rows, cr_id) {
        Ok(h) => if seq![
            "approving"@,
            "activating"@,
            "activated"@,
            "rejected"@,
            "aborted"@,
        ].contains(status_of(h)) {
            status_of(h)
        } else {
            Seq::empty()
        },
        Err(_) => Seq::empty(),
    }
}

/// The state of a change request after a decision, as it is read.
pub fn read_cr_status(rows: &Vec<Json>, cr_id: i64) -> (r: String)
    ensures
        r@ == read_status(values_view(rows@), cr_id),
{
    match read_cr_head(rows, cr_id) {
        Ok(h) => {
            let known = ["approving", "activating", "activated", "rejected", "aborted"];
            assert(keys_view(known@) =~= seq![
                "approving"@,
                "activating"@,
                "activated"@,
                "rejected"@,
                "aborted"@,
            ]);
            match check_status_in(cr_id, &h, known.as_slice()) {
                Ok(_) => doc_status(&h),
                Err(_) => String::new(),
            }
        },
        Err(_) => String::new(),
    }
}

/// Answers a decision: one that rejects has rejected; after one that approves the state is read.
pub fn mdm_cr_review(cr_id: i64, action: &str, instance_id: &str, rows: &Vec<Json>) -> (r: Json)
    ensures
        r@ == JsonV::Obj(
            obj_put(
                obj_put(
                    obj_put(
                        obj_put(Seq::empty(), "crId"@, JsonV::Num(number_of(cr_id))),
                        "action"@,
                        JsonV::Str(action@),
                    ),
                    "status"@,
                    JsonV::Str(
                        if action@ == "reject"@ {
                            "rejected"@
                        } else {
                            read_status(values_view(rows@), cr_id)
                        },
                    ),
                ),
                "instanceId"@,
                JsonV::Str(instance_id@),
            ),
        ),
{
    let status: String = if same_text(action, "reject") {
        "rejected".to_owned()
    } else {
        read_cr_status(rows, cr_id)
    };
    let o = put(Object::new(), "crId", Json::integer(cr_id));
    let o = put(o, "action", Json::string(action));
    let o = put(o, "status", Json::Str(status));
    Json::Obj(put(o, "instanceId", Json::string(instance_id)))
}

/// What a user can do where there is nothing to do.
pub open spec fn idle_context(cr_id: i64, state: JsonV) -> JsonV {
    let o = obj_put(Seq::empty(), "crId"@, JsonV::Num(number_of(cr_id)));
    let o = obj_put(o, "instanceId"@, JsonV::Null);
    let o = obj_put(o, "taskId"@, JsonV::Null);
    let o = obj_put(o, "canReview"@, JsonV::Bool(false));
    let o = obj_put(o, "canWithdraw"@, JsonV::Bool(false));
    JsonV::Obj(obj_put(o, "state"@, state))
}

fn idle(cr_id: i64, state: Json) -> (r: Json)
    ensures
        r@ == idle_context(cr_id, state@),
{
    let o = put(Object::new(), "crId", Json::integer(cr_id));
    let o = put(o, "instanceId", Json::Null);
    let o = put(o, "taskId", Json::Null);
    let o = put(o, "canReview", Json::Bool(false));
    let o = put(o, "canWithdraw", Json::Bool(false));
    Json::Obj(put(o, "state", state))
}

/// Whether a user made a change request, where both are known.
pub open spec fn is_maker(head: ObjV, user: Seq<char>) -> bool {
    user.len() > 0 && user == column_text(head, "create_by"@)
}

/// What can be done about a change request, as far as its head tells: while it is approving, by
/// whether the user made it; at other times nothing.
pub fn context_head(rows: Option<&Vec<Json>>, cr_id: i64, user: &str) -> (r: Result<bool, Json>)
    ensures
        match rows {
            None => r matches Err(v) && v@ == idle_context(cr_id, JsonV::Null),
            Some(l) => match head_of(values_view(l@), cr_id) {
                Err(_) => r matches Err(v) && v@ == idle_context(cr_id, JsonV::Null),
                Ok(h) => if status_of(h) == "approving"@ {
                    r == Ok::<bool, Json>(is_maker(h, user@))
                } else if status_of(h) == "activating"@ {
                    r matches Err(v) && v@ == idle_context(cr_id, JsonV::Str("ACTIVATING"@))
                } else {
                    r matches Err(v) && v@ == idle_context(cr_id, JsonV::Null)
                },
            },
        },
{
    let l = match rows {
        Some(l) => l,
        None => {
            return Err(idle(cr_id, Json::Null));
        },
    };
    match read_cr_head(l, cr_id) {
        Err(_) => Err(idle(cr_id, Json::Null)),
        Ok(h) => {
            let s = doc_status(&h);
            if same_text(s.as_str(), "approving") {
                let by = text_column(&h, "create_by");
                Ok(!user.is_empty() && same_text(user, by.as_str()))
            } else if same_text(s.as_str(), "activating") {
                proof {
                    reveal_strlit("approving");
                    reveal_strlit("activating");
                    assert("approving"@.len() == 9 && "activating"@.len() == 10);
                }
                Err(idle(cr_id, Json::string("ACTIVATING")))
            } else {
                Err(idle(cr_id, Json::Null))
            }
        },
    }
}

/// A text, or null where it is empty.
pub open spec fn text_or_null(s: Seq<char>) -> JsonV {
    if s.len() > 0 {
        JsonV::Str(s)
    } else {
        JsonV::Null
    }
}

fn nullable_text(s: &str) -> (r: Json)
    ensures
        r@ == text_or_null(s@),
{
    if s.is_empty() {
        Json::Null
    } else {
        Json::string(s)
    }
}

/// A task that was not found stands for nothing.
pub open spec fn located_or_none(l: Option<Located>) -> LocatedV {
    match l {
        Some(x) => x@,
        None => LocatedV { instance_id: Seq::empty(), task_id: Seq::empty(), can: false },
    }
}

fn or_none(l: Option<Located>) -> (r: Located)
    ensures
        r@ == located_or_none(l),
{
    match l {
        Some(x) => x,
        None => {
            let r = Located { instance_id: String::new(), task_id: String::new(), can: false };
            assert(r@ =~= located_or_none(None));
            r
        },
    }
}

/// What a user can do about a change request that is approving.
pub open spec fn context_value(cr_id: i64, maker: bool, review: LocatedV, apply: LocatedV) -> JsonV {
    let instance = if review.instance_id.len() > 0 {
        review.instance_id
    } else {
        apply.instance_id
    };
    let o = obj_put(Seq::empty(), "crId"@, JsonV::Num(number_of(cr_id)));
    let o = obj_put(o, "instanceId"@, text_or_null(instance));
    let o = obj_put(o, "taskId"@, text_or_null(review.task_id));
    let o = obj_put(o, "canReview"@, JsonV::Bool(review.can));
    let o = obj_put(o, "canApply"@, JsonV::Bool(apply.can));
    let o = obj_put(o, "applyTaskId"@, text_or_null(apply.task_id));
    let o = obj_put(o, "canWithdraw"@, JsonV::Bool(maker));
    JsonV::Obj(
        obj_put(
            o,
            "state"@,
            if instance.len() > 0 {
                JsonV::Str("ACTIVE"@)
            } else {
                JsonV::Null
            },
        ),
    )
}

/// Answers what a user can do about a change request that is approving.
pub fn mdm_cr_review_context(
    cr_id: i64,
    maker: bool,
    review: Option<Located>,
    apply: Option<Located>,
) -> (r: Json)
    ensures
        r@ == context_value(cr_id, maker, located_or_none(review), located_or_none(apply)),
{
    let v = or_none(review);
    let a = or_none(apply);
    let instance: &str = if v.instance_id.as_str().is_empty() {
        a.instance_id.as_str()
    } else {
        v.instance_id.as_str()
    };
    let o = put(Object::new(), "crId", Json::integer(cr_id));
    let o = put(o, "instanceId", nullable_text(instance));
    let o = put(o, "taskId", nullable_text(v.task_id.as_str()));
    let o = put(o, "canReview", Json::Bool(v.can));
    let o = put(o, "canApply", Json::Bool(a.can));
    let o = put(o, "applyTaskId", nullable_text(a.task_id.as_str()));
    let o = put(o, "canWithdraw", Json::Bool(maker));
    let state: Json = if instance.is_empty() {
        Json::Null
    } else {
        Json::string("ACTIVE")
    };
    Json::Obj(put(o, "state", state))
}

} // verus!
