//! Events of the workflow platform: a change request follows its approval.
//!
//! Events may come twice, late, for another document, or for an approval that ended before. A
//! change request is only moved out of `approving`, and only by its newest approval.

use crate::distribution::channels::{signed_by, verify_signature};
use crate::distribution::transform::{
    int_at, int_member, member, member_at, text_at, text_member,
};
use crate::flow::{column_text, text_column, MDM_BIZ_TABLE};
use crate::handlers::flow_step::{out_of_step, stray_event, FlowAction, FlowActionV, FlowEvent,
    FlowEventV};
use crate::handlers::put;
use crate::json::{
    array, json_get, json_str, number_of, obj_put, values_view, Json, JsonV, ObjV, Object,
};
use crate::match_algo::{keys_view, opt_text};
use crate::outside::{debug_json, debug_value, json_bytes, parse_bytes};
use crate::sql::{SqlV, StatementV};
use crate::store::cr_service::{
    check_status, doc_status, head_of, load_cr_head, read_cr_head, status_of, wrong_status,
};
use crate::store::md_accessor::{claim_cr, claim_statement, cr_updated_before, set_cr_status};
use crate::store::query::opt_str;
use crate::text::{chars_of, parse_i64, parsed_in, same_text, string_of, trim, trimmed};
use vstd::prelude::*;

verus! {

/// What an event asks for.
#[derive(Debug, Clone, Copy, PartialEq, Eq, Structural)]
pub enum EventAction {
    Ignore,
    SyncCompleted,
    SyncTerminated,
}

/// What an event asks for: those of other definitions are ignored, and so is the end of an
/// approval that had ended otherwise.
pub open spec fn event_action(
    kind: Seq<char>,
    state: Seq<char>,
    definition: Seq<char>,
    expected: Seq<char>,
) -> EventAction {
    if definition.len() > 0 && definition != expected {
        EventAction::Ignore
    } else if kind == "instance.completed"@ {
        EventAction::SyncCompleted
    } else if kind == "instance.terminated"@ && state == "TERMINATED"@ {
        EventAction::SyncTerminated
    } else {
        EventAction::Ignore
    }
}

/// What an event asks for.
pub fn classify_callback_event(
    kind: &str,
    payload_state: &str,
    definition_key: &str,
    cfg_definition_key: &str,
) -> (r: EventAction)
    ensures
        r == event_action(kind@, payload_state@, definition_key@, cfg_definition_key@),
{
    if !definition_key.is_empty() && !same_text(definition_key, cfg_definition_key) {
        EventAction::Ignore
    } else if same_text(kind, "instance.completed") {
        EventAction::SyncCompleted
    } else if same_text(kind, "instance.terminated") && same_text(payload_state, "TERMINATED") {
        EventAction::SyncTerminated
    } else {
        EventAction::Ignore
    }
}

/// What is done about an event.
#[derive(Debug)]
pub struct CallbackPlan {
    pub action: EventAction,
    pub instance_id: String,
    pub definition_key: String,
    pub state: String,
}

impl CallbackPlan {
    /// Whether this is what is done about an event.
    pub open spec fn answers(&self, event: JsonV, expected: Seq<char>) -> bool {
        &&& self.instance_id@ == text_at(event, "instanceId"@)
        &&& self.definition_key@ == text_at(event, "definitionKey"@)
        &&& self.state@ == text_at(event, "state"@)
        &&& self.action == event_action(
            text_at(event, "event"@),
            text_at(event, "state"@),
            text_at(event, "definitionKey"@),
            expected,
        )
    }
}

/// Reads an event.
pub fn read_event(event: &Json, cfg_definition_key: &str) -> (r: CallbackPlan)
    ensures
        r.answers(event@, cfg_definition_key@),
{
    let kind = text_member(event, "event");
    let instance_id = text_member(event, "instanceId");
    let definition_key = text_member(event, "definitionKey");
    let state = text_member(event, "state");
    let action = classify_callback_event(
        kind.as_str(),
        state.as_str(),
        definition_key.as_str(),
        cfg_definition_key,
    );
    CallbackPlan { action, instance_id, definition_key, state }
}

/// Takes an event; one that is not signed under the secret, or is no JSON, is refused.
pub fn mdm_flow_callback(
    secret: &str,
    body: &[u8],
    signature: Option<&str>,
    cfg_definition_key: &str,
) -> (r: Result<CallbackPlan, String>)
    ensures
        if !signed_by(secret@, body@, opt_str(signature)) {
            r matches Err(e) && e@ == "webhook 签名校验失败"@
        } else {
            match json_bytes(body@) {
                Err(m) => r matches Err(e) && e@ == "webhook 载荷非 JSON: "@ + m,
                Ok(v) => r matches Ok(p) && p.answers(v, cfg_definition_key@),
            }
        },
{
    if !verify_signature(secret, body, signature) {
        return Err("webhook 签名校验失败".to_owned());
    }
    match parse_bytes(body) {
        Ok(event) => Ok(read_event(&event, cfg_definition_key)),
        Err(m) => {
            let mut e: String = "webhook 载荷非 JSON: ".to_owned();
            e.append(m.as_str());
            Err(e)
        },
    }
}

/// What a synchronisation is about: an event of an approval, or its state as it was read.
#[derive(Debug)]
pub struct SyncInput {
    pub instance_id: String,
    /// `completed` or `terminated`.
    pub event: String,
    pub payload_state: Option<String>,
    /// The definition that the event names; empty where it names none.
    pub definition_key: String,
    /// The definition that approvals follow.
    pub expected_key: String,
}

/// What a synchronisation is about.
#[verifier::ext_equal]
pub struct SyncInputV {
    pub instance_id: Seq<char>,
    pub event: Seq<char>,
    pub payload_state: Option<Seq<char>>,
    pub definition_key: Seq<char>,
    pub expected_key: Seq<char>,
}

impl SyncInput {
    pub open spec fn view(&self) -> SyncInputV {
        SyncInputV {
            instance_id: self.instance_id@,
            event: self.event@,
            payload_state: opt_text(self.payload_state),
            definition_key: self.definition_key@,
            expected_key: self.expected_key@,
        }
    }
}

/// What a synchronisation waits for. The number is that of the change request.
#[derive(Debug)]
pub enum SyncStage {
    Start,
    Links,
    Instances(i64),
    Variables(i64),
    Claiming(i64),
    Activating(i64),
    /// The text of the error that is reported once the change request is back.
    Resetting(String),
    Writing,
    Over,
}

/// What a stage stands for.
#[verifier::ext_equal]
pub enum SyncStageV {
    Start,
    Links,
    Instances(i64),
    Variables(i64),
    Claiming(i64),
    Activating(i64),
    Resetting(Seq<char>),
    Writing,
    Over,
}

impl SyncStage {
    pub open spec fn view(&self) -> SyncStageV {
        match *self {
            SyncStage::Start => SyncStageV::Start,
            SyncStage::Links => SyncStageV::Links,
            SyncStage::Instances(c) => SyncStageV::Instances(c),
            SyncStage::Variables(c) => SyncStageV::Variables(c),
            SyncStage::Claiming(c) => SyncStageV::Claiming(c),
            SyncStage::Activating(c) => SyncStageV::Activating(c),
            SyncStage::Resetting(m) => SyncStageV::Resetting(m@),
            SyncStage::Writing => SyncStageV::Writing,
            SyncStage::Over => SyncStageV::Over,
        }
    }
}

/// The first link to a change request.
pub open spec fn mdm_link(links: Seq<JsonV>) -> Option<JsonV>
    decreases links.len(),
{
    if links.len() == 0 {
        None
    } else if json_str(json_get(links[0], "bizTable"@)) == Some(MDM_BIZ_TABLE@) {
        Some(links[0])
    } else {
        mdm_link(links.drop_first())
    }
}

/// The change request of a link, where its number is one.
pub open spec fn link_cr(link: JsonV) -> Option<i64> {
    match json_str(json_get(link, "bizId"@)) {
        Some(s) => match parsed_in(s, true, i64::MIN as int, i64::MAX as int) {
            Some(n) => Some(n as i64),
            None => None,
        },
        None => None,
    }
}

/// What is said of a link without a number.
pub open spec fn bad_link(link: JsonV) -> Seq<char> {
    "bizId 非法: "@ + (match json_get(link, "bizId"@) {
        Some(v) => "Some("@ + debug_json(v) + ")"@,
        None => "None"@,
    })
}

/// Whether an approval is the newest.
pub open spec fn is_newest(instances: Seq<JsonV>, instance_id: Seq<char>) -> bool {
    instances.len() > 0 && json_str(json_get(instances[0], "instanceId"@)) == Some(instance_id)
}

/// The move of a change request out of `approving`.
pub open spec fn leave_approving(cr_id: i64, to: Seq<char>) -> StatementV {
    claim_statement(cr_id, seq!["approving"@], to)
}

/// The move of a change request that could not be written into the records back to `approving`.
pub open spec fn back_to_approving(cr_id: i64) -> StatementV {
    claim_statement(cr_id, seq!["activating"@], "approving"@)
}

/// The state of a change request, whatever it was.
pub open spec fn status_statement(cr_id: i64, to: Seq<char>) -> StatementV {
    StatementV {
        sql: "UPDATE cv_mdm_apply SET doc_status = $1 WHERE id = $2"@,
        params: seq![SqlV::Text(to), SqlV::Int(cr_id)],
    }
}

/// What is done about the newest approval of a change request.
pub open spec fn sync_current(i: SyncInputV, cr_id: i64) -> (SyncStageV, FlowActionV) {
    if i.event == "completed"@ {
        (SyncStageV::Variables(cr_id), FlowActionV::ReadVariables(i.instance_id))
    } else if i.event == "terminated"@ {
        if i.payload_state == Some("TERMINATED"@) {
            (SyncStageV::Writing, FlowActionV::Execute(leave_approving(cr_id, "aborted"@)))
        } else {
            (SyncStageV::Over, FlowActionV::Finish)
        }
    } else {
        (SyncStageV::Over, FlowActionV::Fail("不支持的事件类型: "@ + i.event))
    }
}

/// One step of a synchronisation: the change request is found by its link; only its newest
/// approval counts; one that was rejected rejects it; one that passed writes it into the records,
/// for which it is claimed first, and where that fails it is approving again; one that was
/// cancelled aborts it.
pub open spec fn synced(i: SyncInputV, stage: SyncStageV, event: FlowEventV) -> (
    SyncStageV,
    FlowActionV,
) {
    match (stage, event) {
        (SyncStageV::Resetting(m), _) => (
            SyncStageV::Over,
            FlowActionV::Fail("激活失败: "@ + m),
        ),
        (SyncStageV::Activating(c), FlowEventV::Failed(m)) => (
            SyncStageV::Resetting(m),
            FlowActionV::Execute(back_to_approving(c)),
        ),
        (_, FlowEventV::Failed(m)) => (SyncStageV::Over, FlowActionV::Fail(m)),
        (SyncStageV::Start, FlowEventV::Begin) => if i.definition_key.len() > 0
            && i.definition_key != i.expected_key {
            (SyncStageV::Over, FlowActionV::Finish)
        } else {
            (SyncStageV::Links, FlowActionV::ReadLinks(i.instance_id))
        },
        (SyncStageV::Links, FlowEventV::Rows(links)) => match mdm_link(links) {
            None => (SyncStageV::Over, FlowActionV::Finish),
            Some(l) => match link_cr(l) {
                Some(c) => (SyncStageV::Instances(c), FlowActionV::ReadInstances(c)),
                None => (SyncStageV::Over, FlowActionV::Fail(bad_link(l))),
            },
        },
        (SyncStageV::Instances(c), FlowEventV::Rows(instances)) => if is_newest(
            instances,
            i.instance_id,
        ) {
            sync_current(i, c)
        } else {
            (SyncStageV::Over, FlowActionV::Finish)
        },
        (SyncStageV::Variables(c), FlowEventV::Value(v)) => if text_at(v, "lastDecision"@)
            == "reject"@ {
            (SyncStageV::Writing, FlowActionV::Execute(leave_approving(c, "rejected"@)))
        } else {
            (SyncStageV::Claiming(c), FlowActionV::Execute(leave_approving(c, "activating"@)))
        },
        (SyncStageV::Claiming(c), FlowEventV::Changed(n)) => if n > 0 {
            (SyncStageV::Activating(c), FlowActionV::Activate(c))
        } else {
            (SyncStageV::Over, FlowActionV::Finish)
        },
        (SyncStageV::Activating(_), FlowEventV::Done) => (SyncStageV::Over, FlowActionV::Finish),
        (SyncStageV::Writing, FlowEventV::Changed(_)) => (SyncStageV::Over, FlowActionV::Finish),
        _ => (SyncStageV::Over, out_of_step()),
    }
}

fn find_mdm_link(links: &Vec<Json>) -> (r: Option<&Json>)
    ensures
        match r {
            Some(l) => mdm_link(values_view(links@)) == Some(l@),
            None => mdm_link(values_view(links@)) is None,
        },
{
    let ghost all = values_view(links@);
    let mut i: usize = 0;
    assert(all.skip(0) =~= all);
    while i < links.len()
        invariant
            i <= links@.len(),
            all == values_view(links@),
            mdm_link(all) == mdm_link(all.skip(i as int)),
        decreases links@.len() - i,
    {
        assert(all.skip(i as int)[0] == links@[i as int]@);
        assert(all.skip(i as int).drop_first() =~= all.skip(i + 1));
        if let Some(Json::Str(t)) = links[i].get("bizTable") {
            if same_text(t.as_str(), MDM_BIZ_TABLE) {
                return Some(&links[i]);
            }
        }
        i += 1;
    }
    None
}

fn cr_of_link(link: &Json) -> (r: Option<i64>)
    ensures
        r == link_cr(link@),
{
    match link.get("bizId") {
        Some(Json::Str(s)) => parse_i64(s.as_str()),
        _ => None,
    }
}

fn link_error(link: &Json) -> (r: String)
    ensures
        r@ == bad_link(link@),
{
    let shown: String = match link.get("bizId") {
        Some(v) => {
            let mut t: String = "Some(".to_owned();
            t.append(debug_value(v).as_str());
            t.append(")");
            t
        },
        None => "None".to_owned(),
    };
    let mut r: String = "bizId 非法: ".to_owned();
    r.append(shown.as_str());
    r
}

fn newest_is(instances: &Vec<Json>, instance_id: &str) -> (r: bool)
    ensures
        r == is_newest(values_view(instances@), instance_id@),
{
    if instances.len() == 0 {
        return false;
    }
    match instances[0].get("instanceId") {
        Some(Json::Str(s)) => same_text(s.as_str(), instance_id),
        _ => false,
    }
}

pub(crate) fn move_out(cr_id: i64, to: &str) -> (r: FlowAction)
    ensures
        r@ == FlowActionV::Execute(leave_approving(cr_id, to@)),
{
    let from = ["approving"];
    let s = claim_cr(cr_id, from.as_slice(), to);
    assert(keys_view(from@) =~= seq!["approving"@]);
    FlowAction::Execute(s)
}

fn move_back(cr_id: i64) -> (r: FlowAction)
    ensures
        r@ == FlowActionV::Execute(back_to_approving(cr_id)),
{
    let from = ["activating"];
    let s = claim_cr(cr_id, from.as_slice(), "approving");
    assert(keys_view(from@) =~= seq!["activating"@]);
    FlowAction::Execute(s)
}

pub(crate) fn set_to(cr_id: i64, to: &str) -> (r: FlowAction)
    ensures
        r@ == FlowActionV::Execute(status_statement(cr_id, to@)),
{
    FlowAction::Execute(set_cr_status(cr_id, to))
}

fn after_newest(i: &SyncInput, cr_id: i64) -> (r: (SyncStage, FlowAction))
    ensures
        (r.0@, r.1@) == sync_current(i@, cr_id),
{
    if same_text(i.event.as_str(), "completed") {
        (SyncStage::Variables(cr_id), FlowAction::ReadVariables(i.instance_id.clone()))
    } else if same_text(i.event.as_str(), "terminated") {
        let over = match &i.payload_state {
            Some(s) => same_text(s.as_str(), "TERMINATED"),
            None => false,
        };
        if over {
            (SyncStage::Writing, move_out(cr_id, "aborted"))
        } else {
            (SyncStage::Over, FlowAction::Finish)
        }
    } else {
        let mut e: String = "不支持的事件类型: ".to_owned();
        e.append(i.event.as_str());
        (SyncStage::Over, FlowAction::Fail(e))
    }
}

/// One step of a synchronisation.
pub fn sync_flow_result_with(i: &SyncInput, stage: SyncStage, event: FlowEvent) -> (r: (
    SyncStage,
    FlowAction,
))
    ensures
        (r.0@, r.1@) == synced(i@, stage@, event@),
{
    match (stage, event) {
        (SyncStage::Resetting(m), _) => {
            let mut e: String = "激活失败: ".to_owned();
            e.append(m.as_str());
            (SyncStage::Over, FlowAction::Fail(e))
        },
        (SyncStage::Activating(c), FlowEvent::Failed(m)) => (
            SyncStage::Resetting(m),
            move_back(c),
        ),
        (_, FlowEvent::Failed(m)) => (SyncStage::Over, FlowAction::Fail(m)),
        (SyncStage::Start, FlowEvent::Begin) => if !i.definition_key.as_str().is_empty()
            && !same_text(i.definition_key.as_str(), i.expected_key.as_str()) {
            (SyncStage::Over, FlowAction::Finish)
        } else {
            (SyncStage::Links, FlowAction::ReadLinks(i.instance_id.clone()))
        },
        (SyncStage::Links, FlowEvent::Rows(links)) => match find_mdm_link(&links) {
            None => (SyncStage::Over, FlowAction::Finish),
            Some(l) => match cr_of_link(l) {
                Some(c) => (SyncStage::Instances(c), FlowAction::ReadInstances(c)),
                None => (SyncStage::Over, FlowAction::Fail(link_error(l))),
            },
        },
        (SyncStage::Instances(c), FlowEvent::Rows(instances)) => if newest_is(
            &instances,
            i.instance_id.as_str(),
        ) {
            after_newest(i, c)
        } else {
            (SyncStage::Over, FlowAction::Finish)
        },
        (SyncStage::Variables(c), FlowEvent::Value(v)) => if same_text(
            text_member(&v, "lastDecision").as_str(),
            "reject",
        ) {
            (SyncStage::Writing, move_out(c, "rejected"))
        } else {
            (SyncStage::Claiming(c), move_out(c, "activating"))
        },
        (SyncStage::Claiming(c), FlowEvent::Changed(n)) => if n > 0 {
            (SyncStage::Activating(c), FlowAction::Activate(c))
        } else {
            (SyncStage::Over, FlowAction::Finish)
        },
        (SyncStage::Activating(_), FlowEvent::Done) => (SyncStage::Over, FlowAction::Finish),
        (SyncStage::Writing, FlowEvent::Changed(_)) => (SyncStage::Over, FlowAction::Finish),
        _ => (SyncStage::Over, stray_event()),
    }
}

/// A change request is written into the records only after it was claimed, and claimed only by
/// the newest approval of it that passed.
pub proof fn law_sync_activates(i: SyncInputV, stage: SyncStageV, event: FlowEventV)
    ensures
        synced(i, stage, event).1 is Activate ==> stage is Claiming && (event matches
            FlowEventV::Changed(n) && n > 0),
        synced(i, stage, event).0 is Claiming ==> stage is Variables && (event matches
            FlowEventV::Value(v) && text_at(v, "lastDecision"@) != "reject"@),
        synced(i, stage, event).0 is Variables ==> (stage is Instances && (event matches
            FlowEventV::Rows(l) && is_newest(l, i.instance_id))),
{
}

/// Every write claims a change request in a state that it names: it moves out of `approving`, or
/// back from `activating` after a failure. Of several that try, one wins.
pub proof fn law_sync_writes(i: SyncInputV, stage: SyncStageV, event: FlowEventV)
    ensures
        match synced(i, stage, event).1 {
            FlowActionV::Execute(s) => (stage matches SyncStageV::Activating(c) && s
                == back_to_approving(c)) || (exists|c: i64, to: Seq<char>|
                s == #[trigger] leave_approving(c, to)),
            _ => true,
        },
{
}

/// A change request that could not be written into the records is approving again, and the error
/// is reported.
pub proof fn law_sync_restores(i: SyncInputV, c: i64, m: Seq<char>, next: FlowEventV)
    ensures
        synced(i, SyncStageV::Activating(c), FlowEventV::Failed(m)) == (
            SyncStageV::Resetting(m),
            FlowActionV::Execute(back_to_approving(c)),
        ),
        synced(i, SyncStageV::Resetting(m), next).1 == FlowActionV::Fail("激活失败: "@ + m),
{
}

/// An event of an approval that is not the newest changes nothing.
pub proof fn law_sync_late(i: SyncInputV, c: i64, instances: Seq<JsonV>)
    requires
        !is_newest(instances, i.instance_id),
    ensures
        synced(i, SyncStageV::Instances(c), FlowEventV::Rows(instances)) == (
            SyncStageV::Over,
            FlowActionV::Finish,
        ),
{
}

/// What a withdrawal waits for.
#[derive(Debug)]
pub enum WithdrawStage {
    Start,
    Head,
    Instances,
    Synced,
    Cancelling,
    Drafting,
    Over,
}

/// A change request and its state, as they are answered.
pub open spec fn cr_answer(cr_id: i64, status: Seq<char>) -> JsonV {
    JsonV::Obj(
        obj_put(
            obj_put(Seq::empty(), "crId"@, JsonV::Num(number_of(cr_id))),
            "status"@,
            JsonV::Str(status),
        ),
    )
}

/// Answers with a change request and its state.
pub fn answer_status(cr_id: i64, status: &str) -> (r: Json)
    ensures
        r@ == cr_answer(cr_id, status@),
{
    let o = put(Object::new(), "crId", Json::integer(cr_id));
    Json::Obj(put(o, "status", Json::string(status)))
}

/// The query for the head of a change request.
pub open spec fn head_query(cr_id: i64) -> FlowActionV {
    FlowActionV::Query(
        StatementV {
            sql: "SELECT * FROM cv_mdm_apply WHERE id = $1"@,
            params: seq![SqlV::Int(cr_id)],
        },
    )
}

pub(crate) fn query_head(cr_id: i64) -> (r: FlowAction)
    ensures
        r@ == head_query(cr_id),
{
    FlowAction::Query(load_cr_head(cr_id))
}

/// The head of a change request in one state, or what is wrong.
pub open spec fn head_in(rows: Seq<JsonV>, cr_id: i64, expect: Seq<char>) -> Result<
    ObjV,
    Seq<char>,
> {
    match head_of(rows, cr_id) {
        Err(e) => Err(e),
        Ok(h) => if status_of(h) == expect {
            Ok(h)
        } else {
            Err(wrong_status(cr_id, status_of(h), expect))
        },
    }
}

/// The head of a change request in one state.
pub fn checked_head(rows: &Vec<Json>, cr_id: i64, expect: &str) -> (r: Result<Object, String>)
    ensures
        match r {
            Ok(h) => head_in(values_view(rows@), cr_id, expect@) == Ok::<ObjV, Seq<char>>(h@),
            Err(e) => head_in(values_view(rows@), cr_id, expect@) == Err::<ObjV, Seq<char>>(e@),
        },
{
    match read_cr_head(rows, cr_id) {
        Err(e) => Err(e),
        Ok(h) => match check_status(cr_id, &h, expect) {
            Ok(_) => Ok(h),
            Err(e) => Err(e),
        },
    }
}

/// Whether a user may take a change request back: whoever made it, where that is known.
pub open spec fn may_withdraw(head: ObjV, user: Option<Seq<char>>) -> bool {
    column_text(head, "create_by"@).len() == 0 || user == Some(column_text(head, "create_by"@))
}

fn can_take_back(head: &Object, user: Option<&str>) -> (r: bool)
    ensures
        r == may_withdraw(head@, opt_str(user)),
{
    let by = text_column(head, "create_by");
    if by.as_str().is_empty() {
        return true;
    }
    match user {
        Some(u) => same_text(u, by.as_str()),
        None => false,
    }
}

/// One step of a withdrawal: only whoever made a change request takes it back, and only while its
/// approval runs; one that has ended is brought in line first.
pub open spec fn withdrawn(
    cr_id: i64,
    user: Option<Seq<char>>,
    stage: WithdrawStage,
    event: FlowEventV,
) -> (WithdrawStage, FlowActionV) {
    match (stage, event) {
        (WithdrawStage::Synced, _) => (
            WithdrawStage::Over,
            FlowActionV::Fail("流程已办结/已终止，不可撤回"@),
        ),
        (_, FlowEventV::Failed(m)) => (WithdrawStage::Over, FlowActionV::Fail(m)),
        (WithdrawStage::Start, FlowEventV::Begin) => (WithdrawStage::Head, head_query(cr_id)),
        (WithdrawStage::Head, FlowEventV::Rows(rows)) => match head_in(rows, cr_id, "approving"@) {
            Err(e) => (WithdrawStage::Over, FlowActionV::Fail(e)),
            Ok(h) => if may_withdraw(h, user) {
                (WithdrawStage::Instances, FlowActionV::ReadInstances(cr_id))
            } else {
                (WithdrawStage::Over, FlowActionV::Fail("仅申请人可撤回"@))
            },
        },
        (WithdrawStage::Instances, FlowEventV::Rows(list)) => if list.len() == 0 {
            (WithdrawStage::Over, FlowActionV::Fail("无流程实例，无需撤回"@))
        } else {
            let state = text_at(list[0], "state"@);
            let id = text_at(list[0], "instanceId"@);
            if state == "ACTIVE"@ {
                (WithdrawStage::Cancelling, FlowActionV::Cancel(id, "申请人撤回"@))
            } else {
                (
                    WithdrawStage::Synced,
                    FlowActionV::Sync(
                        id,
                        if state == "COMPLETED"@ {
                            "completed"@
                        } else {
                            "terminated"@
                        },
                        Some(state),
                    ),
                )
            }
        },
        (WithdrawStage::Cancelling, FlowEventV::Done) => (
            WithdrawStage::Drafting,
            FlowActionV::Execute(status_statement(cr_id, "draft"@)),
        ),
        (WithdrawStage::Drafting, FlowEventV::Changed(_)) => (
            WithdrawStage::Over,
            FlowActionV::Answer(cr_answer(cr_id, "draft"@)),
        ),
        _ => (WithdrawStage::Over, out_of_step()),
    }
}

/// One step of a withdrawal.
pub fn mdm_cr_withdraw(cr_id: i64, user: Option<&str>, stage: WithdrawStage, event: FlowEvent) -> (r:
    (WithdrawStage, FlowAction))
    ensures
        (r.0, r.1@) == withdrawn(cr_id, opt_str(user), stage, event@),
{
    match (stage, event) {
        (WithdrawStage::Synced, _) => (
            WithdrawStage::Over,
            FlowAction::Fail("流程已办结/已终止，不可撤回".to_owned()),
        ),
        (_, FlowEvent::Failed(m)) => (WithdrawStage::Over, FlowAction::Fail(m)),
        (WithdrawStage::Start, FlowEvent::Begin) => (WithdrawStage::Head, query_head(cr_id)),
        (WithdrawStage::Head, FlowEvent::Rows(rows)) => match checked_head(
            &rows,
            cr_id,
            "approving",
        ) {
            Err(e) => (WithdrawStage::Over, FlowAction::Fail(e)),
            Ok(h) => if can_take_back(&h, user) {
                (WithdrawStage::Instances, FlowAction::ReadInstances(cr_id))
            } else {
                (WithdrawStage::Over, FlowAction::Fail("仅申请人可撤回".to_owned()))
            },
        },
        (WithdrawStage::Instances, FlowEvent::Rows(list)) => {
            if list.len() == 0 {
                return (
                    WithdrawStage::Over,
                    FlowAction::Fail("无流程实例，无需撤回".to_owned()),
                );
            }
            let state = text_member(&list[0], "state");
            let id = text_member(&list[0], "instanceId");
            if same_text(state.as_str(), "ACTIVE") {
                (WithdrawStage::Cancelling, FlowAction::Cancel(id, "申请人撤回".to_owned()))
            } else {
                let what: String = if same_text(state.as_str(), "COMPLETED") {
                    "completed".to_owned()
                } else {
                    "terminated".to_owned()
                };
                (WithdrawStage::Synced, FlowAction::Sync(id, what, Some(state)))
            }
        },
        (WithdrawStage::Cancelling, FlowEvent::Done) => (
            WithdrawStage::Drafting,
            set_to(cr_id, "draft"),
        ),
        (WithdrawStage::Drafting, FlowEvent::Changed(_)) => (
            WithdrawStage::Over,
            FlowAction::Answer(answer_status(cr_id, "draft")),
        ),
        _ => (WithdrawStage::Over, stray_event()),
    }
}

/// A change request is a draft again only after its approval was cancelled, and that only while
/// the approval ran.
pub proof fn law_withdrawn(
    cr_id: i64,
    user: Option<Seq<char>>,
    stage: WithdrawStage,
    event: FlowEventV,
)
    ensures
        withdrawn(cr_id, user, stage, event).1 is Execute ==> stage is Cancelling && event is Done,
        withdrawn(cr_id, user, stage, event).0 is Cancelling ==> stage is Instances && (
        event matches FlowEventV::Rows(l) && l.len() > 0 && text_at(l[0], "state"@) == "ACTIVE"@),
        withdrawn(cr_id, user, stage, event).0 is Instances ==> stage is Head && (event matches
            FlowEventV::Rows(rows) && (head_in(rows, cr_id, "approving"@) matches Ok(h)
            && may_withdraw(h, user))),
{
}

/// The parts of a text between commas.
pub open spec fn comma_parts(s: Seq<char>) -> Seq<Seq<char>>
    decreases s.len(),
{
    if s.len() == 0 {
        seq![s]
    } else {
        let p = comma_parts(s.drop_last());
        if s.last() == ',' {
            p.push(Seq::empty())
        } else {
            p.drop_last().push(p.last().push(s.last()))
        }
    }
}

/// The numbers among some texts.
pub open spec fn numbers_in(p: Seq<Seq<char>>) -> Seq<i64>
    decreases p.len(),
{
    if p.len() == 0 {
        Seq::empty()
    } else {
        let r = numbers_in(p.drop_last());
        match parsed_in(trimmed(p.last()), true, i64::MIN as int, i64::MAX as int) {
            Some(n) => r.push(n as i64),
            None => r,
        }
    }
}

/// The numbers of a list with commas; what is no number is left out.
pub fn id_list(s: &str) -> (r: Vec<i64>)
    ensures
        r@ == numbers_in(comma_parts(s@)),
{
    let v = chars_of(s);
    let mut done: Vec<i64> = Vec::new();
    let mut from: usize = 0;
    let mut i: usize = 0;
    assert(v@.take(0) =~= Seq::<char>::empty());
    assert(v@.subrange(0, 0) =~= Seq::<char>::empty());
    reveal_with_fuel(numbers_in, 2);
    while i < v.len()
        invariant
            from <= i <= v@.len(),
            comma_parts(v@.take(i as int)).len() > 0,
            comma_parts(v@.take(i as int)).last() == v@.subrange(from as int, i as int),
            done@ == numbers_in(comma_parts(v@.take(i as int)).drop_last()),
        decreases v@.len() - i,
    {
        let ghost p = comma_parts(v@.take(i as int));
        assert(v@.take(i + 1).drop_last() =~= v@.take(i as int));
        let ghost q = comma_parts(v@.take(i + 1));
        if v[i] == ',' {
            let part = string_of(&v, from, i);
            if let Some(n) = parse_i64(trim(part.as_str()).as_str()) {
                done.push(n);
            }
            assert(q.drop_last() =~= p);
            from = i + 1;
            assert(v@.subrange(from as int, i + 1) =~= Seq::<char>::empty());
        } else {
            assert(q.drop_last() =~= p.drop_last());
            assert(v@.subrange(from as int, i + 1) =~= v@.subrange(from as int, i as int).push(
                v@[i as int],
            ));
        }
        i += 1;
    }
    assert(v@.take(v@.len() as int) =~= s@);
    let part = string_of(&v, from, v.len());
    if let Some(n) = parse_i64(trim(part.as_str()).as_str()) {
        done.push(n);
    }
    done
}

/// How long a change request may be approving without an approval, in seconds.
pub const LAZY_SYNC_STALE_SECS: i64 = 300;

/// What a look at the approval of a change request waits for.
#[derive(Debug)]
pub enum StatusStage {
    Start,
    Head,
    /// Whether the change request is approving, rather than being written.
    Instances(bool),
    Stale,
    Reverting,
    /// What is answered once the change request is in line.
    Healing(Json),
    Over,
}

/// What a stage stands for.
#[verifier::ext_equal]
pub enum StatusStageV {
    Start,
    Head,
    Instances(bool),
    Stale,
    Reverting,
    Healing(JsonV),
    Over,
}

impl StatusStage {
    pub open spec fn view(&self) -> StatusStageV {
        match *self {
            StatusStage::Start => StatusStageV::Start,
            StatusStage::Head => StatusStageV::Head,
            StatusStage::Instances(b) => StatusStageV::Instances(b),
            StatusStage::Stale => StatusStageV::Stale,
            StatusStage::Reverting => StatusStageV::Reverting,
            StatusStage::Healing(v) => StatusStageV::Healing(v@),
            StatusStage::Over => StatusStageV::Over,
        }
    }
}

/// A change request without an approval, as it is answered.
pub open spec fn no_instance(cr_id: i64) -> JsonV {
    JsonV::Obj(
        obj_put(
            obj_put(
                obj_put(Seq::empty(), "crId"@, JsonV::Num(number_of(cr_id))),
                "instanceId"@,
                JsonV::Null,
            ),
            "state"@,
            JsonV::Null,
        ),
    )
}

/// A change request with its approval, as it is answered.
pub open spec fn instance_item(cr_id: i64, inst: JsonV) -> JsonV {
    JsonV::Obj(
        obj_put(
            obj_put(
                obj_put(
                    obj_put(Seq::empty(), "crId"@, JsonV::Num(number_of(cr_id))),
                    "instanceId"@,
                    JsonV::Str(text_at(inst, "instanceId"@)),
                ),
                "state"@,
                JsonV::Str(text_at(inst, "state"@)),
            ),
            "businessKey"@,
            member_at(inst, "businessKey"@),
        ),
    )
}

fn show_no_instance(cr_id: i64) -> (r: Json)
    ensures
        r@ == no_instance(cr_id),
{
    let o = put(Object::new(), "crId", Json::integer(cr_id));
    let o = put(o, "instanceId", Json::Null);
    Json::Obj(put(o, "state", Json::Null))
}

fn show_instance(cr_id: i64, inst: &Json) -> (r: Json)
    ensures
        r@ == instance_item(cr_id, inst@),
{
    let o = put(Object::new(), "crId", Json::integer(cr_id));
    let o = put(o, "instanceId", Json::Str(text_member(inst, "instanceId")));
    let o = put(o, "state", Json::Str(text_member(inst, "state")));
    Json::Obj(
        put(o, "businessKey", member(inst, "businessKey")),
    )
}

/// Whether a change request has an approval to look at: it is approving, or being written.
pub open spec fn under_way(rows: Seq<JsonV>, cr_id: i64) -> Option<bool> {
    match head_of(rows, cr_id) {
        Ok(h) => if status_of(h) == "approving"@ {
            Some(true)
        } else if status_of(h) == "activating"@ {
            Some(false)
        } else {
            None
        },
        Err(_) => None,
    }
}

fn still_under_way(rows: &Vec<Json>, cr_id: i64) -> (r: Option<bool>)
    ensures
        r == under_way(values_view(rows@), cr_id),
{
    match read_cr_head(rows, cr_id) {
        Ok(h) => {
            let s = doc_status(&h);
            if same_text(s.as_str(), "approving") {
                Some(true)
            } else if same_text(s.as_str(), "activating") {
                Some(false)
            } else {
                None
            }
        },
        Err(_) => None,
    }
}

/// The query whether a change request has been approving for too long.
pub open spec fn stale_query(cr_id: i64) -> FlowActionV {
    FlowActionV::Query(
        StatementV {
            sql: "SELECT COUNT(*) AS c FROM cv_mdm_apply WHERE id = $1 AND update_time < now() - ($2::int8 * interval '1 second')"@,
            params: seq![SqlV::Int(cr_id), SqlV::Int(LAZY_SYNC_STALE_SECS)],
        },
    )
}

/// The approval that was found: one that has ended brings the change request in line.
pub open spec fn looked_at(cr_id: i64, inst: JsonV) -> (StatusStageV, FlowActionV) {
    let item = instance_item(cr_id, inst);
    let id = text_at(inst, "instanceId"@);
    let state = text_at(inst, "state"@);
    if state == "COMPLETED"@ {
        (StatusStageV::Healing(item), FlowActionV::Sync(id, "completed"@, None))
    } else if state == "TERMINATED"@ {
        (
            StatusStageV::Healing(item),
            FlowActionV::Sync(id, "terminated"@, Some("TERMINATED"@)),
        )
    } else {
        (StatusStageV::Over, FlowActionV::Answer(item))
    }
}

/// One step of a look at the approval of a change request: one that is approving without an
/// approval for too long is a draft again.
pub open spec fn looked(cr_id: i64, stage: StatusStageV, event: FlowEventV) -> (
    StatusStageV,
    FlowActionV,
) {
    let none = (StatusStageV::Over, FlowActionV::Answer(no_instance(cr_id)));
    match (stage, event) {
        (StatusStageV::Reverting, _) => none,
        (StatusStageV::Healing(item), _) => (StatusStageV::Over, FlowActionV::Answer(item)),
        (StatusStageV::Start, FlowEventV::Begin) => (StatusStageV::Head, head_query(cr_id)),
        (StatusStageV::Head, FlowEventV::Failed(_)) => none,
        (StatusStageV::Head, FlowEventV::Rows(rows)) => match under_way(rows, cr_id) {
            Some(b) => (StatusStageV::Instances(b), FlowActionV::ReadInstances(cr_id)),
            None => none,
        },
        (StatusStageV::Instances(b), FlowEventV::Rows(list)) => if list.len() > 0 {
            looked_at(cr_id, list[0])
        } else if b {
            (StatusStageV::Stale, stale_query(cr_id))
        } else {
            none
        },
        (StatusStageV::Stale, FlowEventV::Rows(rows)) => if rows.len() > 0 && int_at(
            rows[0],
            "c"@,
        ) > 0 {
            (
                StatusStageV::Reverting,
                FlowActionV::Execute(leave_approving(cr_id, "draft"@)),
            )
        } else {
            none
        },
        (_, FlowEventV::Failed(m)) => (StatusStageV::Over, FlowActionV::Fail(m)),
        _ => (StatusStageV::Over, out_of_step()),
    }
}

fn look_at(cr_id: i64, inst: &Json) -> (r: (StatusStage, FlowAction))
    ensures
        (r.0@, r.1@) == looked_at(cr_id, inst@),
{
    let item = show_instance(cr_id, inst);
    let id = text_member(inst, "instanceId");
    let state = text_member(inst, "state");
    if same_text(state.as_str(), "COMPLETED") {
        (StatusStage::Healing(item), FlowAction::Sync(id, "completed".to_owned(), None))
    } else if same_text(state.as_str(), "TERMINATED") {
        (
            StatusStage::Healing(item),
            FlowAction::Sync(id, "terminated".to_owned(), Some("TERMINATED".to_owned())),
        )
    } else {
        (StatusStage::Over, FlowAction::Answer(item))
    }
}

/// One step of a look at the approval of a change request.
pub fn mdm_cr_flow_status(cr_id: i64, stage: StatusStage, event: FlowEvent) -> (r: (
    StatusStage,
    FlowAction,
))
    ensures
        (r.0@, r.1@) == looked(cr_id, stage@, event@),
{
    match (stage, event) {
        (StatusStage::Reverting, _) => (
            StatusStage::Over,
            FlowAction::Answer(show_no_instance(cr_id)),
        ),
        (StatusStage::Healing(item), _) => (StatusStage::Over, FlowAction::Answer(item)),
        (StatusStage::Start, FlowEvent::Begin) => (StatusStage::Head, query_head(cr_id)),
        (StatusStage::Head, FlowEvent::Failed(_)) => (
            StatusStage::Over,
            FlowAction::Answer(show_no_instance(cr_id)),
        ),
        (StatusStage::Head, FlowEvent::Rows(rows)) => match still_under_way(&rows, cr_id) {
            Some(b) => (StatusStage::Instances(b), FlowAction::ReadInstances(cr_id)),
            None => (StatusStage::Over, FlowAction::Answer(show_no_instance(cr_id))),
        },
        (StatusStage::Instances(b), FlowEvent::Rows(list)) => {
            if list.len() > 0 {
                look_at(cr_id, &list[0])
            } else if b {
                (
                    StatusStage::Stale,
                    FlowAction::Query(cr_updated_before(cr_id, LAZY_SYNC_STALE_SECS)),
                )
            } else {
                (StatusStage::Over, FlowAction::Answer(show_no_instance(cr_id)))
            }
        },
        (StatusStage::Stale, FlowEvent::Rows(rows)) => {
            if rows.len() > 0 && int_member(&rows[0], "c") > 0 {
                (StatusStage::Reverting, move_out(cr_id, "draft"))
            } else {
                (StatusStage::Over, FlowAction::Answer(show_no_instance(cr_id)))
            }
        },
        (_, FlowEvent::Failed(m)) => (StatusStage::Over, FlowAction::Fail(m)),
        _ => (StatusStage::Over, stray_event()),
    }
}

/// A request for the approvals of some change requests.
#[derive(Debug)]
pub struct FlowStatusQuery {
    /// Their numbers, with commas between them.
    pub cr_ids: String,
}

/// A request for the history of a change request.
#[derive(Debug)]
pub struct FlowHistoryQuery {
    pub cr_id: i64,
}

/// One approval with what was said of it.
pub open spec fn history_item(inst: JsonV, comments: Seq<JsonV>) -> JsonV {
    let o = obj_put(
        Seq::empty(),
        "instanceId"@,
        JsonV::Str(text_at(inst, "instanceId"@)),
    );
    let o = obj_put(o, "state"@, member_at(inst, "state"@));
    let o = obj_put(
        o,
        "businessKey"@,
        member_at(inst, "businessKey"@),
    );
    let o = obj_put(o, "createdAt"@, JsonV::Null);
    JsonV::Obj(obj_put(o, "comments"@, JsonV::Arr(comments)))
}

/// One approval with what was said of it.
pub fn mdm_cr_flow_history(inst: &Json, comments: Vec<Json>) -> (r: Json)
    ensures
        r@ == history_item(inst@, values_view(comments@)),
{
    let o = put(Object::new(), "instanceId", Json::Str(text_member(inst, "instanceId")));
    let o = put(o, "state", member(inst, "state"));
    let o = put(o, "businessKey", member(inst, "businessKey"));
    let o = put(o, "createdAt", Json::Null);
    Json::Obj(put(o, "comments", array(comments)))
}

} // verus!
