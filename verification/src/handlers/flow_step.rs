//! What a run over the workflow platform waits for, and what it does next.

use crate::flow::{StartRequest, StartV};
use crate::json::{values_view, Json, JsonV};
use crate::match_algo::opt_text;
use crate::sql::{Statement, StatementV};
use crate::text::texts;
use vstd::prelude::*;

verus! {

/// What came back of the last action.
#[derive(Debug)]
pub enum FlowEvent {
    Begin,
    /// The rows of a query, or a list of the platform.
    Rows(Vec<Json>),
    Value(Json),
    /// How many rows changed.
    Changed(u64),
    Names(Vec<String>),
    Done,
    Failed(String),
}

/// What an event stands for.
pub enum FlowEventV {
    Begin,
    Rows(Seq<JsonV>),
    Value(JsonV),
    Changed(u64),
    Names(Seq<Seq<char>>),
    Done,
    Failed(Seq<char>),
}

impl FlowEvent {
    pub open spec fn view(&self) -> FlowEventV {
        match *self {
            FlowEvent::Begin => FlowEventV::Begin,
            FlowEvent::Rows(r) => FlowEventV::Rows(values_view(r@)),
            FlowEvent::Value(v) => FlowEventV::Value(v@),
            FlowEvent::Changed(n) => FlowEventV::Changed(n),
            FlowEvent::Names(t) => FlowEventV::Names(texts(t@)),
            FlowEvent::Done => FlowEventV::Done,
            FlowEvent::Failed(e) => FlowEventV::Failed(e@),
        }
    }
}

/// What to do next.
#[derive(Debug)]
pub enum FlowAction {
    Query(Statement),
    Execute(Statement),
    /// Read which documents an approval is about.
    ReadLinks(String),
    /// Read the approvals of a change request, newest first.
    ReadInstances(i64),
    /// Read one approval with its tasks.
    ReadDetail(String),
    /// Read what one approval knows.
    ReadVariables(String),
    /// Read the tasks that a user may take.
    ReadClaimable(String),
    Start(StartRequest),
    CompleteApply(String, String, String),
    /// Cancel an approval, with the reason.
    Cancel(String, String),
    /// Write a change request into the records.
    Activate(i64),
    /// Bring a change request in line with an approval: its id, the event, and the state.
    Sync(String, String, Option<String>),
    Answer(Json),
    Finish,
    Fail(String),
}

/// What an action stands for.
#[verifier::ext_equal]
pub enum FlowActionV {
    Query(StatementV),
    Execute(StatementV),
    ReadLinks(Seq<char>),
    ReadInstances(i64),
    ReadDetail(Seq<char>),
    ReadVariables(Seq<char>),
    ReadClaimable(Seq<char>),
    Start(StartV),
    CompleteApply(Seq<char>, Seq<char>, Seq<char>),
    Cancel(Seq<char>, Seq<char>),
    Activate(i64),
    Sync(Seq<char>, Seq<char>, Option<Seq<char>>),
    Answer(JsonV),
    Finish,
    Fail(Seq<char>),
}

impl FlowAction {
    pub open spec fn view(&self) -> FlowActionV {
        match *self {
            FlowAction::Query(s) => FlowActionV::Query(s@),
            FlowAction::Execute(s) => FlowActionV::Execute(s@),
            FlowAction::ReadLinks(i) => FlowActionV::ReadLinks(i@),
            FlowAction::ReadInstances(i) => FlowActionV::ReadInstances(i),
            FlowAction::ReadDetail(i) => FlowActionV::ReadDetail(i@),
            FlowAction::ReadVariables(i) => FlowActionV::ReadVariables(i@),
            FlowAction::ReadClaimable(u) => FlowActionV::ReadClaimable(u@),
            FlowAction::Start(s) => FlowActionV::Start(s@),
            FlowAction::CompleteApply(t, i, o) => FlowActionV::CompleteApply(t@, i@, o@),
            FlowAction::Cancel(i, r) => FlowActionV::Cancel(i@, r@),
            FlowAction::Activate(c) => FlowActionV::Activate(c),
            FlowAction::Sync(i, e, s) => FlowActionV::Sync(i@, e@, opt_text(s)),
            FlowAction::Answer(v) => FlowActionV::Answer(v@),
            FlowAction::Finish => FlowActionV::Finish,
            FlowAction::Fail(e) => FlowActionV::Fail(e@),
        }
    }
}

/// What is said of an event that a run did not wait for.
pub open spec fn out_of_step() -> FlowActionV {
    FlowActionV::Fail("流程步骤与事件不符"@)
}

/// Refuses an event that a run did not wait for.
pub fn stray_event() -> (r: FlowAction)
    ensures
        r@ == out_of_step(),
{
    FlowAction::Fail("流程步骤与事件不符".to_owned())
}

} // verus!
