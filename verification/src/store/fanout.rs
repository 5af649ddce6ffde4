//! Fanning events out to the subscriptions that they concern: one transaction, step by step.
//!
//! [`fanout_tick`] is told what came of the last step and says what to do next. Whatever fails in
//! between ends the round; the caller then rolls the transaction back.

use crate::json::{values_view, Json, JsonV};
use crate::sql::{Statement, StatementV};
use crate::store::dispatch_store::{
    advance_watermark, dispatch_inserts, dispatches_view, fanout, fanout_events, fanout_rows,
    fanout_subscriptions, insert_dispatches, lock_watermark, next_events, pushed_subscriptions,
    read_events, read_fanout_subscriptions, watermark_in, watermark_lock, watermark_move,
    watermark_of, NewDispatch, NewDispatchV,
};
use crate::store::jsonb::parsed_rows;
use crate::unmerge::statements_view;
use vstd::prelude::*;

verus! {

/// What came back of the last step.
#[derive(Debug)]
pub enum FanoutEvent {
    Begin,
    Rows(Vec<Json>),
    /// Fresh ids.
    Ids(Vec<i64>),
    /// How many rows changed.
    Changed(u64),
}

/// What an event stands for.
#[verifier::ext_equal]
pub enum FanoutEventV {
    Begin,
    Rows(Seq<JsonV>),
    Ids(Seq<i64>),
    Changed(u64),
}

impl FanoutEvent {
    pub open spec fn view(&self) -> FanoutEventV {
        match *self {
            FanoutEvent::Begin => FanoutEventV::Begin,
            FanoutEvent::Rows(r) => FanoutEventV::Rows(values_view(r@)),
            FanoutEvent::Ids(i) => FanoutEventV::Ids(i@),
            FanoutEvent::Changed(n) => FanoutEventV::Changed(n),
        }
    }
}

/// What a round still has to write: inserts, then the mark, beside the number of deliveries made
/// so far.
#[derive(Debug)]
pub struct FanoutWork {
    pub inserts: Vec<Statement>,
    pub advance: Option<Statement>,
    pub created: u64,
}

/// What the work of a round stands for.
#[verifier::ext_equal]
pub struct FanoutWorkV {
    pub inserts: Seq<StatementV>,
    pub advance: Option<StatementV>,
    pub created: u64,
}

/// The view of a statement that may be missing.
pub open spec fn opt_statement(s: Option<Statement>) -> Option<StatementV> {
    match s {
        Some(x) => Some(x@),
        None => None,
    }
}

impl FanoutWork {
    pub open spec fn view(&self) -> FanoutWorkV {
        FanoutWorkV {
            inserts: statements_view(self.inserts@),
            advance: opt_statement(self.advance),
            created: self.created,
        }
    }
}

/// What a round waits for.
#[derive(Debug)]
pub enum FanoutStage {
    Start,
    Mark,
    /// The events behind a mark.
    Events(i64),
    /// The subscriptions, for the events behind a mark.
    Subscriptions(i64, Vec<Json>),
    /// The ids of new deliveries, and how the mark moves.
    Ids(Vec<NewDispatch>, Option<Statement>),
    /// An insert.
    Inserting(FanoutWork),
    /// The move of the mark.
    Advancing(u64),
    Over,
}

/// What a stage stands for.
#[verifier::ext_equal]
pub enum FanoutStageV {
    Start,
    Mark,
    Events(i64),
    Subscriptions(i64, Seq<JsonV>),
    Ids(Seq<NewDispatchV>, Option<StatementV>),
    Inserting(FanoutWorkV),
    Advancing(u64),
    Over,
}

impl FanoutStage {
    pub open spec fn view(&self) -> FanoutStageV {
        match *self {
            FanoutStage::Start => FanoutStageV::Start,
            FanoutStage::Mark => FanoutStageV::Mark,
            FanoutStage::Events(s) => FanoutStageV::Events(s),
            FanoutStage::Subscriptions(s, e) => FanoutStageV::Subscriptions(s, values_view(e@)),
            FanoutStage::Ids(d, a) => FanoutStageV::Ids(dispatches_view(d@), opt_statement(a)),
            FanoutStage::Inserting(w) => FanoutStageV::Inserting(w@),
            FanoutStage::Advancing(n) => FanoutStageV::Advancing(n),
            FanoutStage::Over => FanoutStageV::Over,
        }
    }
}

/// What to do next.
#[derive(Debug)]
pub enum FanoutAction {
    Query(Statement),
    /// Make fresh ids, so many.
    NewIds(usize),
    Execute(Statement),
    /// Commit; so many deliveries were made.
    Done(u64),
    /// Roll back.
    Fail(String),
}

/// What an action stands for.
#[verifier::ext_equal]
pub enum FanoutActionV {
    Query(StatementV),
    NewIds(nat),
    Execute(StatementV),
    Done(u64),
    Fail(Seq<char>),
}

impl FanoutAction {
    pub open spec fn view(&self) -> FanoutActionV {
        match *self {
            FanoutAction::Query(s) => FanoutActionV::Query(s@),
            FanoutAction::NewIds(n) => FanoutActionV::NewIds(n as nat),
            FanoutAction::Execute(s) => FanoutActionV::Execute(s@),
            FanoutAction::Done(n) => FanoutActionV::Done(n),
            FanoutAction::Fail(e) => FanoutActionV::Fail(e@),
        }
    }
}

/// The next write of a round: an insert, the move of the mark, or none.
pub open spec fn write_step(w: FanoutWorkV) -> (FanoutStageV, FanoutActionV) {
    if w.inserts.len() > 0 {
        (
            FanoutStageV::Inserting(FanoutWorkV { inserts: w.inserts.drop_first(), ..w }),
            FanoutActionV::Execute(w.inserts[0]),
        )
    } else {
        match w.advance {
            Some(s) => (FanoutStageV::Advancing(w.created), FanoutActionV::Execute(s)),
            None => (FanoutStageV::Over, FanoutActionV::Done(w.created)),
        }
    }
}

/// One step of a round: the mark is locked, the events behind it are read, and where there are
/// some, each is delivered to the subscriptions that it concerns; then the mark moves past them.
pub open spec fn fanned(batch: i64, stage: FanoutStageV, event: FanoutEventV) -> (
    FanoutStageV,
    FanoutActionV,
) {
    match (stage, event) {
        (FanoutStageV::Start, FanoutEventV::Begin) => (
            FanoutStageV::Mark,
            FanoutActionV::Query(watermark_lock()),
        ),
        (FanoutStageV::Mark, FanoutEventV::Rows(rows)) => (
            FanoutStageV::Events(watermark_in(rows)),
            FanoutActionV::Query(next_events(watermark_in(rows), batch)),
        ),
        (FanoutStageV::Events(last_seq), FanoutEventV::Rows(rows)) => if rows.len() == 0 {
            (FanoutStageV::Over, FanoutActionV::Done(0))
        } else {
            (
                FanoutStageV::Subscriptions(last_seq, parsed_rows(rows, seq!["payload"@])),
                FanoutActionV::Query(pushed_subscriptions()),
            )
        },
        (FanoutStageV::Subscriptions(last_seq, events), FanoutEventV::Rows(rows)) => {
            let new = fanout(events, parsed_rows(rows, seq!["event_types"@, "filter"@]));
            let advance = watermark_move(last_seq, events);
            if new.len() == 0 {
                write_step(FanoutWorkV { inserts: Seq::empty(), advance, created: 0 })
            } else {
                (FanoutStageV::Ids(new, advance), FanoutActionV::NewIds(new.len()))
            }
        },
        (FanoutStageV::Ids(new, advance), FanoutEventV::Ids(ids)) => if ids.len() < new.len() {
            (FanoutStageV::Over, FanoutActionV::Fail("新 id 不足"@))
        } else {
            write_step(
                FanoutWorkV {
                    inserts: dispatch_inserts(new, ids, "DO NOTHING"@),
                    advance,
                    created: 0,
                },
            )
        },
        (FanoutStageV::Inserting(w), FanoutEventV::Changed(n)) => write_step(
            FanoutWorkV { created: (w.created + n) as u64, ..w },
        ),
        (FanoutStageV::Advancing(n), FanoutEventV::Changed(_)) => (
            FanoutStageV::Over,
            FanoutActionV::Done(n),
        ),
        _ => (FanoutStageV::Over, FanoutActionV::Fail("扇出步骤与事件不符"@)),
    }
}

fn next_write(work: FanoutWork) -> (r: (FanoutStage, FanoutAction))
    ensures
        (r.0@, r.1@) == write_step(work@),
{
    let FanoutWork { inserts, advance, created } = work;
    let mut left: Vec<Statement> = inserts;
    assert(left@.len() == statements_view(left@).len());
    if left.len() > 0 {
        let ghost all = left@;
        let s = left.remove(0);
        assert(statements_view(left@) =~= statements_view(all).drop_first());
        (
            FanoutStage::Inserting(FanoutWork { inserts: left, advance, created }),
            FanoutAction::Execute(s),
        )
    } else {
        match advance {
            Some(s) => (FanoutStage::Advancing(created), FanoutAction::Execute(s)),
            None => (FanoutStage::Over, FanoutAction::Done(created)),
        }
    }
}

/// One step of a round.
pub fn fanout_tick(batch: i64, stage: FanoutStage, event: FanoutEvent) -> (r: (
    FanoutStage,
    FanoutAction,
))
    requires
        (stage, event) matches (FanoutStage::Inserting(w), FanoutEvent::Changed(n)) ==> w.created
            + n <= u64::MAX,
    ensures
        (r.0@, r.1@) == fanned(batch, stage@, event@),
{
    match (stage, event) {
        (FanoutStage::Start, FanoutEvent::Begin) => (
            FanoutStage::Mark,
            FanoutAction::Query(lock_watermark()),
        ),
        (FanoutStage::Mark, FanoutEvent::Rows(rows)) => {
            let last_seq: i64 = watermark_of(&rows);
            (FanoutStage::Events(last_seq), FanoutAction::Query(fanout_events(last_seq, batch)))
        },
        (FanoutStage::Events(last_seq), FanoutEvent::Rows(rows)) => if rows.len() == 0 {
            (FanoutStage::Over, FanoutAction::Done(0))
        } else {
            (
                FanoutStage::Subscriptions(last_seq, read_events(&rows)),
                FanoutAction::Query(fanout_subscriptions()),
            )
        },
        (FanoutStage::Subscriptions(last_seq, events), FanoutEvent::Rows(rows)) => {
            let subs = read_fanout_subscriptions(&rows);
            let new = fanout_rows(&events, &subs);
            assert(new@.len() == dispatches_view(new@).len());
            let advance = advance_watermark(last_seq, &events);
            if new.len() == 0 {
                let none: Vec<Statement> = Vec::new();
                assert(statements_view(none@) =~= Seq::<StatementV>::empty());
                next_write(FanoutWork { inserts: none, advance, created: 0 })
            } else {
                let n: usize = new.len();
                (FanoutStage::Ids(new, advance), FanoutAction::NewIds(n))
            }
        },
        (FanoutStage::Ids(new, advance), FanoutEvent::Ids(ids)) => {
            assert(new@.len() == dispatches_view(new@).len());
            if ids.len() < new.len() {
                (FanoutStage::Over, FanoutAction::Fail("新 id 不足".to_owned()))
            } else {
                let inserts = insert_dispatches(&new, ids.as_slice(), "DO NOTHING");
                next_write(FanoutWork { inserts, advance, created: 0 })
            }
        },
        (FanoutStage::Inserting(w), FanoutEvent::Changed(n)) => {
            let FanoutWork { inserts, advance, created } = w;
            next_write(FanoutWork { inserts, advance, created: created + n })
        },
        (FanoutStage::Advancing(n), FanoutEvent::Changed(_)) => (
            FanoutStage::Over,
            FanoutAction::Done(n),
        ),
        _ => (
            FanoutStage::Over,
            FanoutAction::Fail("扇出步骤与事件不符".to_owned()),
        ),
    }
}

/// What a stage still has to write, in order.
pub open spec fn unwritten(stage: FanoutStageV) -> Seq<StatementV> {
    match stage {
        FanoutStageV::Inserting(w) => w.inserts + match w.advance {
            Some(s) => seq![s],
            None => Seq::empty(),
        },
        _ => Seq::empty(),
    }
}

/// A round leaves out none of its writes and makes each once: what it writes next is the first of
/// those that are left, and it commits only where none is.
pub proof fn law_fanout_writes(batch: i64, w: FanoutWorkV, n: u64)
    ensures
        ({
            let left = unwritten(FanoutStageV::Inserting(w));
            let r = fanned(batch, FanoutStageV::Inserting(w), FanoutEventV::Changed(n));
            match r.1 {
                FanoutActionV::Execute(s) => left == seq![s] + unwritten(r.0),
                FanoutActionV::Done(_) => left.len() == 0,
                _ => false,
            }
        }),
{
    if w.inserts.len() > 0 {
        assert(w.inserts =~= seq![w.inserts[0]] + w.inserts.drop_first());
        assert(unwritten(FanoutStageV::Inserting(w)) =~= seq![w.inserts[0]] + unwritten(
            FanoutStageV::Inserting(FanoutWorkV { inserts: w.inserts.drop_first(), ..w }),
        ));
    } else if let Some(s) = w.advance {
        assert(unwritten(FanoutStageV::Inserting(w)) =~= seq![s] + Seq::<StatementV>::empty());
    }
}

/// Before its subscriptions are read a round writes nothing, and a round without events ends
/// without a write.
pub proof fn law_fanout_reads_first(batch: i64, stage: FanoutStageV, event: FanoutEventV)
    requires
        stage is Start || stage is Mark || stage is Events,
    ensures
        !(fanned(batch, stage, event).1 is Execute),
        fanned(batch, stage, event).1 is Done ==> event == FanoutEventV::Rows(Seq::empty()),
{
    if let FanoutEventV::Rows(rows) = event {
        if rows.len() == 0 {
            assert(rows =~= Seq::<JsonV>::empty());
        }
    }
}

} // verus!
