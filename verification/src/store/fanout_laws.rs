//! What a whole round of fanning out makes of the stored deliveries and of the mark.

use crate::distribution::transform::{concerns, int_at, text_at};
use crate::json::{json_get, json_i64, law_get_after_put, JsonV};
use crate::sql::{SqlV, StatementV};
use crate::store::dispatch_store::{
    dispatch_insert, dispatch_inserts, dispatch_of, fanout, law_fanout, next_events, next_watermark,
    owed, owed_for_any, pushed_subscriptions, rows_params, watermark_in, watermark_lock,
    watermark_move, watermark_update, NewDispatchV, CHUNK,
};
use crate::store::fanout::{
    fanned, write_step, FanoutActionV, FanoutEventV, FanoutStageV, FanoutWorkV,
};
use crate::store::jsonb::{column_value, parsed_field, parsed_fields, parsed_rows};
use vstd::prelude::*;

verus! {

/// A stored delivery.
pub struct Delivery {
    pub id: i64,
    pub dispatch: NewDispatchV,
    pub status: Seq<char>,
}

/// The stored deliveries: at most one for a subscription and an event.
pub type Deliveries = Map<(i64, Seq<char>), Delivery>;

/// What a round writes to: the deliveries, and how far the events were fanned out.
#[verifier::ext_equal]
pub struct Queue {
    pub deliveries: Deliveries,
    pub mark: i64,
}

/// A stored subscription: whether it is active, its channel, and the row that is read of it.
pub struct Subscribed {
    pub active: bool,
    pub channel: Seq<char>,
    pub row: JsonV,
}

/// What a round reads: the row of the mark, the events in the order of their numbers, the
/// subscriptions, and fresh ids.
pub struct Source {
    pub mark_rows: Seq<JsonV>,
    pub log: Seq<JsonV>,
    pub subs: Seq<Subscribed>,
    pub ids: Seq<i64>,
}

/// An event lies behind a mark.
pub open spec fn is_behind(row: JsonV, mark: i64) -> bool {
    int_at(row, "seq"@) > mark
}

/// The events behind a mark.
pub open spec fn behind(log: Seq<JsonV>, mark: i64) -> Seq<JsonV>
    decreases log.len(),
{
    if log.len() == 0 {
        Seq::empty()
    } else {
        let r = behind(log.drop_last(), mark);
        if is_behind(log.last(), mark) {
            r.push(log.last())
        } else {
            r
        }
    }
}

/// The first events behind a mark, at most `batch`.
pub open spec fn first_behind(log: Seq<JsonV>, mark: i64, batch: i64) -> Seq<JsonV> {
    let b = behind(log, mark);
    if 0 <= batch < b.len() {
        b.take(batch as int)
    } else {
        b
    }
}

/// The rows of the subscriptions that events are pushed to.
pub open spec fn pushed(subs: Seq<Subscribed>) -> Seq<JsonV>
    decreases subs.len(),
{
    if subs.len() == 0 {
        Seq::empty()
    } else {
        let r = pushed(subs.drop_last());
        if subs.last().active && subs.last().channel != "rest_pull"@ {
            r.push(subs.last().row)
        } else {
            r
        }
    }
}

/// The events of a round.
pub open spec fn events_of(c: Source, mark: i64, batch: i64) -> Seq<JsonV> {
    parsed_rows(first_behind(c.log, mark, batch), seq!["payload"@])
}

/// The subscriptions of a round.
pub open spec fn subs_of(c: Source) -> Seq<JsonV> {
    parsed_rows(pushed(c.subs), seq!["event_types"@, "filter"@])
}

/// The deliveries that a round owes.
pub open spec fn due(c: Source, mark: i64, batch: i64) -> Seq<NewDispatchV> {
    fanout(events_of(c, mark, batch), subs_of(c))
}

/// What a delivery is found by.
pub open spec fn key_of(d: NewDispatchV) -> (i64, Seq<char>) {
    (d.subscription_id, d.event_id)
}

/// A delivery that waits.
pub open spec fn waiting(d: NewDispatchV, id: i64) -> Delivery {
    Delivery { id, dispatch: d, status: "pending"@ }
}

/// The deliveries with some rows inserted, one after the other, each where there is none yet.
pub open spec fn inserted(q: Deliveries, rows: Seq<NewDispatchV>, ids: Seq<i64>) -> Deliveries
    decreases rows.len(),
{
    if rows.len() == 0 {
        q
    } else {
        let r = inserted(q, rows.drop_last(), ids);
        if r.dom().contains(key_of(rows.last())) {
            r
        } else {
            r.insert(key_of(rows.last()), waiting(rows.last(), ids[rows.len() - 1]))
        }
    }
}

/// How many of the rows are inserted.
pub open spec fn added(q: Deliveries, rows: Seq<NewDispatchV>, ids: Seq<i64>) -> nat
    decreases rows.len(),
{
    if rows.len() == 0 {
        0
    } else {
        let n = added(q, rows.drop_last(), ids);
        if inserted(q, rows.drop_last(), ids).dom().contains(key_of(rows.last())) {
            n
        } else {
            n + 1
        }
    }
}

/// The `k`-th row that an insert binds.
pub open spec fn row_in(p: Seq<SqlV>, k: int) -> NewDispatchV {
    NewDispatchV {
        subscription_id: p[6 * k + 1]->Int_0,
        event_id: p[6 * k + 2]->Text_0,
        event_seq: p[6 * k + 3]->Int_0,
        dict_code: p[6 * k + 4]->Text_0,
        record_id: p[6 * k + 5]->Int_0,
    }
}

/// The rows that an insert binds.
pub open spec fn rows_in(p: Seq<SqlV>) -> Seq<NewDispatchV> {
    Seq::new(p.len() / 6, |k: int| row_in(p, k))
}

/// The ids that an insert binds.
pub open spec fn ids_in(p: Seq<SqlV>) -> Seq<i64> {
    Seq::new(p.len() / 6, |k: int| p[6 * k]->Int_0)
}

/// What a statement makes of the stored values, and how many rows it changes: the update moves the
/// mark; the insert adds its rows, each where there is none yet; no other statement is run.
pub open spec fn run_write(s: StatementV, q: Queue) -> (Queue, u64) {
    let rows = rows_in(s.params);
    let ids = ids_in(s.params);
    if s.params.len() == 2 && s == watermark_update(s.params[0]->Int_0) {
        (Queue { mark: s.params[0]->Int_0, ..q }, 1)
    } else if s == dispatch_insert(rows, ids, "DO NOTHING"@) {
        (
            Queue { deliveries: inserted(q.deliveries, rows, ids), ..q },
            added(q.deliveries, rows, ids) as u64,
        )
    } else {
        (q, 0)
    }
}

/// The rows that a query finds.
pub open spec fn found(c: Source, s: StatementV) -> Seq<JsonV> {
    if s == watermark_lock() {
        c.mark_rows
    } else if s == pushed_subscriptions() {
        pushed(c.subs)
    } else if s.params.len() == 2 && s == next_events(s.params[0]->Int_0, s.params[1]->Int_0) {
        first_behind(c.log, s.params[0]->Int_0, s.params[1]->Int_0)
    } else {
        Seq::empty()
    }
}

/// What comes of an action.
pub open spec fn told(c: Source, q: Queue, action: FanoutActionV) -> (Queue, FanoutEventV) {
    match action {
        FanoutActionV::Query(s) => (q, FanoutEventV::Rows(found(c, s))),
        FanoutActionV::NewIds(_) => (q, FanoutEventV::Ids(c.ids)),
        FanoutActionV::Execute(s) => (
            run_write(s, q).0,
            FanoutEventV::Changed(run_write(s, q).1),
        ),
        _ => (q, FanoutEventV::Begin),
    }
}

/// The end of a round that is at some stage, with an action to take and so many steps to go.
pub open spec fn finished(
    batch: i64,
    c: Source,
    stage: FanoutStageV,
    action: FanoutActionV,
    q: Queue,
    steps: nat,
) -> (Queue, FanoutActionV)
    decreases steps,
{
    if action is Done || action is Fail || steps == 0 {
        (q, action)
    } else {
        let t = told(c, q, action);
        let n = fanned(batch, stage, t.1);
        finished(batch, c, n.0, n.1, t.0, (steps - 1) as nat)
    }
}

/// A whole round: what is stored afterwards, and how many deliveries it made; none where it ended
/// otherwise, and was rolled back.
pub open spec fn ticked(batch: i64, c: Source, q: Queue) -> (Queue, Option<u64>) {
    let first = fanned(batch, FanoutStageV::Start, FanoutEventV::Begin);
    let r = finished(batch, c, first.0, first.1, q, due(c, q.mark, batch).len() + 5);
    match r.1 {
        FanoutActionV::Done(n) => (r.0, Some(n)),
        _ => (q, None),
    }
}

proof fn lemma_bound_rows(rows: Seq<NewDispatchV>, ids: Seq<i64>)
    requires
        rows.len() <= ids.len(),
    ensures
        rows_params(rows, ids).len() == 6 * rows.len(),
        rows_in(rows_params(rows, ids)) == rows,
        ids_in(rows_params(rows, ids)) == ids.take(rows.len() as int),
    decreases rows.len(),
{
    let p = rows_params(rows, ids);
    if rows.len() > 0 {
        let front = rows.drop_last();
        let f = rows_params(front, ids);
        lemma_bound_rows(front, ids);
        assert forall|k: int| 0 <= k < rows.len() implies #[trigger] row_in(p, k) == rows[k]
            && p[6 * k]->Int_0 == ids[k] by {
            if k < front.len() {
                assert(rows_in(f)[k] == front[k]);
                assert(ids_in(f)[k] == ids[k]);
                assert(row_in(p, k) =~= row_in(f, k));
            } else {
                assert(row_in(p, k) =~= rows[k]);
            }
        }
        assert(rows_in(p) =~= rows);
        assert forall|k: int| 0 <= k < rows.len() implies #[trigger] ids_in(p)[k] == ids[k] by {
            assert(row_in(p, k) == rows[k]);
        }
        assert(ids_in(p) =~= ids.take(rows.len() as int));
    } else {
        assert(rows_in(p) =~= rows);
        assert(ids_in(p) =~= ids.take(0));
    }
}

proof fn lemma_inserted_ids(q: Deliveries, rows: Seq<NewDispatchV>, a: Seq<i64>, b: Seq<i64>)
    requires
        forall|i: int| 0 <= i < rows.len() ==> a[i] == b[i],
    ensures
        inserted(q, rows, a) == inserted(q, rows, b),
        added(q, rows, a) == added(q, rows, b),
    decreases rows.len(),
{
    if rows.len() > 0 {
        lemma_inserted_ids(q, rows.drop_last(), a, b);
    }
}

proof fn lemma_inserted_split(q: Deliveries, rows: Seq<NewDispatchV>, ids: Seq<i64>, n: int)
    requires
        0 <= n <= rows.len() <= ids.len(),
    ensures
        ({
            let first = inserted(q, rows.take(n), ids.take(n));
            &&& inserted(q, rows, ids) == inserted(first, rows.skip(n), ids.skip(n))
            &&& added(q, rows, ids) == added(q, rows.take(n), ids.take(n)) + added(
                first,
                rows.skip(n),
                ids.skip(n),
            )
        }),
    decreases rows.len(),
{
    if rows.len() == n {
        assert(rows.take(n) =~= rows);
        assert(rows.skip(n) =~= Seq::<NewDispatchV>::empty());
        lemma_inserted_ids(q, rows, ids, ids.take(n));
    } else {
        let front = rows.drop_last();
        lemma_inserted_split(q, front, ids, n);
        assert(front.take(n) =~= rows.take(n));
        assert(rows.skip(n).drop_last() =~= front.skip(n));
        assert(rows.skip(n).last() == rows.last());
        assert(ids.skip(n)[rows.skip(n).len() - 1] == ids[rows.len() - 1]);
    }
}

proof fn lemma_added(q: Deliveries, rows: Seq<NewDispatchV>, ids: Seq<i64>)
    requires
        q.dom().finite(),
    ensures
        added(q, rows, ids) <= rows.len(),
        inserted(q, rows, ids).dom().finite(),
        inserted(q, rows, ids).dom().len() == q.dom().len() + added(q, rows, ids),
    decreases rows.len(),
{
    if rows.len() > 0 {
        lemma_added(q, rows.drop_last(), ids);
    }
}

/// A delivery is a waiting one of some row.
pub open spec fn is_new(rows: Seq<NewDispatchV>, d: Delivery) -> bool {
    rows.contains(d.dispatch) && d.status == "pending"@
}

proof fn lemma_inserted(
    q: Deliveries,
    rows: Seq<NewDispatchV>,
    ids: Seq<i64>,
    key: (i64, Seq<char>),
)
    ensures
        q.dom().contains(key) ==> inserted(q, rows, ids).dom().contains(key) && inserted(
            q,
            rows,
            ids,
        )[key] == q[key],
        inserted(q, rows, ids).dom().contains(key) && !q.dom().contains(key) ==> is_new(
            rows,
            inserted(q, rows, ids)[key],
        ) && key_of(inserted(q, rows, ids)[key].dispatch) == key,
        forall|k: int|
            0 <= k < rows.len() && key_of(#[trigger] rows[k]) == key ==> inserted(
                q,
                rows,
                ids,
            ).dom().contains(key),
    decreases rows.len(),
{
    if rows.len() > 0 {
        let front = rows.drop_last();
        let r = inserted(q, front, ids);
        let all = inserted(q, rows, ids);
        lemma_inserted(q, front, ids, key);
        if all.dom().contains(key) && !q.dom().contains(key) {
            if r.dom().contains(key) {
                let k = choose|k: int| 0 <= k < front.len() && front[k] == r[key].dispatch;
                assert(rows[k] == r[key].dispatch);
                assert(all[key] == r[key]);
            } else {
                assert(rows[rows.len() - 1] == all[key].dispatch);
            }
        }
        assert forall|k: int| 0 <= k < rows.len() && key_of(#[trigger] rows[k]) == key implies
            all.dom().contains(key) by {
            if k < front.len() {
                assert(front[k] == rows[k]);
            }
        }
    }
}

/// The mark after its move.
pub open spec fn moved(q: Queue, advance: Option<StatementV>) -> i64 {
    match advance {
        Some(s) => s.params[0]->Int_0,
        None => q.mark,
    }
}

proof fn lemma_writes(
    batch: i64,
    c: Source,
    q: Queue,
    rows: Seq<NewDispatchV>,
    ids: Seq<i64>,
    advance: Option<StatementV>,
    created: u64,
    steps: nat,
)
    requires
        q.deliveries.dom().finite(),
        rows.len() <= ids.len(),
        created + rows.len() <= u64::MAX,
        steps >= rows.len() + 1,
        advance matches Some(s) ==> s == watermark_update(s.params[0]->Int_0),
    ensures
        ({
            let w = FanoutWorkV {
                inserts: dispatch_inserts(rows, ids, "DO NOTHING"@),
                advance,
                created,
            };
            let next = write_step(w);
            finished(batch, c, next.0, next.1, q, steps) == (
                Queue {
                    deliveries: inserted(q.deliveries, rows, ids),
                    mark: moved(q, advance),
                },
                FanoutActionV::Done((created + added(q.deliveries, rows, ids)) as u64),
            )
        }),
    decreases rows.len(),
{
    let inserts = dispatch_inserts(rows, ids, "DO NOTHING"@);
    let w = FanoutWorkV { inserts, advance, created };
    let next = write_step(w);
    let t = told(c, q, next.1);
    let after = fanned(batch, next.0, t.1);
    if rows.len() == 0 {
        if let Some(s) = advance {
            assert(s.params.len() == 2);
            assert(t.0 == Queue { mark: s.params[0]->Int_0, ..q });
            assert(after.1 == FanoutActionV::Done(created));
            assert(finished(batch, c, after.0, after.1, t.0, (steps - 1) as nat) == (
                t.0,
                after.1,
            ));
        }
    } else {
        let n: int = if rows.len() < CHUNK {
            rows.len() as int
        } else {
            CHUNK as int
        };
        let some = rows.take(n);
        let some_ids = ids.take(n);
        let s = dispatch_insert(some, some_ids, "DO NOTHING"@);
        lemma_bound_rows(some, some_ids);
        assert(some_ids.take(n) =~= some_ids);
        assert(inserts[0] == s);
        assert(inserts.drop_first() =~= dispatch_inserts(
            rows.skip(n),
            ids.skip(n),
            "DO NOTHING"@,
        ));
        let k = added(q.deliveries, some, some_ids);
        lemma_added(q.deliveries, some, some_ids);
        assert(run_write(s, q) == (
            Queue { deliveries: inserted(q.deliveries, some, some_ids), ..q },
            k as u64,
        ));
        lemma_inserted_split(q.deliveries, rows, ids, n);
        lemma_writes(
            batch,
            c,
            t.0,
            rows.skip(n),
            ids.skip(n),
            advance,
            (created + k) as u64,
            (steps - 1) as nat,
        );
    }
}

proof fn lemma_reads(batch: i64, c: Source, q: Queue, steps: nat)
    requires
        watermark_in(c.mark_rows) == q.mark,
        steps >= 2,
    ensures
        ({
            let first = fanned(batch, FanoutStageV::Start, FanoutEventV::Begin);
            let next = fanned(
                batch,
                FanoutStageV::Events(q.mark),
                FanoutEventV::Rows(first_behind(c.log, q.mark, batch)),
            );
            finished(batch, c, first.0, first.1, q, steps) == finished(
                batch,
                c,
                next.0,
                next.1,
                q,
                (steps - 2) as nat,
            )
        }),
{
    reveal_with_fuel(finished, 3);
    assert(watermark_lock().params.len() == 1);
    assert(pushed_subscriptions().params.len() == 0);
    assert(next_events(q.mark, batch).params.len() == 2);
    assert(found(c, watermark_lock()) == c.mark_rows);
    assert(found(c, next_events(q.mark, batch)) == first_behind(c.log, q.mark, batch));
}

proof fn lemma_delivers(batch: i64, c: Source, q: Queue, events: Seq<JsonV>, steps: nat)
    requires
        q.deliveries.dom().finite(),
        fanout(events, subs_of(c)).len() <= c.ids.len(),
        fanout(events, subs_of(c)).len() <= u64::MAX,
        steps >= fanout(events, subs_of(c)).len() + 3,
    ensures
        ({
            let rows = fanout(events, subs_of(c));
            finished(
                batch,
                c,
                FanoutStageV::Subscriptions(q.mark, events),
                FanoutActionV::Query(pushed_subscriptions()),
                q,
                steps,
            ) == (
                Queue {
                    deliveries: inserted(q.deliveries, rows, c.ids),
                    mark: next_watermark(q.mark, events),
                },
                FanoutActionV::Done(added(q.deliveries, rows, c.ids) as u64),
            )
        }),
{
    reveal_with_fuel(finished, 3);
    let rows = fanout(events, subs_of(c));
    let advance = watermark_move(q.mark, events);
    assert(watermark_lock().params.len() == 1);
    assert(found(c, pushed_subscriptions()) == pushed(c.subs));
    if rows.len() == 0 {
        assert(dispatch_inserts(rows, c.ids, "DO NOTHING"@) =~= Seq::<StatementV>::empty());
        lemma_writes(batch, c, q, rows, c.ids, advance, 0, (steps - 1) as nat);
    } else {
        lemma_writes(batch, c, q, rows, c.ids, advance, 0, (steps - 2) as nat);
    }
}

proof fn lemma_round(batch: i64, c: Source, q: Queue)
    requires
        q.deliveries.dom().finite(),
        watermark_in(c.mark_rows) == q.mark,
        due(c, q.mark, batch).len() <= c.ids.len(),
        due(c, q.mark, batch).len() <= u64::MAX,
    ensures
        ({
            let rows = due(c, q.mark, batch);
            ticked(batch, c, q) == (
                Queue {
                    deliveries: inserted(q.deliveries, rows, c.ids),
                    mark: next_watermark(q.mark, events_of(c, q.mark, batch)),
                },
                Some(added(q.deliveries, rows, c.ids) as u64),
            )
        }),
{
    let rows = due(c, q.mark, batch);
    let events = events_of(c, q.mark, batch);
    lemma_reads(batch, c, q, rows.len() + 5);
    if events.len() > 0 {
        lemma_delivers(batch, c, q, events, rows.len() + 3);
    }
}

proof fn lemma_other_member(v: JsonV, field: Seq<char>, k: Seq<char>)
    requires
        k != field,
    ensures
        json_get(parsed_field(v, field), k) == json_get(v, k),
{
    if let (JsonV::Obj(o), Some(p)) = (v, column_value(v, field)) {
        law_get_after_put(o, field, p, k);
    }
}

proof fn lemma_event_seq(rows: Seq<JsonV>, i: int)
    requires
        0 <= i < rows.len(),
    ensures
        json_get(parsed_rows(rows, seq!["payload"@])[i], "seq"@) == json_get(rows[i], "seq"@),
{
    reveal_strlit("payload");
    reveal_strlit("seq");
    assert("payload"@.len() != "seq"@.len());
    let f = seq!["payload"@];
    assert(f.drop_last() =~= Seq::<Seq<char>>::empty());
    assert(parsed_fields(rows[i], f.drop_last()) == rows[i]);
    assert(parsed_fields(rows[i], f) == parsed_field(rows[i], "payload"@));
    lemma_other_member(rows[i], "payload"@, "seq"@);
}

/// The events of a log have numbers, which ascend.
pub open spec fn numbered(log: Seq<JsonV>) -> bool {
    &&& forall|i: int|
        0 <= i < log.len() ==> json_i64(json_get(#[trigger] log[i], "seq"@)) is Some
    &&& forall|i: int, j: int|
        0 <= i < j < log.len() ==> int_at(#[trigger] log[i], "seq"@) < int_at(
            #[trigger] log[j],
            "seq"@,
        )
}

proof fn lemma_behind(log: Seq<JsonV>, mark: i64)
    requires
        numbered(log),
    ensures
        forall|i: int|
            0 <= i < behind(log, mark).len() ==> log.contains(#[trigger] behind(log, mark)[i])
                && is_behind(behind(log, mark)[i], mark),
        forall|i: int|
            0 <= i < log.len() && is_behind(#[trigger] log[i], mark) ==> behind(log, mark).len() > 0
                && int_at(log[i], "seq"@) <= int_at(behind(log, mark).last(), "seq"@),
    decreases log.len(),
{
    if log.len() > 0 {
        let front = log.drop_last();
        let b = behind(log, mark);
        let f = behind(front, mark);
        assert(numbered(front));
        lemma_behind(front, mark);
        assert forall|i: int| 0 <= i < b.len() implies log.contains(#[trigger] b[i]) && is_behind(
            b[i],
            mark,
        ) by {
            if i < f.len() {
                assert(f[i] == b[i]);
                let k = choose|k: int| 0 <= k < front.len() && front[k] == f[i];
                assert(log[k] == b[i]);
            } else {
                assert(log[log.len() - 1] == b[i]);
            }
        }
        assert forall|i: int| 0 <= i < log.len() && is_behind(#[trigger] log[i], mark) implies b.len()
            > 0 && int_at(log[i], "seq"@) <= int_at(b.last(), "seq"@) by {
            if i < front.len() {
                assert(front[i] == log[i]);
                if is_behind(log.last(), mark) {
                    assert(log.last() == log[log.len() - 1]);
                }
            }
        }
    }
}

proof fn lemma_none_behind(log: Seq<JsonV>, mark: i64)
    requires
        forall|i: int| 0 <= i < log.len() ==> !is_behind(#[trigger] log[i], mark),
    ensures
        behind(log, mark).len() == 0,
    decreases log.len(),
{
    if log.len() > 0 {
        assert(log.last() == log[log.len() - 1]);
        assert forall|i: int| 0 <= i < log.drop_last().len() implies !is_behind(
            #[trigger] log.drop_last()[i],
            mark,
        ) by {
            assert(log.drop_last()[i] == log[i]);
        }
        lemma_none_behind(log.drop_last(), mark);
    }
}

/// A round delivers each of its events to every subscription that the event concerns: the delivery
/// is there afterwards. It makes as many as it says, each for such an event and subscription, and
/// each waits. It changes no delivery that was there.
pub proof fn law_round_delivers(batch: i64, c: Source, q: Queue)
    requires
        q.deliveries.dom().finite(),
        watermark_in(c.mark_rows) == q.mark,
        due(c, q.mark, batch).len() <= c.ids.len(),
        due(c, q.mark, batch).len() <= u64::MAX,
    ensures
        ({
            let events = events_of(c, q.mark, batch);
            let subs = subs_of(c);
            let before = q.deliveries;
            let (r, made) = ticked(batch, c, q);
            let after = r.deliveries;
            &&& made is Some
            &&& forall|i: int, j: int|
                0 <= i < events.len() && 0 <= j < subs.len() && #[trigger] concerns(
                    events[i],
                    subs[j],
                ) ==> after.dom().contains((int_at(subs[j], "id"@), text_at(events[i], "id"@)))
            &&& forall|k: (i64, Seq<char>)| #[trigger]
                before.dom().contains(k) ==> after.dom().contains(k) && after[k] == before[k]
            &&& forall|k: (i64, Seq<char>)| #[trigger]
                after.dom().contains(k) && !before.dom().contains(k) ==> after[k].status
                    == "pending"@ && key_of(after[k].dispatch) == k && owed_for_any(
                    events,
                    subs,
                    after[k].dispatch,
                )
            &&& after.dom().finite()
            &&& after.dom().len() == before.dom().len() + made->Some_0
        }),
{
    let events = events_of(c, q.mark, batch);
    let subs = subs_of(c);
    let rows = due(c, q.mark, batch);
    let after = inserted(q.deliveries, rows, c.ids);
    lemma_round(batch, c, q);
    lemma_added(q.deliveries, rows, c.ids);
    assert forall|i: int, j: int|
        0 <= i < events.len() && 0 <= j < subs.len() && #[trigger] concerns(
            events[i],
            subs[j],
        ) implies after.dom().contains((int_at(subs[j], "id"@), text_at(events[i], "id"@))) by {
        let d = dispatch_of(events[i], subs[j]);
        assert(owed(events[i], subs, d));
        law_fanout(events, subs, d);
        let k = choose|k: int| 0 <= k < rows.len() && rows[k] == d;
        lemma_inserted(q.deliveries, rows, c.ids, key_of(d));
        assert(key_of(rows[k]) == key_of(d));
    }
    assert forall|k: (i64, Seq<char>)| #[trigger] q.deliveries.dom().contains(k) implies
        after.dom().contains(k) && after[k] == q.deliveries[k] by {
        lemma_inserted(q.deliveries, rows, c.ids, k);
    }
    assert forall|k: (i64, Seq<char>)| #[trigger]
        after.dom().contains(k) && !q.deliveries.dom().contains(k) implies after[k].status
        == "pending"@ && key_of(after[k].dispatch) == k && owed_for_any(
        events,
        subs,
        after[k].dispatch,
    ) by {
        lemma_inserted(q.deliveries, rows, c.ids, k);
        law_fanout(events, subs, after[k].dispatch);
    }
}

/// A round moves the mark to the number of its last event, whether or not any event concerned a
/// subscription; without events the mark stays.
pub proof fn law_round_moves_mark(batch: i64, c: Source, q: Queue)
    requires
        q.deliveries.dom().finite(),
        watermark_in(c.mark_rows) == q.mark,
        due(c, q.mark, batch).len() <= c.ids.len(),
        due(c, q.mark, batch).len() <= u64::MAX,
        numbered(c.log),
    ensures
        ({
            let events = events_of(c, q.mark, batch);
            ticked(batch, c, q).0.mark == (if events.len() > 0 {
                int_at(events.last(), "seq"@)
            } else {
                q.mark
            })
        }),
{
    let raw = first_behind(c.log, q.mark, batch);
    let events = events_of(c, q.mark, batch);
    lemma_round(batch, c, q);
    if events.len() > 0 {
        let n = raw.len() - 1;
        lemma_event_seq(raw, n);
        lemma_behind(c.log, q.mark);
        let e = behind(c.log, q.mark)[n];
        assert(raw[n] == e);
        let k = choose|k: int| 0 <= k < c.log.len() && c.log[k] == e;
        assert(json_i64(json_get(c.log[k], "seq"@)) is Some);
        assert(events.last() == events[n]);
    }
}

/// A round without events behind the mark makes no delivery and changes nothing.
pub proof fn law_idle_round(batch: i64, c: Source, q: Queue)
    requires
        watermark_in(c.mark_rows) == q.mark,
        behind(c.log, q.mark).len() == 0,
    ensures
        ticked(batch, c, q) == (q, Some(0u64)),
{
    lemma_reads(batch, c, q, due(c, q.mark, batch).len() + 5);
}

/// A round that was not cut short leaves nothing to do: as long as no event is added, the next one
/// makes no delivery and changes nothing.
pub proof fn law_round_repeats_idle(batch: i64, c: Source, q: Queue, next: Source)
    requires
        q.deliveries.dom().finite(),
        watermark_in(c.mark_rows) == q.mark,
        due(c, q.mark, batch).len() <= c.ids.len(),
        due(c, q.mark, batch).len() <= u64::MAX,
        numbered(c.log),
        behind(c.log, q.mark).len() <= batch,
        next.log == c.log,
        watermark_in(next.mark_rows) == ticked(batch, c, q).0.mark,
    ensures
        ticked(batch, next, ticked(batch, c, q).0) == (ticked(batch, c, q).0, Some(0u64)),
{
    let r = ticked(batch, c, q).0;
    let raw = first_behind(c.log, q.mark, batch);
    law_round_moves_mark(batch, c, q);
    lemma_behind(c.log, q.mark);
    assert(raw == behind(c.log, q.mark));
    if raw.len() > 0 {
        lemma_event_seq(raw, raw.len() - 1);
    }
    assert forall|i: int| 0 <= i < c.log.len() implies !is_behind(#[trigger] c.log[i], r.mark) by {
        if is_behind(c.log[i], q.mark) {
            assert(raw.len() > 0);
        }
    }
    lemma_none_behind(c.log, r.mark);
    law_idle_round(batch, next, r);
}

/// A round that lacks ids for its deliveries fails before it writes anything.
pub proof fn law_short_round(batch: i64, c: Source, q: Queue)
    requires
        watermark_in(c.mark_rows) == q.mark,
        c.ids.len() < due(c, q.mark, batch).len(),
    ensures
        ({
            let first = fanned(batch, FanoutStageV::Start, FanoutEventV::Begin);
            let r = finished(batch, c, first.0, first.1, q, due(c, q.mark, batch).len() + 5);
            r.0 == q && r.1 is Fail
        }),
        ticked(batch, c, q) == (q, None::<u64>),
{
    reveal_with_fuel(finished, 3);
    lemma_reads(batch, c, q, due(c, q.mark, batch).len() + 5);
    assert(watermark_lock().params.len() == 1);
    assert(found(c, pushed_subscriptions()) == pushed(c.subs));
    assert(events_of(c, q.mark, batch).len() > 0);
}

} // verus!
