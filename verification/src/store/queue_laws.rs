//! What stands in the queue of deliveries, and what is asked of it.

use crate::json::{json_get, json_i64, JsonV};
use crate::sql::SqlV;
use crate::store::dispatch_store::{
    combo_rows, conflict_action, delivered_term, dispatch_of, fanout, event_dispatches, forced,
    integers, mark_statement, next_watermark, publish_tail, retry_statement, retry_term,
    rows_params, truncated, wanted_text, watermark_in, watermark_move, NewDispatchV,
};
use crate::distribution::transform::concerns;
use crate::text::dec_int;
use vstd::prelude::*;

verus! {

/// A value holds a text under a key.
pub open spec fn has_text(v: JsonV, k: Seq<char>, s: Seq<char>) -> bool {
    json_get(v, k) == Some(JsonV::Str(s))
}

/// A value holds an integer under a key.
pub open spec fn has_int(v: JsonV, k: Seq<char>, i: i64) -> bool {
    json_i64(json_get(v, k)) == Some(i)
}

/// A delivery takes the number of its subscription, and all else from its event.
pub proof fn law_delivery_of(
    event: JsonV,
    sub: JsonV,
    sub_id: i64,
    event_id: Seq<char>,
    seq: i64,
    dict: Seq<char>,
    record: i64,
)
    requires
        has_int(sub, "id"@, sub_id),
        has_text(event, "id"@, event_id),
        has_int(event, "seq"@, seq),
        has_text(event, "dict_code"@, dict),
        has_int(event, "record_id"@, record),
    ensures
        dispatch_of(event, sub) == (NewDispatchV {
            subscription_id: sub_id,
            event_id,
            event_seq: seq,
            dict_code: dict,
            record_id: record,
        }),
{
}

/// A pair that is delivered anew names its subscription and its event; the delivery takes both
/// from it.
pub proof fn law_pair_delivered(
    combos: Seq<JsonV>,
    i: int,
    sub_id: i64,
    event_id: Seq<char>,
    seq: i64,
    dict: Seq<char>,
    record: i64,
)
    requires
        0 <= i < combos.len(),
        has_int(combos[i], "sub_id"@, sub_id),
        has_text(combos[i], "event_id"@, event_id),
        has_int(combos[i], "seq"@, seq),
        has_text(combos[i], "dict_code"@, dict),
        has_int(combos[i], "record_id"@, record),
    ensures
        combo_rows(combos).len() == combos.len(),
        combo_rows(combos)[i] == (NewDispatchV {
            subscription_id: sub_id,
            event_id,
            event_seq: seq,
            dict_code: dict,
            record_id: record,
        }),
{
}

/// The deliveries of an event come in the order of the subscriptions, one for each that it
/// concerns.
pub proof fn law_event_deliveries(event: JsonV, subs: Seq<JsonV>, sub: JsonV)
    ensures
        event_dispatches(event, Seq::empty()).len() == 0,
        concerns(event, sub) ==> event_dispatches(event, subs.push(sub)) == event_dispatches(
            event,
            subs,
        ).push(dispatch_of(event, sub)),
        !concerns(event, sub) ==> event_dispatches(event, subs.push(sub)) == event_dispatches(
            event,
            subs,
        ),
{
    assert(subs.push(sub).drop_last() =~= subs);
}

/// The deliveries of several events come in the order of the events.
pub proof fn law_fanout_in_order(events: Seq<JsonV>, event: JsonV, subs: Seq<JsonV>)
    ensures
        fanout(events.push(event), subs) == fanout(events, subs) + fanout(seq![event], subs),
{
    assert(events.push(event).drop_last() =~= events);
    assert(seq![event].drop_last() =~= Seq::<JsonV>::empty());
    assert(fanout(seq![event], subs) =~= event_dispatches(event, subs)) by {
        assert(fanout(Seq::<JsonV>::empty(), subs) =~= Seq::empty());
    }
}

/// The mark moves to the number of the last event, if that is greater; it moves exactly where the
/// number is.
pub proof fn law_mark_moves(mark: i64, events: Seq<JsonV>, seq: i64)
    requires
        events.len() > 0,
        has_int(events[events.len() - 1], "seq"@, seq),
    ensures
        next_watermark(mark, events) >= mark,
        next_watermark(mark, events) >= seq,
        next_watermark(mark, events) == mark || next_watermark(mark, events) == seq,
        watermark_move(mark, events) is Some <==> seq > mark,
        watermark_move(mark, events) matches Some(s) ==> s.params.len() == 2 && s.params[0]
            == SqlV::Int(seq),
{
}

/// The mark is read from the first row found; without a row it is 0.
pub proof fn law_mark_read(rows: Seq<JsonV>, n: i64)
    ensures
        rows.len() == 0 ==> watermark_in(rows) == 0,
        rows.len() > 0 && has_int(rows[0], "last_seq"@, n) ==> watermark_in(rows) == n,
{
}

/// The `i`-th row of an insert binds six values, in the order of the columns: its own id, the
/// subscription, the event with its number, the dictionary and the record.
pub proof fn law_row_bound(rows: Seq<NewDispatchV>, ids: Seq<i64>, i: int)
    requires
        0 <= i < rows.len() <= ids.len(),
    ensures
        rows_params(rows, ids).len() == 6 * rows.len(),
        rows_params(rows, ids)[6 * i] == SqlV::Int(ids[i]),
        rows_params(rows, ids)[6 * i + 1] == SqlV::Int(rows[i].subscription_id),
        rows_params(rows, ids)[6 * i + 2] == SqlV::Text(rows[i].event_id),
        rows_params(rows, ids)[6 * i + 3] == SqlV::Int(rows[i].event_seq),
        rows_params(rows, ids)[6 * i + 4] == SqlV::Text(rows[i].dict_code),
        rows_params(rows, ids)[6 * i + 5] == SqlV::Int(rows[i].record_id),
    decreases rows.len(),
{
    let d = rows.drop_last();
    if d.len() > 0 && i < d.len() {
        law_row_bound(d, ids, i);
    } else if d.len() > 0 {
        law_row_bound(d, ids, 0);
    } else {
        assert(rows_params(d, ids).len() == 0);
    }
}

/// The note on a delivery binds its state, its attempts, the answer and its own number.
pub proof fn law_note_binds(
    id: i64,
    status: Seq<char>,
    attempts: i64,
    retry: Option<i64>,
    code: i64,
    error: Seq<char>,
    body: Seq<char>,
)
    ensures
        ({
            let full = mark_statement(
                id,
                status,
                attempts,
                retry,
                Some(code),
                Some(error),
                Some(body),
            );
            let bare = mark_statement(id, status, attempts, retry, None, None, None);
            &&& full.params.len() == 6
            &&& full.params[0] == SqlV::Text(status)
            &&& full.params[1] == SqlV::Int(attempts)
            &&& full.params[2] == SqlV::Int(code)
            &&& full.params[3] == SqlV::Text(error)
            &&& full.params[4] == SqlV::Text(truncated(body, 512))
            &&& full.params[5] == SqlV::Int(id)
            &&& bare.params.len() == 6
            &&& bare.params[0] == SqlV::Text(status)
            &&& bare.params[1] == SqlV::Int(attempts)
            &&& bare.params[2] is NullTyped
            &&& bare.params[3] is NullTyped
            &&& bare.params[4] is NullTyped
            &&& bare.params[5] == SqlV::Int(id)
        }),
{
}

/// A failed delivery is noted with the time at which it may be tried again; one in any other state
/// with none. A delivered one alone is noted with the time at which it arrived.
pub proof fn law_note_times(status: Seq<char>, t: i64)
    ensures
        retry_term("failed"@, Some(t)) == "to_timestamp("@ + dec_int(t as int) + ")"@,
        status != "failed"@ ==> retry_term(status, Some(t)) == "NULL"@,
        retry_term(status, None) == "NULL"@,
        delivered_term("delivered"@) == "now()"@,
        status != "delivered"@ ==> delivered_term(status) == "NULL"@,
{
}

/// The integers of a list, and nothing else of it, in its order.
pub proof fn law_integers(a: Seq<JsonV>, v: JsonV, i: i64)
    ensures
        integers(Seq::empty()).len() == 0,
        json_i64(Some(v)) == Some(i) ==> integers(a.push(v)) == integers(a).push(i),
        json_i64(Some(v)) is None ==> integers(a.push(v)) == integers(a),
{
    assert(a.push(v).drop_last() =~= a);
}

/// With ids, exactly those are bound for another try, whatever else is asked.
pub proof fn law_retry_by_ids(q: JsonV, a: Seq<JsonV>, i: int)
    requires
        json_get(q, "ids"@) == Some(JsonV::Arr(a)),
        integers(a).len() > 0,
        0 <= i < integers(a).len(),
    ensures
        retry_statement(q).params.len() == integers(a).len(),
        retry_statement(q).params[i] == SqlV::Int(integers(a)[i]),
{
}

/// Without ids, those in one state go back: the one that is named, or else those given up; of one
/// subscription where one is named.
pub proof fn law_retry_by_state(q: JsonV, state: Seq<char>, sub: i64)
    requires
        json_get(q, "ids"@) is None,
    ensures
        retry_statement(q).params.len() >= 1,
        json_get(q, "status"@) is None ==> retry_statement(q).params[0] == SqlV::Text("dead"@),
        has_text(q, "status"@, state) ==> retry_statement(q).params[0] == SqlV::Text(state),
        has_int(q, "subscriptionId"@, sub) ==> retry_statement(q).params == seq![
            retry_statement(q).params[0],
            SqlV::Int(sub),
        ],
        json_get(q, "subscriptionId"@) is None ==> retry_statement(q).params.len() == 1,
{
    if has_int(q, "subscriptionId"@, sub) {
        assert(retry_statement(q).params =~= seq![retry_statement(q).params[0], SqlV::Int(sub)]);
    }
}

/// What is delivered anew is bound as it is asked: the subscription, the dictionary, and the range
/// of numbers with both its ends.
pub proof fn law_publish_binds(q: JsonV, sub: i64, dict: Seq<char>, from: i64, to: i64)
    requires
        has_int(q, "subscriptionId"@, sub),
        has_text(q, "dictCode"@, dict),
        dict.len() > 0,
        has_int(q, "fromSeq"@, from),
        has_int(q, "toSeq"@, to),
    ensures
        publish_tail(q).params == seq![
            SqlV::Int(sub),
            SqlV::Text(dict),
            SqlV::Int(from),
            SqlV::Int(to),
        ],
{
    assert(publish_tail(q).params =~= seq![
        SqlV::Int(sub),
        SqlV::Text(dict),
        SqlV::Int(from),
        SqlV::Int(to),
    ]);
}

/// Deliveries that are in the queue already go back only where that is asked for.
pub proof fn law_only_force_puts_back(q: JsonV)
    ensures
        forced(q) <==> json_get(q, "force"@) == Some(JsonV::Bool(true)),
        conflict_action(false) == "DO NOTHING"@,
        conflict_action(true)
            == "DO UPDATE SET status = 'pending', next_retry_at = NULL, updated_at = now()"@,
{
}

/// A text is asked for where it is there and is not empty.
pub proof fn law_wanted_text(q: JsonV, k: Seq<char>, s: Seq<char>)
    ensures
        wanted_text(q, k) == Some(s) <==> has_text(q, k, s) && s.len() > 0,
{
}

} // verus!
