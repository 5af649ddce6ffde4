//! What becomes of a delivery: what is sent, how an answer is taken, and when it is tried again.

use crate::distribution::channels::{
    answer, before_dot, delivery_headers, private_host, snippet_of, string_members, target_fault,
    webhook_fault,
};
use crate::distribution::config::{positive_or, DistCfg};
use crate::distribution::dispatcher::{
    backoff_delay, delivery_envelope, delivery_envelopes, delivery_marks, doubled, find_event,
    find_result, group_ids, group_rows, note_of, part_end, retry_at, untried, DeliveryPlan, MarkV,
};
use crate::distribution::envelope::{EnvelopeV, ResultV};
use crate::distribution::transform::{member_at, projected, text_at};
use crate::json::{json_get, json_i64, law_get_after_put, obj_get, obj_put, JsonV, NumberV, ObjV};
use crate::text::{dec, dec_int, has_prefix, trimmed};
use crate::text_laws::{law_decimal_digits, law_parsed_in, law_trimmed};
use vstd::prelude::*;

verus! {

/// The smaller of two numbers.
pub open spec fn least(a: int, b: int) -> int {
    if a <= b {
        a
    } else {
        b
    }
}

/// The wait after the first attempt is the base, and twice as long after each further one, as long
/// as the maximum allows.
pub proof fn law_backoff_doubles(base: u64, max: u64, a: i64)
    ensures
        a <= 1 ==> backoff_delay(base, max, a) == least(base as int, max as int),
        1 <= a < i64::MAX ==> backoff_delay(base, max, (a + 1) as i64) == least(
            2 * backoff_delay(base, max, a) as int,
            max as int,
        ),
{
    if 1 <= a < i64::MAX {
        let n: nat = if a <= 1 {
            0
        } else {
            (a - 1) as nat
        };
        assert(doubled(base as nat, n + 1) == 2 * doubled(base as nat, n));
        assert(n + 1 == a as nat);
    }
}

/// A delivery is tried again within a second of the end of the wait, as times are in whole seconds,
/// and after its end where the wait is of whole seconds.
pub proof fn law_retry_time(cfg: DistCfg, attempts: i64, now_ms: u64)
    ensures
        ({
            let wait = backoff_delay(cfg.backoff_base_ms, cfg.backoff_max_ms, attempts);
            let at = 1000 * retry_at(cfg, attempts, Some(now_ms));
            &&& now_ms + wait - 1000 < at <= now_ms + wait + 1000
            &&& wait % 1000 == 0 ==> now_ms + wait < at
        }),
        retry_at(cfg, attempts, None) == 0,
{
}

/// A delivery was tried and has a result: `j` is the last of its event.
pub open spec fn last_result(results: Seq<ResultV>, event: Seq<char>, j: int) -> bool {
    &&& 0 <= j < results.len()
    &&& results[j].event_id == event
    &&& forall|k: int| j < k < results.len() ==> (#[trigger] results[k]).event_id != event
}

proof fn lemma_last_result(results: Seq<ResultV>, event: Seq<char>, j: int)
    requires
        last_result(results, event, j),
    ensures
        find_result(results, event) == Some(results[j]),
    decreases results.len(),
{
    if j < results.len() - 1 {
        let d = results.drop_last();
        assert(results[results.len() - 1].event_id != event);
        assert forall|k: int| j < k < d.len() implies (#[trigger] d[k]).event_id != event by {
            assert(d[k] == results[k]);
        }
        lemma_last_result(d, event, j);
    }
}

proof fn lemma_no_result(results: Seq<ResultV>, event: Seq<char>)
    requires
        forall|k: int| 0 <= k < results.len() ==> (#[trigger] results[k]).event_id != event,
    ensures
        find_result(results, event) is None,
    decreases results.len(),
{
    if results.len() > 0 {
        let d = results.drop_last();
        assert(results[results.len() - 1].event_id != event);
        assert forall|k: int| 0 <= k < d.len() implies (#[trigger] d[k]).event_id != event by {
            assert(d[k] == results[k]);
        }
        lemma_no_result(d, event);
    }
}

/// Each delivery is marked by the result of its own event: delivered where that succeeded; dead,
/// with people told, where it cannot pass or was the last attempt; else failed, to be tried again
/// when the wait is over. The attempt counts in any case.
pub proof fn law_marked_by_result(
    chunk: Seq<JsonV>,
    results: Seq<ResultV>,
    retry_max: i64,
    cfg: DistCfg,
    now_ms: Option<u64>,
    i: int,
    j: int,
    event: Seq<char>,
    attempts: i64,
)
    requires
        0 <= i < chunk.len(),
        json_get(chunk[i], "event_id"@) == Some(JsonV::Str(event)),
        json_i64(json_get(chunk[i], "attempts"@)) == Some(attempts),
        0 <= attempts < i64::MAX,
        last_result(results, event, j),
    ensures
        ({
            let m = delivery_marks(chunk, results, retry_max, cfg, now_ms)[i];
            let r = results[j];
            &&& json_i64(json_get(chunk[i], "id"@)) matches Some(id) ==> m.dispatch_id == id
            &&& m.attempts == attempts + 1
            &&& m.http_status == r.http_status
            &&& r.ok ==> m.status == "delivered"@ && m.next_retry is None && m.error is None
                && !m.alarm && m.snippet == r.detail
            &&& !r.ok && (!r.retryable || attempts + 1 >= retry_max) ==> m.status == "dead"@
                && m.next_retry is None && m.alarm
            &&& !r.ok && r.retryable && attempts + 1 < retry_max ==> m.status == "failed"@
                && m.next_retry == Some(retry_at(cfg, (attempts + 1) as i64, now_ms)) && !m.alarm
            &&& !r.ok && r.detail is Some ==> m.error == r.detail && m.snippet == r.detail
            &&& !r.ok ==> m.error is Some
        }),
        delivery_marks(chunk, results, retry_max, cfg, now_ms).len() == chunk.len(),
{
    lemma_last_result(results, event, j);
}

/// A delivery whose event has no result is dead, and people are told.
pub proof fn law_no_result_is_dead(
    chunk: Seq<JsonV>,
    results: Seq<ResultV>,
    retry_max: i64,
    cfg: DistCfg,
    now_ms: Option<u64>,
    i: int,
    event: Seq<char>,
)
    requires
        0 <= i < chunk.len(),
        json_get(chunk[i], "event_id"@) == Some(JsonV::Str(event)),
        forall|k: int| 0 <= k < results.len() ==> (#[trigger] results[k]).event_id != event,
    ensures
        ({
            let m = delivery_marks(chunk, results, retry_max, cfg, now_ms)[i];
            m.status == "dead"@ && m.alarm && m.next_retry is None && m.error is Some
        }),
{
    lemma_no_result(results, event);
    reveal_strlit("dead");
    reveal_strlit("failed");
    assert("dead"@.len() == 4 && "failed"@.len() == 6);
}

/// Deliveries that could not be tried are failed, to be tried again in a minute, and nobody is
/// told.
pub proof fn law_untried_come_again(rows: Seq<JsonV>, error: Seq<char>, now_ms: u64, i: int)
    requires
        0 <= i < rows.len(),
    ensures
        ({
            let m = untried(rows, error, Some(now_ms))[i];
            &&& m.status == "failed"@
            &&& !m.alarm
            &&& m.error == Some(error)
            &&& json_i64(json_get(rows[i], "attempts"@)) matches Some(n) ==> m.attempts == n + 1
            &&& m.next_retry matches Some(t) && now_ms + 59_000 < 1000 * t <= now_ms + 60_000
        }),
        untried(rows, error, Some(now_ms)).len() == rows.len(),
{
    reveal_strlit("dead");
    reveal_strlit("failed");
    assert("dead"@.len() == 4 && "failed"@.len() == 6);
}

/// An event of a list is the last of an id.
pub open spec fn last_event(events: Seq<JsonV>, id: Seq<char>, j: int) -> bool {
    &&& 0 <= j < events.len()
    &&& json_get(events[j], "id"@) == Some(JsonV::Str(id))
    &&& forall|k: int|
        j < k < events.len() ==> json_get(#[trigger] events[k], "id"@) != Some(JsonV::Str(id))
}

proof fn lemma_last_event(events: Seq<JsonV>, id: Seq<char>, j: int)
    requires
        last_event(events, id, j),
        id.len() > 0,
    ensures
        find_event(events, id) == Some(events[j]),
    decreases events.len(),
{
    if j < events.len() - 1 {
        let d = events.drop_last();
        assert(json_get(events[events.len() - 1], "id"@) != Some(JsonV::Str(id)));
        assert forall|k: int| j < k < d.len() implies json_get(#[trigger] d[k], "id"@) != Some(
            JsonV::Str(id),
        ) by {
            assert(d[k] == events[k]);
        }
        lemma_last_event(d, id, j);
    }
}

proof fn lemma_no_event(events: Seq<JsonV>, id: Seq<char>)
    requires
        id.len() > 0,
        forall|k: int|
            0 <= k < events.len() ==> json_get(#[trigger] events[k], "id"@) != Some(JsonV::Str(id)),
    ensures
        find_event(events, id) is None,
    decreases events.len(),
{
    if events.len() > 0 {
        let d = events.drop_last();
        assert(json_get(events[events.len() - 1], "id"@) != Some(JsonV::Str(id)));
        assert forall|k: int| 0 <= k < d.len() implies json_get(#[trigger] d[k], "id"@) != Some(
            JsonV::Str(id),
        ) by {
            assert(d[k] == events[k]);
        }
        lemma_no_event(d, id);
    }
}

/// A delivery sends the event that it names: in an envelope of that event, its snapshot as the
/// field map projects it, or its whole payload where it carries no snapshot; and where it comes
/// from. One whose event is not at hand sends nothing.
pub proof fn law_delivery_sends_its_event(
    dispatch: JsonV,
    events: Seq<JsonV>,
    field_map: JsonV,
    id: Seq<char>,
)
    requires
        json_get(dispatch, "event_id"@) == Some(JsonV::Str(id)),
        id.len() > 0,
    ensures
        forall|j: int| #[trigger]
            last_event(events, id, j) ==> {
                let e = delivery_envelope(dispatch, events, field_map);
                &&& e is Some
                &&& e->Some_0.event_id == id
                &&& json_get(events[j], "payload"@) matches Some(p) ==> e->Some_0.data == projected(
                    match json_get(p, "snapshot"@) {
                        Some(s) => s,
                        None => p,
                    },
                    field_map,
                )
                &&& json_get(events[j], "dict_code"@) matches Some(JsonV::Str(d))
                    ==> e->Some_0.dict_code == d
                &&& json_i64(json_get(events[j], "record_id"@)) matches Some(n)
                    ==> e->Some_0.record_id == n
                &&& json_get(dispatch, "id"@) matches Some(n) ==> json_get(
                    e->Some_0.meta,
                    "dispatchId"@,
                ) == Some(n)
                &&& json_get(events[j], "payload"@) matches Some(p) ==> (json_get(
                    p,
                    "cr_id"@,
                ) matches Some(n) ==> json_get(e->Some_0.meta, "crId"@) == Some(n))
            },
        (forall|k: int|
            0 <= k < events.len() ==> json_get(#[trigger] events[k], "id"@) != Some(JsonV::Str(id)))
            ==> delivery_envelope(dispatch, events, field_map) is None,
{
    if forall|k: int|
        0 <= k < events.len() ==> json_get(#[trigger] events[k], "id"@) != Some(JsonV::Str(id)) {
        lemma_no_event(events, id);
    }
    reveal_strlit("crId");
    reveal_strlit("dispatchId");
    assert("crId"@.len() == 4 && "dispatchId"@.len() == 10);
    assert forall|j: int| #[trigger] last_event(events, id, j) implies {
        let e = delivery_envelope(dispatch, events, field_map);
        &&& e is Some
        &&& e->Some_0.event_id == id
        &&& json_get(events[j], "payload"@) matches Some(p) ==> e->Some_0.data == projected(
            match json_get(p, "snapshot"@) {
                Some(s) => s,
                None => p,
            },
            field_map,
        )
        &&& json_get(events[j], "dict_code"@) matches Some(JsonV::Str(d)) ==> e->Some_0.dict_code
            == d
        &&& json_i64(json_get(events[j], "record_id"@)) matches Some(n) ==> e->Some_0.record_id == n
        &&& json_get(dispatch, "id"@) matches Some(n) ==> json_get(
            e->Some_0.meta,
            "dispatchId"@,
        ) == Some(n)
        &&& json_get(events[j], "payload"@) matches Some(p) ==> (json_get(p, "cr_id"@) matches Some(
            n,
        ) ==> json_get(e->Some_0.meta, "crId"@) == Some(n))
    } by {
        lemma_last_event(events, id, j);
        let cr = member_at(member_at(events[j], "payload"@), "cr_id"@);
        let own = member_at(dispatch, "id"@);
        let o = obj_put(Seq::empty(), "crId"@, cr);
        law_get_after_put(Seq::empty(), "crId"@, cr, "crId"@);
        law_get_after_put(o, "dispatchId"@, own, "crId"@);
        law_get_after_put(o, "dispatchId"@, own, "dispatchId"@);
    }
}

/// One more delivery adds its envelope, where it has one, behind those before it.
pub proof fn law_envelopes_in_order(
    chunk: Seq<JsonV>,
    dispatch: JsonV,
    events: Seq<JsonV>,
    field_map: JsonV,
)
    ensures
        delivery_envelopes(Seq::empty(), events, field_map).len() == 0,
        match delivery_envelope(dispatch, events, field_map) {
            Some(e) => delivery_envelopes(chunk.push(dispatch), events, field_map)
                == delivery_envelopes(chunk, events, field_map).push(e),
            None => delivery_envelopes(chunk.push(dispatch), events, field_map)
                == delivery_envelopes(chunk, events, field_map),
        },
{
    assert(chunk.push(dispatch).drop_last() =~= chunk);
}

/// The settings of a subscription: what it says, else 8 attempts and parts of 50; a part is of at
/// least one delivery. Its time limit goes to the channel.
pub proof fn law_plan_reads(p: DeliveryPlan, sub: JsonV)
    requires
        p.reads(sub),
    ensures
        json_i64(json_get(sub, "retry_max"@)) matches Some(n) ==> p.retry_max == n,
        json_i64(json_get(sub, "retry_max"@)) is None ==> p.retry_max == 8,
        json_i64(json_get(sub, "batch_size"@)) matches Some(n) ==> p.batch_size == (if n >= 1 {
            n
        } else {
            1
        }),
        json_i64(json_get(sub, "batch_size"@)) is None ==> p.batch_size == 50,
        json_get(sub, "field_map"@) matches Some(m) ==> p.field_map@ == m,
        json_get(sub, "channel_config"@) matches Some(JsonV::Obj(c)) ==> {
            &&& forall|k: Seq<char>|
                k != "timeout_ms"@ ==> #[trigger] json_get(p.channel_config@, k) == obj_get(c, k)
            &&& match json_get(sub, "timeout_ms"@) {
                Some(JsonV::Num(NumberV::PosInt(t))) => json_get(
                    p.channel_config@,
                    "timeout_ms"@,
                ) == Some(JsonV::Num(NumberV::PosInt(t))),
                _ => json_get(p.channel_config@, "timeout_ms"@) == obj_get(c, "timeout_ms"@),
            }
        },
{
    if let Some(JsonV::Obj(c)) = json_get(sub, "channel_config"@) {
        if let Some(JsonV::Num(NumberV::PosInt(t))) = json_get(sub, "timeout_ms"@) {
            let v = JsonV::Num(NumberV::PosInt(t));
            law_get_after_put(c, "timeout_ms"@, v, "timeout_ms"@);
            assert forall|k: Seq<char>| k != "timeout_ms"@ implies #[trigger] json_get(
                p.channel_config@,
                k,
            ) == obj_get(c, k) by {
                law_get_after_put(c, "timeout_ms"@, v, k);
            }
        }
    }
}

/// A group holds nothing but deliveries of its subscription, and no subscription has two groups.
pub proof fn law_groups_apart(rows: Seq<JsonV>, id: i64)
    ensures
        forall|i: int|
            0 <= i < group_rows(rows, id).len() ==> json_i64(
                json_get(#[trigger] group_rows(rows, id)[i], "subscription_id"@),
            ) == Some(id) && rows.contains(group_rows(rows, id)[i]),
        forall|i: int, j: int|
            0 <= i < j < group_ids(rows).len() ==> #[trigger] group_ids(rows)[i]
                != #[trigger] group_ids(rows)[j],
        group_ids(rows).contains(id) <==> exists|i: int|
            0 <= i < rows.len() && json_i64(json_get(#[trigger] rows[i], "subscription_id"@))
                == Some(id),
    decreases rows.len(),
{
    if rows.len() > 0 {
        let d = rows.drop_last();
        law_groups_apart(d, id);
        let a = group_rows(d, id);
        let b = group_rows(rows, id);
        assert forall|i: int| 0 <= i < b.len() implies json_i64(
            json_get(#[trigger] b[i], "subscription_id"@),
        ) == Some(id) && rows.contains(b[i]) by {
            if i < a.len() {
                assert(b[i] == a[i]);
                let j = choose|j: int| 0 <= j < d.len() && d[j] == a[i];
                assert(rows[j] == b[i]);
            } else {
                assert(rows[rows.len() - 1] == b[i]);
            }
        }
        let g = group_ids(d);
        let h = group_ids(rows);
        let own = json_i64(json_get(rows.last(), "subscription_id"@));
        assert forall|i: int, j: int| 0 <= i < j < h.len() implies #[trigger] h[i]
            != #[trigger] h[j] by {
            if j < g.len() {
                assert(g[i] == h[i] && g[j] == h[j]);
            } else {
                assert(h[i] == g[i]);
                assert(g.contains(g[i]));
            }
        }
        if h.contains(id) {
            let i = choose|i: int| 0 <= i < h.len() && h[i] == id;
            if i < g.len() {
                assert(g[i] == id);
                let j = choose|j: int|
                    0 <= j < d.len() && json_i64(json_get(#[trigger] d[j], "subscription_id"@))
                        == Some(id);
                assert(rows[j] == d[j]);
            } else {
                assert(rows[rows.len() - 1] == rows.last());
            }
        }
        if exists|i: int|
            0 <= i < rows.len() && json_i64(json_get(#[trigger] rows[i], "subscription_id"@))
                == Some(id) {
            let i = choose|i: int|
                0 <= i < rows.len() && json_i64(json_get(#[trigger] rows[i], "subscription_id"@))
                    == Some(id);
            if i < d.len() {
                assert(d[i] == rows[i]);
                let j = choose|j: int| 0 <= j < g.len() && g[j] == id;
                assert(h[j] == id);
            } else if g.contains(id) {
            } else {
                assert(h.last() == id);
            }
        }
    }
}

/// One more delivery of a subscription stands behind those that its group has; one of another
/// subscription changes nothing.
pub proof fn law_group_in_order(rows: Seq<JsonV>, row: JsonV, id: i64)
    ensures
        group_rows(rows.push(row), id) == (if json_i64(json_get(row, "subscription_id"@))
            == Some(id) {
            group_rows(rows, id).push(row)
        } else {
            group_rows(rows, id)
        }),
{
    assert(rows.push(row).drop_last() =~= rows);
}

/// Of a delivery that was given up the administrator is told, and whoever made the subscription;
/// of another nobody is.
pub proof fn law_dead_is_told(sub: JsonV, dispatch: JsonV, m: MarkV)
    ensures
        m.alarm && m.error is Some <==> note_of(sub, dispatch, m).notice is Some,
        note_of(sub, dispatch, m).notice matches Some(n) ==> {
            &&& n.targets.contains("admin"@)
            &&& json_get(sub, "created_by"@) matches Some(JsonV::Str(u)) ==> (u.len() > 0
                ==> n.targets.contains(u) && n.targets.len() == 2)
            &&& !(json_get(sub, "created_by"@) is Some && json_get(
                sub,
                "created_by"@,
            )->Some_0 is Str) ==> n.targets.len() == 1
            &&& json_get(n.event, "error"@) == Some(JsonV::Str(m.error->Some_0))
            &&& json_get(sub, "id"@) matches Some(v) ==> json_get(n.event, "subscriptionId"@)
                == Some(v)
            &&& json_get(dispatch, "event_id"@) matches Some(JsonV::Str(e)) ==> json_get(
                n.event,
                "eventId"@,
            ) == Some(JsonV::Str(e))
        },
{
    if let Some(n) = note_of(sub, dispatch, m).notice {
        let u = text_at(sub, "created_by"@);
        let one = seq!["admin"@];
        let two = seq!["admin"@, u];
        assert(one[0] == "admin"@ && two[0] == "admin"@ && two[1] == u);
        let ev = text_at(dispatch, "event_id"@);
        let e = m.error->Some_0;
        reveal_strlit("subscriptionId");
        reveal_strlit("targetSys");
        reveal_strlit("dictCode");
        reveal_strlit("eventId");
        reveal_strlit("error");
        assert("subscriptionId"@.len() == 14 && "targetSys"@.len() == 9 && "dictCode"@.len() == 8
            && "eventId"@.len() == 7 && "error"@.len() == 5);
        let o1 = obj_put(Seq::empty(), "subscriptionId"@, member_at(sub, "id"@));
        let o2 = obj_put(o1, "targetSys"@, member_at(sub, "target_sys"@));
        let o3 = obj_put(o2, "dictCode"@, member_at(sub, "dict_code"@));
        let o4 = obj_put(o3, "eventId"@, JsonV::Str(ev));
        let s = "subscriptionId"@;
        let k = "eventId"@;
        law_get_after_put(Seq::empty(), s, member_at(sub, "id"@), s);
        law_get_after_put(o1, "targetSys"@, member_at(sub, "target_sys"@), s);
        law_get_after_put(o2, "dictCode"@, member_at(sub, "dict_code"@), s);
        law_get_after_put(o3, k, JsonV::Str(ev), s);
        law_get_after_put(o3, k, JsonV::Str(ev), k);
        law_get_after_put(o4, "error"@, JsonV::Str(e), s);
        law_get_after_put(o4, "error"@, JsonV::Str(e), k);
        law_get_after_put(o4, "error"@, JsonV::Str(e), "error"@);
    }
}

/// A part of a group is of the size that is set, and the last one of what is left.
pub proof fn law_part_size(len: nat, size: i64, from: nat)
    requires
        from < len,
        size >= 1,
    ensures
        part_end(len, size, from) == least(len as int, from + size),
{
}

/// An answer: 2xx is success and no other status is. A failure may pass where the status is 408,
/// 429 or from 500 on, and only there. What was answered is kept, up to its first 200 characters.
pub proof fn law_answer_classes(event_id: Seq<char>, status: i64, body: Seq<char>)
    ensures
        ({
            let r = answer(event_id, status, body);
            &&& r.event_id == event_id
            &&& r.ok <==> 200 <= status <= 299
            &&& !r.ok ==> (r.retryable <==> status == 408 || status == 429 || status >= 500)
            &&& r.http_status == Some(status)
            &&& r.ok ==> r.detail == Some(snippet_of(body))
            &&& r.detail is Some
            &&& !r.ok ==> ends_with(r.detail->Some_0, snippet_of(body))
        }),
        snippet_of(body).is_prefix_of(body),
        snippet_of(body).len() == least(200, body.len() as int),
{
    let text = snippet_of(body);
    let r = answer(event_id, status, body);
    if !r.ok {
        let d = r.detail->Some_0;
        assert(d.skip(d.len() - text.len()) =~= text);
    }
    assert(body.take(body.len() as int) =~= body);
}

/// A text ends with another.
pub open spec fn ends_with(s: Seq<char>, t: Seq<char>) -> bool {
    t.len() <= s.len() && s.skip(s.len() - t.len()) == t
}

/// The settings of a webhook are right exactly where, without the white space around them, the URL
/// begins with `http://` or `https://` and the secret is not empty.
pub proof fn law_webhook_settings(config: JsonV, url: Seq<char>, secret: Seq<char>)
    requires
        json_get(config, "url"@) == Some(JsonV::Str(url)),
        json_get(config, "secret"@) == Some(JsonV::Str(secret)),
    ensures
        webhook_fault(config) is None <==> {
            &&& "http://"@.is_prefix_of(trimmed(url)) || "https://"@.is_prefix_of(trimmed(url))
            &&& trimmed(secret).len() > 0
        },
{
    reveal_strlit("http://");
    reveal_strlit("https://");
    let u = trimmed(url);
    assert("http://"@.is_prefix_of(u) <==> has_prefix(u, "http://"@)) by {
        assert(u.take("http://"@.len() as int) =~= u.subrange(0, "http://"@.len() as int));
    }
    assert("https://"@.is_prefix_of(u) <==> has_prefix(u, "https://"@)) by {
        assert(u.take("https://"@.len() as int) =~= u.subrange(0, "https://"@.len() as int));
    }
}

/// Settings without a URL, or without a secret, are wrong.
pub proof fn law_webhook_needs_both(config: JsonV)
    ensures
        !(json_get(config, "url"@) is Some && json_get(config, "url"@)->Some_0 is Str)
            ==> webhook_fault(config) is Some,
        !(json_get(config, "secret"@) is Some && json_get(config, "secret"@)->Some_0 is Str)
            ==> webhook_fault(config) is Some,
{
    let e = Seq::<char>::empty();
    let r = law_trimmed(e);
    assert(trimmed(e).len() == 0);
}

proof fn lemma_before_dot(n: Seq<char>, rest: Seq<char>)
    requires
        !n.contains('.'),
    ensures
        before_dot(n + seq!['.'] + rest) == n,
    decreases n.len(),
{
    let s = n + seq!['.'] + rest;
    if n.len() == 0 {
        assert(s[0] == '.');
        assert(before_dot(s) =~= n);
    } else {
        assert(s[0] == n[0]);
        assert(n.contains(n[0]));
        let d = n.drop_first();
        assert(!d.contains('.')) by {
            if d.contains('.') {
                let i = choose|i: int| 0 <= i < d.len() && d[i] == '.';
                assert(n[i + 1] == '.');
            }
        }
        lemma_before_dot(d, rest);
        assert(s.drop_first() =~= d + seq!['.'] + rest);
        assert(seq![n[0]] + d =~= n);
    }
}

/// Of the addresses that begin with 172 those are private whose second number is from 16 to 31.
pub proof fn law_private_middle_range(n: nat, rest: Seq<char>)
    requires
        n <= 255,
    ensures
        private_host("172."@ + dec(n) + seq!['.'] + rest) <==> 16 <= n <= 31,
{
    reveal_strlit("172.");
    reveal_strlit("127.");
    reveal_strlit("10.");
    reveal_strlit("192.168.");
    reveal_strlit("169.254.");
    reveal_strlit("localhost");
    reveal_strlit("[::1]");
    reveal_strlit("::1");
    let h = "172."@ + dec(n) + seq!['.'] + rest;
    law_decimal_digits(n);
    assert(!dec(n).contains('.'));
    lemma_before_dot(dec(n), rest);
    assert(h.skip(4) =~= dec(n) + seq!['.'] + rest);
    assert(h.take(4) =~= "172."@);
    law_parsed_in(n as int, 0, 255);
    assert(dec_int(n as int) == dec(n));
    assert(h[0] == '1' && h[1] == '7' && h[2] == '2' && h[3] == '.');
    lemma_prefix_char(h, "127."@, 1);
    lemma_prefix_char(h, "10."@, 1);
    lemma_prefix_char(h, "192.168."@, 1);
    lemma_prefix_char(h, "169.254."@, 1);
    lemma_prefix_char(h, "localhost"@, 0);
    lemma_prefix_char(h, "[::1]"@, 0);
    lemma_prefix_char(h, "::1"@, 0);
}

proof fn lemma_prefix_char(s: Seq<char>, p: Seq<char>, i: int)
    requires
        0 <= i < p.len(),
        i < s.len(),
    ensures
        has_prefix(s, p) ==> s[i] == p[i],
{
    if has_prefix(s, p) {
        assert(s.take(p.len() as int)[i] == p[i]);
    }
}

/// Loopback and private addresses are known by how they begin.
pub proof fn law_private_beginnings(rest: Seq<char>)
    ensures
        private_host("127."@ + rest),
        private_host("10."@ + rest),
        private_host("192.168."@ + rest),
        private_host("169.254."@ + rest),
        private_host("localhost"@ + rest),
        private_host("[::1]"@ + rest),
        private_host("::1"@ + rest),
{
    assert(("127."@ + rest).take("127."@.len() as int) =~= "127."@);
    assert(("10."@ + rest).take("10."@.len() as int) =~= "10."@);
    assert(("192.168."@ + rest).take("192.168."@.len() as int) =~= "192.168."@);
    assert(("169.254."@ + rest).take("169.254."@.len() as int) =~= "169.254."@);
    assert(("localhost"@ + rest).take("localhost"@.len() as int) =~= "localhost"@);
    assert(("[::1]"@ + rest).take("[::1]"@.len() as int) =~= "[::1]"@);
    assert(("::1"@ + rest).take("::1"@.len() as int) =~= "::1"@);
}

/// A host that begins otherwise is not private: with another digit than 1, with another letter
/// than `l`, or with another sign.
pub proof fn law_other_hosts_are_public(host: Seq<char>)
    requires
        host.len() > 0,
        host[0] != '1',
        host[0] != 'l',
        host[0] != '[',
        host[0] != ':',
    ensures
        !private_host(host),
        target_fault(Ok(Some(host))) is None,
{
    reveal_strlit("172.");
    reveal_strlit("127.");
    reveal_strlit("10.");
    reveal_strlit("192.168.");
    reveal_strlit("169.254.");
    reveal_strlit("localhost");
    reveal_strlit("[::1]");
    reveal_strlit("::1");
    lemma_prefix_char(host, "172."@, 0);
    lemma_prefix_char(host, "127."@, 0);
    lemma_prefix_char(host, "10."@, 0);
    lemma_prefix_char(host, "192.168."@, 0);
    lemma_prefix_char(host, "169.254."@, 0);
    lemma_prefix_char(host, "localhost"@, 0);
    lemma_prefix_char(host, "[::1]"@, 0);
    lemma_prefix_char(host, "::1"@, 0);
}

/// The headers of a delivery carry the event, its type, the time and the signature, and every
/// header of the settings that is a text.
pub proof fn law_headers_carry(
    env: EnvelopeV,
    timestamp: Seq<char>,
    sig: Seq<char>,
    headers: ObjV,
    i: int,
)
    requires
        0 <= i < headers.len(),
    ensures
        ({
            let h = delivery_headers(env, timestamp, sig, JsonV::Obj(headers));
            &&& h.contains(("X-CMX-Event-Id"@, env.event_id))
            &&& h.contains(("X-CMX-Event-Type"@, env.event_type))
            &&& h.contains(("X-CMX-Timestamp"@, timestamp))
            &&& h.contains(("X-CMX-Signature"@, sig))
            &&& h.contains(("Content-Type"@, "application/json"@))
            &&& headers[i].1 matches JsonV::Str(s) ==> h.contains((headers[i].0, s))
        }),
{
    let h = delivery_headers(env, timestamp, sig, JsonV::Obj(headers));
    assert(h[0] == ("Content-Type"@, "application/json"@));
    assert(h[1] == ("X-CMX-Event-Id"@, env.event_id));
    assert(h[2] == ("X-CMX-Event-Type"@, env.event_type));
    assert(h[3] == ("X-CMX-Timestamp"@, timestamp));
    assert(h[4] == ("X-CMX-Signature"@, sig));
    if let JsonV::Str(s) = headers[i].1 {
        lemma_string_member(headers, i, s);
        let m = string_members(headers);
        let k = choose|k: int| 0 <= k < m.len() && m[k] == (headers[i].0, s);
        assert(h[5 + k] == (headers[i].0, s));
    }
}

proof fn lemma_string_member(o: ObjV, i: int, s: Seq<char>)
    requires
        0 <= i < o.len(),
        o[i].1 == JsonV::Str(s),
    ensures
        string_members(o).contains((o[i].0, s)),
    decreases o.len(),
{
    let d = o.drop_last();
    let r = string_members(d);
    let m = string_members(o);
    if i < d.len() {
        lemma_string_member(d, i, s);
        let k = choose|k: int| 0 <= k < r.len() && r[k] == (o[i].0, s);
        assert(m[k] == (o[i].0, s));
    } else {
        assert(m.last() == (o[i].0, s));
    }
}

/// A setting that is a number counts where it is positive and within bounds; else the default
/// does.
pub proof fn law_number_setting(i: int, max: int, default: int)
    ensures
        positive_or(None, true, max, default) == default,
        positive_or(Some(dec_int(i)), true, max, default) == (if 1 <= i <= max {
            i
        } else {
            default
        }),
        positive_or(Some(dec_int(i)), false, max, default) == (if 1 <= i <= max {
            i
        } else {
            default
        }),
{
    law_parsed_in(i, 1, max);
    lemma_number_untrimmed(i);
}

proof fn lemma_number_untrimmed(i: int)
    ensures
        trimmed(dec_int(i)) == dec_int(i),
{
    let s = dec_int(i);
    let n = if i < 0 {
        (-i) as nat
    } else {
        i as nat
    };
    law_decimal_digits(n);
    assert(s.len() > 0);
    assert forall|j: int| 0 <= j < s.len() implies !crate::text::is_white(#[trigger] s[j]) by {
        if i < 0 {
            if j > 0 {
                assert(s[j] == dec(n)[j - 1]);
            }
        } else {
            assert(s[j] == dec(n)[j]);
        }
    }
    let r = law_trimmed(s);
    if r.0 > 0 {
        assert(crate::text::is_white(s.take(r.0)[0]));
    }
    if r.1 < s.len() {
        assert(crate::text::is_white(s.skip(r.1)[0]));
    }
    assert(s.subrange(0, s.len() as int) =~= s);
}

} // verus!
