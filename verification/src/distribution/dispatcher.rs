//! One round of deliveries: what is sent, and what becomes of each delivery.

use crate::distribution::channels::results_view;
use crate::distribution::config::DistCfg;
use crate::distribution::envelope::{DeliveryResult, EnvelopeV, EventEnvelope, ResultV};
use crate::distribution::transform::{
    apply_field_map, build_envelope, envelope_of, int_at, int_member, member, member_at, projected,
    text_at, text_member,
};
use crate::json::{
    json_get, json_i64, json_str, json_u64, obj_put, values_view, Json, JsonV, Number, NumberV,
    Object,
};
use crate::match_algo::opt_text;
use crate::distribution::registry::ChannelRegistry;
use crate::outside::clock_ms;
use crate::sql::{slots, Statement, StatementV};
use crate::store::dct_accessor::id_params;
use crate::store::dispatch_store::{
    load_events_by_ids, load_subscriptions_by_ids, mark_dispatch, mark_statement,
};
use crate::store::md_accessor::text_params;
use crate::store::scan_store::{column_texts, texts_of_column};
use crate::text::{join, same_text, texts};
use vstd::prelude::*;

verus! {

/// `base` doubled `n` times.
pub open spec fn doubled(base: nat, n: nat) -> nat
    decreases n,
{
    if n == 0 {
        base
    } else {
        2 * doubled(base, (n - 1) as nat)
    }
}

/// How long to wait after a failed attempt, in milliseconds: the base after the first, twice as
/// long after each further one, at most the maximum.
pub open spec fn backoff_delay(base: u64, max: u64, attempts: i64) -> nat {
    let n: nat = if attempts <= 1 {
        0
    } else {
        (attempts - 1) as nat
    };
    if doubled(base as nat, n) <= max {
        doubled(base as nat, n)
    } else {
        max as nat
    }
}

proof fn lemma_doubled_grows(base: nat, m: nat, n: nat)
    requires
        m <= n,
    ensures
        doubled(base, m) <= doubled(base, n),
    decreases n,
{
    if m < n {
        lemma_doubled_grows(base, m, (n - 1) as nat);
    }
}

/// The wait never shrinks from one attempt to a later one, and never passes the maximum.
pub proof fn law_backoff(base: u64, max: u64, a: i64, b: i64)
    requires
        a <= b,
    ensures
        backoff_delay(base, max, a) <= backoff_delay(base, max, b),
        backoff_delay(base, max, b) <= max,
        backoff_delay(base, max, 1) == (if base <= max {
            base
        } else {
            max
        }),
{
    let m: nat = if a <= 1 {
        0
    } else {
        (a - 1) as nat
    };
    let n: nat = if b <= 1 {
        0
    } else {
        (b - 1) as nat
    };
    lemma_doubled_grows(base as nat, m, n);
}

/// How long to wait after a failed attempt, in milliseconds.
pub fn backoff_ms(cfg: &DistCfg, attempts: i64) -> (r: u64)
    ensures
        r == backoff_delay(cfg.backoff_base_ms, cfg.backoff_max_ms, attempts),
{
    let base: u64 = cfg.backoff_base_ms;
    let max: u64 = cfg.backoff_max_ms;
    if base > max {
        proof {
            law_backoff(base, max, 1, if attempts >= 1 {
                attempts
            } else {
                1
            });
        }
        return max;
    }
    if base == 0 {
        proof {
            lemma_doubled_zero(
                if attempts <= 1 {
                    0
                } else {
                    (attempts - 1) as nat
                },
            );
        }
        return 0;
    }
    let mut d: u64 = base;
    let mut n: i64 = 1;
    while n < attempts
        invariant
            base == cfg.backoff_base_ms,
            max == cfg.backoff_max_ms,
            1 <= n,
            n <= attempts || n == 1,
            0 < d <= max,
            d == doubled(base as nat, (n - 1) as nat),
        decreases attempts - n,
    {
        assert(doubled(base as nat, n as nat) == 2 * doubled(base as nat, (n - 1) as nat));
        if d > max / 2 {
            proof {
                lemma_doubled_grows(base as nat, n as nat, (attempts - 1) as nat);
            }
            return max;
        }
        d = 2 * d;
        n += 1;
    }
    d
}

proof fn lemma_doubled_zero(n: nat)
    ensures
        doubled(0, n) == 0,
    decreases n,
{
    if n > 0 {
        lemma_doubled_zero((n - 1) as nat);
    }
}

/// When a delivery may be tried again, in seconds since the Unix epoch: a second after the wait;
/// 0 for a clock before the epoch.
pub open spec fn retry_at(cfg: DistCfg, attempts: i64, now_ms: Option<u64>) -> int {
    match now_ms {
        Some(t) => t as int / 1000 + backoff_delay(
            cfg.backoff_base_ms,
            cfg.backoff_max_ms,
            attempts,
        ) as int / 1000 + 1,
        None => 0,
    }
}

/// When a delivery may be tried again, given the time.
pub fn backoff_at(cfg: &DistCfg, attempts: i64, now_ms: Option<u64>) -> (r: i64)
    ensures
        r == retry_at(*cfg, attempts, now_ms),
{
    let delay: u64 = backoff_ms(cfg, attempts);
    match now_ms {
        Some(t) => (t / 1000 + delay / 1000 + 1) as i64,
        None => 0,
    }
}

/// When a delivery may be tried again, counted from the present.
pub fn backoff_epoch(cfg: &DistCfg, attempts: i64) -> (r: i64)
    ensures
        exists|now: Option<u64>| r == #[trigger] retry_at(*cfg, attempts, now),
{
    let now = clock_ms();
    let r: i64 = backoff_at(cfg, attempts, now);
    assert(r == retry_at(*cfg, attempts, now));
    r
}

/// The last event of an id.
pub open spec fn find_event(events: Seq<JsonV>, id: Seq<char>) -> Option<JsonV>
    decreases events.len(),
{
    if events.len() == 0 {
        None
    } else if text_at(events.last(), "id"@) == id {
        Some(events.last())
    } else {
        find_event(events.drop_last(), id)
    }
}

/// The last event of an id.
pub fn event_by_id<'a>(events: &'a Vec<Json>, id: &str) -> (r: Option<&'a Json>)
    ensures
        match r {
            Some(e) => find_event(values_view(events@), id@) == Some(e@),
            None => find_event(values_view(events@), id@) is None,
        },
{
    let ghost all = values_view(events@);
    let mut n: usize = events.len();
    assert(all.take(n as int) =~= all);
    while n > 0
        invariant
            n <= events@.len(),
            all == values_view(events@),
            find_event(all, id@) == find_event(all.take(n as int), id@),
        decreases n,
    {
        assert(all.take(n as int).last() == events@[n - 1]@);
        assert(all.take(n as int).drop_last() =~= all.take(n - 1));
        if same_text(text_member(&events[n - 1], "id").as_str(), id) {
            return Some(&events[n - 1]);
        }
        n -= 1;
    }
    None
}

/// The last result for an event.
pub open spec fn find_result(results: Seq<ResultV>, id: Seq<char>) -> Option<ResultV>
    decreases results.len(),
{
    if results.len() == 0 {
        None
    } else if results.last().event_id == id {
        Some(results.last())
    } else {
        find_result(results.drop_last(), id)
    }
}

fn result_for<'a>(results: &'a Vec<DeliveryResult>, id: &str) -> (r: Option<&'a DeliveryResult>)
    ensures
        match r {
            Some(e) => find_result(results_view(results@), id@) == Some(e@),
            None => find_result(results_view(results@), id@) is None,
        },
{
    let ghost all = results_view(results@);
    let mut n: usize = results.len();
    assert(all.take(n as int) =~= all);
    while n > 0
        invariant
            n <= results@.len(),
            all == results_view(results@),
            find_result(all, id@) == find_result(all.take(n as int), id@),
        decreases n,
    {
        assert(all.take(n as int).last() == results@[n - 1]@);
        assert(all.take(n as int).drop_last() =~= all.take(n - 1));
        if same_text(results[n - 1].event_id.as_str(), id) {
            return Some(&results[n - 1]);
        }
        n -= 1;
    }
    None
}

/// What of an event is projected: its snapshot, or its payload where it carries none.
pub open spec fn event_data(event: JsonV) -> JsonV {
    match json_get(event, "payload"@) {
        Some(p) => match json_get(p, "snapshot"@) {
            Some(s) => s,
            None => p,
        },
        None => JsonV::Null,
    }
}

fn data_of(event: &Json) -> (r: Json)
    ensures
        r@ == event_data(event@),
{
    match event.get("payload") {
        Some(p) => match p.get("snapshot") {
            Some(s) => s.clone(),
            None => p.clone(),
        },
        None => Json::Null,
    }
}

/// Where a delivery comes from: the request behind the event, and the delivery itself.
pub open spec fn delivery_meta(dispatch: JsonV, event: JsonV) -> JsonV {
    JsonV::Obj(
        obj_put(
            obj_put(
                Seq::empty(),
                "crId"@,
                member_at(member_at(event, "payload"@), "cr_id"@),
            ),
            "dispatchId"@,
            member_at(dispatch, "id"@),
        ),
    )
}

/// The envelope of a delivery; none where its event is not at hand.
pub open spec fn delivery_envelope(
    dispatch: JsonV,
    events: Seq<JsonV>,
    field_map: JsonV,
) -> Option<EnvelopeV> {
    match json_str(json_get(dispatch, "event_id"@)) {
        Some(id) => match find_event(events, id) {
            Some(ev) => Some(
                envelope_of(
                    ev,
                    projected(event_data(ev), field_map),
                    delivery_meta(dispatch, ev),
                ),
            ),
            None => None,
        },
        None => None,
    }
}

/// The envelopes of some deliveries, in their order.
pub open spec fn delivery_envelopes(
    chunk: Seq<JsonV>,
    events: Seq<JsonV>,
    field_map: JsonV,
) -> Seq<EnvelopeV>
    decreases chunk.len(),
{
    if chunk.len() == 0 {
        Seq::empty()
    } else {
        let r = delivery_envelopes(chunk.drop_last(), events, field_map);
        match delivery_envelope(chunk.last(), events, field_map) {
            Some(e) => r.push(e),
            None => r,
        }
    }
}

/// The views of a list of envelopes.
pub open spec fn envelopes_view(e: Seq<EventEnvelope>) -> Seq<EnvelopeV> {
    Seq::new(e.len(), |i: int| e[i]@)
}

fn envelope_for(dispatch: &Json, events: &Vec<Json>, field_map: &Json) -> (r: Option<EventEnvelope>)
    ensures
        match r {
            Some(e) => delivery_envelope(dispatch@, values_view(events@), field_map@) == Some(e@),
            None => delivery_envelope(dispatch@, values_view(events@), field_map@) is None,
        },
{
    let id = match dispatch.get("event_id") {
        Some(Json::Str(s)) => s,
        _ => {
            return None;
        },
    };
    match event_by_id(events, id.as_str()) {
        None => None,
        Some(ev) => {
            let data = apply_field_map(&data_of(ev), field_map);
            let mut meta = Object::new();
            meta.insert("crId".to_owned(), member(&member(ev, "payload"), "cr_id"));
            meta.insert("dispatchId".to_owned(), member(dispatch, "id"));
            Some(build_envelope(ev, data, Json::Obj(meta)))
        },
    }
}

/// The envelopes of some deliveries: for each event at hand its projected snapshot.
pub fn build_envelopes(chunk: &[Json], events: &Vec<Json>, field_map: &Json) -> (r: Vec<
    EventEnvelope,
>)
    ensures
        envelopes_view(r@) == delivery_envelopes(
            values_view(chunk@),
            values_view(events@),
            field_map@,
        ),
{
    let ghost all = values_view(chunk@);
    let ghost ev = values_view(events@);
    let mut r: Vec<EventEnvelope> = Vec::new();
    let mut i: usize = 0;
    assert(all.take(0) =~= Seq::<JsonV>::empty());
    assert(envelopes_view(r@) =~= Seq::<EnvelopeV>::empty());
    while i < chunk.len()
        invariant
            i <= chunk@.len(),
            all == values_view(chunk@),
            ev == values_view(events@),
            envelopes_view(r@) == delivery_envelopes(all.take(i as int), ev, field_map@),
        decreases chunk@.len() - i,
    {
        let ghost before = r@;
        assert(all.take(i + 1).drop_last() =~= all.take(i as int));
        assert(all.take(i + 1).last() == chunk@[i as int]@);
        if let Some(e) = envelope_for(&chunk[i], events, field_map) {
            let ghost evv = e@;
            r.push(e);
            assert(envelopes_view(r@) =~= envelopes_view(before).push(evv));
        }
        i += 1;
    }
    assert(all.take(all.len() as int) =~= all);
    r
}

/// What is noted of a delivery.
#[derive(Debug)]
pub struct Mark {
    pub dispatch_id: i64,
    /// `delivered`, `failed` or `dead`.
    pub status: String,
    pub attempts: i64,
    pub next_retry: Option<i64>,
    pub http_status: Option<i64>,
    pub error: Option<String>,
    pub snippet: Option<String>,
    /// Whether people are told.
    pub alarm: bool,
}

/// What a note stands for.
#[verifier::ext_equal]
pub struct MarkV {
    pub dispatch_id: i64,
    pub status: Seq<char>,
    pub attempts: int,
    pub next_retry: Option<int>,
    pub http_status: Option<i64>,
    pub error: Option<Seq<char>>,
    pub snippet: Option<Seq<char>>,
    pub alarm: bool,
}

impl Mark {
    pub open spec fn view(&self) -> MarkV {
        MarkV {
            dispatch_id: self.dispatch_id,
            status: self.status@,
            attempts: self.attempts as int,
            next_retry: match self.next_retry {
                Some(t) => Some(t as int),
                None => None,
            },
            http_status: self.http_status,
            error: opt_text(self.error),
            snippet: opt_text(self.snippet),
            alarm: self.alarm,
        }
    }
}

/// A delivery that was not tried: one that failed may be tried again in a minute, and people are
/// told of one that is given up.
pub open spec fn plain_mark(
    dispatch: JsonV,
    status: Seq<char>,
    error: Seq<char>,
    now_ms: Option<u64>,
) -> MarkV {
    MarkV {
        dispatch_id: int_at(dispatch, "id"@),
        status,
        attempts: int_at(dispatch, "attempts"@) + 1,
        next_retry: match now_ms {
            Some(t) => if status == "failed"@ {
                Some(t as int / 1000 + 60)
            } else {
                None
            },
            None => None,
        },
        http_status: None,
        error: Some(error),
        snippet: None,
        alarm: status == "dead"@,
    }
}

/// What becomes of a delivery, given its result: delivered; dead where it cannot pass or was
/// tried often enough; else failed until the wait is over. Without a result its event is gone.
pub open spec fn delivery_mark(
    dispatch: JsonV,
    result: Option<ResultV>,
    retry_max: i64,
    cfg: DistCfg,
    now_ms: Option<u64>,
) -> MarkV {
    let attempts = int_at(dispatch, "attempts"@) + 1;
    match result {
        None => plain_mark(
            dispatch,
            "dead"@,
            "事件详情缺失（可能已被归档清理）"@,
            now_ms,
        ),
        Some(r) => if r.ok {
            MarkV {
                dispatch_id: int_at(dispatch, "id"@),
                status: "delivered"@,
                attempts,
                next_retry: None,
                http_status: r.http_status,
                error: None,
                snippet: r.detail,
                alarm: false,
            }
        } else {
            let dead = !r.retryable || attempts >= retry_max;
            MarkV {
                dispatch_id: int_at(dispatch, "id"@),
                status: if dead {
                    "dead"@
                } else {
                    "failed"@
                },
                attempts,
                next_retry: if dead {
                    None
                } else {
                    Some(retry_at(cfg, attempts as i64, now_ms))
                },
                http_status: r.http_status,
                error: Some(
                    match r.detail {
                        Some(d) => d,
                        None => "未知错误"@,
                    },
                ),
                snippet: r.detail,
                alarm: dead,
            }
        },
    }
}

/// Notes a delivery that was not tried.
pub fn mark_simple(dispatch: &Json, status: &str, error: &str, now_ms: Option<u64>) -> (r: Mark)
    requires
        int_at(dispatch@, "attempts"@) < i64::MAX,
    ensures
        r@ == plain_mark(dispatch@, status@, error@, now_ms),
{
    let next: Option<i64> = match now_ms {
        Some(t) => if same_text(status, "failed") {
            Some((t / 1000) as i64 + 60)
        } else {
            None
        },
        None => None,
    };
    Mark {
        dispatch_id: int_member(dispatch, "id"),
        status: status.to_owned(),
        attempts: int_member(dispatch, "attempts") + 1,
        next_retry: next,
        http_status: None,
        error: Some(error.to_owned()),
        snippet: None,
        alarm: same_text(status, "dead"),
    }
}

fn copy_opt(s: &Option<String>) -> (r: Option<String>)
    ensures
        opt_text(r) == opt_text(*s),
{
    match s {
        Some(t) => Some(t.clone()),
        None => None,
    }
}

/// Notes what becomes of a delivery.
pub fn mark_delivery(
    dispatch: &Json,
    result: Option<&DeliveryResult>,
    retry_max: i64,
    cfg: &DistCfg,
    now_ms: Option<u64>,
) -> (r: Mark)
    requires
        int_at(dispatch@, "attempts"@) < i64::MAX,
    ensures
        r@ == delivery_mark(
            dispatch@,
            match result {
                Some(x) => Some(x@),
                None => None,
            },
            retry_max,
            *cfg,
            now_ms,
        ),
{
    let res = match result {
        None => {
            return mark_simple(
                dispatch,
                "dead",
                "事件详情缺失（可能已被归档清理）",
                now_ms,
            );
        },
        Some(x) => x,
    };
    let dispatch_id: i64 = int_member(dispatch, "id");
    let attempts: i64 = int_member(dispatch, "attempts") + 1;
    if res.ok {
        return Mark {
            dispatch_id,
            status: "delivered".to_owned(),
            attempts,
            next_retry: None,
            http_status: res.http_status,
            error: None,
            snippet: copy_opt(&res.detail),
            alarm: false,
        };
    }
    let dead = !res.retryable || attempts >= retry_max;
    let error: String = match &res.detail {
        Some(d) => d.clone(),
        None => "未知错误".to_owned(),
    };
    Mark {
        dispatch_id,
        status: if dead {
            "dead".to_owned()
        } else {
            "failed".to_owned()
        },
        attempts,
        next_retry: if dead {
            None
        } else {
            Some(backoff_at(cfg, attempts, now_ms))
        },
        http_status: res.http_status,
        error: Some(error),
        snippet: copy_opt(&res.detail),
        alarm: dead,
    }
}

/// People are told of a delivery exactly where it is given up.
pub proof fn law_alarm_is_dead(
    dispatch: JsonV,
    result: Option<ResultV>,
    retry_max: i64,
    cfg: DistCfg,
    now_ms: Option<u64>,
)
    ensures
        ({
            let m = delivery_mark(dispatch, result, retry_max, cfg, now_ms);
            m.alarm <==> m.status == "dead"@
        }),
{
    reveal_strlit("dead");
    reveal_strlit("failed");
    reveal_strlit("delivered");
    assert("dead"@.len() == 4 && "failed"@.len() == 6 && "delivered"@.len() == 9);
}

/// The views of a list of notes.
pub open spec fn marks_view(m: Seq<Mark>) -> Seq<MarkV> {
    Seq::new(m.len(), |i: int| m[i]@)
}

/// The notes on some deliveries: for each the result of its event.
pub open spec fn delivery_marks(
    chunk: Seq<JsonV>,
    results: Seq<ResultV>,
    retry_max: i64,
    cfg: DistCfg,
    now_ms: Option<u64>,
) -> Seq<MarkV> {
    Seq::new(
        chunk.len(),
        |i: int|
            delivery_mark(
                chunk[i],
                find_result(results, text_at(chunk[i], "event_id"@)),
                retry_max,
                cfg,
                now_ms,
            ),
    )
}

/// No delivery was tried as often as can be counted.
pub open spec fn attempts_fit(rows: Seq<JsonV>) -> bool {
    forall|i: int|
        0 <= i < rows.len() ==> int_at(#[trigger] rows[i], "attempts"@) < i64::MAX
}

/// Notes what becomes of some deliveries, one note for each, in their order.
pub fn mark_deliveries(
    chunk: &[Json],
    results: &Vec<DeliveryResult>,
    retry_max: i64,
    cfg: &DistCfg,
    now_ms: Option<u64>,
) -> (r: Vec<Mark>)
    requires
        attempts_fit(values_view(chunk@)),
    ensures
        marks_view(r@) == delivery_marks(
            values_view(chunk@),
            results_view(results@),
            retry_max,
            *cfg,
            now_ms,
        ),
{
    let ghost all = values_view(chunk@);
    let ghost want = delivery_marks(all, results_view(results@), retry_max, *cfg, now_ms);
    let mut r: Vec<Mark> = Vec::new();
    let mut i: usize = 0;
    while i < chunk.len()
        invariant
            i <= chunk@.len(),
            all == values_view(chunk@),
            attempts_fit(all),
            want == delivery_marks(all, results_view(results@), retry_max, *cfg, now_ms),
            r@.len() == i,
            forall|j: int| 0 <= j < i ==> (#[trigger] r@[j])@ == want[j],
        decreases chunk@.len() - i,
    {
        assert(all[i as int] == chunk@[i as int]@);
        let id = text_member(&chunk[i], "event_id");
        let res = result_for(results, id.as_str());
        r.push(mark_delivery(&chunk[i], res, retry_max, cfg, now_ms));
        i += 1;
    }
    assert(marks_view(r@) =~= want);
    r
}

/// Notes that none of some deliveries could be tried; they may be tried again in a minute.
pub fn fail_rows(rows: &[Json], error: &str, now_ms: Option<u64>) -> (r: Vec<Mark>)
    requires
        attempts_fit(values_view(rows@)),
    ensures
        marks_view(r@) == Seq::new(
            rows@.len(),
            |i: int| plain_mark(values_view(rows@)[i], "failed"@, error@, now_ms),
        ),
{
    let ghost all = values_view(rows@);
    let mut r: Vec<Mark> = Vec::new();
    let mut i: usize = 0;
    while i < rows.len()
        invariant
            i <= rows@.len(),
            all == values_view(rows@),
            attempts_fit(all),
            r@.len() == i,
            forall|j: int|
                0 <= j < i ==> (#[trigger] r@[j])@ == plain_mark(
                    all[j],
                    "failed"@,
                    error@,
                    now_ms,
                ),
        decreases rows@.len() - i,
    {
        assert(all[i as int] == rows@[i as int]@);
        r.push(mark_simple(&rows[i], "failed", error, now_ms));
        i += 1;
    }
    assert(marks_view(r@) =~= Seq::new(
        rows@.len(),
        |i: int| plain_mark(all[i], "failed"@, error@, now_ms),
    ));
    r
}

/// A delivery that failed is tried again unless it cannot pass or was tried often enough, and
/// people are told exactly where it is given up; one that succeeded is done.
pub proof fn law_delivery_mark(
    dispatch: JsonV,
    r: ResultV,
    retry_max: i64,
    cfg: DistCfg,
    now_ms: Option<u64>,
)
    ensures
        ({
            let m = delivery_mark(dispatch, Some(r), retry_max, cfg, now_ms);
            &&& r.ok <==> m.status == "delivered"@
            &&& m.alarm <==> m.status == "dead"@
            &&& m.next_retry is Some <==> m.status == "failed"@
            &&& m.status == "dead"@ <==> !r.ok && (!r.retryable || m.attempts >= retry_max)
            &&& m.attempts == int_at(dispatch, "attempts"@) + 1
        }),
{
    reveal_strlit("delivered");
    reveal_strlit("dead");
    reveal_strlit("failed");
    assert("delivered"@.len() == 9 && "dead"@.len() == 4 && "failed"@.len() == 6);
}

/// The settings of a subscription that a delivery needs.
#[derive(Debug)]
pub struct DeliveryPlan {
    pub retry_max: i64,
    pub batch_size: i64,
    pub field_map: Json,
    pub channel_config: Json,
}

/// The settings of a channel, with the subscription's time limit in them.
pub open spec fn channel_settings(sub: JsonV) -> JsonV {
    let config = match json_get(sub, "channel_config"@) {
        Some(c) => c,
        None => JsonV::Obj(Seq::empty()),
    };
    match (json_u64(json_get(sub, "timeout_ms"@)), config) {
        (Some(t), JsonV::Obj(o)) => JsonV::Obj(
            obj_put(o, "timeout_ms"@, JsonV::Num(NumberV::PosInt(t))),
        ),
        _ => config,
    }
}

/// The integer of a member, or a default where it is missing or no integer.
pub open spec fn int_or(v: JsonV, k: Seq<char>, default: i64) -> i64 {
    match json_i64(json_get(v, k)) {
        Some(i) => i,
        None => default,
    }
}

/// The integer of a member, or a default.
pub fn integer_or(v: &Json, k: &str, default: i64) -> (r: i64)
    ensures
        r == int_or(v@, k@, default),
{
    match v.get(k) {
        Some(x) => match x.as_i64() {
            Some(i) => i,
            None => default,
        },
        None => default,
    }
}

impl DeliveryPlan {
    /// Whether these are the settings of a subscription: 8 attempts and batches of 50 unless set,
    /// a batch of at least one.
    pub open spec fn reads(&self, sub: JsonV) -> bool {
        &&& self.retry_max == int_or(sub, "retry_max"@, 8)
        &&& self.batch_size == (if int_or(sub, "batch_size"@, 50) >= 1 {
            int_or(sub, "batch_size"@, 50)
        } else {
            1
        })
        &&& self.field_map@ == member_at(sub, "field_map"@)
        &&& self.channel_config@ == channel_settings(sub)
    }
}

/// Reads the settings of a subscription.
pub fn delivery_plan(sub: &Json) -> (r: DeliveryPlan)
    ensures
        r.reads(sub@),
{
    let size: i64 = integer_or(sub, "batch_size", 50);
    let mut config: Json = match sub.get("channel_config") {
        Some(c) => c.clone(),
        None => Json::Obj(Object::new()),
    };
    let timeout: Option<u64> = match sub.get("timeout_ms") {
        Some(v) => v.as_u64(),
        None => None,
    };
    if let Some(t) = timeout {
        config = match config {
            Json::Obj(o) => {
                let mut p = o;
                p.insert("timeout_ms".to_owned(), Json::Num(Number::PosInt(t)));
                Json::Obj(p)
            },
            other => other,
        };
    }
    DeliveryPlan {
        retry_max: integer_or(sub, "retry_max", 8),
        batch_size: if size >= 1 {
            size
        } else {
            1
        },
        field_map: member(sub, "field_map"),
        channel_config: config,
    }
}

/// The subscriptions of the deliveries, each once, in the order in which they first occur.
pub open spec fn group_ids(rows: Seq<JsonV>) -> Seq<i64>
    decreases rows.len(),
{
    if rows.len() == 0 {
        Seq::empty()
    } else {
        let g = group_ids(rows.drop_last());
        match json_i64(json_get(rows.last(), "subscription_id"@)) {
            Some(id) => if g.contains(id) {
                g
            } else {
                g.push(id)
            },
            None => g,
        }
    }
}

/// The deliveries of one subscription, in their order.
pub open spec fn group_rows(rows: Seq<JsonV>, id: i64) -> Seq<JsonV>
    decreases rows.len(),
{
    if rows.len() == 0 {
        Seq::empty()
    } else {
        let g = group_rows(rows.drop_last(), id);
        if json_i64(json_get(rows.last(), "subscription_id"@)) == Some(id) {
            g.push(rows.last())
        } else {
            g
        }
    }
}

/// The deliveries of one subscription.
#[derive(Debug)]
pub struct Group {
    pub subscription_id: i64,
    pub rows: Vec<Json>,
}

/// A subscription that does not occur has no deliveries.
proof fn lemma_no_group(rows: Seq<JsonV>, id: i64)
    requires
        !group_ids(rows).contains(id),
    ensures
        group_rows(rows, id).len() == 0,
    decreases rows.len(),
{
    if rows.len() > 0 {
        let g = group_ids(rows.drop_last());
        let h = group_ids(rows);
        if g.contains(id) {
            let i = choose|i: int| 0 <= i < g.len() && g[i] == id;
            assert(h[i] == id);
        }
        if json_i64(json_get(rows.last(), "subscription_id"@)) == Some(id) {
            if !g.contains(id) {
                assert(h[g.len() as int] == id);
            }
        }
        lemma_no_group(rows.drop_last(), id);
    }
}

/// Groups the deliveries by subscription; within a group they keep their order.
pub fn group_deliveries(rows: &Vec<Json>) -> (r: Vec<Group>)
    ensures
        grouped(r@, values_view(rows@)),
{
    let ghost all = values_view(rows@);
    let mut out: Vec<Group> = Vec::new();
    let mut i: usize = 0;
    assert(all.take(0) =~= Seq::<JsonV>::empty());
    while i < rows.len()
        invariant
            i <= rows@.len(),
            all == values_view(rows@),
            out@.len() == group_ids(all.take(i as int)).len(),
            forall|j: int|
                0 <= j < out@.len() ==> (#[trigger] out@[j]).subscription_id == group_ids(
                    all.take(i as int),
                )[j],
            forall|j: int|
                0 <= j < out@.len() ==> values_view((#[trigger] out@[j]).rows@) == group_rows(
                    all.take(i as int),
                    out@[j].subscription_id,
                ),
        decreases rows@.len() - i,
    {
        let ghost rs = all.take(i as int);
        let ghost rs1 = all.take(i + 1);
        let ghost before = out@;
        proof {
            assert(rs1.drop_last() =~= rs);
            assert(rs1.last() == rows@[i as int]@);
        }
        let sid: Option<i64> = match rows[i].get("subscription_id") {
            Some(v) => v.as_i64(),
            None => None,
        };
        if let Some(id) = sid {
            let mut n: usize = 0;
            while n < out.len() && out[n].subscription_id != id
                invariant
                    n <= out@.len(),
                    out@ == before,
                    forall|j: int| 0 <= j < n ==> (#[trigger] out@[j]).subscription_id != id,
                decreases out@.len() - n,
            {
                n += 1;
            }
            let row = rows[i].clone();
            if n < out.len() {
                proof {
                    assert(group_ids(rs)[n as int] == id);
                    assert(group_ids(rs).contains(id));
                }
                out[n].rows.push(row);
                proof {
                    lemma_groups_distinct(rs);
                    assert(values_view(out@[n as int].rows@) =~= values_view(
                        before[n as int].rows@,
                    ).push(rows@[i as int]@));
                    assert forall|j: int| 0 <= j < out@.len() implies (
                    #[trigger] out@[j]).subscription_id == group_ids(rs1)[j] by {
                        assert(out@[j].subscription_id == before[j].subscription_id);
                    }
                    assert forall|j: int| 0 <= j < out@.len() implies values_view(
                        (#[trigger] out@[j]).rows@,
                    ) == group_rows(rs1, out@[j].subscription_id) by {
                        assert(out@[j].subscription_id == before[j].subscription_id);
                        if j != n {
                            assert(out@[j] == before[j]);
                            assert(group_ids(rs)[j] != group_ids(rs)[n as int]);
                        }
                    }
                }
            } else {
                proof {
                    assert(!group_ids(rs).contains(id)) by {
                        if group_ids(rs).contains(id) {
                            let j = choose|j: int|
                                0 <= j < group_ids(rs).len() && group_ids(rs)[j] == id;
                            assert(before[j].subscription_id == id);
                        }
                    }
                    lemma_no_group(rs, id);
                }
                let mut fresh: Vec<Json> = Vec::new();
                fresh.push(row);
                assert(values_view(fresh@) =~= group_rows(rs1, id));
                out.push(Group { subscription_id: id, rows: fresh });
                proof {
                    assert forall|j: int| 0 <= j < out@.len() implies values_view(
                        (#[trigger] out@[j]).rows@,
                    ) == group_rows(rs1, out@[j].subscription_id) by {
                        if j < before.len() {
                            assert(out@[j] == before[j]);
                            assert(group_ids(rs)[j] == before[j].subscription_id);
                        }
                    }
                }
            }
        }
        i += 1;
    }
    assert(all.take(all.len() as int) =~= all);
    out
}

proof fn lemma_groups_distinct(rows: Seq<JsonV>)
    ensures
        forall|i: int, j: int|
            0 <= i < j < group_ids(rows).len() ==> #[trigger] group_ids(rows)[i]
                != #[trigger] group_ids(rows)[j],
    decreases rows.len(),
{
    if rows.len() > 0 {
        lemma_groups_distinct(rows.drop_last());
        let g = group_ids(rows.drop_last());
        let h = group_ids(rows);
        assert forall|i: int, j: int| 0 <= i < j < h.len() implies #[trigger] h[i]
            != #[trigger] h[j] by {
            if j < g.len() {
                assert(h[i] == g[i] && h[j] == g[j]);
            } else {
                assert(h[i] == g[i]);
            }
        }
    }
}

/// No delivery of a subscription is lost: its group has it.
pub proof fn law_grouped(rows: Seq<JsonV>, i: int, id: i64)
    requires
        0 <= i < rows.len(),
        json_i64(json_get(rows[i], "subscription_id"@)) == Some(id),
    ensures
        group_ids(rows).contains(id),
        group_rows(rows, id).contains(rows[i]),
    decreases rows.len(),
{
    let front = rows.drop_last();
    let g = group_ids(front);
    let r = group_rows(front, id);
    if i < front.len() {
        law_grouped(front, i, id);
        let k = choose|k: int| 0 <= k < g.len() && g[k] == id;
        assert(group_ids(rows)[k] == id);
        let j = choose|j: int| 0 <= j < r.len() && r[j] == rows[i];
        assert(group_rows(rows, id)[j] == rows[i]);
    } else {
        assert(group_rows(rows, id)[r.len() as int] == rows[i]);
        if !g.contains(id) {
            assert(group_ids(rows)[g.len() as int] == id);
        }
    }
}

/// What people are told of a delivery that was given up.
#[derive(Debug)]
pub struct DeadNotice {
    pub title: String,
    pub body: String,
    /// The users to tell.
    pub targets: Vec<String>,
    /// What is broadcast within the process.
    pub event: Json,
}

/// A text, or `?` where it is missing.
pub open spec fn text_or_unknown(v: JsonV, k: Seq<char>) -> Seq<char> {
    match json_str(json_get(v, k)) {
        Some(s) => s,
        None => "?"@,
    }
}

fn known_text(v: &Json, k: &str) -> (r: String)
    ensures
        r@ == text_or_unknown(v@, k@),
{
    match v.get(k) {
        Some(Json::Str(s)) => s.clone(),
        _ => "?".to_owned(),
    }
}

/// What people are told of a delivery that was given up: the administrator, and whoever made the
/// subscription.
pub open spec fn notice_of(sub: JsonV, event_id: Seq<char>, error: Seq<char>) -> NoticeV {
    let o = obj_put(Seq::empty(), "subscriptionId"@, member_at(sub, "id"@));
    let o = obj_put(o, "targetSys"@, member_at(sub, "target_sys"@));
    let o = obj_put(o, "dictCode"@, member_at(sub, "dict_code"@));
    let o = obj_put(o, "eventId"@, JsonV::Str(event_id));
    NoticeV {
        title: "主数据分发死信："@ + text_or_unknown(sub, "dict_code"@) + " → "@ + text_or_unknown(
            sub,
            "target_sys"@,
        ),
        body: "事件 "@ + event_id + " 投递耗尽重试进入死信："@ + error,
        targets: if text_at(sub, "created_by"@).len() > 0 {
            seq!["admin"@, text_at(sub, "created_by"@)]
        } else {
            seq!["admin"@]
        },
        event: JsonV::Obj(obj_put(o, "error"@, JsonV::Str(error))),
    }
}

/// Tells people of a delivery that was given up.
pub fn dead_notice(sub: &Json, event_id: &str, error: &str) -> (r: DeadNotice)
    ensures
        r@ == notice_of(sub@, event_id@, error@),
{
    let mut title: String = "主数据分发死信：".to_owned();
    title.append(known_text(sub, "dict_code").as_str());
    title.append(" → ");
    title.append(known_text(sub, "target_sys").as_str());
    let mut body: String = "事件 ".to_owned();
    body.append(event_id);
    body.append(" 投递耗尽重试进入死信：");
    body.append(error);
    let mut targets: Vec<String> = Vec::new();
    targets.push("admin".to_owned());
    let creator = text_member(sub, "created_by");
    if !creator.as_str().is_empty() {
        targets.push(creator);
        assert(texts(targets@) =~= seq!["admin"@, text_at(sub@, "created_by"@)]);
    } else {
        assert(texts(targets@) =~= seq!["admin"@]);
    }
    let mut o = Object::new();
    o.insert("subscriptionId".to_owned(), member(sub, "id"));
    o.insert("targetSys".to_owned(), member(sub, "target_sys"));
    o.insert("dictCode".to_owned(), member(sub, "dict_code"));
    o.insert("eventId".to_owned(), Json::string(event_id));
    o.insert("error".to_owned(), Json::string(error));
    DeadNotice { title, body, targets, event: Json::Obj(o) }
}

/// What people are told stands for.
#[verifier::ext_equal]
pub struct NoticeV {
    pub title: Seq<char>,
    pub body: Seq<char>,
    pub targets: Seq<Seq<char>>,
    pub event: JsonV,
}

impl DeadNotice {
    pub open spec fn view(&self) -> NoticeV {
        NoticeV {
            title: self.title@,
            body: self.body@,
            targets: texts(self.targets@),
            event: self.event@,
        }
    }
}

/// The integers of one column, row by row; rows without one are left out.
pub open spec fn column_ints(rows: Seq<JsonV>, column: Seq<char>) -> Seq<i64>
    decreases rows.len(),
{
    if rows.len() == 0 {
        Seq::empty()
    } else {
        let r = column_ints(rows.drop_last(), column);
        match json_i64(json_get(rows.last(), column)) {
            Some(i) => r.push(i),
            None => r,
        }
    }
}

fn ints_of_column(rows: &Vec<Json>, column: &str) -> (r: Vec<i64>)
    ensures
        r@ == column_ints(values_view(rows@), column@),
{
    let ghost all = values_view(rows@);
    let mut out: Vec<i64> = Vec::new();
    let mut i: usize = 0;
    assert(all.take(0) =~= Seq::<JsonV>::empty());
    while i < rows.len()
        invariant
            i <= rows@.len(),
            all == values_view(rows@),
            out@ == column_ints(all.take(i as int), column@),
        decreases rows@.len() - i,
    {
        assert(all.take(i + 1).drop_last() =~= all.take(i as int));
        assert(all.take(i + 1).last() == rows@[i as int]@);
        if let Some(v) = rows[i].get(column) {
            if let Some(n) = v.as_i64() {
                out.push(n);
            }
        }
        i += 1;
    }
    assert(all.take(all.len() as int) =~= all);
    out
}

/// What a round reads of the deliveries that it claimed, and how it groups them.
#[derive(Debug)]
pub struct RoundPlan {
    pub events: Option<Statement>,
    pub subs: Option<Statement>,
    pub groups: Vec<Group>,
}

/// The deliveries are grouped by subscription, each group in its order.
pub open spec fn grouped(groups: Seq<Group>, rows: Seq<JsonV>) -> bool {
    &&& groups.len() == group_ids(rows).len()
    &&& forall|i: int|
        0 <= i < groups.len() ==> (#[trigger] groups[i]).subscription_id == group_ids(rows)[i]
            && values_view(groups[i].rows@) == group_rows(rows, groups[i].subscription_id)
}

/// What a round reads and how it groups what it claimed.
pub fn deliver_round(claimed: &Vec<Json>) -> (r: RoundPlan)
    ensures
        grouped(r.groups@, values_view(claimed@)),
        match r.events {
            Some(s) => column_texts(values_view(claimed@), "event_id"@).len() > 0 && s@ == (
            StatementV {
                sql: "SELECT id, seq, dict_code, record_id, event_type, payload, emitted_at FROM md_event_log WHERE id IN ("@
                    + join(
                    slots(1, column_texts(values_view(claimed@), "event_id"@).len()),
                    ","@,
                ) + ")"@,
                params: text_params(column_texts(values_view(claimed@), "event_id"@)),
            }),
            None => column_texts(values_view(claimed@), "event_id"@).len() == 0,
        },
        match r.subs {
            Some(s) => column_ints(values_view(claimed@), "subscription_id"@).len() > 0 && s@ == (
            StatementV {
                sql: "SELECT * FROM md_subscription WHERE id IN ("@ + join(
                    slots(1, column_ints(values_view(claimed@), "subscription_id"@).len()),
                    ","@,
                ) + ")"@,
                params: id_params(column_ints(values_view(claimed@), "subscription_id"@)),
            }),
            None => column_ints(values_view(claimed@), "subscription_id"@).len() == 0,
        },
{
    let event_ids = texts_of_column(claimed, "event_id");
    assert(event_ids@.len() == texts(event_ids@).len());
    let sub_ids = ints_of_column(claimed, "subscription_id");
    RoundPlan {
        events: load_events_by_ids(&event_ids),
        subs: load_subscriptions_by_ids(sub_ids.as_slice()),
        groups: group_deliveries(claimed),
    }
}

/// The last subscription of an id.
pub open spec fn find_sub(subs: Seq<JsonV>, id: i64) -> Option<JsonV>
    decreases subs.len(),
{
    if subs.len() == 0 {
        None
    } else if int_at(subs.last(), "id"@) == id {
        Some(subs.last())
    } else {
        find_sub(subs.drop_last(), id)
    }
}

/// The last subscription of an id.
pub fn sub_by_id(subs: &Vec<Json>, id: i64) -> (r: Option<&Json>)
    ensures
        match r {
            Some(s) => find_sub(values_view(subs@), id) == Some(s@),
            None => find_sub(values_view(subs@), id) is None,
        },
{
    let ghost all = values_view(subs@);
    let mut n: usize = subs.len();
    assert(all.take(n as int) =~= all);
    while n > 0
        invariant
            n <= subs@.len(),
            all == values_view(subs@),
            find_sub(all, id) == find_sub(all.take(n as int), id),
        decreases n,
    {
        assert(all.take(n as int).last() == subs@[n - 1]@);
        assert(all.take(n as int).drop_last() =~= all.take(n - 1));
        if int_member(&subs[n - 1], "id") == id {
            return Some(&subs[n - 1]);
        }
        n -= 1;
    }
    None
}

/// The notes on some deliveries that were not tried.
pub open spec fn untried(rows: Seq<JsonV>, error: Seq<char>, now_ms: Option<u64>) -> Seq<MarkV> {
    Seq::new(rows.len(), |i: int| plain_mark(rows[i], "failed"@, error, now_ms))
}

/// How a group is delivered: over the channel in a slot, or not at all.
#[derive(Debug)]
pub enum GroupPlan {
    NotTried(Vec<Mark>),
    Deliver(usize, DeliveryPlan),
}

/// Delivers a group over the channel of its subscription; without the subscription, or without
/// the channel, no delivery is tried.
pub fn plan_group(group: &Group, subs: &Vec<Json>, reg: &ChannelRegistry, now_ms: Option<u64>) -> (r:
    GroupPlan)
    requires
        attempts_fit(values_view(group.rows@)),
    ensures
        match find_sub(values_view(subs@), group.subscription_id) {
            None => r matches GroupPlan::NotTried(m) && marks_view(m@) == untried(
                values_view(group.rows@),
                "订阅已不存在"@,
                now_ms,
            ),
            Some(sub) => if !reg@.contains_key(text_at(sub, "channel"@)) {
                r matches GroupPlan::NotTried(m) && marks_view(m@) == untried(
                    values_view(group.rows@),
                    "通道未注册/未启用"@,
                    now_ms,
                )
            } else {
                r matches GroupPlan::Deliver(slot, p) && slot == reg@[text_at(sub, "channel"@)]
                    && p.reads(sub)
            },
        },
{
    let ghost rv = values_view(group.rows@);
    match sub_by_id(subs, group.subscription_id) {
        None => {
            let m = fail_rows(group.rows.as_slice(), "订阅已不存在", now_ms);
            assert(marks_view(m@) =~= untried(rv, "订阅已不存在"@, now_ms));
            GroupPlan::NotTried(m)
        },
        Some(sub) => match reg.get(text_member(sub, "channel").as_str()) {
            None => {
                let m = fail_rows(group.rows.as_slice(), "通道未注册/未启用", now_ms);
                assert(marks_view(m@) =~= untried(rv, "通道未注册/未启用"@, now_ms));
                GroupPlan::NotTried(m)
            },
            Some(slot) => GroupPlan::Deliver(slot, delivery_plan(sub)),
        },
    }
}

impl Mark {
    /// The statement that notes what became of the delivery.
    pub fn statement(&self) -> (r: Statement)
        ensures
            r@ == written_mark(self@),
    {
        let error: Option<&str> = match &self.error {
            Some(e) => Some(e.as_str()),
            None => None,
        };
        let snippet: Option<&str> = match &self.snippet {
            Some(e) => Some(e.as_str()),
            None => None,
        };
        mark_dispatch(
            self.dispatch_id,
            self.status.as_str(),
            self.attempts,
            self.next_retry,
            self.http_status,
            error,
            snippet,
        )
    }
}

/// What is written and told of one delivery.
#[derive(Debug)]
pub struct Note {
    pub statement: Statement,
    pub notice: Option<DeadNotice>,
}

/// What a note stands for.
#[verifier::ext_equal]
pub struct NoteV {
    pub statement: StatementV,
    pub notice: Option<NoticeV>,
}

impl Note {
    pub open spec fn view(&self) -> NoteV {
        NoteV {
            statement: self.statement@,
            notice: match self.notice {
                Some(n) => Some(n@),
                None => None,
            },
        }
    }
}

/// The views of a list of notes.
pub open spec fn notes_view(n: Seq<Note>) -> Seq<NoteV> {
    Seq::new(n.len(), |i: int| n[i]@)
}

/// The statement that notes what became of a delivery.
pub open spec fn written_mark(m: MarkV) -> StatementV {
    mark_statement(
        m.dispatch_id,
        m.status,
        m.attempts as i64,
        match m.next_retry {
            Some(t) => Some(t as i64),
            None => None,
        },
        m.http_status,
        m.error,
        m.snippet,
    )
}

/// What is written and told of one delivery: people are told where it is given up.
pub open spec fn note_of(sub: JsonV, dispatch: JsonV, m: MarkV) -> NoteV {
    NoteV {
        statement: written_mark(m),
        notice: match m.error {
            Some(e) => if m.alarm {
                Some(notice_of(sub, text_at(dispatch, "event_id"@), e))
            } else {
                None
            },
            None => None,
        },
    }
}

/// What is written and told of some deliveries, one note for each.
pub open spec fn notes_of(sub: JsonV, chunk: Seq<JsonV>, marks: Seq<MarkV>) -> Seq<NoteV> {
    Seq::new(marks.len(), |i: int| note_of(sub, chunk[i], marks[i]))
}

/// What is written and told of some deliveries, one note for each, in their order.
pub fn note_marks(sub: &Json, chunk: &[Json], marks: &Vec<Mark>) -> (r: Vec<Note>)
    requires
        marks@.len() == chunk@.len(),
    ensures
        notes_view(r@) == notes_of(sub@, values_view(chunk@), marks_view(marks@)),
{
    let ghost want = notes_of(sub@, values_view(chunk@), marks_view(marks@));
    let mut out: Vec<Note> = Vec::new();
    let mut i: usize = 0;
    while i < marks.len()
        invariant
            i <= marks@.len(),
            marks@.len() == chunk@.len(),
            want == notes_of(sub@, values_view(chunk@), marks_view(marks@)),
            out@.len() == i,
            forall|k: int| 0 <= k < i ==> (#[trigger] out@[k])@ == want[k],
        decreases marks@.len() - i,
    {
        let m = &marks[i];
        assert(marks_view(marks@)[i as int] == m@);
        assert(values_view(chunk@)[i as int] == chunk@[i as int]@);
        let notice: Option<DeadNotice> = match &m.error {
            Some(e) => if m.alarm {
                let id = text_member(&chunk[i], "event_id");
                Some(dead_notice(sub, id.as_str(), e.as_str()))
            } else {
                None
            },
            None => None,
        };
        let n = Note { statement: m.statement(), notice };
        assert(n@ == want[i as int]);
        out.push(n);
        i += 1;
    }
    assert(notes_view(out@) =~= want);
    out
}

/// Where the part of a group ends that begins at `from`: so many deliveries on, or at the end.
pub open spec fn part_end(len: nat, size: i64, from: nat) -> nat {
    if len - from <= size {
        len
    } else {
        (from + size) as nat
    }
}

/// The parts of a group follow one another and leave none of it out.
pub proof fn law_parts_cover(len: nat, size: i64, from: nat)
    requires
        from < len,
        size >= 1,
    ensures
        from < part_end(len, size, from) <= len,
        part_end(len, size, from) - from <= size,
{
}

/// One part of a group, as it is sent.
#[derive(Debug)]
pub struct Part {
    pub end: usize,
    pub envelopes: Vec<EventEnvelope>,
}

/// The part of a group that begins at `from`; none at the end of the group.
pub fn next_part(rows: &Vec<Json>, plan: &DeliveryPlan, events: &Vec<Json>, from: usize) -> (r:
    Option<Part>)
    requires
        plan.batch_size >= 1,
    ensures
        r is Some <==> from < rows@.len(),
        r matches Some(p) ==> {
            &&& p.end == part_end(rows@.len(), plan.batch_size, from as nat)
            &&& envelopes_view(p.envelopes@) == delivery_envelopes(
                values_view(rows@).subrange(from as int, p.end as int),
                values_view(events@),
                plan.field_map@,
            )
        },
{
    if from >= rows.len() {
        return None;
    }
    let left: usize = rows.len() - from;
    let end: usize = if plan.batch_size as u64 >= left as u64 {
        rows.len()
    } else {
        from + plan.batch_size as usize
    };
    let chunk = part_rows(rows, from, end);
    assert(values_view(chunk@) =~= values_view(rows@).subrange(from as int, end as int));
    let envelopes = build_envelopes(chunk, events, &plan.field_map);
    Some(Part { end, envelopes })
}

fn part_rows(rows: &Vec<Json>, from: usize, to: usize) -> (r: &[Json])
    requires
        from <= to <= rows@.len(),
    ensures
        r@ == rows@.subrange(from as int, to as int),
{
    vstd::slice::slice_subrange(rows.as_slice(), from, to)
}

/// Notes what became of one part of a group: of each delivery what is written, and what people
/// are told.
pub fn note_part(
    rows: &Vec<Json>,
    from: usize,
    to: usize,
    sub: &Json,
    results: &Vec<DeliveryResult>,
    retry_max: i64,
    cfg: &DistCfg,
    now_ms: Option<u64>,
) -> (r: Vec<Note>)
    requires
        from <= to <= rows@.len(),
        attempts_fit(values_view(rows@)),
    ensures
        notes_view(r@) == notes_of(
            sub@,
            values_view(rows@).subrange(from as int, to as int),
            delivery_marks(
                values_view(rows@).subrange(from as int, to as int),
                results_view(results@),
                retry_max,
                *cfg,
                now_ms,
            ),
        ),
{
    let chunk = part_rows(rows, from, to);
    let ghost all = values_view(rows@);
    assert(values_view(chunk@) =~= all.subrange(from as int, to as int));
    assert forall|i: int| 0 <= i < chunk@.len() implies int_at(
        #[trigger] values_view(chunk@)[i],
        "attempts"@,
    ) < i64::MAX by {
        assert(values_view(chunk@)[i] == all[from + i]);
    }
    let marks = mark_deliveries(chunk, results, retry_max, cfg, now_ms);
    assert(marks@.len() == marks_view(marks@).len());
    note_marks(sub, chunk, &marks)
}

} // verus!
