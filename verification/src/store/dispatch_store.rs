//! The queue of deliveries: how it is filled from the events, claimed, and kept up to date.

use crate::distribution::transform::{
    concerns, event_matches_sub, int_at, int_member, text_at, text_member,
};
use crate::json::{
    json_bool, json_get, json_i64, json_str, values_view, Json, JsonV,
};
use crate::match_algo::keys_view;
use crate::sql::{
    opt_int, opt_int_v, opt_text_v, params_view, slot, slot_list, slot_text, slots, text_param,
    SqlType, SqlV, SqlValue, Statement, StatementV,
};
use crate::store::dct_accessor::{id_params, push_ids};
use crate::store::jsonb::{parse_rows, parsed_rows};
use crate::store::md_accessor::text_params;
use crate::store::query::{
    build_page, filter_int, filter_of, filter_on, opt_str, page_offset, page_query, statement,
    Filter, FilterV, PageQuery, PageText,
};
use crate::text::{chars_of, decimal_int, dec_int, join, joined, same_text, string_of, texts};
use crate::unmerge::statements_view;
use vstd::prelude::*;

verus! {

/// How many bytes a character takes in UTF-8.
pub open spec fn utf8_width(c: char) -> nat {
    if (c as u32) < 0x80 {
        1
    } else if (c as u32) < 0x800 {
        2
    } else if (c as u32) < 0x10000 {
        3
    } else {
        4
    }
}

/// How many bytes a text takes in UTF-8.
pub open spec fn utf8_len(s: Seq<char>) -> nat
    decreases s.len(),
{
    if s.len() == 0 {
        0
    } else {
        utf8_len(s.drop_last()) + utf8_width(s.last())
    }
}

/// The longest beginning of a text that takes at most `max` bytes.
pub open spec fn truncated(s: Seq<char>, max: nat) -> Seq<char>
    decreases s.len(),
{
    if s.len() == 0 || utf8_len(s) <= max {
        s
    } else {
        truncated(s.drop_last(), max)
    }
}

proof fn lemma_prefix_shorter(s: Seq<char>, n: int)
    requires
        0 <= n <= s.len(),
    ensures
        utf8_len(s.take(n)) <= utf8_len(s),
    decreases s.len(),
{
    if n < s.len() {
        assert(s.drop_last().take(n) =~= s.take(n));
        lemma_prefix_shorter(s.drop_last(), n);
    } else {
        assert(s.take(n) =~= s);
    }
}

proof fn lemma_truncated_at(s: Seq<char>, n: int, max: nat)
    requires
        0 <= n < s.len(),
        utf8_len(s.take(n)) <= max,
        utf8_len(s.take(n + 1)) > max,
    ensures
        truncated(s, max) == s.take(n),
    decreases s.len(),
{
    lemma_prefix_shorter(s, n + 1);
    if s.len() == n + 1 {
        reveal_with_fuel(truncated, 2);
        assert(s.drop_last() =~= s.take(n));
    } else {
        assert(s.drop_last().take(n) =~= s.take(n));
        assert(s.drop_last().take(n + 1) =~= s.take(n + 1));
        lemma_truncated_at(s.drop_last(), n, max);
    }
}

/// What is left of a text is a beginning of it that fits; one that fits is left whole, and of
/// one that does not fit no longer beginning would.
pub proof fn law_truncated(s: Seq<char>, max: nat)
    ensures
        truncated(s, max).is_prefix_of(s),
        utf8_len(truncated(s, max)) <= max,
        utf8_len(s) <= max ==> truncated(s, max) == s,
        forall|n: int|
            truncated(s, max).len() < n <= s.len() ==> utf8_len(#[trigger] s.take(n)) > max,
    decreases s.len(),
{
    if s.len() > 0 && utf8_len(s) > max {
        law_truncated(s.drop_last(), max);
        assert(s.drop_last().is_prefix_of(s));
        assert forall|n: int| truncated(s, max).len() < n <= s.len() implies utf8_len(
            #[trigger] s.take(n),
        ) > max by {
            if n < s.len() {
                assert(s.drop_last().take(n) =~= s.take(n));
            } else {
                assert(s.take(n) =~= s);
            }
        }
    }
}

fn width(c: char) -> (r: usize)
    ensures
        r == utf8_width(c),
{
    let n: u32 = c as u32;
    if n < 0x80 {
        1
    } else if n < 0x800 {
        2
    } else if n < 0x10000 {
        3
    } else {
        4
    }
}

/// The longest beginning of a text that takes at most `max` bytes.
pub fn truncate(s: &str, max: usize) -> (r: String)
    ensures
        r@ == truncated(s@, max as nat),
{
    let v = chars_of(s);
    let mut i: usize = 0;
    let mut bytes: usize = 0;
    assert(s@.take(0) =~= Seq::<char>::empty());
    while i < v.len()
        invariant
            i <= v@.len(),
            v@ == s@,
            bytes == utf8_len(s@.take(i as int)),
            bytes <= max,
        decreases v@.len() - i,
    {
        let w: usize = width(v[i]);
        assert(s@.take(i + 1).drop_last() =~= s@.take(i as int));
        assert(s@.take(i + 1).last() == v@[i as int]);
        if w > max - bytes {
            proof {
                lemma_truncated_at(s@, i as int, max as nat);
                assert(v@.subrange(0, i as int) =~= s@.take(i as int));
            }
            return string_of(&v, 0, i);
        }
        bytes += w;
        i += 1;
    }
    assert(s@.take(s@.len() as int) =~= s@);
    s.to_owned()
}

/// A delivery to be queued.
#[derive(Debug)]
pub struct NewDispatch {
    pub subscription_id: i64,
    pub event_id: String,
    pub event_seq: i64,
    pub dict_code: String,
    pub record_id: i64,
}

/// What a delivery to be queued stands for.
#[verifier::ext_equal]
pub struct NewDispatchV {
    pub subscription_id: i64,
    pub event_id: Seq<char>,
    pub event_seq: i64,
    pub dict_code: Seq<char>,
    pub record_id: i64,
}

impl NewDispatch {
    pub open spec fn view(&self) -> NewDispatchV {
        NewDispatchV {
            subscription_id: self.subscription_id,
            event_id: self.event_id@,
            event_seq: self.event_seq,
            dict_code: self.dict_code@,
            record_id: self.record_id,
        }
    }
}

/// The views of a list of deliveries.
pub open spec fn dispatches_view(d: Seq<NewDispatch>) -> Seq<NewDispatchV> {
    Seq::new(d.len(), |i: int| d[i]@)
}

/// The delivery of an event to a subscription.
pub open spec fn dispatch_of(event: JsonV, sub: JsonV) -> NewDispatchV {
    NewDispatchV {
        subscription_id: int_at(sub, "id"@),
        event_id: text_at(event, "id"@),
        event_seq: int_at(event, "seq"@),
        dict_code: text_at(event, "dict_code"@),
        record_id: int_at(event, "record_id"@),
    }
}

/// The deliveries of one event, in the order of the subscriptions.
pub open spec fn event_dispatches(event: JsonV, subs: Seq<JsonV>) -> Seq<NewDispatchV>
    decreases subs.len(),
{
    if subs.len() == 0 {
        Seq::empty()
    } else {
        let r = event_dispatches(event, subs.drop_last());
        if concerns(event, subs.last()) {
            r.push(dispatch_of(event, subs.last()))
        } else {
            r
        }
    }
}

/// The deliveries of some events, in the order of the events.
pub open spec fn fanout(events: Seq<JsonV>, subs: Seq<JsonV>) -> Seq<NewDispatchV>
    decreases events.len(),
{
    if events.len() == 0 {
        Seq::empty()
    } else {
        fanout(events.drop_last(), subs) + event_dispatches(events.last(), subs)
    }
}

/// A delivery is one of an event to a subscription that the event concerns.
pub open spec fn owed(event: JsonV, subs: Seq<JsonV>, d: NewDispatchV) -> bool {
    exists|j: int|
        0 <= j < subs.len() && concerns(event, #[trigger] subs[j]) && d == dispatch_of(
            event,
            subs[j],
        )
}

/// A delivery is owed for one of the events.
pub open spec fn owed_for_any(events: Seq<JsonV>, subs: Seq<JsonV>, d: NewDispatchV) -> bool {
    exists|i: int| 0 <= i < events.len() && owed(#[trigger] events[i], subs, d)
}

proof fn lemma_event_dispatches(event: JsonV, subs: Seq<JsonV>, d: NewDispatchV)
    ensures
        event_dispatches(event, subs).contains(d) <==> owed(event, subs, d),
    decreases subs.len(),
{
    if subs.len() > 0 {
        let front = subs.drop_last();
        let r = event_dispatches(event, front);
        let all = event_dispatches(event, subs);
        lemma_event_dispatches(event, front, d);
        if all.contains(d) {
            let k = choose|k: int| 0 <= k < all.len() && all[k] == d;
            if k < r.len() {
                assert(r[k] == d);
                let j = choose|j: int|
                    0 <= j < front.len() && concerns(event, #[trigger] front[j]) && d
                        == dispatch_of(event, front[j]);
                assert(subs[j] == front[j]);
            } else {
                assert(concerns(event, subs[subs.len() - 1]));
            }
        }
        if owed(event, subs, d) {
            let j = choose|j: int|
                0 <= j < subs.len() && concerns(event, #[trigger] subs[j]) && d == dispatch_of(
                    event,
                    subs[j],
                );
            if j < front.len() {
                assert(front[j] == subs[j]);
                let k = choose|k: int| 0 <= k < r.len() && r[k] == d;
                assert(all[k] == d);
            } else {
                assert(all[r.len() as int] == d);
            }
        }
    }
}

/// Exactly the subscriptions that an event concerns get a delivery of it.
pub proof fn law_fanout(events: Seq<JsonV>, subs: Seq<JsonV>, d: NewDispatchV)
    ensures
        fanout(events, subs).contains(d) <==> owed_for_any(events, subs, d),
    decreases events.len(),
{
    if events.len() > 0 {
        let front = events.drop_last();
        let r = fanout(front, subs);
        let own = event_dispatches(events.last(), subs);
        let all = fanout(events, subs);
        law_fanout(front, subs, d);
        lemma_event_dispatches(events.last(), subs, d);
        if all.contains(d) {
            let k = choose|k: int| 0 <= k < all.len() && all[k] == d;
            if k < r.len() {
                assert(r[k] == d);
                let i = choose|i: int| 0 <= i < front.len() && owed(#[trigger] front[i], subs, d);
                assert(events[i] == front[i]);
            } else {
                assert(own[k - r.len()] == d);
                assert(owed(events[events.len() - 1], subs, d));
            }
        }
        if owed_for_any(events, subs, d) {
            let i = choose|i: int| 0 <= i < events.len() && owed(#[trigger] events[i], subs, d);
            if i < front.len() {
                assert(front[i] == events[i]);
                let k = choose|k: int| 0 <= k < r.len() && r[k] == d;
                assert(all[k] == d);
            } else {
                let k = choose|k: int| 0 <= k < own.len() && own[k] == d;
                assert(all[r.len() + k] == d);
            }
        }
    }
}

/// The statement that locks the mark of how far the events were fanned out.
pub open spec fn watermark_lock() -> StatementV {
    StatementV {
        sql: "SELECT last_seq FROM md_dist_watermark WHERE key = $1 FOR UPDATE"@,
        params: seq![SqlV::Text("fanout"@)],
    }
}

/// Locks the mark of how far the events were fanned out.
pub fn lock_watermark() -> (r: Statement)
    ensures
        r@ == watermark_lock(),
{
    let mut params: Vec<SqlValue> = Vec::new();
    params.push(text_param("fanout"));
    assert(params_view(params@) =~= seq![SqlV::Text("fanout"@)]);
    statement("SELECT last_seq FROM md_dist_watermark WHERE key = $1 FOR UPDATE", params)
}

/// How far the events were fanned out, from the rows found; 0 where there are none.
pub open spec fn watermark_in(rows: Seq<JsonV>) -> i64 {
    if rows.len() > 0 {
        int_at(rows[0], "last_seq"@)
    } else {
        0
    }
}

/// How far the events were fanned out, from the rows found.
pub fn watermark_of(rows: &Vec<Json>) -> (r: i64)
    ensures
        r == watermark_in(values_view(rows@)),
{
    if rows.len() > 0 {
        int_member(&rows[0], "last_seq")
    } else {
        0
    }
}

/// The statement that reads the next events to be fanned out.
pub open spec fn next_events(last_seq: i64, batch: i64) -> StatementV {
    StatementV {
        sql: "SELECT id, seq, dict_code, record_id, event_type, payload FROM md_event_log WHERE seq > $1 ORDER BY seq ASC LIMIT $2"@,
        params: seq![SqlV::Int(last_seq), SqlV::Int(batch)],
    }
}

/// The next events to be fanned out.
pub fn fanout_events(last_seq: i64, batch: i64) -> (r: Statement)
    ensures
        r@ == next_events(last_seq, batch),
{
    let mut params: Vec<SqlValue> = Vec::new();
    params.push(SqlValue::Int(last_seq));
    params.push(SqlValue::Int(batch));
    assert(params_view(params@) =~= seq![SqlV::Int(last_seq), SqlV::Int(batch)]);
    statement(
        "SELECT id, seq, dict_code, record_id, event_type, payload FROM md_event_log WHERE seq > $1 ORDER BY seq ASC LIMIT $2",
        params,
    )
}

/// The statement that reads the subscriptions that events are pushed to.
pub open spec fn pushed_subscriptions() -> StatementV {
    StatementV {
        sql: "SELECT id, dict_code, channel, event_types, filter FROM md_subscription WHERE active = TRUE AND channel <> 'rest_pull'"@,
        params: Seq::empty(),
    }
}

/// The subscriptions that events are pushed to.
pub fn fanout_subscriptions() -> (r: Statement)
    ensures
        r@ == pushed_subscriptions(),
{
    assert(params_view(Seq::<SqlValue>::empty()) =~= Seq::<SqlV>::empty());
    statement(
        "SELECT id, dict_code, channel, event_types, filter FROM md_subscription WHERE active = TRUE AND channel <> 'rest_pull'",
        Vec::new(),
    )
}

fn new_dispatch(event: &Json, sub: &Json) -> (r: NewDispatch)
    ensures
        r@ == dispatch_of(event@, sub@),
{
    NewDispatch {
        subscription_id: int_member(sub, "id"),
        event_id: text_member(event, "id"),
        event_seq: int_member(event, "seq"),
        dict_code: text_member(event, "dict_code"),
        record_id: int_member(event, "record_id"),
    }
}

/// The deliveries of some events to the subscriptions that they concern.
pub fn fanout_rows(events: &Vec<Json>, subs: &Vec<Json>) -> (r: Vec<NewDispatch>)
    ensures
        dispatches_view(r@) == fanout(values_view(events@), values_view(subs@)),
{
    let ghost ev = values_view(events@);
    let ghost sv = values_view(subs@);
    let mut r: Vec<NewDispatch> = Vec::new();
    let mut i: usize = 0;
    assert(ev.take(0) =~= Seq::<JsonV>::empty());
    assert(dispatches_view(r@) =~= Seq::<NewDispatchV>::empty());
    while i < events.len()
        invariant
            i <= events@.len(),
            ev == values_view(events@),
            sv == values_view(subs@),
            dispatches_view(r@) == fanout(ev.take(i as int), sv),
        decreases events@.len() - i,
    {
        let ghost done = dispatches_view(r@);
        assert(ev.take(i + 1).drop_last() =~= ev.take(i as int));
        assert(ev.take(i + 1).last() == events@[i as int]@);
        let mut j: usize = 0;
        assert(sv.take(0) =~= Seq::<JsonV>::empty());
        assert(done + Seq::<NewDispatchV>::empty() =~= done);
        while j < subs.len()
            invariant
                i < events@.len(),
                j <= subs@.len(),
                sv == values_view(subs@),
                dispatches_view(r@) == done + event_dispatches(
                    events@[i as int]@,
                    sv.take(j as int),
                ),
            decreases subs@.len() - j,
        {
            let ghost before = r@;
            assert(sv.take(j + 1).drop_last() =~= sv.take(j as int));
            assert(sv.take(j + 1).last() == subs@[j as int]@);
            if event_matches_sub(&events[i], &subs[j]) {
                r.push(new_dispatch(&events[i], &subs[j]));
                assert(dispatches_view(r@) =~= dispatches_view(before).push(
                    dispatch_of(events@[i as int]@, subs@[j as int]@),
                ));
                assert(dispatches_view(r@) =~= done + event_dispatches(
                    events@[i as int]@,
                    sv.take(j + 1),
                ));
            }
            j += 1;
        }
        assert(sv.take(sv.len() as int) =~= sv);
        i += 1;
    }
    assert(ev.take(ev.len() as int) =~= ev);
    r
}

/// The placeholders of the `i`-th row of an insert.
pub open spec fn row_slots(i: nat) -> Seq<char> {
    "("@ + slot(6 * i + 1) + ","@ + slot(6 * i + 2) + ","@ + slot(6 * i + 3) + ","@ + slot(
        6 * i + 4,
    ) + ","@ + slot(6 * i + 5) + ","@ + slot(6 * i + 6) + ",'pending')"@
}

/// The values of one row.
pub open spec fn row_params(d: NewDispatchV, id: i64) -> Seq<SqlV> {
    seq![
        SqlV::Int(id),
        SqlV::Int(d.subscription_id),
        SqlV::Text(d.event_id),
        SqlV::Int(d.event_seq),
        SqlV::Text(d.dict_code),
        SqlV::Int(d.record_id),
    ]
}

/// The values of some rows, one behind the other.
pub open spec fn rows_params(rows: Seq<NewDispatchV>, ids: Seq<i64>) -> Seq<SqlV>
    decreases rows.len(),
{
    if rows.len() == 0 {
        Seq::empty()
    } else {
        rows_params(rows.drop_last(), ids) + row_params(rows.last(), ids[rows.len() - 1])
    }
}

/// The insert of some rows.
pub open spec fn dispatch_insert(
    rows: Seq<NewDispatchV>,
    ids: Seq<i64>,
    on_conflict: Seq<char>,
) -> StatementV {
    StatementV {
        sql: "INSERT INTO md_dispatch_log (id, subscription_id, event_id, event_seq, dict_code, record_id, status) VALUES "@
            + join(Seq::new(rows.len(), |i: int| row_slots(i as nat)), ","@)
            + " ON CONFLICT (subscription_id, event_id) "@ + on_conflict,
        params: rows_params(rows, ids),
    }
}

/// How many rows one insert takes at most.
pub const CHUNK: usize = 500;

/// The inserts of all rows, each of at most 500 rows.
pub open spec fn dispatch_inserts(
    rows: Seq<NewDispatchV>,
    ids: Seq<i64>,
    on_conflict: Seq<char>,
) -> Seq<StatementV>
    decreases rows.len(),
{
    if rows.len() == 0 {
        Seq::empty()
    } else {
        let n: int = if rows.len() < CHUNK {
            rows.len() as int
        } else {
            CHUNK as int
        };
        seq![dispatch_insert(rows.take(n), ids.take(n), on_conflict)] + dispatch_inserts(
            rows.skip(n),
            ids.skip(n),
            on_conflict,
        )
    }
}

/// The parameters of some statements, one behind the other.
pub open spec fn all_params(s: Seq<StatementV>) -> Seq<SqlV>
    decreases s.len(),
{
    if s.len() == 0 {
        Seq::empty()
    } else {
        s[0].params + all_params(s.drop_first())
    }
}

proof fn lemma_rows_params_split(rows: Seq<NewDispatchV>, ids: Seq<i64>, n: int)
    requires
        0 <= n <= rows.len() <= ids.len(),
    ensures
        rows_params(rows, ids) == rows_params(rows.take(n), ids.take(n)) + rows_params(
            rows.skip(n),
            ids.skip(n),
        ),
    decreases rows.len(),
{
    if rows.len() == n {
        assert(rows.take(n) =~= rows);
        assert(rows.skip(n) =~= Seq::<NewDispatchV>::empty());
        lemma_rows_params_ids(rows, ids, ids.take(n));
        assert(rows_params(rows, ids) =~= rows_params(rows, ids.take(n)) + Seq::<SqlV>::empty());
    } else {
        let front = rows.drop_last();
        lemma_rows_params_split(front, ids, n);
        assert(front.take(n) =~= rows.take(n));
        assert(rows.skip(n).drop_last() =~= front.skip(n));
        assert(rows.skip(n).last() == rows.last());
        assert(ids.skip(n)[rows.skip(n).len() - 1] == ids[rows.len() - 1]);
        assert(rows_params(rows, ids) =~= rows_params(rows.take(n), ids.take(n)) + rows_params(
            rows.skip(n),
            ids.skip(n),
        ));
    }
}

proof fn lemma_rows_params_ids(rows: Seq<NewDispatchV>, a: Seq<i64>, b: Seq<i64>)
    requires
        rows.len() <= a.len(),
        rows.len() <= b.len(),
        forall|i: int| 0 <= i < rows.len() ==> a[i] == b[i],
    ensures
        rows_params(rows, a) == rows_params(rows, b),
    decreases rows.len(),
{
    if rows.len() > 0 {
        lemma_rows_params_ids(rows.drop_last(), a, b);
    }
}

proof fn lemma_rows_params_len(rows: Seq<NewDispatchV>, ids: Seq<i64>)
    ensures
        rows_params(rows, ids).len() == 6 * rows.len(),
    decreases rows.len(),
{
    if rows.len() > 0 {
        lemma_rows_params_len(rows.drop_last(), ids);
    }
}

/// The inserts bind every row once, in order, and none binds more than 3000 parameters.
pub proof fn law_dispatch_inserts(rows: Seq<NewDispatchV>, ids: Seq<i64>, on_conflict: Seq<char>)
    requires
        rows.len() <= ids.len(),
    ensures
        all_params(dispatch_inserts(rows, ids, on_conflict)) == rows_params(rows, ids),
        forall|i: int|
            0 <= i < dispatch_inserts(rows, ids, on_conflict).len() ==> (
            #[trigger] dispatch_inserts(rows, ids, on_conflict)[i]).params.len() <= 3000,
    decreases rows.len(),
{
    if rows.len() > 0 {
        let n: int = if rows.len() < CHUNK {
            rows.len() as int
        } else {
            CHUNK as int
        };
        let all = dispatch_inserts(rows, ids, on_conflict);
        let rest = dispatch_inserts(rows.skip(n), ids.skip(n), on_conflict);
        law_dispatch_inserts(rows.skip(n), ids.skip(n), on_conflict);
        lemma_rows_params_split(rows, ids, n);
        lemma_rows_params_len(rows.take(n), ids.take(n));
        assert(all.drop_first() =~= rest);
        assert forall|i: int| 0 <= i < all.len() implies (#[trigger] all[i]).params.len()
            <= 3000 by {
            if i > 0 {
                assert(all[i] == rest[i - 1]);
            }
        }
    }
}

fn row_slots_text(i: usize) -> (r: String)
    requires
        i < CHUNK,
    ensures
        r@ == row_slots(i as nat),
{
    let base: u64 = 6 * i as u64;
    let mut s: String = "(".to_owned();
    s.append(slot_text(base + 1).as_str());
    s.append(",");
    s.append(slot_text(base + 2).as_str());
    s.append(",");
    s.append(slot_text(base + 3).as_str());
    s.append(",");
    s.append(slot_text(base + 4).as_str());
    s.append(",");
    s.append(slot_text(base + 5).as_str());
    s.append(",");
    s.append(slot_text(base + 6).as_str());
    s.append(",'pending')");
    s
}

/// The insert of the rows from one index up to another.
fn insert_chunk(
    rows: &Vec<NewDispatch>,
    ids: &[i64],
    from: usize,
    to: usize,
    on_conflict: &str,
) -> (r: Statement)
    requires
        from <= to <= rows@.len(),
        rows@.len() <= ids@.len(),
        to - from <= CHUNK,
    ensures
        r@ == dispatch_insert(
            dispatches_view(rows@).subrange(from as int, to as int),
            ids@.subrange(from as int, to as int),
            on_conflict@,
        ),
{
    let ghost rv = dispatches_view(rows@).subrange(from as int, to as int);
    let ghost iv = ids@.subrange(from as int, to as int);
    let ghost sv = Seq::new(rv.len(), |i: int| row_slots(i as nat));
    let mut groups: Vec<String> = Vec::new();
    let mut params: Vec<SqlValue> = Vec::new();
    let mut i: usize = 0;
    assert(rv.take(0) =~= Seq::<NewDispatchV>::empty());
    assert(params_view(params@) =~= Seq::<SqlV>::empty());
    while i < to - from
        invariant
            from <= to <= rows@.len(),
            rows@.len() <= ids@.len(),
            to - from <= CHUNK,
            i <= to - from,
            rv == dispatches_view(rows@).subrange(from as int, to as int),
            iv == ids@.subrange(from as int, to as int),
            groups@.len() == i,
            forall|k: int| 0 <= k < i ==> (#[trigger] groups@[k])@ == row_slots(k as nat),
            params_view(params@) == rows_params(rv.take(i as int), iv),
        decreases to - from - i,
    {
        let ghost before = params@;
        let d = &rows[from + i];
        assert(rv.take(i + 1).drop_last() =~= rv.take(i as int));
        assert(rv.take(i + 1).last() == d@);
        groups.push(row_slots_text(i));
        params.push(SqlValue::Int(ids[from + i]));
        params.push(SqlValue::Int(d.subscription_id));
        params.push(text_param(d.event_id.as_str()));
        params.push(SqlValue::Int(d.event_seq));
        params.push(text_param(d.dict_code.as_str()));
        params.push(SqlValue::Int(d.record_id));
        assert(params_view(params@) =~= params_view(before) + row_params(d@, iv[i as int]));
        i += 1;
    }
    assert(rv.take(rv.len() as int) =~= rv);
    assert(texts(groups@) =~= sv);
    let mut sql: String =
        "INSERT INTO md_dispatch_log (id, subscription_id, event_id, event_seq, dict_code, record_id, status) VALUES ".to_owned();
    sql.append(joined(&groups, ",").as_str());
    sql.append(" ON CONFLICT (subscription_id, event_id) ");
    sql.append(on_conflict);
    Statement { sql, params }
}

/// The inserts of all rows under the given ids.
pub fn insert_dispatches(rows: &Vec<NewDispatch>, ids: &[i64], on_conflict: &str) -> (r: Vec<
    Statement,
>)
    requires
        rows@.len() <= ids@.len(),
    ensures
        statements_view(r@) == dispatch_inserts(dispatches_view(rows@), ids@, on_conflict@),
{
    let ghost rv = dispatches_view(rows@);
    let ghost all = dispatch_inserts(rv, ids@, on_conflict@);
    let mut r: Vec<Statement> = Vec::new();
    let mut i: usize = 0;
    assert(rv.skip(0) =~= rv);
    assert(ids@.skip(0) =~= ids@);
    assert(statements_view(r@) + all =~= all);
    while i < rows.len()
        invariant
            i <= rows@.len(),
            rows@.len() <= ids@.len(),
            rv == dispatches_view(rows@),
            all == statements_view(r@) + dispatch_inserts(
                rv.skip(i as int),
                ids@.skip(i as int),
                on_conflict@,
            ),
        decreases rows@.len() - i,
    {
        let left: usize = rows.len() - i;
        let n: usize = if left < CHUNK {
            left
        } else {
            CHUNK
        };
        let ghost before = r@;
        let ghost rest = rv.skip(i as int);
        let ghost rest_ids = ids@.skip(i as int);
        let s = insert_chunk(rows, ids, i, i + n, on_conflict);
        let ghost sv = s@;
        r.push(s);
        proof {
            assert(rest.take(n as int) =~= rv.subrange(i as int, i + n));
            assert(rest_ids.take(n as int) =~= ids@.subrange(i as int, i + n));
            assert(rest.skip(n as int) =~= rv.skip(i + n));
            assert(rest_ids.skip(n as int) =~= ids@.skip(i + n));
            assert(statements_view(r@) =~= statements_view(before).push(sv));
            assert(all =~= statements_view(r@) + dispatch_inserts(
                rv.skip(i + n),
                ids@.skip(i + n),
                on_conflict@,
            ));
        }
        i += n;
    }
    assert(all =~= statements_view(r@));
    r
}

/// How far the events were fanned out once these are: up to the last of them, and never back.
pub open spec fn next_watermark(last_seq: i64, events: Seq<JsonV>) -> i64 {
    let seq = if events.len() > 0 {
        match json_i64(json_get(events.last(), "seq"@)) {
            Some(s) => s,
            None => last_seq,
        }
    } else {
        last_seq
    };
    if seq > last_seq {
        seq
    } else {
        last_seq
    }
}

/// The mark never goes back.
pub proof fn law_watermark(last_seq: i64, events: Seq<JsonV>)
    ensures
        next_watermark(last_seq, events) >= last_seq,
        events.len() == 0 ==> next_watermark(last_seq, events) == last_seq,
{
}

/// The statement that moves the mark.
pub open spec fn watermark_update(seq: i64) -> StatementV {
    StatementV {
        sql: "UPDATE md_dist_watermark SET last_seq = $1, updated_at = now() WHERE key = $2"@,
        params: seq![SqlV::Int(seq), SqlV::Text("fanout"@)],
    }
}

/// The statement that moves the mark past some events; none where it stays.
pub open spec fn watermark_move(last_seq: i64, events: Seq<JsonV>) -> Option<StatementV> {
    let seq = next_watermark(last_seq, events);
    if seq > last_seq {
        Some(watermark_update(seq))
    } else {
        None
    }
}

/// The statement that moves the mark past some events; none where it stays.
pub fn advance_watermark(last_seq: i64, events: &Vec<Json>) -> (r: Option<Statement>)
    ensures
        match r {
            Some(s) => watermark_move(last_seq, values_view(events@)) == Some(s@),
            None => watermark_move(last_seq, values_view(events@)) is None,
        },
{
    let mut seq: i64 = last_seq;
    if events.len() > 0 {
        let last = &events[events.len() - 1];
        if let Some(v) = last.get("seq") {
            if let Some(s) = v.as_i64() {
                seq = s;
            }
        }
    }
    if seq > last_seq {
        let mut params: Vec<SqlValue> = Vec::new();
        params.push(SqlValue::Int(seq));
        params.push(text_param("fanout"));
        assert(params_view(params@) =~= seq![SqlV::Int(seq), SqlV::Text("fanout"@)]);
        Some(
            statement(
                "UPDATE md_dist_watermark SET last_seq = $1, updated_at = now() WHERE key = $2",
                params,
            ),
        )
    } else {
        None
    }
}

/// Puts back in the queue what has been running for longer than `minutes`; the lost attempt
/// counts.
pub fn reclaim_running(minutes: i64) -> (r: Statement)
    ensures
        r.sql@
            == "UPDATE md_dispatch_log SET status = 'pending', attempts = attempts + 1, updated_at = now() WHERE status = 'running' AND updated_at < now() - ($1 || ' minutes')::interval"@,
        params_view(r.params@) == seq![SqlV::Text(dec_int(minutes as int))],
{
    let mut params: Vec<SqlValue> = Vec::new();
    params.push(SqlValue::Text(decimal_int(minutes)));
    assert(params_view(params@) =~= seq![SqlV::Text(dec_int(minutes as int))]);
    statement(
        "UPDATE md_dispatch_log SET status = 'pending', attempts = attempts + 1, updated_at = now() WHERE status = 'running' AND updated_at < now() - ($1 || ' minutes')::interval",
        params,
    )
}

/// Claims deliveries: those that are due, and of each subscription only the first that is not
/// finished.
pub fn claim_dispatches(limit: i64) -> (r: Statement)
    ensures
        r.sql@
            == "WITH candidates AS ( SELECT d.id FROM md_dispatch_log d WHERE (d.status = 'pending' OR (d.status = 'failed' AND d.next_retry_at <= now())) AND NOT EXISTS ( SELECT 1 FROM md_dispatch_log d2 WHERE d2.subscription_id = d.subscription_id AND d2.event_seq < d.event_seq AND d2.status IN ('pending','running','failed')) ORDER BY d.subscription_id, d.event_seq FOR UPDATE SKIP LOCKED LIMIT $1) UPDATE md_dispatch_log SET status = 'running', updated_at = now() WHERE id IN (SELECT id FROM candidates) RETURNING id, subscription_id, event_id, event_seq, dict_code, record_id, attempts"@,
        params_view(r.params@) == seq![SqlV::Int(limit)],
{
    let mut params: Vec<SqlValue> = Vec::new();
    params.push(SqlValue::Int(limit));
    assert(params_view(params@) =~= seq![SqlV::Int(limit)]);
    statement(
        "WITH candidates AS ( SELECT d.id FROM md_dispatch_log d WHERE (d.status = 'pending' OR (d.status = 'failed' AND d.next_retry_at <= now())) AND NOT EXISTS ( SELECT 1 FROM md_dispatch_log d2 WHERE d2.subscription_id = d.subscription_id AND d2.event_seq < d.event_seq AND d2.status IN ('pending','running','failed')) ORDER BY d.subscription_id, d.event_seq FOR UPDATE SKIP LOCKED LIMIT $1) UPDATE md_dispatch_log SET status = 'running', updated_at = now() WHERE id IN (SELECT id FROM candidates) RETURNING id, subscription_id, event_id, event_seq, dict_code, record_id, attempts",
        params,
    )
}

/// When a delivery may be tried again: set for a failed one alone.
pub open spec fn retry_term(status: Seq<char>, at: Option<i64>) -> Seq<char> {
    match at {
        Some(t) => if status == "failed"@ {
            "to_timestamp("@ + dec_int(t as int) + ")"@
        } else {
            "NULL"@
        },
        None => "NULL"@,
    }
}

/// When a delivery arrived: set for a delivered one alone.
pub open spec fn delivered_term(status: Seq<char>) -> Seq<char> {
    if status == "delivered"@ {
        "now()"@
    } else {
        "NULL"@
    }
}

/// The note on a delivery.
pub open spec fn mark_statement(
    id: i64,
    status: Seq<char>,
    attempts: i64,
    next_retry: Option<i64>,
    http_status: Option<i64>,
    error: Option<Seq<char>>,
    snippet: Option<Seq<char>>,
) -> StatementV {
    StatementV {
        sql: "UPDATE md_dispatch_log SET status = $1, attempts = $2, next_retry_at = "@
            + retry_term(status, next_retry)
            + ", http_status = $3, last_error = $4, response_snippet = $5, delivered_at = "@
            + delivered_term(status) + ", updated_at = now() WHERE id = $6"@,
        params: seq![
            SqlV::Text(status),
            SqlV::Int(attempts),
            opt_int_v(http_status),
            opt_text_v(error),
            match snippet {
                Some(t) => SqlV::Text(truncated(t, 512)),
                None => SqlV::NullTyped(SqlType::Text),
            },
            SqlV::Int(id),
        ],
    }
}

/// Notes what became of a delivery; of the answer at most 512 bytes.
pub fn mark_dispatch(
    dispatch_id: i64,
    status: &str,
    attempts: i64,
    next_retry_at_epoch: Option<i64>,
    http_status: Option<i64>,
    error: Option<&str>,
    snippet: Option<&str>,
) -> (r: Statement)
    ensures
        r@ == mark_statement(
            dispatch_id,
            status@,
            attempts,
            next_retry_at_epoch,
            http_status,
            opt_str(error),
            opt_str(snippet),
        ),
{
    let mut sql: String =
        "UPDATE md_dispatch_log SET status = $1, attempts = $2, next_retry_at = ".to_owned();
    let retry: String = match next_retry_at_epoch {
        Some(t) => if same_text(status, "failed") {
            let mut s: String = "to_timestamp(".to_owned();
            s.append(decimal_int(t).as_str());
            s.append(")");
            s
        } else {
            "NULL".to_owned()
        },
        None => "NULL".to_owned(),
    };
    sql.append(retry.as_str());
    sql.append(", http_status = $3, last_error = $4, response_snippet = $5, delivered_at = ");
    if same_text(status, "delivered") {
        sql.append("now()");
    } else {
        sql.append("NULL");
    }
    sql.append(", updated_at = now() WHERE id = $6");
    let mut params: Vec<SqlValue> = Vec::new();
    params.push(text_param(status));
    params.push(SqlValue::Int(attempts));
    params.push(opt_int(http_status));
    params.push(
        match error {
            Some(e) => text_param(e),
            None => SqlValue::NullTyped(SqlType::Text),
        },
    );
    params.push(
        match snippet {
            Some(t) => SqlValue::Text(truncate(t, 512)),
            None => SqlValue::NullTyped(SqlType::Text),
        },
    );
    params.push(SqlValue::Int(dispatch_id));
    let r = Statement { sql, params };
    assert(r@.params =~= mark_statement(
        dispatch_id,
        status@,
        attempts,
        next_retry_at_epoch,
        http_status,
        opt_str(error),
        opt_str(snippet),
    ).params);
    r
}

/// A member that is a text with something in it.
pub open spec fn wanted_text(q: JsonV, k: Seq<char>) -> Option<Seq<char>> {
    match json_str(json_get(q, k)) {
        Some(s) => if s.len() > 0 {
            Some(s)
        } else {
            None
        },
        None => None,
    }
}

/// A member that is a text with something in it.
pub fn text_wanted<'a>(q: &'a Json, k: &str) -> (r: Option<&'a str>)
    ensures
        opt_str(r) == wanted_text(q@, k@),
{
    match q.get(k) {
        Some(Json::Str(s)) => if s.as_str().is_empty() {
            None
        } else {
            Some(s.as_str())
        },
        _ => None,
    }
}

/// A member that is an integer.
pub fn int_wanted(q: &Json, k: &str) -> (r: Option<i64>)
    ensures
        r == json_i64(json_get(q@, k@)),
{
    match q.get(k) {
        Some(v) => v.as_i64(),
        None => None,
    }
}

/// The filter on a text, where one is asked for, with something behind the placeholder.
pub open spec fn filter_cast(
    f: FilterV,
    before: Seq<char>,
    after: Seq<char>,
    t: Option<Seq<char>>,
) -> FilterV {
    match t {
        Some(s) => filter_on(f, before, after, SqlV::Text(s)),
        None => f,
    }
}

/// Adds a condition on a text, where one is asked for, with something behind the placeholder.
pub fn add_cast(f: &mut Filter, before: &str, after: &str, t: Option<&str>)
    requires
        old(f)@.params.len() < usize::MAX,
    ensures
        final(f)@ == filter_cast(old(f)@, before@, after@, opt_str(t)),
{
    if let Some(s) = t {
        f.on(before, after, text_param(s));
    }
}

/// The filter of a list of deliveries.
pub open spec fn dispatch_filter(q: JsonV) -> FilterV {
    let f = filter_int(
        filter_of("1=1"@),
        "d.subscription_id = "@,
        json_i64(json_get(q, "subscriptionId"@)),
    );
    let f = filter_cast(f, "d.status = "@, ""@, wanted_text(q, "status"@));
    let f = filter_cast(f, "d.dict_code = "@, ""@, wanted_text(q, "dictCode"@));
    let f = filter_cast(f, "d.event_id = "@, ""@, wanted_text(q, "eventId"@));
    let f = filter_cast(
        f,
        "d.created_at >= "@,
        "::text::timestamptz"@,
        wanted_text(q, "timeFrom"@),
    );
    filter_cast(f, "d.created_at <= "@, "::text::timestamptz"@, wanted_text(q, "timeTo"@))
}

/// A page of deliveries, newest first, each with the name and target of its subscription.
pub fn list_dispatches(q: &Json) -> (r: PageQuery)
    requires
        page_offset(int_at(q@, "page"@), int_at(q@, "pageSize"@)) <= i64::MAX,
    ensures
        r@ == page_query(
            "md_dispatch_log d LEFT JOIN md_subscription s ON s.id = d.subscription_id"@,
            "d.*, s.name AS sub_name, s.target_sys AS sub_target_sys"@,
            "md_dispatch_log d LEFT JOIN md_subscription s ON s.id = d.subscription_id"@,
            "d.created_at DESC, d.id DESC"@,
            dispatch_filter(q@),
            int_at(q@, "page"@),
            int_at(q@, "pageSize"@),
        ),
{
    let mut f = Filter::new("1=1");
    f.integer("d.subscription_id = ", int_wanted(q, "subscriptionId"));
    add_cast(&mut f, "d.status = ", "", text_wanted(q, "status"));
    add_cast(&mut f, "d.dict_code = ", "", text_wanted(q, "dictCode"));
    add_cast(&mut f, "d.event_id = ", "", text_wanted(q, "eventId"));
    add_cast(&mut f, "d.created_at >= ", "::text::timestamptz", text_wanted(q, "timeFrom"));
    add_cast(&mut f, "d.created_at <= ", "::text::timestamptz", text_wanted(q, "timeTo"));
    let t = PageText {
        count_from: "md_dispatch_log d LEFT JOIN md_subscription s ON s.id = d.subscription_id",
        columns: "d.*, s.name AS sub_name, s.target_sys AS sub_target_sys",
        list_from: "md_dispatch_log d LEFT JOIN md_subscription s ON s.id = d.subscription_id",
        order: "d.created_at DESC, d.id DESC",
    };
    build_page(&t, f, int_member(q, "page"), int_member(q, "pageSize"))
}

/// A delivery by id, with its event and the name of its subscription.
pub fn get_dispatch(id: i64) -> (r: Statement)
    ensures
        r.sql@
            == "SELECT d.*, e.event_type, e.payload AS event_payload, e.emitted_at, s.name AS sub_name, s.target_sys FROM md_dispatch_log d LEFT JOIN md_event_log e ON e.id = d.event_id LEFT JOIN md_subscription s ON s.id = d.subscription_id WHERE d.id = $1"@,
        params_view(r.params@) == seq![SqlV::Int(id)],
{
    let mut params: Vec<SqlValue> = Vec::new();
    params.push(SqlValue::Int(id));
    assert(params_view(params@) =~= seq![SqlV::Int(id)]);
    statement(
        "SELECT d.*, e.event_type, e.payload AS event_payload, e.emitted_at, s.name AS sub_name, s.target_sys FROM md_dispatch_log d LEFT JOIN md_event_log e ON e.id = d.event_id LEFT JOIN md_subscription s ON s.id = d.subscription_id WHERE d.id = $1",
        params,
    )
}

/// The integers of a list.
pub open spec fn integers(a: Seq<JsonV>) -> Seq<i64>
    decreases a.len(),
{
    if a.len() == 0 {
        Seq::empty()
    } else {
        let r = integers(a.drop_last());
        match json_i64(Some(a.last())) {
            Some(i) => r.push(i),
            None => r,
        }
    }
}

/// The integers of a member that is a list.
pub open spec fn integers_at(q: JsonV, k: Seq<char>) -> Seq<i64> {
    match json_get(q, k) {
        Some(JsonV::Arr(a)) => integers(a),
        _ => Seq::empty(),
    }
}

/// The integers of a member that is a list.
pub fn integer_list(q: &Json, k: &str) -> (r: Vec<i64>)
    ensures
        r@ == integers_at(q@, k@),
{
    let mut r: Vec<i64> = Vec::new();
    let list: Option<&Vec<Json>> = match q.get(k) {
        Some(v) => v.as_array(),
        None => None,
    };
    if let Some(a) = list {
        let ghost all = values_view(a@);
        let mut i: usize = 0;
        assert(all.take(0) =~= Seq::<JsonV>::empty());
        while i < a.len()
            invariant
                i <= a@.len(),
                all == values_view(a@),
                r@ == integers(all.take(i as int)),
            decreases a@.len() - i,
        {
            assert(all.take(i + 1).drop_last() =~= all.take(i as int));
            assert(all.take(i + 1).last() == a@[i as int]@);
            if let Some(n) = a[i].as_i64() {
                r.push(n);
            }
            i += 1;
        }
        assert(all.take(all.len() as int) =~= all);
    }
    r
}

/// A text member, or a default.
pub open spec fn text_or(q: JsonV, k: Seq<char>, default: Seq<char>) -> Seq<char> {
    match json_str(json_get(q, k)) {
        Some(s) => s,
        None => default,
    }
}

/// A text member, or a default.
pub fn text_or_default(q: &Json, k: &str, default: &str) -> (r: String)
    ensures
        r@ == text_or(q@, k@, default@),
{
    match q.get(k) {
        Some(Json::Str(s)) => s.clone(),
        _ => default.to_owned(),
    }
}

/// Puts deliveries that failed or were given up back in the queue: those of the ids, or, without
/// ids, those in one of the two states (given up unless asked otherwise), of one subscription or
/// of all. A delivery in any other state stays as it is.
pub open spec fn retry_statement(q: JsonV) -> StatementV {
    let ids = integers_at(q, "ids"@);
    let start =
        "UPDATE md_dispatch_log SET status = 'pending', next_retry_at = NULL, updated_at = now() WHERE "@;
    if ids.len() > 0 {
        StatementV {
            sql: start + "id IN ("@ + join(slots(1, ids.len()), ","@)
                + ") AND status IN ('failed','dead')"@,
            params: id_params(ids),
        }
    } else {
        let f = filter_int(
            FilterV {
                clauses: seq!["status = $1"@],
                params: seq![SqlV::Text(text_or(q, "status"@, "dead"@))],
            },
            "subscription_id = "@,
            json_i64(json_get(q, "subscriptionId"@)),
        );
        StatementV {
            sql: start + join(f.clauses, " AND "@) + " AND status IN ('failed','dead')"@,
            params: f.params,
        }
    }
}

/// Whatever is asked, only deliveries that failed or were given up go back in the queue.
pub proof fn law_retry_guarded(q: JsonV)
    ensures
        " AND status IN ('failed','dead')"@.is_suffix_of(retry_statement(q).sql),
{
    reveal_strlit(" AND status IN ('failed','dead')");
    reveal_strlit(") AND status IN ('failed','dead')");
    let s = retry_statement(q).sql;
    let g = " AND status IN ('failed','dead')"@;
    assert(g =~= s.subrange(s.len() - g.len(), s.len() as int));
}

/// Puts deliveries back in the queue.
pub fn retry_dispatches(q: &Json) -> (r: Statement)
    ensures
        r@ == retry_statement(q@),
{
    let ids = integer_list(q, "ids");
    let mut sql: String =
        "UPDATE md_dispatch_log SET status = 'pending', next_retry_at = NULL, updated_at = now() WHERE ".to_owned();
    if ids.len() > 0 {
        sql.append("id IN (");
        sql.append(joined(&slot_list(1, ids.len()), ",").as_str());
        sql.append(") AND status IN ('failed','dead')");
        let mut params: Vec<SqlValue> = Vec::new();
        push_ids(&mut params, ids.as_slice());
        assert(params_view(params@) =~= id_params(ids@));
        return Statement { sql, params };
    }
    let mut f = Filter::new("status = $1");
    f.params.push(SqlValue::Text(text_or_default(q, "status", "dead")));
    assert(f@ =~= FilterV {
        clauses: seq!["status = $1"@],
        params: seq![SqlV::Text(text_or(q@, "status"@, "dead"@))],
    });
    f.integer("subscription_id = ", int_wanted(q, "subscriptionId"));
    sql.append(joined(&f.clauses, " AND ").as_str());
    sql.append(" AND status IN ('failed','dead')");
    Statement { sql, params: f.params }
}

/// Skips deliveries that were given up; none where no id is given.
pub fn skip_dispatches(ids: &[i64]) -> (r: Option<Statement>)
    ensures
        match r {
            Some(s) => ids@.len() > 0 && s@ == (StatementV {
                sql: "UPDATE md_dispatch_log SET status = 'skipped', next_retry_at = NULL, updated_at = now() WHERE id IN ("@
                    + join(slots(1, ids@.len()), ","@) + ") AND status = 'dead'"@,
                params: id_params(ids@),
            }),
            None => ids@.len() == 0,
        },
{
    if ids.len() == 0 {
        return None;
    }
    let mut sql: String =
        "UPDATE md_dispatch_log SET status = 'skipped', next_retry_at = NULL, updated_at = now() WHERE id IN (".to_owned();
    sql.append(joined(&slot_list(1, ids.len()), ",").as_str());
    sql.append(") AND status = 'dead'");
    let mut params: Vec<SqlValue> = Vec::new();
    push_ids(&mut params, ids);
    assert(params_view(params@) =~= id_params(ids@));
    Some(Statement { sql, params })
}

/// How the queue stands.
pub fn dispatch_stats() -> (r: Statement)
    ensures
        r.sql@
            == "SELECT COALESCE(SUM(CASE WHEN updated_at >= current_date THEN 1 ELSE 0 END), 0)::bigint AS today_total, COALESCE(SUM(CASE WHEN updated_at >= current_date AND status = 'delivered' THEN 1 ELSE 0 END), 0)::bigint AS today_ok, COALESCE(SUM(CASE WHEN status IN ('pending','running') THEN 1 ELSE 0 END), 0)::bigint AS backlog, COALESCE(SUM(CASE WHEN status = 'failed' THEN 1 ELSE 0 END), 0)::bigint AS failed, COALESCE(SUM(CASE WHEN status = 'dead' THEN 1 ELSE 0 END), 0)::bigint AS dead, COALESCE(AVG(CASE WHEN status = 'delivered' AND delivered_at > now() - interval '24 hours' THEN EXTRACT(EPOCH FROM (delivered_at - created_at)) * 1000 END), 0) AS avg_latency_ms, GREATEST(COALESCE((SELECT MAX(seq) FROM md_event_log), 0) - COALESCE((SELECT last_seq FROM md_dist_watermark WHERE key = 'fanout'), 0), 0) AS fanout_lag FROM md_dispatch_log WHERE $1::int = 1"@,
        params_view(r.params@) == seq![SqlV::Int(1)],
{
    let mut params: Vec<SqlValue> = Vec::new();
    params.push(SqlValue::Int(1));
    assert(params_view(params@) =~= seq![SqlV::Int(1)]);
    statement(
        "SELECT COALESCE(SUM(CASE WHEN updated_at >= current_date THEN 1 ELSE 0 END), 0)::bigint AS today_total, COALESCE(SUM(CASE WHEN updated_at >= current_date AND status = 'delivered' THEN 1 ELSE 0 END), 0)::bigint AS today_ok, COALESCE(SUM(CASE WHEN status IN ('pending','running') THEN 1 ELSE 0 END), 0)::bigint AS backlog, COALESCE(SUM(CASE WHEN status = 'failed' THEN 1 ELSE 0 END), 0)::bigint AS failed, COALESCE(SUM(CASE WHEN status = 'dead' THEN 1 ELSE 0 END), 0)::bigint AS dead, COALESCE(AVG(CASE WHEN status = 'delivered' AND delivered_at > now() - interval '24 hours' THEN EXTRACT(EPOCH FROM (delivered_at - created_at)) * 1000 END), 0) AS avg_latency_ms, GREATEST(COALESCE((SELECT MAX(seq) FROM md_event_log), 0) - COALESCE((SELECT last_seq FROM md_dist_watermark WHERE key = 'fanout'), 0), 0) AS fanout_lag FROM md_dispatch_log WHERE $1::int = 1",
        params,
    )
}

/// The update of how far a consumer has read, which only moves forward.
pub open spec fn offset_update(consumer_id: Seq<char>, dict_code: Seq<char>, seq: i64) -> StatementV {
    StatementV {
        sql: "UPDATE md_consumer_offset SET acked_seq = $1, acked_at = now() WHERE consumer_id = $2 AND dict_code = $3 AND acked_seq < $1"@,
        params: seq![SqlV::Int(seq), SqlV::Text(consumer_id), SqlV::Text(dict_code)],
    }
}

/// The insert for a consumer without a row.
pub open spec fn offset_insert(
    id: i64,
    consumer_id: Seq<char>,
    dict_code: Seq<char>,
    seq: i64,
) -> StatementV {
    StatementV {
        sql: "INSERT INTO md_consumer_offset (id, consumer_id, dict_code, acked_seq) VALUES ($1, $2, $3, $4) ON CONFLICT (consumer_id, dict_code) DO NOTHING"@,
        params: seq![
            SqlV::Int(id),
            SqlV::Text(consumer_id),
            SqlV::Text(dict_code),
            SqlV::Int(seq),
        ],
    }
}

/// What follows the update, given how many rows it changed: the insert where it changed none.
pub open spec fn after_update(
    id: i64,
    consumer_id: Seq<char>,
    dict_code: Seq<char>,
    seq: i64,
    changed: u64,
) -> Option<StatementV> {
    if changed == 0 {
        Some(offset_insert(id, consumer_id, dict_code, seq))
    } else {
        None
    }
}

/// How far a consumer has read: an update that only moves forward, and the insert for a consumer
/// without a row, which is run where the update changed none.
#[derive(Debug)]
pub struct OffsetWrite {
    pub update: Statement,
    pub insert: Statement,
}

impl OffsetWrite {
    /// Whether these are the statements for a consumer that has read so far.
    pub open spec fn notes(
        &self,
        id: i64,
        consumer_id: Seq<char>,
        dict_code: Seq<char>,
        seq: i64,
    ) -> bool {
        &&& self.update@ == offset_update(consumer_id, dict_code, seq)
        &&& self.insert@ == offset_insert(id, consumer_id, dict_code, seq)
    }

    /// What follows the update, given how many rows it changed.
    pub fn rest(self, changed: u64) -> (r: Option<Statement>)
        ensures
            match r {
                Some(s) => changed == 0 && s == self.insert,
                None => changed > 0,
            },
    {
        if changed == 0 {
            Some(self.insert)
        } else {
            None
        }
    }
}

/// Notes how far a consumer has read; never back.
pub fn upsert_consumer_offset(id: i64, consumer_id: &str, dict_code: &str, seq: i64) -> (r:
    OffsetWrite)
    ensures
        r.notes(id, consumer_id@, dict_code@, seq),
{
    let mut p: Vec<SqlValue> = Vec::new();
    p.push(SqlValue::Int(seq));
    p.push(text_param(consumer_id));
    p.push(text_param(dict_code));
    assert(params_view(p@) =~= seq![
        SqlV::Int(seq),
        SqlV::Text(consumer_id@),
        SqlV::Text(dict_code@),
    ]);
    let mut q: Vec<SqlValue> = Vec::new();
    q.push(SqlValue::Int(id));
    q.push(text_param(consumer_id));
    q.push(text_param(dict_code));
    q.push(SqlValue::Int(seq));
    assert(params_view(q@) =~= seq![
        SqlV::Int(id),
        SqlV::Text(consumer_id@),
        SqlV::Text(dict_code@),
        SqlV::Int(seq),
    ]);
    OffsetWrite {
        update: statement(
            "UPDATE md_consumer_offset SET acked_seq = $1, acked_at = now() WHERE consumer_id = $2 AND dict_code = $3 AND acked_seq < $1",
            p,
        ),
        insert: statement(
            "INSERT INTO md_consumer_offset (id, consumer_id, dict_code, acked_seq) VALUES ($1, $2, $3, $4) ON CONFLICT (consumer_id, dict_code) DO NOTHING",
            q,
        ),
    }
}

/// How far each consumer has read, and how far it is behind.
pub fn list_consumer_offsets() -> (r: Statement)
    ensures
        r.sql@
            == "SELECT o.consumer_id, o.dict_code, o.acked_seq, o.acked_at, GREATEST(COALESCE((SELECT MAX(e.seq) FROM md_event_log e WHERE e.dict_code = o.dict_code), 0) - o.acked_seq, 0) AS lag FROM md_consumer_offset o ORDER BY o.consumer_id, o.dict_code"@,
        r.params@.len() == 0,
{
    statement(
        "SELECT o.consumer_id, o.dict_code, o.acked_seq, o.acked_at, GREATEST(COALESCE((SELECT MAX(e.seq) FROM md_event_log e WHERE e.dict_code = o.dict_code), 0) - o.acked_seq, 0) AS lag FROM md_consumer_offset o ORDER BY o.consumer_id, o.dict_code",
        Vec::new(),
    )
}

/// Text with its parameters, to which conditions are added.
#[verifier::ext_equal]
pub struct TailV {
    pub sql: Seq<char>,
    pub params: Seq<SqlV>,
}

/// The tail with one more condition.
pub open spec fn tail_on(t: TailV, before: Seq<char>, v: Option<SqlV>) -> TailV {
    match v {
        Some(x) => TailV {
            sql: t.sql + before + slot(t.params.len() + 1),
            params: t.params.push(x),
        },
        None => t,
    }
}

/// An integer as a parameter.
pub open spec fn int_v(i: Option<i64>) -> Option<SqlV> {
    match i {
        Some(n) => Some(SqlV::Int(n)),
        None => None,
    }
}

/// A text as a parameter.
pub open spec fn text_v(t: Option<Seq<char>>) -> Option<SqlV> {
    match t {
        Some(s) => Some(SqlV::Text(s)),
        None => None,
    }
}

/// The conditions under which events are delivered anew.
pub open spec fn publish_tail(q: JsonV) -> TailV {
    let t = TailV { sql: Seq::empty(), params: Seq::empty() };
    let t = tail_on(t, " AND s.id = "@, int_v(json_i64(json_get(q, "subscriptionId"@))));
    let t = tail_on(t, " AND s.dict_code = "@, text_v(wanted_text(q, "dictCode"@)));
    let t = tail_on(t, " AND e.seq >= "@, int_v(json_i64(json_get(q, "fromSeq"@))));
    tail_on(t, " AND e.seq <= "@, int_v(json_i64(json_get(q, "toSeq"@))))
}

fn add_tail(sql: &mut String, params: &mut Vec<SqlValue>, before: &str, v: Option<SqlValue>)
    requires
        old(params)@.len() < usize::MAX,
    ensures
        final(params)@.len() <= old(params)@.len() + 1,
        (TailV { sql: final(sql)@, params: params_view(final(params)@) }) == tail_on(
            TailV { sql: old(sql)@, params: params_view(old(params)@) },
            before@,
            match v {
                Some(x) => Some(x@),
                None => None,
            },
        ),
{
    if let Some(x) = v {
        let ghost p = params_view(params@);
        sql.append(before);
        sql.append(slot_text(params.len() as u64 + 1).as_str());
        params.push(x);
        assert(params_view(params@) =~= p.push(x@));
    }
}

fn int_sql(i: Option<i64>) -> (r: Option<SqlValue>)
    ensures
        int_v(i) == (match r {
            Some(x) => Some(x@),
            None => None,
        }),
{
    match i {
        Some(n) => Some(SqlValue::Int(n)),
        None => None,
    }
}

/// The events and subscriptions that are delivered anew, at most 5000 pairs.
pub fn publish_select(q: &Json) -> (r: Statement)
    ensures
        r@ == (StatementV {
            sql: "SELECT s.id AS sub_id, e.id AS event_id, e.seq, e.dict_code, e.record_id FROM md_event_log e JOIN md_subscription s ON s.dict_code = e.dict_code WHERE s.channel <> 'rest_pull'"@
                + publish_tail(q@).sql + " ORDER BY e.seq ASC LIMIT 5000"@,
            params: publish_tail(q@).params,
        }),
{
    let mut tail: String = String::new();
    let mut params: Vec<SqlValue> = Vec::new();
    assert(params_view(params@) =~= Seq::<SqlV>::empty());
    add_tail(&mut tail, &mut params, " AND s.id = ", int_sql(int_wanted(q, "subscriptionId")));
    let dict: Option<SqlValue> = match text_wanted(q, "dictCode") {
        Some(d) => Some(text_param(d)),
        None => None,
    };
    add_tail(&mut tail, &mut params, " AND s.dict_code = ", dict);
    add_tail(&mut tail, &mut params, " AND e.seq >= ", int_sql(int_wanted(q, "fromSeq")));
    add_tail(&mut tail, &mut params, " AND e.seq <= ", int_sql(int_wanted(q, "toSeq")));
    let mut sql: String =
        "SELECT s.id AS sub_id, e.id AS event_id, e.seq, e.dict_code, e.record_id FROM md_event_log e JOIN md_subscription s ON s.dict_code = e.dict_code WHERE s.channel <> 'rest_pull'".to_owned();
    sql.append(tail.as_str());
    sql.append(" ORDER BY e.seq ASC LIMIT 5000");
    Statement { sql, params }
}

/// The deliveries of the pairs found.
pub open spec fn combo_rows(combos: Seq<JsonV>) -> Seq<NewDispatchV> {
    Seq::new(
        combos.len(),
        |i: int|
            NewDispatchV {
                subscription_id: int_at(combos[i], "sub_id"@),
                event_id: text_at(combos[i], "event_id"@),
                event_seq: int_at(combos[i], "seq"@),
                dict_code: text_at(combos[i], "dict_code"@),
                record_id: int_at(combos[i], "record_id"@),
            },
    )
}

/// What becomes of a delivery that is in the queue already: nothing, or it is put back.
pub open spec fn conflict_action(force: bool) -> Seq<char> {
    if force {
        "DO UPDATE SET status = 'pending', next_retry_at = NULL, updated_at = now()"@
    } else {
        "DO NOTHING"@
    }
}

/// Whether deliveries that arrived are to be sent again.
pub open spec fn forced(q: JsonV) -> bool {
    json_bool(json_get(q, "force"@)) == Some(true)
}

/// Queues the pairs found anew; with force those too that are in the queue already.
pub fn publish_rebuild(q: &Json, combos: &Vec<Json>, ids: &[i64]) -> (r: Vec<Statement>)
    requires
        combos@.len() <= ids@.len(),
    ensures
        statements_view(r@) == dispatch_inserts(
            combo_rows(values_view(combos@)),
            ids@,
            conflict_action(forced(q@)),
        ),
{
    let ghost all = values_view(combos@);
    let mut rows: Vec<NewDispatch> = Vec::new();
    let mut i: usize = 0;
    while i < combos.len()
        invariant
            i <= combos@.len(),
            all == values_view(combos@),
            rows@.len() == i,
            forall|k: int| 0 <= k < i ==> (#[trigger] rows@[k])@ == combo_rows(all)[k],
        decreases combos@.len() - i,
    {
        let c = &combos[i];
        rows.push(
            NewDispatch {
                subscription_id: int_member(c, "sub_id"),
                event_id: text_member(c, "event_id"),
                event_seq: int_member(c, "seq"),
                dict_code: text_member(c, "dict_code"),
                record_id: int_member(c, "record_id"),
            },
        );
        i += 1;
    }
    assert(dispatches_view(rows@) =~= combo_rows(all));
    let force = match q.get("force") {
        Some(Json::Bool(b)) => *b,
        _ => false,
    };
    if force {
        insert_dispatches(
            &rows,
            ids,
            "DO UPDATE SET status = 'pending', next_retry_at = NULL, updated_at = now()",
        )
    } else {
        insert_dispatches(&rows, ids, "DO NOTHING")
    }
}

/// Subscriptions by id; none where no id is given.
pub fn load_subscriptions_by_ids(ids: &[i64]) -> (r: Option<Statement>)
    ensures
        match r {
            Some(s) => ids@.len() > 0 && s@ == (StatementV {
                sql: "SELECT * FROM md_subscription WHERE id IN ("@ + join(
                    slots(1, ids@.len()),
                    ","@,
                ) + ")"@,
                params: id_params(ids@),
            }),
            None => ids@.len() == 0,
        },
{
    if ids.len() == 0 {
        return None;
    }
    let mut sql: String = "SELECT * FROM md_subscription WHERE id IN (".to_owned();
    sql.append(joined(&slot_list(1, ids.len()), ",").as_str());
    sql.append(")");
    let mut params: Vec<SqlValue> = Vec::new();
    push_ids(&mut params, ids);
    assert(params_view(params@) =~= id_params(ids@));
    Some(Statement { sql, params })
}

/// Events by id; none where no id is given.
pub fn load_events_by_ids(ids: &Vec<String>) -> (r: Option<Statement>)
    ensures
        match r {
            Some(s) => ids@.len() > 0 && s@ == (StatementV {
                sql: "SELECT id, seq, dict_code, record_id, event_type, payload, emitted_at FROM md_event_log WHERE id IN ("@
                    + join(slots(1, ids@.len()), ","@) + ")"@,
                params: text_params(texts(ids@)),
            }),
            None => ids@.len() == 0,
        },
{
    if ids.len() == 0 {
        return None;
    }
    let mut sql: String =
        "SELECT id, seq, dict_code, record_id, event_type, payload, emitted_at FROM md_event_log WHERE id IN (".to_owned();
    sql.append(joined(&slot_list(1, ids.len()), ",").as_str());
    sql.append(")");
    let mut params: Vec<SqlValue> = Vec::new();
    let mut i: usize = 0;
    while i < ids.len()
        invariant
            i <= ids@.len(),
            params@.len() == i,
            forall|k: int| 0 <= k < i ==> (#[trigger] params@[k])@ == SqlV::Text(ids@[k]@),
        decreases ids@.len() - i,
    {
        params.push(text_param(ids[i].as_str()));
        i += 1;
    }
    assert(params_view(params@) =~= text_params(texts(ids@)));
    Some(Statement { sql, params })
}

/// The events, from the rows found: their payload is read back.
pub fn read_events(rows: &Vec<Json>) -> (r: Vec<Json>)
    ensures
        values_view(r@) == parsed_rows(
            values_view(rows@),
            seq!["payload"@],
        ),
{
    let fields = ["payload"];
    assert(keys_view(fields@) =~= seq!["payload"@]);
    parse_rows(rows, fields.as_slice())
}

/// The subscriptions to be served, from the rows found: their columns with JSON are read back.
pub fn read_fanout_subscriptions(rows: &Vec<Json>) -> (r: Vec<Json>)
    ensures
        values_view(r@) == parsed_rows(
            values_view(rows@),
            seq!["event_types"@, "filter"@],
        ),
{
    let fields = ["event_types", "filter"];
    assert(keys_view(fields@) =~= seq!["event_types"@, "filter"@]);
    parse_rows(rows, fields.as_slice())
}

} // verus!
