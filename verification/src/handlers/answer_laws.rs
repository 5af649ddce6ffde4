//! What answers hold, and what lists are made of.

use crate::activation::HeaderGroup;
use crate::distribution::channels::{all_failed, time_text, webhook_headers};
use crate::distribution::config::default_cfg;
use crate::distribution::dispatcher::{channel_settings, column_ints, find_sub};
use crate::distribution::envelope::EventEnvelope;
use crate::distribution::transform::{int_at, text_at};
use crate::flow::says_done;
use crate::handlers::cr::instance_answer;
use crate::handlers::dedup::thresholds;
use crate::handlers::flow_cb::{comma_parts, history_item, numbers_in};
use crate::handlers::governance::{channel_item, named_config};
use crate::handlers::merge::{
    group_members, left_out, name_of, named_group, named_groups, rejection, shown_group,
    wanted_dicts, wanted_ids, NameV,
};
use crate::handlers::review::{context_value, idle_context, is_maker, read_status, LocatedV};
use crate::handlers::scan_run::{scan_step, ScanActionV, ScanEventV, ScanStageV};
use crate::json::{json_get, json_i64, lemma_get_put, number_of, obj_get, JsonV, NumberV, ObjV};
use crate::match_algo::RecordV;
use crate::outside::json_parse;
use crate::sql::SqlV;
use crate::store::activation_store::{activation_row, header_group_json, texts_json};
use crate::store::dispatch_store::dispatch_filter;
use crate::store::governance::subscription_filter;
use crate::store::scan_store::{column_texts, PreparedV};
use crate::text::{dec, dec_int, texts, trimmed};
use vstd::prelude::*;

verus! {

/// A channel gets the settings of its subscription, none where there are none; the time to wait
/// that the subscription names stands before the one of the settings.
pub proof fn law_settings_sent(sub: JsonV, cfg: ObjV, t: u64, k: Seq<char>)
    ensures
        json_get(sub, "channel_config"@) is None && json_get(sub, "timeout_ms"@) is None
            ==> channel_settings(sub) == JsonV::Obj(Seq::empty()),
        json_get(sub, "channel_config"@) == Some(JsonV::Obj(cfg)) && json_get(
            sub,
            "timeout_ms"@,
        ) is None ==> channel_settings(sub) == JsonV::Obj(cfg),
        json_get(sub, "channel_config"@) == Some(JsonV::Obj(cfg)) && json_get(sub, "timeout_ms"@)
            == Some(JsonV::Num(NumberV::PosInt(t))) ==> json_get(
            channel_settings(sub),
            "timeout_ms"@,
        ) == Some(JsonV::Num(NumberV::PosInt(t))),
        json_get(sub, "channel_config"@) == Some(JsonV::Obj(cfg)) && k != "timeout_ms"@ ==> json_get(
            channel_settings(sub),
            k,
        ) == obj_get(cfg, k),
{
    broadcast use lemma_get_put;

}

/// The integers of a column, and nothing else of it, row by row.
pub proof fn law_column_integers(rows: Seq<JsonV>, row: JsonV, col: Seq<char>, i: i64)
    ensures
        column_ints(Seq::empty(), col).len() == 0,
        json_i64(json_get(row, col)) == Some(i) ==> column_ints(rows.push(row), col) == column_ints(
            rows,
            col,
        ).push(i),
        json_i64(json_get(row, col)) is None ==> column_ints(rows.push(row), col) == column_ints(
            rows,
            col,
        ),
{
    assert(rows.push(row).drop_last() =~= rows);
}

/// A subscription is found by its number, whatever others are there; none is found where none has
/// the number.
pub proof fn law_subscription_found(subs: Seq<JsonV>, id: i64, j: int)
    ensures
        0 <= j < subs.len() && int_at(subs[j], "id"@) == id && (forall|k: int|
            j < k < subs.len() ==> int_at(#[trigger] subs[k], "id"@) != id) ==> find_sub(subs, id)
            == Some(subs[j]),
        (forall|k: int| 0 <= k < subs.len() ==> int_at(#[trigger] subs[k], "id"@) != id)
            ==> find_sub(subs, id) is None,
    decreases subs.len(),
{
    if subs.len() > 0 {
        let d = subs.drop_last();
        law_subscription_found(d, id, j);
        assert forall|k: int| 0 <= k < d.len() implies #[trigger] d[k] == subs[k] by {}
        assert(subs[subs.len() - 1] == subs.last());
    }
}

/// A text without a comma is one part; what stands behind a comma, up to the next, is a part of its
/// own.
pub proof fn law_comma_parts(a: Seq<char>, b: Seq<char>)
    requires
        forall|i: int| 0 <= i < b.len() ==> #[trigger] b[i] != ',',
    ensures
        comma_parts(b) == seq![b],
        comma_parts(a.push(',') + b) == comma_parts(a).push(b),
    decreases b.len(),
{
    let whole = a.push(',') + b;
    if b.len() == 0 {
        assert(whole =~= a.push(','));
        assert(whole.drop_last() =~= a);
        assert(b =~= Seq::<char>::empty());
    } else {
        let c = b.drop_last();
        assert forall|i: int| 0 <= i < c.len() implies #[trigger] c[i] != ',' by {
            assert(c[i] == b[i]);
        }
        law_comma_parts(a, c);
        assert(whole.drop_last() =~= a.push(',') + c);
        assert(whole.last() == b.last());
        assert(b.last() == b[b.len() - 1]);
        assert(c.push(b.last()) =~= b);
        assert(comma_parts(a).push(c).drop_last() =~= comma_parts(a));
        assert(seq![c].drop_last() =~= Seq::<Seq<char>>::empty());
        assert(comma_parts(b) =~= seq![b]);
    }
}

/// The numbers of some texts, with white space around them or without, and nothing else.
pub proof fn law_numbers_in(p: Seq<Seq<char>>, s: Seq<char>, n: i64)
    ensures
        numbers_in(Seq::empty()).len() == 0,
        trimmed(s) == dec_int(n as int) ==> numbers_in(p.push(s)) == numbers_in(p).push(n),
        trimmed(s).len() == 0 ==> numbers_in(p.push(s)) == numbers_in(p),
{
    assert(p.push(s).drop_last() =~= p);
    if trimmed(s) == dec_int(n as int) {
        crate::text_laws::law_decimal_reads_back(n as int);
    }
}

/// An approval is listed with its number, its state, its key and what was said.
pub proof fn law_history_listed(inst: JsonV, comments: Seq<JsonV>, id: Seq<char>, state: JsonV)
    ensures
        json_get(inst, "instanceId"@) == Some(JsonV::Str(id)) ==> json_get(
            history_item(inst, comments),
            "instanceId"@,
        ) == Some(JsonV::Str(id)),
        json_get(inst, "state"@) == Some(state) ==> json_get(history_item(inst, comments), "state"@)
            == Some(state),
        json_get(inst, "businessKey"@) == Some(state) ==> json_get(
            history_item(inst, comments),
            "businessKey"@,
        ) == Some(state),
        json_get(history_item(inst, comments), "comments"@) == Some(JsonV::Arr(comments)),
{
    broadcast use lemma_get_put;

    reveal_strlit("instanceId");
    reveal_strlit("state");
    reveal_strlit("businessKey");
    reveal_strlit("createdAt");
    reveal_strlit("comments");
    assert("instanceId"@.len() == 10 && "state"@.len() == 5 && "businessKey"@.len() == 11
        && "createdAt"@.len() == 9 && "comments"@.len() == 8);
}

/// Requests that wait, and no others, are left out of a list unless that is asked otherwise.
pub proof fn law_left_out(asked: Option<Seq<char>>)
    ensures
        left_out(None) == seq!["pending"@],
        left_out(Some("0"@)).len() == 0,
        left_out(Some("false"@)).len() == 0,
        left_out(asked).len() == 0 || left_out(asked) == seq!["pending"@],
{
}

/// The records of a dictionary whose names are wanted are the masters and the members of the merge
/// requests of that dictionary.
pub proof fn law_wanted_ids(groups: Seq<JsonV>, g: JsonV, dict: Seq<char>, m: i64)
    requires
        json_i64(json_get(g, "master_id"@)) == Some(m),
    ensures
        wanted_ids(Seq::empty(), dict).len() == 0,
        json_get(g, "dict_code"@) == Some(JsonV::Str(dict)) && m > 0 ==> wanted_ids(
            groups.push(g),
            dict,
        ) == wanted_ids(groups, dict).push(m) + group_members(g),
        json_get(g, "dict_code"@) == Some(JsonV::Str(dict)) && m <= 0 ==> wanted_ids(
            groups.push(g),
            dict,
        ) == wanted_ids(groups, dict) + group_members(g),
        (json_get(g, "dict_code"@) matches Some(JsonV::Str(d)) && d != dict) ==> wanted_ids(
            groups.push(g),
            dict,
        ) == wanted_ids(groups, dict),
{
    assert(groups.push(g).drop_last() =~= groups);
}

/// The dictionaries whose names are wanted are those of the merge requests, each once.
pub proof fn law_wanted_dicts(groups: Seq<JsonV>, d: Seq<char>)
    ensures
        wanted_dicts(groups).contains(d) <==> d.len() > 0 && exists|i: int|
            0 <= i < groups.len() && text_at(#[trigger] groups[i], "dict_code"@) == d,
        wanted_dicts(groups).no_duplicates(),
    decreases groups.len(),
{
    if groups.len() > 0 {
        let f = groups.drop_last();
        let r = wanted_dicts(f);
        let w = wanted_dicts(groups);
        let c = text_at(groups.last(), "dict_code"@);
        law_wanted_dicts(f, d);
        assert(groups[groups.len() - 1] == groups.last());
        if r.contains(d) {
            let i = choose|i: int|
                0 <= i < f.len() && text_at(#[trigger] f[i], "dict_code"@) == d;
            assert(groups[i] == f[i]);
            let k = choose|k: int| 0 <= k < r.len() && r[k] == d;
            assert(w[k] == d);
        }
        if d.len() > 0 && exists|i: int|
            0 <= i < groups.len() && text_at(#[trigger] groups[i], "dict_code"@) == d {
            let i = choose|i: int|
                0 <= i < groups.len() && text_at(#[trigger] groups[i], "dict_code"@) == d;
            if i < f.len() {
                assert(f[i] == groups[i]);
            } else if !r.contains(d) {
                assert(w[r.len() as int] == d);
            }
        }
        if w.contains(d) && !r.contains(d) {
            let k = choose|k: int| 0 <= k < w.len() && w[k] == d;
            if k < r.len() {
                assert(r[k] == d);
            }
        }
        if !(c.len() == 0 || r.contains(c)) {
            assert forall|i: int, j: int| 0 <= i < w.len() && 0 <= j < w.len() && i != j implies w[i]
                != w[j] by {
                if i < r.len() && j < r.len() {
                    assert(r[i] != r[j]);
                } else if i < r.len() {
                    assert(r[i] != c);
                } else {
                    assert(r[j] != c);
                }
            }
        }
    }
}

/// A record is named by its columns for name and code.
pub proof fn law_record_named(dict: Seq<char>, r: RecordV, name: Seq<char>, code: Seq<char>)
    requires
        obj_get(r.fields, "name"@) == Some(JsonV::Str(name)),
        obj_get(r.fields, "code"@) == Some(JsonV::Str(code)),
    ensures
        name_of(dict, r) == (NameV { dict_code: dict, id: r.id, name, code }),
{
}

/// Merge requests are shown in their order, each with its names.
pub proof fn law_requests_named(groups: Seq<JsonV>, names: Seq<NameV>, i: int, g: ObjV)
    requires
        0 <= i < groups.len(),
        groups[i] == JsonV::Obj(g),
    ensures
        named_groups(groups, names).len() == groups.len(),
        named_groups(groups, names)[i] == JsonV::Obj(named_group(g, names)),
{
}

/// A merge request is shown with its members and its record read back, and all else as it is.
pub proof fn law_request_read_back(g: ObjV, k: Seq<char>, t: Seq<char>, v: JsonV)
    ensures
        k != "member_ids"@ && k != "survivorship_log"@ ==> json_get(shown_group(JsonV::Obj(g)), k)
            == obj_get(g, k),
        (k == "member_ids"@ || k == "survivorship_log"@) && obj_get(g, k) == Some(JsonV::Str(t))
            && json_parse(t) == Some(v) ==> json_get(shown_group(JsonV::Obj(g)), k) == Some(v),
{
    broadcast use lemma_get_put;

    reveal_strlit("member_ids");
    reveal_strlit("survivorship_log");
    assert("member_ids"@.len() == 10 && "survivorship_log"@.len() == 16);
}

/// A rejection tells who rejected and why.
pub proof fn law_rejection_told(by: i64, reason: Seq<char>)
    ensures
        json_get(rejection(by, Some(reason)), "rejected_by"@) == Some(JsonV::Num(number_of(by))),
        json_get(rejection(by, Some(reason)), "reason"@) == Some(JsonV::Str(reason)),
        json_get(rejection(by, None), "reason"@) == Some(JsonV::Null),
{
    broadcast use lemma_get_put;

    reveal_strlit("rejected_by");
    reveal_strlit("reason");
    assert("rejected_by"@.len() == 11 && "reason"@.len() == 6);
}

/// The state of a request that is told after a decision is one of five; any other is not told.
pub proof fn law_status_told(o: ObjV, cr_id: i64, s: Seq<char>)
    requires
        obj_get(o, "doc_status"@) == Some(JsonV::Str(s)),
    ensures
        s == "approving"@ || s == "activating"@ || s == "activated"@ || s == "rejected"@ || s
            == "aborted"@ ==> read_status(seq![JsonV::Obj(o)], cr_id) == s,
        s != "approving"@ && s != "activating"@ && s != "activated"@ && s != "rejected"@ && s
            != "aborted"@ ==> read_status(seq![JsonV::Obj(o)], cr_id).len() == 0,
        read_status(Seq::empty(), cr_id).len() == 0,
{
    broadcast use lemma_get_put;

    reveal_strlit("doc_status");
    reveal_strlit("payload");
    reveal_strlit("field_deltas");
    assert("doc_status"@.len() == 10 && "payload"@.len() == 7 && "field_deltas"@.len() == 12);
    let five = seq!["approving"@, "activating"@, "activated"@, "rejected"@, "aborted"@];
    assert(five[0] == "approving"@ && five[1] == "activating"@ && five[2] == "activated"@ && five[3]
        == "rejected"@ && five[4] == "aborted"@);
}

/// The maker of a request is the user that its head names, and nobody without a name is.
pub proof fn law_maker(head: ObjV, user: Seq<char>, by: Seq<char>)
    requires
        obj_get(head, "create_by"@) == Some(JsonV::Str(by)),
    ensures
        is_maker(head, user) <==> user == by && user.len() > 0,
{
}

proof fn lemma_context_words()
    ensures
        "crId"@.len() == 4,
        "instanceId"@.len() == 10,
        "taskId"@.len() == 6,
        "canReview"@.len() == 9,
        "canApply"@.len() == 8,
        "applyTaskId"@.len() == 11,
        "canWithdraw"@.len() == 11,
        "state"@.len() == 5,
        "applyTaskId"@[0] == 'a',
        "canWithdraw"@[0] == 'c',
{
    reveal_strlit("crId");
    reveal_strlit("instanceId");
    reveal_strlit("taskId");
    reveal_strlit("canReview");
    reveal_strlit("canApply");
    reveal_strlit("applyTaskId");
    reveal_strlit("canWithdraw");
    reveal_strlit("state");
}

/// A request that is not under way can neither be decided on nor withdrawn.
pub proof fn law_idle_request(cr_id: i64, state: JsonV)
    ensures
        ({
            let v = idle_context(cr_id, state);
            &&& json_get(v, "crId"@) == Some(JsonV::Num(number_of(cr_id)))
            &&& json_get(v, "instanceId"@) == Some(JsonV::Null)
            &&& json_get(v, "taskId"@) == Some(JsonV::Null)
            &&& json_get(v, "canReview"@) == Some(JsonV::Bool(false))
            &&& json_get(v, "canWithdraw"@) == Some(JsonV::Bool(false))
            &&& json_get(v, "state"@) == Some(state)
        }),
{
    broadcast use lemma_get_put;

    lemma_context_words();
}

/// A request under way can be decided on by whoever has the right to the task of its review,
/// submitted again by whoever has the right to that of its maker, and withdrawn by its maker; it is
/// active where one of the two tasks names an approval.
pub proof fn law_request_under_way(cr_id: i64, maker: bool, review: LocatedV, apply: LocatedV)
    ensures
        ({
            let v = context_value(cr_id, maker, review, apply);
            &&& json_get(v, "crId"@) == Some(JsonV::Num(number_of(cr_id)))
            &&& json_get(v, "canReview"@) == Some(JsonV::Bool(review.can))
            &&& json_get(v, "canApply"@) == Some(JsonV::Bool(apply.can))
            &&& json_get(v, "canWithdraw"@) == Some(JsonV::Bool(maker))
            &&& review.task_id.len() > 0 ==> json_get(v, "taskId"@) == Some(
                JsonV::Str(review.task_id),
            )
            &&& review.task_id.len() == 0 ==> json_get(v, "taskId"@) == Some(JsonV::Null)
            &&& apply.task_id.len() > 0 ==> json_get(v, "applyTaskId"@) == Some(
                JsonV::Str(apply.task_id),
            )
            &&& apply.task_id.len() == 0 ==> json_get(v, "applyTaskId"@) == Some(JsonV::Null)
            &&& review.instance_id.len() > 0 ==> json_get(v, "instanceId"@) == Some(
                JsonV::Str(review.instance_id),
            ) && json_get(v, "state"@) == Some(JsonV::Str("ACTIVE"@))
            &&& review.instance_id.len() == 0 && apply.instance_id.len() > 0 ==> json_get(
                v,
                "instanceId"@,
            ) == Some(JsonV::Str(apply.instance_id)) && json_get(v, "state"@) == Some(
                JsonV::Str("ACTIVE"@),
            )
            &&& review.instance_id.len() == 0 && apply.instance_id.len() == 0 ==> json_get(
                v,
                "instanceId"@,
            ) == Some(JsonV::Null) && json_get(v, "state"@) == Some(JsonV::Null)
        }),
{
    broadcast use lemma_get_put;

    lemma_context_words();
}

/// A channel is offered under its own name, and tested with the settings that are named, or with
/// none.
pub proof fn law_channel_offered(t: Seq<char>, body: JsonV, cfg: JsonV)
    ensures
        json_get(channel_item(t), "type"@) == Some(JsonV::Str(t)),
        json_get(channel_item(t), "label"@) == Some(JsonV::Str(t)),
        json_get(body, "channel_config"@) == Some(cfg) ==> named_config(body) == cfg,
        json_get(body, "channel_config"@) is None ==> named_config(body) == JsonV::Obj(Seq::empty()),
{
    broadcast use lemma_get_put;

    reveal_strlit("type");
    reveal_strlit("label");
    assert("type"@.len() == 4 && "label"@.len() == 5);
}

/// The headers that a webhook adds are those of its settings, if these are an object; a channel
/// that cannot send fails every event for good, each under its own number.
pub proof fn law_channel_parts(
    config: JsonV,
    o: ObjV,
    ms: u64,
    envelopes: Seq<EventEnvelope>,
    e: Seq<char>,
    i: int,
)
    ensures
        json_get(config, "headers"@) == Some(JsonV::Obj(o)) ==> webhook_headers(config)
            == JsonV::Obj(o),
        !(json_get(config, "headers"@) matches Some(JsonV::Obj(_))) ==> webhook_headers(config)
            == JsonV::Null,
        time_text(Some(ms)) == dec(ms as nat),
        time_text(None).len() == 0,
        all_failed(envelopes, e).len() == envelopes.len(),
        0 <= i < envelopes.len() ==> {
            let r = all_failed(envelopes, e)[i];
            !r.ok && !r.retryable && r.event_id == envelopes[i].event_id@ && r.detail == Some(e)
        },
{
}

/// Where nothing is set: a look every two seconds, 500 events fanned out and 100 deliveries taken
/// on in a round, eight subscriptions at once, waits from five seconds up to half an hour, and
/// deliveries taken up again after ten minutes.
pub proof fn law_default_settings()
    ensures
        default_cfg().enabled,
        default_cfg().scan_interval_ms == 2 * 1000,
        default_cfg().fanout_batch == 500,
        default_cfg().deliver_batch == 100,
        default_cfg().deliver_concurrency == 8,
        default_cfg().backoff_base_ms == 5 * 1000,
        default_cfg().backoff_max_ms == 30 * 60 * 1000,
        default_cfg().running_reclaim_minutes == 10,
        default_cfg().allow_private_address,
{
}

/// A message says that a task was done before where one of two words stands anywhere in it.
pub proof fn law_says_done(a: Seq<char>, b: Seq<char>)
    ensures
        says_done(a + "TaskNotActionable"@ + b),
        says_done(a + "不可办"@ + b),
        a.len() < 3 ==> !says_done(a),
{
    reveal_strlit("TaskNotActionable");
    reveal_strlit("不可办");
    let x = "TaskNotActionable"@;
    let y = "不可办"@;
    assert(x.len() == 17 && y.len() == 3);
    assert((a + x + b).subrange(a.len() as int, (a.len() + x.len()) as int) =~= x);
    assert(crate::text::stands_at(a + x + b, x, a.len() as int));
    assert((a + y + b).subrange(a.len() as int, (a.len() + y.len()) as int) =~= y);
    assert(crate::text::stands_at(a + y + b, y, a.len() as int));
}

/// A group of head fields is stored with its code, its name and its fields in their order.
pub proof fn law_header_group_stored(g: HeaderGroup)
    ensures
        json_get(header_group_json(g), "groupCode"@) == Some(JsonV::Str(g.group_code@)),
        json_get(header_group_json(g), "groupName"@) == Some(JsonV::Str(g.group_name@)),
        json_get(header_group_json(g), "fields"@) == Some(texts_json(texts(g.fields@))),
{
    broadcast use lemma_get_put;

    reveal_strlit("groupCode");
    reveal_strlit("groupName");
    reveal_strlit("fields");
    assert("groupCode"@.len() == 9 && "groupName"@.len() == 9 && "fields"@.len() == 6);
    assert("groupCode"@[5] == 'C' && "groupName"@[5] == 'N');
}

/// The five columns of a mapping that hold JSON are read back; every other column stays.
pub proof fn law_mapping_read_back(o: ObjV, k: Seq<char>, t: Seq<char>, v: JsonV)
    ensures
        ({
            let five = k == "header_mapping"@ || k == "line_mappings"@ || k == "header_groups"@ || k
                == "doc_code_rules"@ || k == "key_fields"@;
            &&& !five ==> json_get(activation_row(JsonV::Obj(o)), k) == obj_get(o, k)
            &&& five && obj_get(o, k) == Some(JsonV::Str(t)) && json_parse(t) == Some(v)
                ==> json_get(activation_row(JsonV::Obj(o)), k) == Some(v)
        }),
{
    broadcast use lemma_get_put;

    reveal_strlit("header_mapping");
    reveal_strlit("line_mappings");
    reveal_strlit("header_groups");
    reveal_strlit("doc_code_rules");
    reveal_strlit("key_fields");
    assert("header_mapping"@.len() == 14 && "line_mappings"@.len() == 13 && "header_groups"@.len()
        == 13 && "doc_code_rules"@.len() == 14 && "key_fields"@.len() == 10);
    assert("header_mapping"@[0] == 'h' && "line_mappings"@[0] == 'l' && "header_groups"@[0] == 'h'
        && "doc_code_rules"@[0] == 'd');
}

/// A list of deliveries binds what it is asked for, in the order of its conditions: the
/// subscription, the state, the dictionary, the event, and the two ends of a time.
pub proof fn law_delivery_list_binds(
    q: JsonV,
    sub: i64,
    status: Seq<char>,
    dict: Seq<char>,
    event: Seq<char>,
    from: Seq<char>,
    to: Seq<char>,
)
    requires
        json_i64(json_get(q, "subscriptionId"@)) == Some(sub),
        json_get(q, "status"@) == Some(JsonV::Str(status)),
        json_get(q, "dictCode"@) == Some(JsonV::Str(dict)),
        json_get(q, "eventId"@) == Some(JsonV::Str(event)),
        json_get(q, "timeFrom"@) == Some(JsonV::Str(from)),
        json_get(q, "timeTo"@) == Some(JsonV::Str(to)),
        status.len() > 0 && dict.len() > 0 && event.len() > 0 && from.len() > 0 && to.len() > 0,
    ensures
        dispatch_filter(q).params == seq![
            SqlV::Int(sub),
            SqlV::Text(status),
            SqlV::Text(dict),
            SqlV::Text(event),
            SqlV::Text(from),
            SqlV::Text(to),
        ],
        dispatch_filter(q).clauses.len() == 7,
        "d.subscription_id = "@.is_prefix_of(dispatch_filter(q).clauses[1]),
        "d.status = "@.is_prefix_of(dispatch_filter(q).clauses[2]),
        "d.dict_code = "@.is_prefix_of(dispatch_filter(q).clauses[3]),
        "d.event_id = "@.is_prefix_of(dispatch_filter(q).clauses[4]),
        "d.created_at >= "@.is_prefix_of(dispatch_filter(q).clauses[5]),
        "d.created_at <= "@.is_prefix_of(dispatch_filter(q).clauses[6]),
{
    assert(dispatch_filter(q).params =~= seq![
        SqlV::Int(sub),
        SqlV::Text(status),
        SqlV::Text(dict),
        SqlV::Text(event),
        SqlV::Text(from),
        SqlV::Text(to),
    ]);
}

/// A list of subscriptions binds the target, the dictionary, the channel, and whether they run.
pub proof fn law_subscription_list_binds(
    q: JsonV,
    target: Seq<char>,
    dict: Seq<char>,
    channel: Seq<char>,
    active: bool,
)
    requires
        json_get(q, "targetSys"@) == Some(JsonV::Str(target)),
        json_get(q, "dictCode"@) == Some(JsonV::Str(dict)),
        json_get(q, "channel"@) == Some(JsonV::Str(channel)),
        json_get(q, "active"@) == Some(JsonV::Bool(active)),
        target.len() > 0 && dict.len() > 0 && channel.len() > 0,
    ensures
        subscription_filter(q).params == seq![
            SqlV::Text(target),
            SqlV::Text(dict),
            SqlV::Text(channel),
            SqlV::Bool(active),
        ],
        "target_sys = "@.is_prefix_of(subscription_filter(q).clauses[1]),
        "dict_code = "@.is_prefix_of(subscription_filter(q).clauses[2]),
        "channel = "@.is_prefix_of(subscription_filter(q).clauses[3]),
        "active = "@.is_prefix_of(subscription_filter(q).clauses[4]),
{
    assert(subscription_filter(q).params =~= seq![
        SqlV::Text(target),
        SqlV::Text(dict),
        SqlV::Text(channel),
        SqlV::Bool(active),
    ]);
}

/// From which scores on records are merged without and with a look at them.
pub proof fn law_thresholds_shown()
    ensures
        json_get(thresholds(), "auto_merge"@) == Some(JsonV::Num(number_of(95))),
        json_get(thresholds(), "review"@) == Some(JsonV::Num(number_of(80))),
{
    broadcast use lemma_get_put;

    reveal_strlit("auto_merge");
    reveal_strlit("review");
    assert("auto_merge"@.len() == 10 && "review"@.len() == 6);
}

/// A submission is answered with the request, its state and its approval.
pub proof fn law_submission_answered(cr_id: i64, status: Seq<char>, instance: Seq<char>)
    ensures
        json_get(instance_answer(cr_id, status, instance), "crId"@) == Some(
            JsonV::Num(number_of(cr_id)),
        ),
        json_get(instance_answer(cr_id, status, instance), "status"@) == Some(JsonV::Str(status)),
        json_get(instance_answer(cr_id, status, instance), "instanceId"@) == Some(
            JsonV::Str(instance),
        ),
{
    broadcast use lemma_get_put;

    reveal_strlit("crId");
    reveal_strlit("status");
    reveal_strlit("instanceId");
    assert("crId"@.len() == 4 && "status"@.len() == 6 && "instanceId"@.len() == 10);
}

/// What waits already is known by the marks of the rows found; so many ids are asked for as
/// clusters were found, and with fewer the scan fails.
pub proof fn law_scan_reads_marks(
    dict: Seq<char>,
    found: Seq<PreparedV>,
    rows: Seq<JsonV>,
    row: JsonV,
    mark: Seq<char>,
    ids: Seq<i64>,
    waiting: Seq<Seq<char>>,
)
    requires
        json_get(row, "cluster_hash"@) == Some(JsonV::Str(mark)),
    ensures
        ({
            let r = scan_step(ScanStageV::Marks(dict, found), ScanEventV::Rows(rows.push(row)));
            &&& r.1 == ScanActionV::NewIds(found.len())
            &&& r.0 matches ScanStageV::Ids(d, f, w) && d == dict && f == found && w.contains(mark)
        }),
        ids.len() < found.len() ==> scan_step(
            ScanStageV::Ids(dict, found, waiting),
            ScanEventV::Ids(ids),
        ).1 is Fail,
{
    assert(rows.push(row).drop_last() =~= rows);
    let w = column_texts(rows.push(row), "cluster_hash"@);
    assert(w.last() == mark);
}

} // verus!
