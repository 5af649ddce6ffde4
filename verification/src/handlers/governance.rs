//! Audit trail, events and subscriptions, as they are asked for and answered.

use crate::distribution::dispatcher::channel_settings;
use crate::distribution::transform::{int_at, int_member, text_at, text_member};
use crate::handlers::merge::{page_answer, page_value};
use crate::handlers::put;
use crate::json::{
    array, json_bool, json_get, json_i64, json_str, law_get_after_put, number_of, obj_get,
    obj_put, values_view, Json, JsonV, Number, NumberV, ObjV, Object,
};
use crate::match_algo::opt_text;
use crate::merge_parts::about_id;
use crate::merge_record::counter;
use crate::sql::{SqlV, Statement, StatementV};
use crate::store::dispatch_store::{text_or, text_or_default};
use crate::store::governance::{
    delete_subscription, read_subscriptions, set_subscription_active, subscription_id,
    subscription_statement, upsert_subscription, SubscriptionWrite,
};
use crate::store::jsonb::parsed_rows;
use crate::store::md_accessor::opt_json;
use crate::store::query::opt_str;
use crate::text::{dec_int, same_text, trim, trimmed};
use vstd::prelude::*;

verus! {

/// A request for a page of the audit trail, of events or of subscriptions.
#[derive(Debug)]
pub struct GovListQuery {
    pub dict_code: Option<String>,
    pub record_id: Option<i64>,
    /// Events behind this number.
    pub since: Option<i64>,
    /// `desc` for the newest events first.
    pub order: Option<String>,
    pub target_sys: Option<String>,
    pub channel: Option<String>,
    pub active: Option<bool>,
    pub page: i64,
    pub page_size: i64,
}

/// A text, or null where there is none.
pub open spec fn opt_value(s: Option<Seq<char>>) -> JsonV {
    match s {
        Some(t) => JsonV::Str(t),
        None => JsonV::Null,
    }
}

fn value_of(s: &Option<String>) -> (r: Json)
    ensures
        r@ == opt_value(opt_text(*s)),
{
    match s {
        Some(t) => Json::Str(t.clone()),
        None => Json::Null,
    }
}

/// What subscriptions are asked for.
pub fn subscription_query(q: &GovListQuery) -> (r: Json)
    ensures
        ({
            let o = obj_put(Seq::empty(), "targetSys"@, opt_value(opt_text(q.target_sys)));
            let o = obj_put(o, "dictCode"@, opt_value(opt_text(q.dict_code)));
            let o = obj_put(o, "channel"@, opt_value(opt_text(q.channel)));
            let o = obj_put(
                o,
                "active"@,
                match q.active {
                    Some(b) => JsonV::Bool(b),
                    None => JsonV::Null,
                },
            );
            let o = obj_put(o, "page"@, JsonV::Num(number_of(q.page)));
            r@ == JsonV::Obj(obj_put(o, "pageSize"@, JsonV::Num(number_of(q.page_size))))
        }),
{
    let active: Json = match q.active {
        Some(b) => Json::Bool(b),
        None => Json::Null,
    };
    let o = put(Object::new(), "targetSys", value_of(&q.target_sys));
    let o = put(o, "dictCode", value_of(&q.dict_code));
    let o = put(o, "channel", value_of(&q.channel));
    let o = put(o, "active", active);
    let o = put(o, "page", Json::integer(q.page));
    Json::Obj(put(o, "pageSize", Json::integer(q.page_size)))
}

/// The greatest number of some events.
pub open spec fn max_seq(list: Seq<JsonV>) -> i64
    recommends
        list.len() > 0,
    decreases list.len(),
{
    let last = int_at(list.last(), "seq"@);
    if list.len() <= 1 || last >= max_seq(list.drop_last()) {
        last
    } else {
        max_seq(list.drop_last())
    }
}

/// Where the next page of events begins: behind the greatest number of this one.
pub open spec fn next_since(list: Seq<JsonV>, since: Option<i64>) -> i64 {
    if list.len() > 0 {
        max_seq(list)
    } else {
        match since {
            Some(s) => s,
            None => 0,
        }
    }
}

fn after_page(list: &Vec<Json>, since: Option<i64>) -> (r: i64)
    ensures
        r == next_since(values_view(list@), since),
{
    let ghost all = values_view(list@);
    if list.len() == 0 {
        return match since {
            Some(s) => s,
            None => 0,
        };
    }
    let mut best: i64 = int_member(&list[0], "seq");
    let mut i: usize = 1;
    assert(all.take(1).last() == list@[0]@);
    while i < list.len()
        invariant
            1 <= i <= list@.len(),
            all == values_view(list@),
            best == max_seq(all.take(i as int)),
        decreases list@.len() - i,
    {
        assert(all.take(i + 1).drop_last() =~= all.take(i as int));
        assert(all.take(i + 1).last() == list@[i as int]@);
        let n: i64 = int_member(&list[i], "seq");
        if n >= best {
            best = n;
        }
        i += 1;
    }
    assert(all.take(all.len() as int) =~= all);
    best
}

proof fn lemma_max_seq(list: Seq<JsonV>, i: int)
    requires
        0 <= i < list.len(),
    ensures
        int_at(list[i], "seq"@) <= max_seq(list),
    decreases list.len(),
{
    if list.len() > 1 && i < list.len() - 1 {
        lemma_max_seq(list.drop_last(), i);
    }
}

/// No event of a page stands behind the mark that the page gives, so none of them comes again.
pub proof fn law_next_since(list: Seq<JsonV>, since: Option<i64>, i: int)
    requires
        0 <= i < list.len(),
    ensures
        int_at(list[i], "seq"@) <= next_since(list, since),
{
    lemma_max_seq(list, i);
}

/// A page of events as it is answered: where the next begins, and whether there are more.
pub open spec fn events_value(
    list: Seq<JsonV>,
    total: i64,
    since: Option<i64>,
    page: i64,
    page_size: i64,
) -> JsonV {
    let o = obj_put(Seq::empty(), "list"@, JsonV::Arr(list));
    let o = obj_put(o, "total"@, JsonV::Num(number_of(total)));
    let o = obj_put(o, "page"@, JsonV::Num(number_of(page)));
    let o = obj_put(o, "pageSize"@, JsonV::Num(number_of(page_size)));
    let o = obj_put(o, "nextSince"@, JsonV::Num(number_of(next_since(list, since))));
    JsonV::Obj(obj_put(o, "hasMore"@, JsonV::Bool(total > page * page_size)))
}

/// Answers with a page of events, where the next begins, and whether there are more.
pub fn mdm_events_list(list: Vec<Json>, total: i64, q: &GovListQuery) -> (r: Json)
    requires
        i64::MIN <= q.page * q.page_size <= i64::MAX,
    ensures
        r@ == events_value(values_view(list@), total, q.since, q.page, q.page_size),
{
    let next: i64 = after_page(&list, q.since);
    let more = total > q.page * q.page_size;
    let o = put(Object::new(), "list", array(list));
    let o = put(o, "total", Json::integer(total));
    let o = put(o, "page", Json::integer(q.page));
    let o = put(o, "pageSize", Json::integer(q.page_size));
    let o = put(o, "nextSince", Json::integer(next));
    Json::Obj(put(o, "hasMore", Json::Bool(more)))
}

/// Whether a secret is to be hidden: it is there, and not hidden already.
pub open spec fn shows_secret(cfg: ObjV) -> bool {
    match obj_get(cfg, "secret"@) {
        Some(JsonV::Str(s)) => s.len() > 0 && s != "***"@,
        _ => false,
    }
}

/// A subscription with the secret of its channel hidden.
pub open spec fn masked(sub: JsonV) -> JsonV {
    match sub {
        JsonV::Obj(o) => match obj_get(o, "channel_config"@) {
            Some(JsonV::Obj(cfg)) => if shows_secret(cfg) {
                JsonV::Obj(
                    obj_put(
                        o,
                        "channel_config"@,
                        JsonV::Obj(obj_put(cfg, "secret"@, JsonV::Str("***"@))),
                    ),
                )
            } else {
                sub
            },
            _ => sub,
        },
        _ => sub,
    }
}

/// The settings of the channel of a subscription, where they are an object.
pub open spec fn config_of(sub: JsonV) -> Option<ObjV> {
    match json_get(sub, "channel_config"@) {
        Some(JsonV::Obj(cfg)) => Some(cfg),
        _ => None,
    }
}

fn read_config(sub: &Json) -> (r: Option<Object>)
    ensures
        match r {
            Some(o) => config_of(sub@) == Some(o@),
            None => config_of(sub@) is None,
        },
{
    match sub.get("channel_config") {
        Some(v) => match v.as_object() {
            Some(o) => Some(o.clone()),
            None => None,
        },
        None => None,
    }
}

/// Puts other settings of the channel into a subscription.
pub open spec fn with_config(sub: JsonV, cfg: ObjV) -> JsonV {
    match sub {
        JsonV::Obj(o) => JsonV::Obj(obj_put(o, "channel_config"@, JsonV::Obj(cfg))),
        _ => sub,
    }
}

fn put_config(sub: &mut Json, cfg: Object)
    ensures
        final(sub)@ == with_config(old(sub)@, cfg@),
{
    let mut t = Json::Null;
    std::mem::swap(sub, &mut t);
    *sub = match t {
        Json::Obj(o) => Json::Obj(put(o, "channel_config", Json::Obj(cfg))),
        other => other,
    };
}

/// Hides the secret of a subscription's channel.
pub fn mask_secret(sub: &mut Json)
    ensures
        final(sub)@ == masked(old(sub)@),
{
    if let Some(cfg) = read_config(sub) {
        let shows = match cfg.get("secret") {
            Some(Json::Str(s)) => !s.as_str().is_empty() && !same_text(s.as_str(), "***"),
            _ => false,
        };
        if shows {
            let hidden = put(cfg, "secret", Json::string("***"));
            put_config(sub, hidden);
        }
    }
}

/// A subscription that is shown has no secret in it.
pub proof fn law_masked_hides(sub: JsonV)
    ensures
        config_of(masked(sub)) matches Some(cfg) ==> !shows_secret(cfg),
        masked(masked(sub)) == masked(sub),
{
    match sub {
        JsonV::Obj(o) => match obj_get(o, "channel_config"@) {
            Some(JsonV::Obj(cfg)) => {
                if shows_secret(cfg) {
                    let hidden = obj_put(cfg, "secret"@, JsonV::Str("***"@));
                    law_get_after_put(cfg, "secret"@, JsonV::Str("***"@), "secret"@);
                    law_get_after_put(
                        o,
                        "channel_config"@,
                        JsonV::Obj(hidden),
                        "channel_config"@,
                    );
                }
            },
            _ => {},
        },
        _ => {},
    }
}

/// The subscriptions of a page as they are shown: the columns with JSON are read back, the secrets
/// hidden.
pub open spec fn shown(rows: Seq<JsonV>) -> Seq<JsonV> {
    let subs = parsed_rows(
        rows,
        seq!["filter"@, "field_map"@, "channel_config"@, "event_types"@],
    );
    Seq::new(subs.len(), |i: int| masked(subs[i]))
}

/// Answers with a page of subscriptions, from the rows found.
pub fn mdm_subscriptions_list(rows: &Vec<Json>, total: i64, q: &GovListQuery) -> (r: Json)
    ensures
        r@ == page_value(shown(values_view(rows@)), total, q.page, q.page_size),
{
    let subs = read_subscriptions(rows);
    let ghost all = values_view(subs@);
    let ghost want = shown(values_view(rows@));
    let mut list: Vec<Json> = Vec::new();
    let mut i: usize = 0;
    while i < subs.len()
        invariant
            i <= subs@.len(),
            subs@.len() == want.len(),
            list@.len() == i,
            all == values_view(subs@),
            forall|k: int| 0 <= k < all.len() ==> want[k] == masked(#[trigger] all[k]),
            forall|k: int| 0 <= k < i ==> (#[trigger] list@[k])@ == want[k],
        decreases subs@.len() - i,
    {
        let mut sub = subs[i].clone();
        assert(sub@ == all[i as int]);
        mask_secret(&mut sub);
        list.push(sub);
        i += 1;
    }
    assert(values_view(list@) =~= want);
    page_answer(list, total, q.page, q.page_size)
}

/// No page of subscriptions shows a secret.
pub proof fn law_page_hides(rows: Seq<JsonV>, i: int)
    requires
        0 <= i < rows.len(),
    ensures
        config_of(shown(rows)[i]) matches Some(cfg) ==> !shows_secret(cfg),
{
    law_masked_hides(
        parsed_rows(rows, seq!["filter"@, "field_map"@, "channel_config"@, "event_types"@])[i],
    );
}

/// Whether a subscription comes back with its secret still hidden.
pub open spec fn comes_masked(body: JsonV) -> bool {
    match config_of(body) {
        Some(cfg) => obj_get(cfg, "secret"@) == Some(JsonV::Str("***"@)),
        None => false,
    }
}

/// The subscription whose secret is to be kept, where one comes back hidden.
pub fn kept_secret_of(body: &Json) -> (r: Option<i64>)
    ensures
        r == (if comes_masked(body@) {
            json_i64(json_get(body@, "id"@))
        } else {
            None
        }),
{
    let hidden = match read_config(body) {
        Some(cfg) => match cfg.get("secret") {
            Some(Json::Str(s)) => same_text(s.as_str(), "***"),
            _ => false,
        },
        None => false,
    };
    if !hidden {
        return None;
    }
    match body.get("id") {
        Some(v) => v.as_i64(),
        None => None,
    }
}

/// A subscription with the secret that is stored, where there is one.
pub open spec fn with_secret(body: JsonV, stored: JsonV) -> JsonV {
    match (config_of(body), config_of(stored)) {
        (Some(cfg), Some(old_cfg)) => match obj_get(old_cfg, "secret"@) {
            Some(s) => with_config(body, obj_put(cfg, "secret"@, s)),
            None => body,
        },
        _ => body,
    }
}

/// Keeps the secret that is stored.
pub fn keep_secret_if_masked(body: &mut Json, stored: &Json)
    ensures
        final(body)@ == with_secret(old(body)@, stored@),
{
    if let Some(cfg) = read_config(body) {
        if let Some(old_cfg) = read_config(stored) {
            if let Some(s) = old_cfg.get("secret") {
                let kept = put(cfg, "secret", s.clone());
                put_config(body, kept);
            }
        }
    }
}

/// A subscription that is shown and saved again keeps its secret.
pub proof fn law_secret_survives(stored: JsonV)
    requires
        config_of(stored) matches Some(cfg) && shows_secret(cfg),
    ensures
        comes_masked(masked(stored)),
        config_of(with_secret(masked(stored), stored)) matches Some(cfg) && obj_get(
            cfg,
            "secret"@,
        ) == obj_get(config_of(stored)->Some_0, "secret"@),
{
    let o = stored->Obj_0;
    let cfg = obj_get(o, "channel_config"@)->Some_0->Obj_0;
    let hidden = obj_put(cfg, "secret"@, JsonV::Str("***"@));
    law_get_after_put(cfg, "secret"@, JsonV::Str("***"@), "secret"@);
    law_get_after_put(o, "channel_config"@, JsonV::Obj(hidden), "channel_config"@);
    let m = obj_put(o, "channel_config"@, JsonV::Obj(hidden));
    let s = obj_get(cfg, "secret"@)->Some_0;
    let kept = obj_put(hidden, "secret"@, s);
    law_get_after_put(hidden, "secret"@, s, "secret"@);
    law_get_after_put(m, "channel_config"@, JsonV::Obj(kept), "channel_config"@);
}

/// The channel of a subscription that is saved, which must name its target and its dictionary.
pub fn check_subscription(body: &Json) -> (r: Result<String, String>)
    ensures
        match r {
            Ok(c) => trimmed(text_at(body@, "target_sys"@)).len() > 0 && trimmed(
                text_at(body@, "dict_code"@),
            ).len() > 0 && c@ == text_or(body@, "channel"@, "webhook"@),
            Err(e) => (trimmed(text_at(body@, "target_sys"@)).len() == 0 || trimmed(
                text_at(body@, "dict_code"@),
            ).len() == 0) && e@ == "target_sys / dict_code 不能为空"@,
        },
{
    let target = trim(text_member(body, "target_sys").as_str());
    let dict = trim(text_member(body, "dict_code").as_str());
    if target.as_str().is_empty() || dict.as_str().is_empty() {
        return Err("target_sys / dict_code 不能为空".to_owned());
    }
    Ok(text_or_default(body, "channel", "webhook"))
}

/// What is said of a channel that is not there.
pub open spec fn no_channel(channel: Seq<char>) -> Seq<char> {
    "通道 "@ + channel + " 未注册或未启用"@
}

fn channel_error(channel: &str) -> (r: String)
    ensures
        r@ == no_channel(channel@),
{
    let mut s: String = "通道 ".to_owned();
    s.append(channel);
    s.append(" 未注册或未启用");
    s
}

/// Refuses a channel that is not there; those that pull need none.
pub fn check_channel(channel: &str, registered: bool) -> (r: Result<(), String>)
    ensures
        match r {
            Ok(_) => registered || channel@ == "rest_pull"@,
            Err(e) => !registered && channel@ != "rest_pull"@ && e@ == no_channel(channel@),
        },
{
    if registered || same_text(channel, "rest_pull") {
        Ok(())
    } else {
        Err(channel_error(channel))
    }
}

/// A new subscription with who made it; one that has an id stays as it is.
pub open spec fn with_creator(body: ObjV, user: Option<Seq<char>>) -> ObjV {
    if json_i64(obj_get(body, "id"@)) is Some {
        body
    } else {
        obj_put(body, "created_by"@, opt_value(user))
    }
}

/// Notes who made a new subscription.
pub fn note_creator(body: Object, user: Option<&str>) -> (r: Object)
    ensures
        r@ == with_creator(body@, opt_str(user)),
{
    let known: Option<i64> = match body.get("id") {
        Some(v) => v.as_i64(),
        None => None,
    };
    match known {
        Some(_) => body,
        None => {
            let by: Json = match user {
                Some(u) => Json::string(u),
                None => Json::Null,
            };
            put(body, "created_by", by)
        },
    }
}

/// A subscription to be saved, with its channel, its secret as it is stored.
#[derive(Debug)]
pub struct SubscriptionDraft {
    pub channel: String,
    pub body: Json,
}

/// A subscription with the secret that is stored, where it comes back hidden.
pub open spec fn unmasked(body: JsonV, stored: Option<JsonV>) -> JsonV {
    match stored {
        Some(s) => if comes_masked(body) && json_i64(json_get(body, "id"@)) is Some {
            with_secret(body, s)
        } else {
            body
        },
        None => body,
    }
}

/// Checks a subscription to be saved and keeps its secret, given what is stored of it.
pub fn draft_subscription(body: Json, stored: Option<&Json>) -> (r: Result<
    SubscriptionDraft,
    String,
>)
    ensures
        if trimmed(text_at(body@, "target_sys"@)).len() == 0 || trimmed(
            text_at(body@, "dict_code"@),
        ).len() == 0 {
            r matches Err(e) && e@ == "target_sys / dict_code 不能为空"@
        } else {
            r matches Ok(d) && d.channel@ == text_or(body@, "channel"@, "webhook"@) && d.body@
                == unmasked(
                body@,
                match stored {
                    Some(s) => Some(s@),
                    None => None,
                },
            )
        },
{
    let channel = match check_subscription(&body) {
        Ok(c) => c,
        Err(e) => {
            return Err(e);
        },
    };
    let mut kept = body;
    if let Some(s) = stored {
        if kept_secret_of(&kept).is_some() {
            keep_secret_if_masked(&mut kept, s);
        }
    }
    Ok(SubscriptionDraft { channel, body: kept })
}

/// The write of a subscription, or why it is refused: its channel is not there, or does not take
/// its settings.
pub open spec fn saving(
    channel: Seq<char>,
    body: JsonV,
    registered: bool,
    config_error: Option<Seq<char>>,
    user: Option<Seq<char>>,
    new_id: i64,
) -> Result<(i64, StatementV), Seq<char>> {
    if !registered && channel != "rest_pull"@ {
        Err(no_channel(channel))
    } else if registered && config_error is Some {
        Err(config_error->Some_0)
    } else {
        let noted = match body {
            JsonV::Obj(o) => JsonV::Obj(with_creator(o, user)),
            other => other,
        };
        Ok((subscription_id(noted, new_id), subscription_statement(noted, new_id)))
    }
}

/// Saves a subscription: its channel must be there and take its settings, unless it pulls; a new
/// one is noted with who made it.
pub fn mdm_subscriptions_save(
    draft: SubscriptionDraft,
    registered: bool,
    config_error: Option<&str>,
    user: Option<&str>,
    new_id: i64,
) -> (r: Result<SubscriptionWrite, String>)
    ensures
        match saving(
            draft.channel@,
            draft.body@,
            registered,
            opt_str(config_error),
            opt_str(user),
            new_id,
        ) {
            Err(e) => r matches Err(x) && x@ == e,
            Ok(t) => r matches Ok(w) && w.id == t.0 && w.statement@ == t.1,
        },
{
    if let Err(e) = check_channel(draft.channel.as_str(), registered) {
        return Err(e);
    }
    if registered {
        if let Some(e) = config_error {
            return Err(e.to_owned());
        }
    }
    let body: Json = match draft.body {
        Json::Obj(o) => Json::Obj(note_creator(o, user)),
        other => other,
    };
    Ok(upsert_subscription(&body, new_id))
}

/// The id that a request names.
pub fn required_id(body: &Json) -> (r: Result<i64, String>)
    ensures
        match r {
            Ok(i) => json_i64(json_get(body@, "id"@)) == Some(i),
            Err(e) => json_i64(json_get(body@, "id"@)) is None && e@ == "id 不能为空"@,
        },
{
    match body.get("id") {
        Some(v) => match v.as_i64() {
            Some(i) => Ok(i),
            None => Err("id 不能为空".to_owned()),
        },
        None => Err("id 不能为空".to_owned()),
    }
}

/// What is said of a subscription that is not there.
pub open spec fn no_subscription(id: i64) -> Seq<char> {
    "订阅 "@ + dec_int(id as int) + " 不存在"@
}

/// The delete of a subscription, or why it is not deleted: it is not there, or it runs.
pub open spec fn deletion(id: i64, sub: Option<JsonV>) -> Result<StatementV, Seq<char>> {
    match sub {
        None => Err(no_subscription(id)),
        Some(v) => if json_bool(json_get(v, "active"@)) == Some(true) {
            Err("订阅启用中，请先停用再删除（投递流水将保留审计）"@)
        } else {
            Ok(
                StatementV {
                    sql: "DELETE FROM md_subscription WHERE id = $1"@,
                    params: seq![SqlV::Int(id)],
                },
            )
        },
    }
}

/// Deletes a subscription; one that runs is not deleted.
pub fn mdm_subscriptions_delete(id: i64, sub: Option<&Json>) -> (r: Result<Statement, String>)
    ensures
        match deletion(id, opt_json(sub)) {
            Err(e) => r matches Err(x) && x@ == e,
            Ok(t) => r matches Ok(s) && s@ == t,
        },
{
    let v = match sub {
        Some(v) => v,
        None => {
            return Err(about_id("订阅 ", id, " 不存在"));
        },
    };
    let runs = match v.get("active") {
        Some(Json::Bool(b)) => *b,
        _ => false,
    };
    if runs {
        return Err(
            "订阅启用中，请先停用再删除（投递流水将保留审计）".to_owned(),
        );
    }
    Ok(delete_subscription(id))
}

/// The start or stop of the subscription that a request names; it is started unless asked
/// otherwise.
pub open spec fn switching(body: JsonV) -> Result<StatementV, Seq<char>> {
    match json_i64(json_get(body, "id"@)) {
        None => Err("id 不能为空"@),
        Some(id) => Ok(
            StatementV {
                sql: "UPDATE md_subscription SET active = $1, updated_at = now() WHERE id = $2"@,
                params: seq![
                    SqlV::Bool(json_bool(json_get(body, "active"@)) != Some(false)),
                    SqlV::Int(id),
                ],
            },
        ),
    }
}

/// Starts or stops a subscription; it is started unless asked otherwise.
pub fn activate_subscription(body: &Json) -> (r: Result<Statement, String>)
    ensures
        match switching(body@) {
            Err(e) => r matches Err(x) && x@ == e,
            Ok(t) => r matches Ok(s) && s@ == t,
        },
{
    let id: i64 = match required_id(body) {
        Ok(i) => i,
        Err(e) => {
            return Err(e);
        },
    };
    let active = match body.get("active") {
        Some(Json::Bool(b)) => *b,
        _ => true,
    };
    Ok(set_subscription_active(id, active))
}

/// Answers a start or stop, given how many rows changed.
pub fn mdm_subscriptions_set_active(id: i64, changed: u64) -> (r: Result<Json, String>)
    ensures
        match r {
            Ok(v) => changed > 0 && v@ == JsonV::Obj(
                obj_put(Seq::empty(), "updated"@, JsonV::Num(NumberV::PosInt(changed))),
            ),
            Err(e) => changed == 0 && e@ == no_subscription(id),
        },
{
    if changed == 0 {
        return Err(about_id("订阅 ", id, " 不存在"));
    }
    Ok(Json::Obj(put(Object::new(), "updated", Json::Num(Number::PosInt(changed)))))
}

/// A count under a name, as it is answered.
pub fn count_answer(name: &str, n: u64) -> (r: Json)
    ensures
        r@ == JsonV::Obj(obj_put(Seq::empty(), name@, JsonV::Num(NumberV::PosInt(n)))),
{
    Json::Obj(put(Object::new(), name, Json::Num(Number::PosInt(n))))
}

/// An id under its name, as it is answered.
pub fn id_answer(name: &str, id: i64) -> (r: Json)
    ensures
        r@ == JsonV::Obj(obj_put(Seq::empty(), name@, JsonV::Num(number_of(id)))),
{
    Json::Obj(put(Object::new(), name, Json::integer(id)))
}

/// A channel to be tested, with its settings.
#[derive(Debug)]
pub struct TestTarget {
    pub channel: String,
    pub config: Json,
}

/// The settings that a request names, none where it names none.
pub open spec fn named_config(body: JsonV) -> JsonV {
    match json_get(body, "channel_config"@) {
        Some(c) => c,
        None => JsonV::Obj(Seq::empty()),
    }
}

/// The channel to be tested: that of a subscription, or the one that the request names.
pub fn test_target(body: &Json, sub: Option<&Json>) -> (r: Result<TestTarget, String>)
    ensures
        match json_i64(json_get(body@, "id"@)) {
            Some(id) => match sub {
                None => r matches Err(e) && e@ == no_subscription(id),
                Some(s) => r matches Ok(t) && t.channel@ == text_at(s@, "channel"@) && t.config@
                    == channel_settings(s@),
            },
            None => r matches Ok(t) && t.channel@ == text_at(body@, "channel"@) && t.config@
                == named_config(body@),
        },
{
    let id: Option<i64> = match body.get("id") {
        Some(v) => v.as_i64(),
        None => None,
    };
    match id {
        Some(i) => match sub {
            None => Err(about_id("订阅 ", i, " 不存在")),
            Some(s) => Ok(
                TestTarget {
                    channel: text_member(s, "channel"),
                    config: crate::distribution::dispatcher::delivery_plan(s).channel_config,
                },
            ),
        },
        None => {
            let config: Json = match body.get("channel_config") {
                Some(c) => c.clone(),
                None => Json::Obj(Object::new()),
            };
            Ok(TestTarget { channel: text_member(body, "channel"), config })
        },
    }
}

/// Refuses a test of a channel that is not there, or with a secret that is hidden.
pub fn check_test(t: &TestTarget, registered: bool) -> (r: Result<(), String>)
    ensures
        if !registered {
            r matches Err(e) && e@ == no_channel(t.channel@)
        } else if json_str(json_get(t.config@, "secret"@)) == Some("***"@) {
            r matches Err(e) && e@ == "secret 为掩码值，请重新填写或改用已保存订阅测试"@
        } else {
            r is Ok
        },
{
    if !registered {
        return Err(channel_error(t.channel.as_str()));
    }
    if let Some(Json::Str(s)) = t.config.get("secret") {
        if same_text(s.as_str(), "***") {
            return Err(
                "secret 为掩码值，请重新填写或改用已保存订阅测试".to_owned(),
            );
        }
    }
    Ok(())
}

/// Answers a test: whether it went well, what went wrong, and how long it took.
pub fn mdm_subscriptions_test(error: Option<&str>, latency_ms: i64) -> (r: Json)
    ensures
        ({
            let o = obj_put(Seq::empty(), "ok"@, JsonV::Bool(error is None));
            let o = obj_put(
                o,
                "detail"@,
                JsonV::Str(
                    match opt_str(error) {
                        Some(e) => e,
                        None => "连接成功"@,
                    },
                ),
            );
            r@ == JsonV::Obj(obj_put(o, "latencyMs"@, JsonV::Num(number_of(latency_ms))))
        }),
{
    let (ok, detail): (bool, Json) = match error {
        Some(e) => (false, Json::string(e)),
        None => (true, Json::string("连接成功")),
    };
    let o = put(Object::new(), "ok", Json::Bool(ok));
    let o = put(o, "detail", detail);
    Json::Obj(put(o, "latencyMs", Json::integer(latency_ms)))
}

/// A channel as it is offered.
pub open spec fn channel_item(t: Seq<char>) -> JsonV {
    JsonV::Obj(
        obj_put(obj_put(Seq::empty(), "type"@, JsonV::Str(t)), "label"@, JsonV::Str(t)),
    )
}

fn offer_channel(t: &str) -> (r: Json)
    ensures
        r@ == channel_item(t@),
{
    let o = put(Object::new(), "type", Json::string(t));
    Json::Obj(put(o, "label", Json::string(t)))
}

/// Offers the channels that are there, and the one that pulls.
pub fn mdm_subscriptions_channels(types: &Vec<String>) -> (r: Json)
    ensures
        r@ == JsonV::Obj(
            obj_put(
                Seq::empty(),
                "list"@,
                JsonV::Arr(
                    Seq::new(types@.len(), |i: int| channel_item(types@[i]@)).push(
                        channel_item("rest_pull"@),
                    ),
                ),
            ),
        ),
{
    let mut list: Vec<Json> = Vec::new();
    let mut i: usize = 0;
    while i < types.len()
        invariant
            i <= types@.len(),
            list@.len() == i,
            forall|k: int| 0 <= k < i ==> (#[trigger] list@[k])@ == channel_item(types@[k]@),
        decreases types@.len() - i,
    {
        list.push(offer_channel(types[i].as_str()));
        i += 1;
    }
    list.push(offer_channel("rest_pull"));
    assert(values_view(list@) =~= Seq::new(
        types@.len(),
        |i: int| channel_item(types@[i]@),
    ).push(channel_item("rest_pull"@)));
    Json::Obj(put(Object::new(), "list", array(list)))
}

/// How many rows statements changed in all.
pub open spec fn changed_in_all(counts: Seq<u64>) -> nat
    decreases counts.len(),
{
    if counts.len() == 0 {
        0
    } else {
        changed_in_all(counts.drop_last()) + counts.last() as nat
    }
}

/// Answers how many deliveries were made again, given how many each statement made.
pub fn mdm_publish(counts: &Vec<u64>) -> (r: Json)
    ensures
        r@ == JsonV::Obj(
            obj_put(
                Seq::empty(),
                "created"@,
                JsonV::Num(NumberV::PosInt(counter(changed_in_all(counts@)))),
            ),
        ),
{
    let mut created: u64 = 0;
    let mut i: usize = 0;
    assert(counts@.take(0) =~= Seq::<u64>::empty());
    while i < counts.len()
        invariant
            i <= counts@.len(),
            created == counter(changed_in_all(counts@.take(i as int))),
        decreases counts@.len() - i,
    {
        assert(counts@.take(i + 1).drop_last() =~= counts@.take(i as int));
        created = created.saturating_add(counts[i]);
        i += 1;
    }
    assert(counts@.take(counts@.len() as int) =~= counts@);
    count_answer("created", created)
}

} // verus!
