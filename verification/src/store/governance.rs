//! Audit trail, events and subscriptions.

use crate::distribution::dispatcher::{int_or, integer_or};
use crate::distribution::transform::{int_at, int_member, text_at, text_member};
use crate::json::{json_bool, json_get, json_str, values_view, Json, JsonV};
use crate::match_algo::keys_view;
use crate::outside::{json_text, value_text};
use crate::sql::{
    opt_text_v, params_view, text_param, SqlType, SqlV, SqlValue, Statement, StatementV,
};
use crate::store::dispatch_store::{
    add_cast, filter_cast, text_or, text_or_default, text_wanted, wanted_text,
};
use crate::store::jsonb::{parse_rows, parsed_rows};
use crate::store::md_accessor::{json_param, opt_json_v};
use crate::store::query::{
    build_page, filter_int, filter_of, filter_on, filter_text, opt_str, page_offset, page_query,
    statement, Filter, FilterV, PageQuery, PageText,
};
use crate::text::{eq_ignore_case, same_ascii_case};
use vstd::prelude::*;

verus! {

/// A page of the audit trail, newest first.
pub fn list_audit(dict_code: Option<&str>, record_id: Option<i64>, page: i64, page_size: i64) -> (r:
    PageQuery)
    requires
        page_offset(page, page_size) <= i64::MAX,
    ensures
        r@ == page_query(
            "md_audit"@,
            "id, dict_code, record_id, version, action, source_cr_id, field, old_value, new_value, operated_by, operated_at"@,
            "md_audit"@,
            "operated_at DESC, id DESC"@,
            filter_int(
                filter_text(filter_of("1=1"@), "dict_code = "@, opt_str(dict_code)),
                "record_id = "@,
                record_id,
            ),
            page,
            page_size,
        ),
{
    let mut f = Filter::new("1=1");
    f.text("dict_code = ", dict_code);
    f.integer("record_id = ", record_id);
    let t = PageText {
        count_from: "md_audit",
        columns: "id, dict_code, record_id, version, action, source_cr_id, field, old_value, new_value, operated_by, operated_at",
        list_from: "md_audit",
        order: "operated_at DESC, id DESC",
    };
    build_page(&t, f, page, page_size)
}

/// The order of a list of events: backwards only where that is asked for.
pub open spec fn event_order(order: Option<Seq<char>>) -> Seq<char> {
    match order {
        Some(o) => if same_ascii_case(o, "desc"@) {
            "seq DESC"@
        } else {
            "seq ASC"@
        },
        None => "seq ASC"@,
    }
}

/// A page of events: of one dictionary or of all, those behind a number or all.
pub fn list_events(
    dict_code: Option<&str>,
    since: Option<i64>,
    order: Option<&str>,
    page: i64,
    page_size: i64,
) -> (r: PageQuery)
    requires
        page_offset(page, page_size) <= i64::MAX,
    ensures
        r@ == page_query(
            "md_event_log"@,
            "id, seq, dict_code, record_id, event_type, payload, emitted_at"@,
            "md_event_log"@,
            event_order(opt_str(order)),
            filter_int(
                filter_text(filter_of("1=1"@), "dict_code = "@, opt_str(dict_code)),
                "seq > "@,
                since,
            ),
            page,
            page_size,
        ),
{
    let mut f = Filter::new("1=1");
    f.text("dict_code = ", dict_code);
    f.integer("seq > ", since);
    let backwards = match order {
        Some(o) => eq_ignore_case(o, "desc"),
        None => false,
    };
    let t = PageText {
        count_from: "md_event_log",
        columns: "id, seq, dict_code, record_id, event_type, payload, emitted_at",
        list_from: "md_event_log",
        order: if backwards {
            "seq DESC"
        } else {
            "seq ASC"
        },
    };
    build_page(&t, f, page, page_size)
}

/// The filter of a list of subscriptions.
pub open spec fn subscription_filter(q: JsonV) -> FilterV {
    let f = filter_cast(filter_of("1=1"@), "target_sys = "@, ""@, wanted_text(q, "targetSys"@));
    let f = filter_cast(f, "dict_code = "@, ""@, wanted_text(q, "dictCode"@));
    let f = filter_cast(f, "channel = "@, ""@, wanted_text(q, "channel"@));
    match json_bool(json_get(q, "active"@)) {
        Some(b) => filter_on(f, "active = "@, ""@, SqlV::Bool(b)),
        None => f,
    }
}

/// A page of subscriptions, newest first, each with how its deliveries stand.
pub fn list_subscriptions(q: &Json) -> (r: PageQuery)
    requires
        page_offset(int_at(q@, "page"@), int_at(q@, "pageSize"@)) <= i64::MAX,
    ensures
        r@ == page_query(
            "md_subscription"@,
            "s.id, s.target_sys, s.dict_code, s.filter, s.field_map, s.channel, s.active, s.name, s.description, s.channel_config, s.event_types, s.retry_max, s.timeout_ms, s.batch_size, s.created_by, s.created_at, s.updated_at, COALESCE(st.total_24h, 0) AS stat_total_24h, COALESCE(st.ok_24h, 0) AS stat_ok_24h, COALESCE(bk.backlog, 0) AS stat_backlog"@,
            "md_subscription s LEFT JOIN (SELECT subscription_id, COUNT(*) AS total_24h, COUNT(*) FILTER (WHERE status = 'delivered') AS ok_24h FROM md_dispatch_log WHERE updated_at > now() - interval '24 hours' GROUP BY subscription_id) st ON st.subscription_id = s.id LEFT JOIN (SELECT subscription_id, COUNT(*) AS backlog FROM md_dispatch_log WHERE status IN ('pending','running','failed') GROUP BY subscription_id) bk ON bk.subscription_id = s.id"@,
            "s.created_at DESC, s.id DESC"@,
            subscription_filter(q@),
            int_at(q@, "page"@),
            int_at(q@, "pageSize"@),
        ),
{
    let mut f = Filter::new("1=1");
    add_cast(&mut f, "target_sys = ", "", text_wanted(q, "targetSys"));
    add_cast(&mut f, "dict_code = ", "", text_wanted(q, "dictCode"));
    add_cast(&mut f, "channel = ", "", text_wanted(q, "channel"));
    if let Some(Json::Bool(b)) = q.get("active") {
        f.on("active = ", "", SqlValue::Bool(*b));
    }
    let t = PageText {
        count_from: "md_subscription",
        columns: "s.id, s.target_sys, s.dict_code, s.filter, s.field_map, s.channel, s.active, s.name, s.description, s.channel_config, s.event_types, s.retry_max, s.timeout_ms, s.batch_size, s.created_by, s.created_at, s.updated_at, COALESCE(st.total_24h, 0) AS stat_total_24h, COALESCE(st.ok_24h, 0) AS stat_ok_24h, COALESCE(bk.backlog, 0) AS stat_backlog",
        list_from: "md_subscription s LEFT JOIN (SELECT subscription_id, COUNT(*) AS total_24h, COUNT(*) FILTER (WHERE status = 'delivered') AS ok_24h FROM md_dispatch_log WHERE updated_at > now() - interval '24 hours' GROUP BY subscription_id) st ON st.subscription_id = s.id LEFT JOIN (SELECT subscription_id, COUNT(*) AS backlog FROM md_dispatch_log WHERE status IN ('pending','running','failed') GROUP BY subscription_id) bk ON bk.subscription_id = s.id",
        order: "s.created_at DESC, s.id DESC",
    };
    build_page(&t, f, int_member(q, "page"), int_member(q, "pageSize"))
}

/// A member as JSON text, or a default text where it is missing.
pub open spec fn json_or(body: JsonV, k: Seq<char>, default: Seq<char>) -> SqlV {
    match json_get(body, k) {
        Some(v) => SqlV::Json(json_text(v)),
        None => SqlV::Json(default),
    }
}

fn json_or_default(body: &Json, k: &str, default: &str) -> (r: SqlValue)
    ensures
        r@ == json_or(body@, k@, default@),
{
    match body.get(k) {
        Some(v) => SqlValue::Json(value_text(v)),
        None => SqlValue::Json(default.to_owned()),
    }
}

fn opt_text_param(body: &Json, k: &str) -> (r: SqlValue)
    ensures
        r@ == opt_text_v(json_str(json_get(body@, k@))),
{
    match body.get(k) {
        Some(Json::Str(s)) => text_param(s.as_str()),
        _ => SqlValue::NullTyped(SqlType::Text),
    }
}

/// Whether a subscription is to run; it is unless asked otherwise.
pub open spec fn active_or_default(body: JsonV) -> bool {
    match json_bool(json_get(body, "active"@)) {
        Some(b) => b,
        None => true,
    }
}

/// The id of a subscription: its own, or a new one.
pub open spec fn subscription_id(body: JsonV, new_id: i64) -> i64 {
    int_or(body, "id"@, new_id)
}

/// The write of a subscription: what is missing takes its default.
pub open spec fn subscription_statement(body: JsonV, new_id: i64) -> StatementV {
    StatementV {
        sql: "INSERT INTO md_subscription (id, target_sys, dict_code, filter, field_map, channel, active, name, description, channel_config, event_types, retry_max, timeout_ms, batch_size, created_by, created_at, updated_at) VALUES ($1,$2,$3,$4,$5,$6,$7,$8,$9,$10,$11,$12,$13,$14,$15,now(),now()) ON CONFLICT (id) DO UPDATE SET target_sys=EXCLUDED.target_sys, dict_code=EXCLUDED.dict_code, filter=EXCLUDED.filter, field_map=EXCLUDED.field_map, channel=EXCLUDED.channel, active=EXCLUDED.active, name=EXCLUDED.name, description=EXCLUDED.description, channel_config=EXCLUDED.channel_config, event_types=EXCLUDED.event_types, retry_max=EXCLUDED.retry_max, timeout_ms=EXCLUDED.timeout_ms, batch_size=EXCLUDED.batch_size, updated_at=now()"@,
        params: seq![
            SqlV::Int(subscription_id(body, new_id)),
            SqlV::Text(text_at(body, "target_sys"@)),
            SqlV::Text(text_at(body, "dict_code"@)),
            opt_json_v(json_get(body, "filter"@)),
            opt_json_v(json_get(body, "field_map"@)),
            SqlV::Text(text_or(body, "channel"@, "webhook"@)),
            SqlV::Bool(active_or_default(body)),
            opt_text_v(json_str(json_get(body, "name"@))),
            opt_text_v(json_str(json_get(body, "description"@))),
            json_or(body, "channel_config"@, "{}"@),
            json_or(body, "event_types"@, "[]"@),
            SqlV::Int(int_or(body, "retry_max"@, 8)),
            SqlV::Int(int_or(body, "timeout_ms"@, 10000)),
            SqlV::Int(int_or(body, "batch_size"@, 50)),
            opt_text_v(json_str(json_get(body, "created_by"@))),
        ],
    }
}

/// A write together with the id that it is under.
#[derive(Debug)]
pub struct SubscriptionWrite {
    pub id: i64,
    pub statement: Statement,
}

/// Writes a subscription under its own id, or under a new one.
pub fn upsert_subscription(body: &Json, new_id: i64) -> (r: SubscriptionWrite)
    ensures
        r.id == subscription_id(body@, new_id),
        r.statement@ == subscription_statement(body@, new_id),
{
    let id: i64 = integer_or(body, "id", new_id);
    let active = match body.get("active") {
        Some(Json::Bool(b)) => *b,
        _ => true,
    };
    let mut params: Vec<SqlValue> = Vec::new();
    params.push(SqlValue::Int(id));
    params.push(SqlValue::Text(text_member(body, "target_sys")));
    params.push(SqlValue::Text(text_member(body, "dict_code")));
    params.push(json_param(body.get("filter")));
    params.push(json_param(body.get("field_map")));
    params.push(SqlValue::Text(text_or_default(body, "channel", "webhook")));
    params.push(SqlValue::Bool(active));
    params.push(opt_text_param(body, "name"));
    params.push(opt_text_param(body, "description"));
    params.push(json_or_default(body, "channel_config", "{}"));
    params.push(json_or_default(body, "event_types", "[]"));
    params.push(SqlValue::Int(integer_or(body, "retry_max", 8)));
    params.push(SqlValue::Int(integer_or(body, "timeout_ms", 10000)));
    params.push(SqlValue::Int(integer_or(body, "batch_size", 50)));
    params.push(opt_text_param(body, "created_by"));
    assert(params_view(params@) =~= subscription_statement(body@, new_id).params);
    let s = statement(
        "INSERT INTO md_subscription (id, target_sys, dict_code, filter, field_map, channel, active, name, description, channel_config, event_types, retry_max, timeout_ms, batch_size, created_by, created_at, updated_at) VALUES ($1,$2,$3,$4,$5,$6,$7,$8,$9,$10,$11,$12,$13,$14,$15,now(),now()) ON CONFLICT (id) DO UPDATE SET target_sys=EXCLUDED.target_sys, dict_code=EXCLUDED.dict_code, filter=EXCLUDED.filter, field_map=EXCLUDED.field_map, channel=EXCLUDED.channel, active=EXCLUDED.active, name=EXCLUDED.name, description=EXCLUDED.description, channel_config=EXCLUDED.channel_config, event_types=EXCLUDED.event_types, retry_max=EXCLUDED.retry_max, timeout_ms=EXCLUDED.timeout_ms, batch_size=EXCLUDED.batch_size, updated_at=now()",
        params,
    );
    SubscriptionWrite { id, statement: s }
}

/// Deletes a subscription.
pub fn delete_subscription(id: i64) -> (r: Statement)
    ensures
        r.sql@ == "DELETE FROM md_subscription WHERE id = $1"@,
        params_view(r.params@) == seq![SqlV::Int(id)],
{
    let mut params: Vec<SqlValue> = Vec::new();
    params.push(SqlValue::Int(id));
    assert(params_view(params@) =~= seq![SqlV::Int(id)]);
    statement("DELETE FROM md_subscription WHERE id = $1", params)
}

/// Starts or stops a subscription.
pub fn set_subscription_active(id: i64, active: bool) -> (r: Statement)
    ensures
        r.sql@ == "UPDATE md_subscription SET active = $1, updated_at = now() WHERE id = $2"@,
        params_view(r.params@) == seq![SqlV::Bool(active), SqlV::Int(id)],
{
    let mut params: Vec<SqlValue> = Vec::new();
    params.push(SqlValue::Bool(active));
    params.push(SqlValue::Int(id));
    assert(params_view(params@) =~= seq![SqlV::Bool(active), SqlV::Int(id)]);
    statement("UPDATE md_subscription SET active = $1, updated_at = now() WHERE id = $2", params)
}

/// A subscription by id.
pub fn get_subscription(id: i64) -> (r: Statement)
    ensures
        r.sql@ == "SELECT * FROM md_subscription WHERE id = $1"@,
        params_view(r.params@) == seq![SqlV::Int(id)],
{
    let mut params: Vec<SqlValue> = Vec::new();
    params.push(SqlValue::Int(id));
    assert(params_view(params@) =~= seq![SqlV::Int(id)]);
    statement("SELECT * FROM md_subscription WHERE id = $1", params)
}

/// The subscriptions, from the rows found: their columns with JSON are read back.
pub fn read_subscriptions(rows: &Vec<Json>) -> (r: Vec<Json>)
    ensures
        values_view(r@) == parsed_rows(
            values_view(rows@),
            seq!["filter"@, "field_map"@, "channel_config"@, "event_types"@],
        ),
{
    let fields = ["filter", "field_map", "channel_config", "event_types"];
    assert(keys_view(fields@) =~= seq!["filter"@, "field_map"@, "channel_config"@, "event_types"@]);
    parse_rows(rows, fields.as_slice())
}

} // verus!
