//! Deliveries, consumers and snapshots, as they are asked for and answered.

use crate::distribution::dispatcher::{int_or, integer_or};
use crate::distribution::transform::{int_at, int_member, text_at, text_member};
use crate::handlers::merge::{page_answer, page_value};
use crate::handlers::put;
use crate::json::{
    array, json_get, json_i64, number_of, obj_put, values_view, Json, JsonV, Object,
};
use crate::merge_parts::about_id;
use crate::sql::{params_view, text_param, SqlV, SqlValue, Statement, StatementV};
use crate::store::dct_accessor::id_params;
use crate::store::dispatch_store::{
    add_cast, filter_cast, integer_list, integers_at, skip_dispatches, text_wanted,
    upsert_consumer_offset, wanted_text, OffsetWrite,
};
use crate::store::query::{
    build_page, filter_of, page_offset, page_or_default, page_query, size_or_default, statement,
    Filter, FilterV, PageQuery, PageText,
};
use crate::sql::slots;
use crate::text::{dec_int, join, trim, trimmed};
use vstd::prelude::*;

verus! {

/// A request for one delivery.
#[derive(Debug)]
pub struct DispatchDetailQuery {
    pub id: i64,
}

/// Answers with a page of deliveries; the first page of twenty unless asked otherwise.
pub fn mdm_dispatches_query(body: &Json, list: Vec<Json>, total: i64) -> (r: Json)
    ensures
        r@ == page_value(
            values_view(list@),
            total,
            int_or(body@, "page"@, 1),
            int_or(body@, "pageSize"@, 20),
        ),
{
    page_answer(list, total, integer_or(body, "page", 1), integer_or(body, "pageSize", 20))
}

/// Answers with one delivery, or that there is none.
pub fn mdm_dispatches_detail(id: i64, row: Option<Json>) -> (r: Result<Json, String>)
    ensures
        match row {
            Some(v) => r == Ok::<Json, String>(v),
            None => r matches Err(e) && e@ == "投递实例 "@ + dec_int(id as int) + " 不存在"@,
        },
{
    match row {
        Some(v) => Ok(v),
        None => Err(about_id("投递实例 ", id, " 不存在")),
    }
}

/// Skips the deliveries that a request names; it must name some.
pub fn mdm_dispatches_skip(body: &Json) -> (r: Result<Statement, String>)
    ensures
        if integers_at(body@, "ids"@).len() == 0 {
            r matches Err(e) && e@ == "ids 不能为空"@
        } else {
            r matches Ok(s) && s@ == (StatementV {
                sql: "UPDATE md_dispatch_log SET status = 'skipped', next_retry_at = NULL, updated_at = now() WHERE id IN ("@
                    + join(slots(1, integers_at(body@, "ids"@).len()), ","@)
                    + ") AND status = 'dead'"@,
                params: id_params(integers_at(body@, "ids"@)),
            })
        },
{
    let ids = integer_list(body, "ids");
    match skip_dispatches(ids.as_slice()) {
        Some(s) => Ok(s),
        None => Err("ids 不能为空".to_owned()),
    }
}

/// Notes how far a consumer has read; it must name itself, the dictionary and a number.
pub fn mdm_events_ack(body: &Json, new_id: i64) -> (r: Result<OffsetWrite, String>)
    ensures
        match json_i64(json_get(body@, "seq"@)) {
            None => r matches Err(e) && e@ == "seq 不能为空"@,
            Some(seq) => if trimmed(text_at(body@, "consumerId"@)).len() == 0 || trimmed(
                text_at(body@, "dictCode"@),
            ).len() == 0 {
                r matches Err(e) && e@ == "consumerId / dictCode 不能为空"@
            } else {
                r matches Ok(w) && w.notes(
                    new_id,
                    text_at(body@, "consumerId"@),
                    text_at(body@, "dictCode"@),
                    seq,
                )
            },
        },
{
    let consumer = text_member(body, "consumerId");
    let dict = text_member(body, "dictCode");
    let seq: i64 = match body.get("seq") {
        Some(v) => match v.as_i64() {
            Some(n) => n,
            None => {
                return Err("seq 不能为空".to_owned());
            },
        },
        None => {
            return Err("seq 不能为空".to_owned());
        },
    };
    if trim(consumer.as_str()).as_str().is_empty() || trim(dict.as_str()).as_str().is_empty() {
        return Err("consumerId / dictCode 不能为空".to_owned());
    }
    Ok(upsert_consumer_offset(new_id, consumer.as_str(), dict.as_str(), seq))
}

/// The dictionary of a snapshot, which must be named.
pub fn snapshot_dict(body: &Json) -> (r: Result<String, String>)
    ensures
        match r {
            Ok(d) => trimmed(text_at(body@, "dictCode"@)).len() > 0 && d@ == text_at(
                body@,
                "dictCode"@,
            ),
            Err(e) => trimmed(text_at(body@, "dictCode"@)).len() == 0 && e@
                == "dictCode 不能为空"@,
        },
{
    let dict = text_member(body, "dictCode");
    if trim(dict.as_str()).as_str().is_empty() {
        return Err("dictCode 不能为空".to_owned());
    }
    Ok(dict)
}

/// What is said of a dictionary without a table.
pub fn unknown_dict(dict: &str) -> (r: String)
    ensures
        r@ == "字典 "@ + dict@ + " 的 DCT 元数据不存在"@,
{
    let mut s: String = "字典 ".to_owned();
    s.append(dict);
    s.append(" 的 DCT 元数据不存在");
    s
}

/// The filter of a snapshot: records that are published, and changed between two days, both
/// included.
pub open spec fn snapshot_filter(body: JsonV) -> FilterV {
    let f = filter_cast(
        filter_of("lifecycle_status = 'published'"@),
        "update_time >= "@,
        "::text::timestamptz"@,
        wanted_text(body, "updatedFrom"@),
    );
    filter_cast(
        f,
        "update_time < ("@,
        "::text::timestamptz) + interval '1 day'"@,
        wanted_text(body, "updatedTo"@),
    )
}

/// A page of a snapshot, the last changed first.
pub fn snapshot_page(table: &str, body: &Json) -> (r: PageQuery)
    requires
        page_offset(int_at(body@, "page"@), int_at(body@, "pageSize"@)) <= i64::MAX,
    ensures
        r@ == page_query(
            table@,
            "*"@,
            table@,
            "update_time DESC, id DESC"@,
            snapshot_filter(body@),
            int_at(body@, "page"@),
            int_at(body@, "pageSize"@),
        ),
{
    let mut f = Filter::new("lifecycle_status = 'published'");
    add_cast(&mut f, "update_time >= ", "::text::timestamptz", text_wanted(body, "updatedFrom"));
    add_cast(
        &mut f,
        "update_time < (",
        "::text::timestamptz) + interval '1 day'",
        text_wanted(body, "updatedTo"),
    );
    let t = PageText {
        count_from: table,
        columns: "*",
        list_from: table,
        order: "update_time DESC, id DESC",
    };
    build_page(&t, f, int_member(body, "page"), int_member(body, "pageSize"))
}

/// The number of the last event of a dictionary.
pub fn snapshot_max_seq(dict: &str) -> (r: Statement)
    ensures
        r.sql@ == "SELECT COALESCE(MAX(seq), 0) AS m FROM md_event_log WHERE dict_code = $1"@,
        params_view(r.params@) == seq![SqlV::Text(dict@)],
{
    let mut params: Vec<SqlValue> = Vec::new();
    params.push(text_param(dict));
    assert(params_view(params@) =~= seq![SqlV::Text(dict@)]);
    statement(
        "SELECT COALESCE(MAX(seq), 0) AS m FROM md_event_log WHERE dict_code = $1",
        params,
    )
}

/// The number of the last event of a dictionary, from the rows found.
pub fn read_max_seq(rows: &Vec<Json>) -> (r: i64)
    ensures
        r == (if rows@.len() > 0 {
            int_at(rows@[0]@, "m"@)
        } else {
            0
        }),
{
    if rows.len() > 0 {
        int_member(&rows[0], "m")
    } else {
        0
    }
}

/// A page of a snapshot as it is answered.
pub open spec fn snapshot_value(body: JsonV, list: Seq<JsonV>, total: i64, max_seq: i64) -> JsonV {
    let o = obj_put(Seq::empty(), "list"@, JsonV::Arr(list));
    let o = obj_put(o, "total"@, JsonV::Num(number_of(total)));
    let o = obj_put(o, "page"@, JsonV::Num(number_of(page_or_default(int_at(body, "page"@)))));
    let o = obj_put(
        o,
        "pageSize"@,
        JsonV::Num(number_of(size_or_default(int_at(body, "pageSize"@)))),
    );
    JsonV::Obj(obj_put(o, "maxSeq"@, JsonV::Num(number_of(max_seq))))
}

/// Answers with a page of a snapshot, and the number of the event from which to go on.
pub fn mdm_records_snapshot(body: &Json, list: Vec<Json>, total: i64, max_seq: i64) -> (r: Json)
    ensures
        r@ == snapshot_value(body@, values_view(list@), total, max_seq),
{
    let page: i64 = int_member(body, "page");
    let size: i64 = int_member(body, "pageSize");
    let o = put(Object::new(), "list", array(list));
    let o = put(o, "total", Json::integer(total));
    let o = put(
        o,
        "page",
        Json::integer(
            if page > 0 {
                page
            } else {
                1
            },
        ),
    );
    let o = put(
        o,
        "pageSize",
        Json::integer(
            if size > 0 {
                size
            } else {
                20
            },
        ),
    );
    Json::Obj(put(o, "maxSeq", Json::integer(max_seq)))
}

} // verus!
