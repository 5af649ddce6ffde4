//! Statements on the audit log, the event log, the cross references and the state of requests.

use crate::json::{Json, JsonV};
use crate::match_algo::keys_view;
use crate::outside::{json_text, value_text};
use crate::sql::{
    opt_int, opt_int_v, params_view, slot, slot_list, slot_text, slots, text_param, SqlType, SqlV,
    SqlValue, Statement, StatementV,
};
use crate::store::query::{opt_str, statement};
use crate::text::{join, joined};
use vstd::prelude::*;

verus! {

/// The view of an optional borrowed value.
pub open spec fn opt_json(v: Option<&Json>) -> Option<JsonV> {
    match v {
        Some(x) => Some(x@),
        None => None,
    }
}

/// The parameter for an optional value as JSON text.
pub open spec fn opt_json_v(v: Option<JsonV>) -> SqlV {
    match v {
        Some(x) => SqlV::Json(json_text(x)),
        None => SqlV::NullTyped(SqlType::Json),
    }
}

/// The parameter for an optional value as JSON text.
pub fn json_param(v: Option<&Json>) -> (r: SqlValue)
    ensures
        r@ == opt_json_v(opt_json(v)),
{
    match v {
        Some(x) => SqlValue::Json(value_text(x)),
        None => SqlValue::NullTyped(SqlType::Json),
    }
}

/// Counts the request if it was last changed more than `secs` seconds ago.
pub fn cr_updated_before(cr_id: i64, secs: i64) -> (r: Statement)
    ensures
        r.sql@
            == "SELECT COUNT(*) AS c FROM cv_mdm_apply WHERE id = $1 AND update_time < now() - ($2::int8 * interval '1 second')"@,
        params_view(r.params@) == seq![SqlV::Int(cr_id), SqlV::Int(secs)],
{
    let mut params: Vec<SqlValue> = Vec::new();
    params.push(SqlValue::Int(cr_id));
    params.push(SqlValue::Int(secs));
    assert(params_view(params@) =~= seq![SqlV::Int(cr_id), SqlV::Int(secs)]);
    statement(
        "SELECT COUNT(*) AS c FROM cv_mdm_apply WHERE id = $1 AND update_time < now() - ($2::int8 * interval '1 second')",
        params,
    )
}

/// One line of the audit log.
pub struct AuditEntry<'a> {
    pub id: i64,
    pub dict_code: &'a str,
    pub record_id: i64,
    pub version: i64,
    pub action: &'a str,
    pub source_cr_id: Option<i64>,
    pub field: Option<&'a str>,
    pub old_value: Option<&'a Json>,
    pub new_value: Option<&'a Json>,
    pub operated_by: i64,
}

/// Writes a line of the audit log.
pub fn write_audit(a: &AuditEntry) -> (r: Statement)
    ensures
        r.sql@
            == "INSERT INTO md_audit (id, dict_code, record_id, version, action, source_cr_id, field, old_value, new_value, operated_by, operated_at) VALUES ($1,$2,$3,$4,$5,$6,$7,$8,$9,$10,now())"@,
        params_view(r.params@) == seq![
            SqlV::Int(a.id),
            SqlV::Text(a.dict_code@),
            SqlV::Int(a.record_id),
            SqlV::Int(a.version),
            SqlV::Text(a.action@),
            opt_int_v(a.source_cr_id),
            match opt_str(a.field) {
                Some(f) => SqlV::Text(f),
                None => SqlV::Null,
            },
            opt_json_v(opt_json(a.old_value)),
            opt_json_v(opt_json(a.new_value)),
            SqlV::Int(a.operated_by),
        ],
{
    let mut params: Vec<SqlValue> = Vec::new();
    params.push(SqlValue::Int(a.id));
    params.push(text_param(a.dict_code));
    params.push(SqlValue::Int(a.record_id));
    params.push(SqlValue::Int(a.version));
    params.push(text_param(a.action));
    params.push(opt_int(a.source_cr_id));
    params.push(
        match a.field {
            Some(f) => text_param(f),
            None => SqlValue::Null,
        },
    );
    params.push(json_param(a.old_value));
    params.push(json_param(a.new_value));
    params.push(SqlValue::Int(a.operated_by));
    proof {
        assert(params_view(params@) =~= seq![
            SqlV::Int(a.id),
            SqlV::Text(a.dict_code@),
            SqlV::Int(a.record_id),
            SqlV::Int(a.version),
            SqlV::Text(a.action@),
            opt_int_v(a.source_cr_id),
            match opt_str(a.field) {
                Some(f) => SqlV::Text(f),
                None => SqlV::Null,
            },
            opt_json_v(opt_json(a.old_value)),
            opt_json_v(opt_json(a.new_value)),
            SqlV::Int(a.operated_by),
        ]);
    }
    statement(
        "INSERT INTO md_audit (id, dict_code, record_id, version, action, source_cr_id, field, old_value, new_value, operated_by, operated_at) VALUES ($1,$2,$3,$4,$5,$6,$7,$8,$9,$10,now())",
        params,
    )
}

/// Writes an event; the database numbers it.
pub fn write_event(
    id: &str,
    dict_code: &str,
    record_id: i64,
    event_type: &str,
    payload: &Json,
) -> (r: Statement)
    ensures
        r.sql@
            == "INSERT INTO md_event_log (id, dict_code, record_id, event_type, payload, emitted_at) VALUES ($1,$2,$3,$4,$5,now())"@,
        params_view(r.params@) == seq![
            SqlV::Text(id@),
            SqlV::Text(dict_code@),
            SqlV::Int(record_id),
            SqlV::Text(event_type@),
            SqlV::Json(json_text(payload@)),
        ],
{
    let mut params: Vec<SqlValue> = Vec::new();
    params.push(text_param(id));
    params.push(text_param(dict_code));
    params.push(SqlValue::Int(record_id));
    params.push(text_param(event_type));
    params.push(SqlValue::Json(value_text(payload)));
    assert(params_view(params@) =~= seq![
        SqlV::Text(id@),
        SqlV::Text(dict_code@),
        SqlV::Int(record_id),
        SqlV::Text(event_type@),
        SqlV::Json(json_text(payload@)),
    ]);
    statement(
        "INSERT INTO md_event_log (id, dict_code, record_id, event_type, payload, emitted_at) VALUES ($1,$2,$3,$4,$5,now())",
        params,
    )
}

/// Sets the state of a request, whatever it is.
pub fn set_cr_status(cr_id: i64, status: &str) -> (r: Statement)
    ensures
        r.sql@ == "UPDATE cv_mdm_apply SET doc_status = $1 WHERE id = $2"@,
        params_view(r.params@) == seq![SqlV::Text(status@), SqlV::Int(cr_id)],
{
    let mut params: Vec<SqlValue> = Vec::new();
    params.push(text_param(status));
    params.push(SqlValue::Int(cr_id));
    assert(params_view(params@) =~= seq![SqlV::Text(status@), SqlV::Int(cr_id)]);
    statement("UPDATE cv_mdm_apply SET doc_status = $1 WHERE id = $2", params)
}

/// The parameters for a list of texts.
pub open spec fn text_params(t: Seq<Seq<char>>) -> Seq<SqlV> {
    Seq::new(t.len(), |i: int| SqlV::Text(t[i]))
}

/// `params` with a list of texts behind it.
pub fn push_texts(params: &mut Vec<SqlValue>, t: &[&str])
    ensures
        params_view(final(params)@) == params_view(old(params)@) + text_params(keys_view(t@)),
{
    let ghost before = params@;
    let ghost all = text_params(keys_view(t@));
    let mut i: usize = 0;
    assert(params_view(params@) =~= params_view(before) + all.take(0));
    while i < t.len()
        invariant
            i <= t@.len(),
            all == text_params(keys_view(t@)),
            params_view(params@) == params_view(before) + all.take(i as int),
        decreases t@.len() - i,
    {
        let ghost p0 = params@;
        params.push(text_param(t[i]));
        assert(params_view(params@) =~= params_view(p0).push(SqlV::Text(t@[i as int]@)));
        assert(all.take(i + 1) =~= all.take(i as int).push(SqlV::Text(t@[i as int]@)));
        i += 1;
    }
    assert(all.take(all.len() as int) =~= all);
}

/// The statement that moves a request to the state `to` if it is in one of the states `from`, and
/// notes the time.
pub open spec fn claim_statement(cr_id: i64, from: Seq<Seq<char>>, to: Seq<char>) -> StatementV {
    StatementV {
        sql: "UPDATE cv_mdm_apply SET doc_status = "@ + slot(from.len() + 1)
            + ", update_time = now() WHERE id = "@ + slot(from.len() + 2)
            + " AND doc_status IN ("@ + join(slots(1, from.len()), ","@) + ")"@,
        params: text_params(from) + seq![SqlV::Text(to), SqlV::Int(cr_id)],
    }
}

/// Moves a request to the state `to` if it is in one of the states `from`.
pub fn claim_cr(cr_id: i64, from: &[&str], to: &str) -> (r: Statement)
    requires
        from@.len() + 2 <= usize::MAX,
    ensures
        r@ == claim_statement(cr_id, keys_view(from@), to@),
{
    let n: u64 = from.len() as u64;
    let mut sql: String = "UPDATE cv_mdm_apply SET doc_status = ".to_owned();
    sql.append(slot_text(n + 1).as_str());
    sql.append(", update_time = now() WHERE id = ");
    sql.append(slot_text(n + 2).as_str());
    sql.append(" AND doc_status IN (");
    sql.append(joined(&slot_list(1, from.len()), ",").as_str());
    sql.append(")");
    let mut params: Vec<SqlValue> = Vec::new();
    push_texts(&mut params, from);
    params.push(text_param(to));
    params.push(SqlValue::Int(cr_id));
    assert(params_view(params@) =~= text_params(keys_view(from@)) + seq![
        SqlV::Text(to@),
        SqlV::Int(cr_id),
    ]);
    Statement { sql, params }
}

/// Moves a request to the state `to` if it is in one of the states `from`, of which there must be
/// some.
pub fn try_set_cr_status(cr_id: i64, from: &[&str], to: &str) -> (r: Result<Statement, String>)
    requires
        from@.len() + 2 <= usize::MAX,
    ensures
        if from@.len() == 0 {
            r matches Err(e) && e@ == "try_set_cr_status 的 from 状态集合不能为空"@
        } else {
            r matches Ok(s) && s@ == claim_statement(cr_id, keys_view(from@), to@)
        },
{
    if from.len() == 0 {
        return Err("try_set_cr_status 的 from 状态集合不能为空".to_owned());
    }
    Ok(claim_cr(cr_id, from, to))
}

/// Sets the state of a record's cross references.
pub fn set_xref_status(dict_code: &str, record_id: i64, status: &str) -> (r: Statement)
    ensures
        r.sql@
            == "UPDATE md_xref SET xref_status = $1 WHERE dict_code = $2 AND record_id = $3"@,
        params_view(r.params@) == seq![
            SqlV::Text(status@),
            SqlV::Text(dict_code@),
            SqlV::Int(record_id),
        ],
{
    let mut params: Vec<SqlValue> = Vec::new();
    params.push(text_param(status));
    params.push(text_param(dict_code));
    params.push(SqlValue::Int(record_id));
    assert(params_view(params@) =~= seq![
        SqlV::Text(status@),
        SqlV::Text(dict_code@),
        SqlV::Int(record_id),
    ]);
    statement(
        "UPDATE md_xref SET xref_status = $1 WHERE dict_code = $2 AND record_id = $3",
        params,
    )
}

/// Retires the cross references of a merged record.
pub fn deactivate_xref(dict_code: &str, record_id: i64) -> (r: Statement)
    ensures
        r.sql@
            == "UPDATE md_xref SET xref_status = $1 WHERE dict_code = $2 AND record_id = $3"@,
        params_view(r.params@) == seq![
            SqlV::Text("inactive"@),
            SqlV::Text(dict_code@),
            SqlV::Int(record_id),
        ],
{
    set_xref_status(dict_code, record_id, "inactive")
}

/// Revives the cross references of a restored record.
pub fn activate_xref(dict_code: &str, record_id: i64) -> (r: Statement)
    ensures
        r.sql@
            == "UPDATE md_xref SET xref_status = $1 WHERE dict_code = $2 AND record_id = $3"@,
        params_view(r.params@) == seq![
            SqlV::Text("active"@),
            SqlV::Text(dict_code@),
            SqlV::Int(record_id),
        ],
{
    set_xref_status(dict_code, record_id, "active")
}

} // verus!
