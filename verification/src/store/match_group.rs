//! Statements on merge requests.

use crate::json::Json;
use crate::match_algo::keys_view;
use crate::outside::{json_text, value_text};
use crate::sql::{
    opt_int, opt_int_v, params_view, slot_list, slots, text_param, SqlV, SqlValue, Statement,
};
use crate::store::dct_accessor::{id_params, push_ids};
use crate::store::md_accessor::{json_param, opt_json, opt_json_v, push_texts, text_params};
use crate::store::query::{
    build_page, filter_of, filter_text, opt_str, page_offset, page_query, statement, Filter, FilterV,
    PageQuery, PageText,
};
use crate::text::{join, joined, texts};
use vstd::prelude::*;

verus! {

/// A merge request to be written.
pub struct NewMatchGroup<'a> {
    pub id: i64,
    pub dict_code: &'a str,
    pub group_key: &'a str,
    pub member_ids: &'a Json,
    pub master_id: Option<i64>,
    pub score: i64,
    pub decision: &'a str,
    pub status: &'a str,
}

/// Writes a merge request.
pub fn insert_match_group(g: &NewMatchGroup) -> (r: Statement)
    ensures
        r.sql@
            == "INSERT INTO md_merge_record (id, dict_code, group_key, member_ids, master_id, score, decision, survivorship_log, status, created_at) VALUES ($1,$2,$3,$4,$5,$6,$7,NULL,$8,now())"@,
        params_view(r.params@) == seq![
            SqlV::Int(g.id),
            SqlV::Text(g.dict_code@),
            SqlV::Text(g.group_key@),
            SqlV::Json(json_text(g.member_ids@)),
            opt_int_v(g.master_id),
            SqlV::Int(g.score),
            SqlV::Text(g.decision@),
            SqlV::Text(g.status@),
        ],
{
    let mut params: Vec<SqlValue> = Vec::new();
    params.push(SqlValue::Int(g.id));
    params.push(text_param(g.dict_code));
    params.push(text_param(g.group_key));
    params.push(SqlValue::Json(value_text(g.member_ids)));
    params.push(opt_int(g.master_id));
    params.push(SqlValue::Int(g.score));
    params.push(text_param(g.decision));
    params.push(text_param(g.status));
    assert(params_view(params@) =~= seq![
        SqlV::Int(g.id),
        SqlV::Text(g.dict_code@),
        SqlV::Text(g.group_key@),
        SqlV::Json(json_text(g.member_ids@)),
        opt_int_v(g.master_id),
        SqlV::Int(g.score),
        SqlV::Text(g.decision@),
        SqlV::Text(g.status@),
    ]);
    statement(
        "INSERT INTO md_merge_record (id, dict_code, group_key, member_ids, master_id, score, decision, survivorship_log, status, created_at) VALUES ($1,$2,$3,$4,$5,$6,$7,NULL,$8,now())",
        params,
    )
}

/// Sets state, log and master of a merge request.
pub fn update_match_group(
    id: i64,
    status: &str,
    survivorship_log: Option<&Json>,
    master_id: Option<i64>,
) -> (r: Statement)
    ensures
        r.sql@
            == "UPDATE md_merge_record SET status = $1, survivorship_log = $2, master_id = $3 WHERE id = $4"@,
        params_view(r.params@) == seq![
            SqlV::Text(status@),
            opt_json_v(opt_json(survivorship_log)),
            opt_int_v(master_id),
            SqlV::Int(id),
        ],
{
    let mut params: Vec<SqlValue> = Vec::new();
    params.push(text_param(status));
    params.push(json_param(survivorship_log));
    params.push(opt_int(master_id));
    params.push(SqlValue::Int(id));
    assert(params_view(params@) =~= seq![
        SqlV::Text(status@),
        opt_json_v(opt_json(survivorship_log)),
        opt_int_v(master_id),
        SqlV::Int(id),
    ]);
    statement(
        "UPDATE md_merge_record SET status = $1, survivorship_log = $2, master_id = $3 WHERE id = $4",
        params,
    )
}

/// Moves a merge request from one state to another; it changes nothing in a third.
pub fn transition_match_group(id: i64, from: &str, to: &str) -> (r: Statement)
    ensures
        r.sql@ == "UPDATE md_merge_record SET status = $1 WHERE id = $2 AND status = $3"@,
        params_view(r.params@) == seq![SqlV::Text(to@), SqlV::Int(id), SqlV::Text(from@)],
{
    let mut params: Vec<SqlValue> = Vec::new();
    params.push(text_param(to));
    params.push(SqlValue::Int(id));
    params.push(text_param(from));
    assert(params_view(params@) =~= seq![SqlV::Text(to@), SqlV::Int(id), SqlV::Text(from@)]);
    statement("UPDATE md_merge_record SET status = $1 WHERE id = $2 AND status = $3", params)
}

/// A merge request by id.
pub fn get_match_group(id: i64) -> (r: Statement)
    ensures
        r.sql@
            == "SELECT id, dict_code, group_key, member_ids, master_id, score, decision, status, survivorship_log FROM md_merge_record WHERE id = $1"@,
        params_view(r.params@) == seq![SqlV::Int(id)],
{
    let mut params: Vec<SqlValue> = Vec::new();
    params.push(SqlValue::Int(id));
    assert(params_view(params@) =~= seq![SqlV::Int(id)]);
    statement(
        "SELECT id, dict_code, group_key, member_ids, master_id, score, decision, status, survivorship_log FROM md_merge_record WHERE id = $1",
        params,
    )
}

/// The number of rows of `table` in each state, of one dictionary or of all.
pub fn count_by_status(table: &str, dict_code: Option<&str>) -> (r: Statement)
    ensures
        match opt_str(dict_code) {
            Some(d) => r.sql@ == "SELECT status, COUNT(*)::bigint AS c FROM "@ + table@
                + " WHERE dict_code = $1 GROUP BY status"@ && params_view(r.params@) == seq![
                SqlV::Text(d),
            ],
            None => r.sql@ == "SELECT status, COUNT(*)::bigint AS c FROM "@ + table@
                + " GROUP BY status"@ && r.params@.len() == 0,
        },
{
    let mut sql: String = "SELECT status, COUNT(*)::bigint AS c FROM ".to_owned();
    sql.append(table);
    let mut params: Vec<SqlValue> = Vec::new();
    match dict_code {
        Some(d) => {
            sql.append(" WHERE dict_code = $1 GROUP BY status");
            params.push(text_param(d));
            assert(params_view(params@) =~= seq![SqlV::Text(d@)]);
        },
        None => {
            sql.append(" GROUP BY status");
        },
    }
    Statement { sql, params }
}

/// The number of merge requests in each state.
pub fn count_merge_by_status(dict_code: Option<&str>) -> (r: Statement)
    ensures
        match opt_str(dict_code) {
            Some(d) => r.sql@ == "SELECT status, COUNT(*)::bigint AS c FROM "@
                + "md_merge_record"@ + " WHERE dict_code = $1 GROUP BY status"@ && params_view(
                r.params@,
            ) == seq![SqlV::Text(d)],
            None => r.sql@ == "SELECT status, COUNT(*)::bigint AS c FROM "@ + "md_merge_record"@
                + " GROUP BY status"@ && r.params@.len() == 0,
        },
{
    count_by_status("md_merge_record", dict_code)
}

/// The filter without the given states.
pub open spec fn filter_not_in(f: FilterV, excluded: Seq<Seq<char>>) -> FilterV {
    if excluded.len() == 0 {
        f
    } else {
        FilterV {
            clauses: f.clauses.push(
                "status NOT IN ("@ + join(slots(f.params.len() + 1, excluded.len()), ", "@)
                    + ")"@,
            ),
            params: f.params + text_params(excluded),
        }
    }
}

/// The filter for requests whose master or one of whose members is among the ids.
pub open spec fn filter_members(f: FilterV, ids: Seq<i64>) -> FilterV {
    if ids.len() == 0 {
        f
    } else {
        FilterV {
            clauses: f.clauses.push(
                "(master_id IN ("@ + join(slots(f.params.len() + 1, ids.len()), ", "@)
                    + ") OR EXISTS (SELECT 1 FROM jsonb_array_elements_text(member_ids) AS mid WHERE mid::bigint IN ("@
                    + join(slots(f.params.len() + 1 + ids.len(), ids.len()), ", "@) + ")))"@,
            ),
            params: f.params + id_params(ids) + id_params(ids),
        }
    }
}

/// The filter of a list of merge requests.
pub open spec fn merge_filter(
    dict_code: Option<Seq<char>>,
    status: Option<Seq<char>>,
    excluded: Seq<Seq<char>>,
    ids: Seq<i64>,
) -> FilterV {
    filter_members(
        filter_not_in(
            filter_text(
                filter_text(filter_of("1=1"@), "dict_code = "@, dict_code),
                "status = "@,
                status,
            ),
            excluded,
        ),
        ids,
    )
}

/// A page of merge requests, newest first: of one dictionary or of all, in one state or in any
/// but the excluded ones, and, where ids are given, those with one of these records.
pub fn list_match_groups(
    dict_code: Option<&str>,
    status: Option<&str>,
    exclude_statuses: &[&str],
    name_match_ids: &[i64],
    page: i64,
    page_size: i64,
) -> (r: PageQuery)
    requires
        exclude_statuses@.len() + 2 * name_match_ids@.len() + 6 <= usize::MAX,
        page_offset(page, page_size) <= i64::MAX,
    ensures
        r@ == page_query(
            "md_merge_record"@,
            "id, dict_code, group_key, member_ids, master_id, score, decision, status, created_at"@,
            "md_merge_record"@,
            "created_at DESC, id DESC"@,
            merge_filter(
                opt_str(dict_code),
                opt_str(status),
                keys_view(exclude_statuses@),
                name_match_ids@,
            ),
            page,
            page_size,
        ),
{
    let mut f = Filter::new("1=1");
    f.text("dict_code = ", dict_code);
    f.text("status = ", status);
    let ghost f1 = f@;
    assert(f1.params.len() <= 2);
    if exclude_statuses.len() > 0 {
        let mut c: String = "status NOT IN (".to_owned();
        c.append(
            joined(
                &slot_list(f.params.len() as u64 + 1, exclude_statuses.len()),
                ", ",
            ).as_str(),
        );
        c.append(")");
        let ghost cv = c@;
        let ghost before = f.clauses@;
        f.clauses.push(c);
        push_texts(&mut f.params, exclude_statuses);
        assert(texts(f.clauses@) =~= texts(before).push(cv));
        assert(f@ =~= filter_not_in(f1, keys_view(exclude_statuses@)));
    }
    let ghost f2 = f@;
    assert(f2 == filter_not_in(f1, keys_view(exclude_statuses@)));
    if name_match_ids.len() > 0 {
        let n: u64 = f.params.len() as u64;
        let mut c: String = "(master_id IN (".to_owned();
        c.append(joined(&slot_list(n + 1, name_match_ids.len()), ", ").as_str());
        c.append(
            ") OR EXISTS (SELECT 1 FROM jsonb_array_elements_text(member_ids) AS mid WHERE mid::bigint IN (",
        );
        c.append(
            joined(
                &slot_list(n + 1 + name_match_ids.len() as u64, name_match_ids.len()),
                ", ",
            ).as_str(),
        );
        c.append(")))");
        let ghost cv = c@;
        let ghost before = f.clauses@;
        f.clauses.push(c);
        push_ids(&mut f.params, name_match_ids);
        push_ids(&mut f.params, name_match_ids);
        assert(texts(f.clauses@) =~= texts(before).push(cv));
        assert(f@ =~= filter_members(f2, name_match_ids@));
    }
    let t = PageText {
        count_from: "md_merge_record",
        columns: "id, dict_code, group_key, member_ids, master_id, score, decision, status, created_at",
        list_from: "md_merge_record",
        order: "created_at DESC, id DESC",
    };
    build_page(&t, f, page, page_size)
}

} // verus!
