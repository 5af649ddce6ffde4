//! Change requests: how they are read, listed, and held to a state.

use crate::distribution::transform::text_at;
use crate::json::{array, obj_put, values_view, Json, JsonV, ObjV, Object};
use crate::match_algo::keys_view;
use crate::sql::{params_view, slot, slot_text, SqlV, SqlValue, Statement, StatementV};
use crate::store::jsonb::{parse_jsonb_field, parse_rows, parsed_field, parsed_rows};
use crate::store::md_accessor::set_cr_status;
use crate::store::query::{
    build_page, filter_of, filter_text, opt_str, page_offset, page_query, statement, Filter,
    FilterV, PageQuery, PageText,
};
use crate::text::{dec_int, decimal_int, join, joined, same_text, texts, trim, trimmed};
use vstd::prelude::*;

verus! {

/// The head of a change request.
pub fn load_cr_head(cr_id: i64) -> (r: Statement)
    ensures
        r.sql@ == "SELECT * FROM cv_mdm_apply WHERE id = $1"@,
        params_view(r.params@) == seq![SqlV::Int(cr_id)],
{
    let mut params: Vec<SqlValue> = Vec::new();
    params.push(SqlValue::Int(cr_id));
    assert(params_view(params@) =~= seq![SqlV::Int(cr_id)]);
    statement("SELECT * FROM cv_mdm_apply WHERE id = $1", params)
}

/// The lines of a change request.
pub fn load_cr_lines(cr_id: i64) -> (r: Statement)
    ensures
        r.sql@ == "SELECT * FROM cv_mdm_apply_line WHERE upper_id = $1 ORDER BY line_no"@,
        params_view(r.params@) == seq![SqlV::Int(cr_id)],
{
    let mut params: Vec<SqlValue> = Vec::new();
    params.push(SqlValue::Int(cr_id));
    assert(params_view(params@) =~= seq![SqlV::Int(cr_id)]);
    statement("SELECT * FROM cv_mdm_apply_line WHERE upper_id = $1 ORDER BY line_no", params)
}

/// The head, from the rows found: its columns with JSON are read back.
pub open spec fn head_of(rows: Seq<JsonV>, cr_id: i64) -> Result<ObjV, Seq<char>> {
    if rows.len() == 0 {
        Err("CR "@ + dec_int(cr_id as int) + " 不存在"@)
    } else {
        match parsed_field(parsed_field(rows[0], "field_deltas"@), "payload"@) {
            JsonV::Obj(o) => Ok(o),
            _ => Err("CR "@ + dec_int(cr_id as int) + " 头非对象"@),
        }
    }
}

fn about_cr(cr_id: i64, what: &str) -> (r: String)
    ensures
        r@ == "CR "@ + dec_int(cr_id as int) + what@,
{
    let mut s: String = "CR ".to_owned();
    s.append(decimal_int(cr_id).as_str());
    s.append(what);
    s
}

/// The head, from the rows found.
pub fn read_cr_head(rows: &Vec<Json>, cr_id: i64) -> (r: Result<Object, String>)
    ensures
        match r {
            Ok(o) => head_of(values_view(rows@), cr_id) == Ok::<ObjV, Seq<char>>(o@),
            Err(e) => head_of(values_view(rows@), cr_id) == Err::<ObjV, Seq<char>>(e@),
        },
{
    if rows.len() == 0 {
        return Err(about_cr(cr_id, " 不存在"));
    }
    let mut v = rows[0].clone();
    parse_jsonb_field(&mut v, "field_deltas");
    parse_jsonb_field(&mut v, "payload");
    match v {
        Json::Obj(o) => Ok(o),
        _ => Err(about_cr(cr_id, " 头非对象")),
    }
}

/// The lines, from the rows found: their columns with JSON are read back.
pub open spec fn lines_of(rows: Seq<JsonV>) -> Seq<JsonV> {
    Seq::new(
        rows.len(),
        |i: int| parsed_field(parsed_field(rows[i], "line_payload"@), "line_deltas"@),
    )
}

/// The lines, from the rows found.
pub fn read_cr_lines(rows: &Vec<Json>) -> (r: Vec<Json>)
    ensures
        values_view(r@) == lines_of(values_view(rows@)),
{
    let mut out: Vec<Json> = Vec::new();
    let mut i: usize = 0;
    while i < rows.len()
        invariant
            i <= rows@.len(),
            out@.len() == i,
            forall|k: int| 0 <= k < i ==> (#[trigger] out@[k])@ == lines_of(values_view(rows@))[k],
        decreases rows@.len() - i,
    {
        let mut v = rows[i].clone();
        parse_jsonb_field(&mut v, "line_payload");
        parse_jsonb_field(&mut v, "line_deltas");
        out.push(v);
        i += 1;
    }
    assert(values_view(out@) =~= lines_of(values_view(rows@)));
    out
}

/// The state of a change request; empty where its head has none.
pub open spec fn status_of(head: ObjV) -> Seq<char> {
    text_at(JsonV::Obj(head), "doc_status"@)
}

/// The state of a change request.
pub fn doc_status(head: &Object) -> (r: String)
    ensures
        r@ == status_of(head@),
{
    match head.get("doc_status") {
        Some(Json::Str(s)) => s.clone(),
        _ => String::new(),
    }
}

/// What is said of a change request that is in none of the expected states.
pub open spec fn wrong_status(cr_id: i64, cur: Seq<char>, expect: Seq<char>) -> Seq<char> {
    "CR "@ + dec_int(cr_id as int) + " 状态「"@ + cur + "」不符(须 "@ + expect + ")"@
}

fn status_error(cr_id: i64, cur: &str, expect: &str) -> (r: String)
    ensures
        r@ == wrong_status(cr_id, cur@, expect@),
{
    let mut s: String = "CR ".to_owned();
    s.append(decimal_int(cr_id).as_str());
    s.append(" 状态「");
    s.append(cur);
    s.append("」不符(须 ");
    s.append(expect);
    s.append(")");
    s
}

/// Holds a change request to one state.
pub fn check_status(cr_id: i64, head: &Object, expect: &str) -> (r: Result<(), String>)
    ensures
        match r {
            Ok(_) => status_of(head@) == expect@,
            Err(e) => status_of(head@) != expect@ && e@ == wrong_status(
                cr_id,
                status_of(head@),
                expect@,
            ),
        },
{
    let cur = doc_status(head);
    if same_text(cur.as_str(), expect) {
        Ok(())
    } else {
        Err(status_error(cr_id, cur.as_str(), expect))
    }
}

/// Holds a change request to one of several states.
pub fn check_status_in(cr_id: i64, head: &Object, expect: &[&str]) -> (r: Result<(), String>)
    ensures
        match r {
            Ok(_) => keys_view(expect@).contains(status_of(head@)),
            Err(e) => !keys_view(expect@).contains(status_of(head@)) && e@ == wrong_status(
                cr_id,
                status_of(head@),
                join(keys_view(expect@), " 或 "@),
            ),
        },
{
    let cur = doc_status(head);
    let mut names: Vec<String> = Vec::new();
    let mut i: usize = 0;
    while i < expect.len()
        invariant
            i <= expect@.len(),
            cur@ == status_of(head@),
            names@.len() == i,
            forall|k: int| 0 <= k < i ==> (#[trigger] names@[k])@ == expect@[k]@,
            forall|k: int| 0 <= k < i ==> keys_view(expect@)[k] != cur@,
        decreases expect@.len() - i,
    {
        if same_text(expect[i], cur.as_str()) {
            assert(keys_view(expect@)[i as int] == cur@);
            return Ok(());
        }
        names.push(expect[i].to_owned());
        i += 1;
    }
    assert(texts(names@) =~= keys_view(expect@));
    Err(status_error(cr_id, cur.as_str(), joined(&names, " 或 ").as_str()))
}

/// The filter on a number or a name that holds the keyword, where one is asked for.
pub open spec fn filter_keyword(f: FilterV, keyword: Option<Seq<char>>) -> FilterV {
    match keyword {
        Some(k) => if trimmed(k).len() > 0 {
            FilterV {
                clauses: f.clauses.push(
                    "(doc_no ILIKE "@ + slot(f.params.len() + 1) + " OR subject_name ILIKE "@
                        + slot(f.params.len() + 1) + ")"@,
                ),
                params: f.params.push(SqlV::Text("%"@ + trimmed(k) + "%"@)),
            }
        } else {
            f
        },
        None => f,
    }
}

/// The filter of a list of change requests.
pub open spec fn cr_filter(
    status: Option<Seq<char>>,
    doc_type: Option<Seq<char>>,
    keyword: Option<Seq<char>>,
) -> FilterV {
    filter_keyword(
        filter_text(
            filter_text(filter_of("delete_flag = 0"@), "doc_status = "@, status),
            "doc_type = "@,
            doc_type,
        ),
        keyword,
    )
}

/// A page of change requests, newest first.
pub fn list_cr(
    status: Option<&str>,
    doc_type: Option<&str>,
    keyword: Option<&str>,
    page: i64,
    page_size: i64,
) -> (r: PageQuery)
    requires
        page_offset(page, page_size) <= i64::MAX,
    ensures
        r@ == page_query(
            "cv_mdm_apply"@,
            "*"@,
            "cv_mdm_apply"@,
            "create_time DESC"@,
            cr_filter(opt_str(status), opt_str(doc_type), opt_str(keyword)),
            page,
            page_size,
        ),
{
    let mut f = Filter::new("delete_flag = 0");
    f.text("doc_status = ", status);
    f.text("doc_type = ", doc_type);
    if let Some(k) = keyword {
        let t = trim(k);
        if !t.as_str().is_empty() {
            let ghost before = f@;
            let n = slot_text(f.params.len() as u64 + 1);
            let mut c: String = "(doc_no ILIKE ".to_owned();
            c.append(n.as_str());
            c.append(" OR subject_name ILIKE ");
            c.append(n.as_str());
            c.append(")");
            let mut p: String = "%".to_owned();
            p.append(t.as_str());
            p.append("%");
            f.clauses.push(c);
            f.params.push(SqlValue::Text(p));
            assert(f@ =~= filter_keyword(before, Some(k@)));
        }
    }
    let t = PageText {
        count_from: "cv_mdm_apply",
        columns: "*",
        list_from: "cv_mdm_apply",
        order: "create_time DESC",
    };
    build_page(&t, f, page, page_size)
}

/// A change request whole.
pub open spec fn cr_detail(head: ObjV, lines: Seq<JsonV>) -> JsonV {
    JsonV::Obj(
        obj_put(
            obj_put(Seq::empty(), "head"@, JsonV::Obj(head)),
            "lines"@,
            JsonV::Arr(lines),
        ),
    )
}

/// A change request whole.
pub fn get_cr_detail(head: Object, lines: Vec<Json>) -> (r: Json)
    ensures
        r@ == cr_detail(head@, values_view(lines@)),
{
    let mut o = Object::new();
    o.insert("head".to_owned(), Json::Obj(head));
    o.insert("lines".to_owned(), array(lines));
    Json::Obj(o)
}

/// Gives up a change request; only a draft can be given up.
pub fn abort_cr(cr_id: i64, head: &Object) -> (r: Result<Statement, String>)
    ensures
        match r {
            Ok(s) => status_of(head@) == "draft"@ && s@ == (StatementV {
                sql: "UPDATE cv_mdm_apply SET doc_status = $1 WHERE id = $2"@,
                params: seq![SqlV::Text("aborted"@), SqlV::Int(cr_id)],
            }),
            Err(e) => status_of(head@) != "draft"@ && e@ == wrong_status(
                cr_id,
                status_of(head@),
                "draft"@,
            ),
        },
{
    match check_status(cr_id, head, "draft") {
        Ok(_) => Ok(set_cr_status(cr_id, "aborted")),
        Err(e) => Err(e),
    }
}

/// The change requests of a list, from the rows found: their columns with JSON are read back.
pub fn read_cr_list(rows: &Vec<Json>) -> (r: Vec<Json>)
    ensures
        values_view(r@) == parsed_rows(
            values_view(rows@),
            seq!["payload"@, "field_deltas"@],
        ),
{
    let fields = ["payload", "field_deltas"];
    assert(keys_view(fields@) =~= seq!["payload"@, "field_deltas"@]);
    parse_rows(rows, fields.as_slice())
}

} // verus!
