//! Statements on the tables of master data. They are the only ones that write there.

use crate::json::{lemma_put_len, number_of, obj_get, obj_put, Json, JsonV, ObjV, Object};
use crate::match_algo::keys_view;
use crate::sql::{
    build_insert_sql, build_update_line_sql, build_update_sql, insert_statement, params_view,
    slot_list, slots, text_param, update_line_statement, update_statement, SqlV, SqlValue,
    Statement, StatementV,
};
use crate::store::query::{bad_name, check_name, check_names, check_two, first_bad, statement};
use crate::text::{dec_int, decimal_int, join, joined, same_text, texts};
use vstd::prelude::*;

verus! {

/// `row` with `v` in column `col`, where the table has the column and the row lacks it.
pub open spec fn backfilled(cols: Seq<Seq<char>>, row: ObjV, col: Seq<char>, v: JsonV) -> ObjV {
    if cols.contains(col) && obj_get(row, col) is None {
        obj_put(row, col, v)
    } else {
        row
    }
}

/// A row with the common columns of master data that it lacks and its table has.
pub open spec fn full_row(cols: Seq<Seq<char>>, row: ObjV, id: i64, operated_by: i64) -> ObjV {
    let label = JsonV::Str("MDM-"@ + dec_int(id as int));
    let by = JsonV::Num(number_of(operated_by));
    let r1 = backfilled(cols, row, "code"@, label);
    let r2 = backfilled(cols, r1, "name"@, label);
    let r3 = backfilled(cols, r2, "published_version"@, JsonV::Num(number_of(1)));
    let r4 = backfilled(cols, r3, "sort_no"@, JsonV::Num(number_of(0)));
    let r5 = backfilled(cols, r4, "status"@, JsonV::Num(number_of(1)));
    let r6 = backfilled(cols, r5, "create_by"@, by);
    let r7 = backfilled(cols, r6, "update_by"@, by);
    let r8 = backfilled(cols, r7, "create_time"@, JsonV::Null);
    backfilled(cols, r8, "update_time"@, JsonV::Null)
}

/// Whether a list of texts holds `t`.
pub fn has_text(v: &Vec<String>, t: &str) -> (r: bool)
    ensures
        r == texts(v@).contains(t@),
{
    let mut i: usize = 0;
    while i < v.len()
        invariant
            i <= v@.len(),
            forall|j: int| 0 <= j < i ==> texts(v@)[j] != t@,
        decreases v@.len() - i,
    {
        if same_text(v[i].as_str(), t) {
            assert(texts(v@)[i as int] == t@);
            return true;
        }
        i += 1;
    }
    false
}

/// Puts a default where the table has the column and the row lacks it.
pub fn backfill_col(cols: &Vec<String>, row: &mut Object, col: &str, v: Json)
    ensures
        final(row)@ == backfilled(texts(cols@), old(row)@, col@, v@),
{
    if has_text(cols, col) && !row.contains_key(col) {
        row.insert(col.to_owned(), v);
    }
}

/// The columns of a table.
pub fn load_table_columns(table: &str) -> (r: Statement)
    ensures
        r.sql@ == "SELECT column_name FROM information_schema.columns WHERE table_name = $1"@,
        params_view(r.params@) == seq![SqlV::Text(table@)],
{
    let mut params: Vec<SqlValue> = Vec::new();
    params.push(text_param(table));
    assert(params_view(params@) =~= seq![SqlV::Text(table@)]);
    statement(
        "SELECT column_name FROM information_schema.columns WHERE table_name = $1",
        params,
    )
}

/// A row with the common columns that it lacks and its table has.
pub fn complete_row(cols: &Vec<String>, row: &Object, id: i64, operated_by: i64) -> (r: Object)
    ensures
        r@ == full_row(texts(cols@), row@, id, operated_by),
{
    let mut full = row.clone();
    let mut label: String = "MDM-".to_owned();
    label.append(decimal_int(id).as_str());
    backfill_col(cols, &mut full, "code", Json::Str(label.clone()));
    backfill_col(cols, &mut full, "name", Json::Str(label));
    backfill_col(cols, &mut full, "published_version", Json::integer(1));
    backfill_col(cols, &mut full, "sort_no", Json::integer(0));
    backfill_col(cols, &mut full, "status", Json::integer(1));
    backfill_col(cols, &mut full, "create_by", Json::integer(operated_by));
    backfill_col(cols, &mut full, "update_by", Json::integer(operated_by));
    backfill_col(cols, &mut full, "create_time", Json::Null);
    backfill_col(cols, &mut full, "update_time", Json::Null);
    full
}

/// A backfill keeps what a row has.
pub proof fn law_backfill_keeps(cols: Seq<Seq<char>>, row: ObjV, col: Seq<char>, v: JsonV, q: Seq<
    char,
>)
    ensures
        obj_get(row, q) is Some ==> obj_get(backfilled(cols, row, col, v), q) == obj_get(row, q),
        !cols.contains(q) ==> obj_get(backfilled(cols, row, col, v), q) == obj_get(row, q),
{
    crate::json::law_get_after_put(row, col, v, q);
}

/// The row that a new record is inserted as keeps every value that it was given, and gets no
/// column that its table lacks.
pub proof fn law_full_row(cols: Seq<Seq<char>>, row: ObjV, id: i64, operated_by: i64, q: Seq<char>)
    ensures
        obj_get(row, q) is Some ==> obj_get(full_row(cols, row, id, operated_by), q) == obj_get(
            row,
            q,
        ),
        !cols.contains(q) ==> obj_get(full_row(cols, row, id, operated_by), q) == obj_get(row, q),
{
    let label = JsonV::Str("MDM-"@ + dec_int(id as int));
    let by = JsonV::Num(number_of(operated_by));
    let r1 = backfilled(cols, row, "code"@, label);
    let r2 = backfilled(cols, r1, "name"@, label);
    let r3 = backfilled(cols, r2, "published_version"@, JsonV::Num(number_of(1)));
    let r4 = backfilled(cols, r3, "sort_no"@, JsonV::Num(number_of(0)));
    let r5 = backfilled(cols, r4, "status"@, JsonV::Num(number_of(1)));
    let r6 = backfilled(cols, r5, "create_by"@, by);
    let r7 = backfilled(cols, r6, "update_by"@, by);
    let r8 = backfilled(cols, r7, "create_time"@, JsonV::Null);
    law_backfill_keeps(cols, row, "code"@, label, q);
    law_backfill_keeps(cols, r1, "name"@, label, q);
    law_backfill_keeps(cols, r2, "published_version"@, JsonV::Num(number_of(1)), q);
    law_backfill_keeps(cols, r3, "sort_no"@, JsonV::Num(number_of(0)), q);
    law_backfill_keeps(cols, r4, "status"@, JsonV::Num(number_of(1)), q);
    law_backfill_keeps(cols, r5, "create_by"@, by, q);
    law_backfill_keeps(cols, r6, "update_by"@, by, q);
    law_backfill_keeps(cols, r7, "create_time"@, JsonV::Null, q);
    law_backfill_keeps(cols, r8, "update_time"@, JsonV::Null, q);
}

proof fn lemma_full_row_len(cols: Seq<Seq<char>>, row: ObjV, id: i64, operated_by: i64)
    ensures
        full_row(cols, row, id, operated_by).len() <= row.len() + 9,
{
    assert forall|o: ObjV, k: Seq<char>, v: JsonV| #[trigger]
        backfilled(cols, o, k, v).len() <= o.len() + 1 by {
        lemma_put_len(o, k, v);
    }
}

/// Inserts a row of master data, head or detail, under a new id; `cols` are the columns of the
/// table.
pub fn insert_header(
    table: &str,
    row: &Object,
    cols: &Vec<String>,
    id: i64,
    operated_by: i64,
) -> (r: Result<Statement, String>)
    requires
        row@.len() + 11 <= usize::MAX,
    ensures
        match first_bad(seq![table@]) {
            Some(n) => r matches Err(e) && e@ == bad_name(n),
            None => r matches Ok(s) && s@ == insert_statement(
                table@,
                full_row(texts(cols@), row@, id, operated_by),
                id,
            ),
        },
{
    if let Err(e) = check_name(table) {
        return Err(e);
    }
    let full = complete_row(cols, row, id, operated_by);
    proof {
        lemma_full_row_len(texts(cols@), row@, id, operated_by);
    }
    Ok(build_insert_sql(table, &full, id))
}

/// Changes a published head row of the expected version.
pub fn update_header(table: &str, record_id: i64, row: &Object, expected_version: i64) -> (r:
    Result<Statement, String>)
    requires
        row@.len() + 2 <= usize::MAX,
    ensures
        match first_bad(seq![table@]) {
            Some(n) => r matches Err(e) && e@ == bad_name(n),
            None => r matches Ok(s) && s@ == update_statement(
                table@,
                record_id,
                row@,
                expected_version,
            ),
        },
{
    match check_name(table) {
        Err(e) => Err(e),
        Ok(_) => Ok(build_update_sql(table, record_id, row, expected_version)),
    }
}

/// Changes a published detail row.
pub fn update_line(table: &str, line_id: i64, row: &Object) -> (r: Result<Statement, String>)
    requires
        row@.len() + 2 <= usize::MAX,
    ensures
        match first_bad(seq![table@]) {
            Some(n) => r matches Err(e) && e@ == bad_name(n),
            None => r matches Ok(s) && s@ == update_line_statement(table@, line_id, row@),
        },
{
    match check_name(table) {
        Err(e) => Err(e),
        Ok(_) => Ok(build_update_line_sql(table, line_id, row)),
    }
}

/// `before table after`, with one parameter.
pub open spec fn on_table(before: Seq<char>, table: Seq<char>, after: Seq<char>, p: SqlV) ->
    StatementV {
    StatementV { sql: before + table + after, params: seq![p] }
}

fn on_table_stmt(before: &str, table: &str, after: &str, p: SqlValue) -> (r: Statement)
    ensures
        r@ == on_table(before@, table@, after@, p@),
{
    let mut sql: String = before.to_owned();
    sql.append(table);
    sql.append(after);
    let mut params: Vec<SqlValue> = Vec::new();
    params.push(p);
    assert(params_view(params@) =~= seq![p@]);
    Statement { sql, params }
}

/// The ids of the records whose name contains `kw`; no statement where the table has no name.
pub fn find_ids_by_name_like(table: &str, cols: &Vec<String>, kw: &str) -> (r: Result<
    Option<Statement>,
    String,
>)
    ensures
        match first_bad(seq![table@]) {
            Some(n) => r matches Err(e) && e@ == bad_name(n),
            None => match r {
                Ok(Some(s)) => texts(cols@).contains("name"@) && s@ == on_table(
                    "SELECT id FROM "@,
                    table@,
                    " WHERE name ILIKE $1"@,
                    SqlV::Text("%"@ + kw@ + "%"@),
                ),
                Ok(None) => !texts(cols@).contains("name"@),
                Err(_) => false,
            },
        },
{
    if let Err(e) = check_name(table) {
        return Err(e);
    }
    if !has_text(cols, "name") {
        return Ok(None);
    }
    let mut like: String = "%".to_owned();
    like.append(kw);
    like.append("%");
    Ok(
        Some(
            on_table_stmt(
                "SELECT id FROM ",
                table,
                " WHERE name ILIKE $1",
                SqlValue::Text(like),
            ),
        ),
    )
}

/// The current version of a record.
pub fn get_version(table: &str, record_id: i64) -> (r: Result<Statement, String>)
    ensures
        match first_bad(seq![table@]) {
            Some(n) => r matches Err(e) && e@ == bad_name(n),
            None => r matches Ok(s) && s@ == on_table(
                "SELECT published_version FROM "@,
                table@,
                " WHERE id = $1"@,
                SqlV::Int(record_id),
            ),
        },
{
    match check_name(table) {
        Err(e) => Err(e),
        Ok(_) => Ok(
            on_table_stmt(
                "SELECT published_version FROM ",
                table,
                " WHERE id = $1",
                SqlValue::Int(record_id),
            ),
        ),
    }
}

/// One column of a record.
pub fn select_bigint_col(table: &str, col: &str, record_id: i64) -> (r: Result<Statement, String>)
    ensures
        match first_bad(seq![table@, col@]) {
            Some(n) => r matches Err(e) && e@ == bad_name(n),
            None => r matches Ok(s) && s.sql@ == "SELECT "@ + col@ + " FROM "@ + table@
                + " WHERE id = $1"@ && params_view(s.params@) == seq![SqlV::Int(record_id)],
        },
{
    if let Err(e) = check_two(table, col) {
        return Err(e);
    }
    let mut before: String = "SELECT ".to_owned();
    before.append(col);
    before.append(" FROM ");
    Ok(on_table_stmt(before.as_str(), table, " WHERE id = $1", SqlValue::Int(record_id)))
}

/// The row lock of a record.
pub fn lock_record(table: &str, record_id: i64) -> (r: Result<Statement, String>)
    ensures
        match first_bad(seq![table@]) {
            Some(n) => r matches Err(e) && e@ == bad_name(n),
            None => r matches Ok(s) && s@ == on_table(
                "SELECT id FROM "@,
                table@,
                " WHERE id = $1 FOR UPDATE"@,
                SqlV::Int(record_id),
            ),
        },
{
    match check_name(table) {
        Err(e) => Err(e),
        Ok(_) => Ok(
            on_table_stmt(
                "SELECT id FROM ",
                table,
                " WHERE id = $1 FOR UPDATE",
                SqlValue::Int(record_id),
            ),
        ),
    }
}

/// A whole record.
pub fn select_row_json(table: &str, id: i64) -> (r: Statement)
    ensures
        r@ == on_table("SELECT * FROM "@, table@, " WHERE id = $1"@, SqlV::Int(id)),
{
    on_table_stmt("SELECT * FROM ", table, " WHERE id = $1", SqlValue::Int(id))
}

/// Moves a record from one state to another and raises its version; it changes nothing where the
/// record is in another state.
pub fn set_lifecycle(table: &str, record_id: i64, expected: &str, next: &str) -> (r: Result<
    Statement,
    String,
>)
    ensures
        match first_bad(seq![table@]) {
            Some(n) => r matches Err(e) && e@ == bad_name(n),
            None => r matches Ok(s) && s.sql@ == "UPDATE "@ + table@
                + " SET lifecycle_status = $1, published_version = published_version + 1, update_time = now() WHERE id = $2 AND lifecycle_status = $3"@
                && params_view(s.params@) == seq![
                SqlV::Text(next@),
                SqlV::Int(record_id),
                SqlV::Text(expected@),
            ],
        },
{
    if let Err(e) = check_name(table) {
        return Err(e);
    }
    let mut sql: String = "UPDATE ".to_owned();
    sql.append(table);
    sql.append(
        " SET lifecycle_status = $1, published_version = published_version + 1, update_time = now() WHERE id = $2 AND lifecycle_status = $3",
    );
    let mut params: Vec<SqlValue> = Vec::new();
    params.push(text_param(next));
    params.push(SqlValue::Int(record_id));
    params.push(text_param(expected));
    assert(params_view(params@) =~= seq![
        SqlV::Text(next@),
        SqlV::Int(record_id),
        SqlV::Text(expected@),
    ]);
    Ok(Statement { sql, params })
}

/// Hangs the detail rows of one head row under another.
pub fn reparent_lines(detail_table: &str, parent_field: &str, from_id: i64, to_id: i64) -> (r:
    Result<Statement, String>)
    ensures
        match first_bad(seq![detail_table@, parent_field@]) {
            Some(n) => r matches Err(e) && e@ == bad_name(n),
            None => r matches Ok(s) && s.sql@ == "UPDATE "@ + detail_table@ + " SET "@
                + parent_field@ + " = $1, update_time = now() WHERE "@ + parent_field@ + " = $2"@
                && params_view(s.params@) == seq![SqlV::Int(to_id), SqlV::Int(from_id)],
        },
{
    if let Err(e) = check_two(detail_table, parent_field) {
        return Err(e);
    }
    let mut sql: String = "UPDATE ".to_owned();
    sql.append(detail_table);
    sql.append(" SET ");
    sql.append(parent_field);
    sql.append(" = $1, update_time = now() WHERE ");
    sql.append(parent_field);
    sql.append(" = $2");
    let mut params: Vec<SqlValue> = Vec::new();
    params.push(SqlValue::Int(to_id));
    params.push(SqlValue::Int(from_id));
    assert(params_view(params@) =~= seq![SqlV::Int(to_id), SqlV::Int(from_id)]);
    Ok(Statement { sql, params })
}

/// The ids of the detail rows of a head row.
pub fn select_line_ids(detail_table: &str, parent_field: &str, parent_id: i64) -> (r: Result<
    Statement,
    String,
>)
    ensures
        match first_bad(seq![detail_table@, parent_field@]) {
            Some(n) => r matches Err(e) && e@ == bad_name(n),
            None => r matches Ok(s) && s.sql@ == "SELECT id FROM "@ + detail_table@ + " WHERE "@
                + parent_field@ + " = $1 ORDER BY id"@ && params_view(s.params@) == seq![
                SqlV::Int(parent_id),
            ],
        },
{
    if let Err(e) = check_two(detail_table, parent_field) {
        return Err(e);
    }
    let mut sql: String = "SELECT id FROM ".to_owned();
    sql.append(detail_table);
    sql.append(" WHERE ");
    sql.append(parent_field);
    sql.append(" = $1 ORDER BY id");
    let mut params: Vec<SqlValue> = Vec::new();
    params.push(SqlValue::Int(parent_id));
    assert(params_view(params@) =~= seq![SqlV::Int(parent_id)]);
    Ok(Statement { sql, params })
}

/// The parameters for a list of ids.
pub open spec fn id_params(ids: Seq<i64>) -> Seq<SqlV> {
    Seq::new(ids.len(), |i: int| SqlV::Int(ids[i]))
}

/// `params` with a list of ids behind it.
pub fn push_ids(params: &mut Vec<SqlValue>, ids: &[i64])
    ensures
        params_view(final(params)@) == params_view(old(params)@) + id_params(ids@),
{
    let ghost before = params@;
    let mut i: usize = 0;
    assert(params_view(params@) =~= params_view(before) + id_params(ids@).take(0));
    while i < ids.len()
        invariant
            i <= ids@.len(),
            params_view(params@) == params_view(before) + id_params(ids@).take(i as int),
        decreases ids@.len() - i,
    {
        let ghost p0 = params@;
        params.push(SqlValue::Int(ids[i]));
        assert(params_view(params@) =~= params_view(p0).push(SqlV::Int(ids@[i as int])));
        assert(id_params(ids@).take(i + 1) =~= id_params(ids@).take(i as int).push(
            SqlV::Int(ids@[i as int]),
        ));
        i += 1;
    }
    assert(id_params(ids@).take(ids@.len() as int) =~= id_params(ids@));
}

/// Hangs detail rows given by id under a head row; no statement for no ids.
pub fn reparent_lines_by_ids(
    detail_table: &str,
    parent_field: &str,
    ids: &[i64],
    to_id: i64,
) -> (r: Result<Option<Statement>, String>)
    requires
        ids@.len() + 3 <= usize::MAX,
    ensures
        if ids@.len() == 0 {
            r == Ok::<Option<Statement>, String>(None)
        } else {
            match first_bad(seq![detail_table@, parent_field@]) {
                Some(n) => r matches Err(e) && e@ == bad_name(n),
                None => r matches Ok(Some(s)) && s.sql@ == "UPDATE "@ + detail_table@ + " SET "@
                    + parent_field@ + " = $1, update_time = now() WHERE id IN ("@ + join(
                    slots(2, ids@.len()),
                    ", "@,
                ) + ")"@ && params_view(s.params@) == seq![SqlV::Int(to_id)] + id_params(ids@),
            }
        },
{
    if ids.len() == 0 {
        return Ok(None);
    }
    if let Err(e) = check_two(detail_table, parent_field) {
        return Err(e);
    }
    let mut sql: String = "UPDATE ".to_owned();
    sql.append(detail_table);
    sql.append(" SET ");
    sql.append(parent_field);
    sql.append(" = $1, update_time = now() WHERE id IN (");
    sql.append(joined(&slot_list(2, ids.len()), ", ").as_str());
    sql.append(")");
    let mut params: Vec<SqlValue> = Vec::new();
    params.push(SqlValue::Int(to_id));
    assert(params_view(params@) =~= seq![SqlV::Int(to_id)]);
    push_ids(&mut params, ids);
    Ok(Some(Statement { sql, params }))
}

/// The ids of the published detail rows of a head row, each with the given columns.
pub fn select_line_keys(
    detail_table: &str,
    parent_field: &str,
    parent_id: i64,
    key_cols: &[&str],
) -> (r: Result<Statement, String>)
    ensures
        match first_bad(seq![detail_table@, parent_field@]) {
            Some(n) => r matches Err(e) && e@ == bad_name(n),
            None => match first_bad(keys_view(key_cols@)) {
                Some(n) => r matches Err(e) && e@ == bad_name(n),
                None => r matches Ok(s) && s.sql@ == "SELECT "@ + join(
                    seq!["id"@] + keys_view(key_cols@),
                    ", "@,
                ) + " FROM "@ + detail_table@ + " WHERE "@ + parent_field@
                    + " = $1 AND lifecycle_status = 'published' ORDER BY id"@ && params_view(
                    s.params@,
                ) == seq![SqlV::Int(parent_id)],
            },
        },
{
    if let Err(e) = check_two(detail_table, parent_field) {
        return Err(e);
    }
    if let Err(e) = check_names(key_cols) {
        return Err(e);
    }
    let mut cols: Vec<String> = Vec::new();
    cols.push("id".to_owned());
    let mut i: usize = 0;
    while i < key_cols.len()
        invariant
            i <= key_cols@.len(),
            cols@.len() == i + 1,
            cols@[0]@ == "id"@,
            forall|j: int| 0 <= j < i ==> (#[trigger] cols@[j + 1])@ == key_cols@[j]@,
        decreases key_cols@.len() - i,
    {
        cols.push(key_cols[i].to_owned());
        i += 1;
    }
    assert(texts(cols@) =~= seq!["id"@] + keys_view(key_cols@)) by {
        assert forall|j: int| 0 < j < cols@.len() implies (#[trigger] cols@[j])@ == key_cols@[j
            - 1]@ by {
            assert(cols@[(j - 1) + 1]@ == key_cols@[j - 1]@);
        }
    }
    let mut sql: String = "SELECT ".to_owned();
    sql.append(joined(&cols, ", ").as_str());
    sql.append(" FROM ");
    sql.append(detail_table);
    sql.append(" WHERE ");
    sql.append(parent_field);
    sql.append(" = $1 AND lifecycle_status = 'published' ORDER BY id");
    let mut params: Vec<SqlValue> = Vec::new();
    params.push(SqlValue::Int(parent_id));
    assert(params_view(params@) =~= seq![SqlV::Int(parent_id)]);
    Ok(Statement { sql, params })
}

/// Moves detail rows given by id from one state to another; no statement for no ids.
pub fn set_lifecycle_by_ids(table: &str, ids: &[i64], expected: &str, next: &str) -> (r: Result<
    Option<Statement>,
    String,
>)
    requires
        ids@.len() + 3 <= usize::MAX,
    ensures
        if ids@.len() == 0 {
            r == Ok::<Option<Statement>, String>(None)
        } else {
            match first_bad(seq![table@]) {
                Some(n) => r matches Err(e) && e@ == bad_name(n),
                None => r matches Ok(Some(s)) && s.sql@ == "UPDATE "@ + table@
                    + " SET lifecycle_status = $1, published_version = published_version + 1, update_time = now() WHERE lifecycle_status = $2 AND id IN ("@
                    + join(slots(3, ids@.len()), ", "@) + ")"@ && params_view(s.params@) == seq![
                    SqlV::Text(next@),
                    SqlV::Text(expected@),
                ] + id_params(ids@),
            }
        },
{
    if ids.len() == 0 {
        return Ok(None);
    }
    if let Err(e) = check_name(table) {
        return Err(e);
    }
    let mut sql: String = "UPDATE ".to_owned();
    sql.append(table);
    sql.append(
        " SET lifecycle_status = $1, published_version = published_version + 1, update_time = now() WHERE lifecycle_status = $2 AND id IN (",
    );
    sql.append(joined(&slot_list(3, ids.len()), ", ").as_str());
    sql.append(")");
    let mut params: Vec<SqlValue> = Vec::new();
    params.push(text_param(next));
    params.push(text_param(expected));
    assert(params_view(params@) =~= seq![SqlV::Text(next@), SqlV::Text(expected@)]);
    push_ids(&mut params, ids);
    Ok(Some(Statement { sql, params }))
}

} // verus!
