//! Reading published records for matching and merging.

use crate::json::{json_i64, obj_get, values_view, Json, JsonV, Object};
use crate::match_algo::{keys_view, records_view, MatchRecord, RecordV};
use crate::sql::{params_view, slot_list, slots, SqlV, SqlValue, Statement, StatementV};
use crate::store::dct_accessor::{id_params, push_ids};
use crate::store::query::{bad_name, check_name, check_names, first_bad};
use crate::text::{join, joined, texts};
use vstd::prelude::*;

verus! {

/// Owned copies of borrowed texts.
pub fn owned(v: &[&str]) -> (r: Vec<String>)
    ensures
        texts(r@) == keys_view(v@),
{
    let mut r: Vec<String> = Vec::new();
    let mut i: usize = 0;
    while i < v.len()
        invariant
            i <= v@.len(),
            r@.len() == i,
            forall|j: int| 0 <= j < i ==> (#[trigger] r@[j])@ == v@[j]@,
        decreases v@.len() - i,
    {
        r.push(v[i].to_owned());
        i += 1;
    }
    assert(texts(r@) =~= keys_view(v@));
    r
}

/// The record that a row stands for: its id (0 where there is none) and its columns.
pub open spec fn record_of_row(row: JsonV) -> RecordV {
    let fields = match row {
        JsonV::Obj(o) => o,
        _ => Seq::empty(),
    };
    RecordV {
        id: match json_i64(obj_get(fields, "id"@)) {
            Some(i) => i,
            None => 0,
        },
        fields,
    }
}

/// The record that a row stands for.
pub fn row_record(row: &Json) -> (r: MatchRecord)
    ensures
        r@ == record_of_row(row@),
{
    let fields: Object = match row.as_object() {
        Some(o) => o.clone(),
        None => Object::new(),
    };
    let id: i64 = match fields.get("id") {
        Some(v) => match v.as_i64() {
            Some(i) => i,
            None => 0,
        },
        None => 0,
    };
    MatchRecord { id, fields }
}

/// The records that rows stand for.
pub open spec fn rows_records(rows: Seq<JsonV>) -> Seq<RecordV> {
    Seq::new(rows.len(), |i: int| record_of_row(rows[i]))
}

/// The records that rows stand for.
pub fn read_records(rows: &Vec<Json>) -> (r: Vec<MatchRecord>)
    ensures
        records_view(r@) == rows_records(values_view(rows@)),
{
    let mut rs: Vec<MatchRecord> = Vec::new();
    let mut i: usize = 0;
    while i < rows.len()
        invariant
            i <= rows@.len(),
            rs@.len() == i,
            forall|j: int| 0 <= j < i ==> (#[trigger] rs@[j])@ == record_of_row(rows@[j]@),
        decreases rows@.len() - i,
    {
        rs.push(row_record(&rows[i]));
        i += 1;
    }
    assert(records_view(rs@) =~= rows_records(values_view(rows@)));
    rs
}

/// Borrows a list of texts.
pub fn borrowed(v: &Vec<String>) -> (r: Vec<&str>)
    ensures
        keys_view(r@) == texts(v@),
{
    let mut r: Vec<&str> = Vec::new();
    let mut i: usize = 0;
    while i < v.len()
        invariant
            i <= v@.len(),
            r@.len() == i,
            forall|j: int| 0 <= j < i ==> (#[trigger] r@[j])@ == v@[j]@,
        decreases v@.len() - i,
    {
        r.push(v[i].as_str());
        i += 1;
    }
    assert(keys_view(r@) =~= texts(v@));
    r
}

/// Every published record.
pub fn load_published(table: &str, columns: &[&str]) -> (r: Result<Statement, String>)
    ensures
        match first_bad(seq![table@]) {
            Some(n) => r matches Err(e) && e@ == bad_name(n),
            None => match first_bad(keys_view(columns@)) {
                Some(n) => r matches Err(e) && e@ == bad_name(n),
                None => r matches Ok(s) && s.sql@ == "SELECT "@ + join(
                    keys_view(columns@),
                    ", "@,
                ) + " FROM "@ + table@ + " WHERE lifecycle_status = 'published'"@
                    && s.params@.len() == 0,
            },
        },
{
    if let Err(e) = check_name(table) {
        return Err(e);
    }
    if let Err(e) = check_names(columns) {
        return Err(e);
    }
    let mut sql: String = "SELECT ".to_owned();
    sql.append(joined(&owned(columns), ", ").as_str());
    sql.append(" FROM ");
    sql.append(table);
    sql.append(" WHERE lifecycle_status = 'published'");
    Ok(Statement { sql, params: Vec::new() })
}

/// The subquery for the values of a cluster key that occur more than once.
pub open spec fn suspect_cte(table: Seq<char>, k: Seq<char>) -> Seq<char> {
    "s_"@ + k + " AS (SELECT "@ + k + " AS k FROM "@ + table
        + " WHERE lifecycle_status='published' AND "@ + k + " IS NOT NULL AND "@ + k
        + " <> '' GROUP BY "@ + k + " HAVING COUNT(*) > 1)"@
}

/// The condition that a record has one of those values.
pub open spec fn suspect_cond(k: Seq<char>) -> Seq<char> {
    "t."@ + k + " IN (SELECT k FROM s_"@ + k + ")"@
}

/// The query for the published records that share the value of a cluster key with another.
pub open spec fn suspects_sql(
    table: Seq<char>,
    columns: Seq<Seq<char>>,
    keys: Seq<Seq<char>>,
) -> Seq<char> {
    "WITH "@ + join(Seq::new(keys.len(), |i: int| suspect_cte(table, keys[i])), ", "@)
        + " SELECT DISTINCT "@ + join(columns, ", "@) + " FROM "@ + table
        + " t WHERE lifecycle_status='published' AND ("@ + join(
        Seq::new(keys.len(), |i: int| suspect_cond(keys[i])),
        " OR "@,
    ) + ") LIMIT 50000"@
}

/// The published records that share the value of a cluster key with another; no statement
/// without a key.
pub fn load_suspects(table: &str, columns: &[&str], cluster_keys: &[&str]) -> (r: Result<
    Option<Statement>,
    String,
>)
    ensures
        match first_bad(seq![table@]) {
            Some(n) => r matches Err(e) && e@ == bad_name(n),
            None => match first_bad(keys_view(columns@)) {
                Some(n) => r matches Err(e) && e@ == bad_name(n),
                None => match first_bad(keys_view(cluster_keys@)) {
                    Some(n) => r matches Err(e) && e@ == bad_name(n),
                    None => if cluster_keys@.len() == 0 {
                        r matches Ok(None)
                    } else {
                        r matches Ok(Some(s)) && s.sql@ == suspects_sql(
                            table@,
                            keys_view(columns@),
                            keys_view(cluster_keys@),
                        ) && s.params@.len() == 0
                    },
                },
            },
        },
{
    if let Err(e) = check_name(table) {
        return Err(e);
    }
    if let Err(e) = check_names(columns) {
        return Err(e);
    }
    if let Err(e) = check_names(cluster_keys) {
        return Err(e);
    }
    if cluster_keys.len() == 0 {
        return Ok(None);
    }
    let ghost keys = keys_view(cluster_keys@);
    let mut ctes: Vec<String> = Vec::new();
    let mut ors: Vec<String> = Vec::new();
    let mut i: usize = 0;
    while i < cluster_keys.len()
        invariant
            i <= cluster_keys@.len(),
            keys == keys_view(cluster_keys@),
            ctes@.len() == i,
            ors@.len() == i,
            forall|j: int| 0 <= j < i ==> (#[trigger] ctes@[j])@ == suspect_cte(table@, keys[j]),
            forall|j: int| 0 <= j < i ==> (#[trigger] ors@[j])@ == suspect_cond(keys[j]),
        decreases cluster_keys@.len() - i,
    {
        let k = cluster_keys[i];
        let mut c: String = "s_".to_owned();
        c.append(k);
        c.append(" AS (SELECT ");
        c.append(k);
        c.append(" AS k FROM ");
        c.append(table);
        c.append(" WHERE lifecycle_status='published' AND ");
        c.append(k);
        c.append(" IS NOT NULL AND ");
        c.append(k);
        c.append(" <> '' GROUP BY ");
        c.append(k);
        c.append(" HAVING COUNT(*) > 1)");
        let mut o: String = "t.".to_owned();
        o.append(k);
        o.append(" IN (SELECT k FROM s_");
        o.append(k);
        o.append(")");
        ctes.push(c);
        ors.push(o);
        i += 1;
    }
    proof {
        assert(texts(ctes@) =~= Seq::new(keys.len(), |i: int| suspect_cte(table@, keys[i])));
        assert(texts(ors@) =~= Seq::new(keys.len(), |i: int| suspect_cond(keys[i])));
    }
    let mut sql: String = "WITH ".to_owned();
    sql.append(joined(&ctes, ", ").as_str());
    sql.append(" SELECT DISTINCT ");
    sql.append(joined(&owned(columns), ", ").as_str());
    sql.append(" FROM ");
    sql.append(table);
    sql.append(" t WHERE lifecycle_status='published' AND (");
    sql.append(joined(&ors, " OR ").as_str());
    sql.append(") LIMIT 50000");
    Ok(Some(Statement { sql, params: Vec::new() }))
}

/// The start of a query for published records.
pub open spec fn published_sql(table: Seq<char>, columns: Seq<Seq<char>>) -> Seq<char> {
    "SELECT "@ + join(columns, ", "@) + " FROM "@ + table
        + " WHERE lifecycle_status = 'published'"@
}

/// The query for the published records with a text in a column.
pub open spec fn published_with(
    table: Seq<char>,
    columns: Seq<Seq<char>>,
    key: Seq<char>,
    value: Seq<char>,
) -> StatementV {
    StatementV {
        sql: published_sql(table, columns) + " AND "@ + key + " = $1"@,
        params: seq![SqlV::Text(value)],
    }
}

/// The published records with a text in a column.
pub fn load_bucket(table: &str, columns: &[&str], key: &str, value: &str) -> (r: Result<
    Statement,
    String,
>)
    ensures
        match first_bad(seq![table@]) {
            Some(n) => r matches Err(e) && e@ == bad_name(n),
            None => match first_bad(keys_view(columns@)) {
                Some(n) => r matches Err(e) && e@ == bad_name(n),
                None => match first_bad(seq![key@]) {
                    Some(n) => r matches Err(e) && e@ == bad_name(n),
                    None => r matches Ok(s) && s@ == published_with(
                        table@,
                        keys_view(columns@),
                        key@,
                        value@,
                    ),
                },
            },
        },
{
    match load_published(table, columns) {
        Err(e) => Err(e),
        Ok(s) => {
            if let Err(e) = check_name(key) {
                return Err(e);
            }
            let mut sql: String = s.sql;
            sql.append(" AND ");
            sql.append(key);
            sql.append(" = $1");
            let mut params: Vec<SqlValue> = Vec::new();
            params.push(SqlValue::Text(value.to_owned()));
            assert(params_view(params@) =~= seq![SqlV::Text(value@)]);
            Ok(Statement { sql, params })
        },
    }
}

/// Records given by id; no statement for no ids.
pub fn load_by_ids(table: &str, columns: &[&str], ids: &[i64]) -> (r: Result<
    Option<Statement>,
    String,
>)
    requires
        ids@.len() < usize::MAX,
    ensures
        if ids@.len() == 0 {
            r matches Ok(None)
        } else {
            match first_bad(seq![table@]) {
                Some(n) => r matches Err(e) && e@ == bad_name(n),
                None => match first_bad(keys_view(columns@)) {
                    Some(n) => r matches Err(e) && e@ == bad_name(n),
                    None => r matches Ok(Some(s)) && s.sql@ == "SELECT "@ + join(
                        keys_view(columns@),
                        ", "@,
                    ) + " FROM "@ + table@ + " WHERE id IN ("@ + join(
                        slots(1, ids@.len()),
                        ", "@,
                    ) + ")"@ && params_view(s.params@) == id_params(ids@),
                },
            }
        },
{
    if ids.len() == 0 {
        return Ok(None);
    }
    if let Err(e) = check_name(table) {
        return Err(e);
    }
    if let Err(e) = check_names(columns) {
        return Err(e);
    }
    let mut sql: String = "SELECT ".to_owned();
    sql.append(joined(&owned(columns), ", ").as_str());
    sql.append(" FROM ");
    sql.append(table);
    sql.append(" WHERE id IN (");
    sql.append(joined(&slot_list(1, ids.len()), ", ").as_str());
    sql.append(")");
    let mut params: Vec<SqlValue> = Vec::new();
    push_ids(&mut params, ids);
    assert(params_view(params@) =~= id_params(ids@));
    Ok(Some(Statement { sql, params }))
}

} // verus!
