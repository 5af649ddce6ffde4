//! SQL statements as text with numbered parameters.

use crate::json::{number_i64, Json, JsonV, Number, NumberV, ObjV, Object};
use crate::outside::{json_text, value_text};
use crate::text::{chars_of, dec, decimal, join, joined, same_text, texts};
use vstd::prelude::*;

verus! {

/// The type of a null parameter.
#[derive(Debug, Clone, Copy, PartialEq, Eq, Structural)]
pub enum SqlType {
    Int,
    Text,
    Json,
}

/// A parameter of a statement.
#[derive(Debug)]
pub enum SqlValue {
    Null,
    NullTyped(SqlType),
    Bool(bool),
    Int(i64),
    /// The double nearest to a number.
    Float(Number),
    Text(String),
    Json(String),
}

/// What a parameter stands for.
pub enum SqlV {
    Null,
    NullTyped(SqlType),
    Bool(bool),
    Int(i64),
    Float(NumberV),
    Text(Seq<char>),
    Json(Seq<char>),
}

impl SqlValue {
    pub open spec fn view(&self) -> SqlV {
        match *self {
            SqlValue::Null => SqlV::Null,
            SqlValue::NullTyped(t) => SqlV::NullTyped(t),
            SqlValue::Bool(b) => SqlV::Bool(b),
            SqlValue::Int(i) => SqlV::Int(i),
            SqlValue::Float(n) => SqlV::Float(n@),
            SqlValue::Text(s) => SqlV::Text(s@),
            SqlValue::Json(s) => SqlV::Json(s@),
        }
    }
}

impl Clone for SqlValue {
    fn clone(&self) -> (r: Self)
        ensures
            r@ == self@,
    {
        match self {
            SqlValue::Null => SqlValue::Null,
            SqlValue::NullTyped(t) => SqlValue::NullTyped(*t),
            SqlValue::Bool(b) => SqlValue::Bool(*b),
            SqlValue::Int(i) => SqlValue::Int(*i),
            SqlValue::Float(n) => SqlValue::Float(n.clone()),
            SqlValue::Text(s) => SqlValue::Text(s.clone()),
            SqlValue::Json(s) => SqlValue::Json(s.clone()),
        }
    }
}

/// The views of a list of parameters.
pub open spec fn params_view(p: Seq<SqlValue>) -> Seq<SqlV> {
    Seq::new(p.len(), |i: int| p[i]@)
}

/// A statement.
#[derive(Debug)]
pub struct Statement {
    pub sql: String,
    pub params: Vec<SqlValue>,
}

/// What a statement stands for.
#[verifier::ext_equal]
pub struct StatementV {
    pub sql: Seq<char>,
    pub params: Seq<SqlV>,
}

impl Statement {
    pub open spec fn view(&self) -> StatementV {
        StatementV { sql: self.sql@, params: params_view(self.params@) }
    }
}

/// A text parameter.
pub fn text_param(s: &str) -> (r: SqlValue)
    ensures
        r@ == SqlV::Text(s@),
{
    SqlValue::Text(s.to_owned())
}

/// The parameter for an optional text, of type text where it is missing.
pub open spec fn opt_text_v(s: Option<Seq<char>>) -> SqlV {
    match s {
        Some(t) => SqlV::Text(t),
        None => SqlV::NullTyped(SqlType::Text),
    }
}

/// The parameter for an optional integer, of type integer where it is missing.
pub open spec fn opt_int_v(i: Option<i64>) -> SqlV {
    match i {
        Some(n) => SqlV::Int(n),
        None => SqlV::NullTyped(SqlType::Int),
    }
}

/// The parameter for an optional integer.
pub fn opt_int(i: Option<i64>) -> (r: SqlValue)
    ensures
        r@ == opt_int_v(i),
{
    match i {
        Some(n) => SqlValue::Int(n),
        None => SqlValue::NullTyped(SqlType::Int),
    }
}

/// Without parameters, or with those of one list.
pub fn copy_params(p: &Vec<SqlValue>) -> (r: Vec<SqlValue>)
    ensures
        params_view(r@) == params_view(p@),
{
    let mut r: Vec<SqlValue> = Vec::new();
    let mut i: usize = 0;
    while i < p.len()
        invariant
            i <= p@.len(),
            r@.len() == i,
            forall|j: int| 0 <= j < i ==> (#[trigger] r@[j])@ == p@[j]@,
        decreases p@.len() - i,
    {
        r.push(p[i].clone());
        i += 1;
    }
    assert(params_view(r@) =~= params_view(p@));
    r
}

/// The parameter that a JSON value becomes.
pub open spec fn sql_of(v: JsonV) -> SqlV {
    match v {
        JsonV::Null => SqlV::Null,
        JsonV::Bool(b) => SqlV::Bool(b),
        JsonV::Num(n) => match number_i64(n) {
            Some(i) => SqlV::Int(i),
            None => SqlV::Float(n),
        },
        JsonV::Str(s) => SqlV::Text(s),
        _ => SqlV::Json(json_text(v)),
    }
}

/// The parameter that a JSON value becomes: integers, doubles, truth values and texts as such,
/// arrays and objects as JSON text.
pub fn to_dv(v: &Json) -> (r: SqlValue)
    ensures
        r@ == sql_of(v@),
{
    match v {
        Json::Null => SqlValue::Null,
        Json::Bool(b) => SqlValue::Bool(*b),
        Json::Num(n) => match v.as_i64() {
            Some(i) => SqlValue::Int(i),
            None => SqlValue::Float(n.clone()),
        },
        Json::Str(s) => SqlValue::Text(s.clone()),
        _ => SqlValue::Json(value_text(v)),
    }
}

/// The `n`-th placeholder.
pub open spec fn slot(n: nat) -> Seq<char> {
    "$"@ + dec(n)
}

/// The `n`-th placeholder.
pub fn slot_text(n: u64) -> (r: String)
    ensures
        r@ == slot(n as nat),
{
    let mut s: String = "$".to_owned();
    s.append(decimal(n).as_str());
    s
}

/// The placeholders `from`, `from + 1`, ... , `n` of them.
pub open spec fn slots(from: nat, n: nat) -> Seq<Seq<char>> {
    Seq::new(n, |i: int| slot((from + i) as nat))
}

/// The placeholders from `from` on, `n` of them.
pub fn slot_list(from: u64, n: usize) -> (r: Vec<String>)
    requires
        from + n <= u64::MAX + 1,
    ensures
        texts(r@) == slots(from as nat, n as nat),
{
    let mut r: Vec<String> = Vec::new();
    let mut i: usize = 0;
    while i < n
        invariant
            i <= n,
            from + n <= u64::MAX + 1,
            r@.len() == i,
            forall|j: int| 0 <= j < i ==> (#[trigger] r@[j])@ == slot((from + j) as nat),
        decreases n - i,
    {
        r.push(slot_text(from + i as u64));
        i += 1;
    }
    assert(texts(r@) =~= slots(from as nat, n as nat));
    r
}

/// A time stamp that the database sets.
pub open spec fn time_column(c: Seq<char>) -> bool {
    c == "create_time"@ || c == "update_time"@
}

fn is_time_column(c: &str) -> (r: bool)
    ensures
        r == time_column(c@),
{
    same_text(c, "create_time") || same_text(c, "update_time")
}

/// How many columns of a row take a parameter.
pub open spec fn bound_count(row: ObjV) -> nat
    decreases row.len(),
{
    if row.len() == 0 {
        0
    } else if time_column(row.last().0) {
        bound_count(row.drop_last())
    } else {
        bound_count(row.drop_last()) + 1
    }
}

/// The parameters of the columns that take one.
pub open spec fn bound_params(row: ObjV) -> Seq<SqlV>
    decreases row.len(),
{
    if row.len() == 0 {
        Seq::empty()
    } else if time_column(row.last().0) {
        bound_params(row.drop_last())
    } else {
        bound_params(row.drop_last()).push(sql_of(row.last().1))
    }
}

/// The columns of an insert: the id and those of the row.
pub open spec fn insert_columns(row: ObjV) -> Seq<Seq<char>> {
    seq!["id"@] + Seq::new(row.len(), |i: int| row[i].0)
}

/// The values of an insert: the first placeholder for the id, `now()` for a time stamp, the next
/// placeholder for any other column.
pub open spec fn insert_values(row: ObjV) -> Seq<Seq<char>>
    decreases row.len(),
{
    if row.len() == 0 {
        seq!["$1"@]
    } else {
        let v = insert_values(row.drop_last());
        if time_column(row.last().0) {
            v.push("now()"@)
        } else {
            v.push(slot(bound_count(row.drop_last()) + 2))
        }
    }
}

/// The statement that inserts a row under an id.
pub open spec fn insert_statement(table: Seq<char>, row: ObjV, id: i64) -> StatementV {
    StatementV {
        sql: "INSERT INTO "@ + table + " ("@ + join(insert_columns(row), ", "@) + ") VALUES ("@
            + join(insert_values(row), ", "@) + ")"@,
        params: seq![SqlV::Int(id)] + bound_params(row),
    }
}

/// The statement that inserts a row under an id; time stamps are set by the database.
pub fn build_insert_sql(table: &str, row: &Object, id: i64) -> (r: Statement)
    requires
        row@.len() + 2 <= usize::MAX,
    ensures
        r@ == insert_statement(table@, row@, id),
{
    let mut cols: Vec<String> = Vec::new();
    let mut vals: Vec<String> = Vec::new();
    let mut params: Vec<SqlValue> = Vec::new();
    cols.push("id".to_owned());
    vals.push("$1".to_owned());
    params.push(SqlValue::Int(id));
    let n: usize = row.len();
    let mut next: u64 = 2;
    let mut i: usize = 0;
    proof {
        assert(row@.take(0) =~= ObjV::empty());
        assert(texts(cols@) =~= insert_columns(row@.take(0)));
        assert(texts(vals@) =~= insert_values(row@.take(0)));
        assert(params_view(params@) =~= seq![SqlV::Int(id)] + bound_params(row@.take(0)));
    }
    while i < n
        invariant
            i <= n,
            n == row@.len(),
            n + 2 <= usize::MAX,
            next == bound_count(row@.take(i as int)) + 2,
            next <= i + 2,
            texts(cols@) == insert_columns(row@.take(i as int)),
            texts(vals@) == insert_values(row@.take(i as int)),
            params_view(params@) == seq![SqlV::Int(id)] + bound_params(row@.take(i as int)),
        decreases n - i,
    {
        let ghost cols0 = cols@;
        let ghost vals0 = vals@;
        let ghost params0 = params@;
        let ghost t = row@.take(i + 1);
        proof {
            assert(t.drop_last() =~= row@.take(i as int));
            assert(t.last() == row@[i as int]);
        }
        let col = row.key_at(i);
        cols.push(col.clone());
        proof {
            assert(texts(cols@) =~= texts(cols0).push(t.last().0));
            assert(insert_columns(t) =~= insert_columns(row@.take(i as int)).push(t.last().0));
        }
        if is_time_column(col.as_str()) {
            vals.push("now()".to_owned());
            assert(texts(vals@) =~= texts(vals0).push("now()"@));
        } else {
            params.push(to_dv(row.value_at(i)));
            vals.push(slot_text(next));
            proof {
                assert(texts(vals@) =~= texts(vals0).push(slot(next as nat)));
                assert(params_view(params@) =~= params_view(params0).push(sql_of(t.last().1)));
                assert(params_view(params@) =~= seq![SqlV::Int(id)] + bound_params(t));
            }
            next = next + 1;
        }
        i += 1;
    }
    assert(row@.take(n as int) =~= row@);
    let mut sql: String = "INSERT INTO ".to_owned();
    sql.append(table);
    sql.append(" (");
    sql.append(joined(&cols, ", ").as_str());
    sql.append(") VALUES (");
    sql.append(joined(&vals, ", ").as_str());
    sql.append(")");
    Statement { sql, params }
}

/// Assignments `column = $n`, numbered from 1.
pub open spec fn assignments(row: ObjV) -> Seq<Seq<char>> {
    Seq::new(row.len(), |i: int| row[i].0 + " = "@ + slot((i + 1) as nat))
}

/// The parameters of a row, in its order.
pub open spec fn row_params(row: ObjV) -> Seq<SqlV> {
    Seq::new(row.len(), |i: int| sql_of(row[i].1))
}

/// The statement that changes a published row of a given version.
pub open spec fn update_statement(
    table: Seq<char>,
    id: i64,
    row: ObjV,
    expected_version: i64,
) -> StatementV {
    StatementV {
        sql: "UPDATE "@ + table + " SET "@ + join(assignments(row), ", "@) + " WHERE id = "@ + slot(
            row.len() + 1,
        ) + " AND published_version = "@ + slot(row.len() + 2)
            + " AND lifecycle_status = 'published'"@,
        params: row_params(row) + seq![SqlV::Int(id), SqlV::Int(expected_version)],
    }
}

/// The statement that changes a row of a given id, version and the state `published`; it changes
/// nothing where the row has moved on.
pub fn build_update_sql(table: &str, record_id: i64, row: &Object, expected_version: i64) -> (r:
    Statement)
    requires
        row@.len() + 2 <= usize::MAX,
    ensures
        r@ == update_statement(table@, record_id, row@, expected_version),
{
    let mut sets: Vec<String> = Vec::new();
    let mut params: Vec<SqlValue> = Vec::new();
    let n: usize = row.len();
    let mut i: usize = 0;
    while i < n
        invariant
            i <= n,
            n == row@.len(),
            n + 2 <= usize::MAX,
            sets@.len() == i,
            params@.len() == i,
            forall|j: int|
                0 <= j < i ==> (#[trigger] sets@[j])@ == row@[j].0 + " = "@ + slot((j + 1) as nat),
            forall|j: int| 0 <= j < i ==> (#[trigger] params@[j])@ == sql_of(row@[j].1),
        decreases n - i,
    {
        let mut set: String = row.key_at(i).clone();
        set.append(" = ");
        set.append(slot_text(i as u64 + 1).as_str());
        sets.push(set);
        params.push(to_dv(row.value_at(i)));
        i += 1;
    }
    assert(texts(sets@) =~= assignments(row@));
    params.push(SqlValue::Int(record_id));
    params.push(SqlValue::Int(expected_version));
    assert(params_view(params@) =~= row_params(row@) + seq![
        SqlV::Int(record_id),
        SqlV::Int(expected_version),
    ]);
    let mut sql: String = "UPDATE ".to_owned();
    sql.append(table);
    sql.append(" SET ");
    sql.append(joined(&sets, ", ").as_str());
    sql.append(" WHERE id = ");
    sql.append(slot_text(n as u64 + 1).as_str());
    sql.append(" AND published_version = ");
    sql.append(slot_text(n as u64 + 2).as_str());
    sql.append(" AND lifecycle_status = 'published'");
    Statement { sql, params }
}

/// The row without its time stamps.
pub open spec fn without_times(row: ObjV) -> ObjV
    decreases row.len(),
{
    if row.len() == 0 {
        row
    } else if time_column(row.last().0) {
        without_times(row.drop_last())
    } else {
        without_times(row.drop_last()).push(row.last())
    }
}

/// The statement that changes a published detail row and raises its version.
pub open spec fn update_line_statement(table: Seq<char>, id: i64, row: ObjV) -> StatementV {
    let r = without_times(row);
    StatementV {
        sql: "UPDATE "@ + table + " SET "@ + join(
            assignments(r) + seq![
                "update_time = now()"@,
                "published_version = published_version + 1"@,
            ],
            ", "@,
        ) + " WHERE id = "@ + slot(r.len() + 1) + " AND lifecycle_status = 'published'"@,
        params: row_params(r).push(SqlV::Int(id)),
    }
}

/// The statement that changes a published detail row; the database sets its time stamp and
/// raises its version.
pub fn build_update_line_sql(table: &str, line_id: i64, row: &Object) -> (r: Statement)
    requires
        row@.len() + 2 <= usize::MAX,
    ensures
        r@ == update_line_statement(table@, line_id, row@),
{
    let mut sets: Vec<String> = Vec::new();
    let mut params: Vec<SqlValue> = Vec::new();
    let n: usize = row.len();
    let mut next: u64 = 1;
    let mut i: usize = 0;
    assert(row@.take(0) =~= ObjV::empty());
    assert(texts(sets@) =~= assignments(without_times(row@.take(0))));
    assert(params_view(params@) =~= row_params(without_times(row@.take(0))));
    while i < n
        invariant
            i <= n,
            n == row@.len(),
            n + 2 <= usize::MAX,
            next == without_times(row@.take(i as int)).len() + 1,
            next <= i + 1,
            texts(sets@) == assignments(without_times(row@.take(i as int))),
            params_view(params@) == row_params(without_times(row@.take(i as int))),
        decreases n - i,
    {
        let ghost sets0 = sets@;
        let ghost params0 = params@;
        let ghost w0 = without_times(row@.take(i as int));
        let ghost t = row@.take(i + 1);
        proof {
            assert(t.drop_last() =~= row@.take(i as int));
            assert(t.last() == row@[i as int]);
        }
        if !is_time_column(row.key_at(i).as_str()) {
            let mut set: String = row.key_at(i).clone();
            set.append(" = ");
            set.append(slot_text(next).as_str());
            let ghost sv = set@;
            sets.push(set);
            params.push(to_dv(row.value_at(i)));
            proof {
                let w = without_times(t);
                assert(w == w0.push(t.last()));
                assert(texts(sets@) =~= texts(sets0).push(sv));
                assert(assignments(w) =~= assignments(w0).push(sv));
                assert(params_view(params@) =~= params_view(params0).push(sql_of(t.last().1)));
                assert(row_params(w) =~= row_params(w0).push(sql_of(t.last().1)));
            }
            next = next + 1;
        }
        i += 1;
    }
    assert(row@.take(n as int) =~= row@);
    let ghost sets1 = sets@;
    let ghost params1 = params@;
    sets.push("update_time = now()".to_owned());
    sets.push("published_version = published_version + 1".to_owned());
    params.push(SqlValue::Int(line_id));
    proof {
        assert(texts(sets@) =~= texts(sets1) + seq![
            "update_time = now()"@,
            "published_version = published_version + 1"@,
        ]);
        assert(params_view(params@) =~= params_view(params1).push(SqlV::Int(line_id)));
    }
    let mut sql: String = "UPDATE ".to_owned();
    sql.append(table);
    sql.append(" SET ");
    sql.append(joined(&sets, ", ").as_str());
    sql.append(" WHERE id = ");
    sql.append(slot_text(next).as_str());
    sql.append(" AND lifecycle_status = 'published'");
    Statement { sql, params }
}

/// Each value of an insert that is no time stamp is the placeholder of the parameter made of its
/// column, and no parameter is left over.
pub proof fn law_insert_binds(row: ObjV, id: i64, i: int)
    requires
        0 <= i < row.len(),
    ensures
        insert_values(row).len() == row.len() + 1,
        (seq![SqlV::Int(id)] + bound_params(row)).len() == bound_count(row) + 1,
        time_column(row[i].0) ==> insert_values(row)[i + 1] == "now()"@,
        !time_column(row[i].0) ==> exists|k: nat|
            1 < k <= bound_count(row) + 1 && insert_values(row)[i + 1] == #[trigger] slot(k) && (
            seq![SqlV::Int(id)] + bound_params(row))[k - 1] == sql_of(row[i].1),
    decreases row.len(),
{
    lemma_insert_lengths(row);
    let d = row.drop_last();
    lemma_insert_lengths(d);
    let p = seq![SqlV::Int(id)] + bound_params(row);
    if i == row.len() - 1 {
        if !time_column(row[i].0) {
            let k = bound_count(d) + 2;
            assert(insert_values(row)[i + 1] == slot(k));
            assert(p[k - 1] == bound_params(row)[k - 2]);
        }
    } else {
        law_insert_binds(d, id, i);
        assert(d[i] == row[i]);
        assert(insert_values(row)[i + 1] == insert_values(d)[i + 1]);
        if !time_column(row[i].0) {
            let q = seq![SqlV::Int(id)] + bound_params(d);
            let k = choose|k: nat|
                1 < k <= bound_count(d) + 1 && insert_values(d)[i + 1] == #[trigger] slot(k)
                    && q[k - 1] == sql_of(d[i].1);
            assert(p[k - 1] == q[k - 1]);
        }
    }
}

proof fn lemma_insert_lengths(row: ObjV)
    ensures
        insert_values(row).len() == row.len() + 1,
        bound_params(row).len() == bound_count(row),
    decreases row.len(),
{
    if row.len() > 0 {
        lemma_insert_lengths(row.drop_last());
    }
}

/// A name that may stand in a statement: ASCII letters, digits and underscores.
pub open spec fn valid_ident(s: Seq<char>) -> bool {
    s.len() > 0 && forall|i: int| 0 <= i < s.len() ==> ident_char(#[trigger] s[i])
}

/// An ASCII letter, a digit or an underscore.
pub open spec fn ident_char(c: char) -> bool {
    ('a' <= c <= 'z') || ('A' <= c <= 'Z') || ('0' <= c <= '9') || c == '_'
}

/// Refuses a name that is empty or holds any other character than ASCII letters, digits and
/// underscores.
pub fn validate_ident(name: &str) -> (r: Result<(), String>)
    ensures
        match r {
            Ok(_) => valid_ident(name@),
            Err(e) => !valid_ident(name@) && e@ == "非法标识符: "@ + name@,
        },
{
    let v = chars_of(name);
    let mut ok = v.len() > 0;
    let mut i: usize = 0;
    while i < v.len() && ok
        invariant
            i <= v@.len(),
            v@ == name@,
            ok ==> v@.len() > 0 && forall|j: int| 0 <= j < i ==> ident_char(#[trigger] v@[j]),
            !ok ==> !valid_ident(name@),
        decreases v@.len() - i,
    {
        let c: char = v[i];
        if !(('a' <= c && c <= 'z') || ('A' <= c && c <= 'Z') || ('0' <= c && c <= '9') || c
            == '_') {
            assert(!ident_char(name@[i as int]));
            ok = false;
        }
        i += 1;
    }
    if ok {
        Ok(())
    } else {
        let mut e: String = "非法标识符: ".to_owned();
        e.append(name);
        Err(e)
    }
}

} // verus!
