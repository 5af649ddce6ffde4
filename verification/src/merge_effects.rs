//! What the statements of a merge and of its undo make of the stored rows.

use crate::merge::lifecycle_statement;
use crate::sql::{ident_char, slots, valid_ident, SqlV, StatementV};
use crate::store::dct_accessor::id_params;
use crate::text::join;
use vstd::prelude::*;

verus! {

/// A stored detail line: the head rows that its columns point at, and its state.
#[verifier::ext_equal]
pub struct Line {
    pub parents: Map<Seq<char>, i64>,
    pub status: Seq<char>,
}

/// The lines of a detail table, by their ids.
pub type Lines = Map<i64, Line>;

/// A column of a line points at a head row.
pub open spec fn points(l: Line, column: Seq<char>, head: i64) -> bool {
    l.parents.dom().contains(column) && l.parents[column] == head
}

/// What the effects are told of: a record of a head table, a merge request, and a table of lines,
/// which is none of the other tables.
pub struct Scope {
    pub head: Seq<char>,
    pub dict: Seq<char>,
    pub victim: i64,
    pub group: i64,
    pub table: Seq<char>,
}

/// The state of the record, of its cross references and of the merge request, and the lines of the
/// table.
#[verifier::ext_equal]
pub struct Stored {
    pub victim: Seq<char>,
    pub xref: Seq<char>,
    pub group: Seq<char>,
    pub lines: Lines,
}

/// All lines of one head row go to another.
pub open spec fn all_moved(
    table: Seq<char>,
    column: Seq<char>,
    to: i64,
    from: i64,
) -> StatementV {
    StatementV {
        sql: "UPDATE "@ + table + " SET "@ + column + " = $1, update_time = now() WHERE "@ + column
            + " = $2"@,
        params: seq![SqlV::Int(to), SqlV::Int(from)],
    }
}

/// Some lines go to a head row.
pub open spec fn some_moved(
    table: Seq<char>,
    column: Seq<char>,
    ids: Seq<i64>,
    to: i64,
) -> StatementV {
    StatementV {
        sql: "UPDATE "@ + table + " SET "@ + column
            + " = $1, update_time = now() WHERE id IN ("@ + join(slots(2, ids.len()), ", "@)
            + ")"@,
        params: seq![SqlV::Int(to)] + id_params(ids),
    }
}

/// Some lines go from one state to another.
pub open spec fn some_set(
    table: Seq<char>,
    ids: Seq<i64>,
    from: Seq<char>,
    to: Seq<char>,
) -> StatementV {
    StatementV {
        sql: "UPDATE "@ + table
            + " SET lifecycle_status = $1, published_version = published_version + 1, update_time = now() WHERE lifecycle_status = $2 AND id IN ("@
            + join(slots(3, ids.len()), ", "@) + ")"@,
        params: seq![SqlV::Text(to), SqlV::Text(from)] + id_params(ids),
    }
}

/// The cross references of a record change their state.
pub open spec fn xref_set(dict: Seq<char>, id: i64, state: Seq<char>) -> StatementV {
    StatementV {
        sql: "UPDATE md_xref SET xref_status = $1 WHERE dict_code = $2 AND record_id = $3"@,
        params: seq![SqlV::Text(state), SqlV::Text(dict), SqlV::Int(id)],
    }
}

/// A merge request is closed in a state.
pub open spec fn group_closed(s: StatementV, id: i64) -> bool {
    &&& s.sql
        == "UPDATE md_merge_record SET status = $1, survivorship_log = $2, master_id = $3 WHERE id = $4"@
    &&& s.params.len() == 4
    &&& s.params[3] == SqlV::Int(id)
}

/// The ids that a statement binds behind its first `n` parameters.
pub open spec fn ids_behind(p: Seq<SqlV>, n: int) -> Seq<i64> {
    Seq::new((p.len() - n) as nat, |i: int| p[n + i]->Int_0)
}

/// A column of the lines of some ids points at `to`.
pub open spec fn pointed(x: Lines, column: Seq<char>, ids: Seq<i64>, to: i64) -> Lines {
    Map::new(
        |id: i64| x.dom().contains(id),
        |id: i64|
            if ids.contains(id) {
                Line { parents: x[id].parents.insert(column, to), ..x[id] }
            } else {
                x[id]
            },
    )
}

/// The lines of some ids that are in one state are in another.
pub open spec fn restated(x: Lines, ids: Seq<i64>, from: Seq<char>, to: Seq<char>) -> Lines {
    Map::new(
        |id: i64| x.dom().contains(id),
        |id: i64|
            if ids.contains(id) && x[id].status == from {
                Line { status: to, ..x[id] }
            } else {
                x[id]
            },
    )
}

/// A column of all lines that points at `from` points at `to`.
pub open spec fn repointed(x: Lines, column: Seq<char>, to: i64, from: i64) -> Lines {
    Map::new(
        |id: i64| x.dom().contains(id),
        |id: i64|
            if points(x[id], column, from) {
                Line { parents: x[id].parents.insert(column, to), ..x[id] }
            } else {
                x[id]
            },
    )
}

/// A statement sets a column of a table first.
pub open spec fn sets(s: StatementV, table: Seq<char>, column: Seq<char>) -> bool {
    ("UPDATE "@ + table + " SET "@ + column + " "@).is_prefix_of(s.sql)
}

/// The column that a statement sets first.
pub open spec fn column_set(s: StatementV, table: Seq<char>) -> Seq<char> {
    choose|column: Seq<char>| valid_ident(column) && sets(s, table, column)
}

/// What a statement makes of the lines of a table.
pub open spec fn lines_after(table: Seq<char>, s: StatementV, x: Lines) -> Lines {
    let p = s.params;
    let c = column_set(s, table);
    if p.len() == 2 && s == all_moved(table, c, p[0]->Int_0, p[1]->Int_0) {
        repointed(x, c, p[0]->Int_0, p[1]->Int_0)
    } else if p.len() >= 1 && s == some_moved(table, c, ids_behind(p, 1), p[0]->Int_0) {
        pointed(x, c, ids_behind(p, 1), p[0]->Int_0)
    } else if p.len() >= 2 && s == some_set(
        table,
        ids_behind(p, 2),
        p[1]->Text_0,
        p[0]->Text_0,
    ) {
        restated(x, ids_behind(p, 2), p[1]->Text_0, p[0]->Text_0)
    } else {
        x
    }
}

/// A statement moves the record out of the state that it is in.
pub open spec fn hits_victim(w: Scope, s: StatementV, x: Stored) -> bool {
    s.params.len() == 3 && s == lifecycle_statement(
        w.head,
        w.victim,
        x.victim,
        s.params[0]->Text_0,
    )
}

/// What a statement makes of what is stored.
pub open spec fn stored_after(w: Scope, s: StatementV, x: Stored) -> Stored {
    Stored {
        victim: if hits_victim(w, s, x) {
            s.params[0]->Text_0
        } else {
            x.victim
        },
        xref: if s.params.len() == 3 && s == xref_set(w.dict, w.victim, s.params[0]->Text_0) {
            s.params[0]->Text_0
        } else {
            x.xref
        },
        group: if group_closed(s, w.group) {
            s.params[0]->Text_0
        } else {
            x.group
        },
        lines: lines_after(w.table, s, x.lines),
    }
}

/// A statement changes rows of a table.
pub open spec fn updates(s: StatementV, table: Seq<char>) -> bool {
    ("UPDATE "@ + table + " "@).is_prefix_of(s.sql)
}

proof fn lemma_same_word(text: Seq<char>, before: Seq<char>, a: Seq<char>, b: Seq<char>)
    requires
        (before + a + " "@).is_prefix_of(text),
        (before + b + " "@).is_prefix_of(text),
        valid_ident(a),
        valid_ident(b),
    ensures
        a == b,
{
    reveal_strlit(" ");
    let n = before.len() as int;
    let pa = before + a + " "@;
    let pb = before + b + " "@;
    assert(forall|i: int| 0 <= i < pa.len() ==> pa[i] == text[i]);
    assert(forall|i: int| 0 <= i < pb.len() ==> pb[i] == text[i]);
    assert(pa[n + a.len()] == ' ');
    assert(pb[n + b.len()] == ' ');
    assert(forall|i: int| 0 <= i < a.len() ==> a[i] == #[trigger] pa[n + i]);
    assert(forall|i: int| 0 <= i < b.len() ==> b[i] == #[trigger] pb[n + i]);
    if a.len() < b.len() {
        assert(b[a.len() as int] == pb[n + a.len()]);
        assert(ident_char(b[a.len() as int]));
    }
    if b.len() < a.len() {
        assert(a[b.len() as int] == pa[n + b.len()]);
        assert(ident_char(a[b.len() as int]));
    }
    assert forall|i: int| 0 <= i < a.len() implies a[i] == b[i] by {
        assert(a[i] == pa[n + i]);
        assert(b[i] == pb[n + i]);
    }
    assert(a =~= b);
}

/// A statement changes rows of one table only.
pub proof fn lemma_updates_one(s: StatementV, a: Seq<char>, b: Seq<char>)
    requires
        updates(s, a),
        updates(s, b),
        valid_ident(a),
        valid_ident(b),
    ensures
        a == b,
{
    lemma_same_word(s.sql, "UPDATE "@, a, b);
}

proof fn lemma_column_set(s: StatementV, table: Seq<char>, column: Seq<char>)
    requires
        valid_ident(column),
        sets(s, table, column),
    ensures
        column_set(s, table) == column,
{
    lemma_same_word(s.sql, "UPDATE "@ + table + " SET "@, column_set(s, table), column);
}

/// The shapes of the statements on a table change rows of it.
pub proof fn lemma_updates_table(table: Seq<char>, s: StatementV)
    ensures
        forall|c: Seq<char>, to: i64, from: i64|
            s == #[trigger] all_moved(table, c, to, from) ==> updates(s, table) && sets(
                s,
                table,
                c,
            ),
        forall|c: Seq<char>, ids: Seq<i64>, to: i64|
            s == #[trigger] some_moved(table, c, ids, to) ==> updates(s, table) && sets(
                s,
                table,
                c,
            ),
        forall|ids: Seq<i64>, from: Seq<char>, to: Seq<char>|
            s == #[trigger] some_set(table, ids, from, to) ==> updates(s, table),
{
    reveal_strlit(" ");
    reveal_strlit(" SET ");
    reveal_strlit(" = $1, update_time = now() WHERE ");
    reveal_strlit(" = $1, update_time = now() WHERE id IN (");
    reveal_strlit(
        " SET lifecycle_status = $1, published_version = published_version + 1, update_time = now() WHERE lifecycle_status = $2 AND id IN (",
    );
    let p = "UPDATE "@ + table + " "@;
    assert forall|c: Seq<char>, to: i64, from: i64| s == #[trigger] all_moved(
        table,
        c,
        to,
        from,
    ) implies updates(s, table) && sets(s, table, c) by {
        let r = "UPDATE "@ + table + " SET "@ + c + " "@;
        assert(p =~= s.sql.subrange(0, p.len() as int));
        assert(r =~= s.sql.subrange(0, r.len() as int));
    }
    assert forall|c: Seq<char>, ids: Seq<i64>, to: i64| s == #[trigger] some_moved(
        table,
        c,
        ids,
        to,
    ) implies updates(s, table) && sets(s, table, c) by {
        let r = "UPDATE "@ + table + " SET "@ + c + " "@;
        assert(p =~= s.sql.subrange(0, p.len() as int));
        assert(r =~= s.sql.subrange(0, r.len() as int));
    }
    assert forall|ids: Seq<i64>, from: Seq<char>, to: Seq<char>|
        s == #[trigger] some_set(table, ids, from, to) implies updates(s, table) by {
        assert(p =~= s.sql.subrange(0, p.len() as int));
    }
}

/// A statement that moves a record changes rows of its table.
pub proof fn lemma_updates_head(
    head: Seq<char>,
    id: i64,
    from: Seq<char>,
    to: Seq<char>,
)
    ensures
        updates(lifecycle_statement(head, id, from, to), head),
{
    let s = lifecycle_statement(head, id, from, to);
    reveal_strlit(" ");
    reveal_strlit(
        " SET lifecycle_status = $1, published_version = published_version + 1, update_time = now() WHERE id = $2 AND lifecycle_status = $3",
    );
    let p = "UPDATE "@ + head + " "@;
    assert(p =~= s.sql.subrange(0, p.len() as int));
}

/// A statement on another table leaves the lines as they are.
pub proof fn lemma_other_table(table: Seq<char>, s: StatementV, x: Lines)
    requires
        !updates(s, table),
    ensures
        lines_after(table, s, x) == x,
{
    lemma_updates_table(table, s);
}

/// A statement on another table leaves the record as it is.
pub proof fn lemma_other_head(w: Scope, s: StatementV, x: Stored)
    requires
        !updates(s, w.head),
    ensures
        stored_after(w, s, x).victim == x.victim,
{
    lemma_updates_head(w.head, w.victim, x.victim, s.params[0]->Text_0);
}

/// What the statements on a table make of its lines.
pub proof fn lemma_lines_after(
    table: Seq<char>,
    column: Seq<char>,
    x: Lines,
    ids: Seq<i64>,
    to: i64,
    from: i64,
    a: Seq<char>,
    b: Seq<char>,
)
    requires
        valid_ident(column),
    ensures
        lines_after(table, all_moved(table, column, to, from), x) == repointed(x, column, to, from),
        lines_after(table, some_moved(table, column, ids, to), x) == pointed(x, column, ids, to),
        lines_after(table, some_set(table, ids, a, b), x) == restated(x, ids, a, b),
{
    let all = all_moved(table, column, to, from);
    lemma_updates_table(table, all);
    lemma_column_set(all, table, column);
    let m = some_moved(table, column, ids, to);
    lemma_updates_table(table, m);
    lemma_column_set(m, table, column);
    assert(ids_behind(m.params, 1) =~= ids);
    reveal_strlit(")");
    reveal_strlit(" = $2");
    let other = all_moved(table, column, m.params[0]->Int_0, m.params[1]->Int_0);
    assert(m.sql.last() == ')');
    assert(other.sql.last() == '2');
    let s = some_set(table, ids, a, b);
    let c = column_set(s, table);
    assert(ids_behind(s.params, 2) =~= ids);
    assert(s.params[0] is Text);
    assert(all_moved(table, c, s.params[0]->Int_0, s.params[1]->Int_0).params[0] is Int);
    assert(some_moved(table, c, ids_behind(s.params, 1), s.params[0]->Int_0).params[0] is Int);
}

} // verus!
