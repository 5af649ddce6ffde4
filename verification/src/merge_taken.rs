//! What a merge takes from its victims: the stored lines after it are those before it, but for
//! what it noted.

use crate::merge::{
    keys_statement, lifecycle_statement, merge_step, row_ids, run_after, ActionV, EventV,
    MergeRequest,
};
use crate::merge_effects::{
    pointed, points, restated, stored_after, Line, Lines, Scope, Stored,
};
use crate::merge_parts::LineTableInfo;
use crate::merge_record::{line_key, listed, note_ids, noted_ids, notes_of, Fate, NoteV};
use crate::sql::{ident_char, valid_ident, SqlV, StatementV};
use vstd::prelude::*;

verus! {

/// What a merge changes: one of its victims, and a table of lines.
pub open spec fn scope_of(q: MergeRequest, victim: i64, table: Seq<char>) -> Scope {
    Scope { head: q.head_table@, dict: q.dict_code@, victim, group: q.match_group_id, table }
}

/// The query for all lines of a head row.
pub open spec fn ids_statement(t: LineTableInfo, parent: i64) -> StatementV {
    StatementV {
        sql: "SELECT id FROM "@ + t.table@ + " WHERE "@ + t.parent_field@ + " = $1 ORDER BY id"@,
        params: seq![SqlV::Int(parent)],
    }
}

/// The ids are those of the lines that point at a head row, of all or of those that are published.
pub open spec fn lists(
    ids: Seq<i64>,
    x: Lines,
    column: Seq<char>,
    parent: i64,
    published: bool,
) -> bool {
    forall|id: i64| #[trigger]
        ids.contains(id) <==> x.dom().contains(id) && points(x[id], column, parent) && (published
            ==> x[id].status == "published"@)
}

/// What comes of an action is true of what is stored: queries for lines of the table find those
/// that are there, and a move of the victim counts a row where the victim is in the state named.
pub open spec fn tells(w: Scope, x: Stored, action: ActionV, ev: EventV) -> bool {
    match action {
        ActionV::Query(s) => {
            &&& forall|t: LineTableInfo, p: i64|
                t.table@ == w.table && s == #[trigger] ids_statement(t, p) ==> lists(
                    row_ids(ev.rows),
                    x.lines,
                    t.parent_field@,
                    p,
                    false,
                )
            &&& forall|t: LineTableInfo, p: i64|
                t.table@ == w.table && s == #[trigger] keys_statement(t, p) ==> lists(
                    row_ids(ev.rows),
                    x.lines,
                    t.parent_field@,
                    p,
                    true,
                )
        },
        ActionV::Execute(s) => forall|from: Seq<char>, to: Seq<char>|
            s == #[trigger] lifecycle_statement(w.head, w.victim, from, to) ==> (ev.affected > 0
                <==> x.victim == from),
        _ => true,
    }
}

/// What is stored once an action was taken.
pub open spec fn acted(w: Scope, action: ActionV, x: Stored) -> Stored {
    match action {
        ActionV::Execute(s) => stored_after(w, s, x),
        _ => x,
    }
}

/// The action of a merge after a series of events, the first of which only starts it.
pub open spec fn asked(q: MergeRequest, evs: Seq<EventV>) -> ActionV {
    merge_step(q, run_after(q, evs.drop_last()), evs.last()).1
}

/// What is stored after a series of events: each but the first came of the action before it.
pub open spec fn merged_store(q: MergeRequest, w: Scope, x: Stored, evs: Seq<EventV>) -> Stored
    decreases evs.len(),
{
    if evs.len() <= 1 {
        x
    } else {
        let d = evs.drop_last();
        acted(w, asked(q, d), merged_store(q, w, x, d))
    }
}

/// The events are true of what was stored when they came.
pub open spec fn truthful(q: MergeRequest, w: Scope, x: Stored, evs: Seq<EventV>) -> bool
    decreases evs.len(),
{
    evs.len() <= 1 || {
        let d = evs.drop_last();
        truthful(q, w, x, d) && tells(w, merged_store(q, w, x, d), asked(q, d), evs.last())
    }
}

/// A table of lines is none of the tables of heads, cross references and merge requests.
pub open spec fn is_apart(q: MergeRequest, table: Seq<char>) -> bool {
    table != q.head_table@ && table != "md_xref"@ && table != "md_merge_record"@
}

/// The heads are none of the service's own tables, and the lines are apart from both.
pub open spec fn tables_apart(q: MergeRequest) -> bool {
    &&& q.head_table@ != "md_xref"@
    &&& q.head_table@ != "md_merge_record"@
    &&& forall|i: int|
        0 <= i < q.line_tables@.len() ==> is_apart(q, (#[trigger] q.line_tables@[i]).table@)
}

/// The names of a table may stand in a statement.
pub open spec fn well_named(t: LineTableInfo) -> bool {
    valid_ident(t.table@) && valid_ident(t.parent_field@)
}

/// The names of the first `n` tables may.
pub open spec fn named(q: MergeRequest, n: int) -> bool {
    forall|j: int| 0 <= j < n ==> well_named(#[trigger] q.line_tables@[j])
}

/// The lines of table `u` belong to a table, under a column.
pub open spec fn hangs(q: MergeRequest, u: int, table: Seq<char>, column: Seq<char>) -> bool {
    0 <= u < q.line_tables@.len() && q.line_tables@[u].table@ == table
        && q.line_tables@[u].parent_field@ == column
}

/// What the lines of table `u` are recorded under.
pub open spec fn key_at(q: MergeRequest, u: int) -> Seq<char> {
    line_key(q.line_tables@, q.line_tables@[u])
}

/// A line was noted, by its key of table `u`, to have gone to the master.
pub open spec fn moved_at(
    q: MergeRequest,
    notes: Seq<NoteV>,
    table: Seq<char>,
    column: Seq<char>,
    id: i64,
    u: int,
) -> bool {
    hangs(q, u, table, column) && noted_ids(notes, key_at(q, u), Fate::Moved).contains(id)
}

/// A line was noted to have gone to the master, by one of its columns.
pub open spec fn moved_in(
    q: MergeRequest,
    notes: Seq<NoteV>,
    table: Seq<char>,
    column: Seq<char>,
    id: i64,
) -> bool {
    exists|u: int| moved_at(q, notes, table, column, id, u)
}

/// A line was noted, by its key of table `u`, to have been retired.
pub open spec fn retired_at(
    q: MergeRequest,
    notes: Seq<NoteV>,
    table: Seq<char>,
    id: i64,
    u: int,
) -> bool {
    0 <= u < q.line_tables@.len() && q.line_tables@[u].table@ == table && noted_ids(
        notes,
        key_at(q, u),
        Fate::Retired,
    ).contains(id)
}

/// A line was noted to have been retired.
pub open spec fn retired_in(
    q: MergeRequest,
    notes: Seq<NoteV>,
    table: Seq<char>,
    id: i64,
) -> bool {
    exists|u: int| retired_at(q, notes, table, id, u)
}

/// A line after what was noted of it.
pub open spec fn taken_line(
    q: MergeRequest,
    notes: Seq<NoteV>,
    table: Seq<char>,
    l: Line,
    id: i64,
) -> Line {
    Line {
        parents: Map::new(
            |c: Seq<char>| l.parents.dom().contains(c) || moved_in(q, notes, table, c, id),
            |c: Seq<char>|
                if moved_in(q, notes, table, c, id) {
                    q.master_id
                } else {
                    l.parents[c]
                },
        ),
        status: if retired_in(q, notes, table, id) {
            "merged"@
        } else {
            l.status
        },
    }
}

/// The lines of a table after what was noted of them.
pub open spec fn taken(q: MergeRequest, notes: Seq<NoteV>, table: Seq<char>, x: Lines) -> Lines {
    Map::new(
        |id: i64| x.dom().contains(id),
        |id: i64| taken_line(q, notes, table, x[id], id),
    )
}

/// A line is noted as one of a victim.
pub open spec fn noted_of(
    q: MergeRequest,
    notes: Seq<NoteV>,
    victim: i64,
    u: int,
    f: Fate,
    id: i64,
) -> bool {
    noted_ids(notes_of(notes, victim), key_at(q, u), f).contains(id)
}

/// What is noted as a victim's was the victim's, and what is noted as retired was published.
pub open spec fn owned(
    q: MergeRequest,
    notes: Seq<NoteV>,
    table: Seq<char>,
    x: Lines,
) -> bool {
    forall|victim: i64, u: int, f: Fate, id: i64|
        0 <= u < q.line_tables@.len() && q.line_tables@[u].table@ == table && #[trigger] noted_of(
            q,
            notes,
            victim,
            u,
            f,
            id,
        ) ==> x.dom().contains(id) && points(x[id], q.line_tables@[u].parent_field@, victim) && (f
            == Fate::Retired ==> x[id].status == "published"@)
}

proof fn lemma_listed(tables: Seq<LineTableInfo>, table: Seq<char>, i: int)
    requires
        0 <= i < tables.len(),
        tables[i].table@ == table,
    ensures
        listed(tables, table) >= 1,
    decreases tables.len(),
{
    if i < tables.len() - 1 {
        lemma_listed(tables.drop_last(), table, i);
    }
}

proof fn lemma_listed_twice(tables: Seq<LineTableInfo>, table: Seq<char>, i: int, j: int)
    requires
        0 <= i < j < tables.len(),
        tables[i].table@ == table,
        tables[j].table@ == table,
    ensures
        listed(tables, table) >= 2,
    decreases tables.len(),
{
    if j < tables.len() - 1 {
        lemma_listed_twice(tables.drop_last(), table, i, j);
    } else {
        lemma_listed(tables.drop_last(), table, i);
    }
}

proof fn lemma_dotted(a: Seq<char>, b: Seq<char>, c: Seq<char>, d: Seq<char>)
    requires
        valid_ident(a),
        valid_ident(c),
    ensures
        a != c + "."@ + d,
        a + "."@ + b == c + "."@ + d ==> a == c && b == d,
{
    reveal_strlit(".");
    let x = a + "."@ + b;
    let y = c + "."@ + d;
    assert(y[c.len() as int] == '.');
    assert(x[a.len() as int] == '.');
    if a == y {
        assert(ident_char(a[c.len() as int]));
    }
    if x == y {
        if a.len() < c.len() {
            assert(y[a.len() as int] == c[a.len() as int]);
            assert(ident_char(c[a.len() as int]));
        }
        if c.len() < a.len() {
            assert(x[c.len() as int] == a[c.len() as int]);
            assert(ident_char(a[c.len() as int]));
        }
        assert(x.subrange(0, a.len() as int) =~= a);
        assert(y.subrange(0, c.len() as int) =~= c);
        assert(x.subrange(a.len() as int + 1, x.len() as int) =~= b);
        assert(y.subrange(c.len() as int + 1, y.len() as int) =~= d);
    }
}

/// Lines under one key belong to one table, under one column.
pub proof fn lemma_keys(q: MergeRequest, i: int, j: int)
    requires
        named(q, q.line_tables@.len() as int),
        0 <= i < q.line_tables@.len(),
        0 <= j < q.line_tables@.len(),
        key_at(q, i) == key_at(q, j),
    ensures
        q.line_tables@[i].table@ == q.line_tables@[j].table@,
        q.line_tables@[i].parent_field@ == q.line_tables@[j].parent_field@,
{
    let a = q.line_tables@[i];
    let b = q.line_tables@[j];
    assert(well_named(a) && well_named(b));
    lemma_dotted(a.table@, a.parent_field@, b.table@, b.parent_field@);
    lemma_dotted(b.table@, b.parent_field@, a.table@, a.parent_field@);
    if listed(q.line_tables@, a.table@) <= 1 && listed(q.line_tables@, b.table@) <= 1 {
        if i < j {
            lemma_listed_twice(q.line_tables@, a.table@, i, j);
        } else if j < i {
            lemma_listed_twice(q.line_tables@, a.table@, j, i);
        }
    }
}

pub proof fn lemma_noted_push(notes: Seq<NoteV>, n: NoteV, key: Seq<char>, f: Fate, id: i64)
    ensures
        noted_ids(notes.push(n), key, f).contains(id) <==> noted_ids(notes, key, f).contains(id)
            || (n.key == key && note_ids(n, f).contains(id)),
{
    let all = notes.push(n);
    assert(all.drop_last() =~= notes);
    assert(all.last() == n);
    let a = noted_ids(notes, key, f);
    let b = note_ids(n, f);
    let r = noted_ids(all, key, f);
    if n.key == key {
        assert(r == a + b);
        if a.contains(id) {
            let i = choose|i: int| 0 <= i < a.len() && a[i] == id;
            assert(r[i] == id);
        }
        if b.contains(id) {
            let i = choose|i: int| 0 <= i < b.len() && b[i] == id;
            assert(r[a.len() + i] == id);
        }
        if r.contains(id) {
            let i = choose|i: int| 0 <= i < r.len() && r[i] == id;
            if i < a.len() {
                assert(a[i] == id);
            } else {
                assert(b[i - a.len()] == id);
            }
        }
    }
}

pub proof fn lemma_notes_of_push(notes: Seq<NoteV>, n: NoteV, victim: i64)
    ensures
        notes_of(notes.push(n), victim) == (if n.victim == victim {
            notes_of(notes, victim).push(n)
        } else {
            notes_of(notes, victim)
        }),
{
    assert(notes.push(n).drop_last() =~= notes);
}

/// The note on the lines of table `u`.
pub open spec fn note_at(
    q: MergeRequest,
    victim: i64,
    u: int,
    moved: Seq<i64>,
    retired: Option<Seq<i64>>,
) -> NoteV {
    NoteV { victim, key: key_at(q, u), moved, retired }
}

proof fn lemma_moved_push(
    q: MergeRequest,
    notes: Seq<NoteV>,
    n: NoteV,
    u: int,
    table: Seq<char>,
    column: Seq<char>,
    id: i64,
)
    requires
        named(q, q.line_tables@.len() as int),
        0 <= u < q.line_tables@.len(),
        n.key == key_at(q, u),
    ensures
        moved_in(q, notes.push(n), table, column, id) <==> moved_in(q, notes, table, column, id)
            || (hangs(q, u, table, column) && n.moved.contains(id)),
{
    let all = notes.push(n);
    if moved_in(q, all, table, column, id) {
        let i = choose|i: int| moved_at(q, all, table, column, id, i);
        lemma_noted_push(notes, n, key_at(q, i), Fate::Moved, id);
        if noted_ids(notes, key_at(q, i), Fate::Moved).contains(id) {
            assert(moved_at(q, notes, table, column, id, i));
        } else {
            lemma_keys(q, u, i);
        }
    }
    if moved_in(q, notes, table, column, id) {
        let i = choose|i: int| moved_at(q, notes, table, column, id, i);
        lemma_noted_push(notes, n, key_at(q, i), Fate::Moved, id);
        assert(moved_at(q, all, table, column, id, i));
    }
    if hangs(q, u, table, column) && n.moved.contains(id) {
        lemma_noted_push(notes, n, key_at(q, u), Fate::Moved, id);
        assert(moved_at(q, all, table, column, id, u));
    }
}

proof fn lemma_retired_push(
    q: MergeRequest,
    notes: Seq<NoteV>,
    n: NoteV,
    u: int,
    table: Seq<char>,
    id: i64,
)
    requires
        named(q, q.line_tables@.len() as int),
        0 <= u < q.line_tables@.len(),
        n.key == key_at(q, u),
    ensures
        retired_in(q, notes.push(n), table, id) <==> retired_in(q, notes, table, id) || (
        q.line_tables@[u].table@ == table && note_ids(n, Fate::Retired).contains(id)),
{
    let all = notes.push(n);
    if retired_in(q, all, table, id) {
        let i = choose|i: int| retired_at(q, all, table, id, i);
        lemma_noted_push(notes, n, key_at(q, i), Fate::Retired, id);
        if noted_ids(notes, key_at(q, i), Fate::Retired).contains(id) {
            assert(retired_at(q, notes, table, id, i));
        } else {
            lemma_keys(q, u, i);
        }
    }
    if retired_in(q, notes, table, id) {
        let i = choose|i: int| retired_at(q, notes, table, id, i);
        lemma_noted_push(notes, n, key_at(q, i), Fate::Retired, id);
        assert(retired_at(q, all, table, id, i));
    }
    if q.line_tables@[u].table@ == table && note_ids(n, Fate::Retired).contains(id) {
        lemma_noted_push(notes, n, key_at(q, u), Fate::Retired, id);
        assert(retired_at(q, all, table, id, u));
    }
}

/// What a note adds to what was taken.
pub proof fn lemma_taken_push(
    q: MergeRequest,
    notes: Seq<NoteV>,
    n: NoteV,
    u: int,
    table: Seq<char>,
    x: Lines,
)
    requires
        named(q, q.line_tables@.len() as int),
        0 <= u < q.line_tables@.len(),
        n.key == key_at(q, u),
    ensures
        q.line_tables@[u].table@ != table ==> taken(q, notes.push(n), table, x) == taken(
            q,
            notes,
            table,
            x,
        ),
        q.line_tables@[u].table@ == table && note_ids(n, Fate::Retired).len() == 0 ==> taken(
            q,
            notes.push(n),
            table,
            x,
        ) == pointed(
            taken(q, notes, table, x),
            q.line_tables@[u].parent_field@,
            n.moved,
            q.master_id,
        ),
{
    let a = taken(q, notes, table, x);
    let b = taken(q, notes.push(n), table, x);
    let column = q.line_tables@[u].parent_field@;
    assert forall|id: i64| x.dom().contains(id) implies (q.line_tables@[u].table@ != table
        ==> #[trigger] b[id] == a[id]) && (q.line_tables@[u].table@ == table && note_ids(
        n,
        Fate::Retired,
    ).len() == 0 ==> b[id] == pointed(a, column, n.moved, q.master_id)[id]) by {
        lemma_retired_push(q, notes, n, u, table, id);
        assert forall|c: Seq<char>| #[trigger]
            moved_in(q, notes.push(n), table, c, id) <==> moved_in(q, notes, table, c, id) || (
            hangs(q, u, table, c) && n.moved.contains(id)) by {
            lemma_moved_push(q, notes, n, u, table, c, id);
        }
        if q.line_tables@[u].table@ != table {
            assert(b[id].parents =~= a[id].parents);
        } else if note_ids(n, Fate::Retired).len() == 0 {
            let d = pointed(a, column, n.moved, q.master_id);
            assert(hangs(q, u, table, column));
            assert forall|c: Seq<char>|
                b[id].parents.dom().contains(c) == d[id].parents.dom().contains(c) && (
                b[id].parents.dom().contains(c) ==> #[trigger] b[id].parents[c]
                    == d[id].parents[c]) by {
                assert(moved_in(q, notes.push(n), table, c, id) <==> moved_in(
                    q,
                    notes,
                    table,
                    c,
                    id,
                ) || (hangs(q, u, table, c) && n.moved.contains(id)));
            }
            assert(b[id].parents =~= d[id].parents);
            assert(b[id].status == d[id].status);
        }
    }
    if q.line_tables@[u].table@ != table {
        assert(b =~= a);
    } else if note_ids(n, Fate::Retired).len() == 0 {
        assert(b =~= pointed(a, column, n.moved, q.master_id));
    }
}

/// Retiring published lines adds them to what was taken.
pub proof fn lemma_taken_retire(
    q: MergeRequest,
    notes: Seq<NoteV>,
    victim: i64,
    u: int,
    moved: Seq<i64>,
    retired: Seq<i64>,
    table: Seq<char>,
    x: Lines,
)
    requires
        named(q, q.line_tables@.len() as int),
        0 <= u < q.line_tables@.len(),
        q.line_tables@[u].table@ == table,
        forall|id: i64| #[trigger]
            retired.contains(id) ==> taken(q, notes, table, x)[id].status == "published"@,
    ensures
        taken(q, notes.push(note_at(q, victim, u, moved, Some(retired))), table, x) == restated(
            taken(q, notes.push(note_at(q, victim, u, moved, Some(Seq::empty()))), table, x),
            retired,
            "published"@,
            "merged"@,
        ),
{
    let n = note_at(q, victim, u, moved, Some(retired));
    let m = note_at(q, victim, u, moved, Some(Seq::empty()));
    let a = taken(q, notes.push(m), table, x);
    let b = taken(q, notes.push(n), table, x);
    let r = restated(a, retired, "published"@, "merged"@);
    assert forall|id: i64| x.dom().contains(id) implies #[trigger] b[id] == r[id] by {
        lemma_retired_push(q, notes, n, u, table, id);
        lemma_retired_push(q, notes, m, u, table, id);
        assert forall|c: Seq<char>|
            #[trigger] moved_in(q, notes.push(n), table, c, id) <==> moved_in(
                q,
                notes.push(m),
                table,
                c,
                id,
            ) by {
            lemma_moved_push(q, notes, n, u, table, c, id);
            lemma_moved_push(q, notes, m, u, table, c, id);
        }
        assert(b[id].parents =~= r[id].parents);
        if retired.contains(id) {
            assert(taken(q, notes, table, x)[id].status == "published"@);
        }
        assert(b[id].status == r[id].status);
    }
    assert(b =~= r);
}

/// The ids are those of lines that point at a victim, and those to be retired are published.
pub open spec fn at_hand(
    c: Lines,
    column: Seq<char>,
    victim: i64,
    moved: Seq<i64>,
    retired: Seq<i64>,
) -> bool {
    &&& forall|id: i64| #[trigger]
        moved.contains(id) ==> c.dom().contains(id) && points(c[id], column, victim)
    &&& forall|id: i64| #[trigger]
        retired.contains(id) ==> c.dom().contains(id) && points(c[id], column, victim)
            && c[id].status == "published"@
}

/// What a victim has at the time was its own before.
pub proof fn lemma_owned_push(
    q: MergeRequest,
    notes: Seq<NoteV>,
    n: NoteV,
    u: int,
    table: Seq<char>,
    x: Lines,
)
    requires
        named(q, q.line_tables@.len() as int),
        0 <= u < q.line_tables@.len(),
        n.key == key_at(q, u),
        n.victim != q.master_id,
        owned(q, notes, table, x),
        q.line_tables@[u].table@ == table ==> at_hand(
            taken(q, notes, table, x),
            q.line_tables@[u].parent_field@,
            n.victim,
            n.moved,
            note_ids(n, Fate::Retired),
        ),
    ensures
        owned(q, notes.push(n), table, x),
{
    reveal_strlit("merged");
    reveal_strlit("published");
    assert("merged"@.len() != "published"@.len());
    let all = notes.push(n);
    assert forall|victim: i64, i: int, f: Fate, id: i64|
        0 <= i < q.line_tables@.len() && q.line_tables@[i].table@ == table && #[trigger] noted_of(
            q,
            all,
            victim,
            i,
            f,
            id,
        ) implies x.dom().contains(id) && points(x[id], q.line_tables@[i].parent_field@, victim)
        && (f == Fate::Retired ==> x[id].status == "published"@) by {
        lemma_notes_of_push(notes, n, victim);
        lemma_noted_push(notes_of(notes, victim), n, key_at(q, i), f, id);
        if noted_of(q, notes, victim, i, f, id) {
        } else {
            assert(n.victim == victim && n.key == key_at(q, i) && note_ids(n, f).contains(id));
            lemma_keys(q, u, i);
            let c = taken(q, notes, table, x);
            assert(c.dom().contains(id));
            assert(c[id] == taken_line(q, notes, table, x[id], id));
        }
    }
}

} // verus!
