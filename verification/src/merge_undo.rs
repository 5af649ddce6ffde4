//! A merge and its undo together: the undo gives back what the merge took.

use crate::json::JsonV;
use crate::merge::{
    lifecycle_statement, log_entry_json, merge_record, merge_step, run_after, EventV,
    MergeRequest, RunV,
};
use crate::merge_effects::{
    group_closed, hits_victim, lemma_lines_after, lemma_other_head, lemma_other_table,
    lemma_updates_head, lemma_updates_one, lemma_updates_table, pointed, points, restated,
    some_moved, some_set, stored_after, updates, xref_set, Line, Lines, Scope, Stored,
};
use crate::merge_parts::LineTableInfo;
use crate::merge_record::{
    law_record_tells_victims, line_key, lines_record, noted_ids, notes_of, record_value,
    recorded_ids, Fate, NoteV,
};
use crate::merge_taken::{
    hangs, is_apart, key_at, lemma_noted_push, lemma_notes_of_push, merged_store, moved_at,
    moved_in, noted_of, owned, retired_at, retired_in, scope_of, tables_apart, taken, taken_line,
    truthful, well_named,
};
use crate::merge_trace::{
    kept, lemma_elsewhere, lemma_head_name, lemma_merged, lemma_table_names, lemma_tail_harmless,
    lemma_victims, notes_on_victims, setting,
};
use crate::sql::{valid_ident, SqlV, StatementV};
use crate::store::query::first_bad;
use crate::unmerge::{
    closing_statements, line_statements, record_fits, record_in_group, undone, write_step,
    UndoActionV, UndoStageV, UnmergeRequest,
};
use vstd::prelude::*;

verus! {

/// What comes of an action of an undo; `row` is the row of the merge request.
pub open spec fn undo_told(w: Scope, row: JsonV, x: Stored, action: UndoActionV) -> (
    Stored,
    EventV,
) {
    match action {
        UndoActionV::Execute(s) => (
            stored_after(w, s, x),
            EventV {
                rows: Seq::empty(),
                affected: if hits_victim(w, s, x) {
                    1
                } else {
                    0
                },
            },
        ),
        _ => (x, EventV { rows: seq![row], affected: 0 }),
    }
}

/// The end of an undo that is at some stage, with an action to take and so many steps to go.
pub open spec fn undo_finished(
    u: UnmergeRequest,
    w: Scope,
    row: JsonV,
    stage: UndoStageV,
    action: UndoActionV,
    x: Stored,
    steps: nat,
) -> (Stored, UndoActionV)
    decreases steps,
{
    if action is Done || action is Fail || steps == 0 {
        (x, action)
    } else {
        let t = undo_told(w, row, x, action);
        let n = undone(u, stage, t.1);
        undo_finished(u, w, row, n.0, n.1, t.0, (steps - 1) as nat)
    }
}

/// A whole undo: what is stored at its end, and how it ends.
pub open spec fn undo_run(u: UnmergeRequest, w: Scope, row: JsonV, x: Stored) -> (
    Stored,
    UndoActionV,
) {
    let first = undone(u, UndoStageV::Start, EventV { rows: Seq::empty(), affected: 0 });
    undo_finished(u, w, row, first.0, first.1, x, 2 * u.line_tables@.len() + 5)
}

/// What a series of statements makes of what is stored.
pub open spec fn all_run(w: Scope, l: Seq<StatementV>, x: Stored) -> Stored
    decreases l.len(),
{
    if l.len() == 0 {
        x
    } else {
        stored_after(w, l.last(), all_run(w, l.drop_last(), x))
    }
}

proof fn lemma_all_run(w: Scope, a: Seq<StatementV>, b: Seq<StatementV>, x: Stored)
    ensures
        all_run(w, a + b, x) == all_run(w, b, all_run(w, a, x)),
    decreases b.len(),
{
    if b.len() == 0 {
        assert(a + b =~= a);
    } else {
        assert((a + b).drop_last() =~= a + b.drop_last());
        assert((a + b).last() == b.last());
        lemma_all_run(w, a, b.drop_last(), x);
    }
}

proof fn lemma_writing(
    u: UnmergeRequest,
    w: Scope,
    row: JsonV,
    left: Seq<StatementV>,
    x: Stored,
    steps: nat,
)
    requires
        steps >= left.len(),
    ensures
        undo_finished(u, w, row, write_step(left).0, write_step(left).1, x, steps) == (
            all_run(w, left, x),
            UndoActionV::Done,
        ),
    decreases left.len(),
{
    if left.len() > 0 {
        let y = stored_after(w, left[0], x);
        lemma_writing(u, w, row, left.drop_first(), y, (steps - 1) as nat);
        assert(seq![left[0]] + left.drop_first() =~= left);
        assert(seq![left[0]].drop_last() =~= Seq::<StatementV>::empty());
        assert(all_run(w, seq![left[0]].drop_last(), x) == x);
        assert(all_run(w, seq![left[0]], x) == y);
        lemma_all_run(w, seq![left[0]], left.drop_first(), x);
    }
}

/// The undo undoes the merge: it is asked of the same tables and merge request.
pub open spec fn undoes(u: UnmergeRequest, q: MergeRequest) -> bool {
    &&& u.dict_code@ == q.dict_code@
    &&& u.head_table@ == q.head_table@
    &&& u.master_id == q.master_id
    &&& u.line_tables@ == q.line_tables@
    &&& u.match_group_id == q.match_group_id
}

/// The lines of table `i` that a record lists as moved.
spec fn told_moved(q: MergeRequest, record: JsonV, i: int) -> Seq<i64> {
    recorded_ids(record, "reparented"@, key_at(q, i))
}

/// The lines of table `i` that a record lists as retired.
spec fn told_retired(q: MergeRequest, record: JsonV, i: int) -> Seq<i64> {
    recorded_ids(record, "deduped"@, key_at(q, i))
}

/// The lines of a table once those of the first `n` tables were given back.
spec fn given(
    q: MergeRequest,
    table: Seq<char>,
    c: Lines,
    record: JsonV,
    victim: i64,
    n: int,
) -> Lines
    decreases n,
{
    if n <= 0 {
        c
    } else {
        let y = given(q, table, c, record, victim, n - 1);
        let t = q.line_tables@[n - 1];
        if t.table@ == table {
            restated(
                pointed(y, t.parent_field@, told_moved(q, record, n - 1), victim),
                told_retired(q, record, n - 1),
                "merged"@,
                "published"@,
            )
        } else {
            y
        }
    }
}

/// What the statements of an undo for the first `n` tables make of the lines.
proof fn lemma_given(
    q: MergeRequest,
    w: Scope,
    record: JsonV,
    victim: i64,
    c: Stored,
    n: nat,
)
    requires
        setting(q, w),
        n <= q.line_tables@.len(),
    ensures
        ({
            let r = line_statements(q.line_tables@, n, record, victim);
            &&& r is Ok
            &&& r->Ok_0.len() <= 2 * n
            &&& all_run(w, r->Ok_0, c).victim == c.victim
            &&& all_run(w, r->Ok_0, c).lines == given(
                q,
                w.table,
                c.lines,
                record,
                victim,
                n as int,
            )
        }),
    decreases n,
{
    if n > 0 {
        let m = (n - 1) as nat;
        lemma_given(q, w, record, victim, c, m);
        let t = q.line_tables@[m as int];
        assert(well_named(t));
        assert(is_apart(q, t.table@));
        lemma_table_names(t);
        let moved = told_moved(q, record, m as int);
        let retired = told_retired(q, record, m as int);
        let l0 = line_statements(q.line_tables@, m, record, victim)->Ok_0;
        let s1 = some_moved(t.table@, t.parent_field@, moved, victim);
        let s2 = some_set(t.table@, retired, "merged"@, "published"@);
        let l1 = if moved.len() > 0 {
            l0.push(s1)
        } else {
            l0
        };
        let l2 = if retired.len() > 0 {
            l1.push(s2)
        } else {
            l1
        };
        assert(line_statements(q.line_tables@, n, record, victim) == Ok::<
            Seq<StatementV>,
            Seq<char>,
        >(l2));
        let c0 = all_run(w, l0, c);
        let c1 = all_run(w, l1, c);
        let c2 = all_run(w, l2, c);
        lemma_updates_table(t.table@, s1);
        lemma_updates_table(t.table@, s2);
        lemma_elsewhere(q, w, s1, t.table@, c0);
        lemma_elsewhere(q, w, s2, t.table@, c1);
        if moved.len() > 0 {
            assert(l1.drop_last() =~= l0);
        } else {
            assert(moved =~= Seq::empty());
        }
        if retired.len() > 0 {
            assert(l2.drop_last() =~= l1);
        } else {
            assert(retired =~= Seq::empty());
        }
        if t.table@ == w.table {
            let column = t.parent_field@;
            lemma_lines_after(w.table, column, c0.lines, moved, victim, victim, ""@, ""@);
            lemma_lines_after(
                w.table,
                column,
                c1.lines,
                retired,
                victim,
                victim,
                "merged"@,
                "published"@,
            );
            if moved.len() == 0 {
                assert(pointed(c0.lines, column, moved, victim) =~= c0.lines);
            }
            assert(c1.lines == pointed(c0.lines, column, moved, victim));
            if retired.len() == 0 {
                assert(restated(c1.lines, retired, "merged"@, "published"@) =~= c1.lines);
            }
            assert(c2.lines == restated(c1.lines, retired, "merged"@, "published"@));
        }
    }
}

/// A line comes back under a column, by what is told of table `i`.
spec fn back_at(
    q: MergeRequest,
    table: Seq<char>,
    column: Seq<char>,
    record: JsonV,
    id: i64,
    i: int,
) -> bool {
    hangs(q, i, table, column) && told_moved(q, record, i).contains(id)
}

/// A line comes back under a column, by what is told of one of the first `n` tables.
spec fn back_in(
    q: MergeRequest,
    table: Seq<char>,
    column: Seq<char>,
    record: JsonV,
    id: i64,
    n: int,
) -> bool {
    exists|i: int| i < n && #[trigger] back_at(q, table, column, record, id, i)
}

/// A line is published again, by what is told of table `i`.
spec fn revived_at(q: MergeRequest, table: Seq<char>, record: JsonV, id: i64, i: int) -> bool {
    0 <= i < q.line_tables@.len() && q.line_tables@[i].table@ == table && told_retired(
        q,
        record,
        i,
    ).contains(id)
}

/// A line is published again, by what is told of one of the first `n` tables.
spec fn revived_in(q: MergeRequest, table: Seq<char>, record: JsonV, id: i64, n: int) -> bool {
    exists|i: int| i < n && #[trigger] revived_at(q, table, record, id, i)
}

/// The head row that a column of a line points at.
pub open spec fn head_of(l: Line, column: Seq<char>) -> Option<i64> {
    if l.parents.dom().contains(column) {
        Some(l.parents[column])
    } else {
        None
    }
}

/// What was given back of a line.
proof fn lemma_given_line(
    q: MergeRequest,
    table: Seq<char>,
    c: Lines,
    record: JsonV,
    victim: i64,
    n: int,
    id: i64,
)
    requires
        0 <= n <= q.line_tables@.len(),
        c.dom().contains(id),
    ensures
        ({
            let y = given(q, table, c, record, victim, n);
            &&& y.dom().contains(id)
            &&& forall|column: Seq<char>| #[trigger]
                head_of(y[id], column) == (if back_in(q, table, column, record, id, n) {
                    Some(victim)
                } else {
                    head_of(c[id], column)
                })
            &&& y[id].status == (if revived_in(q, table, record, id, n) && c[id].status
                == "merged"@ {
                "published"@
            } else {
                c[id].status
            })
        }),
    decreases n,
{
    reveal_strlit("merged");
    reveal_strlit("published");
    assert("merged"@.len() != "published"@.len());
    if n > 0 {
        lemma_given_line(q, table, c, record, victim, n - 1, id);
        let t = q.line_tables@[n - 1];
        let z = given(q, table, c, record, victim, n - 1);
        let y = given(q, table, c, record, victim, n);
        assert(revived_in(q, table, record, id, n) <==> revived_in(q, table, record, id, n - 1)
            || revived_at(q, table, record, id, n - 1)) by {
            if revived_in(q, table, record, id, n) {
                let i = choose|i: int| i < n && #[trigger] revived_at(q, table, record, id, i);
                assert(i < n - 1 || i == n - 1);
            }
            if revived_in(q, table, record, id, n - 1) {
                let i = choose|i: int|
                    i < n - 1 && #[trigger] revived_at(q, table, record, id, i);
                assert(i < n && revived_at(q, table, record, id, i));
            }
        }
        assert forall|column: Seq<char>| #[trigger]
            head_of(y[id], column) == (if back_in(q, table, column, record, id, n) {
                Some(victim)
            } else {
                head_of(c[id], column)
            }) by {
            assert(back_in(q, table, column, record, id, n) <==> back_in(
                q,
                table,
                column,
                record,
                id,
                n - 1,
            ) || back_at(q, table, column, record, id, n - 1)) by {
                if back_in(q, table, column, record, id, n) {
                    let i = choose|i: int|
                        i < n && #[trigger] back_at(q, table, column, record, id, i);
                    assert(i < n - 1 || i == n - 1);
                }
                if back_in(q, table, column, record, id, n - 1) {
                    let i = choose|i: int|
                        i < n - 1 && #[trigger] back_at(q, table, column, record, id, i);
                    assert(i < n && back_at(q, table, column, record, id, i));
                }
            }
            assert(head_of(z[id], column) == (if back_in(
                q,
                table,
                column,
                record,
                id,
                n - 1,
            ) {
                Some(victim)
            } else {
                head_of(c[id], column)
            }));
        }
    } else {
        assert forall|column: Seq<char>| !#[trigger] back_in(
            q,
            table,
            column,
            record,
            id,
            0,
        ) by {}
        assert(!revived_in(q, table, record, id, 0));
    }
}

proof fn lemma_given_dom(
    q: MergeRequest,
    table: Seq<char>,
    c: Lines,
    record: JsonV,
    victim: i64,
    n: int,
)
    ensures
        given(q, table, c, record, victim, n).dom() =~= c.dom(),
    decreases n,
{
    if n > 0 {
        lemma_given_dom(q, table, c, record, victim, n - 1);
    }
}

/// The last statements of an undo.
proof fn lemma_closing(q: MergeRequest, w: Scope, u: UnmergeRequest, x: Stored)
    requires
        setting(q, w),
        undoes(u, q),
        u.victim_id == w.victim,
    ensures
        all_run(w, closing_statements(u), x) == (Stored {
            xref: "active"@,
            group: "unmerged"@,
            ..x
        }),
{
    let l = closing_statements(u);
    let a = l[0];
    let b = l[1];
    let c = l[2];
    lemma_tail_harmless(q, w, a);
    lemma_tail_harmless(q, w, b);
    lemma_tail_harmless(q, w, c);
    assert(l.drop_last() =~= seq![a, b]);
    assert(seq![a, b].drop_last() =~= seq![a]);
    assert(seq![a].drop_last() =~= Seq::<StatementV>::empty());
    reveal_with_fuel(all_run, 4);
    let x1 = stored_after(w, a, x);
    let x2 = stored_after(w, b, x1);
    let x3 = stored_after(w, c, x2);
    assert(all_run(w, l, x) == x3);
    assert(a == xref_set(w.dict, w.victim, "active"@));
    assert(x1.xref == "active"@);
    assert(b.params.len() == 10);
    assert(x2.xref == "active"@);
    assert(c.params.len() == 4);
    assert(x3.xref == "active"@);
    assert(group_closed(c, w.group));
    assert(x3.group == "unmerged"@);
    assert(kept(w, a, x) && kept(w, b, x1) && kept(w, c, x2));
    assert(x3 =~= (Stored { xref: "active"@, group: "unmerged"@, ..x }));
}

/// An undo of a victim that is not merged fails, and changes nothing.
pub proof fn law_undo_twice(u: UnmergeRequest, w: Scope, row: JsonV, x: Stored)
    requires
        w.head == u.head_table@,
        w.victim == u.victim_id,
        w.table != w.head,
        valid_ident(w.table),
        x.victim != "merged"@,
    ensures
        undo_run(u, w, row, x).0 == x,
        undo_run(u, w, row, x).1 is Fail,
{
    lemma_head_name(u.head_table@);
    reveal_with_fuel(undo_finished, 3);
    if valid_ident(u.head_table@) {
        let s = lifecycle_statement(w.head, w.victim, "merged"@, "published"@);
        lemma_updates_head(w.head, w.victim, "merged"@, "published"@);
        let other = lifecycle_statement(w.head, w.victim, x.victim, "published"@);
        assert(s.params[2] == SqlV::Text("merged"@));
        assert(other.params[2] == SqlV::Text(x.victim));
        assert(!hits_victim(w, s, x));
        if updates(s, w.table) {
            lemma_updates_one(s, w.table, w.head);
        }
        lemma_other_table(w.table, s, x.lines);
        assert(s.params[1] is Int);
        assert(xref_set(w.dict, w.victim, s.params[0]->Text_0).params[1] is Text);
        assert(stored_after(w, s, x) =~= x);
    }
}

/// The first steps of an undo: the victim is published, and the merge request is read.
proof fn lemma_undo_begins(
    u: UnmergeRequest,
    w: Scope,
    row: JsonV,
    x: Stored,
    c: Stored,
    left: Seq<StatementV>,
    steps: nat,
)
    requires
        steps >= 2,
        w.head == u.head_table@,
        w.victim == u.victim_id,
        first_bad(seq![u.head_table@]) is None,
        x.victim == "merged"@,
        c == stored_after(
            w,
            lifecycle_statement(w.head, w.victim, "merged"@, "published"@),
            x,
        ),
        undone(u, UndoStageV::Group, EventV { rows: seq![row], affected: 0 }) == write_step(left),
    ensures
        ({
            let first = undone(
                u,
                UndoStageV::Start,
                EventV { rows: Seq::empty(), affected: 0 },
            );
            undo_finished(u, w, row, first.0, first.1, x, steps) == undo_finished(
                u,
                w,
                row,
                write_step(left).0,
                write_step(left).1,
                c,
                (steps - 2) as nat,
            )
        }),
{
    reveal_with_fuel(undo_finished, 3);
    let s = lifecycle_statement(w.head, w.victim, "merged"@, "published"@);
    assert(hits_victim(w, s, x));
}

/// What an undo makes of what a merge left.
proof fn lemma_undone(
    q: MergeRequest,
    w: Scope,
    u: UnmergeRequest,
    row: JsonV,
    merged: Stored,
)
    requires
        setting(q, w),
        undoes(u, q),
        u.victim_id == w.victim,
        merged.victim == "merged"@,
        record_fits(q.line_tables@, lines_record(record_in_group(row), w.victim)),
    ensures
        ({
            let r = undo_run(u, w, row, merged);
            let record = lines_record(record_in_group(row), w.victim);
            &&& r.1 is Done
            &&& r.0.victim == "published"@
            &&& r.0.xref == "active"@
            &&& r.0.group == "unmerged"@
            &&& r.0.lines == given(
                q,
                w.table,
                merged.lines,
                record,
                w.victim,
                q.line_tables@.len() as int,
            )
            &&& undo_run(u, w, row, r.0).0 == r.0
            &&& undo_run(u, w, row, r.0).1 is Fail
        }),
{
    let victim = w.victim;
    let tables = q.line_tables@;
    let record = lines_record(record_in_group(row), victim);
    let steps = 2 * tables.len() + 5;
    let s = lifecycle_statement(w.head, victim, "merged"@, "published"@);
    lemma_head_name(q.head_table@);
    lemma_updates_head(w.head, victim, "merged"@, "published"@);
    if updates(s, w.table) {
        lemma_updates_one(s, w.table, w.head);
    }
    lemma_other_table(w.table, s, merged.lines);
    assert(hits_victim(w, s, merged));
    let c = stored_after(w, s, merged);
    assert(c.victim == "published"@ && c.lines == merged.lines);
    lemma_given(q, w, record, victim, c, tables.len());
    let l = line_statements(tables, tables.len(), record, victim)->Ok_0;
    let left = l + closing_statements(u);
    lemma_all_run(w, l, closing_statements(u), c);
    lemma_closing(q, w, u, all_run(w, l, c));
    lemma_writing(u, w, row, left, c, (steps - 2) as nat);
    lemma_undo_begins(u, w, row, merged, c, left, steps);
    let r = undo_run(u, w, row, merged);
    reveal_strlit("published");
    reveal_strlit("merged");
    assert("published"@.len() != "merged"@.len());
    law_undo_twice(u, w, row, r.0);
}

/// What is noted is noted of some victim.
proof fn lemma_noted_by(notes: Seq<NoteV>, key: Seq<char>, f: Fate, id: i64) -> (victim: i64)
    requires
        noted_ids(notes, key, f).contains(id),
    ensures
        noted_ids(notes_of(notes, victim), key, f).contains(id),
        exists|i: int| 0 <= i < notes.len() && #[trigger] notes[i].victim == victim,
    decreases notes.len(),
{
    let d = notes.drop_last();
    let n = notes.last();
    assert(d.push(n) =~= notes);
    lemma_noted_push(d, n, key, f, id);
    if noted_ids(d, key, f).contains(id) {
        let victim = lemma_noted_by(d, key, f, id);
        lemma_notes_of_push(d, n, victim);
        lemma_noted_push(notes_of(d, victim), n, key, f, id);
        let i = choose|i: int| 0 <= i < d.len() && #[trigger] d[i].victim == victim;
        assert(notes[i].victim == victim);
        victim
    } else {
        lemma_notes_of_push(d, n, n.victim);
        lemma_noted_push(notes_of(d, n.victim), n, key, f, id);
        assert(notes[notes.len() - 1].victim == n.victim);
        n.victim
    }
}

/// What is noted of a victim is noted.
proof fn lemma_noted_all(notes: Seq<NoteV>, victim: i64, key: Seq<char>, f: Fate, id: i64)
    requires
        noted_ids(notes_of(notes, victim), key, f).contains(id),
    ensures
        noted_ids(notes, key, f).contains(id),
    decreases notes.len(),
{
    if notes.len() > 0 {
        let d = notes.drop_last();
        let n = notes.last();
        assert(d.push(n) =~= notes);
        lemma_noted_push(d, n, key, f, id);
        lemma_notes_of_push(d, n, victim);
        lemma_noted_push(notes_of(d, victim), n, key, f, id);
        if noted_ids(notes_of(d, victim), key, f).contains(id) {
            lemma_noted_all(d, victim, key, f, id);
        }
    }
}

/// A line of a table belongs to a victim other than one: a column that is listed for the table
/// points at it.
pub open spec fn of_another(
    q: MergeRequest,
    victims: Seq<i64>,
    victim: i64,
    table: Seq<char>,
    l: Line,
) -> bool {
    exists|i: int, other: i64|
        0 <= i < q.line_tables@.len() && q.line_tables@[i].table@ == table && other != victim
            && victims.contains(other) && #[trigger] points(
            l,
            q.line_tables@[i].parent_field@,
            other,
        )
}

/// What the undo of one of the victims of a merge makes of a line, given the line before the
/// merge, after the merge and after the undo. A column points where it pointed before the merge,
/// unless that was at another of the victims: then it is left as the merge left it. The state is
/// what it was before the merge; that of a line of another victim may be left as the merge left it.
pub open spec fn given_back(
    q: MergeRequest,
    victims: Seq<i64>,
    victim: i64,
    table: Seq<char>,
    before: Line,
    merged: Line,
    after: Line,
) -> bool {
    &&& forall|column: Seq<char>| #[trigger]
        head_of(after, column) == match head_of(before, column) {
            Some(h) => if h != victim && victims.contains(h) {
                head_of(merged, column)
            } else {
                Some(h)
            },
            None => None,
        }
    &&& after.status == before.status || (after.status == merged.status && of_another(
        q,
        victims,
        victim,
        table,
        before,
    ))
}

/// The record tells of a victim what was noted of it.
spec fn tells_notes(q: MergeRequest, notes: Seq<NoteV>, victim: i64, record: JsonV) -> bool {
    forall|i: int|
        0 <= i < q.line_tables@.len() ==> #[trigger] told_moved(q, record, i) == noted_ids(
            notes_of(notes, victim),
            key_at(q, i),
            Fate::Moved,
        ) && told_retired(q, record, i) == noted_ids(
            notes_of(notes, victim),
            key_at(q, i),
            Fate::Retired,
        )
}

/// A column of a line that was noted as moved pointed at the victim of the note.
proof fn lemma_moved_from(
    q: MergeRequest,
    run: RunV,
    table: Seq<char>,
    column: Seq<char>,
    x: Lines,
    id: i64,
) -> (r: (i64, int))
    requires
        owned(q, run.notes, table, x),
        notes_on_victims(run),
        moved_in(q, run.notes, table, column, id),
    ensures
        hangs(q, r.1, table, column),
        noted_of(q, run.notes, r.0, r.1, Fate::Moved, id),
        run.victims.contains(r.0),
        points(x[id], column, r.0),
{
    let i = choose|i: int| moved_at(q, run.notes, table, column, id, i);
    let victim = lemma_noted_by(run.notes, key_at(q, i), Fate::Moved, id);
    assert(noted_of(q, run.notes, victim, i, Fate::Moved, id));
    (victim, i)
}

/// The columns of a line after an undo.
proof fn lemma_heads_back(
    q: MergeRequest,
    run: RunV,
    table: Seq<char>,
    x: Lines,
    victim: i64,
    record: JsonV,
    id: i64,
    column: Seq<char>,
)
    requires
        owned(q, run.notes, table, x),
        notes_on_victims(run),
        tells_notes(q, run.notes, victim, record),
        x.dom().contains(id),
    ensures
        ({
            let merged = taken(q, run.notes, table, x)[id];
            let back = if back_in(
                q,
                table,
                column,
                record,
                id,
                q.line_tables@.len() as int,
            ) {
                Some(victim)
            } else {
                head_of(merged, column)
            };
            back == match head_of(x[id], column) {
                Some(h) => if h != victim && run.victims.contains(h) {
                    head_of(merged, column)
                } else {
                    Some(h)
                },
                None => None,
            }
        }),
{
    let n = q.line_tables@.len() as int;
    let merged = taken(q, run.notes, table, x)[id];
    assert(merged == taken_line(q, run.notes, table, x[id], id));
    if back_in(q, table, column, record, id, n) {
        let i = choose|i: int| i < n && #[trigger] back_at(q, table, column, record, id, i);
        assert(told_moved(q, record, i).contains(id));
        assert(noted_of(q, run.notes, victim, i, Fate::Moved, id));
        assert(points(x[id], column, victim));
    } else if moved_in(q, run.notes, table, column, id) {
        let r = lemma_moved_from(q, run, table, column, x, id);
        if r.0 == victim {
            assert(told_moved(q, record, r.1).contains(id));
            assert(back_at(q, table, column, record, id, r.1));
        }
    }
}

/// The state of a line after an undo.
proof fn lemma_state_back(
    q: MergeRequest,
    run: RunV,
    table: Seq<char>,
    x: Lines,
    victim: i64,
    record: JsonV,
    id: i64,
)
    requires
        owned(q, run.notes, table, x),
        notes_on_victims(run),
        tells_notes(q, run.notes, victim, record),
        x.dom().contains(id),
    ensures
        ({
            let merged = taken(q, run.notes, table, x)[id].status;
            let back = if revived_in(q, table, record, id, q.line_tables@.len() as int) && merged
                == "merged"@ {
                "published"@
            } else {
                merged
            };
            back == x[id].status || (back == merged && of_another(
                q,
                run.victims,
                victim,
                table,
                x[id],
            ))
        }),
{
    let n = q.line_tables@.len() as int;
    let merged = taken(q, run.notes, table, x)[id];
    assert(merged == taken_line(q, run.notes, table, x[id], id));
    if revived_in(q, table, record, id, n) {
        let i = choose|i: int| i < n && #[trigger] revived_at(q, table, record, id, i);
        assert(told_moved(q, record, i) == noted_ids(
            notes_of(run.notes, victim),
            key_at(q, i),
            Fate::Moved,
        ));
        assert(noted_of(q, run.notes, victim, i, Fate::Retired, id));
        lemma_noted_all(run.notes, victim, key_at(q, i), Fate::Retired, id);
        assert(retired_at(q, run.notes, table, id, i));
        assert(merged.status == "merged"@);
        assert(x[id].status == "published"@);
    } else if retired_in(q, run.notes, table, id) {
        let i = choose|i: int| retired_at(q, run.notes, table, id, i);
        let other = lemma_noted_by(run.notes, key_at(q, i), Fate::Retired, id);
        assert(noted_of(q, run.notes, other, i, Fate::Retired, id));
        if other == victim {
            assert(told_moved(q, record, i) == noted_ids(
                notes_of(run.notes, victim),
                key_at(q, i),
                Fate::Moved,
            ));
            assert(revived_at(q, table, record, id, i));
        }
        assert(points(x[id], q.line_tables@[i].parent_field@, other));
    }
}

/// Undoing one of the victims of a merge, with nothing written in between, succeeds and gives back
/// what the merge took from that victim: it is published, its cross references are active, the
/// merge request is undone, and its detail lines, whichever columns they hang on, point where they
/// pointed; what the merge took from other victims stays taken. A second undo of the same victim
/// fails and changes nothing.
///
/// The victim is one of those that the merge read, the master is none of them, the tables are apart
/// from each other as `tables_apart` says, and the lists of the record do not reach the limit of
/// the machine.
pub proof fn law_undo_gives_back(
    q: MergeRequest,
    evs: Seq<EventV>,
    ev: EventV,
    table: Seq<char>,
    x: Stored,
    u: UnmergeRequest,
    row: JsonV,
)
    requires
        merge_step(q, run_after(q, evs), ev).1 is Done,
        !q.victim_ids@.contains(q.master_id),
        tables_apart(q),
        is_apart(q, table),
        valid_ident(table),
        truthful(q, scope_of(q, u.victim_id, table), x, evs.push(ev)),
        undoes(u, q),
        run_after(q, evs).victims.contains(u.victim_id),
        record_in_group(row) == merge_record(run_after(q, evs)),
        record_fits(q.line_tables@, lines_record(record_in_group(row), u.victim_id)),
    ensures
        ({
            let w = scope_of(q, u.victim_id, table);
            let merged = merged_store(q, w, x, evs.push(ev));
            let r = undo_run(u, w, row, merged);
            &&& merged.victim == "merged"@
            &&& r.1 is Done
            &&& r.0.victim == "published"@
            &&& r.0.xref == "active"@
            &&& r.0.group == "unmerged"@
            &&& r.0.lines.dom() == x.lines.dom()
            &&& forall|id: i64| #[trigger]
                x.lines.dom().contains(id) ==> given_back(
                    q,
                    run_after(q, evs).victims,
                    u.victim_id,
                    table,
                    x.lines[id],
                    merged.lines[id],
                    r.0.lines[id],
                )
            &&& undo_run(u, w, row, r.0).0 == r.0
            &&& undo_run(u, w, row, r.0).1 is Fail
        }),
{
    let victim = u.victim_id;
    let w = scope_of(q, victim, table);
    let run = run_after(q, evs);
    let record = lines_record(record_in_group(row), victim);
    let n = q.line_tables@.len() as int;
    let merged = merged_store(q, w, x, evs.push(ev));
    lemma_merged(q, w, x, evs, ev);
    lemma_undone(q, w, u, row, merged);
    let r = undo_run(u, w, row, merged);
    let log = run.merged.log;
    let fields = JsonV::Arr(Seq::new(log.len(), |i: int| log_entry_json(log[i])));
    assert(merge_record(run) == record_value(fields, run.notes, run.victims));
    assert(tells_notes(q, run.notes, victim, record)) by {
        assert forall|i: int| 0 <= i < n implies #[trigger] told_moved(q, record, i) == noted_ids(
            notes_of(run.notes, victim),
            key_at(q, i),
            Fate::Moved,
        ) && told_retired(q, record, i) == noted_ids(
            notes_of(run.notes, victim),
            key_at(q, i),
            Fate::Retired,
        ) by {
            law_record_tells_victims(
                fields,
                run.notes,
                run.victims,
                victim,
                key_at(q, i),
            );
        }
    }
    lemma_given_dom(q, table, merged.lines, record, victim, n);
    assert forall|id: i64| #[trigger] x.lines.dom().contains(id) implies given_back(
        q,
        run.victims,
        victim,
        table,
        x.lines[id],
        merged.lines[id],
        r.0.lines[id],
    ) by {
        lemma_given_line(q, table, merged.lines, record, victim, n, id);
        lemma_state_back(q, run, table, x.lines, victim, record, id);
        assert forall|column: Seq<char>| #[trigger]
            head_of(r.0.lines[id], column) == match head_of(x.lines[id], column) {
                Some(h) => if h != victim && run.victims.contains(h) {
                    head_of(merged.lines[id], column)
                } else {
                    Some(h)
                },
                None => None,
            } by {
            lemma_heads_back(q, run, table, x.lines, victim, record, id, column);
        }
    }
}

/// Undoing a merge of one victim, with nothing written in between, succeeds and restores what the
/// merge changed: the victim is published, its cross references are active, the merge request is
/// undone, and every detail line, whichever columns it hangs on, points where it pointed and is in
/// the state it was in. A second undo fails and changes nothing.
pub proof fn law_undo_restores(
    q: MergeRequest,
    evs: Seq<EventV>,
    ev: EventV,
    table: Seq<char>,
    x: Stored,
    u: UnmergeRequest,
    row: JsonV,
)
    requires
        merge_step(q, run_after(q, evs), ev).1 is Done,
        q.victim_ids@ == seq![u.victim_id],
        u.victim_id != q.master_id,
        tables_apart(q),
        is_apart(q, table),
        valid_ident(table),
        truthful(q, scope_of(q, u.victim_id, table), x, evs.push(ev)),
        undoes(u, q),
        record_in_group(row) == merge_record(run_after(q, evs)),
        record_fits(q.line_tables@, lines_record(record_in_group(row), u.victim_id)),
    ensures
        ({
            let w = scope_of(q, u.victim_id, table);
            let merged = merged_store(q, w, x, evs.push(ev));
            let r = undo_run(u, w, row, merged);
            &&& merged.victim == "merged"@
            &&& r.1 is Done
            &&& r.0.victim == "published"@
            &&& r.0.xref == "active"@
            &&& r.0.group == "unmerged"@
            &&& r.0.lines == x.lines
            &&& undo_run(u, w, row, r.0).0 == r.0
            &&& undo_run(u, w, row, r.0).1 is Fail
        }),
{
    let victim = u.victim_id;
    let w = scope_of(q, victim, table);
    let run = run_after(q, evs);
    lemma_victims(q, evs, ev);
    assert(q.victim_ids@.contains(run.victims[0]));
    assert(run.victims[0] == victim);
    assert forall|h: i64| #[trigger] run.victims.contains(h) implies h == victim by {}
    law_undo_gives_back(q, evs, ev, table, x, u, row);
    let merged = merged_store(q, w, x, evs.push(ev));
    let r = undo_run(u, w, row, merged);
    assert forall|id: i64| x.lines.dom().contains(id) implies #[trigger] r.0.lines[id]
        == x.lines[id] by {
        let a = r.0.lines[id];
        let b = x.lines[id];
        assert(given_back(q, run.victims, victim, table, b, merged.lines[id], a));
        assert(!of_another(q, run.victims, victim, table, b));
        assert forall|column: Seq<char>| a.parents.dom().contains(column)
            == b.parents.dom().contains(column) && (a.parents.dom().contains(column)
            ==> #[trigger] a.parents[column] == b.parents[column]) by {
            assert(head_of(a, column) == head_of(b, column));
        }
        assert forall|column: Seq<char>| #[trigger]
            a.parents.dom().contains(column) == b.parents.dom().contains(column) by {
            assert(head_of(a, column) == head_of(b, column));
        }
        assert(a.parents =~= b.parents);
    }
    assert(r.0.lines =~= x.lines);
}

proof fn lemma_not_head(s: StatementV, table: Seq<char>, head: Seq<char>)
    requires
        updates(s, table),
        valid_ident(table),
        valid_ident(head),
        table != head,
    ensures
        !updates(s, head),
{
    if updates(s, head) {
        lemma_updates_one(s, table, head);
    }
}

/// No statement for the lines changes a row of the head table.
proof fn lemma_lines_not_head(
    tables: Seq<LineTableInfo>,
    n: nat,
    record: JsonV,
    victim: i64,
    head: Seq<char>,
)
    requires
        n <= tables.len(),
        valid_ident(head),
        forall|i: int| 0 <= i < tables.len() ==> (#[trigger] tables[i]).table@ != head,
        line_statements(tables, n, record, victim) is Ok,
    ensures
        forall|i: int|
            0 <= i < line_statements(tables, n, record, victim)->Ok_0.len() ==> !updates(
                #[trigger] line_statements(tables, n, record, victim)->Ok_0[i],
                head,
            ),
    decreases n,
{
    if n > 0 {
        let t = tables[n - 1];
        let m = (n - 1) as nat;
        let before = line_statements(tables, m, record, victim);
        assert(before is Ok);
        lemma_lines_not_head(tables, m, record, victim, head);
        let moved = recorded_ids(record, "reparented"@, line_key(tables, t));
        let retired = recorded_ids(record, "deduped"@, line_key(tables, t));
        let s1 = some_moved(t.table@, t.parent_field@, moved, victim);
        let s2 = some_set(t.table@, retired, "merged"@, "published"@);
        lemma_table_names(t);
        lemma_head_name(t.table@);
        if moved.len() > 0 {
            lemma_updates_table(t.table@, s1);
            lemma_not_head(s1, t.table@, head);
        }
        if retired.len() > 0 {
            lemma_updates_table(t.table@, s2);
            lemma_not_head(s2, t.table@, head);
        }
        let l0 = before->Ok_0;
        let l = line_statements(tables, n, record, victim)->Ok_0;
        assert forall|i: int| 0 <= i < l.len() implies !updates(#[trigger] l[i], head) by {
            if i < l0.len() {
                assert(l[i] == l0[i]);
            } else {
                assert(l[i] == s1 && moved.len() > 0 || l[i] == s2 && retired.len() > 0);
            }
        }
    }
}

/// Past the statement that publishes the victim again, an undo changes no row of the head table:
/// the values of the master stay as they were merged.
pub proof fn law_undo_keeps_master(u: UnmergeRequest, record: JsonV)
    requires
        valid_ident(u.head_table@),
        u.head_table@ != "md_xref"@,
        u.head_table@ != "md_merge_record"@,
        forall|i: int|
            0 <= i < u.line_tables@.len() ==> (#[trigger] u.line_tables@[i]).table@
                != u.head_table@,
        line_statements(
            u.line_tables@,
            u.line_tables@.len(),
            record,
            u.victim_id,
        ) is Ok,
    ensures
        ({
            let l = line_statements(
            u.line_tables@,
            u.line_tables@.len(),
            record,
            u.victim_id,
        )->Ok_0
                + closing_statements(u);
            forall|i: int| 0 <= i < l.len() ==> !updates(#[trigger] l[i], u.head_table@)
        }),
{
    let head = u.head_table@;
    let l0 = line_statements(
            u.line_tables@,
            u.line_tables@.len(),
            record,
            u.victim_id,
        )->Ok_0;
    let c = closing_statements(u);
    let l = l0 + c;
    lemma_lines_not_head(u.line_tables@, u.line_tables@.len(), record, u.victim_id, head);
    reveal_strlit(
        "INSERT INTO md_audit (id, dict_code, record_id, version, action, source_cr_id, field, old_value, new_value, operated_by, operated_at) VALUES ($1,$2,$3,$4,$5,$6,$7,$8,$9,$10,now())",
    );
    reveal_strlit(
        "UPDATE md_merge_record SET status = $1, survivorship_log = $2, master_id = $3 WHERE id = $4",
    );
    reveal_strlit("UPDATE md_xref SET xref_status = $1 WHERE dict_code = $2 AND record_id = $3");
    reveal_strlit("UPDATE ");
    reveal_strlit("md_xref");
    reveal_strlit("md_merge_record");
    reveal_strlit(" ");
    let g = "UPDATE "@ + "md_merge_record"@ + " "@;
    let y = "UPDATE "@ + "md_xref"@ + " "@;
    assert(y =~= c[0].sql.subrange(0, y.len() as int));
    assert(g =~= c[2].sql.subrange(0, g.len() as int));
    assert(valid_ident("md_xref"@));
    assert(valid_ident("md_merge_record"@));
    lemma_not_head(c[0], "md_xref"@, head);
    lemma_not_head(c[2], "md_merge_record"@, head);
    assert(c[1].sql[0] != ("UPDATE "@ + head + " "@)[0]);
    if updates(c[1], head) {
        assert(c[1].sql[0] == ("UPDATE "@ + head + " "@)[0]);
    }
    assert forall|i: int| 0 <= i < l.len() implies !updates(#[trigger] l[i], head) by {
        if i < l0.len() {
            assert(l[i] == l0[i]);
        } else {
            assert(l[i] == c[i - l0.len()]);
        }
    }
}

/// A statement leaves the record and its cross references alone.
spec fn spares(w: Scope, s: StatementV) -> bool {
    forall|x: Stored|
        #[trigger] stored_after(w, s, x).victim == x.victim && stored_after(w, s, x).xref == x.xref
}

proof fn lemma_all_spared(w: Scope, l: Seq<StatementV>, x: Stored)
    requires
        forall|i: int| 0 <= i < l.len() ==> spares(w, #[trigger] l[i]),
    ensures
        all_run(w, l, x).victim == x.victim,
        all_run(w, l, x).xref == x.xref,
    decreases l.len(),
{
    if l.len() > 0 {
        let d = l.drop_last();
        assert forall|i: int| 0 <= i < d.len() implies spares(w, #[trigger] d[i]) by {
            assert(d[i] == l[i]);
        }
        lemma_all_spared(w, d, x);
        assert(spares(w, l[l.len() - 1]));
    }
}

/// The first statement of an undo, and all that follow, given what the record says of the lines of
/// the victim.
pub open spec fn undo_statements(u: UnmergeRequest, record: JsonV) -> Seq<StatementV> {
    seq![lifecycle_statement(u.head_table@, u.victim_id, "merged"@, "published"@)]
        + line_statements(u.line_tables@, u.line_tables@.len(), record, u.victim_id)->Ok_0
        + closing_statements(u)
}

proof fn lemma_xref_table(dict: Seq<char>, id: i64, state: Seq<char>)
    ensures
        updates(xref_set(dict, id, state), "md_xref"@),
{
    let s = xref_set(dict, id, state);
    reveal_strlit("UPDATE md_xref SET xref_status = $1 WHERE dict_code = $2 AND record_id = $3");
    reveal_strlit("UPDATE ");
    reveal_strlit("md_xref");
    reveal_strlit(" ");
    let p = "UPDATE "@ + "md_xref"@ + " "@;
    assert(p =~= s.sql.subrange(0, p.len() as int));
}

/// An undo of one record leaves every other record in its state, and the cross references of the
/// others too.
pub proof fn law_undo_leaves_others(u: UnmergeRequest, w: Scope, record: JsonV, x: Stored)
    requires
        w.head == u.head_table@,
        w.victim != u.victim_id,
        valid_ident(u.head_table@),
        u.head_table@ != "md_xref"@,
        u.head_table@ != "md_merge_record"@,
        forall|i: int|
            0 <= i < u.line_tables@.len() ==> (#[trigger] u.line_tables@[i]).table@
                != u.head_table@ && u.line_tables@[i].table@ != "md_xref"@,
        line_statements(u.line_tables@, u.line_tables@.len(), record, u.victim_id) is Ok,
    ensures
        all_run(w, undo_statements(u, record), x).victim == x.victim,
        all_run(w, undo_statements(u, record), x).xref == x.xref,
{
    let head = u.head_table@;
    let n = u.line_tables@.len();
    let first = lifecycle_statement(head, u.victim_id, "merged"@, "published"@);
    let lines = line_statements(u.line_tables@, n, record, u.victim_id)->Ok_0;
    let c = closing_statements(u);
    let l = undo_statements(u, record);
    reveal_strlit("md_xref");
    assert(valid_ident("md_xref"@));
    lemma_lines_not_head(u.line_tables@, n, record, u.victim_id, "md_xref"@);
    law_undo_keeps_master(u, record);
    lemma_updates_head(head, u.victim_id, "merged"@, "published"@);
    assert forall|i: int| 0 <= i < l.len() implies spares(w, #[trigger] l[i]) by {
        let s = l[i];
        assert forall|y: Stored|
            #[trigger] stored_after(w, s, y).victim == y.victim && stored_after(w, s, y).xref
                == y.xref by {
            lemma_xref_table(w.dict, w.victim, s.params[0]->Text_0);
            let own = xref_set(w.dict, w.victim, s.params[0]->Text_0);
            let other = lifecycle_statement(w.head, w.victim, y.victim, s.params[0]->Text_0);
            assert(own.params[2] == SqlV::Int(w.victim));
            assert(own.params[1] is Text);
            assert(other.params[1] == SqlV::Int(w.victim));
            if i == 0 {
                assert(s == first);
                assert(s.params[1] == SqlV::Int(u.victim_id));
            } else {
                let after = lines + c;
                assert(s == after[i - 1]);
                assert(!updates(after[i - 1], head));
                lemma_other_head(w, s, y);
                if i - 1 < lines.len() {
                    assert(s == lines[i - 1]);
                    assert(!updates(lines[i - 1], "md_xref"@));
                } else {
                    let k = i - 1 - lines.len();
                    assert(s == c[k]);
                    assert(c[0].params[2] == SqlV::Int(u.victim_id));
                    assert(c[1].params.len() == 10);
                    assert(c[2].params.len() == 4);
                }
            }
        }
    }
    lemma_all_spared(w, l, x);
}

} // verus!
