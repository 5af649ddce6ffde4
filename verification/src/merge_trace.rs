//! A merge, event by event: what is stored agrees with what was noted.

use crate::json::{JsonV, ObjV};
use crate::match_algo::RecordV;
use crate::merge::{
    after_header, keys_statement, lifecycle_statement, line_step, load_step, merge_step, note_of,
    retire_step, row_ids, row_lines, run_after, run_start, stage_victim, ActionV, EventV,
    MergeRequest, RunV, StageV,
};
use crate::merge_effects::{
    all_moved, hits_victim, lemma_lines_after, lemma_other_head, lemma_other_table,
    lemma_updates_head, lemma_updates_one, lemma_updates_table, pointed, points, repointed,
    some_moved, some_set, stored_after, updates, xref_set, Scope, Stored,
};
use crate::merge_parts::{lines_with, with_ids, LineKeyV, LineTableInfo};
use crate::merge_record::{note_ids, noted_ids, notes_of, Fate, NoteV};
use crate::merge_taken::{
    acted, asked, at_hand, ids_statement, is_apart, lemma_owned_push, lemma_taken_push,
    lemma_taken_retire, lists, merged_store, moved_in, named, note_at, owned, retired_in, scope_of,
    tables_apart, taken, tells, truthful, well_named,
};
use crate::sql::{update_statement, valid_ident, SqlV, StatementV};
use crate::store::loader::rows_records;
use crate::store::query::first_bad;
use crate::text::texts;
use vstd::prelude::*;

verus! {

/// How many tables a run has reached.
spec fn reached(q: MergeRequest, r: RunV) -> int {
    let all = q.line_tables@.len() as int;
    match r.stage {
        StageV::Mark(v) => if v > 0 {
            all
        } else {
            0
        },
        StageV::LineIds(v, t) => if v > 0 {
            all
        } else {
            t + 1
        },
        StageV::MoveAll(v, t, _) => if v > 0 {
            all
        } else {
            t + 1
        },
        StageV::VictimKeys(v, t) => if v > 0 {
            all
        } else {
            t + 1
        },
        StageV::MasterKeys(v, t, _) => if v > 0 {
            all
        } else {
            t + 1
        },
        StageV::Move(v, t, _, _) => if v > 0 {
            all
        } else {
            t + 1
        },
        StageV::Retire(v, t, _, _) => if v > 0 {
            all
        } else {
            t + 1
        },
        StageV::Xref(_) => all,
        StageV::Header => if r.victims.len() > 0 {
            all
        } else {
            0
        },
        s => if after_header(s) && r.victims.len() > 0 {
            all
        } else {
            0
        },
    }
}

/// The table that a stage is about.
spec fn stage_table(s: StageV) -> int {
    match s {
        StageV::LineIds(_, t) => t as int,
        StageV::MoveAll(_, t, _) => t as int,
        StageV::VictimKeys(_, t) => t as int,
        StageV::MasterKeys(_, t, _) => t as int,
        StageV::Move(_, t, _, _) => t as int,
        StageV::Retire(_, t, _, _) => t as int,
        _ => 0,
    }
}

/// The victims of a run are as many as were asked for, and each was asked for.
pub open spec fn victims_asked(q: MergeRequest, r: RunV) -> bool {
    &&& r.victims.len() == q.victim_ids@.len()
    &&& forall|i: int|
        0 <= i < r.victims.len() ==> q.victim_ids@.contains(#[trigger] r.victims[i])
}

/// What holds of the names and the victims of a run.
spec fn names_ok(q: MergeRequest, r: RunV) -> bool {
    &&& reached(q, r) <= q.line_tables@.len()
    &&& named(q, reached(q, r))
    &&& r.victims.len() <= usize::MAX
    &&& match stage_victim(r.stage) {
        Some(v) => {
            &&& v < r.victims.len()
            &&& victims_asked(q, r)
            &&& valid_ident(q.head_table@)
            &&& !(r.stage is Mark) && !(r.stage is Xref) ==> stage_table(r.stage)
                < q.line_tables@.len()
        },
        None => true,
    }
    &&& r.stage is Header || after_header(r.stage) ==> victims_asked(q, r) && valid_ident(
        q.head_table@,
    )
}

pub proof fn lemma_table_names(t: LineTableInfo)
    ensures
        first_bad(seq![t.table@, t.parent_field@]) is None <==> well_named(t),
        well_named(t) ==> first_bad(seq![t.table@]) is None,
{
    let n = seq![t.table@, t.parent_field@];
    reveal_with_fuel(first_bad, 3);
    assert(n.drop_first() =~= seq![t.parent_field@]);
    assert(seq![t.table@].drop_first() =~= Seq::<Seq<char>>::empty());
    assert(seq![t.parent_field@].drop_first() =~= Seq::<Seq<char>>::empty());
}

pub proof fn lemma_head_name(head: Seq<char>)
    ensures
        first_bad(seq![head]) is None <==> valid_ident(head),
{
    reveal_with_fuel(first_bad, 2);
    assert(seq![head].drop_first() =~= Seq::<Seq<char>>::empty());
}

proof fn lemma_with_ids(rs: Seq<RecordV>, ids: Seq<i64>, i: int)
    requires
        0 <= i < with_ids(rs, ids).len(),
    ensures
        ids.contains(with_ids(rs, ids)[i].id),
    decreases rs.len(),
{
    if rs.len() > 0 {
        let w = with_ids(rs.drop_last(), ids);
        if i < w.len() {
            lemma_with_ids(rs.drop_last(), ids, i);
        }
    }
}

proof fn lemma_line_names(q: MergeRequest, r: RunV, v: usize, t: int)
    requires
        0 <= t <= q.line_tables@.len() <= usize::MAX,
        named(q, if v > 0 {
            q.line_tables@.len() as int
        } else {
            t
        }),
        v < r.victims.len() <= usize::MAX,
        victims_asked(q, r),
        valid_ident(q.head_table@),
    ensures
        names_ok(q, line_step(q, r, v, t).0),
{
    if t < q.line_tables@.len() {
        lemma_table_names(q.line_tables@[t]);
    }
    let n = line_step(q, r, v, t).0;
    assert(n.victims == r.victims);
    assert(victims_asked(q, n));
}

proof fn lemma_load(q: MergeRequest, r: RunV, ev: EventV)
    requires
        q.victim_ids@.len() <= usize::MAX,
        r.victims.len() <= usize::MAX,
    ensures
        names_ok(q, load_step(q, r, ev).0),
        load_step(q, r, ev).0.stage is Mark ==> load_step(q, r, ev).0.stage == StageV::Mark(0),
        ({
            let s = load_step(q, r, ev).0.stage;
            s is Mark || s is Header || s is Over
        }),
{
    lemma_head_name(q.head_table@);
    let rs = rows_records(ev.rows);
    let vs = with_ids(rs, q.victim_ids@);
    let n = load_step(q, r, ev).0;
    if !(n.stage is Over) {
        assert forall|i: int| 0 <= i < n.victims.len() implies q.victim_ids@.contains(
            #[trigger] n.victims[i],
        ) by {
            lemma_with_ids(rs, q.victim_ids@, i);
        }
        assert(n.victims.len() == vs.len());
    }
}

#[verifier::spinoff_prover]
proof fn lemma_names_step(q: MergeRequest, r: RunV, ev: EventV)
    requires
        q.line_tables@.len() <= usize::MAX,
        q.victim_ids@.len() <= usize::MAX,
        names_ok(q, r),
    ensures
        names_ok(q, merge_step(q, r, ev).0),
{
    let n = merge_step(q, r, ev).0;
    match r.stage {
        StageV::Load => {
            lemma_load(q, r, ev);
        },
        StageV::Mark(v) => {
            lemma_line_names(q, r, v, 0);
        },
        StageV::MoveAll(v, t, ids) => {
            let m = RunV { notes: r.notes.push(note_of(q, r, v, t, ids, None)), ..r };
            lemma_line_names(q, m, v, t + 1);
        },
        StageV::MasterKeys(v, t, lines) => {
            let master = row_lines(ev.rows, texts(q.line_tables@[t as int].dedup_keys@));
            let a = lines_with(lines, master, false);
            let b = lines_with(lines, master, true);
            let m = RunV { notes: r.notes.push(note_of(q, r, v, t, a, Some(b))), ..r };
            lemma_line_names(q, m, v, t + 1);
            assert(n.victims == r.victims);
        },
        StageV::Move(v, t, a, b) => {
            let m = RunV { notes: r.notes.push(note_of(q, r, v, t, a, Some(b))), ..r };
            lemma_line_names(q, m, v, t + 1);
            assert(n.victims == r.victims);
        },
        StageV::Retire(v, t, a, b) => {
            let m = RunV { notes: r.notes.push(note_of(q, r, v, t, a, Some(b))), ..r };
            lemma_line_names(q, m, v, t + 1);
        },
        _ => {
            assert(n.victims == r.victims);
        },
    }
}

proof fn lemma_names(q: MergeRequest, evs: Seq<EventV>)
    requires
        q.line_tables@.len() <= usize::MAX,
        q.victim_ids@.len() <= usize::MAX,
    ensures
        names_ok(q, run_after(q, evs)),
    decreases evs.len(),
{
    reveal(run_after);
    if evs.len() > 0 {
        lemma_names(q, evs.drop_last());
        lemma_names_step(q, run_after(q, evs.drop_last()), evs.last());
    }
}

/// What the run and what is stored are about.
pub open spec fn setting(q: MergeRequest, w: Scope) -> bool {
    &&& w == scope_of(q, w.victim, w.table)
    &&& tables_apart(q)
    &&& is_apart(q, w.table)
    &&& valid_ident(w.table)
    &&& named(q, q.line_tables@.len() as int)
    &&& valid_ident(q.head_table@)
    &&& !q.victim_ids@.contains(q.master_id)
}

/// The victim is one of the first `n` of a run.
spec fn among(w: Scope, r: RunV, n: int) -> bool {
    exists|i: int| 0 <= i < n && #[trigger] r.victims[i] == w.victim
}

/// The notes of a run are on its victims.
pub open spec fn notes_on_victims(r: RunV) -> bool {
    forall|i: int| 0 <= i < r.notes.len() ==> r.victims.contains((#[trigger] r.notes[i]).victim)
}

/// What is stored agrees with the notes, and the victim is merged if it is one of the first `n`.
spec fn agrees(q: MergeRequest, w: Scope, x: Stored, r: RunV, c: Stored, n: int) -> bool {
    &&& c.lines == taken(q, r.notes, w.table, x.lines)
    &&& owned(q, r.notes, w.table, x.lines)
    &&& notes_on_victims(r)
    &&& among(w, r, n) ==> c.victim == "merged"@
}

/// Table `u` is the one that is told of.
spec fn told_of(q: MergeRequest, w: Scope, u: usize) -> bool {
    q.line_tables@[u as int].table@ == w.table
}

/// The column of table `u`.
spec fn column(q: MergeRequest, u: usize) -> Seq<char> {
    q.line_tables@[u as int].parent_field@
}

/// The ids of lines with their keys.
spec fn line_ids(l: Seq<LineKeyV>) -> Seq<i64> {
    Seq::new(l.len(), |i: int| l[i].id)
}

/// A statement leaves the victim and the lines alone.
pub open spec fn kept(w: Scope, s: StatementV, x: Stored) -> bool {
    stored_after(w, s, x).victim == x.victim && stored_after(w, s, x).lines == x.lines
}

/// An action leaves the victim and the lines alone, whatever is stored.
pub open spec fn harmless(w: Scope, a: ActionV) -> bool {
    forall|x: Stored| a is Execute ==> #[trigger] kept(w, a->Execute_0, x)
}

/// The run with the lines that moved noted, and none retired yet.
spec fn half_noted(q: MergeRequest, r: RunV, v: usize, u: usize, m: Seq<i64>) -> RunV {
    let n = note_at(q, r.victims[v as int], u as int, m, Some(Seq::empty()));
    RunV { notes: r.notes.push(n), ..r }
}

/// What holds of the run, of its action and of what is stored.
spec fn good(q: MergeRequest, w: Scope, x: Stored, r: RunV, a: ActionV, c: Stored) -> bool {
    let master = q.master_id;
    let tables = q.line_tables@;
    match r.stage {
        StageV::Start => false,
        StageV::Lock => a is Query && c == x && r.notes.len() == 0,
        StageV::Load => a is Query && c == x && r.notes.len() == 0,
        StageV::Mark(v) => agrees(q, w, x, r, c, v as int) && a == ActionV::Execute(
            lifecycle_statement(q.head_table@, r.victims[v as int], "published"@, "merged"@),
        ),
        StageV::LineIds(v, u) => agrees(q, w, x, r, c, v + 1) && a == ActionV::Query(
            ids_statement(tables[u as int], r.victims[v as int]),
        ),
        StageV::MoveAll(v, u, ids) => agrees(q, w, x, r, c, v + 1) && a == ActionV::Execute(
            all_moved(
                tables[u as int].table@,
                column(q, u),
                master,
                r.victims[v as int],
            ),
        ) && (told_of(q, w, u) ==> lists(
            ids,
            c.lines,
            column(q, u),
            r.victims[v as int],
            false,
        )),
        StageV::VictimKeys(v, u) => agrees(q, w, x, r, c, v + 1) && a == ActionV::Query(
            keys_statement(tables[u as int], r.victims[v as int]),
        ),
        StageV::MasterKeys(v, u, l) => agrees(q, w, x, r, c, v + 1) && a is Query && (told_of(
            q,
            w,
            u,
        ) ==> lists(line_ids(l), c.lines, column(q, u), r.victims[v as int], true)),
        StageV::Move(v, u, m, d) => agrees(q, w, x, r, c, v + 1) && a == ActionV::Execute(
            some_moved(tables[u as int].table@, column(q, u), m, master),
        ) && (told_of(q, w, u) ==> at_hand(c.lines, column(q, u), r.victims[v as int], m, d)),
        StageV::Retire(v, u, m, d) => {
            &&& a == ActionV::Execute(
                some_set(tables[u as int].table@, d, "published"@, "merged"@),
            )
            &&& retiring(q, w, x, r, c, v, u, m, d)
        },
        StageV::Over => true,
        _ => agrees(q, w, x, r, c, if r.stage is Xref {
            stage_victim(r.stage)->Some_0 + 1
        } else {
            r.victims.len() as int
        }) && harmless(w, a),
    }
}

/// The lines that move have moved; others wait to be retired.
spec fn retiring(
    q: MergeRequest,
    w: Scope,
    x: Stored,
    r: RunV,
    c: Stored,
    v: usize,
    u: usize,
    m: Seq<i64>,
    d: Seq<i64>,
) -> bool {
    &&& owned(q, r.notes, w.table, x.lines)
    &&& notes_on_victims(r)
    &&& among(w, r, v + 1) ==> c.victim == "merged"@
    &&& c.lines == taken(q, half_noted(q, r, v, u, m).notes, w.table, x.lines)
    &&& told_of(q, w, u) ==> at_hand(
        taken(q, r.notes, w.table, x.lines),
        column(q, u),
        r.victims[v as int],
        m,
        d,
    )
}

/// A statement on a table that is neither that of heads nor that of lines leaves both alone; one
/// on any table but that of heads leaves the victim alone.
pub proof fn lemma_elsewhere(q: MergeRequest, w: Scope, s: StatementV, table: Seq<char>, x: Stored)
    requires
        setting(q, w),
        updates(s, table),
        valid_ident(table),
        table != q.head_table@,
    ensures
        stored_after(w, s, x).victim == x.victim,
        table != w.table ==> stored_after(w, s, x).lines == x.lines,
{
    if updates(s, q.head_table@) {
        lemma_updates_one(s, table, q.head_table@);
    }
    lemma_other_head(w, s, x);
    if table != w.table {
        if updates(s, w.table) {
            lemma_updates_one(s, table, w.table);
        }
        lemma_other_table(w.table, s, x.lines);
    }
}

/// A statement that changes no rows, or those of a table of the service, leaves all alone.
proof fn lemma_harmless(q: MergeRequest, w: Scope, s: StatementV)
    requires
        setting(q, w),
        (s.sql.len() > 0 && s.sql[0] != 'U') || updates(s, "md_xref"@) || updates(
            s,
            "md_merge_record"@,
        ),
    ensures
        harmless(w, ActionV::Execute(s)),
{
    reveal_strlit("md_xref");
    reveal_strlit("md_merge_record");
    reveal_strlit("UPDATE ");
    assert(valid_ident("md_xref"@));
    assert(valid_ident("md_merge_record"@));
    assert forall|x: Stored| #[trigger] kept(w, s, x) by {
        if updates(s, "md_xref"@) {
            lemma_elsewhere(q, w, s, "md_xref"@, x);
        } else if updates(s, "md_merge_record"@) {
            lemma_elsewhere(q, w, s, "md_merge_record"@, x);
        } else {
            assert(s.sql[0] != ("UPDATE "@ + w.head + " "@)[0]);
            assert(s.sql[0] != ("UPDATE "@ + w.table + " "@)[0]);
            if updates(s, w.head) {
                assert(s.sql[0] == ("UPDATE "@ + w.head + " "@)[0]);
            }
            if updates(s, w.table) {
                assert(s.sql[0] == ("UPDATE "@ + w.table + " "@)[0]);
            }
            lemma_other_head(w, s, x);
            lemma_other_table(w.table, s, x.lines);
        }
    }
}

proof fn lemma_line_ids(rows: Seq<JsonV>, keys: Seq<Seq<char>>)
    ensures
        line_ids(row_lines(rows, keys)) == row_ids(rows),
    decreases rows.len(),
{
    if rows.len() > 0 {
        lemma_line_ids(rows.drop_last(), keys);
        assert(line_ids(row_lines(rows, keys)) =~= row_ids(rows));
    } else {
        assert(line_ids(row_lines(rows, keys)) =~= row_ids(rows));
    }
}

proof fn lemma_lines_with(l: Seq<LineKeyV>, master: Seq<LineKeyV>, dup: bool, id: i64)
    requires
        lines_with(l, master, dup).contains(id),
    ensures
        line_ids(l).contains(id),
    decreases l.len(),
{
    let all = lines_with(l, master, dup);
    let i = choose|i: int| 0 <= i < all.len() && all[i] == id;
    if l.len() > 0 {
        let d = l.drop_last();
        let f = lines_with(d, master, dup);
        if i < f.len() {
            assert(f[i] == id);
            lemma_lines_with(d, master, dup, id);
            let n = choose|n: int| 0 <= n < line_ids(d).len() && line_ids(d)[n] == id;
            assert(line_ids(l)[n] == id);
        } else {
            assert(line_ids(l)[l.len() - 1] == id);
        }
    }
}

/// The next table of a victim, or its cross references.
proof fn lemma_good_line(q: MergeRequest, w: Scope, x: Stored, r: RunV, c: Stored, v: usize, u: int)
    requires
        setting(q, w),
        v < r.victims.len() <= usize::MAX,
        0 <= u <= q.line_tables@.len() <= usize::MAX,
        agrees(q, w, x, r, c, v + 1),
    ensures
        good(q, w, x, line_step(q, r, v, u).0, line_step(q, r, v, u).1, c),
{
    let n = line_step(q, r, v, u).0;
    assert(n.victims == r.victims && n.notes == r.notes);
    assert(among(w, n, v + 1) == among(w, r, v + 1));
    assert(agrees(q, w, x, n, c, v + 1));
    if u == q.line_tables@.len() {
        let s = xref_set(q.dict_code@, r.victims[v as int], "inactive"@);
        lemma_tail_harmless(q, w, s);
        assert(line_step(q, r, v, u).1 == ActionV::Execute(s));
    }
}

/// A run with one more note agrees with what is stored.
proof fn lemma_noted(
    q: MergeRequest,
    w: Scope,
    x: Stored,
    r: RunV,
    c: Stored,
    v: usize,
    u: usize,
    moved: Seq<i64>,
    retired: Option<Seq<i64>>,
)
    requires
        setting(q, w),
        v < r.victims.len(),
        victims_asked(q, r),
        u < q.line_tables@.len(),
        owned(q, r.notes, w.table, x.lines),
        notes_on_victims(r),
        among(w, r, v + 1) ==> c.victim == "merged"@,
        told_of(q, w, u) ==> at_hand(
            taken(q, r.notes, w.table, x.lines),
            column(q, u),
            r.victims[v as int],
            moved,
            note_ids(note_of(q, r, v, u, moved, retired), Fate::Retired),
        ),
        c.lines == taken(
            q,
            r.notes.push(note_of(q, r, v, u, moved, retired)),
            w.table,
            x.lines,
        ),
    ensures
        agrees(
            q,
            w,
            x,
            RunV { notes: r.notes.push(note_of(q, r, v, u, moved, retired)), ..r },
            c,
            v + 1,
        ),
{
    let y = note_of(q, r, v, u, moved, retired);
    let n = RunV { notes: r.notes.push(y), ..r };
    assert(q.victim_ids@.contains(r.victims[v as int]));
    lemma_owned_push(q, r.notes, y, u as int, w.table, x.lines);
    assert(r.victims[v as int] == y.victim);
    assert forall|i: int| 0 <= i < n.notes.len() implies n.victims.contains(
        (#[trigger] n.notes[i]).victim,
    ) by {
        if i < r.notes.len() {
            assert(r.victims.contains(r.notes[i].victim));
        }
    }
    assert(n.victims == r.victims);
    assert(among(w, n, v + 1) == among(w, r, v + 1));
}

/// After the lines that move have moved.
proof fn lemma_good_retire(
    q: MergeRequest,
    w: Scope,
    x: Stored,
    r: RunV,
    c: Stored,
    v: usize,
    u: usize,
    m: Seq<i64>,
    d: Seq<i64>,
)
    requires
        setting(q, w),
        v < r.victims.len() <= usize::MAX,
        victims_asked(q, r),
        u < q.line_tables@.len() <= usize::MAX,
        retiring(q, w, x, r, c, v, u, m, d),
    ensures
        good(
            q,
            w,
            x,
            retire_step(q, r, v, u, m, d).0,
            retire_step(q, r, v, u, m, d).1,
            c,
        ),
{
    let s = retire_step(q, r, v, u, m, d);
    if d.len() == 0 {
        let n = RunV { notes: r.notes.push(note_of(q, r, v, u, m, Some(d))), ..r };
        assert(d =~= Seq::empty());
        lemma_noted(q, w, x, r, c, v, u, m, Some(d));
        lemma_good_line(q, w, x, n, c, v, u + 1);
        assert(s == line_step(q, n, v, u + 1));
    } else if s.0.stage is Retire {
        assert(among(w, s.0, v + 1) == among(w, r, v + 1));
        assert(half_noted(q, s.0, v, u, m).notes == half_noted(q, r, v, u, m).notes);
    }
}

/// The actions behind the write of the master leave the victim and the lines alone.
pub proof fn lemma_tail_harmless(q: MergeRequest, w: Scope, s: StatementV)
    requires
        setting(q, w),
        s.sql
            == "INSERT INTO md_audit (id, dict_code, record_id, version, action, source_cr_id, field, old_value, new_value, operated_by, operated_at) VALUES ($1,$2,$3,$4,$5,$6,$7,$8,$9,$10,now())"@
            || s.sql
            == "INSERT INTO md_event_log (id, dict_code, record_id, event_type, payload, emitted_at) VALUES ($1,$2,$3,$4,$5,now())"@
            || s.sql == "UPDATE md_merge_record SET status = $1 WHERE id = $2 AND status = $3"@
            || s.sql
            == "UPDATE md_merge_record SET status = $1, survivorship_log = $2, master_id = $3 WHERE id = $4"@
            || s.sql
            == "UPDATE md_xref SET xref_status = $1 WHERE dict_code = $2 AND record_id = $3"@,
    ensures
        harmless(w, ActionV::Execute(s)),
        forall|x: Stored| #[trigger] kept(w, s, x),
{
    reveal_strlit(
        "INSERT INTO md_audit (id, dict_code, record_id, version, action, source_cr_id, field, old_value, new_value, operated_by, operated_at) VALUES ($1,$2,$3,$4,$5,$6,$7,$8,$9,$10,now())",
    );
    reveal_strlit(
        "INSERT INTO md_event_log (id, dict_code, record_id, event_type, payload, emitted_at) VALUES ($1,$2,$3,$4,$5,now())",
    );
    reveal_strlit("UPDATE md_merge_record SET status = $1 WHERE id = $2 AND status = $3");
    reveal_strlit(
        "UPDATE md_merge_record SET status = $1, survivorship_log = $2, master_id = $3 WHERE id = $4",
    );
    reveal_strlit("UPDATE md_xref SET xref_status = $1 WHERE dict_code = $2 AND record_id = $3");
    reveal_strlit("UPDATE ");
    reveal_strlit("md_xref");
    reveal_strlit("md_merge_record");
    reveal_strlit(" ");
    let g = "UPDATE "@ + "md_merge_record"@ + " "@;
    let y = "UPDATE "@ + "md_xref"@ + " "@;
    if s.sql[0] == 'U' {
        if s.sql[10] == 'x' {
            assert(y =~= s.sql.subrange(0, y.len() as int));
        } else {
            assert(g =~= s.sql.subrange(0, g.len() as int));
        }
    }
    lemma_harmless(q, w, s);
    let a = ActionV::Execute(s);
    assert forall|x: Stored| #[trigger] kept(w, s, x) by {
        assert(kept(w, a->Execute_0, x));
    }
}

/// A statement on the lines of table `u` leaves the victim alone, and the lines that are told of
/// where they are others.
proof fn lemma_on_table(q: MergeRequest, w: Scope, u: usize, s: StatementV, c: Stored)
    requires
        setting(q, w),
        u < q.line_tables@.len(),
        updates(s, q.line_tables@[u as int].table@),
    ensures
        valid_ident(column(q, u)),
        stored_after(w, s, c).victim == c.victim,
        !told_of(q, w, u) ==> stored_after(w, s, c).lines == c.lines,
{
    let t = q.line_tables@[u as int];
    assert(well_named(t));
    assert(is_apart(q, t.table@));
    lemma_elsewhere(q, w, s, t.table@, c);
}

/// All lines of a victim went to the master.
proof fn lemma_good_move_all(
    q: MergeRequest,
    w: Scope,
    x: Stored,
    r: RunV,
    a: ActionV,
    c: Stored,
    ev: EventV,
    v: usize,
    u: usize,
    ids: Seq<i64>,
)
    requires
        setting(q, w),
        q.line_tables@.len() <= usize::MAX,
        names_ok(q, r),
        good(q, w, x, r, a, c),
        r.stage == StageV::MoveAll(v, u, ids),
    ensures
        ({
            let n = merge_step(q, r, ev);
            good(q, w, x, n.0, n.1, acted(w, a, c))
        }),
{
    let t = q.line_tables@[u as int];
    let victim = r.victims[v as int];
    let none = Seq::<i64>::empty();
    let c2 = acted(w, a, c);
    let s = all_moved(t.table@, t.parent_field@, q.master_id, victim);
    lemma_updates_table(t.table@, s);
    lemma_on_table(q, w, u, s, c);
    let y = note_of(q, r, v, u, ids, None);
    lemma_taken_push(q, r.notes, y, u as int, w.table, x.lines);
    assert(note_ids(y, Fate::Retired) =~= none);
    if told_of(q, w, u) {
        lemma_lines_after(w.table, column(q, u), c.lines, none, q.master_id, victim, ""@, ""@);
        assert(repointed(c.lines, column(q, u), q.master_id, victim) =~= pointed(
            c.lines,
            column(q, u),
            ids,
            q.master_id,
        )) by {
            assert forall|id: i64| c.lines.dom().contains(id) implies (#[trigger] points(
                c.lines[id],
                column(q, u),
                victim,
            ) <==> ids.contains(id)) by {}
        }
    }
    assert(among(w, r, v + 1) ==> c2.victim == "merged"@);
    lemma_noted(q, w, x, r, c2, v, u, ids, None);
    let m = RunV { notes: r.notes.push(y), ..r };
    lemma_good_line(q, w, x, m, c2, v, u + 1);
}

/// The lines of a victim with keys were read, and those of the master.
proof fn lemma_good_split(
    q: MergeRequest,
    w: Scope,
    x: Stored,
    r: RunV,
    a: ActionV,
    c: Stored,
    ev: EventV,
    v: usize,
    u: usize,
    l: Seq<LineKeyV>,
)
    requires
        setting(q, w),
        q.line_tables@.len() <= usize::MAX,
        names_ok(q, r),
        good(q, w, x, r, a, c),
        r.stage == StageV::MasterKeys(v, u, l),
    ensures
        ({
            let n = merge_step(q, r, ev);
            good(q, w, x, n.0, n.1, acted(w, a, c))
        }),
{
    let t = q.line_tables@[u as int];
    let victim = r.victims[v as int];
    let mk = row_lines(ev.rows, texts(t.dedup_keys@));
    let m = lines_with(l, mk, false);
    let d = lines_with(l, mk, true);
    if told_of(q, w, u) {
        assert forall|id: i64| #[trigger] m.contains(id) implies c.lines.dom().contains(id)
            && points(c.lines[id], column(q, u), victim) by {
            lemma_lines_with(l, mk, false, id);
        }
        assert forall|id: i64| #[trigger] d.contains(id) implies c.lines.dom().contains(id)
            && points(c.lines[id], column(q, u), victim) && c.lines[id].status
            == "published"@ by {
            lemma_lines_with(l, mk, true, id);
        }
    }
    let n = merge_step(q, r, ev);
    if m.len() == 0 {
        let y = note_at(q, victim, u as int, m, Some(Seq::empty()));
        lemma_taken_push(q, r.notes, y, u as int, w.table, x.lines);
        if told_of(q, w, u) {
            assert(pointed(c.lines, column(q, u), m, q.master_id) =~= c.lines);
        }
        lemma_good_retire(q, w, x, r, c, v, u, m, d);
    } else if n.0.stage is Move {
        assert(n.0.victims == r.victims);
        assert(among(w, n.0, v + 1) == among(w, r, v + 1));
    }
}

/// Some lines of a victim went to the master.
proof fn lemma_good_move(
    q: MergeRequest,
    w: Scope,
    x: Stored,
    r: RunV,
    a: ActionV,
    c: Stored,
    ev: EventV,
    v: usize,
    u: usize,
    m: Seq<i64>,
    d: Seq<i64>,
)
    requires
        setting(q, w),
        q.line_tables@.len() <= usize::MAX,
        names_ok(q, r),
        good(q, w, x, r, a, c),
        r.stage == StageV::Move(v, u, m, d),
    ensures
        ({
            let n = merge_step(q, r, ev);
            good(q, w, x, n.0, n.1, acted(w, a, c))
        }),
{
    let t = q.line_tables@[u as int];
    let victim = r.victims[v as int];
    let c2 = acted(w, a, c);
    let s = some_moved(t.table@, t.parent_field@, m, q.master_id);
    lemma_updates_table(t.table@, s);
    lemma_on_table(q, w, u, s, c);
    let y = note_at(q, victim, u as int, m, Some(Seq::empty()));
    lemma_taken_push(q, r.notes, y, u as int, w.table, x.lines);
    if told_of(q, w, u) {
        lemma_lines_after(w.table, column(q, u), c.lines, m, q.master_id, victim, ""@, ""@);
    }
    lemma_good_retire(q, w, x, r, c2, v, u, m, d);
}

/// The lines that repeat one of the master's were retired.
proof fn lemma_good_retired(
    q: MergeRequest,
    w: Scope,
    x: Stored,
    r: RunV,
    a: ActionV,
    c: Stored,
    ev: EventV,
    v: usize,
    u: usize,
    m: Seq<i64>,
    d: Seq<i64>,
)
    requires
        setting(q, w),
        q.line_tables@.len() <= usize::MAX,
        names_ok(q, r),
        good(q, w, x, r, a, c),
        r.stage == StageV::Retire(v, u, m, d),
    ensures
        ({
            let n = merge_step(q, r, ev);
            good(q, w, x, n.0, n.1, acted(w, a, c))
        }),
{
    let t = q.line_tables@[u as int];
    let victim = r.victims[v as int];
    let c2 = acted(w, a, c);
    let s = some_set(t.table@, d, "published"@, "merged"@);
    lemma_updates_table(t.table@, s);
    lemma_on_table(q, w, u, s, c);
    let y = note_of(q, r, v, u, m, Some(d));
    let h = note_at(q, victim, u as int, m, Some(Seq::empty()));
    if told_of(q, w, u) {
        lemma_lines_after(
            w.table,
            column(q, u),
            c.lines,
            d,
            q.master_id,
            victim,
            "published"@,
            "merged"@,
        );
        lemma_taken_retire(q, r.notes, victim, u as int, m, d, w.table, x.lines);
        assert(y == note_at(q, victim, u as int, m, Some(d)));
    } else {
        lemma_taken_push(q, r.notes, y, u as int, w.table, x.lines);
        lemma_taken_push(q, r.notes, h, u as int, w.table, x.lines);
    }
    lemma_noted(q, w, x, r, c2, v, u, m, Some(d));
    let n = RunV { notes: r.notes.push(y), ..r };
    lemma_good_line(q, w, x, n, c2, v, u + 1);
}

/// The steps that deal with lines.
#[verifier::spinoff_prover]
proof fn lemma_good_lines(
    q: MergeRequest,
    w: Scope,
    x: Stored,
    r: RunV,
    a: ActionV,
    c: Stored,
    ev: EventV,
)
    requires
        setting(q, w),
        q.line_tables@.len() <= usize::MAX,
        names_ok(q, r),
        good(q, w, x, r, a, c),
        tells(w, c, a, ev),
        stage_victim(r.stage) is Some,
        !(r.stage is Xref) && !(r.stage is Mark),
    ensures
        ({
            let n = merge_step(q, r, ev);
            good(q, w, x, n.0, n.1, acted(w, a, c))
        }),
{
    let n = merge_step(q, r, ev);
    match r.stage {
        StageV::LineIds(v, u) => {
            assert(n.0.victims == r.victims);
            assert(among(w, n.0, v + 1) == among(w, r, v + 1));
            let t = q.line_tables@[u as int];
            assert(a == ActionV::Query(ids_statement(t, r.victims[v as int])));
        },
        StageV::MoveAll(v, u, ids) => {
            lemma_good_move_all(q, w, x, r, a, c, ev, v, u, ids);
        },
        StageV::VictimKeys(v, u) => {
            assert(n.0.victims == r.victims);
            assert(among(w, n.0, v + 1) == among(w, r, v + 1));
            let t = q.line_tables@[u as int];
            lemma_line_ids(ev.rows, texts(t.dedup_keys@));
            assert(a == ActionV::Query(keys_statement(t, r.victims[v as int])));
        },
        StageV::MasterKeys(v, u, l) => {
            lemma_good_split(q, w, x, r, a, c, ev, v, u, l);
        },
        StageV::Move(v, u, m, d) => {
            lemma_good_move(q, w, x, r, a, c, ev, v, u, m, d);
        },
        StageV::Retire(v, u, m, d) => {
            lemma_good_retired(q, w, x, r, a, c, ev, v, u, m, d);
        },
        _ => {},
    }
}

/// A victim was marked.
proof fn lemma_good_mark(
    q: MergeRequest,
    w: Scope,
    x: Stored,
    r: RunV,
    a: ActionV,
    c: Stored,
    ev: EventV,
)
    requires
        setting(q, w),
        q.line_tables@.len() <= usize::MAX,
        names_ok(q, r),
        good(q, w, x, r, a, c),
        tells(w, c, a, ev),
        r.stage is Mark,
    ensures
        ({
            let n = merge_step(q, r, ev);
            good(q, w, x, n.0, n.1, acted(w, a, c))
        }),
{
    let v = stage_victim(r.stage)->Some_0;
    let victim = r.victims[v as int];
    let s = lifecycle_statement(q.head_table@, victim, "published"@, "merged"@);
    let c2 = acted(w, a, c);
    lemma_updates_head(q.head_table@, victim, "published"@, "merged"@);
    if updates(s, w.table) {
        lemma_updates_one(s, w.table, q.head_table@);
    }
    lemma_other_table(w.table, s, c.lines);
    if ev.affected > 0 {
        if victim == w.victim {
            assert(hits_victim(w, s, c));
        } else {
            assert(s.params[1] == SqlV::Int(victim));
            assert(lifecycle_statement(w.head, w.victim, c.victim, "merged"@).params[1]
                == SqlV::Int(w.victim));
            assert(!hits_victim(w, s, c));
        }
        if among(w, r, v + 1) && victim != w.victim {
            let i = choose|i: int| 0 <= i < v + 1 && #[trigger] r.victims[i] == w.victim;
            assert(among(w, r, v as int));
        }
        lemma_good_line(q, w, x, r, c2, v, 0);
    }
}

/// The write of the master leaves the victim and the lines alone.
proof fn lemma_header(q: MergeRequest, w: Scope, row: ObjV, version: i64)
    requires
        setting(q, w),
    ensures
        harmless(
            w,
            ActionV::Execute(update_statement(q.head_table@, q.master_id, row, version)),
        ),
{
    let s = update_statement(q.head_table@, q.master_id, row, version);
    reveal_strlit(" ");
    reveal_strlit(" SET ");
    reveal_strlit(" AND lifecycle_status = 'published'");
    reveal_strlit(
        " SET lifecycle_status = $1, published_version = published_version + 1, update_time = now() WHERE id = $2 AND lifecycle_status = $3",
    );
    let p = "UPDATE "@ + q.head_table@ + " "@;
    assert(p =~= s.sql.subrange(0, p.len() as int));
    assert(s.sql.last() == '\'');
    if updates(s, w.table) {
        lemma_updates_one(s, w.table, q.head_table@);
    }
    assert forall|x: Stored| #[trigger] kept(w, s, x) by {
        let l = lifecycle_statement(w.head, w.victim, x.victim, s.params[0]->Text_0);
        assert(l.sql.last() == '3');
        lemma_other_table(w.table, s, x.lines);
    }
}

proof fn lemma_headers(q: MergeRequest, w: Scope)
    requires
        setting(q, w),
    ensures
        forall|row: ObjV, version: i64|
            harmless(
                w,
                ActionV::Execute(
                    #[trigger] update_statement(q.head_table@, q.master_id, row, version),
                ),
            ),
{
    assert forall|row: ObjV, version: i64|
        harmless(
            w,
            ActionV::Execute(
                #[trigger] update_statement(q.head_table@, q.master_id, row, version),
            ),
        ) by {
        lemma_header(q, w, row, version);
    }
}

/// With nothing noted, nothing is taken.
proof fn lemma_none_taken(q: MergeRequest, w: Scope, x: Stored)
    ensures
        taken(q, Seq::empty(), w.table, x.lines) == x.lines,
        owned(q, Seq::empty(), w.table, x.lines),
{
    let none = Seq::<NoteV>::empty();
    let t = taken(q, none, w.table, x.lines);
    assert forall|key: Seq<char>, f: Fate| (#[trigger] noted_ids(none, key, f)).len() == 0 by {}
    assert forall|id: i64| x.lines.dom().contains(id) implies t[id] == #[trigger] x.lines[id] by {
        assert forall|c: Seq<char>| !#[trigger] moved_in(q, none, w.table, c, id) by {}
        assert(!retired_in(q, none, w.table, id));
        assert(t[id].parents =~= x.lines[id].parents);
    }
    assert(t =~= x.lines);
    assert forall|victim: i64| #[trigger] notes_of(none, victim) == none by {}
}

/// The other steps.
#[verifier::spinoff_prover]
proof fn lemma_good_others(
    q: MergeRequest,
    w: Scope,
    x: Stored,
    r: RunV,
    a: ActionV,
    c: Stored,
    ev: EventV,
)
    requires
        setting(q, w),
        q.line_tables@.len() <= usize::MAX,
        q.victim_ids@.len() <= usize::MAX,
        names_ok(q, r),
        good(q, w, x, r, a, c),
        stage_victim(r.stage) is None || r.stage is Xref,
    ensures
        ({
            let n = merge_step(q, r, ev);
            good(q, w, x, n.0, n.1, acted(w, a, c))
        }),
{
    let c2 = acted(w, a, c);
    let n = merge_step(q, r, ev);
    match r.stage {
        StageV::Lock => {},
        StageV::Load => {
            lemma_load(q, r, ev);
            lemma_none_taken(q, w, x);
            assert(n.0.notes == r.notes);
            assert(r.notes =~= Seq::empty());
            assert(agrees(q, w, x, n.0, c2, 0));
            if n.0.stage is Header {
                assert(n.0.victims.len() == 0);
                lemma_headers(q, w);
            }
        },
        StageV::Over => {},
        _ => {
            if let ActionV::Execute(s) = a {
                assert(kept(w, s, c));
            }
            assert(n.0.notes == r.notes);
            assert(n.0.victims == r.victims);
            assert forall|i: int| among(w, n.0, i) == #[trigger] among(w, r, i) by {}
            if r.stage is Xref && n.0.stage is Header {
                lemma_headers(q, w);
            } else if let ActionV::Execute(s) = n.1 {
                if !(r.stage is Xref) {
                    lemma_tail_harmless(q, w, s);
                }
            }
        },
    }
}

proof fn lemma_good(q: MergeRequest, w: Scope, x: Stored, evs: Seq<EventV>)
    requires
        setting(q, w),
        q.line_tables@.len() <= usize::MAX,
        q.victim_ids@.len() <= usize::MAX,
        evs.len() > 0,
        truthful(q, w, x, evs),
    ensures
        good(q, w, x, run_after(q, evs), asked(q, evs), merged_store(q, w, x, evs)),
    decreases evs.len(),
{
    reveal(run_after);
    let d = evs.drop_last();
    if evs.len() == 1 {
        assert(d.len() == 0);
        assert(run_after(q, d) == run_start());
    } else {
        lemma_good(q, w, x, d);
        lemma_names(q, d);
        let r = run_after(q, d);
        let a = asked(q, d);
        let c = merged_store(q, w, x, d);
        if r.stage is Mark {
            lemma_good_mark(q, w, x, r, a, c, evs.last());
        } else if stage_victim(r.stage) is Some && !(r.stage is Xref) {
            lemma_good_lines(q, w, x, r, a, c, evs.last());
        } else {
            lemma_good_others(q, w, x, r, a, c, evs.last());
        }
    }
}

/// The victims of a merge that ends well were asked for.
pub proof fn lemma_victims(q: MergeRequest, evs: Seq<EventV>, ev: EventV)
    requires
        merge_step(q, run_after(q, evs), ev).1 is Done,
    ensures
        victims_asked(q, run_after(q, evs)),
{
    assert(q.line_tables.len() == q.line_tables@.len());
    assert(q.victim_ids.len() == q.victim_ids@.len());
    assert(run_after(q, evs).stage is Archive);
    lemma_names(q, evs);
}

/// What holds at the end of a merge that ends well: what is stored agrees with what was noted, and
/// its victims are merged.
pub proof fn lemma_merged(
    q: MergeRequest,
    w: Scope,
    x: Stored,
    evs: Seq<EventV>,
    ev: EventV,
)
    requires
        w == scope_of(q, w.victim, w.table),
        tables_apart(q),
        is_apart(q, w.table),
        valid_ident(w.table),
        !q.victim_ids@.contains(q.master_id),
        merge_step(q, run_after(q, evs), ev).1 is Done,
        run_after(q, evs).victims.contains(w.victim),
        truthful(q, w, x, evs.push(ev)),
    ensures
        setting(q, w),
        ({
            let r = run_after(q, evs);
            let merged = merged_store(q, w, x, evs.push(ev));
            &&& merged.victim == "merged"@
            &&& merged.lines == taken(q, r.notes, w.table, x.lines)
            &&& owned(q, r.notes, w.table, x.lines)
            &&& notes_on_victims(r)
        }),
{
    assert(q.line_tables.len() == q.line_tables@.len());
    assert(q.victim_ids.len() == q.victim_ids@.len());
    let run = run_after(q, evs);
    let all = evs.push(ev);
    assert(run.stage is Archive);
    reveal(run_after);
    assert(evs.len() > 0);
    reveal_with_fuel(truthful, 2);
    assert(all.drop_last() =~= evs);
    lemma_names(q, evs);
    assert(setting(q, w));
    lemma_good(q, w, x, evs);
    let c = merged_store(q, w, x, evs);
    let merged = merged_store(q, w, x, all);
    assert(merged == acted(w, asked(q, evs), c));
    if let ActionV::Execute(s) = asked(q, evs) {
        assert(kept(w, s, c));
    }
    let i = choose|i: int| 0 <= i < run.victims.len() && run.victims[i] == w.victim;
    assert(run.victims[i] == w.victim);
    assert(among(w, run, run.victims.len() as int));
}

} // verus!
