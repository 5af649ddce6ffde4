//! What a merge notes of the detail lines.

use crate::merge::{
    after_header, lemma_progress, line_step, lines_done_step, merge_record, merge_step, move_step,
    note_of, retire_step, row_ids, row_lines, run_after, stage_victim, EventV, MergeRequest, RunV,
    StageV,
};
use crate::merge_parts::lines_with;
use crate::merge_record::{
    law_record_lists_all, law_record_tells_victims, line_key, lines_record, note_ids, noted_ids,
    notes_of, recorded_ids, Fate, NoteV,
};
use crate::text::texts;
use vstd::prelude::*;

verus! {

/// At event `i` the lines of victim `v` in table `t` were read; `moved` are those that go to the
/// master, `retired` those that repeat one of the master's.
pub open spec fn read_at(
    q: MergeRequest,
    evs: Seq<EventV>,
    i: int,
    v: int,
    t: int,
    moved: Seq<i64>,
    retired: Seq<i64>,
) -> bool {
    0 <= i < evs.len() && match run_after(q, evs.take(i)).stage {
        StageV::LineIds(w, u) => w == v && u == t && moved == row_ids(evs[i].rows) && retired
            == Seq::<i64>::empty(),
        StageV::MasterKeys(w, u, lines) => {
            let master = row_lines(evs[i].rows, texts(q.line_tables@[t].dedup_keys@));
            w == v && u == t && moved == lines_with(lines, master, false) && retired
                == lines_with(lines, master, true)
        },
        _ => false,
    }
}

/// Of the lines of victim `v` in table `t`, `moved` went to the master and `retired` were retired.
pub open spec fn became(
    q: MergeRequest,
    evs: Seq<EventV>,
    v: int,
    t: int,
    moved: Seq<i64>,
    retired: Seq<i64>,
) -> bool {
    exists|i: int| read_at(q, evs, i, v, t, moved, retired)
}

/// The place of the note on victim `v` and table `t`.
pub open spec fn note_place(q: MergeRequest, v: int, t: int) -> int {
    v * q.line_tables@.len() + t
}

/// A note tells what became of the lines of victim `v` in table `t`.
pub open spec fn note_tells(
    q: MergeRequest,
    evs: Seq<EventV>,
    victims: Seq<i64>,
    n: NoteV,
    v: int,
    t: int,
) -> bool {
    &&& n.victim == victims[v]
    &&& n.key == line_key(q.line_tables@, q.line_tables@[t])
    &&& n.retired is Some <==> q.line_tables@[t].dedup_keys@.len() > 0
    &&& became(q, evs, v, t, n.moved, note_ids(n, Fate::Retired))
}

/// The run has noted victim `v` and table `t` at their place.
spec fn noted(q: MergeRequest, evs: Seq<EventV>, r: RunV, v: int, t: int) -> bool {
    &&& 0 <= note_place(q, v, t) < r.notes.len()
    &&& note_tells(q, evs, r.victims, r.notes[note_place(q, v, t)], v, t)
}

/// The run has noted all that comes before victim `v` and table `t`, and nothing else.
spec fn noted_before(q: MergeRequest, evs: Seq<EventV>, r: RunV, v: int, t: int) -> bool {
    &&& r.notes.len() == note_place(q, v, t)
    &&& forall|u: int, w: int|
        0 <= u && 0 <= w < q.line_tables@.len() && (u < v || u == v && w < t)
            ==> #[trigger] noted(q, evs, r, u, w)
}

/// Every note is of a victim of the run.
spec fn owned(r: RunV) -> bool {
    forall|i: int| 0 <= i < r.notes.len() ==> r.victims.contains((#[trigger] r.notes[i]).victim)
}

/// A table of the request, with or without key columns.
spec fn table_at(q: MergeRequest, t: usize, keyed: bool) -> bool {
    t < q.line_tables@.len() && (q.line_tables@[t as int].dedup_keys@.len() > 0) == keyed
}

/// What the run has noted, stage by stage.
spec fn notes_ok(q: MergeRequest, evs: Seq<EventV>, r: RunV) -> bool {
    &&& owned(r)
    &&& match r.stage {
        StageV::Mark(v) => noted_before(q, evs, r, v as int, 0),
        StageV::LineIds(v, t) => table_at(q, t, false) && noted_before(
            q,
            evs,
            r,
            v as int,
            t as int,
        ),
        StageV::MoveAll(v, t, ids) => table_at(q, t, false) && noted_before(
            q,
            evs,
            r,
            v as int,
            t as int,
        ) && became(q, evs, v as int, t as int, ids, Seq::empty()),
        StageV::VictimKeys(v, t) => table_at(q, t, true) && noted_before(
            q,
            evs,
            r,
            v as int,
            t as int,
        ),
        StageV::MasterKeys(v, t, _) => table_at(q, t, true) && noted_before(
            q,
            evs,
            r,
            v as int,
            t as int,
        ),
        StageV::Move(v, t, a, b) => table_at(q, t, true) && noted_before(
            q,
            evs,
            r,
            v as int,
            t as int,
        ) && became(q, evs, v as int, t as int, a, b),
        StageV::Retire(v, t, a, b) => table_at(q, t, true) && noted_before(
            q,
            evs,
            r,
            v as int,
            t as int,
        ) && became(q, evs, v as int, t as int, a, b),
        StageV::Xref(v) => noted_before(q, evs, r, v as int, q.line_tables@.len() as int),
        StageV::Start => r.notes.len() == 0,
        StageV::Lock => r.notes.len() == 0,
        StageV::Load => r.notes.len() == 0,
        _ => true,
    }
    &&& r.stage is Header || after_header(r.stage) ==> noted_before(
        q,
        evs,
        r,
        r.victims.len() as int,
        0,
    )
}

/// Stages apart, what was noted stays noted as more events come in.
proof fn lemma_later(q: MergeRequest, evs: Seq<EventV>, r: RunV, n: RunV, v: int, t: int)
    requires
        evs.len() > 0,
        n.notes == r.notes,
        n.victims == r.victims,
        noted_before(q, evs.drop_last(), r, v, t),
    ensures
        noted_before(q, evs, n, v, t),
{
    let d = evs.drop_last();
    assert forall|u: int, w: int|
        0 <= u && 0 <= w < q.line_tables@.len() && (u < v || u == v && w
            < t) implies #[trigger] noted(q, evs, n, u, w) by {
        assert(noted(q, d, r, u, w));
        let x = r.notes[note_place(q, u, w)];
        lemma_became_later(q, evs, u, w, x.moved, note_ids(x, Fate::Retired));
    }
}

proof fn lemma_became_later(
    q: MergeRequest,
    evs: Seq<EventV>,
    v: int,
    t: int,
    moved: Seq<i64>,
    retired: Seq<i64>,
)
    requires
        evs.len() > 0,
        became(q, evs.drop_last(), v, t, moved, retired),
    ensures
        became(q, evs, v, t, moved, retired),
{
    let d = evs.drop_last();
    let i = choose|i: int| read_at(q, d, i, v, t, moved, retired);
    assert(d.take(i) =~= evs.take(i));
    assert(d[i] == evs[i]);
    assert(read_at(q, evs, i, v, t, moved, retired));
}

/// The run with one more note.
spec fn with_note(r: RunV, n: NoteV) -> RunV {
    RunV { notes: r.notes.push(n), ..r }
}

/// A table dealt with is noted, and those before it stay noted.
proof fn lemma_note(
    q: MergeRequest,
    evs: Seq<EventV>,
    r: RunV,
    v: usize,
    t: usize,
    moved: Seq<i64>,
    retired: Option<Seq<i64>>,
)
    requires
        owned(r),
        v < r.victims.len(),
        table_at(q, t, retired is Some),
        noted_before(q, evs, r, v as int, t as int),
        became(
            q,
            evs,
            v as int,
            t as int,
            moved,
            note_ids(note_of(q, r, v, t, moved, retired), Fate::Retired),
        ),
    ensures
        owned(with_note(r, note_of(q, r, v, t, moved, retired))),
        noted_before(
            q,
            evs,
            with_note(r, note_of(q, r, v, t, moved, retired)),
            v as int,
            t + 1,
        ),
{
    let x = note_of(q, r, v, t, moved, retired);
    let n = with_note(r, x);
    assert(r.victims[v as int] == x.victim);
    assert forall|i: int| 0 <= i < n.notes.len() implies n.victims.contains(
        (#[trigger] n.notes[i]).victim,
    ) by {
        if i < r.notes.len() {
            assert(r.victims.contains(r.notes[i].victim));
        }
    }
    assert forall|u: int, w: int|
        0 <= u && 0 <= w < q.line_tables@.len() && (u < v || u == v && w < t
            + 1) implies #[trigger] noted(q, evs, n, u, w) by {
        if u < v || w < t {
            assert(noted(q, evs, r, u, w));
        }
    }
}

/// The next table, or the end of the tables, keeps the notes.
proof fn lemma_line_step(q: MergeRequest, evs: Seq<EventV>, r: RunV, v: usize, t: int)
    requires
        owned(r),
        0 <= t <= q.line_tables.len(),
        noted_before(q, evs, r, v as int, t),
    ensures
        notes_ok(q, evs, line_step(q, r, v, t).0),
{
    let n = line_step(q, r, v, t).0;
    assert(owned(n)) by {
        assert(n.notes == r.notes && n.victims == r.victims);
    }
    lemma_same(q, evs, r, n, v as int, t);
}

/// Stages apart, two runs hold the same.
proof fn lemma_same(q: MergeRequest, evs: Seq<EventV>, r: RunV, n: RunV, v: int, t: int)
    requires
        n.notes == r.notes,
        n.victims == r.victims,
        noted_before(q, evs, r, v, t),
    ensures
        noted_before(q, evs, n, v, t),
{
    assert forall|u: int, w: int|
        0 <= u && 0 <= w < q.line_tables@.len() && (u < v || u == v && w
            < t) implies #[trigger] noted(q, evs, n, u, w) by {
        assert(noted(q, evs, r, u, w));
    }
}

/// The lines of a table with key columns are split: what follows keeps the notes.
proof fn lemma_keyed(
    q: MergeRequest,
    evs: Seq<EventV>,
    r: RunV,
    v: usize,
    t: usize,
    moved: Seq<i64>,
    retired: Seq<i64>,
)
    requires
        owned(r),
        v < r.victims.len(),
        table_at(q, t, true),
        noted_before(q, evs, r, v as int, t as int),
        became(q, evs, v as int, t as int, moved, retired),
    ensures
        notes_ok(q, evs, move_step(q, r, v, t, moved, retired).0),
        notes_ok(q, evs, retire_step(q, r, v, t, moved, retired).0),
        notes_ok(q, evs, lines_done_step(q, r, v, t, moved, retired).0),
{
    lemma_note(q, evs, r, v, t, moved, Some(retired));
    let n = with_note(r, note_of(q, r, v, t, moved, Some(retired)));
    lemma_line_step(q, evs, n, v, t + 1);
    assert(lines_done_step(q, r, v, t, moved, retired) == line_step(q, n, v, t + 1));
    let a = retire_step(q, r, v, t, moved, retired).0;
    if retired.len() > 0 {
        lemma_same(q, evs, r, a, v as int, t as int);
        assert(owned(a));
    }
    let b = move_step(q, r, v, t, moved, retired).0;
    if moved.len() > 0 {
        lemma_same(q, evs, r, b, v as int, t as int);
        assert(owned(b));
    }
}

/// The steps that deal with detail lines keep the notes.
#[verifier::spinoff_prover]
proof fn lemma_lines(q: MergeRequest, evs: Seq<EventV>, r: RunV)
    requires
        evs.len() > 0,
        r == run_after(q, evs.drop_last()),
        notes_ok(q, evs.drop_last(), r),
        stage_victim(r.stage) matches Some(v) && v < r.victims.len(),
        !(r.stage is Xref),
    ensures
        notes_ok(q, evs, merge_step(q, r, evs.last()).0),
{
    let ev = evs.last();
    let n = merge_step(q, r, ev).0;
    let last = evs.len() - 1;
    assert(evs.take(last) =~= evs.drop_last());
    assert(evs[last] == ev);
    match r.stage {
        StageV::Mark(v) => {
            lemma_later(q, evs, r, r, v as int, 0);
            if ev.affected > 0 {
                lemma_line_step(q, evs, r, v, 0);
            } else {
                assert(owned(n));
            }
        },
        StageV::LineIds(v, t) => {
            assert(n.notes == r.notes && n.victims == r.victims);
            assert(owned(n));
            lemma_later(q, evs, r, n, v as int, t as int);
            assert(read_at(q, evs, last, v as int, t as int, row_ids(ev.rows), Seq::empty()));
        },
        StageV::MoveAll(v, t, ids) => {
            lemma_later(q, evs, r, r, v as int, t as int);
            lemma_became_later(q, evs, v as int, t as int, ids, Seq::empty());
            lemma_note(q, evs, r, v, t, ids, None);
            let m = with_note(r, note_of(q, r, v, t, ids, None));
            lemma_line_step(q, evs, m, v, t + 1);
        },
        StageV::VictimKeys(v, t) => {
            assert(n.notes == r.notes && n.victims == r.victims);
            assert(owned(n));
            lemma_later(q, evs, r, n, v as int, t as int);
        },
        StageV::MasterKeys(v, t, lines) => {
            lemma_later(q, evs, r, r, v as int, t as int);
            let master = row_lines(ev.rows, texts(q.line_tables@[t as int].dedup_keys@));
            let a = lines_with(lines, master, false);
            let b = lines_with(lines, master, true);
            assert(read_at(q, evs, last, v as int, t as int, a, b));
            lemma_keyed(q, evs, r, v, t, a, b);
        },
        StageV::Move(v, t, a, b) => {
            lemma_later(q, evs, r, r, v as int, t as int);
            lemma_became_later(q, evs, v as int, t as int, a, b);
            lemma_keyed(q, evs, r, v, t, a, b);
        },
        StageV::Retire(v, t, a, b) => {
            lemma_later(q, evs, r, r, v as int, t as int);
            lemma_became_later(q, evs, v as int, t as int, a, b);
            lemma_keyed(q, evs, r, v, t, a, b);
        },
        _ => {},
    }
}

/// After the last table of a victim comes the first of the next.
proof fn lemma_next_victim(q: MergeRequest, evs: Seq<EventV>, r: RunV, v: int)
    requires
        noted_before(q, evs, r, v, q.line_tables@.len() as int),
    ensures
        noted_before(q, evs, r, v + 1, 0),
{
    let k = q.line_tables@.len() as int;
    assert(v * k + k == (v + 1) * k) by (nonlinear_arith);
    assert forall|u: int, w: int|
        0 <= u && 0 <= w < q.line_tables@.len() && (u < v + 1 || u == v + 1 && w
            < 0) implies #[trigger] noted(q, evs, r, u, w) by {
        assert(u < v || u == v && w < k);
    }
}

/// The other steps keep the notes.
#[verifier::spinoff_prover]
proof fn lemma_others(q: MergeRequest, evs: Seq<EventV>, r: RunV)
    requires
        evs.len() > 0,
        notes_ok(q, evs.drop_last(), r),
        r.victims.len() <= usize::MAX,
        stage_victim(r.stage) is None || r.stage is Xref,
        r.stage matches StageV::Xref(v) ==> v < r.victims.len(),
        r.stage is Load ==> evs.last().rows.len() <= usize::MAX,
    ensures
        notes_ok(q, evs, merge_step(q, r, evs.last()).0),
{
    let n = merge_step(q, r, evs.last()).0;
    let k = q.line_tables@.len() as int;
    if let StageV::Xref(v) = r.stage {
        lemma_later(q, evs, r, r, v as int, k);
        lemma_next_victim(q, evs, r, v as int);
        lemma_same(q, evs, r, n, v + 1, 0);
        assert(owned(n));
    } else if r.stage is Header || after_header(r.stage) {
        assert(n.notes == r.notes && n.victims == r.victims);
        lemma_later(q, evs, r, n, r.victims.len() as int, 0);
        assert(owned(n));
    } else {
        assert(n.notes == r.notes);
        if r.notes.len() == 0 {
            assert(owned(n));
            assert(note_place(q, 0, 0) == 0) by {
                assert(0 * k == 0);
            }
            assert(noted_before(q, evs, n, 0, 0));
        } else {
            assert(n.victims == r.victims);
            assert(owned(n));
        }
    }
}

proof fn lemma_notes(q: MergeRequest, evs: Seq<EventV>)
    requires
        forall|i: int| 0 <= i < evs.len() ==> (#[trigger] evs[i]).rows.len() <= usize::MAX,
    ensures
        notes_ok(q, evs, run_after(q, evs)),
    decreases evs.len(),
{
    reveal(run_after);
    if evs.len() > 0 {
        let d = evs.drop_last();
        assert forall|i: int| 0 <= i < d.len() implies (#[trigger] d[i]).rows.len()
            <= usize::MAX by {
            assert(d[i] == evs[i]);
        }
        lemma_notes(q, d);
        lemma_progress(q, d);
        let r = run_after(q, d);
        assert(evs.last() == evs[evs.len() - 1]);
        if stage_victim(r.stage) is Some && !(r.stage is Xref) {
            lemma_lines(q, evs, r);
        } else {
            lemma_others(q, evs, r);
        }
    }
}

/// A merge that ends well has noted, for every victim and every detail table, exactly the lines
/// of that victim that went to the master and those that were retired, and nothing else.
pub proof fn law_notes_tell_all(q: MergeRequest, evs: Seq<EventV>, ev: EventV)
    requires
        forall|i: int| 0 <= i < evs.len() ==> (#[trigger] evs[i]).rows.len() <= usize::MAX,
        merge_step(q, run_after(q, evs), ev).1 is Done,
    ensures
        run_after(q, evs).notes.len() == note_place(q, run_after(q, evs).victims.len() as int, 0),
        forall|v: int, t: int|
            0 <= v < run_after(q, evs).victims.len() && 0 <= t < q.line_tables@.len() ==> {
                &&& 0 <= #[trigger] note_place(q, v, t) < run_after(q, evs).notes.len()
                &&& note_tells(
                    q,
                    evs,
                    run_after(q, evs).victims,
                    run_after(q, evs).notes[note_place(q, v, t)],
                    v,
                    t,
                )
            },
{
    lemma_notes(q, evs);
    let r = run_after(q, evs);
    assert forall|v: int, t: int|
        0 <= v < r.victims.len() && 0 <= t < q.line_tables@.len() implies {
        &&& 0 <= #[trigger] note_place(q, v, t) < r.notes.len()
        &&& note_tells(q, evs, r.victims, r.notes[note_place(q, v, t)], v, t)
    } by {
        assert(noted(q, evs, r, v, t));
    }
}

/// The record of a merge that ends well lists under each key all lines that it noted, and
/// of each victim those that were its own: what an undo of that victim gives back.
pub proof fn law_record_lists_lines(
    q: MergeRequest,
    evs: Seq<EventV>,
    ev: EventV,
    v: int,
    key: Seq<char>,
)
    requires
        forall|i: int| 0 <= i < evs.len() ==> (#[trigger] evs[i]).rows.len() <= usize::MAX,
        merge_step(q, run_after(q, evs), ev).1 is Done,
        0 <= v < run_after(q, evs).victims.len(),
    ensures
        ({
            let r = run_after(q, evs);
            let own = lines_record(merge_record(r), r.victims[v]);
            &&& recorded_ids(merge_record(r), "reparented"@, key) == noted_ids(
                r.notes,
                key,
                Fate::Moved,
            )
            &&& recorded_ids(merge_record(r), "deduped"@, key) == noted_ids(
                r.notes,
                key,
                Fate::Retired,
            )
            &&& recorded_ids(own, "reparented"@, key) == noted_ids(
                notes_of(r.notes, r.victims[v]),
                key,
                Fate::Moved,
            )
            &&& recorded_ids(own, "deduped"@, key) == noted_ids(
                notes_of(r.notes, r.victims[v]),
                key,
                Fate::Retired,
            )
        }),
{
    lemma_notes(q, evs);
    let r = run_after(q, evs);
    let fields = crate::json::JsonV::Arr(
        Seq::new(
            r.merged.log.len(),
            |i: int| crate::merge::log_entry_json(r.merged.log[i]),
        ),
    );
    law_record_lists_all(fields, r.notes, r.victims, key);
    assert(r.victims.contains(r.victims[v]));
    law_record_tells_victims(fields, r.notes, r.victims, r.victims[v], key);
}

} // verus!
