//! What a merge and its undo write, step by step.

use crate::json::{json_get, json_i64, lemma_get_put, number_of, JsonV, ObjV};
use crate::merge::{
    event_payload, line_step, mark_step, merge_record, merge_step, row_ids, row_key, row_lines,
    EventV, MergeRequest, ActionV, RunV, StageV,
};
use crate::merge_parts::{stray_override, LineKeyV, LineTableInfo};
use crate::outside::json_text;
use crate::sql::{SqlType, SqlV, StatementV};
use crate::store::query::first_bad;
use crate::text::texts;
use crate::unmerge::{
    closing_statements, return_lines, revive_lines, undone, UndoActionV, UndoStageV, UnmergeRequest,
};
use vstd::prelude::*;

verus! {

/// The names of a request may stand in statements.
pub open spec fn well_named(q: MergeRequest) -> bool {
    &&& first_bad(seq![q.head_table@]) is None
    &&& first_bad(crate::merge::merge_columns(texts(q.survive_fields@))) is None
    &&& forall|t: int|
        0 <= t < q.line_tables@.len() ==> {
            &&& first_bad(seq![(#[trigger] q.line_tables@[t]).table@]) is None
            &&& first_bad(
                seq![q.line_tables@[t].table@, q.line_tables@[t].parent_field@],
            ) is None
            &&& first_bad(texts(q.line_tables@[t].dedup_keys@)) is None
        }
}

/// A run at a stage.
pub open spec fn at(r: RunV, stage: StageV) -> RunV {
    RunV { stage, ..r }
}

/// A merge in which a person decided on a field that does not survive fails; any other begins by
/// locking its master.
pub proof fn law_merge_begins(q: MergeRequest, r: RunV, ev: EventV)
    requires
        well_named(q),
    ensures
        ({
            let a = merge_step(q, at(r, StageV::Start), ev).1;
            let stray = exists|i: int|
                0 <= i < q.overrides@.len() && !texts(q.survive_fields@).contains(
                    (#[trigger] q.overrides@[i]).0,
                );
            &&& stray ==> a is Fail
            &&& !stray ==> a is Query && a->Query_0.params == seq![SqlV::Int(q.master_id)]
        }),
{
    lemma_stray(q.overrides@, texts(q.survive_fields@));
}

proof fn lemma_stray(o: ObjV, fields: Seq<Seq<char>>)
    ensures
        stray_override(o, fields) is Some <==> exists|i: int|
            0 <= i < o.len() && !fields.contains((#[trigger] o[i]).0),
    decreases o.len(),
{
    if o.len() > 0 {
        let d = o.drop_first();
        lemma_stray(d, fields);
        if exists|i: int| 0 <= i < d.len() && !fields.contains((#[trigger] d[i]).0) {
            let i = choose|i: int| 0 <= i < d.len() && !fields.contains((#[trigger] d[i]).0);
            assert(o[i + 1] == d[i]);
        }
        if exists|i: int| 0 <= i < o.len() && !fields.contains((#[trigger] o[i]).0) {
            let i = choose|i: int| 0 <= i < o.len() && !fields.contains((#[trigger] o[i]).0);
            if i > 0 {
                assert(d[i - 1] == o[i]);
            }
        }
    }
}

/// Once the master is locked, it is read together with every victim; without a master the merge
/// fails.
pub proof fn law_parties_are_read(q: MergeRequest, r: RunV, ev: EventV, i: int)
    requires
        well_named(q),
    ensures
        ({
            let a = merge_step(q, at(r, StageV::Lock), ev).1;
            &&& ev.rows.len() == 0 ==> a is Fail
            &&& ev.rows.len() > 0 ==> a is Query && a->Query_0.params.len() == q.victim_ids@.len()
                + 1 && a->Query_0.params[0] == SqlV::Int(q.master_id)
            &&& ev.rows.len() > 0 && 0 <= i < q.victim_ids@.len() ==> a->Query_0.params[i + 1]
                == SqlV::Int(q.victim_ids@[i])
        }),
{
}

/// A victim is moved from published to merged, by its own number; if that changes nothing the merge
/// fails, and else its lines are dealt with.
pub proof fn law_victim_is_marked(q: MergeRequest, r: RunV, v: int, ev: EventV)
    requires
        well_named(q),
        0 <= v < r.victims.len() <= usize::MAX,
    ensures
        mark_step(q, r, v).1 matches ActionV::Execute(s) && s.params == seq![
            SqlV::Text("merged"@),
            SqlV::Int(r.victims[v]),
            SqlV::Text("published"@),
        ],
        mark_step(q, r, v).0.stage == StageV::Mark(v as usize),
        ev.affected == 0 ==> merge_step(q, at(r, StageV::Mark(v as usize)), ev).1 is Fail,
        ev.affected > 0 ==> !(merge_step(q, at(r, StageV::Mark(v as usize)), ev).1 is Fail),
{
}

/// After the last victim the master is written: bound last are its number and the version that was
/// read of it.
pub proof fn law_master_is_written(q: MergeRequest, r: RunV, v: int)
    requires
        well_named(q),
        r.victims.len() <= v,
    ensures
        mark_step(q, r, v).0.stage is Header,
        mark_step(q, r, v).1 matches ActionV::Execute(s) && s.params.len() >= 2 && s.params[
            s.params.len() - 2
        ] == SqlV::Int(q.master_id) && s.params[s.params.len() - 1] == SqlV::Int(r.version),
{
}

/// Without keys, all lines of a victim are hung under the master, and each is noted.
pub proof fn law_all_lines_move(q: MergeRequest, r: RunV, v: usize, t: usize, ev: EventV)
    requires
        well_named(q),
        v < r.victims.len(),
        t < q.line_tables@.len(),
        t < usize::MAX,
    ensures
        ({
            let (n, a) = merge_step(q, at(r, StageV::LineIds(v, t)), ev);
            &&& a matches ActionV::Execute(s) && s.params == seq![
                SqlV::Int(q.master_id),
                SqlV::Int(r.victims[v as int]),
            ]
            &&& n.stage == StageV::MoveAll(v, t, row_ids(ev.rows))
        }),
        ({
            let n = merge_step(q, at(r, StageV::MoveAll(v, t, row_ids(ev.rows))), ev).0;
            &&& n.notes.len() == r.notes.len() + 1
            &&& n.notes.last().victim == r.victims[v as int]
            &&& n.notes.last().moved == row_ids(ev.rows)
            &&& n.notes.last().retired is None
        }),
{
}

/// With keys, the lines that move are bound behind the master, those that are retired behind the
/// two states; both are noted.
pub proof fn law_keyed_lines(
    q: MergeRequest,
    r: RunV,
    v: usize,
    t: usize,
    moved: Seq<i64>,
    dups: Seq<i64>,
    ev: EventV,
    i: int,
)
    requires
        well_named(q),
        v < r.victims.len(),
        t < q.line_tables@.len(),
        t < usize::MAX,
    ensures
        moved.len() > 0 ==> (crate::merge::move_step(
            q,
            r,
            v,
            t,
            moved,
            dups,
        ).1 matches ActionV::Execute(s) && s.params.len() == moved.len() + 1 && s.params[0]
            == SqlV::Int(q.master_id) && (0 <= i < moved.len() ==> s.params[i + 1] == SqlV::Int(
            moved[i],
        ))),
        dups.len() > 0 ==> (merge_step(
            q,
            at(r, StageV::Move(v, t, moved, dups)),
            ev,
        ).1 matches ActionV::Execute(s) && s.params.len() == dups.len() + 2 && s.params[0]
            == SqlV::Text("merged"@) && s.params[1] == SqlV::Text("published"@) && (0 <= i
            < dups.len() ==> s.params[i + 2] == SqlV::Int(dups[i]))),
        moved.len() == 0 && dups.len() == 0 ==> crate::merge::move_step(q, r, v, t, moved, dups)
            == merge_step(q, at(r, StageV::Retire(v, t, moved, dups)), ev),
        dups.len() == 0 ==> merge_step(q, at(r, StageV::Move(v, t, moved, dups)), ev) == merge_step(
            q,
            at(r, StageV::Retire(v, t, moved, dups)),
            ev,
        ),
        ({
            let n = merge_step(q, at(r, StageV::Retire(v, t, moved, dups)), ev).0;
            &&& n.notes.len() == r.notes.len() + 1
            &&& n.notes.last().victim == r.victims[v as int]
            &&& n.notes.last().moved == moved
            &&& n.notes.last().retired == Some(dups)
        }),
{
}

/// The ids of rows are read one by one; so are the keys of lines.
pub proof fn law_lines_read(rows: Seq<JsonV>, row: JsonV, keys: Seq<Seq<char>>, id: i64, i: int)
    ensures
        row_ids(Seq::empty()).len() == 0,
        json_i64(json_get(row, "id"@)) == Some(id) ==> row_ids(rows.push(row)) == row_ids(
            rows,
        ).push(id),
        json_i64(json_get(row, "id"@)) is None ==> row_ids(rows.push(row)) == row_ids(rows),
        json_i64(json_get(row, "id"@)) == Some(id) ==> row_lines(rows.push(row), keys) == row_lines(
            rows,
            keys,
        ).push(LineKeyV { id, values: row_key(row, keys) }),
        row_key(row, keys).len() == keys.len(),
        0 <= i < keys.len() && json_get(row, keys[i]) is Some ==> row_key(row, keys)[i] == json_get(
            row,
            keys[i],
        )->Some_0,
        0 <= i < keys.len() && json_get(row, keys[i]) is None ==> row_key(row, keys)[i]
            == JsonV::Null,
{
    assert(rows.push(row).drop_last() =~= rows);
}

/// After its last table the cross references of a victim, and of no other record, are retired; then
/// the next victim is marked.
pub proof fn law_references_retired(q: MergeRequest, r: RunV, v: usize, ev: EventV)
    requires
        v < r.victims.len(),
        v < usize::MAX,
    ensures
        line_step(q, r, v, q.line_tables@.len() as int).1 matches ActionV::Execute(s) && s.params
            == seq![
            SqlV::Text("inactive"@),
            SqlV::Text(q.dict_code@),
            SqlV::Int(r.victims[v as int]),
        ],
        merge_step(q, at(r, StageV::Xref(v)), ev) == mark_step(q, at(r, StageV::Xref(v)), v + 1),
{
}

/// The audit line of a merge tells the master with the version that it has now, and who merged.
pub proof fn law_merge_is_audited(q: MergeRequest, r: RunV, ev: EventV)
    requires
        r.version < i64::MAX,
    ensures
        ({
            let a = merge_step(q, at(r, StageV::Header), ev).1;
            &&& ev.affected == 0 ==> a is Fail
            &&& ev.affected > 0 ==> {
                &&& a is Execute
                &&& a->Execute_0.params.len() == 10
                &&& a->Execute_0.params[0] == SqlV::Int(q.audit_id)
                &&& a->Execute_0.params[1] == SqlV::Text(q.dict_code@)
                &&& a->Execute_0.params[2] == SqlV::Int(q.master_id)
                &&& a->Execute_0.params[3] is Int && a->Execute_0.params[3]->Int_0 == r.version + 1
                &&& a->Execute_0.params[4] == SqlV::Text("merge"@)
                &&& a->Execute_0.params[9] == SqlV::Int(q.operated_by)
            }
        }),
{
}

/// The event of a merge tells the request, the master with its new version, and what it is now.
pub proof fn law_merge_is_told(q: MergeRequest, r: RunV, snapshot: JsonV)
    requires
        r.version < i64::MAX,
    ensures
        ({
            let p = event_payload(q, r, snapshot);
            &&& json_get(p, "match_group_id"@) == Some(JsonV::Num(number_of(q.match_group_id)))
            &&& json_get(p, "master_id"@) == Some(JsonV::Num(number_of(q.master_id)))
            &&& json_i64(json_get(p, "version"@)) is Some
            &&& json_i64(json_get(p, "version"@))->Some_0 == r.version + 1
            &&& json_get(p, "snapshot"@) == Some(snapshot)
        }),
{
    broadcast use lemma_get_put;

    lemma_event_words();
}

proof fn lemma_event_words()
    ensures
        "match_group_id"@ != "master_id"@,
        "match_group_id"@ != "victim_ids"@,
        "match_group_id"@ != "version"@,
        "match_group_id"@ != "survivorship"@,
        "match_group_id"@ != "snapshot"@,
        "master_id"@ != "victim_ids"@,
        "master_id"@ != "version"@,
        "master_id"@ != "survivorship"@,
        "master_id"@ != "snapshot"@,
        "victim_ids"@ != "version"@,
        "victim_ids"@ != "survivorship"@,
        "victim_ids"@ != "snapshot"@,
        "version"@ != "survivorship"@,
        "version"@ != "snapshot"@,
        "survivorship"@ != "snapshot"@,
        "field"@ != "from"@,
{
    reveal_strlit("match_group_id");
    reveal_strlit("master_id");
    reveal_strlit("victim_ids");
    reveal_strlit("version");
    reveal_strlit("survivorship");
    reveal_strlit("snapshot");
    reveal_strlit("field");
    reveal_strlit("from");
    assert("match_group_id"@.len() == 14 && "master_id"@.len() == 9 && "victim_ids"@.len() == 10
        && "version"@.len() == 7 && "survivorship"@.len() == 12 && "snapshot"@.len() == 8
        && "field"@.len() == 5 && "from"@.len() == 4);
}

/// The event tells all victims, and for each field where its value came from.
pub proof fn law_event_tells_parts(q: MergeRequest, r: RunV, snapshot: JsonV, i: int)
    ensures
        json_get(event_payload(q, r, snapshot), "victim_ids"@) matches Some(JsonV::Arr(a))
            && a.len() == q.victim_ids@.len() && (0 <= i < a.len() ==> a[i] == JsonV::Num(
            number_of(q.victim_ids@[i]),
        )),
        json_get(event_payload(q, r, snapshot), "survivorship"@) matches Some(JsonV::Arr(a))
            && a.len() == r.merged.log.len() && (0 <= i < a.len() ==> json_get(a[i], "field"@)
            == Some(JsonV::Str(r.merged.log[i].field)) && json_get(a[i], "from"@) == Some(
            JsonV::Str(r.merged.log[i].from),
        )),
{
    broadcast use lemma_get_put;

    lemma_event_words();
}

/// The event is written for the master, with what was read back of it.
pub proof fn law_event_is_written(q: MergeRequest, r: RunV, ev: EventV)
    ensures
        merge_step(q, at(r, StageV::Audit), ev).1 matches ActionV::Query(s) && s.params == seq![
            SqlV::Int(q.master_id),
        ],
        merge_step(q, at(r, StageV::Snapshot), ev).1 matches ActionV::Execute(s) && s.params.len()
            == 5 && s.params[0] == SqlV::Text(q.event_id@) && s.params[1] == SqlV::Text(
            q.dict_code@,
        ) && s.params[2] == SqlV::Int(q.master_id) && s.params[3] == SqlV::Text("merged"@)
            && s.params[4] == SqlV::Json(
            json_text(
                event_payload(
                    q,
                    at(r, StageV::Snapshot),
                    if ev.rows.len() > 0 {
                        ev.rows[0]
                    } else {
                        JsonV::Null
                    },
                ),
            ),
        ),
{
}

/// A merge request that was rejected in the meantime ends the merge; any other is closed as
/// reviewed, with its record and its master.
pub proof fn law_rejected_is_not_merged(q: MergeRequest, r: RunV, ev: EventV)
    ensures
        merge_step(q, at(r, StageV::Event), ev).1 matches ActionV::Execute(s) && s.params == seq![
            SqlV::Text("reviewed"@),
            SqlV::Int(q.match_group_id),
            SqlV::Text("pending"@),
        ],
        ev.affected == 0 ==> (merge_step(
            q,
            at(r, StageV::Transition),
            ev,
        ).1 matches ActionV::Query(s) && s.params == seq![SqlV::Int(q.match_group_id)]),
        ev.rows.len() > 0 && json_get(ev.rows[0], "status"@) == Some(JsonV::Str("rejected"@))
            ==> merge_step(q, at(r, StageV::Group), ev).1 is Fail,
        (ev.rows.len() == 0 || json_get(ev.rows[0], "status"@) != Some(JsonV::Str("rejected"@)))
            ==> closes(q, r, merge_step(q, at(r, StageV::Group), ev).1),
        ev.affected > 0 ==> closes(q, r, merge_step(q, at(r, StageV::Transition), ev).1),
{
}

/// An action closes the merge request of a run.
pub open spec fn closes(q: MergeRequest, r: RunV, a: ActionV) -> bool {
    &&& a is Execute
    &&& a->Execute_0.params.len() == 4
    &&& a->Execute_0.params[0] == SqlV::Text("reviewed"@)
    &&& a->Execute_0.params[1] == SqlV::Json(json_text(merge_record(r)))
    &&& a->Execute_0.params[2] == SqlV::Int(q.master_id)
    &&& a->Execute_0.params[3] == SqlV::Int(q.match_group_id)
}

/// An undo publishes the victim again where it was merged; where it was not the undo fails. Then
/// the merge request is read.
pub proof fn law_undo_begins(q: UnmergeRequest, ev: EventV)
    requires
        first_bad(seq![q.head_table@]) is None,
    ensures
        undone(q, UndoStageV::Start, ev).1 matches UndoActionV::Execute(s) && s.params == seq![
            SqlV::Text("published"@),
            SqlV::Int(q.victim_id),
            SqlV::Text("merged"@),
        ],
        ev.affected == 0 ==> undone(q, UndoStageV::Restoring, ev).1 is Fail,
        ev.affected > 0 ==> (undone(
            q,
            UndoStageV::Restoring,
            ev,
        ).1 matches UndoActionV::Query(s) && s.params == seq![SqlV::Int(q.match_group_id)]),
{
}

/// Lines that moved are bound behind the victim, lines that were retired behind the two states.
pub proof fn law_lines_go_back(t: LineTableInfo, ids: Seq<i64>, victim: i64, i: int)
    requires
        first_bad(seq![t.table@, t.parent_field@]) is None,
        first_bad(seq![t.table@]) is None,
    ensures
        return_lines(t, ids, victim) matches Ok(s) && s.params.len() == ids.len() + 1 && s.params[0]
            == SqlV::Int(victim) && (0 <= i < ids.len() ==> s.params[i + 1] == SqlV::Int(ids[i])),
        revive_lines(t, ids) matches Ok(s) && s.params.len() == ids.len() + 2 && s.params[0]
            == SqlV::Text("published"@) && s.params[1] == SqlV::Text("merged"@) && (0 <= i
            < ids.len() ==> s.params[i + 2] == SqlV::Int(ids[i])),
{
}

/// An undo ends by reviving the cross references of the victim, noting who undid what, and closing
/// the merge request without record and master.
pub proof fn law_undo_closes(q: UnmergeRequest)
    ensures
        ({
            let c = closing_statements(q);
            &&& c.len() == 3
            &&& c[0].params == seq![
                SqlV::Text("active"@),
                SqlV::Text(q.dict_code@),
                SqlV::Int(q.victim_id),
            ]
            &&& c[1].params.len() == 10
            &&& c[1].params[0] == SqlV::Int(q.audit_id)
            &&& c[1].params[1] == SqlV::Text(q.dict_code@)
            &&& c[1].params[2] == SqlV::Int(q.master_id)
            &&& c[1].params[4] == SqlV::Text("unmerge"@)
            &&& c[1].params[5] == SqlV::Int(q.victim_id)
            &&& c[1].params[9] == SqlV::Int(q.operated_by)
            &&& c[2].params == seq![
                SqlV::Text("unmerged"@),
                SqlV::NullTyped(SqlType::Json),
                SqlV::NullTyped(SqlType::Int),
                SqlV::Int(q.match_group_id),
            ]
        }),
{
}

/// The statements of an undo are run one by one, in order, and the undo is done after the last.
pub proof fn law_undo_runs_all(q: UnmergeRequest, s: StatementV, left: Seq<StatementV>, ev: EventV)
    ensures
        undone(q, UndoStageV::Writing(seq![s] + left), ev) == (
            UndoStageV::Writing(left),
            UndoActionV::Execute(s),
        ),
        undone(q, UndoStageV::Writing(Seq::empty()), ev).1 is Done,
{
    assert((seq![s] + left).drop_first() =~= left);
}

/// A merge goes on in order: lock, read, victim by victim the mark, the lines and the cross
/// references, then the master, the audit line, the event, and the merge request.
pub proof fn law_merge_order(q: MergeRequest, r: RunV, v: usize, t: usize, ev: EventV)
    requires
        v < usize::MAX,
        t < usize::MAX,
    ensures
        ({
            let next = |s: StageV| merge_step(q, at(r, s), ev);
            let stops = |s: StageV| next(s).1 is Fail;
            &&& next(StageV::Start).0.stage is Lock || stops(StageV::Start)
            &&& next(StageV::Lock).0.stage is Load || stops(StageV::Lock)
            &&& next(StageV::Load).0.stage is Mark || next(StageV::Load).0.stage is Header || stops(
                StageV::Load,
            )
            &&& next(StageV::LineIds(v, t)).0.stage == StageV::MoveAll(v, t, row_ids(ev.rows))
                || stops(StageV::LineIds(v, t))
            &&& next(StageV::VictimKeys(v, t)).0.stage is MasterKeys || stops(
                StageV::VictimKeys(v, t),
            )
            &&& next(StageV::Header).0.stage is Audit || stops(StageV::Header)
            &&& next(StageV::Audit).0.stage is Snapshot
            &&& next(StageV::Snapshot).0.stage is Event
            &&& next(StageV::Event).0.stage is Transition
            &&& next(StageV::Transition).0.stage is Group && ev.affected == 0 || next(
                StageV::Transition,
            ).0.stage is Archive && ev.affected > 0
            &&& next(StageV::Group).0.stage is Archive || stops(StageV::Group)
            &&& next(StageV::Archive).1 is Done
        }),
{
}

/// The tables of a victim are dealt with one after the other, none left out.
pub proof fn law_tables_in_order(q: MergeRequest, r: RunV, v: usize, t: usize, ev: EventV)
    requires
        well_named(q),
        v < r.victims.len(),
        t < q.line_tables@.len() < usize::MAX,
    ensures
        ({
            let s = line_step(q, r, v, t as int).0.stage;
            s == StageV::LineIds(v, t) || s == StageV::VictimKeys(v, t)
        }),
        ev.affected > 0 && q.line_tables@.len() > 0 ==> ({
            let s = merge_step(q, at(r, StageV::Mark(v)), ev).0.stage;
            s == StageV::LineIds(v, 0) || s == StageV::VictimKeys(v, 0)
        }),
        t + 1 < q.line_tables@.len() ==> ({
            let s = merge_step(q, at(r, StageV::MoveAll(v, t, Seq::empty())), ev).0.stage;
            s == StageV::LineIds(v, (t + 1) as usize) || s == StageV::VictimKeys(
                v,
                (t + 1) as usize,
            )
        }),
        t + 1 == q.line_tables@.len() ==> merge_step(
            q,
            at(r, StageV::MoveAll(v, t, Seq::empty())),
            ev,
        ).0.stage == StageV::Xref(v),
{
}

} // verus!
