//! Merging records: one transaction, told statement by statement.
//!
//! [`MergeRun`] hands out the statements of a merge one at a time and is told what each gave
//! back. Any failure ends the run; the caller then rolls the transaction back.

use crate::json::{array, json_get, json_str, number_of, obj_put, values_view, Json, JsonV, Object};
use crate::match_algo::{keys_view, records_view, RecordV};
use crate::merge_parts::{
    about_id, apply_overrides, check_overrides, ids_json, ids_value, lemma_merge_update_len,
    lines_view, lines_with, master_update, merge_rows, merge_update, merged, overridden, parties,
    record_version, select_parties, split_lines, stray_override, version_of, LineKey, LineKeyV,
    LineTableInfo, MergeStats, MergedV,
};
use crate::merge_record::{
    count_noted, counter, key_of_lines, line_key, noted_total, notes_view, record_value,
    write_record, Fate, LineNote, NoteV,
};
use crate::sql::{slots, update_statement, SqlType, SqlV, Statement, StatementV};
use crate::store::dct_accessor::{
    id_params, lock_record, on_table, reparent_lines, reparent_lines_by_ids, select_line_ids,
    select_line_keys, select_row_json, set_lifecycle, set_lifecycle_by_ids, update_header,
};
use crate::store::loader::{borrowed, load_by_ids, read_records, record_of_row, rows_records};
use crate::store::match_group::{get_match_group, transition_match_group, update_match_group};
use crate::store::md_accessor::{
    deactivate_xref, write_audit, write_event, AuditEntry,
};
use crate::store::query::{bad_name, first_bad};
use crate::survivorship::{log_view, rules_view, LogV, SurvivorLogEntry, SurvivorRule};
use crate::text::{dec_int, join, same_text, texts};
use vstd::prelude::*;

verus! {

/// What a merge is asked to do. The ids of the audit line and of the event are fresh ones.
#[derive(Debug)]
pub struct MergeRequest {
    pub dict_code: String,
    pub head_table: String,
    pub master_id: i64,
    pub victim_ids: Vec<i64>,
    pub survive_fields: Vec<String>,
    pub rules: Vec<(String, SurvivorRule)>,
    /// Values that a person decided on.
    pub overrides: Object,
    pub line_tables: Vec<LineTableInfo>,
    pub operated_by: i64,
    pub match_group_id: i64,
    pub audit_id: i64,
    pub event_id: String,
}

impl MergeRequest {
    /// The lists are far from the limits of the machine.
    pub open spec fn fits(&self) -> bool {
        &&& self.victim_ids@.len() + 3 <= usize::MAX
        &&& self.survive_fields@.len() + 3 <= usize::MAX
    }
}

/// What a statement gave back: its rows, or how many rows it changed.
#[derive(Debug)]
pub struct StepEvent {
    pub rows: Vec<Json>,
    pub affected: u64,
}

/// What an event stands for.
#[verifier::ext_equal]
pub struct EventV {
    pub rows: Seq<JsonV>,
    pub affected: u64,
}

impl StepEvent {
    pub open spec fn view(&self) -> EventV {
        EventV { rows: values_view(self.rows@), affected: self.affected }
    }
}

/// What to do next.
#[derive(Debug)]
pub enum StepAction {
    /// Run a query.
    Query(Statement),
    /// Run a statement that changes rows.
    Execute(Statement),
    /// Commit.
    Done(MergeStats),
    /// Roll back.
    Fail(String),
}

/// What an action stands for.
pub enum ActionV {
    Query(StatementV),
    Execute(StatementV),
    Done(MergeStats),
    Fail(Seq<char>),
}

impl StepAction {
    pub open spec fn view(&self) -> ActionV {
        match *self {
            StepAction::Query(s) => ActionV::Query(s@),
            StepAction::Execute(s) => ActionV::Execute(s@),
            StepAction::Done(m) => ActionV::Done(m),
            StepAction::Fail(e) => ActionV::Fail(e@),
        }
    }
}

/// What a run is waiting for. The numbers are those of a victim and of a detail table.
#[derive(Debug)]
enum Stage {
    Start,
    Lock,
    Load,
    Mark(usize),
    LineIds(usize, usize),
    MoveAll(usize, usize, Vec<i64>),
    VictimKeys(usize, usize),
    MasterKeys(usize, usize, Vec<LineKey>),
    Move(usize, usize, Vec<i64>, Vec<i64>),
    Retire(usize, usize, Vec<i64>, Vec<i64>),
    Xref(usize),
    Header,
    Audit,
    Snapshot,
    Event,
    Transition,
    Group,
    Archive,
    Over,
}

/// What a stage stands for.
pub enum StageV {
    Start,
    Lock,
    Load,
    Mark(usize),
    LineIds(usize, usize),
    MoveAll(usize, usize, Seq<i64>),
    VictimKeys(usize, usize),
    MasterKeys(usize, usize, Seq<LineKeyV>),
    Move(usize, usize, Seq<i64>, Seq<i64>),
    Retire(usize, usize, Seq<i64>, Seq<i64>),
    Xref(usize),
    Header,
    Audit,
    Snapshot,
    Event,
    Transition,
    Group,
    Archive,
    Over,
}

impl Stage {
    spec fn view(&self) -> StageV {
        match *self {
            Stage::Start => StageV::Start,
            Stage::Lock => StageV::Lock,
            Stage::Load => StageV::Load,
            Stage::Mark(v) => StageV::Mark(v),
            Stage::LineIds(v, t) => StageV::LineIds(v, t),
            Stage::MoveAll(v, t, ids) => StageV::MoveAll(v, t, ids@),
            Stage::VictimKeys(v, t) => StageV::VictimKeys(v, t),
            Stage::MasterKeys(v, t, l) => StageV::MasterKeys(v, t, lines_view(l@)),
            Stage::Move(v, t, a, b) => StageV::Move(v, t, a@, b@),
            Stage::Retire(v, t, a, b) => StageV::Retire(v, t, a@, b@),
            Stage::Xref(v) => StageV::Xref(v),
            Stage::Header => StageV::Header,
            Stage::Audit => StageV::Audit,
            Stage::Snapshot => StageV::Snapshot,
            Stage::Event => StageV::Event,
            Stage::Transition => StageV::Transition,
            Stage::Group => StageV::Group,
            Stage::Archive => StageV::Archive,
            Stage::Over => StageV::Over,
        }
    }
}

/// A merge under way.
#[derive(Debug)]
pub struct MergeRun {
    req: MergeRequest,
    stage: Stage,
    victims: Vec<i64>,
    row: Object,
    log: Vec<SurvivorLogEntry>,
    notes: Vec<LineNote>,
    version: i64,
}

/// What a run stands for.
#[verifier::ext_equal]
pub struct RunV {
    pub stage: StageV,
    /// The victims that were read.
    pub victims: Seq<i64>,
    /// What the master becomes, and the log of it.
    pub merged: MergedV,
    /// What became of the detail lines, victim by victim and table by table.
    pub notes: Seq<NoteV>,
    /// The version of the master that was read.
    pub version: i64,
}

/// A statement, or what is wrong with its names.
pub type Prepared = Result<StatementV, Seq<char>>;

/// The statement where the names may stand in it.
pub open spec fn prepared(names: Seq<Seq<char>>, s: StatementV) -> Prepared {
    match first_bad(names) {
        Some(n) => Err(bad_name(n)),
        None => Ok(s),
    }
}

/// The end of a run that fails.
pub open spec fn fail_step(r: RunV, e: Seq<char>) -> (RunV, ActionV) {
    (RunV { stage: StageV::Over, ..r }, ActionV::Fail(e))
}

/// A query, after which the run waits at `stage`.
pub open spec fn query_step(r: RunV, stage: StageV, p: Prepared) -> (RunV, ActionV) {
    match p {
        Ok(s) => (RunV { stage, ..r }, ActionV::Query(s)),
        Err(e) => fail_step(r, e),
    }
}

/// A change, after which the run waits at `stage`.
pub open spec fn change_step(r: RunV, stage: StageV, p: Prepared) -> (RunV, ActionV) {
    match p {
        Ok(s) => (RunV { stage, ..r }, ActionV::Execute(s)),
        Err(e) => fail_step(r, e),
    }
}

/// The columns that a merge reads.
pub open spec fn merge_columns(fields: Seq<Seq<char>>) -> Seq<Seq<char>> {
    seq!["id"@, "lifecycle_status"@, "published_version"@, "update_time"@] + fields
}

/// The start: the overrides are checked and the master is locked.
pub open spec fn start_step(q: MergeRequest, r: RunV) -> (RunV, ActionV) {
    match stray_override(q.overrides@, texts(q.survive_fields@)) {
        Some(k) => fail_step(r, "overrides 字段 "@ + k + " 不在存活字段清单"@),
        None => query_step(
            r,
            StageV::Lock,
            prepared(
                seq![q.head_table@],
                on_table(
                    "SELECT id FROM "@,
                    q.head_table@,
                    " WHERE id = $1 FOR UPDATE"@,
                    SqlV::Int(q.master_id),
                ),
            ),
        ),
    }
}

/// After the lock: master and victims are read.
pub open spec fn lock_step(q: MergeRequest, r: RunV, ev: EventV) -> (RunV, ActionV) {
    if ev.rows.len() == 0 {
        fail_step(r, "master "@ + dec_int(q.master_id as int) + " 不存在"@)
    } else {
        let ids = seq![q.master_id] + q.victim_ids@;
        let columns = merge_columns(texts(q.survive_fields@));
        query_step(
            r,
            StageV::Load,
            match first_bad(seq![q.head_table@]) {
                Some(n) => Err(bad_name(n)),
                None => prepared(
                    columns,
                    StatementV {
                        sql: "SELECT "@ + join(columns, ", "@) + " FROM "@ + q.head_table@
                            + " WHERE id IN ("@ + join(slots(1, ids.len()), ", "@) + ")"@,
                        params: id_params(ids),
                    },
                ),
            },
        )
    }
}

/// After the read: the parties are checked, the rows merged, and the first victim marked.
pub open spec fn load_step(q: MergeRequest, r: RunV, ev: EventV) -> (RunV, ActionV) {
    match parties(rows_records(ev.rows), q.master_id, q.victim_ids@) {
        Err(e) => fail_step(r, e),
        Ok((m, vs)) => mark_step(
            q,
            RunV {
                victims: Seq::new(vs.len(), |i: int| vs[i].id),
                merged: merged(
                    m.fields,
                    vs,
                    texts(q.survive_fields@),
                    rules_view(q.rules@),
                ),
                version: version_of(m.fields),
                ..r
            },
            0,
        ),
    }
}

/// Moves a record from one state to another.
pub open spec fn lifecycle_statement(
    table: Seq<char>,
    id: i64,
    expected: Seq<char>,
    next: Seq<char>,
) -> StatementV {
    StatementV {
        sql: "UPDATE "@ + table
            + " SET lifecycle_status = $1, published_version = published_version + 1, update_time = now() WHERE id = $2 AND lifecycle_status = $3"@,
        params: seq![SqlV::Text(next), SqlV::Int(id), SqlV::Text(expected)],
    }
}

/// The next victim is marked as merged; after the last one the master is written.
pub open spec fn mark_step(q: MergeRequest, r: RunV, v: int) -> (RunV, ActionV) {
    if v < r.victims.len() {
        change_step(
            r,
            StageV::Mark(v as usize),
            prepared(
                seq![q.head_table@],
                lifecycle_statement(q.head_table@, r.victims[v], "published"@, "merged"@),
            ),
        )
    } else {
        let m = overridden(r.merged, q.overrides@);
        change_step(
            RunV { merged: m, ..r },
            StageV::Header,
            prepared(
                seq![q.head_table@],
                update_statement(
                    q.head_table@,
                    q.master_id,
                    merge_update(m.row, texts(q.survive_fields@), r.version),
                    r.version,
                ),
            ),
        )
    }
}

/// The columns of a query for detail rows with their keys.
pub open spec fn keys_statement(t: LineTableInfo, parent_id: i64) -> StatementV {
    StatementV {
        sql: "SELECT "@ + join(seq!["id"@] + texts(t.dedup_keys@), ", "@) + " FROM "@ + t.table@
            + " WHERE "@ + t.parent_field@
            + " = $1 AND lifecycle_status = 'published' ORDER BY id"@,
        params: seq![SqlV::Int(parent_id)],
    }
}

/// A query for detail rows with their keys.
pub open spec fn keys_prepared(t: LineTableInfo, parent_id: i64) -> Prepared {
    match first_bad(seq![t.table@, t.parent_field@]) {
        Some(n) => Err(bad_name(n)),
        None => prepared(texts(t.dedup_keys@), keys_statement(t, parent_id)),
    }
}

/// The next detail table of a victim; after the last one its cross references are retired.
pub open spec fn line_step(q: MergeRequest, r: RunV, v: usize, t: int) -> (RunV, ActionV) {
    if t < q.line_tables@.len() {
        let lt = q.line_tables@[t];
        if lt.dedup_keys@.len() == 0 {
            query_step(
                r,
                StageV::LineIds(v, t as usize),
                prepared(
                    seq![lt.table@, lt.parent_field@],
                    StatementV {
                        sql: "SELECT id FROM "@ + lt.table@ + " WHERE "@ + lt.parent_field@
                            + " = $1 ORDER BY id"@,
                        params: seq![SqlV::Int(r.victims[v as int])],
                    },
                ),
            )
        } else {
            query_step(
                r,
                StageV::VictimKeys(v, t as usize),
                keys_prepared(lt, r.victims[v as int]),
            )
        }
    } else {
        (
            RunV { stage: StageV::Xref(v), ..r },
            ActionV::Execute(
                StatementV {
                    sql: "UPDATE md_xref SET xref_status = $1 WHERE dict_code = $2 AND record_id = $3"@,
                    params: seq![
                        SqlV::Text("inactive"@),
                        SqlV::Text(q.dict_code@),
                        SqlV::Int(r.victims[v as int]),
                    ],
                },
            ),
        )
    }
}

/// The integers under `id` of the rows that have one.
pub open spec fn row_ids(rows: Seq<JsonV>) -> Seq<i64>
    decreases rows.len(),
{
    if rows.len() == 0 {
        Seq::empty()
    } else {
        let ids = row_ids(rows.drop_last());
        match crate::json::json_i64(json_get(rows.last(), "id"@)) {
            Some(i) => ids.push(i),
            None => ids,
        }
    }
}

/// The key values of a row: its columns `keys`, null where one is missing.
pub open spec fn row_key(row: JsonV, keys: Seq<Seq<char>>) -> Seq<JsonV> {
    Seq::new(
        keys.len(),
        |i: int|
            match json_get(row, keys[i]) {
                Some(v) => v,
                None => JsonV::Null,
            },
    )
}

/// The detail lines of the rows that have an id.
pub open spec fn row_lines(rows: Seq<JsonV>, keys: Seq<Seq<char>>) -> Seq<LineKeyV>
    decreases rows.len(),
{
    if rows.len() == 0 {
        Seq::empty()
    } else {
        let ls = row_lines(rows.drop_last(), keys);
        match crate::json::json_i64(json_get(rows.last(), "id"@)) {
            Some(i) => ls.push(LineKeyV { id: i, values: row_key(rows.last(), keys) }),
            None => ls,
        }
    }
}

/// After the ids of all lines of a victim were read: all of them move.
pub open spec fn line_ids_step(q: MergeRequest, r: RunV, v: usize, t: usize, ev: EventV) -> (
    RunV,
    ActionV,
) {
    let lt = q.line_tables@[t as int];
    change_step(
        r,
        StageV::MoveAll(v, t, row_ids(ev.rows)),
        prepared(
            seq![lt.table@, lt.parent_field@],
            StatementV {
                sql: "UPDATE "@ + lt.table@ + " SET "@ + lt.parent_field@
                    + " = $1, update_time = now() WHERE "@ + lt.parent_field@ + " = $2"@,
                params: seq![SqlV::Int(q.master_id), SqlV::Int(r.victims[v as int])],
            },
        ),
    )
}

/// After the lines of the victim and the master were read: what moves moves first.
pub open spec fn move_step(
    q: MergeRequest,
    r: RunV,
    v: usize,
    t: usize,
    moved: Seq<i64>,
    dups: Seq<i64>,
) -> (RunV, ActionV) {
    let lt = q.line_tables@[t as int];
    if moved.len() > 0 {
        change_step(
            r,
            StageV::Move(v, t, moved, dups),
            prepared(
                seq![lt.table@, lt.parent_field@],
                StatementV {
                    sql: "UPDATE "@ + lt.table@ + " SET "@ + lt.parent_field@
                        + " = $1, update_time = now() WHERE id IN ("@ + join(
                        slots(2, moved.len()),
                        ", "@,
                    ) + ")"@,
                    params: seq![SqlV::Int(q.master_id)] + id_params(moved),
                },
            ),
        )
    } else {
        retire_step(q, r, v, t, moved, dups)
    }
}

/// Then what repeats a line of the master is retired.
pub open spec fn retire_step(
    q: MergeRequest,
    r: RunV,
    v: usize,
    t: usize,
    moved: Seq<i64>,
    dups: Seq<i64>,
) -> (RunV, ActionV) {
    let lt = q.line_tables@[t as int];
    if dups.len() > 0 {
        change_step(
            r,
            StageV::Retire(v, t, moved, dups),
            prepared(
                seq![lt.table@],
                StatementV {
                    sql: "UPDATE "@ + lt.table@
                        + " SET lifecycle_status = $1, published_version = published_version + 1, update_time = now() WHERE lifecycle_status = $2 AND id IN ("@
                        + join(slots(3, dups.len()), ", "@) + ")"@,
                    params: seq![SqlV::Text("merged"@), SqlV::Text("published"@)] + id_params(
                        dups,
                    ),
                },
            ),
        )
    } else {
        lines_done_step(q, r, v, t, moved, dups)
    }
}

/// What became of the lines of a victim in a table.
pub open spec fn note_of(
    q: MergeRequest,
    r: RunV,
    v: usize,
    t: usize,
    moved: Seq<i64>,
    retired: Option<Seq<i64>>,
) -> NoteV {
    NoteV {
        victim: r.victims[v as int],
        key: line_key(q.line_tables@, q.line_tables@[t as int]),
        moved,
        retired,
    }
}

/// The lines of a table are dealt with and noted.
pub open spec fn lines_done_step(
    q: MergeRequest,
    r: RunV,
    v: usize,
    t: usize,
    moved: Seq<i64>,
    dups: Seq<i64>,
) -> (RunV, ActionV) {
    line_step(
        q,
        RunV { notes: r.notes.push(note_of(q, r, v, t, moved, Some(dups))), ..r },
        v,
        t + 1,
    )
}

/// After the master was written: the audit line.
pub open spec fn header_step(q: MergeRequest, r: RunV, ev: EventV) -> (RunV, ActionV) {
    if ev.affected == 0 {
        fail_step(r, "master "@ + dec_int(q.master_id as int) + " 版本冲突"@)
    } else {
        (
            RunV { stage: StageV::Audit, ..r },
            ActionV::Execute(
                StatementV {
                    sql: "INSERT INTO md_audit (id, dict_code, record_id, version, action, source_cr_id, field, old_value, new_value, operated_by, operated_at) VALUES ($1,$2,$3,$4,$5,$6,$7,$8,$9,$10,now())"@,
                    params: seq![
                        SqlV::Int(q.audit_id),
                        SqlV::Text(q.dict_code@),
                        SqlV::Int(q.master_id),
                        SqlV::Int((r.version + 1) as i64),
                        SqlV::Text("merge"@),
                        SqlV::NullTyped(SqlType::Int),
                        SqlV::Null,
                        SqlV::NullTyped(SqlType::Json),
                        SqlV::NullTyped(SqlType::Json),
                        SqlV::Int(q.operated_by),
                    ],
                },
            ),
        )
    }
}

/// One log entry in the event of a merge.
pub open spec fn event_entry(l: LogV) -> JsonV {
    JsonV::Obj(
        obj_put(
            obj_put(Seq::empty(), "field"@, JsonV::Str(l.field)),
            "from"@,
            JsonV::Str(l.from),
        ),
    )
}

/// The payload of the event of a merge.
pub open spec fn event_payload(q: MergeRequest, r: RunV, snapshot: JsonV) -> JsonV {
    let o1 = obj_put(
        Seq::empty(),
        "match_group_id"@,
        JsonV::Num(number_of(q.match_group_id)),
    );
    let o2 = obj_put(o1, "master_id"@, JsonV::Num(number_of(q.master_id)));
    let o3 = obj_put(o2, "victim_ids"@, ids_json(q.victim_ids@));
    let o4 = obj_put(o3, "version"@, JsonV::Num(number_of((r.version + 1) as i64)));
    let o5 = obj_put(
        o4,
        "survivorship"@,
        JsonV::Arr(Seq::new(r.merged.log.len(), |i: int| event_entry(r.merged.log[i]))),
    );
    JsonV::Obj(obj_put(o5, "snapshot"@, snapshot))
}

/// After the master was read back: the event.
pub open spec fn snapshot_step(q: MergeRequest, r: RunV, ev: EventV) -> (RunV, ActionV) {
    let snapshot = if ev.rows.len() > 0 {
        ev.rows[0]
    } else {
        JsonV::Null
    };
    (
        RunV { stage: StageV::Event, ..r },
        ActionV::Execute(
            StatementV {
                sql: "INSERT INTO md_event_log (id, dict_code, record_id, event_type, payload, emitted_at) VALUES ($1,$2,$3,$4,$5,now())"@,
                params: seq![
                    SqlV::Text(q.event_id@),
                    SqlV::Text(q.dict_code@),
                    SqlV::Int(q.master_id),
                    SqlV::Text("merged"@),
                    SqlV::Json(crate::outside::json_text(event_payload(q, r, snapshot))),
                ],
            },
        ),
    )
}

/// One log entry in the record of a merge.
pub open spec fn log_entry_json(l: LogV) -> JsonV {
    JsonV::Obj(
        obj_put(
            obj_put(
                obj_put(Seq::empty(), "field"@, JsonV::Str(l.field)),
                "from"@,
                JsonV::Str(l.from),
            ),
            "value"@,
            l.value,
        ),
    )
}

/// The record of a merge.
pub open spec fn merge_record(r: RunV) -> JsonV {
    record_value(
        JsonV::Arr(Seq::new(r.merged.log.len(), |i: int| log_entry_json(r.merged.log[i]))),
        r.notes,
        r.victims,
    )
}

/// The merge request is closed with the record of the merge.
pub open spec fn archive_step(q: MergeRequest, r: RunV) -> (RunV, ActionV) {
    (
        RunV { stage: StageV::Archive, ..r },
        ActionV::Execute(
            StatementV {
                sql: "UPDATE md_merge_record SET status = $1, survivorship_log = $2, master_id = $3 WHERE id = $4"@,
                params: seq![
                    SqlV::Text("reviewed"@),
                    SqlV::Json(crate::outside::json_text(merge_record(r))),
                    SqlV::Int(q.master_id),
                    SqlV::Int(q.match_group_id),
                ],
            },
        ),
    )
}

/// After the merge request was read: one that was rejected may not be merged.
pub open spec fn group_step(q: MergeRequest, r: RunV, ev: EventV) -> (RunV, ActionV) {
    if ev.rows.len() > 0 && json_str(json_get(ev.rows[0], "status"@)) == Some("rejected"@) {
        fail_step(r, "group "@ + dec_int(q.match_group_id as int) + " 已被驳回，不可合并"@)
    } else {
        archive_step(q, r)
    }
}

/// The step of a merge: from where it stands and what came back to where it stands then and what
/// it does.
pub open spec fn merge_step(q: MergeRequest, r: RunV, ev: EventV) -> (RunV, ActionV) {
    match r.stage {
        StageV::Start => start_step(q, r),
        StageV::Lock => lock_step(q, r, ev),
        StageV::Load => load_step(q, r, ev),
        StageV::Mark(v) => if ev.affected == 0 {
            fail_step(
                r,
                "victim "@ + dec_int(r.victims[v as int] as int)
                    + " 状态冲突（双 merge 拦截）"@,
            )
        } else {
            line_step(q, r, v, 0)
        },
        StageV::LineIds(v, t) => line_ids_step(q, r, v, t, ev),
        StageV::MoveAll(v, t, ids) => line_step(
            q,
            RunV { notes: r.notes.push(note_of(q, r, v, t, ids, None)), ..r },
            v,
            t + 1,
        ),
        StageV::VictimKeys(v, t) => query_step(
            r,
            StageV::MasterKeys(
                v,
                t,
                row_lines(ev.rows, texts(q.line_tables@[t as int].dedup_keys@)),
            ),
            keys_prepared(q.line_tables@[t as int], q.master_id),
        ),
        StageV::MasterKeys(v, t, victim) => {
            let master = row_lines(ev.rows, texts(q.line_tables@[t as int].dedup_keys@));
            move_step(
                q,
                r,
                v,
                t,
                lines_with(victim, master, false),
                lines_with(victim, master, true),
            )
        },
        StageV::Move(v, t, moved, dups) => retire_step(q, r, v, t, moved, dups),
        StageV::Retire(v, t, moved, dups) => lines_done_step(q, r, v, t, moved, dups),
        StageV::Xref(v) => mark_step(q, r, v + 1),
        StageV::Header => header_step(q, r, ev),
        StageV::Audit => (
            RunV { stage: StageV::Snapshot, ..r },
            ActionV::Query(
                on_table(
                    "SELECT * FROM "@,
                    q.head_table@,
                    " WHERE id = $1"@,
                    SqlV::Int(q.master_id),
                ),
            ),
        ),
        StageV::Snapshot => snapshot_step(q, r, ev),
        StageV::Event => (
            RunV { stage: StageV::Transition, ..r },
            ActionV::Execute(
                StatementV {
                    sql: "UPDATE md_merge_record SET status = $1 WHERE id = $2 AND status = $3"@,
                    params: seq![
                        SqlV::Text("reviewed"@),
                        SqlV::Int(q.match_group_id),
                        SqlV::Text("pending"@),
                    ],
                },
            ),
        ),
        StageV::Transition => if ev.affected == 0 {
            (
                RunV { stage: StageV::Group, ..r },
                ActionV::Query(
                    StatementV {
                        sql: "SELECT id, dict_code, group_key, member_ids, master_id, score, decision, status, survivorship_log FROM md_merge_record WHERE id = $1"@,
                        params: seq![SqlV::Int(q.match_group_id)],
                    },
                ),
            )
        } else {
            archive_step(q, r)
        },
        StageV::Group => group_step(q, r, ev),
        StageV::Archive => (
            RunV { stage: StageV::Over, ..r },
            ActionV::Done(
                MergeStats {
                    master_id: q.master_id,
                    reparented_total: counter(noted_total(r.notes, Fate::Moved)),
                    deduped_total: counter(noted_total(r.notes, Fate::Retired)),
                },
            ),
        ),
        StageV::Over => (r, ActionV::Fail(Seq::empty())),
    }
}

/// The view of a prepared statement.
pub open spec fn prepared_view(p: Result<Statement, String>) -> Prepared {
    match p {
        Ok(s) => Ok(s@),
        Err(e) => Err(e@),
    }
}

/// Rows that a run can take: not too many, and of no version beyond which there is none.
pub open spec fn event_fits(ev: EventV) -> bool {
    &&& ev.rows.len() + 3 <= usize::MAX
    &&& forall|i: int|
        0 <= i < ev.rows.len() ==> version_of((#[trigger] record_of_row(ev.rows[i])).fields)
            < i64::MAX
}

/// The integers under `id` of the rows that have one.
pub fn integers_under_id(rows: &Vec<Json>) -> (r: Vec<i64>)
    ensures
        r@ == row_ids(values_view(rows@)),
{
    let ghost all = values_view(rows@);
    let mut ids: Vec<i64> = Vec::new();
    let mut i: usize = 0;
    assert(all.take(0) =~= Seq::<JsonV>::empty());
    while i < rows.len()
        invariant
            i <= rows@.len(),
            all == values_view(rows@),
            ids@ == row_ids(all.take(i as int)),
        decreases rows@.len() - i,
    {
        assert(all.take(i + 1).drop_last() =~= all.take(i as int));
        assert(all.take(i + 1).last() == rows@[i as int]@);
        if let Some(v) = rows[i].get("id") {
            if let Some(n) = v.as_i64() {
                ids.push(n);
            }
        }
        i += 1;
    }
    assert(all.take(all.len() as int) =~= all);
    ids
}

fn key_of_row(row: &Json, keys: &Vec<String>) -> (r: Vec<Json>)
    ensures
        values_view(r@) == row_key(row@, texts(keys@)),
{
    let mut out: Vec<Json> = Vec::new();
    let mut i: usize = 0;
    while i < keys.len()
        invariant
            i <= keys@.len(),
            out@.len() == i,
            forall|j: int|
                0 <= j < i ==> (#[trigger] out@[j])@ == row_key(row@, texts(keys@))[j],
        decreases keys@.len() - i,
    {
        out.push(
            match row.get(keys[i].as_str()) {
                Some(v) => v.clone(),
                None => Json::Null,
            },
        );
        i += 1;
    }
    assert(values_view(out@) =~= row_key(row@, texts(keys@)));
    out
}

fn lines_of_rows(rows: &Vec<Json>, keys: &Vec<String>) -> (r: Vec<LineKey>)
    ensures
        lines_view(r@) == row_lines(values_view(rows@), texts(keys@)),
{
    let ghost all = values_view(rows@);
    let ghost kv = texts(keys@);
    let mut out: Vec<LineKey> = Vec::new();
    let mut i: usize = 0;
    assert(all.take(0) =~= Seq::<JsonV>::empty());
    assert(lines_view(out@) =~= Seq::<LineKeyV>::empty());
    while i < rows.len()
        invariant
            i <= rows@.len(),
            all == values_view(rows@),
            kv == texts(keys@),
            lines_view(out@) == row_lines(all.take(i as int), kv),
        decreases rows@.len() - i,
    {
        let ghost before = out@;
        assert(all.take(i + 1).drop_last() =~= all.take(i as int));
        assert(all.take(i + 1).last() == rows@[i as int]@);
        if let Some(v) = rows[i].get("id") {
            if let Some(n) = v.as_i64() {
                let k = LineKey { id: n, values: key_of_row(&rows[i], keys) };
                let ghost kk = k@;
                out.push(k);
                assert(lines_view(out@) =~= lines_view(before).push(kk));
            }
        }
        i += 1;
    }
    assert(all.take(all.len() as int) =~= all);
    out
}

proof fn lemma_row_lines_len(rows: Seq<JsonV>, keys: Seq<Seq<char>>)
    ensures
        row_lines(rows, keys).len() <= rows.len(),
    decreases rows.len(),
{
    if rows.len() > 0 {
        lemma_row_lines_len(rows.drop_last(), keys);
    }
}

proof fn lemma_lines_with_len(victim: Seq<LineKeyV>, master: Seq<LineKeyV>, dup: bool)
    ensures
        lines_with(victim, master, dup).len() <= victim.len(),
    decreases victim.len(),
{
    if victim.len() > 0 {
        lemma_lines_with_len(victim.drop_last(), master, dup);
    }
}

fn entry_in_event(l: &SurvivorLogEntry) -> (r: Json)
    ensures
        r@ == event_entry(l@),
{
    let mut o = Object::new();
    o.insert("field".to_owned(), Json::Str(l.field.clone()));
    o.insert("from".to_owned(), Json::Str(l.from.clone()));
    Json::Obj(o)
}

fn entry_in_record(l: &SurvivorLogEntry) -> (r: Json)
    ensures
        r@ == log_entry_json(l@),
{
    let mut o = Object::new();
    o.insert("field".to_owned(), Json::Str(l.field.clone()));
    o.insert("from".to_owned(), Json::Str(l.from.clone()));
    o.insert("value".to_owned(), l.value.clone());
    Json::Obj(o)
}

fn entries(log: &Vec<SurvivorLogEntry>, with_values: bool) -> (r: Json)
    ensures
        r@ == JsonV::Arr(
            Seq::new(
                log@.len(),
                |i: int|
                    if with_values {
                        log_entry_json(log_view(log@)[i])
                    } else {
                        event_entry(log_view(log@)[i])
                    },
            ),
        ),
{
    let ghost want = Seq::new(
        log@.len(),
        |i: int|
            if with_values {
                log_entry_json(log_view(log@)[i])
            } else {
                event_entry(log_view(log@)[i])
            },
    );
    let mut a: Vec<Json> = Vec::new();
    let mut i: usize = 0;
    while i < log.len()
        invariant
            i <= log@.len(),
            want == Seq::new(
                log@.len(),
                |i: int|
                    if with_values {
                        log_entry_json(log_view(log@)[i])
                    } else {
                        event_entry(log_view(log@)[i])
                    },
            ),
            a@.len() == i,
            forall|j: int| 0 <= j < i ==> (#[trigger] a@[j])@ == want[j],
        decreases log@.len() - i,
    {
        a.push(
            if with_values {
                entry_in_record(&log[i])
            } else {
                entry_in_event(&log[i])
            },
        );
        i += 1;
    }
    assert(values_view(a@) =~= want);
    array(a)
}

impl MergeRun {
    pub closed spec fn view(&self) -> RunV {
        RunV {
            stage: self.stage@,
            victims: self.victims@,
            merged: MergedV { row: self.row@, log: log_view(self.log@) },
            notes: notes_view(self.notes@),
            version: self.version,
        }
    }

    /// What the run was asked to do.
    pub closed spec fn request(&self) -> MergeRequest {
        self.req
    }

    /// The numbers of the stage are those of a victim and a table that exist, and no list is at
    /// the limit of the machine.
    pub closed spec fn sound(&self) -> bool {
        &&& self.req.fits()
        &&& self.version < i64::MAX
        &&& match self.stage {
            Stage::Mark(v) => v < self.victims@.len(),
            Stage::LineIds(v, t) => v < self.victims@.len() && t < self.req.line_tables@.len(),
            Stage::MoveAll(v, t, _) => v < self.victims@.len() && t
                < self.req.line_tables@.len(),
            Stage::VictimKeys(v, t) => v < self.victims@.len() && t
                < self.req.line_tables@.len(),
            Stage::MasterKeys(v, t, l) => v < self.victims@.len() && t
                < self.req.line_tables@.len() && l@.len() + 3 <= usize::MAX,
            Stage::Move(v, t, a, b) => v < self.victims@.len() && t
                < self.req.line_tables@.len() && a@.len() + 3 <= usize::MAX && b@.len() + 3
                <= usize::MAX,
            Stage::Retire(v, t, a, b) => v < self.victims@.len() && t
                < self.req.line_tables@.len(),
            Stage::Xref(v) => v < self.victims@.len(),
            _ => true,
        }
    }

    /// A merge that has not begun.
    pub fn new(req: MergeRequest) -> (r: MergeRun)
        requires
            req.fits(),
        ensures
            r.sound(),
            r.request() == req,
            r@ == (RunV {
                stage: StageV::Start,
                victims: Seq::empty(),
                merged: MergedV { row: Seq::empty(), log: Seq::empty() },
                notes: Seq::empty(),
                version: 1,
            }),
    {
        let r = MergeRun {
            req,
            stage: Stage::Start,
            victims: Vec::new(),
            row: Object::new(),
            log: Vec::new(),
            notes: Vec::new(),
            version: 1,
        };
        assert(log_view(r.log@) =~= Seq::<LogV>::empty());
        assert(notes_view(r.notes@) =~= Seq::<NoteV>::empty());
        r
    }

    fn fail(&mut self, e: String) -> (a: StepAction)
        requires
            old(self).req.fits(),
            old(self).version < i64::MAX,
        ensures
            final(self).sound(),
            final(self).req == old(self).req,
            (final(self)@, a@) == fail_step(old(self)@, e@),
    {
        self.stage = Stage::Over;
        StepAction::Fail(e)
    }

    fn ask(&mut self, stage: Stage, p: Result<Statement, String>) -> (a: StepAction)
        requires
            (MergeRun { stage, ..*old(self) }).sound(),
        ensures
            final(self).sound(),
            final(self).req == old(self).req,
            (final(self)@, a@) == query_step(old(self)@, stage@, prepared_view(p)),
    {
        match p {
            Ok(s) => {
                self.stage = stage;
                StepAction::Query(s)
            },
            Err(e) => self.fail(e),
        }
    }

    fn change(&mut self, stage: Stage, p: Result<Statement, String>) -> (a: StepAction)
        requires
            (MergeRun { stage, ..*old(self) }).sound(),
        ensures
            final(self).sound(),
            final(self).req == old(self).req,
            (final(self)@, a@) == change_step(old(self)@, stage@, prepared_view(p)),
    {
        match p {
            Ok(s) => {
                self.stage = stage;
                StepAction::Execute(s)
            },
            Err(e) => self.fail(e),
        }
    }

    fn start(&mut self) -> (a: StepAction)
        requires
            old(self).req.fits(),
            old(self).version < i64::MAX,
        ensures
            final(self).sound(),
            final(self).req == old(self).req,
            (final(self)@, a@) == start_step(old(self).req, old(self)@),
    {
        if let Err(e) = check_overrides(&self.req.overrides, &self.req.survive_fields) {
            return self.fail(e);
        }
        let p = lock_record(self.req.head_table.as_str(), self.req.master_id);
        self.ask(Stage::Lock, p)
    }

    fn locked(&mut self, ev: &StepEvent) -> (a: StepAction)
        requires
            old(self).req.fits(),
            old(self).version < i64::MAX,
        ensures
            final(self).sound(),
            final(self).req == old(self).req,
            (final(self)@, a@) == lock_step(old(self).req, old(self)@, ev@),
    {
        if ev.rows.len() == 0 {
            let e = about_id("master ", self.req.master_id, " 不存在");
            return self.fail(e);
        }
        let ghost q = self.req;
        let ghost columns = merge_columns(texts(q.survive_fields@));
        let ghost ids_v = seq![q.master_id] + q.victim_ids@;
        let mut cols: Vec<&str> = Vec::new();
        cols.push("id");
        cols.push("lifecycle_status");
        cols.push("published_version");
        cols.push("update_time");
        let mut more = borrowed(&self.req.survive_fields);
        let ghost more_v = more@;
        let ghost four = cols@;
        cols.append(&mut more);
        proof {
            assert(cols@ =~= four + more_v);
            assert(keys_view(cols@) =~= columns) by {
                assert forall|i: int| 0 <= i < cols@.len() implies keys_view(cols@)[i]
                    == columns[i] by {
                    if i >= 4 {
                        assert(keys_view(more_v)[i - 4] == more_v[i - 4]@);
                    }
                }
            }
        }
        let mut ids: Vec<i64> = Vec::new();
        ids.push(self.req.master_id);
        let mut i: usize = 0;
        while i < self.req.victim_ids.len()
            invariant
                i <= self.req.victim_ids@.len(),
                self.req == q,
                ids@ == seq![q.master_id] + q.victim_ids@.take(i as int),
            decreases self.req.victim_ids@.len() - i,
        {
            ids.push(self.req.victim_ids[i]);
            assert(q.victim_ids@.take(i + 1) =~= q.victim_ids@.take(i as int).push(
                q.victim_ids@[i as int],
            ));
            i += 1;
        }
        assert(ids@ =~= ids_v);
        let p: Result<Statement, String> = match load_by_ids(
            self.req.head_table.as_str(),
            cols.as_slice(),
            ids.as_slice(),
        ) {
            Ok(Some(s)) => Ok(s),
            Ok(None) => {
                assert(false);
                Err(String::new())
            },
            Err(e) => Err(e),
        };
        self.ask(Stage::Load, p)
    }

    fn mark(&mut self, v: usize) -> (a: StepAction)
        requires
            old(self).req.fits(),
            old(self).version < i64::MAX,
        ensures
            final(self).sound(),
            final(self).req == old(self).req,
            (final(self)@, a@) == mark_step(old(self).req, old(self)@, v as int),
    {
        let ghost start = self@;
        if v < self.victims.len() {
            let p = set_lifecycle(
                self.req.head_table.as_str(),
                self.victims[v],
                "published",
                "merged",
            );
            assert(prepared_view(p) == prepared(
                seq![self.req.head_table@],
                lifecycle_statement(
                    self.req.head_table@,
                    self.victims@[v as int],
                    "published"@,
                    "merged"@,
                ),
            )) by {
                if let Ok(s) = p {
                    assert(s@ =~= lifecycle_statement(
                        self.req.head_table@,
                        self.victims@[v as int],
                        "published"@,
                        "merged"@,
                    ));
                }
            }
            self.change(Stage::Mark(v), p)
        } else {
            apply_overrides(&mut self.row, &mut self.log, &self.req.overrides);
            let u = master_update(&self.row, &self.req.survive_fields, self.version);
            proof {
                lemma_merge_update_len(self.row@, texts(self.req.survive_fields@), self.version);
                assert(self@ =~= (RunV {
                    merged: overridden(start.merged, self.req.overrides@),
                    ..start
                }));
            }
            let p = update_header(
                self.req.head_table.as_str(),
                self.req.master_id,
                &u,
                self.version,
            );
            self.change(Stage::Header, p)
        }
    }

    fn loaded(&mut self, ev: &StepEvent) -> (a: StepAction)
        requires
            old(self).req.fits(),
            old(self).version < i64::MAX,
            event_fits(ev@),
        ensures
            final(self).sound(),
            final(self).req == old(self).req,
            (final(self)@, a@) == load_step(old(self).req, old(self)@, ev@),
    {
        let ghost start = self@;
        let rs = read_records(&ev.rows);
        match select_parties(&rs, self.req.master_id, &self.req.victim_ids) {
            Err(e) => self.fail(e),
            Ok((master, victims)) => {
                let (row, log) = merge_rows(
                    &master,
                    &victims,
                    &self.req.survive_fields,
                    &self.req.rules,
                );
                let mut ids: Vec<i64> = Vec::new();
                let mut i: usize = 0;
                while i < victims.len()
                    invariant
                        i <= victims@.len(),
                        ids@.len() == i,
                        forall|j: int| 0 <= j < i ==> #[trigger] ids@[j] == victims@[j].id,
                    decreases victims@.len() - i,
                {
                    ids.push(victims[i].id);
                    i += 1;
                }
                proof {
                    lemma_first_with_id(records_view(rs@), self.req.master_id);
                    let m = choose|m: int|
                        0 <= m < rs@.len() && records_view(rs@)[m] == master@;
                    assert(record_of_row(ev@.rows[m]) == master@);
                }
                self.version = record_version(&master.fields);
                self.row = row;
                self.log = log;
                self.victims = ids;
                proof {
                    let vs = records_view(victims@);
                    assert(self.victims@ =~= Seq::new(vs.len(), |i: int| vs[i].id));
                    assert(self@ =~= (RunV {
                        victims: Seq::new(vs.len(), |i: int| vs[i].id),
                        merged: merged(
                            master.fields@,
                            vs,
                            texts(self.req.survive_fields@),
                            rules_view(self.req.rules@),
                        ),
                        version: version_of(master.fields@),
                        ..start
                    }));
                }
                self.mark(0)
            },
        }
    }

    fn next_table(&mut self, v: usize, t: usize) -> (a: StepAction)
        requires
            old(self).req.fits(),
            old(self).version < i64::MAX,
            v < old(self).victims@.len(),
        ensures
            final(self).sound(),
            final(self).req == old(self).req,
            (final(self)@, a@) == line_step(old(self).req, old(self)@, v, t as int),
    {
        if t < self.req.line_tables.len() {
            let lt = &self.req.line_tables[t];
            if lt.dedup_keys.len() == 0 {
                let p = select_line_ids(
                    lt.table.as_str(),
                    lt.parent_field.as_str(),
                    self.victims[v],
                );
                assert(prepared_view(p) == prepared(
                    seq![lt.table@, lt.parent_field@],
                    StatementV {
                        sql: "SELECT id FROM "@ + lt.table@ + " WHERE "@ + lt.parent_field@
                            + " = $1 ORDER BY id"@,
                        params: seq![SqlV::Int(self.victims@[v as int])],
                    },
                ));
                self.ask(Stage::LineIds(v, t), p)
            } else {
                let keys = borrowed(&lt.dedup_keys);
                let p = select_line_keys(
                    lt.table.as_str(),
                    lt.parent_field.as_str(),
                    self.victims[v],
                    keys.as_slice(),
                );
                assert(prepared_view(p) == keys_prepared(*lt, self.victims@[v as int]));
                self.ask(Stage::VictimKeys(v, t), p)
            }
        } else {
            let s = deactivate_xref(self.req.dict_code.as_str(), self.victims[v]);
            self.stage = Stage::Xref(v);
            StepAction::Execute(s)
        }
    }

    fn note(&mut self, v: usize, t: usize, moved: Vec<i64>, retired: Option<Vec<i64>>)
        requires
            v < old(self).victims@.len(),
            t < old(self).req.line_tables@.len(),
        ensures
            *final(self) == (MergeRun { notes: final(self).notes, ..*old(self) }),
            final(self)@ == (RunV {
                notes: old(self)@.notes.push(
                    note_of(
                        old(self).req,
                        old(self)@,
                        v,
                        t,
                        moved@,
                        match retired {
                            Some(x) => Some(x@),
                            None => None,
                        },
                    ),
                ),
                ..old(self)@
            }),
    {
        let ghost before = self.notes@;
        let n = LineNote {
            victim: self.victims[v],
            key: key_of_lines(&self.req.line_tables, &self.req.line_tables[t]),
            moved,
            retired,
        };
        let ghost nv = n@;
        self.notes.push(n);
        assert(notes_view(self.notes@) =~= notes_view(before).push(nv));
    }

    fn lines_done(&mut self, v: usize, t: usize, moved: Vec<i64>, dups: Vec<i64>) -> (a: StepAction)
        requires
            old(self).req.fits(),
            old(self).version < i64::MAX,
            v < old(self).victims@.len(),
            t < old(self).req.line_tables@.len(),
        ensures
            final(self).sound(),
            final(self).req == old(self).req,
            (final(self)@, a@) == lines_done_step(
                old(self).req,
                old(self)@,
                v,
                t,
                moved@,
                dups@,
            ),
    {
        self.note(v, t, moved, Some(dups));
        let tables: usize = self.req.line_tables.len();
        assert(t < tables);
        self.next_table(v, t + 1)
    }

    fn retire(&mut self, v: usize, t: usize, moved: Vec<i64>, dups: Vec<i64>) -> (a: StepAction)
        requires
            old(self).req.fits(),
            old(self).version < i64::MAX,
            v < old(self).victims@.len(),
            t < old(self).req.line_tables@.len(),
            dups@.len() + 3 <= usize::MAX,
        ensures
            final(self).sound(),
            final(self).req == old(self).req,
            (final(self)@, a@) == retire_step(old(self).req, old(self)@, v, t, moved@, dups@),
    {
        if dups.len() > 0 {
            let p: Result<Statement, String> = match set_lifecycle_by_ids(
                self.req.line_tables[t].table.as_str(),
                dups.as_slice(),
                "published",
                "merged",
            ) {
                Ok(Some(s)) => Ok(s),
                Ok(None) => {
                    assert(false);
                    Err(String::new())
                },
                Err(e) => Err(e),
            };
            self.change(Stage::Retire(v, t, moved, dups), p)
        } else {
            self.lines_done(v, t, moved, dups)
        }
    }

    fn move_lines(&mut self, v: usize, t: usize, moved: Vec<i64>, dups: Vec<i64>) -> (a: StepAction)
        requires
            old(self).req.fits(),
            old(self).version < i64::MAX,
            v < old(self).victims@.len(),
            t < old(self).req.line_tables@.len(),
            moved@.len() + 3 <= usize::MAX,
            dups@.len() + 3 <= usize::MAX,
        ensures
            final(self).sound(),
            final(self).req == old(self).req,
            (final(self)@, a@) == move_step(old(self).req, old(self)@, v, t, moved@, dups@),
    {
        if moved.len() > 0 {
            let p: Result<Statement, String> = match reparent_lines_by_ids(
                self.req.line_tables[t].table.as_str(),
                self.req.line_tables[t].parent_field.as_str(),
                moved.as_slice(),
                self.req.master_id,
            ) {
                Ok(Some(s)) => Ok(s),
                Ok(None) => {
                    assert(false);
                    Err(String::new())
                },
                Err(e) => Err(e),
            };
            self.change(Stage::Move(v, t, moved, dups), p)
        } else {
            self.retire(v, t, moved, dups)
        }
    }

    fn written(&mut self, ev: &StepEvent) -> (a: StepAction)
        requires
            old(self).req.fits(),
            old(self).version < i64::MAX,
        ensures
            final(self).sound(),
            final(self).req == old(self).req,
            (final(self)@, a@) == header_step(old(self).req, old(self)@, ev@),
    {
        let ghost start = *self;
        if ev.affected == 0 {
            let e = about_id("master ", self.req.master_id, " 版本冲突");
            return self.fail(e);
        }
        let s = write_audit(
            &AuditEntry {
                id: self.req.audit_id,
                dict_code: self.req.dict_code.as_str(),
                record_id: self.req.master_id,
                version: self.version + 1,
                action: "merge",
                source_cr_id: None,
                field: None,
                old_value: None,
                new_value: None,
                operated_by: self.req.operated_by,
            },
        );
        assert(s@.params =~= header_step(start.req, start@, ev@).1->Execute_0.params);
        self.stage = Stage::Audit;
        StepAction::Execute(s)
    }

    fn snapshot(&mut self, ev: &StepEvent) -> (a: StepAction)
        requires
            old(self).req.fits(),
            old(self).version < i64::MAX,
        ensures
            final(self).sound(),
            final(self).req == old(self).req,
            (final(self)@, a@) == snapshot_step(old(self).req, old(self)@, ev@),
    {
        let ghost start = self@;
        let snapshot: Json = if ev.rows.len() > 0 {
            ev.rows[0].clone()
        } else {
            Json::Null
        };
        let ghost sv = snapshot@;
        let survivorship = entries(&self.log, false);
        assert(survivorship@ == JsonV::Arr(
            Seq::new(start.merged.log.len(), |i: int| event_entry(start.merged.log[i])),
        )) by {
            assert(survivorship@->Arr_0 =~= Seq::new(
                start.merged.log.len(),
                |i: int| event_entry(start.merged.log[i]),
            ));
        }
        let mut o = Object::new();
        o.insert("match_group_id".to_owned(), Json::integer(self.req.match_group_id));
        o.insert("master_id".to_owned(), Json::integer(self.req.master_id));
        o.insert("victim_ids".to_owned(), ids_value(&self.req.victim_ids));
        o.insert("version".to_owned(), Json::integer(self.version + 1));
        o.insert("survivorship".to_owned(), survivorship);
        o.insert("snapshot".to_owned(), snapshot);
        let payload = Json::Obj(o);
        assert(payload@ == event_payload(self.req, start, sv));
        let s = write_event(
            self.req.event_id.as_str(),
            self.req.dict_code.as_str(),
            self.req.master_id,
            "merged",
            &payload,
        );
        self.stage = Stage::Event;
        StepAction::Execute(s)
    }

    fn archive(&mut self) -> (a: StepAction)
        requires
            old(self).req.fits(),
            old(self).version < i64::MAX,
        ensures
            final(self).sound(),
            final(self).req == old(self).req,
            (final(self)@, a@) == archive_step(old(self).req, old(self)@),
    {
        let ghost start = self@;
        let fields = entries(&self.log, true);
        assert(fields@ == JsonV::Arr(
            Seq::new(start.merged.log.len(), |i: int| log_entry_json(start.merged.log[i])),
        )) by {
            assert(fields@->Arr_0 =~= Seq::new(
                start.merged.log.len(),
                |i: int| log_entry_json(start.merged.log[i]),
            ));
        }
        let record = write_record(fields, &self.notes, &self.victims);
        assert(record@ == merge_record(start));
        let s = update_match_group(
            self.req.match_group_id,
            "reviewed",
            Some(&record),
            Some(self.req.master_id),
        );
        self.stage = Stage::Archive;
        StepAction::Execute(s)
    }

    fn group_read(&mut self, ev: &StepEvent) -> (a: StepAction)
        requires
            old(self).req.fits(),
            old(self).version < i64::MAX,
        ensures
            final(self).sound(),
            final(self).req == old(self).req,
            (final(self)@, a@) == group_step(old(self).req, old(self)@, ev@),
    {
        if ev.rows.len() > 0 {
            if let Some(Json::Str(s)) = ev.rows[0].get("status") {
                if same_text(s.as_str(), "rejected") {
                    let e = about_id(
                        "group ",
                        self.req.match_group_id,
                        " 已被驳回，不可合并",
                    );
                    return self.fail(e);
                }
            }
        }
        self.archive()
    }

    /// Takes what the last statement gave back and says what to do next.
    pub fn step(&mut self, ev: &StepEvent) -> (a: StepAction)
        requires
            old(self).sound(),
            !(old(self)@.stage is Over),
            event_fits(ev@),
        ensures
            final(self).sound(),
            final(self).request() == old(self).request(),
            (final(self)@, a@) == merge_step(old(self).request(), old(self)@, ev@),
    {
        let ghost start = *self;
        let mut stage = Stage::Over;
        std::mem::swap(&mut stage, &mut self.stage);
        let ghost q = self.req;
        assert(self@ =~= (RunV { stage: StageV::Over, ..start@ }));
        match stage {
            Stage::Start => self.start(),
            Stage::Lock => self.locked(ev),
            Stage::Load => self.loaded(ev),
            Stage::Mark(v) => {
                if ev.affected == 0 {
                    let e = about_id(
                        "victim ",
                        self.victims[v],
                        " 状态冲突（双 merge 拦截）",
                    );
                    return self.fail(e);
                }
                self.next_table(v, 0)
            },
            Stage::LineIds(v, t) => {
                let ids = integers_under_id(&ev.rows);
                let lt = &self.req.line_tables[t];
                let p = reparent_lines(
                    lt.table.as_str(),
                    lt.parent_field.as_str(),
                    self.victims[v],
                    self.req.master_id,
                );
                self.change(Stage::MoveAll(v, t, ids), p)
            },
            Stage::MoveAll(v, t, ids) => {
                self.note(v, t, ids, None);
                let tables: usize = self.req.line_tables.len();
                assert(t < tables);
                self.next_table(v, t + 1)
            },
            Stage::VictimKeys(v, t) => {
                let lt = &self.req.line_tables[t];
                let lines = lines_of_rows(&ev.rows, &lt.dedup_keys);
                proof {
                    lemma_row_lines_len(ev@.rows, texts(lt.dedup_keys@));
                    assert(lines@.len() == lines_view(lines@).len());
                }
                let keys = borrowed(&lt.dedup_keys);
                let p = select_line_keys(
                    lt.table.as_str(),
                    lt.parent_field.as_str(),
                    self.req.master_id,
                    keys.as_slice(),
                );
                assert(prepared_view(p) == keys_prepared(*lt, q.master_id));
                self.ask(Stage::MasterKeys(v, t, lines), p)
            },
            Stage::MasterKeys(v, t, victim) => {
                let master = lines_of_rows(&ev.rows, &self.req.line_tables[t].dedup_keys);
                let (moved, dups) = split_lines(&victim, &master);
                proof {
                    lemma_lines_with_len(lines_view(victim@), lines_view(master@), false);
                    lemma_lines_with_len(lines_view(victim@), lines_view(master@), true);
                    assert(lines_view(victim@).len() == victim@.len());
                }
                self.move_lines(v, t, moved, dups)
            },
            Stage::Move(v, t, moved, dups) => self.retire(v, t, moved, dups),
            Stage::Retire(v, t, moved, dups) => self.lines_done(v, t, moved, dups),
            Stage::Xref(v) => {
                let victims: usize = self.victims.len();
                assert(v < victims);
                self.mark(v + 1)
            },
            Stage::Header => self.written(ev),
            Stage::Audit => {
                let s = select_row_json(self.req.head_table.as_str(), self.req.master_id);
                self.stage = Stage::Snapshot;
                StepAction::Query(s)
            },
            Stage::Snapshot => self.snapshot(ev),
            Stage::Event => {
                let s = transition_match_group(self.req.match_group_id, "pending", "reviewed");
                self.stage = Stage::Transition;
                StepAction::Execute(s)
            },
            Stage::Transition => if ev.affected == 0 {
                let s = get_match_group(self.req.match_group_id);
                self.stage = Stage::Group;
                StepAction::Query(s)
            } else {
                self.archive()
            },
            Stage::Group => self.group_read(ev),
            Stage::Archive => StepAction::Done(
                MergeStats {
                    master_id: self.req.master_id,
                    reparented_total: count_noted(&self.notes, Fate::Moved),
                    deduped_total: count_noted(&self.notes, Fate::Retired),
                },
            ),
            Stage::Over => {
                assert(false);
                self.fail(String::new())
            },
        }
    }
}

proof fn lemma_first_with_id(rs: Seq<RecordV>, id: i64)
    ensures
        crate::merge_parts::first_with_id(rs, id) matches Some(r) ==> exists|m: int|
            0 <= m < rs.len() && rs[m] == r,
    decreases rs.len(),
{
    if rs.len() > 0 && rs[0].id != id {
        let d = rs.drop_first();
        lemma_first_with_id(d, id);
        if let Some(r) = crate::merge_parts::first_with_id(d, id) {
            let m = choose|m: int| 0 <= m < d.len() && d[m] == r;
            assert(rs[m + 1] == r);
        }
    }
}

/// Where a merge stands before it begins.
pub open spec fn run_start() -> RunV {
    RunV {
        stage: StageV::Start,
        victims: Seq::empty(),
        merged: MergedV { row: Seq::empty(), log: Seq::empty() },
        notes: Seq::empty(),
        version: 1,
    }
}

/// Where a merge stands after a series of events.
#[verifier::opaque]
pub open spec fn run_after(q: MergeRequest, evs: Seq<EventV>) -> RunV
    decreases evs.len(),
{
    if evs.len() == 0 {
        run_start()
    } else {
        merge_step(q, run_after(q, evs.drop_last()), evs.last()).0
    }
}

/// The victim that a stage is about.
pub open spec fn stage_victim(s: StageV) -> Option<usize> {
    match s {
        StageV::Mark(v) => Some(v),
        StageV::LineIds(v, _) => Some(v),
        StageV::MoveAll(v, _, _) => Some(v),
        StageV::VictimKeys(v, _) => Some(v),
        StageV::MasterKeys(v, _, _) => Some(v),
        StageV::Move(v, _, _, _) => Some(v),
        StageV::Retire(v, _, _, _) => Some(v),
        StageV::Xref(v) => Some(v),
        _ => None,
    }
}

/// The stages after the master was written.
pub open spec fn after_header(s: StageV) -> bool {
    s is Audit || s is Snapshot || s is Event || s is Transition || s is Group || s is Archive
}

/// At event `i` victim `v` was moved from `published` to `merged`.
pub open spec fn marked_at(q: MergeRequest, evs: Seq<EventV>, i: int, v: int) -> bool {
    0 <= i < evs.len() && run_after(q, evs.take(i)).stage == StageV::Mark(v as usize)
        && evs[i].affected > 0
}

/// Victim `v` was moved from `published` to `merged`.
pub open spec fn marked(q: MergeRequest, evs: Seq<EventV>, v: int) -> bool {
    exists|i: int| marked_at(q, evs, i, v)
}

/// At event `i` the master was written, at the version that was read.
pub open spec fn written_at(q: MergeRequest, evs: Seq<EventV>, i: int) -> bool {
    0 <= i < evs.len() && run_after(q, evs.take(i)).stage is Header && evs[i].affected > 0
}

/// What holds of a run before its end.
pub open spec fn progress(q: MergeRequest, evs: Seq<EventV>) -> bool {
    let r = run_after(q, evs);
    &&& match stage_victim(r.stage) {
        Some(v) => {
            &&& v < r.victims.len()
            &&& forall|u: int| 0 <= u < v ==> marked(q, evs, u)
            &&& !(r.stage is Mark) ==> marked(q, evs, v as int)
        },
        None => true,
    }
    &&& (r.stage is Header || after_header(r.stage)) ==> forall|u: int|
        0 <= u < r.victims.len() ==> marked(q, evs, u)
    &&& after_header(r.stage) ==> exists|i: int| written_at(q, evs, i)
}

/// How a step changes what a run is about.
spec fn moves_on(r0: RunV, ev: EventV, r: RunV) -> bool {
    &&& !(r0.stage is Load) ==> r.victims == r0.victims
    &&& r.victims.len() <= r0.victims.len() || r.victims.len() <= ev.rows.len()
    &&& match stage_victim(r.stage) {
        Some(v) => {
            ||| r0.stage is Load && r.stage is Mark && v == 0 && 0 < r.victims.len()
            ||| r0.stage matches StageV::Xref(w) && r.stage is Mark && w + 1 < r.victims.len()
                && v == (w + 1) as usize
            ||| stage_victim(r0.stage) == Some(v) && !(r.stage is Mark) && !(r0.stage is Xref)
                && (r0.stage is Mark ==> ev.affected > 0)
        },
        None => true,
    }
    &&& r.stage is Header ==> {
        ||| r0.stage is Load && r.victims.len() == 0
        ||| r0.stage matches StageV::Xref(w) && w + 1 >= r.victims.len()
    }
    &&& after_header(r.stage) ==> after_header(r0.stage) || (r0.stage is Header && ev.affected
        > 0)
}

#[verifier::rlimit(40)]
#[verifier::spinoff_prover]
proof fn lemma_moves_on(q: MergeRequest, r0: RunV, ev: EventV)
    ensures
        moves_on(r0, ev, merge_step(q, r0, ev).0),
{
    let r = merge_step(q, r0, ev).0;
    match r0.stage {
        StageV::Load => {
            if let Ok((m, vs)) = parties(rows_records(ev.rows), q.master_id, q.victim_ids@) {
                lemma_with_ids_len(rows_records(ev.rows), q.victim_ids@);
            }
            assert(moves_on(r0, ev, r));
        },
        StageV::Mark(v) => {
            assert(moves_on(r0, ev, r));
        },
        StageV::LineIds(v, t) => {
            assert(moves_on(r0, ev, r));
        },
        StageV::MoveAll(v, t, ids) => {
            assert(moves_on(r0, ev, r));
        },
        StageV::VictimKeys(v, t) => {
            assert(moves_on(r0, ev, r));
        },
        StageV::MasterKeys(v, t, l) => {
            assert(moves_on(r0, ev, r));
        },
        StageV::Move(v, t, a, b) => {
            assert(moves_on(r0, ev, r));
        },
        StageV::Retire(v, t, a, b) => {
            assert(moves_on(r0, ev, r));
        },
        StageV::Xref(v) => {
            assert(moves_on(r0, ev, r));
        },
        _ => {
            assert(moves_on(r0, ev, r));
        },
    }
}

proof fn lemma_run_after(q: MergeRequest, evs: Seq<EventV>)
    ensures
        evs.len() == 0 ==> run_after(q, evs) == run_start(),
        evs.len() > 0 ==> moves_on(
            run_after(q, evs.drop_last()),
            evs.last(),
            run_after(q, evs),
        ),
{
    reveal(run_after);
    if evs.len() > 0 {
        lemma_moves_on(q, run_after(q, evs.drop_last()), evs.last());
    }
}

pub proof fn lemma_progress(q: MergeRequest, evs: Seq<EventV>)
    requires
        forall|i: int| 0 <= i < evs.len() ==> (#[trigger] evs[i]).rows.len() <= usize::MAX,
    ensures
        progress(q, evs),
        run_after(q, evs).victims.len() <= usize::MAX,
    decreases evs.len(),
{
    lemma_run_after(q, evs);
    if evs.len() > 0 {
        let d = evs.drop_last();
        let ev = evs.last();
        assert forall|i: int| 0 <= i < d.len() implies (#[trigger] d[i]).rows.len()
            <= usize::MAX by {
            assert(d[i] == evs[i]);
        }
        lemma_progress(q, d);
        let r0 = run_after(q, d);
        let r = run_after(q, evs);
        let n = evs.len() - 1;
        assert(evs.take(n) =~= d);
        assert(evs[n] == ev);
        assert forall|u: int| marked(q, d, u) implies marked(q, evs, u) by {
            let i = choose|i: int| marked_at(q, d, i, u);
            assert(d.take(i) =~= evs.take(i));
            assert(d[i] == evs[i]);
            assert(marked_at(q, evs, i, u));
        }
        if exists|i: int| written_at(q, d, i) {
            let i = choose|i: int| written_at(q, d, i);
            assert(d.take(i) =~= evs.take(i));
            assert(d[i] == evs[i]);
            assert(written_at(q, evs, i));
        }
        if let StageV::Mark(v) = r0.stage {
            if ev.affected > 0 {
                assert(marked_at(q, evs, n, v as int));
            }
        }
        if r0.stage is Header && ev.affected > 0 {
            assert(written_at(q, evs, n));
        }
    }
}

proof fn lemma_with_ids_len(rs: Seq<RecordV>, ids: Seq<i64>)
    ensures
        crate::merge_parts::with_ids(rs, ids).len() <= rs.len(),
    decreases rs.len(),
{
    if rs.len() > 0 {
        lemma_with_ids_len(rs.drop_last(), ids);
    }
}

/// A merge that ends well has moved every victim from `published` to `merged` and has written
/// the master at the version that it read: where one of these changes nothing, the merge fails.
pub proof fn law_done_is_complete(q: MergeRequest, evs: Seq<EventV>, ev: EventV)
    requires
        forall|i: int| 0 <= i < evs.len() ==> (#[trigger] evs[i]).rows.len() <= usize::MAX,
        merge_step(q, run_after(q, evs), ev).1 is Done,
    ensures
        forall|u: int| 0 <= u < run_after(q, evs).victims.len() ==> marked(q, evs, u),
        exists|i: int| written_at(q, evs, i),
{
    lemma_progress(q, evs);
}

/// A victim that is no longer published, or a master of another version, ends the merge.
pub proof fn law_conflict_fails(q: MergeRequest, r: RunV, ev: EventV)
    requires
        r.stage is Mark || r.stage is Header,
        ev.affected == 0,
    ensures
        merge_step(q, r, ev).1 is Fail,
{
}

} // verus!
