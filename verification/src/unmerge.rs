//! Undoing a merge: the victim is published again and gets its detail lines back.

use crate::json::{json_get, values_view, Json, JsonV};
use crate::merge::{
    lifecycle_statement, prepared, prepared_view, EventV, Prepared, StepEvent,
};
use crate::merge_parts::{about_id, LineTableInfo};
use crate::merge_record::{
    ids_in_record, key_of_lines, line_key, lines_of_victim, lines_record, recorded_ids,
};
use crate::outside::{json_parse, parse_value};
use crate::sql::{slots, SqlType, SqlV, Statement, StatementV};
use crate::store::dct_accessor::{
    id_params, reparent_lines_by_ids, set_lifecycle, set_lifecycle_by_ids,
};
use crate::store::match_group::{get_match_group, update_match_group};
use crate::store::md_accessor::{activate_xref, write_audit, AuditEntry};
use crate::text::{dec_int, join};
use vstd::prelude::*;

verus! {

/// What an undo is asked to do. The id of the audit line is a fresh one.
#[derive(Debug)]
pub struct UnmergeRequest {
    pub dict_code: String,
    pub head_table: String,
    pub master_id: i64,
    pub victim_id: i64,
    pub line_tables: Vec<LineTableInfo>,
    pub operated_by: i64,
    pub match_group_id: i64,
    pub audit_id: i64,
}

/// The views of a list of statements.
pub open spec fn statements_view(s: Seq<Statement>) -> Seq<StatementV> {
    Seq::new(s.len(), |i: int| s[i]@)
}

/// The first statement of an undo: the victim is published again.
pub fn restore_victim(req: &UnmergeRequest) -> (r: Result<Statement, String>)
    ensures
        prepared_view(r) == prepared(
            seq![req.head_table@],
            lifecycle_statement(req.head_table@, req.victim_id, "merged"@, "published"@),
        ),
{
    let p = set_lifecycle(req.head_table.as_str(), req.victim_id, "merged", "published");
    assert(p is Ok ==> p->Ok_0@ =~= lifecycle_statement(
        req.head_table@,
        req.victim_id,
        "merged"@,
        "published"@,
    ));
    p
}

/// An undo fails where the victim was not merged.
pub fn victim_restored(req: &UnmergeRequest, affected: u64) -> (r: Result<(), String>)
    ensures
        if affected == 0 {
            r matches Err(e) && e@ == "victim "@ + dec_int(req.victim_id as int)
                + " 非 merged（双 unmerge 拦截）"@
        } else {
            r is Ok
        },
{
    if affected == 0 {
        Err(about_id("victim ", req.victim_id, " 非 merged（双 unmerge 拦截）"))
    } else {
        Ok(())
    }
}

/// The record of a merge in a merge request: a JSON value, or the text of one; null where it is
/// missing or its text is no JSON.
pub open spec fn record_in_group(group: JsonV) -> JsonV {
    match json_get(group, "survivorship_log"@) {
        Some(JsonV::Str(s)) => match json_parse(s) {
            Some(v) => v,
            None => JsonV::Null,
        },
        Some(v) => v,
        None => JsonV::Null,
    }
}

/// What is said where there is no merge request to undo.
pub open spec fn group_missing(id: i64) -> Seq<char> {
    "group "@ + dec_int(id as int) + " 不存在"@
}

/// The record of a merge in a merge request, which must be there.
pub fn read_record(req: &UnmergeRequest, group: Option<&Json>) -> (r: Result<Json, String>)
    ensures
        match group {
            Some(g) => r matches Ok(v) && v@ == record_in_group(g@),
            None => r matches Err(e) && e@ == group_missing(req.match_group_id),
        },
{
    match group {
        Some(g) => Ok(
            match g.get("survivorship_log") {
                Some(Json::Str(s)) => match parse_value(s.as_str()) {
                    Some(v) => v,
                    None => Json::Null,
                },
                Some(v) => v.clone(),
                None => Json::Null,
            },
        ),
        None => Err(about_id("group ", req.match_group_id, " 不存在")),
    }
}

/// The statements that give lines of one table back: those that moved return to the victim.
pub open spec fn return_lines(t: LineTableInfo, ids: Seq<i64>, victim_id: i64) -> Prepared {
    prepared(
        seq![t.table@, t.parent_field@],
        StatementV {
            sql: "UPDATE "@ + t.table@ + " SET "@ + t.parent_field@
                + " = $1, update_time = now() WHERE id IN ("@ + join(slots(2, ids.len()), ", "@)
                + ")"@,
            params: seq![SqlV::Int(victim_id)] + id_params(ids),
        },
    )
}

/// Those that were retired are published again.
pub open spec fn revive_lines(t: LineTableInfo, ids: Seq<i64>) -> Prepared {
    prepared(
        seq![t.table@],
        StatementV {
            sql: "UPDATE "@ + t.table@
                + " SET lifecycle_status = $1, published_version = published_version + 1, update_time = now() WHERE lifecycle_status = $2 AND id IN ("@
                + join(slots(3, ids.len()), ", "@) + ")"@,
            params: seq![SqlV::Text("published"@), SqlV::Text("merged"@)] + id_params(ids),
        },
    )
}

/// `done` with one more statement, where there are ids for it.
pub open spec fn with_statement(
    done: Result<Seq<StatementV>, Seq<char>>,
    ids: Seq<i64>,
    p: Prepared,
) -> Result<Seq<StatementV>, Seq<char>> {
    match done {
        Err(e) => Err(e),
        Ok(l) => if ids.len() == 0 {
            Ok(l)
        } else {
            match p {
                Ok(s) => Ok(l.push(s)),
                Err(e) => Err(e),
            }
        },
    }
}

/// The statements that give the lines of the first `n` tables back, given what the record says of
/// the lines of the victim.
pub open spec fn line_statements(
    tables: Seq<LineTableInfo>,
    n: nat,
    record: JsonV,
    victim_id: i64,
) -> Result<Seq<StatementV>, Seq<char>>
    decreases n,
{
    if n == 0 {
        Ok(Seq::empty())
    } else {
        let t = tables[n - 1];
        let moved = recorded_ids(record, "reparented"@, line_key(tables, t));
        let retired = recorded_ids(record, "deduped"@, line_key(tables, t));
        with_statement(
            with_statement(
                line_statements(tables, (n - 1) as nat, record, victim_id),
                moved,
                return_lines(t, moved, victim_id),
            ),
            retired,
            revive_lines(t, retired),
        )
    }
}

/// The last statements of an undo: the cross references of the victim live again, the undo is
/// noted, and the merge request is closed.
pub open spec fn closing_statements(q: UnmergeRequest) -> Seq<StatementV> {
    seq![
        StatementV {
            sql: "UPDATE md_xref SET xref_status = $1 WHERE dict_code = $2 AND record_id = $3"@,
            params: seq![
                SqlV::Text("active"@),
                SqlV::Text(q.dict_code@),
                SqlV::Int(q.victim_id),
            ],
        },
        StatementV {
            sql: "INSERT INTO md_audit (id, dict_code, record_id, version, action, source_cr_id, field, old_value, new_value, operated_by, operated_at) VALUES ($1,$2,$3,$4,$5,$6,$7,$8,$9,$10,now())"@,
            params: seq![
                SqlV::Int(q.audit_id),
                SqlV::Text(q.dict_code@),
                SqlV::Int(q.master_id),
                SqlV::Int(0),
                SqlV::Text("unmerge"@),
                SqlV::Int(q.victim_id),
                SqlV::Null,
                SqlV::NullTyped(SqlType::Json),
                SqlV::NullTyped(SqlType::Json),
                SqlV::Int(q.operated_by),
            ],
        },
        StatementV {
            sql: "UPDATE md_merge_record SET status = $1, survivorship_log = $2, master_id = $3 WHERE id = $4"@,
            params: seq![
                SqlV::Text("unmerged"@),
                SqlV::NullTyped(SqlType::Json),
                SqlV::NullTyped(SqlType::Int),
                SqlV::Int(q.match_group_id),
            ],
        },
    ]
}

/// No list of a record for these tables is at the limit of the machine.
pub open spec fn record_fits(tables: Seq<LineTableInfo>, record: JsonV) -> bool {
    forall|i: int|
        0 <= i < tables.len() ==> {
            &&& recorded_ids(record, "reparented"@, line_key(tables, #[trigger] tables[i])).len()
                + 3 <= usize::MAX
            &&& recorded_ids(record, "deduped"@, line_key(tables, tables[i])).len() + 3
                <= usize::MAX
        }
}

/// The statements of an undo after the victim was published again, given the record of the merge:
/// the lines of the victim come back, and the undo is noted.
pub fn unmerge_statements(req: &UnmergeRequest, record: &Json) -> (r: Result<
    Vec<Statement>,
    String,
>)
    requires
        record_fits(req.line_tables@, lines_record(record@, req.victim_id)),
    ensures
        match line_statements(
            req.line_tables@,
            req.line_tables@.len(),
            lines_record(record@, req.victim_id),
            req.victim_id,
        ) {
            Err(e) => r matches Err(x) && x@ == e,
            Ok(l) => r matches Ok(v) && statements_view(v@) == l + closing_statements(*req),
        },
{
    let lines = lines_of_victim(record, req.victim_id);
    let mut out: Vec<Statement> = Vec::new();
    let ghost tables = req.line_tables@;
    let mut i: usize = 0;
    assert(statements_view(out@) =~= Seq::<StatementV>::empty());
    while i < req.line_tables.len()
        invariant
            i <= req.line_tables@.len(),
            tables == req.line_tables@,
            record_fits(tables, lines@),
            lines@ == lines_record(record@, req.victim_id),
            line_statements(tables, i as nat, lines@, req.victim_id) == Ok::<
                Seq<StatementV>,
                Seq<char>,
            >(statements_view(out@)),
        decreases req.line_tables@.len() - i,
    {
        let lt = &req.line_tables[i];
        let ghost o0 = out@;
        let key = key_of_lines(&req.line_tables, lt);
        let moved = ids_in_record(&lines, "reparented", key.as_str());
        let retired = ids_in_record(&lines, "deduped", key.as_str());
        match reparent_lines_by_ids(
            lt.table.as_str(),
            lt.parent_field.as_str(),
            moved.as_slice(),
            req.victim_id,
        ) {
            Err(e) => {
                proof {
                    lemma_failed(tables, lines@, req.victim_id, (i + 1) as nat, e@);
                }
                return Err(e);
            },
            Ok(Some(s)) => {
                assert(Ok::<StatementV, Seq<char>>(s@) == return_lines(
                    *lt,
                    moved@,
                    req.victim_id,
                ));
                let ghost sv = s@;
                out.push(s);
                assert(statements_view(out@) =~= statements_view(o0).push(sv));
            },
            Ok(None) => {},
        }
        let ghost o1 = out@;
        match set_lifecycle_by_ids(
            lt.table.as_str(),
            retired.as_slice(),
            "merged",
            "published",
        ) {
            Err(e) => {
                proof {
                    lemma_failed(tables, lines@, req.victim_id, (i + 1) as nat, e@);
                }
                return Err(e);
            },
            Ok(Some(s)) => {
                assert(Ok::<StatementV, Seq<char>>(s@) == revive_lines(*lt, retired@));
                let ghost sv = s@;
                out.push(s);
                assert(statements_view(out@) =~= statements_view(o1).push(sv));
            },
            Ok(None) => {},
        }
        i += 1;
    }
    let ghost o2 = out@;
    let a = activate_xref(req.dict_code.as_str(), req.victim_id);
    let b = write_audit(
        &AuditEntry {
            id: req.audit_id,
            dict_code: req.dict_code.as_str(),
            record_id: req.master_id,
            version: 0,
            action: "unmerge",
            source_cr_id: Some(req.victim_id),
            field: None,
            old_value: None,
            new_value: None,
            operated_by: req.operated_by,
        },
    );
    let c = update_match_group(req.match_group_id, "unmerged", None, None);
    proof {
        assert(a@ =~= closing_statements(*req)[0]);
        assert(b@.params =~= closing_statements(*req)[1].params);
        assert(b@ =~= closing_statements(*req)[1]);
        assert(c@.params =~= closing_statements(*req)[2].params);
        assert(c@ =~= closing_statements(*req)[2]);
    }
    out.push(a);
    out.push(b);
    out.push(c);
    assert(statements_view(out@) =~= statements_view(o2) + closing_statements(*req));
    Ok(out)
}

/// A failure at one table is the failure of all.
proof fn lemma_failed(
    tables: Seq<LineTableInfo>,
    record: JsonV,
    victim_id: i64,
    n: nat,
    e: Seq<char>,
)
    requires
        n <= tables.len(),
        line_statements(tables, n, record, victim_id) == Err::<Seq<StatementV>, Seq<char>>(e),
    ensures
        line_statements(tables, tables.len(), record, victim_id) == Err::<
            Seq<StatementV>,
            Seq<char>,
        >(e),
    decreases tables.len() - n,
{
    if n < tables.len() {
        lemma_failed(tables, record, victim_id, n + 1, e);
    }
}

/// What an undo waits for.
#[derive(Debug)]
pub enum UndoStage {
    Start,
    Restoring,
    Group,
    /// The statements that are left.
    Writing(Vec<Statement>),
    Over,
}

/// What a stage stands for.
#[verifier::ext_equal]
pub enum UndoStageV {
    Start,
    Restoring,
    Group,
    Writing(Seq<StatementV>),
    Over,
}

impl UndoStage {
    pub open spec fn view(&self) -> UndoStageV {
        match *self {
            UndoStage::Start => UndoStageV::Start,
            UndoStage::Restoring => UndoStageV::Restoring,
            UndoStage::Group => UndoStageV::Group,
            UndoStage::Writing(l) => UndoStageV::Writing(statements_view(l@)),
            UndoStage::Over => UndoStageV::Over,
        }
    }
}

/// What to do next.
#[derive(Debug)]
pub enum UndoAction {
    Query(Statement),
    Execute(Statement),
    /// Commit.
    Done,
    /// Roll back.
    Fail(String),
}

/// What an action stands for.
#[verifier::ext_equal]
pub enum UndoActionV {
    Query(StatementV),
    Execute(StatementV),
    Done,
    Fail(Seq<char>),
}

impl UndoAction {
    pub open spec fn view(&self) -> UndoActionV {
        match *self {
            UndoAction::Query(s) => UndoActionV::Query(s@),
            UndoAction::Execute(s) => UndoActionV::Execute(s@),
            UndoAction::Done => UndoActionV::Done,
            UndoAction::Fail(e) => UndoActionV::Fail(e@),
        }
    }
}

/// An undo that fails.
pub open spec fn undo_fails(e: Seq<char>) -> (UndoStageV, UndoActionV) {
    (UndoStageV::Over, UndoActionV::Fail(e))
}

/// The next statement, or the end.
pub open spec fn write_step(left: Seq<StatementV>) -> (UndoStageV, UndoActionV) {
    if left.len() > 0 {
        (UndoStageV::Writing(left.drop_first()), UndoActionV::Execute(left[0]))
    } else {
        (UndoStageV::Over, UndoActionV::Done)
    }
}

/// After the merge request was read: one that is not there ends the undo; else what its record
/// tells of the victim is given back.
pub open spec fn record_step(q: UnmergeRequest, rows: Seq<JsonV>) -> (UndoStageV, UndoActionV) {
    if rows.len() == 0 {
        undo_fails(group_missing(q.match_group_id))
    } else {
        let lines = lines_record(record_in_group(rows[0]), q.victim_id);
        if !record_fits(q.line_tables@, lines) {
            undo_fails("明细行数超出范围"@)
        } else {
            match line_statements(q.line_tables@, q.line_tables@.len(), lines, q.victim_id) {
                Err(e) => undo_fails(e),
                Ok(l) => write_step(l + closing_statements(q)),
            }
        }
    }
}

/// The step of an undo: the victim is published again, the record of the merge is read, and what
/// it lists is given back. Lists as long as the machine can count are refused.
pub open spec fn undone(q: UnmergeRequest, stage: UndoStageV, ev: EventV) -> (
    UndoStageV,
    UndoActionV,
) {
    match stage {
        UndoStageV::Start => match prepared(
            seq![q.head_table@],
            lifecycle_statement(q.head_table@, q.victim_id, "merged"@, "published"@),
        ) {
            Ok(s) => (UndoStageV::Restoring, UndoActionV::Execute(s)),
            Err(e) => undo_fails(e),
        },
        UndoStageV::Restoring => if ev.affected == 0 {
            undo_fails(
                "victim "@ + dec_int(q.victim_id as int) + " 非 merged（双 unmerge 拦截）"@,
            )
        } else {
            (
                UndoStageV::Group,
                UndoActionV::Query(
                    StatementV {
                        sql: "SELECT id, dict_code, group_key, member_ids, master_id, score, decision, status, survivorship_log FROM md_merge_record WHERE id = $1"@,
                        params: seq![SqlV::Int(q.match_group_id)],
                    },
                ),
            )
        },
        UndoStageV::Group => record_step(q, ev.rows),
        UndoStageV::Writing(left) => write_step(left),
        UndoStageV::Over => undo_fails("还原步骤与事件不符"@),
    }
}

fn lists_fit(tables: &Vec<LineTableInfo>, lines: &Json) -> (r: bool)
    ensures
        r == record_fits(tables@, lines@),
{
    let limit: usize = usize::MAX - 3;
    let mut i: usize = 0;
    while i < tables.len()
        invariant
            i <= tables@.len(),
            limit == usize::MAX - 3,
            forall|j: int|
                0 <= j < i ==> {
                    &&& recorded_ids(
                        lines@,
                        "reparented"@,
                        line_key(tables@, #[trigger] tables@[j]),
                    ).len() + 3 <= usize::MAX
                    &&& recorded_ids(
                        lines@,
                        "deduped"@,
                        line_key(tables@, tables@[j]),
                    ).len() + 3 <= usize::MAX
                },
        decreases tables@.len() - i,
    {
        let key = key_of_lines(tables, &tables[i]);
        let moved = ids_in_record(lines, "reparented", key.as_str());
        let retired = ids_in_record(lines, "deduped", key.as_str());
        if moved.len() > limit || retired.len() > limit {
            assert(!record_fits(tables@, lines@)) by {
                let t = tables@[i as int];
            }
            return false;
        }
        i += 1;
    }
    true
}

fn next_write(statements: Vec<Statement>) -> (r: (UndoStage, UndoAction))
    ensures
        (r.0@, r.1@) == write_step(statements_view(statements@)),
{
    let mut left: Vec<Statement> = statements;
    assert(left@.len() == statements_view(left@).len());
    if left.len() > 0 {
        let ghost all = left@;
        let s = left.remove(0);
        assert(statements_view(left@) =~= statements_view(all).drop_first());
        (UndoStage::Writing(left), UndoAction::Execute(s))
    } else {
        (UndoStage::Over, UndoAction::Done)
    }
}

fn undo_from(req: &UnmergeRequest, rows: &Vec<Json>) -> (r: (UndoStage, UndoAction))
    ensures
        (r.0@, r.1@) == record_step(*req, values_view(rows@)),
{
    let group: Option<&Json> = if rows.len() > 0 {
        Some(&rows[0])
    } else {
        None
    };
    match read_record(req, group) {
        Err(e) => (UndoStage::Over, UndoAction::Fail(e)),
        Ok(record) => {
            let lines = lines_of_victim(&record, req.victim_id);
            if !lists_fit(&req.line_tables, &lines) {
                return (
                    UndoStage::Over,
                    UndoAction::Fail("明细行数超出范围".to_owned()),
                );
            }
            match unmerge_statements(req, &record) {
                Err(e) => (UndoStage::Over, UndoAction::Fail(e)),
                Ok(l) => next_write(l),
            }
        },
    }
}

/// Takes what the last statement gave back and says what to do next.
pub fn undo_step(req: &UnmergeRequest, stage: UndoStage, ev: &StepEvent) -> (r: (
    UndoStage,
    UndoAction,
))
    ensures
        (r.0@, r.1@) == undone(*req, stage@, ev@),
{
    match stage {
        UndoStage::Start => match restore_victim(req) {
            Ok(s) => (UndoStage::Restoring, UndoAction::Execute(s)),
            Err(e) => (UndoStage::Over, UndoAction::Fail(e)),
        },
        UndoStage::Restoring => match victim_restored(req, ev.affected) {
            Ok(_) => (UndoStage::Group, UndoAction::Query(get_match_group(req.match_group_id))),
            Err(e) => (UndoStage::Over, UndoAction::Fail(e)),
        },
        UndoStage::Group => undo_from(req, &ev.rows),
        UndoStage::Writing(left) => next_write(left),
        UndoStage::Over => (
            UndoStage::Over,
            UndoAction::Fail("还原步骤与事件不符".to_owned()),
        ),
    }
}

/// An undo fails, and writes nothing more, where the victim was not merged, as after an undo
/// before, or where there is no merge request.
pub proof fn law_undo_refuses(q: UnmergeRequest, ev: EventV)
    ensures
        ev.affected == 0 ==> undone(q, UndoStageV::Restoring, ev).1 is Fail,
        ev.rows.len() == 0 ==> undone(q, UndoStageV::Group, ev) == undo_fails(
            group_missing(q.match_group_id),
        ),
{
}

} // verus!
