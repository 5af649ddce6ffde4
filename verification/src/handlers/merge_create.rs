//! Carrying out a request to merge records, step by step.

use crate::distribution::transform::text_at;
use crate::handlers::dedup::{
    config_defaults, line_table_info, list_else, text_else, texts_at, without,
};
use crate::handlers::merge::{choose_group, merge_answer, named_rules, survivor_rules, MergeBody};
use crate::json::{number_of, obj_put, values_view, Json, JsonV, NumberV, ObjV, Object};
use crate::merge::MergeRequest;
use crate::merge_parts::{ids_json, LineTableInfo, MergeStats};
use crate::outside::json_text;
use crate::sql::{SqlV, Statement, StatementV};
use crate::store::activation_store::{
    line_tables, line_tables_for_dict, read_line_tables, tables_view, LineTable, LineTableV,
};
use crate::store::match_config_store::{config_row, list_match_config, read_config_row};
use crate::store::query::{filter_of, filter_text};
use crate::store::scan_store::transition_scan_status;
use crate::survivorship::{rules_view, SurvivorRule};
use crate::text::{dec_int, join, texts};
use vstd::prelude::*;

verus! {

/// Who merges, and the fresh ids that a merge uses.
#[derive(Debug)]
pub struct MergeInput {
    pub operated_by: i64,
    pub group_id: i64,
    pub audit_id: i64,
    pub event_id: String,
}

/// What a request stands for.
#[verifier::ext_equal]
pub struct BodyV {
    pub dict_code: Seq<char>,
    pub master_id: i64,
    pub victim_ids: Seq<i64>,
    pub merge_id: Option<i64>,
    pub target_table: Seq<char>,
    pub survive_fields: Seq<Seq<char>>,
    pub survivorship: Option<ObjV>,
    pub overrides: Option<ObjV>,
    pub scan_id: Option<i64>,
}

/// The view of an object that may be missing.
pub open spec fn opt_object(o: Option<Object>) -> Option<ObjV> {
    match o {
        Some(x) => Some(x@),
        None => None,
    }
}

impl MergeBody {
    pub open spec fn view(&self) -> BodyV {
        BodyV {
            dict_code: self.dict_code@,
            master_id: self.master_id,
            victim_ids: self.victim_ids@,
            merge_id: self.merge_id,
            target_table: self.target_table@,
            survive_fields: texts(self.survive_fields@),
            survivorship: opt_object(self.survivorship),
            overrides: opt_object(self.overrides),
            scan_id: self.scan_id,
        }
    }
}

/// What a detail table with its keys stands for.
#[verifier::ext_equal]
pub struct LineInfoV {
    pub table: Seq<char>,
    pub parent_field: Seq<char>,
    pub dedup_keys: Seq<Seq<char>>,
}

/// The views of a list of detail tables with their keys.
pub open spec fn infos_view(t: Seq<LineTableInfo>) -> Seq<LineInfoV> {
    Seq::new(
        t.len(),
        |i: int|
            LineInfoV {
                table: t[i].table@,
                parent_field: t[i].parent_field@,
                dedup_keys: texts(t[i].dedup_keys@),
            },
    )
}

/// What a merge stands for.
#[verifier::ext_equal]
pub struct RequestV {
    pub dict_code: Seq<char>,
    pub head_table: Seq<char>,
    pub master_id: i64,
    pub victim_ids: Seq<i64>,
    pub survive_fields: Seq<Seq<char>>,
    pub rules: Seq<(Seq<char>, SurvivorRule)>,
    pub overrides: ObjV,
    pub line_tables: Seq<LineInfoV>,
    pub operated_by: i64,
    pub match_group_id: i64,
    pub audit_id: i64,
    pub event_id: Seq<char>,
}

impl MergeRequest {
    pub open spec fn view(&self) -> RequestV {
        RequestV {
            dict_code: self.dict_code@,
            head_table: self.head_table@,
            master_id: self.master_id,
            victim_ids: self.victim_ids@,
            survive_fields: texts(self.survive_fields@),
            rules: rules_view(self.rules@),
            overrides: self.overrides@,
            line_tables: infos_view(self.line_tables@),
            operated_by: self.operated_by,
            match_group_id: self.match_group_id,
            audit_id: self.audit_id,
            event_id: self.event_id@,
        }
    }
}

/// What came back of the last step.
#[derive(Debug)]
pub enum CreateEvent {
    Begin,
    Rows(Vec<Json>),
    /// The unique keys of a dictionary; none where it is not known.
    Keys(Option<Vec<Vec<String>>>),
    Changed(u64),
    Merged(MergeStats),
    Failed(String),
}

/// What an event stands for.
#[verifier::ext_equal]
pub enum CreateEventV {
    Begin,
    Rows(Seq<JsonV>),
    Keys(Option<Seq<Seq<Seq<char>>>>),
    Changed(u64),
    Merged(MergeStats),
    Failed(Seq<char>),
}

/// The views of the unique keys of a dictionary.
pub open spec fn keys_of(k: Seq<Vec<String>>) -> Seq<Seq<Seq<char>>> {
    Seq::new(k.len(), |i: int| texts(k[i]@))
}

impl CreateEvent {
    pub open spec fn view(&self) -> CreateEventV {
        match *self {
            CreateEvent::Begin => CreateEventV::Begin,
            CreateEvent::Rows(r) => CreateEventV::Rows(values_view(r@)),
            CreateEvent::Keys(k) => CreateEventV::Keys(
                match k {
                    Some(g) => Some(keys_of(g@)),
                    None => None,
                },
            ),
            CreateEvent::Changed(n) => CreateEventV::Changed(n),
            CreateEvent::Merged(s) => CreateEventV::Merged(s),
            CreateEvent::Failed(e) => CreateEventV::Failed(e@),
        }
    }
}

/// What a run waits for.
#[derive(Debug)]
pub enum CreateStage {
    Start(MergeBody),
    /// The rules of the dictionary.
    Rules(MergeBody),
    /// The detail tables of the dictionary.
    Tables(MergeBody),
    /// The unique keys of the first of the tables that are left.
    Keys(MergeBody, Vec<LineTable>, Vec<LineTableInfo>),
    /// The new merge request.
    Group(MergeBody, Vec<LineTableInfo>),
    /// The merge itself, for a finding and under a merge request.
    Merging(Option<i64>, i64),
    /// The finding that is resolved.
    Resolving(Json),
    Over,
}

/// What a stage stands for.
#[verifier::ext_equal]
pub enum CreateStageV {
    Start(BodyV),
    Rules(BodyV),
    Tables(BodyV),
    Keys(BodyV, Seq<LineTableV>, Seq<LineInfoV>),
    Group(BodyV, Seq<LineInfoV>),
    Merging(Option<i64>, i64),
    Resolving(JsonV),
    Over,
}

impl CreateStage {
    pub open spec fn view(&self) -> CreateStageV {
        match *self {
            CreateStage::Start(b) => CreateStageV::Start(b@),
            CreateStage::Rules(b) => CreateStageV::Rules(b@),
            CreateStage::Tables(b) => CreateStageV::Tables(b@),
            CreateStage::Keys(b, l, d) => CreateStageV::Keys(
                b@,
                tables_view(l@),
                infos_view(d@),
            ),
            CreateStage::Group(b, t) => CreateStageV::Group(b@, infos_view(t@)),
            CreateStage::Merging(s, g) => CreateStageV::Merging(s, g),
            CreateStage::Resolving(a) => CreateStageV::Resolving(a@),
            CreateStage::Over => CreateStageV::Over,
        }
    }
}

/// What to do next.
#[derive(Debug)]
pub enum CreateAction {
    Query(Statement),
    /// Read the unique keys of a dictionary.
    ReadKeys(String),
    Execute(Statement),
    Merge(MergeRequest),
    Answer(Json),
    Fail(String),
}

/// What an action stands for.
#[verifier::ext_equal]
pub enum CreateActionV {
    Query(StatementV),
    ReadKeys(Seq<char>),
    Execute(StatementV),
    Merge(RequestV),
    Answer(JsonV),
    Fail(Seq<char>),
}

impl CreateAction {
    pub open spec fn view(&self) -> CreateActionV {
        match *self {
            CreateAction::Query(s) => CreateActionV::Query(s@),
            CreateAction::ReadKeys(d) => CreateActionV::ReadKeys(d@),
            CreateAction::Execute(s) => CreateActionV::Execute(s@),
            CreateAction::Merge(q) => CreateActionV::Merge(q@),
            CreateAction::Answer(v) => CreateActionV::Answer(v@),
            CreateAction::Fail(e) => CreateActionV::Fail(e@),
        }
    }
}

/// The statement that reads the rules of a dictionary.
pub open spec fn rules_query(dict_code: Seq<char>) -> StatementV {
    let f = filter_text(filter_of("is_active = TRUE"@), "dict_code = "@, Some(dict_code));
    StatementV {
        sql: "SELECT id, rule_name, dict_code, target_table, specs, cluster_keys, survive_fields, thresholds, is_active, created_at FROM md_match_config WHERE "@
            + join(f.clauses, " AND "@) + " ORDER BY rule_name"@,
        params: f.params,
    }
}

/// The statement that reads the detail tables of a dictionary.
pub open spec fn tables_query(dict_code: Seq<char>) -> StatementV {
    StatementV {
        sql: "SELECT line_mappings FROM mdm_activation WHERE target_dict = $1 AND is_active = TRUE"@,
        params: seq![SqlV::Text(dict_code)],
    }
}

/// The statement that makes a merge request.
pub open spec fn group_insert(b: BodyV, id: i64) -> StatementV {
    StatementV {
        sql: "INSERT INTO md_merge_record (id, dict_code, group_key, member_ids, master_id, score, decision, survivorship_log, status, created_at) VALUES ($1,$2,$3,$4,$5,$6,$7,NULL,$8,now())"@,
        params: seq![
            SqlV::Int(id),
            SqlV::Text(b.dict_code),
            SqlV::Text("merge:"@ + dec_int(b.master_id as int)),
            SqlV::Json(json_text(ids_json(seq![b.master_id] + b.victim_ids))),
            SqlV::Int(b.master_id),
            SqlV::Int(100),
            SqlV::Text("automerge"@),
            SqlV::Text("pending"@),
        ],
    }
}

/// The statement that resolves a finding.
pub open spec fn resolve_statement(scan_id: i64, operated_by: i64) -> StatementV {
    StatementV {
        sql: "UPDATE md_match_scan SET status = $1, resolved_at = now(), resolved_by = $4 WHERE id = $2 AND status = $3"@,
        params: seq![
            SqlV::Text("resolved"@),
            SqlV::Int(scan_id),
            SqlV::Text("pending"@),
            SqlV::Int(operated_by),
        ],
    }
}

/// A request with what it leaves out taken from the first rule, where that names a table.
pub open spec fn filled(b: BodyV, rows: Seq<JsonV>) -> BodyV {
    if rows.len() > 0 && text_at(config_row(rows[0]), "target_table"@).len() > 0 {
        let rule = config_row(rows[0]);
        BodyV {
            target_table: text_else(b.target_table, text_at(rule, "target_table"@)),
            survive_fields: list_else(b.survive_fields, texts_at(rule, "survive_fields"@)),
            ..b
        }
    } else {
        b
    }
}

/// The run fails.
pub open spec fn create_fails(e: Seq<char>) -> (CreateStageV, CreateActionV) {
    (CreateStageV::Over, CreateActionV::Fail(e))
}

/// The detail tables are read, once the table of the records is known.
pub open spec fn tables_step(b: BodyV) -> (CreateStageV, CreateActionV) {
    if b.target_table.len() == 0 {
        create_fails("target_table 不能为空（body 未传且 match_config 无配置）"@)
    } else {
        (CreateStageV::Tables(b), CreateActionV::Query(tables_query(b.dict_code)))
    }
}

/// What tells the rows of a detail table apart.
pub open spec fn info_of(t: LineTableV, keys: Option<Seq<Seq<Seq<char>>>>) -> LineInfoV {
    LineInfoV {
        table: t.table,
        parent_field: t.parent_field,
        dedup_keys: match keys {
            Some(k) => if t.dict_code.len() > 0 && k.len() > 0 {
                without(k[0], t.parent_field)
            } else {
                Seq::empty()
            },
            None => Seq::empty(),
        },
    }
}

/// The merge itself, under a merge request.
pub open spec fn merge_step(i: MergeInput, b: BodyV, tables: Seq<LineInfoV>, group: i64) -> (
    CreateStageV,
    CreateActionV,
) {
    let asked = match b.survivorship {
        Some(m) => named_rules(m),
        None => Ok(Seq::empty()),
    };
    match asked {
        Err(e) => create_fails(e),
        Ok(rules) => (
            CreateStageV::Merging(b.scan_id, group),
            CreateActionV::Merge(
                RequestV {
                    dict_code: b.dict_code,
                    head_table: b.target_table,
                    master_id: b.master_id,
                    victim_ids: b.victim_ids,
                    survive_fields: b.survive_fields,
                    rules,
                    overrides: match b.overrides {
                        Some(o) => o,
                        None => Seq::empty(),
                    },
                    line_tables: tables,
                    operated_by: i.operated_by,
                    match_group_id: group,
                    audit_id: i.audit_id,
                    event_id: i.event_id@,
                },
            ),
        ),
    }
}

/// The merge request is chosen: the one named, or a new one.
pub open spec fn group_step(i: MergeInput, b: BodyV, tables: Seq<LineInfoV>) -> (
    CreateStageV,
    CreateActionV,
) {
    match b.merge_id {
        Some(g) => merge_step(i, b, tables, g),
        None => (
            CreateStageV::Group(b, tables),
            CreateActionV::Execute(group_insert(b, i.group_id)),
        ),
    }
}

/// The unique keys are read of each table that names its dictionary.
pub open spec fn keys_step(
    i: MergeInput,
    b: BodyV,
    left: Seq<LineTableV>,
    done: Seq<LineInfoV>,
) -> (CreateStageV, CreateActionV)
    decreases left.len(),
{
    if left.len() == 0 {
        group_step(i, b, done)
    } else if left[0].dict_code.len() == 0 {
        keys_step(i, b, left.drop_first(), done.push(info_of(left[0], None)))
    } else {
        (CreateStageV::Keys(b, left, done), CreateActionV::ReadKeys(left[0].dict_code))
    }
}

/// How a merge is answered.
pub open spec fn merged_answer(s: MergeStats, group: i64) -> JsonV {
    let o = obj_put(Seq::empty(), "masterId"@, JsonV::Num(number_of(s.master_id)));
    let o = obj_put(o, "matchGroupId"@, JsonV::Num(number_of(group)));
    let o = obj_put(o, "reparentedTotal"@, JsonV::Num(NumberV::PosInt(s.reparented_total)));
    JsonV::Obj(obj_put(o, "dedupedTotal"@, JsonV::Num(NumberV::PosInt(s.deduped_total))))
}

/// One step of a request to merge: what it leaves out is taken from the rules, the detail tables
/// and their keys are read, the merge request is made where none is named, the records are merged,
/// and the finding behind the request is resolved.
pub open spec fn created(i: MergeInput, stage: CreateStageV, event: CreateEventV) -> (
    CreateStageV,
    CreateActionV,
) {
    match (stage, event) {
        (CreateStageV::Resolving(a), _) => (CreateStageV::Over, CreateActionV::Answer(a)),
        (_, CreateEventV::Failed(e)) => create_fails(e),
        (CreateStageV::Start(b), CreateEventV::Begin) => if b.target_table.len() == 0
            || b.survive_fields.len() == 0 {
            (CreateStageV::Rules(b), CreateActionV::Query(rules_query(b.dict_code)))
        } else {
            tables_step(b)
        },
        (CreateStageV::Rules(b), CreateEventV::Rows(rows)) => tables_step(filled(b, rows)),
        (CreateStageV::Tables(b), CreateEventV::Rows(rows)) => keys_step(
            i,
            b,
            line_tables(rows),
            Seq::empty(),
        ),
        (CreateStageV::Keys(b, left, done), CreateEventV::Keys(keys)) => if left.len() == 0 {
            group_step(i, b, done)
        } else {
            keys_step(i, b, left.drop_first(), done.push(info_of(left[0], keys)))
        },
        (CreateStageV::Group(b, tables), CreateEventV::Changed(_)) => merge_step(
            i,
            b,
            tables,
            i.group_id,
        ),
        (CreateStageV::Merging(scan, group), CreateEventV::Merged(s)) => match scan {
            Some(id) => (
                CreateStageV::Resolving(merged_answer(s, group)),
                CreateActionV::Execute(resolve_statement(id, i.operated_by)),
            ),
            None => (CreateStageV::Over, CreateActionV::Answer(merged_answer(s, group))),
        },
        _ => create_fails("合并步骤与事件不符"@),
    }
}

fn fail_with(e: String) -> (r: (CreateStage, CreateAction))
    ensures
        (r.0@, r.1@) == create_fails(e@),
{
    (CreateStage::Over, CreateAction::Fail(e))
}

fn read_tables(b: MergeBody) -> (r: (CreateStage, CreateAction))
    ensures
        (r.0@, r.1@) == tables_step(b@),
{
    match b.head_table() {
        Err(e) => fail_with(e),
        Ok(_) => {
            let s = line_tables_for_dict(b.dict_code.as_str());
            (CreateStage::Tables(b), CreateAction::Query(s))
        },
    }
}

fn fill_from(b: MergeBody, rows: &Vec<Json>) -> (r: MergeBody)
    ensures
        r@ == filled(b@, values_view(rows@)),
{
    let mut body: MergeBody = b;
    if rows.len() > 0 {
        let mut rule = rows[0].clone();
        read_config_row(&mut rule);
        let mut first: Vec<Json> = Vec::new();
        first.push(rule);
        if let Some(d) = config_defaults(&first, Vec::new()) {
            let ghost before = body@;
            let ghost fields = body.survive_fields@;
            let ghost given = d.survive_fields@;
            body.fill(d);
            assert(texts(list_else(fields, given)) =~= list_else(texts(fields), texts(given)));
            assert(body@ =~= filled(before, values_view(rows@)));
        }
    }
    body
}

fn start_merge(i: &MergeInput, b: MergeBody, tables: Vec<LineTableInfo>, group: i64) -> (r: (
    CreateStage,
    CreateAction,
))
    ensures
        (r.0@, r.1@) == merge_step(*i, b@, infos_view(tables@), group),
{
    let none: Vec<(String, SurvivorRule)> = Vec::new();
    assert(rules_view(none@) =~= Seq::<(Seq<char>, SurvivorRule)>::empty());
    let asked: Result<Vec<(String, SurvivorRule)>, String> = match &b.survivorship {
        Some(m) => survivor_rules(m),
        None => Ok(none),
    };
    match asked {
        Err(e) => fail_with(e),
        Ok(rules) => {
            let scan = b.scan_id;
            let overrides: Object = match b.overrides {
                Some(o) => o,
                None => Object::new(),
            };
            (
                CreateStage::Merging(scan, group),
                CreateAction::Merge(
                    MergeRequest {
                        dict_code: b.dict_code,
                        head_table: b.target_table,
                        master_id: b.master_id,
                        victim_ids: b.victim_ids,
                        survive_fields: b.survive_fields,
                        rules,
                        overrides,
                        line_tables: tables,
                        operated_by: i.operated_by,
                        match_group_id: group,
                        audit_id: i.audit_id,
                        event_id: i.event_id.clone(),
                    },
                ),
            )
        },
    }
}

fn pick_group(i: &MergeInput, b: MergeBody, tables: Vec<LineTableInfo>) -> (r: (
    CreateStage,
    CreateAction,
))
    ensures
        (r.0@, r.1@) == group_step(*i, b@, infos_view(tables@)),
{
    let c = choose_group(&b, i.group_id);
    match c.insert {
        Some(s) => {
            assert(s@ =~= group_insert(b@, i.group_id));
            (CreateStage::Group(b, tables), CreateAction::Execute(s))
        },
        None => start_merge(i, b, tables, c.id),
    }
}

fn add_info(done: &mut Vec<LineTableInfo>, table: LineTable, keys: Option<&[Vec<String>]>)
    ensures
        infos_view(final(done)@) == infos_view(old(done)@).push(
            info_of(
                table@,
                match keys {
                    Some(k) => Some(keys_of(k@)),
                    None => None,
                },
            ),
        ),
{
    let ghost before = done@;
    let ghost want = info_of(
        table@,
        match keys {
            Some(k) => Some(keys_of(k@)),
            None => None,
        },
    );
    let t = line_table_info(table, keys);
    assert(texts(t.dedup_keys@) =~= want.dedup_keys);
    done.push(t);
    assert(infos_view(done@) =~= infos_view(before).push(want));
}

fn ask_keys(
    i: &MergeInput,
    b: MergeBody,
    tables: Vec<LineTable>,
    infos: Vec<LineTableInfo>,
) -> (r: (CreateStage, CreateAction))
    ensures
        (r.0@, r.1@) == keys_step(*i, b@, tables_view(tables@), infos_view(infos@)),
{
    let ghost want = keys_step(*i, b@, tables_view(tables@), infos_view(infos@));
    let mut left: Vec<LineTable> = tables;
    let mut done: Vec<LineTableInfo> = infos;
    while left.len() > 0 && left[0].dict_code.as_str().is_empty()
        invariant
            keys_step(*i, b@, tables_view(left@), infos_view(done@)) == want,
        decreases left@.len(),
    {
        let ghost all = left@;
        let t = left.remove(0);
        assert(tables_view(left@) =~= tables_view(all).drop_first());
        assert(tables_view(all)[0] == t@);
        add_info(&mut done, t, None);
    }
    assert(left@.len() == tables_view(left@).len());
    if left.len() == 0 {
        pick_group(i, b, done)
    } else {
        assert(tables_view(left@)[0] == left@[0]@);
        let dict = left[0].dict_code.clone();
        (CreateStage::Keys(b, left, done), CreateAction::ReadKeys(dict))
    }
}

/// One step of a request to merge.
pub fn mdm_merge_requests_create(i: &MergeInput, stage: CreateStage, event: CreateEvent) -> (r: (
    CreateStage,
    CreateAction,
))
    ensures
        (r.0@, r.1@) == created(*i, stage@, event@),
{
    match (stage, event) {
        (CreateStage::Resolving(a), _) => (CreateStage::Over, CreateAction::Answer(a)),
        (_, CreateEvent::Failed(e)) => fail_with(e),
        (CreateStage::Start(b), CreateEvent::Begin) => {
            assert(b.survive_fields@.len() == texts(b.survive_fields@).len());
            if b.lacks_defaults() {
                let s = list_match_config(Some(b.dict_code.as_str()));
                (CreateStage::Rules(b), CreateAction::Query(s))
            } else {
                read_tables(b)
            }
        },
        (CreateStage::Rules(b), CreateEvent::Rows(rows)) => read_tables(fill_from(b, &rows)),
        (CreateStage::Tables(b), CreateEvent::Rows(rows)) => {
            let none: Vec<LineTableInfo> = Vec::new();
            assert(infos_view(none@) =~= Seq::<LineInfoV>::empty());
            ask_keys(i, b, read_line_tables(&rows), none)
        },
        (CreateStage::Keys(b, left, done), CreateEvent::Keys(keys)) => {
            let mut tables: Vec<LineTable> = left;
            let mut infos: Vec<LineTableInfo> = done;
            assert(tables@.len() == tables_view(tables@).len());
            if tables.len() == 0 {
                return pick_group(i, b, infos);
            }
            let ghost all = tables@;
            let t = tables.remove(0);
            assert(tables_view(tables@) =~= tables_view(all).drop_first());
            assert(tables_view(all)[0] == t@);
            match keys {
                Some(k) => {
                    add_info(&mut infos, t, Some(k.as_slice()));
                },
                None => {
                    add_info(&mut infos, t, None);
                },
            }
            ask_keys(i, b, tables, infos)
        },
        (CreateStage::Group(b, tables), CreateEvent::Changed(_)) => start_merge(
            i,
            b,
            tables,
            i.group_id,
        ),
        (CreateStage::Merging(scan, group), CreateEvent::Merged(s)) => {
            let a = merge_answer(&s, group);
            match scan {
                Some(id) => (
                    CreateStage::Resolving(a),
                    CreateAction::Execute(
                        transition_scan_status(id, "pending", "resolved", i.operated_by),
                    ),
                ),
                None => (CreateStage::Over, CreateAction::Answer(a)),
            }
        },
        _ => fail_with("合并步骤与事件不符".to_owned()),
    }
}

proof fn lemma_keys_step(i: MergeInput, b: BodyV, left: Seq<LineTableV>, done: Seq<LineInfoV>)
    ensures
        keys_step(i, b, left, done).1 matches CreateActionV::Merge(q) ==> b.merge_id == Some(
            q.match_group_id,
        ),
        !(keys_step(i, b, left, done).1 is Answer),
    decreases left.len(),
{
    if left.len() > 0 && left[0].dict_code.len() == 0 {
        lemma_keys_step(i, b, left.drop_first(), done.push(info_of(left[0], None)));
    }
}

/// Records are merged only under a merge request that is there: the one that was named, or a new
/// one once it was written.
pub proof fn law_merge_has_request(i: MergeInput, stage: CreateStageV, event: CreateEventV)
    ensures
        created(i, stage, event).1 matches CreateActionV::Merge(q) ==> match stage {
            CreateStageV::Group(..) => event is Changed && q.match_group_id == i.group_id,
            CreateStageV::Tables(b) => b.merge_id == Some(q.match_group_id),
            CreateStageV::Keys(b, _, _) => b.merge_id == Some(q.match_group_id),
            _ => false,
        },
{
    match (stage, event) {
        (CreateStageV::Tables(b), CreateEventV::Rows(rows)) => {
            lemma_keys_step(i, b, line_tables(rows), Seq::empty());
        },
        (CreateStageV::Keys(b, left, done), CreateEventV::Keys(keys)) => {
            if left.len() > 0 {
                lemma_keys_step(i, b, left.drop_first(), done.push(info_of(left[0], keys)));
            }
        },
        _ => {},
    }
}

/// A merge is answered with what it did, whatever becomes of the finding behind it; nothing is
/// answered before.
pub proof fn law_merge_is_answered(
    i: MergeInput,
    scan: Option<i64>,
    group: i64,
    s: MergeStats,
    stage: CreateStageV,
    event: CreateEventV,
)
    ensures
        ({
            let r = created(i, CreateStageV::Merging(scan, group), CreateEventV::Merged(s));
            r.1 == CreateActionV::Answer(merged_answer(s, group)) || created(i, r.0, event).1
                == CreateActionV::Answer(merged_answer(s, group))
        }),
        created(i, stage, event).1 is Answer ==> stage is Merging || stage is Resolving,
{
    match (stage, event) {
        (CreateStageV::Tables(b), CreateEventV::Rows(rows)) => {
            lemma_keys_step(i, b, line_tables(rows), Seq::empty());
        },
        (CreateStageV::Keys(b, left, done), CreateEventV::Keys(keys)) => {
            if left.len() > 0 {
                lemma_keys_step(i, b, left.drop_first(), done.push(info_of(left[0], keys)));
            }
        },
        _ => {},
    }
}

} // verus!
