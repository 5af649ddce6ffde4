//! A scan of a dictionary: the clusters that are found are entered, step by step.

use crate::handlers::scan::{prepare_clusters, prepared_of, scan_answer, ScanRunBody};
use crate::json::{number_of, obj_put, values_view, Json, JsonV, NumberV};
use crate::match_algo::{
    cluster_ok, clusters, law_clusters, records_view, scan_clusters, specs_view, DupCluster,
    FieldSpecV, MatchFieldSpec, MatchRecord, RecordV,
};
use crate::sql::{SqlV, Statement, StatementV};
use crate::store::loader::borrowed;
use crate::store::query::{
    filter_of, filter_text, page_offset, page_or_default, page_query, size_or_default, total_in,
    total_of,
};
use crate::store::scan_store::{
    cluster_mark, column_texts, findings, insert_findings, list_scans, load_pending_hashes,
    marked_in, prepared_list, texts_of_column, InsertStats, PreparedCluster, PreparedV,
};
use crate::text::texts;
use crate::unmerge::statements_view;
use vstd::prelude::*;

verus! {

/// What came back of the last step.
#[derive(Debug)]
pub enum ScanEvent {
    Begin,
    Rows(Vec<Json>),
    /// Fresh ids.
    Ids(Vec<i64>),
    Changed(u64),
    Failed(String),
}

/// What an event stands for.
#[verifier::ext_equal]
pub enum ScanEventV {
    Begin,
    Rows(Seq<JsonV>),
    Ids(Seq<i64>),
    Changed(u64),
    Failed(Seq<char>),
}

impl ScanEvent {
    pub open spec fn view(&self) -> ScanEventV {
        match *self {
            ScanEvent::Begin => ScanEventV::Begin,
            ScanEvent::Rows(r) => ScanEventV::Rows(values_view(r@)),
            ScanEvent::Ids(i) => ScanEventV::Ids(i@),
            ScanEvent::Changed(n) => ScanEventV::Changed(n),
            ScanEvent::Failed(e) => ScanEventV::Failed(e@),
        }
    }
}

/// What a scan waits for.
#[derive(Debug)]
pub enum ScanStage {
    /// The request, its comparisons and the records to be compared.
    Start(ScanRunBody, Vec<MatchFieldSpec>, Vec<MatchRecord>),
    /// The marks of the findings that wait, for a dictionary and the clusters found.
    Marks(String, Vec<PreparedCluster>),
    /// The ids of the new findings.
    Ids(String, Vec<PreparedCluster>, Vec<String>),
    /// An insert; those behind it are still to be made.
    Inserting(String, Vec<Statement>, InsertStats),
    /// How many findings wait now.
    Counting(InsertStats),
    Over,
}

/// What a stage stands for.
#[verifier::ext_equal]
pub enum ScanStageV {
    Start(ScanV, Seq<FieldSpecV>, Seq<RecordV>),
    Marks(Seq<char>, Seq<PreparedV>),
    Ids(Seq<char>, Seq<PreparedV>, Seq<Seq<char>>),
    Inserting(Seq<char>, Seq<StatementV>, InsertStats),
    Counting(InsertStats),
    Over,
}

/// What is needed of a request once the records are read.
#[verifier::ext_equal]
pub struct ScanV {
    pub dict_code: Seq<char>,
    pub cluster_keys: Seq<Seq<char>>,
    pub min_score: u8,
}

/// What is needed of a request once the records are read.
pub open spec fn scan_view(b: ScanRunBody) -> ScanV {
    ScanV {
        dict_code: b.dict_code@,
        cluster_keys: texts(b.cluster_keys@),
        min_score: match b.min_score {
            Some(m) => m,
            None => 80,
        },
    }
}

impl ScanStage {
    pub open spec fn view(&self) -> ScanStageV {
        match *self {
            ScanStage::Start(b, s, r) => ScanStageV::Start(
                scan_view(b),
                specs_view(s@),
                records_view(r@),
            ),
            ScanStage::Marks(d, c) => ScanStageV::Marks(d@, prepared_list(c@)),
            ScanStage::Ids(d, c, w) => ScanStageV::Ids(d@, prepared_list(c@), texts(w@)),
            ScanStage::Inserting(d, l, s) => ScanStageV::Inserting(d@, statements_view(l@), s),
            ScanStage::Counting(s) => ScanStageV::Counting(s),
            ScanStage::Over => ScanStageV::Over,
        }
    }
}

/// What to do next.
#[derive(Debug)]
pub enum ScanAction {
    Query(Statement),
    /// Make fresh ids, so many.
    NewIds(usize),
    Execute(Statement),
    Answer(Json),
    Fail(String),
}

/// What an action stands for.
#[verifier::ext_equal]
pub enum ScanActionV {
    Query(StatementV),
    NewIds(nat),
    Execute(StatementV),
    Answer(JsonV),
    Fail(Seq<char>),
}

impl ScanAction {
    pub open spec fn view(&self) -> ScanActionV {
        match *self {
            ScanAction::Query(s) => ScanActionV::Query(s@),
            ScanAction::NewIds(n) => ScanActionV::NewIds(n as nat),
            ScanAction::Execute(s) => ScanActionV::Execute(s@),
            ScanAction::Answer(v) => ScanActionV::Answer(v@),
            ScanAction::Fail(e) => ScanActionV::Fail(e@),
        }
    }
}

/// The clusters of a scan as they are entered.
pub open spec fn scanned(b: ScanV, specs: Seq<FieldSpecV>, rs: Seq<RecordV>) -> Seq<PreparedV> {
    let found = clusters(rs, specs, b.cluster_keys, b.min_score);
    Seq::new(found.len(), |i: int| prepared_of(found[i]))
}

/// The statement that reads the marks of the findings that wait.
pub open spec fn marks_query(dict_code: Seq<char>) -> StatementV {
    StatementV {
        sql: "SELECT cluster_hash FROM md_match_scan WHERE dict_code = $1 AND status = 'pending'"@,
        params: seq![SqlV::Text(dict_code)],
    }
}

/// The statement that counts the findings that wait.
pub open spec fn waiting_count(dict_code: Seq<char>) -> StatementV {
    page_query(
        "md_match_scan"@,
        "id, dict_code, cluster_key, member_ids, member_count, max_score, status, scaned_at, resolved_at, resolved_by, created_at"@,
        "md_match_scan"@,
        "max_score DESC, created_at DESC, id DESC"@,
        filter_text(
            filter_text(filter_of("1=1"@), "dict_code = "@, Some(dict_code)),
            "status = "@,
            Some("pending"@),
        ),
        1,
        1,
    ).count
}

/// The next insert, or the count of what waits now.
pub open spec fn insert_step(dict_code: Seq<char>, left: Seq<StatementV>, stats: InsertStats) -> (
    ScanStageV,
    ScanActionV,
) {
    if left.len() > 0 {
        (
            ScanStageV::Inserting(dict_code, left.drop_first(), stats),
            ScanActionV::Execute(left[0]),
        )
    } else {
        (ScanStageV::Counting(stats), ScanActionV::Query(waiting_count(dict_code)))
    }
}

/// How a scan is answered: what is new, what waited already, and how much waits now.
pub open spec fn scan_value(stats: InsertStats, waiting: i64) -> JsonV {
    let o = obj_put(Seq::empty(), "newFindings"@, JsonV::Num(NumberV::PosInt(stats.inserted)));
    let o = obj_put(o, "skipped"@, JsonV::Num(NumberV::PosInt(stats.skipped)));
    JsonV::Obj(obj_put(o, "pendingTotal"@, JsonV::Num(number_of(waiting))))
}

/// One step of a scan: the records are compared, the clusters that do not wait already are
/// entered, and what waits now is counted.
pub open spec fn scan_step(stage: ScanStageV, event: ScanEventV) -> (ScanStageV, ScanActionV) {
    match (stage, event) {
        (_, ScanEventV::Failed(e)) => (ScanStageV::Over, ScanActionV::Fail(e)),
        (ScanStageV::Start(b, specs, rs), ScanEventV::Begin) => {
            let found = scanned(b, specs, rs);
            if found.len() == 0 {
                insert_step(
                    b.dict_code,
                    Seq::empty(),
                    InsertStats { inserted: 0, skipped: 0 },
                )
            } else {
                (
                    ScanStageV::Marks(b.dict_code, found),
                    ScanActionV::Query(marks_query(b.dict_code)),
                )
            }
        },
        (ScanStageV::Marks(dict, found), ScanEventV::Rows(rows)) => (
            ScanStageV::Ids(dict, found, column_texts(rows, "cluster_hash"@)),
            ScanActionV::NewIds(found.len()),
        ),
        (ScanStageV::Ids(dict, found, waiting), ScanEventV::Ids(ids)) => if ids.len()
            < found.len() {
            (ScanStageV::Over, ScanActionV::Fail("新 id 不足"@))
        } else {
            let new = findings(dict, found, waiting, ids);
            insert_step(
                dict,
                new,
                InsertStats {
                    inserted: new.len() as u64,
                    skipped: (found.len() - new.len()) as u64,
                },
            )
        },
        (ScanStageV::Inserting(dict, left, stats), ScanEventV::Changed(_)) => insert_step(
            dict,
            left,
            stats,
        ),
        (ScanStageV::Counting(stats), ScanEventV::Rows(rows)) => (
            ScanStageV::Over,
            ScanActionV::Answer(scan_value(stats, total_in(rows))),
        ),
        _ => (ScanStageV::Over, ScanActionV::Fail("扫描步骤与事件不符"@)),
    }
}

fn next_insert(dict: String, inserts: Vec<Statement>, stats: InsertStats) -> (r: (
    ScanStage,
    ScanAction,
))
    ensures
        (r.0@, r.1@) == insert_step(dict@, statements_view(inserts@), stats),
{
    let mut left: Vec<Statement> = inserts;
    assert(left@.len() == statements_view(left@).len());
    if left.len() > 0 {
        let ghost all = left@;
        let s = left.remove(0);
        assert(statements_view(left@) =~= statements_view(all).drop_first());
        (ScanStage::Inserting(dict, left, stats), ScanAction::Execute(s))
    } else {
        assert(page_offset(1, 1) == 0) by {
            assert(page_or_default(1) == 1 && size_or_default(1) == 1);
        }
        let q = list_scans(Some(dict.as_str()), Some("pending"), 1, 1);
        (ScanStage::Counting(stats), ScanAction::Query(q.count))
    }
}

fn compare_all(b: &ScanRunBody, specs: &Vec<MatchFieldSpec>, rs: &Vec<MatchRecord>) -> (r: Vec<
    PreparedCluster,
>)
    ensures
        prepared_list(r@) == scanned(scan_view(*b), specs_view(specs@), records_view(rs@)),
{
    let keys = borrowed(&b.cluster_keys);
    let found = scan_clusters(rs.as_slice(), specs.as_slice(), keys.as_slice(), b.lowest_score());
    let ghost fv = found@.map_values(|c: DupCluster| c@);
    let p = prepare_clusters(&found);
    assert(prepared_list(p@) =~= Seq::new(fv.len(), |i: int| prepared_of(fv[i])));
    p
}

/// One step of a scan.
pub fn mdm_match_scan_run(stage: ScanStage, event: ScanEvent) -> (r: (ScanStage, ScanAction))
    ensures
        (r.0@, r.1@) == scan_step(stage@, event@),
{
    match (stage, event) {
        (_, ScanEvent::Failed(e)) => (ScanStage::Over, ScanAction::Fail(e)),
        (ScanStage::Start(b, specs, rs), ScanEvent::Begin) => {
            let found = compare_all(&b, &specs, &rs);
            assert(found@.len() == prepared_list(found@).len());
            if found.len() == 0 {
                let none: Vec<Statement> = Vec::new();
                assert(statements_view(none@) =~= Seq::<StatementV>::empty());
                next_insert(b.dict_code, none, InsertStats { inserted: 0, skipped: 0 })
            } else {
                let s = load_pending_hashes(b.dict_code.as_str());
                (ScanStage::Marks(b.dict_code, found), ScanAction::Query(s))
            }
        },
        (ScanStage::Marks(dict, found), ScanEvent::Rows(rows)) => {
            assert(found@.len() == prepared_list(found@).len());
            let n: usize = found.len();
            let waiting = texts_of_column(&rows, "cluster_hash");
            (ScanStage::Ids(dict, found, waiting), ScanAction::NewIds(n))
        },
        (ScanStage::Ids(dict, found, waiting), ScanEvent::Ids(ids)) => {
            assert(found@.len() == prepared_list(found@).len());
            if ids.len() < found.len() {
                return (ScanStage::Over, ScanAction::Fail("新 id 不足".to_owned()));
            }
            let plan = insert_findings(dict.as_str(), &found, &waiting, ids.as_slice());
            assert(plan.inserts@.len() == statements_view(plan.inserts@).len());
            next_insert(dict, plan.inserts, plan.stats)
        },
        (ScanStage::Inserting(dict, left, stats), ScanEvent::Changed(_)) => next_insert(
            dict,
            left,
            stats,
        ),
        (ScanStage::Counting(stats), ScanEvent::Rows(rows)) => (
            ScanStage::Over,
            ScanAction::Answer(scan_answer(stats, total_of(&rows))),
        ),
        _ => (
            ScanStage::Over,
            ScanAction::Fail("扫描步骤与事件不符".to_owned()),
        ),
    }
}

/// A scan enters only clusters that do not wait already, each under an id of its own.
pub proof fn law_findings_are_new(
    dict_code: Seq<char>,
    found: Seq<PreparedV>,
    waiting: Seq<Seq<char>>,
    ids: Seq<i64>,
    i: int,
)
    requires
        0 <= i < findings(dict_code, found, waiting, ids).len(),
    ensures
        findings(dict_code, found, waiting, ids)[i].params[0] == SqlV::Int(ids[i]),
        findings(dict_code, found, waiting, ids)[i].params[3] matches SqlV::Text(h)
            && !waiting.contains(h),
    decreases found.len(),
{
    if found.len() > 0 {
        let r = findings(dict_code, found.drop_last(), waiting, ids);
        if i < r.len() {
            law_findings_are_new(dict_code, found.drop_last(), waiting, ids, i);
        }
    }
}

/// No two findings of a scan have the same members: no mark is entered twice.
pub proof fn law_findings_differ(
    dict_code: Seq<char>,
    found: Seq<PreparedV>,
    waiting: Seq<Seq<char>>,
    ids: Seq<i64>,
    i: int,
    j: int,
)
    requires
        0 <= i < j < findings(dict_code, found, waiting, ids).len(),
    ensures
        findings(dict_code, found, waiting, ids)[i].params[3] != findings(
            dict_code,
            found,
            waiting,
            ids,
        )[j].params[3],
    decreases found.len(),
{
    if found.len() > 0 {
        let d = found.drop_last();
        let r = findings(dict_code, d, waiting, ids);
        if j < r.len() {
            law_findings_differ(dict_code, d, waiting, ids, i, j);
        } else {
            lemma_finding_mark(dict_code, d, waiting, ids, i);
        }
    }
}

proof fn lemma_finding_mark(
    dict_code: Seq<char>,
    found: Seq<PreparedV>,
    waiting: Seq<Seq<char>>,
    ids: Seq<i64>,
    i: int,
)
    requires
        0 <= i < findings(dict_code, found, waiting, ids).len(),
    ensures
        findings(dict_code, found, waiting, ids)[i].params[3] matches SqlV::Text(h) && marked_in(
            found,
            h,
        ),
    decreases found.len(),
{
    if found.len() > 0 {
        let d = found.drop_last();
        let r = findings(dict_code, d, waiting, ids);
        if i < r.len() {
            lemma_finding_mark(dict_code, d, waiting, ids, i);
            let h = findings(dict_code, found, waiting, ids)[i].params[3]->Text_0;
            let n = choose|n: int|
                0 <= n < d.len() && cluster_mark((#[trigger] d[n]).member_ids) == h;
            assert(found[n] == d[n]);
        } else {
            assert(found[found.len() - 1] == found.last());
        }
    }
}

/// The score of a finding is the highest of its members, and none of them is below the lowest
/// score that was asked for; each finding has at least two members.
pub proof fn law_finding_score(b: ScanV, specs: Seq<FieldSpecV>, rs: Seq<RecordV>, i: int, m: int)
    requires
        0 <= i < scanned(b, specs, rs).len(),
        0 <= m < scanned(b, specs, rs)[i].member_ids.len(),
    ensures
        ({
            let c = clusters(rs, specs, b.cluster_keys, b.min_score)[i];
            let f = scanned(b, specs, rs)[i];
            f.member_ids.len() >= 2 && f.member_ids[m] == c.members[m].record_id && f.max_score
                >= c.members[m].score && c.members[m].score >= b.min_score && f.max_score
                == c.members[0].score
        }),
{
    law_clusters(rs, specs, b.cluster_keys, b.min_score);
    let c = clusters(rs, specs, b.cluster_keys, b.min_score)[i];
    assert(cluster_ok(c, b.min_score));
    assert(c.members[0].score >= c.members[m].score);
}

} // verus!
