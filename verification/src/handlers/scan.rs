//! Scans of a whole dictionary for duplicates.

use crate::handlers::dedup::{
    check_search, checked_search, columns_for, compared, fill_list, fill_text, list_else,
    push_all, push_fields, text_else, MatchConfigDefaults, SearchPlan,
};
use crate::distribution::registry::sorted_texts;
use crate::distribution::transform::{text_at, text_member};
use crate::handlers::{dtos_view, put, SpecDto};
use crate::json::{
    array, json_get, number_of, obj_put, values_view, Json, JsonV, Number, NumberV, Object,
};
use crate::match_algo::{specs_view, ClusterV, DupCluster, FieldSpecV, MatchRecord};
use crate::merge_parts::{about_id, ids_of, listed_ids};
use crate::sql::{SqlV, Statement};
use crate::store::scan_store::{
    prepared_list, transition_scan_status, InsertStats, PreparedCluster, PreparedV,
};
use crate::text::{dec_int, texts};
use vstd::prelude::*;

verus! {

/// A request for a scan.
#[derive(Debug)]
pub struct ScanRunBody {
    pub dict_code: String,
    pub target_table: String,
    pub specs: Vec<SpecDto>,
    pub cluster_keys: Vec<String>,
    pub survive_fields: Vec<String>,
    /// The lowest score of a pair; 80 unless set.
    pub min_score: Option<u8>,
}

/// A request for a page of findings.
#[derive(Debug)]
pub struct ScanListQuery {
    pub dict_code: Option<String>,
    pub status: Option<String>,
    pub page: i64,
    pub page_size: i64,
}

/// A request for one finding.
#[derive(Debug)]
pub struct ScanDetailQuery {
    pub scan_id: i64,
}

/// A request to ignore a finding.
#[derive(Debug)]
pub struct ScanIgnoreBody {
    pub scan_id: i64,
}

impl ScanRunBody {
    /// Whether a rule is asked for what the request leaves out.
    pub fn lacks_defaults(&self) -> (r: bool)
        ensures
            r == (self.target_table@.len() == 0 || self.specs@.len() == 0
                || self.cluster_keys@.len() == 0 || self.survive_fields@.len() == 0),
    {
        self.target_table.as_str().is_empty() || self.specs.len() == 0 || self.cluster_keys.len()
            == 0 || self.survive_fields.len() == 0
    }

    /// Takes from a rule what the request leaves out.
    pub fn fill(&mut self, d: MatchConfigDefaults)
        ensures
            final(self).dict_code == old(self).dict_code,
            final(self).min_score == old(self).min_score,
            final(self).target_table@ == text_else(old(self).target_table@, d.target_table@),
            final(self).specs@ == list_else(old(self).specs@, d.specs@),
            final(self).cluster_keys@ == list_else(old(self).cluster_keys@, d.cluster_keys@),
            final(self).survive_fields@ == list_else(
                old(self).survive_fields@,
                d.survive_fields@,
            ),
    {
        fill_text(&mut self.target_table, d.target_table);
        fill_list(&mut self.specs, d.specs);
        fill_list(&mut self.cluster_keys, d.cluster_keys);
        fill_list(&mut self.survive_fields, d.survive_fields);
    }

    /// The lowest score of a pair.
    pub fn lowest_score(&self) -> (r: u8)
        ensures
            r == (match self.min_score {
                Some(m) => m,
                None => 80u8,
            }),
    {
        match self.min_score {
            Some(m) => m,
            None => 80,
        }
    }
}

/// What a scan reads: what it compares, what brings records together, and what it keeps.
pub fn plan_scan(body: &ScanRunBody) -> (r: Result<SearchPlan, String>)
    ensures
        match r {
            Ok(p) => checked_search(
                dtos_view(body.specs@),
                body.target_table@,
                texts(body.cluster_keys@),
            ) == Ok::<Seq<FieldSpecV>, Seq<char>>(specs_view(p.specs@)) && columns_for(
                texts(p.columns@),
                seq!["id"@, "update_time"@] + compared(dtos_view(body.specs@)) + texts(
                    body.cluster_keys@,
                ) + texts(body.survive_fields@),
            ),
            Err(e) => checked_search(
                dtos_view(body.specs@),
                body.target_table@,
                texts(body.cluster_keys@),
            ) == Err::<Seq<FieldSpecV>, Seq<char>>(e@),
        },
{
    let specs = match check_search(&body.specs, body.target_table.as_str(), &body.cluster_keys) {
        Ok(s) => s,
        Err(e) => {
            return Err(e);
        },
    };
    let mut wanted: Vec<String> = Vec::new();
    wanted.push("id".to_owned());
    wanted.push("update_time".to_owned());
    assert(texts(wanted@) =~= seq!["id"@, "update_time"@]);
    push_fields(&mut wanted, &body.specs);
    push_all(&mut wanted, &body.cluster_keys);
    push_all(&mut wanted, &body.survive_fields);
    let columns = sorted_texts(&wanted);
    Ok(SearchPlan { specs, columns })
}

/// A cluster as it is written: its members' ids, and the score of the first of them.
pub open spec fn prepared_of(c: ClusterV) -> PreparedV {
    PreparedV {
        cluster_key: c.cluster_key,
        member_ids: Seq::new(c.members.len(), |i: int| c.members[i].record_id),
        max_score: if c.members.len() > 0 {
            c.members[0].score
        } else {
            0
        },
    }
}

fn prepare_cluster(c: &DupCluster) -> (r: PreparedCluster)
    ensures
        r@ == prepared_of(c@),
{
    let mut ids: Vec<i64> = Vec::new();
    let mut i: usize = 0;
    while i < c.members.len()
        invariant
            i <= c.members@.len(),
            ids@.len() == i,
            forall|k: int| 0 <= k < i ==> #[trigger] ids@[k] == c@.members[k].record_id,
        decreases c.members@.len() - i,
    {
        ids.push(c.members[i].record_id);
        i += 1;
    }
    let max_score: u8 = if c.members.len() > 0 {
        assert(c@.members[0] == c.members@[0]@);
        c.members[0].score
    } else {
        0
    };
    assert(ids@ =~= prepared_of(c@).member_ids);
    PreparedCluster { cluster_key: c.cluster_key.clone(), member_ids: ids, max_score }
}

/// The clusters found as they are written.
pub fn prepare_clusters(clusters: &Vec<DupCluster>) -> (r: Vec<PreparedCluster>)
    ensures
        prepared_list(r@) == Seq::new(clusters@.len(), |i: int| prepared_of(clusters@[i]@)),
{
    let mut out: Vec<PreparedCluster> = Vec::new();
    let mut i: usize = 0;
    while i < clusters.len()
        invariant
            i <= clusters@.len(),
            out@.len() == i,
            forall|k: int| 0 <= k < i ==> (#[trigger] out@[k])@ == prepared_of(clusters@[k]@),
        decreases clusters@.len() - i,
    {
        out.push(prepare_cluster(&clusters[i]));
        i += 1;
    }
    assert(prepared_list(out@) =~= Seq::new(
        clusters@.len(),
        |i: int| prepared_of(clusters@[i]@),
    ));
    out
}

/// Answers a scan: what is new, what waited already, and how much waits now.
pub fn scan_answer(stats: InsertStats, pending_total: i64) -> (r: Json)
    ensures
        r@ == JsonV::Obj(
            obj_put(
                obj_put(
                    obj_put(
                        Seq::empty(),
                        "newFindings"@,
                        JsonV::Num(NumberV::PosInt(stats.inserted)),
                    ),
                    "skipped"@,
                    JsonV::Num(NumberV::PosInt(stats.skipped)),
                ),
                "pendingTotal"@,
                JsonV::Num(number_of(pending_total)),
            ),
        ),
{
    let o = put(Object::new(), "newFindings", Json::Num(Number::PosInt(stats.inserted)));
    let o = put(o, "skipped", Json::Num(Number::PosInt(stats.skipped)));
    Json::Obj(put(o, "pendingTotal", Json::integer(pending_total)))
}

/// What is needed of a finding: its dictionary and its members.
#[derive(Debug)]
pub struct ScanParts {
    pub dict_code: String,
    pub member_ids: Vec<i64>,
}

/// What is needed of a finding, or that there is none.
pub fn scan_parts(scan: Option<&Json>, scan_id: i64) -> (r: Result<ScanParts, String>)
    ensures
        match r {
            Ok(p) => scan matches Some(v) && p.dict_code@ == text_at(v@, "dict_code"@)
                && p.member_ids@ == ids_of(json_get(v@, "member_ids"@)),
            Err(e) => scan is None && e@ == "发现项 "@ + dec_int(scan_id as int) + " 不存在"@,
        },
{
    match scan {
        None => Err(about_id("发现项 ", scan_id, " 不存在")),
        Some(v) => Ok(
            ScanParts {
                dict_code: text_member(v, "dict_code"),
                member_ids: listed_ids(v.get("member_ids")),
            },
        ),
    }
}

/// The values of some records.
pub open spec fn record_values(rs: Seq<MatchRecord>) -> Seq<JsonV> {
    Seq::new(rs.len(), |i: int| JsonV::Obj(rs[i].fields@))
}

/// The values of some records.
pub fn fields_of(rs: &Vec<MatchRecord>) -> (r: Json)
    ensures
        r@ == JsonV::Arr(record_values(rs@)),
{
    let mut a: Vec<Json> = Vec::new();
    let mut i: usize = 0;
    while i < rs.len()
        invariant
            i <= rs@.len(),
            a@.len() == i,
            forall|k: int| 0 <= k < i ==> (#[trigger] a@[k])@ == JsonV::Obj(rs@[k].fields@),
        decreases rs@.len() - i,
    {
        a.push(Json::Obj(rs[i].fields.clone()));
        i += 1;
    }
    assert(values_view(a@) =~= record_values(rs@));
    array(a)
}

/// Answers a request for one finding: the finding and its members.
pub fn mdm_match_scan_detail(scan: Json, members: &Vec<MatchRecord>) -> (r: Json)
    ensures
        r@ == JsonV::Obj(
            obj_put(
                obj_put(Seq::empty(), "scan"@, scan@),
                "members"@,
                JsonV::Arr(record_values(members@)),
            ),
        ),
{
    let o = put(Object::new(), "scan", scan);
    Json::Obj(put(o, "members", fields_of(members)))
}

/// Ignores a finding that waits.
pub fn ignore_scan(scan_id: i64, operated_by: i64) -> (r: Statement)
    ensures
        r.sql@
            == "UPDATE md_match_scan SET status = $1, resolved_at = now(), resolved_by = $4 WHERE id = $2 AND status = $3"@,
        r@.params == seq![
            SqlV::Text("ignored"@),
            SqlV::Int(scan_id),
            SqlV::Text("pending"@),
            SqlV::Int(operated_by),
        ],
{
    transition_scan_status(scan_id, "pending", "ignored", operated_by)
}

/// Answers a request to ignore a finding, given how many rows changed.
pub fn mdm_match_scan_ignore(scan_id: i64, changed: u64) -> (r: Result<Json, String>)
    ensures
        match r {
            Ok(v) => changed > 0 && v@ == JsonV::Obj(
                obj_put(
                    obj_put(Seq::empty(), "scanId"@, JsonV::Num(number_of(scan_id))),
                    "status"@,
                    JsonV::Str("ignored"@),
                ),
            ),
            Err(e) => changed == 0 && e@ == "发现项 "@ + dec_int(scan_id as int)
                + " 非 pending，不可忽略"@,
        },
{
    if changed == 0 {
        return Err(about_id("发现项 ", scan_id, " 非 pending，不可忽略"));
    }
    let o = put(Object::new(), "scanId", Json::integer(scan_id));
    Ok(Json::Obj(put(o, "status", Json::string("ignored"))))
}

} // verus!
