//! Findings of a scan for duplicates: a cluster that waits for a decision is not written twice.

use crate::merge_parts::{ids_json, ids_value};
use crate::order::{law_sort_desc, lemma_place_at, sort_desc};
use crate::outside::{hex_text, json_text, sha256, sha256_digest, value_text};
use crate::sql::{params_view, text_param, SqlV, SqlValue, Statement, StatementV};
use crate::store::dct_accessor::has_text;
use crate::store::match_group::count_by_status;
use crate::store::query::{
    build_page, filter_of, filter_text, opt_str, page_offset, page_query, statement, Filter,
    PageQuery, PageText,
};
use crate::json::{json_get, json_str, values_view, Json, JsonV};
use crate::text::{digit, digit_char, texts};
use crate::unmerge::statements_view;
use crate::match_algo::keys_view;
use crate::store::jsonb::{parse_rows, parsed_rows};
use vstd::prelude::*;
use vstd::relations::{sorted_by, total_ordering};
use vstd::seq_lib::lemma_sorted_unique;

verus! {

/// The larger an id, the further back it stands.
pub open spec fn backwards() -> spec_fn(i64) -> int {
    |x: i64| -(x as int)
}

/// Ids in ascending order.
pub open spec fn ascending(ids: Seq<i64>) -> Seq<i64> {
    sort_desc(ids, backwards())
}

/// Any two arrangements of the same ids have the same ascending order.
pub proof fn law_ascending(a: Seq<i64>, b: Seq<i64>)
    requires
        a.to_multiset() == b.to_multiset(),
    ensures
        ascending(a) == ascending(b),
{
    let score = backwards();
    let leq = |x: i64, y: i64| x <= y;
    law_sort_desc(a, score);
    law_sort_desc(b, score);
    let x = ascending(a);
    let y = ascending(b);
    assert(total_ordering(leq));
    assert forall|i: int, j: int| 0 <= i < j < x.len() implies leq(
        #[trigger] x[i],
        #[trigger] x[j],
    ) by {
        assert(score(x[i]) >= score(x[j]));
    }
    assert forall|i: int, j: int| 0 <= i < j < y.len() implies leq(
        #[trigger] y[i],
        #[trigger] y[j],
    ) by {
        assert(score(y[i]) >= score(y[j]));
    }
    assert(sorted_by(x, leq));
    assert(sorted_by(y, leq));
    lemma_sorted_unique(x, y, leq);
}

/// Puts ids in ascending order.
pub fn sort_ids(ids: &[i64]) -> (r: Vec<i64>)
    ensures
        r@ == ascending(ids@),
{
    let ghost score = backwards();
    let mut out: Vec<i64> = Vec::new();
    let mut i: usize = 0;
    assert(ids@.take(0) =~= Seq::<i64>::empty());
    while i < ids.len()
        invariant
            i <= ids@.len(),
            score == backwards(),
            out@ == sort_desc(ids@.take(i as int), score),
        decreases ids@.len() - i,
    {
        let x: i64 = ids[i];
        assert(ids@.take(i + 1).drop_last() =~= ids@.take(i as int));
        assert(ids@.take(i + 1).last() == x);
        proof {
            law_sort_desc(ids@.take(i as int), score);
        }
        let mut n: usize = 0;
        while n < out.len() && out[n] <= x
            invariant
                n <= out@.len(),
                score == backwards(),
                forall|j: int| 0 <= j < n ==> score(#[trigger] out@[j]) >= score(x),
            decreases out@.len() - n,
        {
            n += 1;
        }
        proof {
            lemma_place_at(out@, x, score, n as int);
        }
        out.insert(n, x);
        i += 1;
    }
    assert(ids@.take(ids@.len() as int) =~= ids@);
    out
}

/// The eight bytes of an id in two's complement, the lowest first.
pub open spec fn le_bytes(id: i64) -> Seq<u8> {
    let u: int = if id >= 0 {
        id as int
    } else {
        id + 0x1_0000_0000_0000_0000
    };
    seq![
        (u % 0x100) as u8,
        (u / 0x100 % 0x100) as u8,
        (u / 0x1_0000 % 0x100) as u8,
        (u / 0x100_0000 % 0x100) as u8,
        (u / 0x1_0000_0000 % 0x100) as u8,
        (u / 0x100_0000_0000 % 0x100) as u8,
        (u / 0x1_0000_0000_0000 % 0x100) as u8,
        (u / 0x100_0000_0000_0000 % 0x100) as u8,
    ]
}

/// The bytes of some ids, one behind the other.
pub open spec fn ids_bytes(ids: Seq<i64>) -> Seq<u8>
    decreases ids.len(),
{
    if ids.len() == 0 {
        Seq::empty()
    } else {
        ids_bytes(ids.drop_last()) + le_bytes(ids.last())
    }
}

fn push_id(out: &mut Vec<u8>, id: i64)
    ensures
        final(out)@ == old(out)@ + le_bytes(id),
{
    let ghost before = out@;
    let u: u64 = if id >= 0 {
        id as u64
    } else {
        0xffff_ffff_ffff_ffff - (-(id + 1)) as u64
    };
    out.push((u % 0x100) as u8);
    out.push((u / 0x100 % 0x100) as u8);
    out.push((u / 0x1_0000 % 0x100) as u8);
    out.push((u / 0x100_0000 % 0x100) as u8);
    out.push((u / 0x1_0000_0000 % 0x100) as u8);
    out.push((u / 0x100_0000_0000 % 0x100) as u8);
    out.push((u / 0x1_0000_0000_0000 % 0x100) as u8);
    out.push((u / 0x100_0000_0000_0000 % 0x100) as u8);
    assert(out@ =~= before + le_bytes(id));
}

/// The bytes that stand for a cluster, whatever the order of its members.
pub fn cluster_bytes(member_ids: &[i64]) -> (r: Vec<u8>)
    ensures
        r@ == ids_bytes(ascending(member_ids@)),
{
    let sorted = sort_ids(member_ids);
    let mut out: Vec<u8> = Vec::new();
    let mut i: usize = 0;
    assert(sorted@.take(0) =~= Seq::<i64>::empty());
    while i < sorted.len()
        invariant
            i <= sorted@.len(),
            out@ == ids_bytes(sorted@.take(i as int)),
        decreases sorted@.len() - i,
    {
        assert(sorted@.take(i + 1).drop_last() =~= sorted@.take(i as int));
        push_id(&mut out, sorted[i]);
        i += 1;
    }
    assert(sorted@.take(sorted@.len() as int) =~= sorted@);
    out
}

/// Bytes as pairs of hexadecimal digits in lower case.
pub fn hex_encode(bytes: &[u8]) -> (r: String)
    ensures
        r@ == hex_text(bytes@),
{
    let mut out: String = String::new();
    let mut i: usize = 0;
    assert(bytes@.take(0) =~= Seq::<u8>::empty());
    assert(out@ =~= Seq::<char>::empty());
    while i < bytes.len()
        invariant
            i <= bytes@.len(),
            out@ == hex_text(bytes@.take(i as int)),
        decreases bytes@.len() - i,
    {
        let b: u8 = bytes[i];
        let ghost before = out@;
        assert(bytes@.take(i + 1).drop_last() =~= bytes@.take(i as int));
        out.push(digit((b / 16) as u64));
        out.push(digit((b % 16) as u64));
        assert(out@ =~= before + seq![digit_char((b / 16) as nat), digit_char((b % 16) as nat)]);
        i += 1;
    }
    assert(bytes@.take(bytes@.len() as int) =~= bytes@);
    out
}

/// The first half of a digest, in hexadecimal.
pub open spec fn half_hex(digest: Seq<u8>) -> Seq<char> {
    hex_text(digest.take(16))
}

/// The first half of a digest, in hexadecimal.
pub fn short_hash(digest: &Vec<u8>) -> (r: String)
    requires
        digest@.len() >= 16,
    ensures
        r@ == half_hex(digest@),
{
    let mut half: Vec<u8> = Vec::new();
    let mut i: usize = 0;
    while i < 16
        invariant
            i <= 16,
            digest@.len() >= 16,
            half@ == digest@.take(i as int),
        decreases 16 - i,
    {
        half.push(digest[i]);
        i += 1;
        assert(half@ =~= digest@.take(i as int));
    }
    hex_encode(half.as_slice())
}

/// What stands for a set of members, in 32 characters.
pub open spec fn cluster_mark(ids: Seq<i64>) -> Seq<char> {
    half_hex(sha256(ids_bytes(ascending(ids))))
}

/// What stands for a set of members.
pub fn cluster_hash(member_ids: &[i64]) -> (r: String)
    ensures
        r@ == cluster_mark(member_ids@),
        r@.len() == 32,
{
    let digest = sha256_digest(cluster_bytes(member_ids).as_slice());
    let r = short_hash(&digest);
    proof {
        lemma_hex_len(digest@.take(16));
    }
    r
}

proof fn lemma_hex_len(b: Seq<u8>)
    ensures
        hex_text(b).len() == 2 * b.len(),
    decreases b.len(),
{
    if b.len() > 0 {
        lemma_hex_len(b.drop_last());
    }
}

/// The order of the members does not matter.
pub proof fn law_cluster_mark(a: Seq<i64>, b: Seq<i64>)
    requires
        a.to_multiset() == b.to_multiset(),
    ensures
        cluster_mark(a) == cluster_mark(b),
{
    law_ascending(a, b);
}

/// A cluster to be written.
#[derive(Debug)]
pub struct PreparedCluster {
    pub cluster_key: String,
    pub member_ids: Vec<i64>,
    pub max_score: u8,
}

/// What a cluster to be written stands for.
#[verifier::ext_equal]
pub struct PreparedV {
    pub cluster_key: Seq<char>,
    pub member_ids: Seq<i64>,
    pub max_score: u8,
}

impl PreparedCluster {
    pub open spec fn view(&self) -> PreparedV {
        PreparedV {
            cluster_key: self.cluster_key@,
            member_ids: self.member_ids@,
            max_score: self.max_score,
        }
    }
}

/// The views of a list of clusters.
pub open spec fn prepared_list(c: Seq<PreparedCluster>) -> Seq<PreparedV> {
    Seq::new(c.len(), |i: int| c[i]@)
}

/// How many clusters were written, and how many wait already.
#[derive(Debug, Clone, Copy, PartialEq, Eq, Structural)]
pub struct InsertStats {
    pub inserted: u64,
    pub skipped: u64,
}

/// The marks of the clusters of a dictionary that wait.
pub fn load_pending_hashes(dict_code: &str) -> (r: Statement)
    ensures
        r.sql@
            == "SELECT cluster_hash FROM md_match_scan WHERE dict_code = $1 AND status = 'pending'"@,
        params_view(r.params@) == seq![SqlV::Text(dict_code@)],
{
    let mut params: Vec<SqlValue> = Vec::new();
    params.push(text_param(dict_code));
    assert(params_view(params@) =~= seq![SqlV::Text(dict_code@)]);
    statement(
        "SELECT cluster_hash FROM md_match_scan WHERE dict_code = $1 AND status = 'pending'",
        params,
    )
}

/// The texts of one column, row by row; rows without one are left out.
pub open spec fn column_texts(rows: Seq<JsonV>, column: Seq<char>) -> Seq<Seq<char>>
    decreases rows.len(),
{
    if rows.len() == 0 {
        Seq::empty()
    } else {
        let r = column_texts(rows.drop_last(), column);
        match json_str(json_get(rows.last(), column)) {
            Some(s) => r.push(s),
            None => r,
        }
    }
}

/// The texts of one column, row by row.
pub fn texts_of_column(rows: &Vec<Json>, column: &str) -> (r: Vec<String>)
    ensures
        texts(r@) == column_texts(values_view(rows@), column@),
{
    let ghost all = values_view(rows@);
    let mut out: Vec<String> = Vec::new();
    let mut i: usize = 0;
    assert(all.take(0) =~= Seq::<JsonV>::empty());
    assert(texts(out@) =~= Seq::<Seq<char>>::empty());
    while i < rows.len()
        invariant
            i <= rows@.len(),
            all == values_view(rows@),
            texts(out@) == column_texts(all.take(i as int), column@),
        decreases rows@.len() - i,
    {
        let ghost before = out@;
        assert(all.take(i + 1).drop_last() =~= all.take(i as int));
        assert(all.take(i + 1).last() == rows@[i as int]@);
        if let Some(Json::Str(s)) = rows[i].get(column) {
            out.push(s.clone());
            assert(texts(out@) =~= texts(before).push(s@));
        }
        i += 1;
    }
    assert(all.take(all.len() as int) =~= all);
    out
}

/// The insert of one cluster.
pub open spec fn finding_statement(id: i64, dict_code: Seq<char>, c: PreparedV) -> StatementV {
    StatementV {
        sql: "INSERT INTO md_match_scan (id, dict_code, cluster_key, cluster_hash, member_ids, member_count, max_score, status) VALUES ($1,$2,$3,$4,$5,$6,$7,'pending')"@,
        params: seq![
            SqlV::Int(id),
            SqlV::Text(dict_code),
            SqlV::Text(c.cluster_key),
            SqlV::Text(cluster_mark(c.member_ids)),
            SqlV::Json(json_text(ids_json(c.member_ids))),
            SqlV::Int(c.member_ids.len() as i64),
            SqlV::Int(c.max_score as i64),
        ],
    }
}

/// Whether one of some clusters has a mark.
pub open spec fn marked_in(clusters: Seq<PreparedV>, mark: Seq<char>) -> bool {
    exists|i: int|
        0 <= i < clusters.len() && cluster_mark((#[trigger] clusters[i]).member_ids) == mark
}

/// The inserts of the clusters that do not wait already, under the next ids: of the clusters with
/// the same members the first.
pub open spec fn findings(
    dict_code: Seq<char>,
    clusters: Seq<PreparedV>,
    waiting: Seq<Seq<char>>,
    ids: Seq<i64>,
) -> Seq<StatementV>
    decreases clusters.len(),
{
    if clusters.len() == 0 {
        Seq::empty()
    } else {
        let r = findings(dict_code, clusters.drop_last(), waiting, ids);
        let mark = cluster_mark(clusters.last().member_ids);
        if waiting.contains(mark) || marked_in(clusters.drop_last(), mark) {
            r
        } else {
            r.push(finding_statement(ids[r.len() as int], dict_code, clusters.last()))
        }
    }
}

fn insert_finding(id: i64, dict_code: &str, c: &PreparedCluster, hash: String) -> (r: Statement)
    requires
        hash@ == cluster_mark(c@.member_ids),
    ensures
        r@ == finding_statement(id, dict_code@, c@),
{
    let mut params: Vec<SqlValue> = Vec::new();
    params.push(SqlValue::Int(id));
    params.push(text_param(dict_code));
    params.push(text_param(c.cluster_key.as_str()));
    params.push(SqlValue::Text(hash));
    params.push(SqlValue::Json(value_text(&ids_value(&c.member_ids))));
    params.push(SqlValue::Int(c.member_ids.len() as i64));
    params.push(SqlValue::Int(c.max_score as i64));
    assert(params_view(params@) =~= finding_statement(id, dict_code@, c@).params);
    statement(
        "INSERT INTO md_match_scan (id, dict_code, cluster_key, cluster_hash, member_ids, member_count, max_score, status) VALUES ($1,$2,$3,$4,$5,$6,$7,'pending')",
        params,
    )
}

/// What is written of the clusters found.
#[derive(Debug)]
pub struct FindingsPlan {
    pub inserts: Vec<Statement>,
    pub stats: InsertStats,
}

/// Writes the clusters that do not wait already, each member set once; counts the others.
pub fn insert_findings(
    dict_code: &str,
    clusters: &Vec<PreparedCluster>,
    waiting: &Vec<String>,
    ids: &[i64],
) -> (r: FindingsPlan)
    requires
        clusters@.len() <= ids@.len(),
    ensures
        statements_view(r.inserts@) == findings(
            dict_code@,
            prepared_list(clusters@),
            texts(waiting@),
            ids@,
        ),
        r.stats.inserted == r.inserts@.len(),
        r.stats.inserted + r.stats.skipped == clusters@.len(),
{
    let ghost all = prepared_list(clusters@);
    let mut inserts: Vec<Statement> = Vec::new();
    let mut marks: Vec<String> = Vec::new();
    let mut skipped: u64 = 0;
    let mut i: usize = 0;
    assert(all.take(0) =~= Seq::<PreparedV>::empty());
    assert(statements_view(inserts@) =~= Seq::<StatementV>::empty());
    while i < clusters.len()
        invariant
            i <= clusters.len(),
            clusters@.len() <= ids@.len(),
            all == prepared_list(clusters@),
            texts(marks@) == Seq::new(i as nat, |j: int| cluster_mark(all[j].member_ids)),
            statements_view(inserts@) == findings(
                dict_code@,
                all.take(i as int),
                texts(waiting@),
                ids@,
            ),
            inserts@.len() + skipped == i,
        decreases clusters@.len() - i,
    {
        let c = &clusters[i];
        let ghost before = inserts@;
        assert(all.take(i + 1).drop_last() =~= all.take(i as int));
        assert(all.take(i + 1).last() == c@);
        assert(inserts@.len() == statements_view(inserts@).len());
        let hash = cluster_hash(c.member_ids.as_slice());
        let again = has_text(&marks, hash.as_str());
        proof {
            let front = all.take(i as int);
            if again {
                let j = choose|j: int| 0 <= j < i && texts(marks@)[j] == hash@;
                assert(front[j] == all[j]);
                assert(marked_in(front, hash@));
            } else if marked_in(front, hash@) {
                let j = choose|j: int|
                    0 <= j < front.len() && cluster_mark((#[trigger] front[j]).member_ids)
                        == hash@;
                assert(texts(marks@)[j] == hash@);
            }
        }
        let ghost earlier = marks@;
        marks.push(hash.clone());
        assert(texts(marks@) =~= texts(earlier).push(hash@));
        assert(texts(marks@) =~= Seq::new(
            (i + 1) as nat,
            |j: int| cluster_mark(all[j].member_ids),
        ));
        if again || has_text(waiting, hash.as_str()) {
            skipped += 1;
        } else {
            let s = insert_finding(ids[inserts.len()], dict_code, c, hash);
            let ghost sv = s@;
            inserts.push(s);
            assert(statements_view(inserts@) =~= statements_view(before).push(sv));
        }
        i += 1;
    }
    assert(all.take(all.len() as int) =~= all);
    let inserted: u64 = inserts.len() as u64;
    FindingsPlan { inserts, stats: InsertStats { inserted, skipped } }
}

/// The number of clusters in each state.
pub fn count_scan_by_status(dict_code: Option<&str>) -> (r: Statement)
    ensures
        match opt_str(dict_code) {
            Some(d) => r.sql@ == "SELECT status, COUNT(*)::bigint AS c FROM "@ + "md_match_scan"@
                + " WHERE dict_code = $1 GROUP BY status"@ && params_view(r.params@) == seq![
                SqlV::Text(d),
            ],
            None => r.sql@ == "SELECT status, COUNT(*)::bigint AS c FROM "@ + "md_match_scan"@
                + " GROUP BY status"@ && r.params@.len() == 0,
        },
{
    count_by_status("md_match_scan", dict_code)
}

/// A page of clusters, the surest first.
pub fn list_scans(dict_code: Option<&str>, status: Option<&str>, page: i64, page_size: i64) -> (r:
    PageQuery)
    requires
        page_offset(page, page_size) <= i64::MAX,
    ensures
        r@ == page_query(
            "md_match_scan"@,
            "id, dict_code, cluster_key, member_ids, member_count, max_score, status, scaned_at, resolved_at, resolved_by, created_at"@,
            "md_match_scan"@,
            "max_score DESC, created_at DESC, id DESC"@,
            filter_text(
                filter_text(filter_of("1=1"@), "dict_code = "@, opt_str(dict_code)),
                "status = "@,
                opt_str(status),
            ),
            page,
            page_size,
        ),
{
    let mut f = Filter::new("1=1");
    f.text("dict_code = ", dict_code);
    f.text("status = ", status);
    let t = PageText {
        count_from: "md_match_scan",
        columns: "id, dict_code, cluster_key, member_ids, member_count, max_score, status, scaned_at, resolved_at, resolved_by, created_at",
        list_from: "md_match_scan",
        order: "max_score DESC, created_at DESC, id DESC",
    };
    build_page(&t, f, page, page_size)
}

/// A cluster by id.
pub fn get_scan(scan_id: i64) -> (r: Statement)
    ensures
        r.sql@
            == "SELECT id, dict_code, cluster_key, member_ids, member_count, max_score, status, scaned_at, resolved_at, resolved_by, created_at FROM md_match_scan WHERE id = $1"@,
        params_view(r.params@) == seq![SqlV::Int(scan_id)],
{
    let mut params: Vec<SqlValue> = Vec::new();
    params.push(SqlValue::Int(scan_id));
    assert(params_view(params@) =~= seq![SqlV::Int(scan_id)]);
    statement(
        "SELECT id, dict_code, cluster_key, member_ids, member_count, max_score, status, scaned_at, resolved_at, resolved_by, created_at FROM md_match_scan WHERE id = $1",
        params,
    )
}

/// Moves a cluster from one state to another, with who did it; it changes nothing in a third.
pub fn transition_scan_status(scan_id: i64, from: &str, to: &str, operated_by: i64) -> (r:
    Statement)
    ensures
        r.sql@
            == "UPDATE md_match_scan SET status = $1, resolved_at = now(), resolved_by = $4 WHERE id = $2 AND status = $3"@,
        params_view(r.params@) == seq![
            SqlV::Text(to@),
            SqlV::Int(scan_id),
            SqlV::Text(from@),
            SqlV::Int(operated_by),
        ],
{
    let mut params: Vec<SqlValue> = Vec::new();
    params.push(text_param(to));
    params.push(SqlValue::Int(scan_id));
    params.push(text_param(from));
    params.push(SqlValue::Int(operated_by));
    assert(params_view(params@) =~= seq![
        SqlV::Text(to@),
        SqlV::Int(scan_id),
        SqlV::Text(from@),
        SqlV::Int(operated_by),
    ]);
    statement(
        "UPDATE md_match_scan SET status = $1, resolved_at = now(), resolved_by = $4 WHERE id = $2 AND status = $3",
        params,
    )
}

/// The findings, from the rows found: their members are read back.
pub fn read_scans(rows: &Vec<Json>) -> (r: Vec<Json>)
    ensures
        values_view(r@) == parsed_rows(values_view(rows@), seq!["member_ids"@]),
{
    let fields = ["member_ids"];
    assert(keys_view(fields@) =~= seq!["member_ids"@]);
    parse_rows(rows, fields.as_slice())
}

} // verus!
