//! What searches and scans find: nothing but records of their input, and every duplicate within
//! a bucket that is not cut.

use crate::json::ObjV;
use crate::match_algo::{
    all_candidates, best_score, blank, block_candidates, block_clusters, blocks, blocks_for,
    bucket_key, bucket_keys, bucket_members, candidates, capped, clusters, decision_of, field_text,
    has_duplicates, has_id, hit_members, law_edit_distance_zero, law_similarity_bounded,
    law_similarity_symmetric, lemma_block_candidates, lemma_block_of, lemma_members_bucket,
    lemma_no_members, pair_hit, row_best, rows_best, score_sum, similarity, spec_counts, text_score,
    weight_sum, ClusterV, Decision, FieldSpecV, MatchCandidate, MemberV, RecordV, BLOCK_CAP,
};
use crate::order::{law_sort_desc, sort_desc};
use vstd::prelude::*;

verus! {

/// Sorting neither adds nor loses an item.
pub proof fn lemma_sorted_contains<T>(s: Seq<T>, score: spec_fn(T) -> int, x: T)
    ensures
        sort_desc(s, score).contains(x) <==> s.contains(x),
{
    law_sort_desc(s, score);
    s.to_multiset_ensures();
    sort_desc(s, score).to_multiset_ensures();
    assert(s.contains(x) <==> s.to_multiset().count(x) > 0);
    assert(sort_desc(s, score).contains(x) <==> sort_desc(s, score).to_multiset().count(x) > 0);
}

/// A record stands in its bucket, and a bucket holds nothing but records given.
pub proof fn lemma_members_contain(rs: Seq<RecordV>, keys: Seq<Seq<char>>, k: Seq<char>, r: RecordV)
    ensures
        bucket_members(rs, keys, k).contains(r) <==> rs.contains(r) && bucket_key(r.fields, keys)
            == Some(k),
    decreases rs.len(),
{
    if rs.len() > 0 {
        let d = rs.drop_last();
        let g = bucket_members(d, keys, k);
        let m = bucket_members(rs, keys, k);
        lemma_members_contain(d, keys, k, r);
        if g.contains(r) {
            let i = choose|i: int| 0 <= i < g.len() && g[i] == r;
            assert(m[i] == r);
        }
        if d.contains(r) {
            let i = choose|i: int| 0 <= i < d.len() && d[i] == r;
            assert(rs[i] == r);
        }
        if r == rs.last() && bucket_key(r.fields, keys) == Some(k) {
            assert(m[m.len() - 1] == r);
        }
        if m.contains(r) {
            let i = choose|i: int| 0 <= i < m.len() && m[i] == r;
            if i < g.len() {
                assert(g[i] == r);
            } else {
                assert(rs[rs.len() - 1] == r);
            }
        }
        if rs.contains(r) && !d.contains(r) {
            let i = choose|i: int| 0 <= i < rs.len() && rs[i] == r;
            if i < d.len() {
                assert(d[i] == r);
            }
        }
    }
}

/// The block of a bucket is among the blocks, where the bucket has two records.
proof fn lemma_blocks_for_contain(
    rs: Seq<RecordV>,
    keys: Seq<Seq<char>>,
    ks: Seq<Seq<char>>,
    k: Seq<char>,
)
    requires
        ks.contains(k),
        capped(bucket_members(rs, keys, k)).len() > 1,
    ensures
        blocks_for(rs, keys, ks).contains(capped(bucket_members(rs, keys, k))),
    decreases ks.len(),
{
    let b = capped(bucket_members(rs, keys, k));
    let bs = blocks_for(rs, keys, ks.drop_last());
    let all = blocks_for(rs, keys, ks);
    if ks.last() == k {
        assert(all[all.len() - 1] == b);
    } else {
        let i = choose|i: int| 0 <= i < ks.len() && ks[i] == k;
        assert(ks.drop_last()[i] == k);
        lemma_blocks_for_contain(rs, keys, ks.drop_last(), k);
        let j = choose|j: int| 0 <= j < bs.len() && bs[j] == b;
        assert(all[j] == b);
    }
}

/// Two records of one bucket that is not cut stand in one block, which is the whole bucket.
proof fn lemma_shared_block(
    rs: Seq<RecordV>,
    keys: Seq<Seq<char>>,
    k: Seq<char>,
    p: RecordV,
    q: RecordV,
)
    requires
        rs.contains(p),
        rs.contains(q),
        p.id != q.id,
        bucket_key(p.fields, keys) == Some(k),
        bucket_key(q.fields, keys) == Some(k),
        bucket_members(rs, keys, k).len() <= BLOCK_CAP,
    ensures
        blocks(rs, keys).contains(bucket_members(rs, keys, k)),
        bucket_members(rs, keys, k).contains(p),
        bucket_members(rs, keys, k).contains(q),
{
    let b = bucket_members(rs, keys, k);
    lemma_members_contain(rs, keys, k, p);
    lemma_members_contain(rs, keys, k, q);
    let i = choose|i: int| 0 <= i < b.len() && b[i] == p;
    let j = choose|j: int| 0 <= j < b.len() && b[j] == q;
    assert(i != j);
    if !bucket_keys(rs, keys).contains(k) {
        lemma_no_members(rs, keys, k);
    }
    lemma_blocks_for_contain(rs, keys, bucket_keys(rs, keys), k);
}

/// What a record is shown as when a search finds it.
pub open spec fn as_candidate(
    target: RecordV,
    r: RecordV,
    specs: Seq<FieldSpecV>,
) -> MatchCandidate {
    MatchCandidate {
        record_id: r.id,
        score: similarity(target.fields, r.fields, specs) as u8,
        decision: decision_of(similarity(target.fields, r.fields, specs)),
    }
}

proof fn lemma_block_finds(target: RecordV, b: Seq<RecordV>, specs: Seq<FieldSpecV>, r: RecordV)
    requires
        b.contains(r),
        r.id != target.id,
        similarity(target.fields, r.fields, specs) >= 80,
    ensures
        block_candidates(target, b, specs).contains(as_candidate(target, r, specs)),
    decreases b.len(),
{
    let c = as_candidate(target, r, specs);
    let cs = block_candidates(target, b.drop_last(), specs);
    let all = block_candidates(target, b, specs);
    if b.last() == r {
        assert(all[all.len() - 1] == c);
    } else {
        let i = choose|i: int| 0 <= i < b.len() && b[i] == r;
        assert(b.drop_last()[i] == r);
        lemma_block_finds(target, b.drop_last(), specs, r);
        let j = choose|j: int| 0 <= j < cs.len() && cs[j] == c;
        assert(all[j] == c);
    }
}

proof fn lemma_blocks_find(
    target: RecordV,
    bs: Seq<Seq<RecordV>>,
    specs: Seq<FieldSpecV>,
    b: Seq<RecordV>,
    c: MatchCandidate,
)
    requires
        bs.contains(b),
        has_id(b, target.id),
        block_candidates(target, b, specs).contains(c),
    ensures
        all_candidates(target, bs, specs).contains(c),
    decreases bs.len(),
{
    let cs = all_candidates(target, bs.drop_last(), specs);
    let all = all_candidates(target, bs, specs);
    if bs.last() == b {
        let own = block_candidates(target, b, specs);
        let j = choose|j: int| 0 <= j < own.len() && own[j] == c;
        assert(all[cs.len() + j] == c);
    } else {
        let i = choose|i: int| 0 <= i < bs.len() && bs[i] == b;
        assert(bs.drop_last()[i] == b);
        lemma_blocks_find(target, bs.drop_last(), specs, b, c);
        let j = choose|j: int| 0 <= j < cs.len() && cs[j] == c;
        assert(all[j] == c);
    }
}

/// A candidate comes out of one of the blocks.
proof fn lemma_candidate_block(
    target: RecordV,
    bs: Seq<Seq<RecordV>>,
    specs: Seq<FieldSpecV>,
    c: MatchCandidate,
) -> (i: int)
    requires
        all_candidates(target, bs, specs).contains(c),
    ensures
        0 <= i < bs.len(),
        block_candidates(target, bs[i], specs).contains(c),
    decreases bs.len(),
{
    let all = all_candidates(target, bs, specs);
    let j = choose|j: int| 0 <= j < all.len() && all[j] == c;
    let cs = all_candidates(target, bs.drop_last(), specs);
    if j < cs.len() {
        assert(cs[j] == c);
        lemma_candidate_block(target, bs.drop_last(), specs, c)
    } else {
        assert(block_candidates(target, bs.last(), specs)[j - cs.len()] == c);
        bs.len() - 1
    }
}

/// A search finds every duplicate: a record of the target's bucket, of another id, that scores
/// at least 80 is among the candidates, with its score, unless the bucket is so large that it is
/// cut.
pub proof fn law_duplicates_are_found(
    target: RecordV,
    all: Seq<RecordV>,
    specs: Seq<FieldSpecV>,
    keys: Seq<Seq<char>>,
    k: Seq<char>,
    r: RecordV,
)
    requires
        all.contains(r),
        r.id != target.id,
        bucket_key(target.fields, keys) == Some(k),
        bucket_key(r.fields, keys) == Some(k),
        bucket_members(seq![target] + all, keys, k).len() <= BLOCK_CAP,
        similarity(target.fields, r.fields, specs) >= 80,
    ensures
        candidates(target, all, specs, keys).contains(as_candidate(target, r, specs)),
{
    let rs = seq![target] + all;
    let b = bucket_members(rs, keys, k);
    let i = choose|i: int| 0 <= i < all.len() && all[i] == r;
    assert(rs[i + 1] == r);
    assert(rs[0] == target);
    lemma_shared_block(rs, keys, k, target, r);
    let j = choose|j: int| 0 <= j < b.len() && b[j] == target;
    assert(has_id(b, target.id));
    lemma_block_finds(target, b, specs, r);
    let c = as_candidate(target, r, specs);
    lemma_blocks_find(target, blocks(rs, keys), specs, b, c);
    lemma_sorted_contains(
        all_candidates(target, blocks(rs, keys), specs),
        |c: MatchCandidate| c.score as int,
        c,
    );
}

/// A search finds nothing else: every candidate is a record of the input that has a bucket, with
/// the score of that record.
pub proof fn law_candidates_are_records(
    target: RecordV,
    all: Seq<RecordV>,
    specs: Seq<FieldSpecV>,
    keys: Seq<Seq<char>>,
    c: MatchCandidate,
)
    requires
        candidates(target, all, specs, keys).contains(c),
    ensures
        exists|r: RecordV| #[trigger]
            all.contains(r) && bucket_key(r.fields, keys) is Some && c == as_candidate(
                target,
                r,
                specs,
            ),
{
    let rs = seq![target] + all;
    let bs = blocks(rs, keys);
    lemma_sorted_contains(
        all_candidates(target, bs, specs),
        |c: MatchCandidate| c.score as int,
        c,
    );
    let i = lemma_candidate_block(target, bs, specs, c);
    let own = block_candidates(target, bs[i], specs);
    let j = choose|j: int| 0 <= j < own.len() && own[j] == c;
    lemma_block_candidates(target, bs[i], specs, j);
    let n = choose|n: int|
        0 <= n < bs[i].len() && (#[trigger] bs[i][n]).id == own[j].record_id && similarity(
            target.fields,
            bs[i][n].fields,
            specs,
        ) == own[j].score;
    let r = bs[i][n];
    lemma_block_of(rs, keys, bucket_keys(rs, keys), i);
    let k = choose|k: Seq<char>|
        bs[i] == capped(#[trigger] bucket_members(rs, keys, k)) && capped(
            bucket_members(rs, keys, k),
        ).len() > 1;
    lemma_members_bucket(rs, keys, k, n);
    assert(bucket_members(rs, keys, k)[n] == r);
    lemma_members_contain(rs, keys, k, r);
    let m = choose|m: int| 0 <= m < rs.len() && rs[m] == r;
    assert(r.id != target.id);
    assert(all[m - 1] == r);
    assert(all.contains(r));
    assert(c == as_candidate(target, r, specs));
}

/// A score is no less than another that may be missing.
pub open spec fn reaches(best: Option<u8>, s: u8) -> bool {
    best matches Some(x) && x >= s
}

proof fn lemma_row_reaches(
    b: Seq<RecordV>,
    specs: Seq<FieldSpecV>,
    min: u8,
    id: i64,
    i: int,
    k: int,
    j: int,
    s: u8,
)
    requires
        i < k < j,
        pair_hit(b, specs, min, id, i, k) == Some(s),
    ensures
        reaches(row_best(b, specs, min, id, i, j), s),
    decreases j - k,
{
    if k < j - 1 {
        lemma_row_reaches(b, specs, min, id, i, k, j - 1, s);
    }
}

proof fn lemma_rows_reach(
    b: Seq<RecordV>,
    specs: Seq<FieldSpecV>,
    min: u8,
    id: i64,
    i: int,
    n: int,
    s: u8,
)
    requires
        0 <= i < n,
        reaches(row_best(b, specs, min, id, i, b.len() as int), s),
    ensures
        reaches(rows_best(b, specs, min, id, n), s),
    decreases n - i,
{
    if i < n - 1 {
        lemma_rows_reach(b, specs, min, id, i, n - 1, s);
    }
}

/// Both records of a pair that reaches the minimum have a best score, no less than the pair's.
pub proof fn lemma_pair_scores(
    b: Seq<RecordV>,
    specs: Seq<FieldSpecV>,
    min: u8,
    p: RecordV,
    q: RecordV,
)
    requires
        b.contains(p),
        b.contains(q),
        p.id != q.id,
        similarity(p.fields, q.fields, specs) >= min,
    ensures
        reaches(best_score(b, specs, min, p.id), similarity(p.fields, q.fields, specs) as u8),
        reaches(best_score(b, specs, min, q.id), similarity(p.fields, q.fields, specs) as u8),
{
    law_similarity_bounded(p.fields, q.fields, specs);
    law_similarity_symmetric(p.fields, q.fields, specs);
    let s = similarity(p.fields, q.fields, specs) as u8;
    let x = choose|x: int| 0 <= x < b.len() && b[x] == p;
    let y = choose|y: int| 0 <= y < b.len() && b[y] == q;
    let i = if x < y {
        x
    } else {
        y
    };
    let j = if x < y {
        y
    } else {
        x
    };
    let n = b.len() as int;
    lemma_row_reaches(b, specs, min, p.id, i, j, n, s);
    lemma_rows_reach(b, specs, min, p.id, i, n, s);
    lemma_row_reaches(b, specs, min, q.id, i, j, n, s);
    lemma_rows_reach(b, specs, min, q.id, i, n, s);
}

proof fn lemma_hits_contain(
    b: Seq<RecordV>,
    specs: Seq<FieldSpecV>,
    min: u8,
    part: Seq<RecordV>,
    r: RecordV,
    s: u8,
)
    requires
        part.contains(r),
        best_score(b, specs, min, r.id) == Some(s),
    ensures
        hit_members(b, specs, min, part).contains(
            (MemberV { record_id: r.id, score: s, fields: r.fields }),
        ),
    decreases part.len(),
{
    let m = MemberV { record_id: r.id, score: s, fields: r.fields };
    let d = part.drop_last();
    let all = hit_members(b, specs, min, part);
    if part.last() == r {
        assert(all[all.len() - 1] == m);
    } else {
        let i = choose|i: int| 0 <= i < part.len() && part[i] == r;
        assert(d[i] == r);
        lemma_hits_contain(b, specs, min, d, r, s);
        let ms = hit_members(b, specs, min, d);
        let j = choose|j: int| 0 <= j < ms.len() && ms[j] == m;
        assert(all[j] == m);
    }
}

/// What a scan makes of a block with duplicates.
pub open spec fn cluster_of(
    b: Seq<RecordV>,
    specs: Seq<FieldSpecV>,
    keys: Seq<Seq<char>>,
    min: u8,
) -> ClusterV {
    ClusterV {
        cluster_key: match bucket_key(b[0].fields, keys) {
            Some(k) => k,
            None => Seq::empty(),
        },
        members: sort_desc(hit_members(b, specs, min, b), |m: MemberV| m.score as int),
    }
}

proof fn lemma_clusters_contain(
    bs: Seq<Seq<RecordV>>,
    specs: Seq<FieldSpecV>,
    keys: Seq<Seq<char>>,
    min: u8,
    b: Seq<RecordV>,
)
    requires
        bs.contains(b),
        has_duplicates(b, specs, min),
    ensures
        block_clusters(bs, specs, keys, min).contains(cluster_of(b, specs, keys, min)),
    decreases bs.len(),
{
    let c = cluster_of(b, specs, keys, min);
    let cs = block_clusters(bs.drop_last(), specs, keys, min);
    let all = block_clusters(bs, specs, keys, min);
    if bs.last() == b {
        assert(all[all.len() - 1] == c);
    } else {
        let i = choose|i: int| 0 <= i < bs.len() && bs[i] == b;
        assert(bs.drop_last()[i] == b);
        lemma_clusters_contain(bs.drop_last(), specs, keys, min, b);
        let j = choose|j: int| 0 <= j < cs.len() && cs[j] == c;
        assert(all[j] == c);
    }
}

/// Whether a cluster holds a record, with a score no less than `s`.
pub open spec fn cluster_holds(c: ClusterV, r: RecordV, s: nat) -> bool {
    exists|m: MemberV| #[trigger]
        c.members.contains(m) && m.record_id == r.id && m.fields == r.fields && m.score >= s
}

proof fn lemma_cluster_holds(
    b: Seq<RecordV>,
    specs: Seq<FieldSpecV>,
    keys: Seq<Seq<char>>,
    min: u8,
    r: RecordV,
    s: u8,
)
    requires
        b.contains(r),
        reaches(best_score(b, specs, min, r.id), s),
    ensures
        cluster_holds(cluster_of(b, specs, keys, min), r, s as nat),
{
    let best = best_score(b, specs, min, r.id).unwrap();
    let m = MemberV { record_id: r.id, score: best, fields: r.fields };
    lemma_hits_contain(b, specs, min, b, r, best);
    lemma_sorted_contains(hit_members(b, specs, min, b), |m: MemberV| m.score as int, m);
    assert(cluster_of(b, specs, keys, min).members.contains(m));
}

/// A scan finds every pair of duplicates: two records of one bucket, of different ids, that score
/// at least the minimum stand together in the cluster of that bucket, unless the bucket is so
/// large that it is cut.
pub proof fn law_duplicates_are_clustered(
    rs: Seq<RecordV>,
    specs: Seq<FieldSpecV>,
    keys: Seq<Seq<char>>,
    min: u8,
    k: Seq<char>,
    p: RecordV,
    q: RecordV,
)
    requires
        rs.contains(p),
        rs.contains(q),
        p.id != q.id,
        bucket_key(p.fields, keys) == Some(k),
        bucket_key(q.fields, keys) == Some(k),
        bucket_members(rs, keys, k).len() <= BLOCK_CAP,
        similarity(p.fields, q.fields, specs) >= min,
    ensures
        exists|c: ClusterV| #[trigger]
            clusters(rs, specs, keys, min).contains(c) && c.cluster_key == k && cluster_holds(
                c,
                p,
                similarity(p.fields, q.fields, specs),
            ) && cluster_holds(c, q, similarity(p.fields, q.fields, specs)),
{
    let b = bucket_members(rs, keys, k);
    let s = similarity(p.fields, q.fields, specs) as u8;
    law_similarity_bounded(p.fields, q.fields, specs);
    lemma_shared_block(rs, keys, k, p, q);
    lemma_pair_scores(b, specs, min, p, q);
    assert(has_duplicates(b, specs, min)) by {
        assert(best_score(b, specs, min, p.id) is Some);
        assert(best_score(b, specs, min, q.id) is Some);
    }
    let c = cluster_of(b, specs, keys, min);
    lemma_clusters_contain(blocks(rs, keys), specs, keys, min, b);
    lemma_sorted_contains(
        block_clusters(blocks(rs, keys), specs, keys, min),
        |c: ClusterV| crate::match_algo::cluster_score(c),
        c,
    );
    lemma_members_bucket(rs, keys, k, 0);
    lemma_cluster_holds(b, specs, keys, min, p, s);
    lemma_cluster_holds(b, specs, keys, min, q, s);
    assert(clusters(rs, specs, keys, min).contains(c));
}

/// A field that is blank on both sides is no evidence: it neither adds to the score nor weakens it.
pub proof fn law_blank_field_counts_nothing(
    a: ObjV,
    b: ObjV,
    specs: Seq<FieldSpecV>,
    s: FieldSpecV,
)
    requires
        blank(field_text(a, s.field)),
        blank(field_text(b, s.field)),
    ensures
        similarity(a, b, specs.push(s)) == similarity(a, b, specs),
{
    assert(specs.push(s).drop_last() =~= specs);
}

proof fn lemma_full_scores(a: ObjV, b: ObjV, specs: Seq<FieldSpecV>)
    requires
        forall|i: int|
            0 <= i < specs.len() ==> field_text(a, (#[trigger] specs[i]).field) == field_text(
                b,
                specs[i].field,
            ),
    ensures
        score_sum(a, b, specs) == 100 * weight_sum(a, b, specs),
    decreases specs.len(),
{
    if specs.len() > 0 {
        let d = specs.drop_last();
        assert forall|i: int| 0 <= i < d.len() implies field_text(a, (#[trigger] d[i]).field)
            == field_text(b, d[i].field) by {
            assert(d[i] == specs[i]);
        }
        lemma_full_scores(a, b, d);
        let s = specs[specs.len() - 1];
        assert(field_text(a, s.field) == field_text(b, s.field));
        if spec_counts(a, b, s) {
            let x = field_text(a, s.field).unwrap();
            law_edit_distance_zero(x, x);
            let n = x.len() as int;
            assert(100 * n / n == 100) by (nonlinear_arith)
                requires
                    n > 0,
            ;
            let t = text_score(s.kind, field_text(a, s.field), field_text(b, s.field));
            let w = s.weight as nat;
            assert(t * w == 100 * w) by (nonlinear_arith)
                requires
                    t == 100,
            ;
        }
    }
}

/// Records that agree in every field compared, at least one of them filled in and with a weight,
/// score 100 and are merged.
pub proof fn law_equal_records_merge(a: ObjV, b: ObjV, specs: Seq<FieldSpecV>)
    requires
        forall|i: int|
            0 <= i < specs.len() ==> field_text(a, (#[trigger] specs[i]).field) == field_text(
                b,
                specs[i].field,
            ),
        weight_sum(a, b, specs) > 0,
    ensures
        similarity(a, b, specs) == 100,
        decision_of(similarity(a, b, specs)) == Decision::AutoMerge,
{
    lemma_full_scores(a, b, specs);
    let w = weight_sum(a, b, specs) as int;
    assert(100 * w / w == 100) by (nonlinear_arith)
        requires
            w > 0,
    ;
}

} // verus!
