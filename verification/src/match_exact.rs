//! What searches and scans find, exactly: the doubles of a record, and the clusters of a list.

use crate::json::ObjV;
use crate::match_algo::{
    all_candidates, best_score, block_candidates, block_clusters, blocks, blocks_for, bucket_field,
    bucket_key, bucket_keys, bucket_members, candidates, capped, clusters, cluster_score, has_id,
    hit_members, law_bucket_field, law_similarity_bounded, law_similarity_symmetric,
    lemma_bucket_keys_ascend, lemma_members_bucket, lemma_no_members, pair_hit, row_best, rows_best,
    similarity, ClusterV, FieldSpecV, MatchCandidate, MemberV, RecordV, BLOCK_CAP,
};
use crate::match_laws::{
    as_candidate, cluster_holds, cluster_of, law_duplicates_are_clustered, law_duplicates_are_found,
    lemma_members_contain, lemma_pair_scores, lemma_sorted_contains,
};
use crate::order::{law_sort_desc, sort_desc};
use crate::text::{lemma_text_lt_irreflexive, text_lt};
use vstd::prelude::*;

verus! {

/// No two records have the same id.
pub open spec fn ids_differ(rs: Seq<RecordV>) -> bool {
    forall|i: int, j: int| 0 <= i < j < rs.len() ==> (#[trigger] rs[i]).id != (#[trigger] rs[j]).id
}

/// No cluster key has a colon in it.
pub open spec fn no_colon(keys: Seq<Seq<char>>) -> bool {
    forall|i: int| 0 <= i < keys.len() ==> !(#[trigger] keys[i]).contains(':')
}

/// Where a colon first stands.
proof fn lemma_same_split(a: Seq<char>, x: Seq<char>, b: Seq<char>, y: Seq<char>)
    requires
        !a.contains(':'),
        !b.contains(':'),
        a + seq![':'] + x == b + seq![':'] + y,
    ensures
        a == b,
        x == y,
{
    let s = a + seq![':'] + x;
    let t = b + seq![':'] + y;
    if a.len() < b.len() {
        assert(t[a.len() as int] == b[a.len() as int]);
        assert(s[a.len() as int] == ':');
        assert(b.contains(':'));
    }
    if b.len() < a.len() {
        assert(s[b.len() as int] == a[b.len() as int]);
        assert(t[b.len() as int] == ':');
        assert(a.contains(':'));
    }
    assert forall|i: int| 0 <= i < a.len() implies a[i] == b[i] by {
        assert(s[i] == t[i]);
    }
    assert(a =~= b);
    assert(s.len() == t.len());
    assert forall|i: int| 0 <= i < x.len() implies x[i] == y[i] by {
        assert(s[a.len() + 1 + i] == t[a.len() + 1 + i]);
    }
    assert(x =~= y);
}

/// Two records share a bucket exactly where the first cluster key that is filled is the same for
/// both and has the same text, as long as no cluster key has a colon in it.
pub proof fn law_bucket_is_first_key(a: ObjV, b: ObjV, keys: Seq<Seq<char>>)
    requires
        no_colon(keys),
    ensures
        bucket_key(a, keys) == bucket_key(b, keys) <==> bucket_field(a, keys) == bucket_field(
            b,
            keys,
        ),
{
    law_bucket_field(a, keys);
    law_bucket_field(b, keys);
    if let (Some((k, v)), Some((l, w))) = (bucket_field(a, keys), bucket_field(b, keys)) {
        let i = choose|i: int| 0 <= i < keys.len() && keys[i] == k;
        let j = choose|j: int| 0 <= j < keys.len() && keys[j] == l;
        assert(!keys[i].contains(':') && !keys[j].contains(':'));
        if bucket_key(a, keys) == bucket_key(b, keys) {
            lemma_same_split(k, v, l, w);
        }
    }
}

/// A double of the target: a record of another id in its bucket that scores at least 80.
pub open spec fn is_double(
    target: RecordV,
    r: RecordV,
    specs: Seq<FieldSpecV>,
    keys: Seq<Seq<char>>,
) -> bool {
    &&& r.id != target.id
    &&& bucket_key(target.fields, keys) is Some
    &&& bucket_key(r.fields, keys) == bucket_key(target.fields, keys)
    &&& similarity(target.fields, r.fields, specs) >= 80
}

proof fn lemma_members_differ(rs: Seq<RecordV>, keys: Seq<Seq<char>>, k: Seq<char>)
    requires
        ids_differ(rs),
    ensures
        ids_differ(bucket_members(rs, keys, k)),
    decreases rs.len(),
{
    if rs.len() > 0 {
        let d = rs.drop_last();
        let g = bucket_members(d, keys, k);
        let m = bucket_members(rs, keys, k);
        assert forall|i: int, j: int| 0 <= i < j < d.len() implies (#[trigger] d[i]).id != (
        #[trigger] d[j]).id by {
            assert(rs[i].id != rs[j].id);
        }
        lemma_members_differ(d, keys, k);
        assert forall|i: int, j: int| 0 <= i < j < m.len() implies (#[trigger] m[i]).id != (
        #[trigger] m[j]).id by {
            if j < g.len() {
                assert(g[i].id != g[j].id);
            } else {
                assert(g.contains(g[i]));
                lemma_members_contain(d, keys, k, g[i]);
                let n = choose|n: int| 0 <= n < d.len() && d[n] == g[i];
                assert(rs[n].id != rs[rs.len() - 1].id);
            }
        }
    }
}

/// Only the bucket `k` can hold the target's id: the candidates are those of that bucket.
proof fn lemma_one_block(
    target: RecordV,
    rs: Seq<RecordV>,
    specs: Seq<FieldSpecV>,
    keys: Seq<Seq<char>>,
    ks: Seq<Seq<char>>,
)
    requires
        forall|i: int|
            0 <= i < rs.len() && (#[trigger] rs[i]).id == target.id ==> bucket_key(
                rs[i].fields,
                keys,
            ) == bucket_key(target.fields, keys),
        forall|i: int, j: int| 0 <= i < j < ks.len() ==> #[trigger] ks[i] != #[trigger] ks[j],
        rs.contains(target),
        bucket_key(target.fields, keys) matches Some(k) ==> bucket_members(rs, keys, k).len()
            <= BLOCK_CAP,
    ensures
        all_candidates(target, blocks_for(rs, keys, ks), specs) == match bucket_key(
            target.fields,
            keys,
        ) {
            Some(k) => if ks.contains(k) {
                block_candidates(target, bucket_members(rs, keys, k), specs)
            } else {
                Seq::empty()
            },
            None => Seq::empty(),
        },
    decreases ks.len(),
{
    if ks.len() > 0 {
        let d = ks.drop_last();
        let last = ks.last();
        assert forall|i: int, j: int| 0 <= i < j < d.len() implies #[trigger] d[i] != #[trigger] d[j]
            by {
            assert(ks[i] != ks[j]);
        }
        lemma_one_block(target, rs, specs, keys, d);
        let b = capped(bucket_members(rs, keys, last));
        let bs = blocks_for(rs, keys, d);
        if bucket_key(target.fields, keys) == Some(last) {
            assert(!d.contains(last)) by {
                if d.contains(last) {
                    let n = choose|n: int| 0 <= n < d.len() && d[n] == last;
                    assert(ks[n] != ks[ks.len() - 1]);
                }
            }
            assert(ks.contains(last)) by {
                assert(ks[ks.len() - 1] == last);
            }
            lemma_members_contain(rs, keys, last, target);
            let n = choose|n: int| 0 <= n < b.len() && b[n] == target;
            assert(has_id(b, target.id));
            if b.len() > 1 {
                assert(blocks_for(rs, keys, ks).drop_last() =~= bs);
                assert(all_candidates(target, blocks_for(rs, keys, ks), specs)
                    =~= block_candidates(target, b, specs));
            } else {
                assert(b =~= seq![target]);
                assert(block_candidates(target, b.drop_last(), specs) =~= Seq::empty());
                assert(block_candidates(target, b, specs) =~= Seq::empty());
            }
        } else {
            assert(!has_id(b, target.id)) by {
                if has_id(b, target.id) {
                    let n = choose|n: int| 0 <= n < b.len() && (#[trigger] b[n]).id == target.id;
                    let m = bucket_members(rs, keys, last);
                    assert(m[n] == b[n]);
                    assert(m.contains(b[n]));
                    lemma_members_contain(rs, keys, last, b[n]);
                    let i = choose|i: int| 0 <= i < rs.len() && rs[i] == b[n];
                    assert(rs[i].id == target.id);
                }
            }
            if b.len() > 1 {
                assert(blocks_for(rs, keys, ks).drop_last() =~= bs);
            }
            if let Some(k) = bucket_key(target.fields, keys) {
                if ks.contains(k) {
                    let n = choose|n: int| 0 <= n < ks.len() && ks[n] == k;
                    assert(d[n] == k);
                } else {
                    assert(!d.contains(k)) by {
                        if d.contains(k) {
                            let n = choose|n: int| 0 <= n < d.len() && d[n] == k;
                            assert(ks[n] == k);
                        }
                    }
                }
            }
        }
    }
}

proof fn lemma_keys_differ(rs: Seq<RecordV>, keys: Seq<Seq<char>>)
    ensures
        forall|i: int, j: int|
            0 <= i < j < bucket_keys(rs, keys).len() ==> #[trigger] bucket_keys(rs, keys)[i]
                != #[trigger] bucket_keys(rs, keys)[j],
{
    let ks = bucket_keys(rs, keys);
    lemma_bucket_keys_ascend(rs, keys);
    assert forall|i: int, j: int| 0 <= i < j < ks.len() implies #[trigger] ks[i] != #[trigger] ks[j]
        by {
        assert(text_lt(ks[i], ks[j]));
        lemma_text_lt_irreflexive(ks[i]);
    }
}

/// A candidate that a record of the block is.
spec fn from_block(
    target: RecordV,
    b: Seq<RecordV>,
    specs: Seq<FieldSpecV>,
    c: MatchCandidate,
) -> bool {
    exists|r: RecordV| #[trigger]
        b.contains(r) && r.id != target.id && similarity(target.fields, r.fields, specs) >= 80 && c
            == as_candidate(target, r, specs)
}

/// A candidate of a block is a record of it, once where ids differ.
proof fn lemma_block_exact(target: RecordV, b: Seq<RecordV>, specs: Seq<FieldSpecV>)
    ensures
        forall|i: int|
            0 <= i < block_candidates(target, b, specs).len() ==> from_block(
                target,
                b,
                specs,
                #[trigger] block_candidates(target, b, specs)[i],
            ),
        (forall|i: int, j: int|
            0 <= i < j < b.len() && (#[trigger] b[i]).id != target.id ==> b[i].id != (
            #[trigger] b[j]).id) ==> forall|i: int, j: int|
            0 <= i < j < block_candidates(target, b, specs).len() ==> (
            #[trigger] block_candidates(target, b, specs)[i]).record_id != (
            #[trigger] block_candidates(target, b, specs)[j]).record_id,
    decreases b.len(),
{
    if b.len() > 0 {
        let d = b.drop_last();
        let cs = block_candidates(target, d, specs);
        let all = block_candidates(target, b, specs);
        lemma_block_exact(target, d, specs);
        assert forall|i: int| 0 <= i < all.len() implies from_block(
            target,
            b,
            specs,
            #[trigger] all[i],
        ) by {
            if i < cs.len() {
                assert(all[i] == cs[i]);
                assert(from_block(target, d, specs, cs[i]));
                let r = choose|r: RecordV| #[trigger]
                    d.contains(r) && r.id != target.id && similarity(
                        target.fields,
                        r.fields,
                        specs,
                    ) >= 80 && cs[i] == as_candidate(target, r, specs);
                let n = choose|n: int| 0 <= n < d.len() && d[n] == r;
                assert(b[n] == r);
                assert(b.contains(r));
            } else {
                assert(b[b.len() - 1] == b.last());
                assert(b.contains(b.last()));
            }
        }
        if forall|i: int, j: int|
            0 <= i < j < b.len() && (#[trigger] b[i]).id != target.id ==> b[i].id != (
            #[trigger] b[j]).id {
            assert forall|i: int, j: int|
                0 <= i < j < d.len() && (#[trigger] d[i]).id != target.id implies d[i].id != (
            #[trigger] d[j]).id by {
                assert(b[i].id != b[j].id);
            }
            assert forall|i: int, j: int| 0 <= i < j < all.len() implies (
            #[trigger] all[i]).record_id != (#[trigger] all[j]).record_id by {
                if j < cs.len() {
                    assert(cs[i].record_id != cs[j].record_id);
                } else {
                    assert(all[i] == cs[i]);
                    assert(from_block(target, d, specs, cs[i]));
                    let r = choose|r: RecordV| #[trigger]
                        d.contains(r) && r.id != target.id && similarity(
                            target.fields,
                            r.fields,
                            specs,
                        ) >= 80 && cs[i] == as_candidate(target, r, specs);
                    let n = choose|n: int| 0 <= n < d.len() && d[n] == r;
                    assert(b[n].id != b[b.len() - 1].id);
                }
            }
        }
    }
}

/// A sorted list has no item twice where the list has none.
proof fn lemma_sorted_once<T>(s: Seq<T>, score: spec_fn(T) -> int)
    requires
        s.no_duplicates(),
    ensures
        sort_desc(s, score).no_duplicates(),
{
    law_sort_desc(s, score);
    s.lemma_multiset_has_no_duplicates();
    sort_desc(s, score).lemma_multiset_has_no_duplicates_conv();
}

/// A search finds exactly the doubles of the target, each once: the records of another id whose
/// first filled cluster key is the target's and that score at least 80; none where the target has
/// no cluster key filled. A bucket that is cut is left out of this.
pub proof fn law_search_is_exact(
    target: RecordV,
    all: Seq<RecordV>,
    specs: Seq<FieldSpecV>,
    keys: Seq<Seq<char>>,
)
    requires
        ids_differ(all),
        forall|i: int|
            0 <= i < all.len() && (#[trigger] all[i]).id == target.id ==> all[i] == target,
        bucket_key(target.fields, keys) matches Some(k) ==> bucket_members(
            seq![target] + all,
            keys,
            k,
        ).len() <= BLOCK_CAP,
    ensures
        forall|c: MatchCandidate| #[trigger]
            candidates(target, all, specs, keys).contains(c) <==> exists|r: RecordV| #[trigger]
                all.contains(r) && is_double(target, r, specs, keys) && c == as_candidate(
                    target,
                    r,
                    specs,
                ),
        forall|i: int, j: int|
            0 <= i < j < candidates(target, all, specs, keys).len() ==> (#[trigger] candidates(
                target,
                all,
                specs,
                keys,
            )[i]).record_id != (#[trigger] candidates(target, all, specs, keys)[j]).record_id,
        bucket_key(target.fields, keys) is None ==> candidates(target, all, specs, keys).len()
            == 0,
{
    let rs = seq![target] + all;
    let ks = bucket_keys(rs, keys);
    let score = |c: MatchCandidate| c.score as int;
    let found = candidates(target, all, specs, keys);
    assert(rs[0] == target);
    assert(rs.contains(target));
    assert forall|i: int|
        0 <= i < rs.len() && (#[trigger] rs[i]).id == target.id implies bucket_key(
        rs[i].fields,
        keys,
    ) == bucket_key(target.fields, keys) by {
        if i > 0 {
            assert(all[i - 1] == rs[i]);
        }
    }
    lemma_keys_differ(rs, keys);
    lemma_one_block(target, rs, specs, keys, ks);
    let raw = all_candidates(target, blocks(rs, keys), specs);
    law_sort_desc(raw, score);
    match bucket_key(target.fields, keys) {
        None => {
            assert(found.len() == 0);
        },
        Some(k) => {
            let b = bucket_members(rs, keys, k);
            lemma_members_contain(rs, keys, k, target);
            if !ks.contains(k) {
                lemma_no_members(rs, keys, k);
            }
            lemma_block_exact(target, b, specs);
            lemma_target_apart(target, all, keys, k);
            assert forall|i: int, j: int| 0 <= i < j < raw.len() implies raw[i] != raw[j] by {
                assert(raw[i].record_id != raw[j].record_id);
            }
            assert(raw.no_duplicates());
            lemma_sorted_once(raw, score);
            assert forall|i: int, j: int| 0 <= i < j < found.len() implies (
            #[trigger] found[i]).record_id != (#[trigger] found[j]).record_id by {
                assert(found.contains(found[i]) && found.contains(found[j]));
                lemma_sorted_contains(raw, score, found[i]);
                lemma_sorted_contains(raw, score, found[j]);
                let x = choose|x: int| 0 <= x < raw.len() && raw[x] == found[i];
                let y = choose|y: int| 0 <= y < raw.len() && raw[y] == found[j];
                assert(x != y);
                if x < y {
                    assert(raw[x].record_id != raw[y].record_id);
                } else {
                    assert(raw[y].record_id != raw[x].record_id);
                }
            }
        },
    }
    assert forall|c: MatchCandidate| #[trigger] found.contains(c) implies exists|r: RecordV|
        #[trigger] all.contains(r) && is_double(target, r, specs, keys) && c == as_candidate(
            target,
            r,
            specs,
        ) by {
        lemma_sorted_contains(raw, score, c);
        let k = bucket_key(target.fields, keys).unwrap();
        let b = bucket_members(rs, keys, k);
        let i = choose|i: int| 0 <= i < raw.len() && raw[i] == c;
        assert(block_candidates(target, b, specs)[i] == c);
        assert(from_block(target, b, specs, c));
        let r = choose|r: RecordV| #[trigger]
            b.contains(r) && r.id != target.id && similarity(target.fields, r.fields, specs) >= 80
                && c == as_candidate(target, r, specs);
        lemma_members_contain(rs, keys, k, r);
        let n = choose|n: int| 0 <= n < rs.len() && rs[n] == r;
        assert(all[n - 1] == r);
        assert(all.contains(r));
    }
    assert forall|c: MatchCandidate|
        (exists|r: RecordV| #[trigger]
            all.contains(r) && is_double(target, r, specs, keys) && c == as_candidate(
                target,
                r,
                specs,
            )) implies #[trigger] found.contains(c) by {
        let r = choose|r: RecordV| #[trigger]
            all.contains(r) && is_double(target, r, specs, keys) && c == as_candidate(
                target,
                r,
                specs,
            );
        law_duplicates_are_found(
            target,
            all,
            specs,
            keys,
            bucket_key(target.fields, keys).unwrap(),
            r,
        );
    }
}

/// In the bucket of the target the ids of the others differ.
proof fn lemma_target_apart(
    target: RecordV,
    all: Seq<RecordV>,
    keys: Seq<Seq<char>>,
    k: Seq<char>,
)
    requires
        ids_differ(all),
    ensures
        ({
            let b = bucket_members(seq![target] + all, keys, k);
            forall|i: int, j: int|
                0 <= i < j < b.len() && (#[trigger] b[i]).id != target.id ==> b[i].id != (
                #[trigger] b[j]).id
        }),
    decreases all.len(),
{
    let rs = seq![target] + all;
    let b = bucket_members(rs, keys, k);
    if all.len() == 0 {
        assert(rs.drop_last() =~= Seq::<RecordV>::empty());
        reveal_with_fuel(bucket_members, 2);
        assert(b.len() <= 1);
    } else {
        let d = all.drop_last();
        assert(rs.drop_last() =~= seq![target] + d);
        assert forall|i: int, j: int| 0 <= i < j < d.len() implies (#[trigger] d[i]).id != (
        #[trigger] d[j]).id by {
            assert(all[i].id != all[j].id);
        }
        lemma_target_apart(target, d, keys, k);
        let g = bucket_members(seq![target] + d, keys, k);
        assert forall|i: int, j: int|
            0 <= i < j < b.len() && (#[trigger] b[i]).id != target.id implies b[i].id != (
        #[trigger] b[j]).id by {
            if j < g.len() {
                assert(g[i].id != g[j].id);
            } else {
                assert(g.contains(g[i]));
                lemma_members_contain(seq![target] + d, keys, k, g[i]);
                let e = seq![target] + d;
                let n = choose|n: int| 0 <= n < e.len() && e[n] == g[i];
                assert(n > 0);
                assert(all[n - 1] == g[i]);
                assert(all[n - 1].id != all[all.len() - 1].id);
            }
        }
    }
}

/// Another record in the bucket of a record.
pub open spec fn is_partner(
    rs: Seq<RecordV>,
    keys: Seq<Seq<char>>,
    r: RecordV,
    q: RecordV,
) -> bool {
    &&& rs.contains(q)
    &&& q.id != r.id
    &&& bucket_key(r.fields, keys) is Some
    &&& bucket_key(q.fields, keys) == bucket_key(r.fields, keys)
}

/// Whether a record has a partner that it scores at least `min` with.
pub open spec fn has_partner(
    rs: Seq<RecordV>,
    specs: Seq<FieldSpecV>,
    keys: Seq<Seq<char>>,
    r: RecordV,
    min: u8,
) -> bool {
    exists|q: RecordV| #[trigger]
        is_partner(rs, keys, r, q) && similarity(r.fields, q.fields, specs) >= min
}

/// Whether `s` is the highest score that a record has with a partner.
pub open spec fn is_top_score(
    rs: Seq<RecordV>,
    specs: Seq<FieldSpecV>,
    keys: Seq<Seq<char>>,
    r: RecordV,
    s: u8,
) -> bool {
    &&& exists|q: RecordV| #[trigger]
        is_partner(rs, keys, r, q) && similarity(r.fields, q.fields, specs) == s
    &&& forall|q: RecordV| #[trigger]
        is_partner(rs, keys, r, q) ==> similarity(r.fields, q.fields, specs) <= s
}

/// No bucket is cut.
pub open spec fn uncut(rs: Seq<RecordV>, keys: Seq<Seq<char>>) -> bool {
    forall|k: Seq<char>| (#[trigger] bucket_members(rs, keys, k)).len() <= BLOCK_CAP
}

proof fn lemma_row_hit(
    b: Seq<RecordV>,
    specs: Seq<FieldSpecV>,
    min: u8,
    id: i64,
    i: int,
    j: int,
    s: u8,
) -> (k: int)
    requires
        row_best(b, specs, min, id, i, j) == Some(s),
    ensures
        i < k < j,
        pair_hit(b, specs, min, id, i, k) == Some(s),
    decreases j - i,
{
    if pair_hit(b, specs, min, id, i, j - 1) == Some(s) {
        j - 1
    } else {
        lemma_row_hit(b, specs, min, id, i, j - 1, s)
    }
}

proof fn lemma_rows_hit(
    b: Seq<RecordV>,
    specs: Seq<FieldSpecV>,
    min: u8,
    id: i64,
    n: int,
    s: u8,
) -> (i: int)
    requires
        rows_best(b, specs, min, id, n) == Some(s),
    ensures
        0 <= i < n,
        row_best(b, specs, min, id, i, b.len() as int) == Some(s),
    decreases n,
{
    if row_best(b, specs, min, id, n - 1, b.len() as int) == Some(s) {
        n - 1
    } else {
        lemma_rows_hit(b, specs, min, id, n - 1, s)
    }
}

/// The best score of a record in its bucket is the highest that it has with a partner.
proof fn lemma_best_is_top(
    rs: Seq<RecordV>,
    specs: Seq<FieldSpecV>,
    keys: Seq<Seq<char>>,
    min: u8,
    k: Seq<char>,
    r: RecordV,
    s: u8,
)
    requires
        ids_differ(rs),
        bucket_members(rs, keys, k).contains(r),
        best_score(bucket_members(rs, keys, k), specs, min, r.id) == Some(s),
    ensures
        s >= min,
        is_top_score(rs, specs, keys, r, s),
{
    let b = bucket_members(rs, keys, k);
    lemma_members_differ(rs, keys, k);
    lemma_members_contain(rs, keys, k, r);
    let i = lemma_rows_hit(b, specs, min, r.id, b.len() as int, s);
    let j = lemma_row_hit(b, specs, min, r.id, i, b.len() as int, s);
    let x = choose|x: int| 0 <= x < b.len() && b[x] == r;
    assert(b[i].id != b[j].id);
    let q = if b[i].id == r.id {
        b[j]
    } else {
        b[i]
    };
    assert(b[i] == r || b[j] == r) by {
        if b[i].id == r.id {
            if x < i {
                assert(b[x].id != b[i].id);
            } else if i < x {
                assert(b[i].id != b[x].id);
            }
        } else {
            if x < j {
                assert(b[x].id != b[j].id);
            } else if j < x {
                assert(b[j].id != b[x].id);
            }
        }
    }
    assert(b.contains(q));
    lemma_members_contain(rs, keys, k, q);
    law_similarity_bounded(r.fields, q.fields, specs);
    law_similarity_symmetric(r.fields, q.fields, specs);
    assert(is_partner(rs, keys, r, q) && similarity(r.fields, q.fields, specs) == s);
    assert forall|p: RecordV| #[trigger] is_partner(rs, keys, r, p) implies similarity(
        r.fields,
        p.fields,
        specs,
    ) <= s by {
        law_similarity_bounded(r.fields, p.fields, specs);
        if similarity(r.fields, p.fields, specs) >= min {
            lemma_members_contain(rs, keys, k, p);
            lemma_pair_scores(b, specs, min, r, p);
        }
    }
}

/// What a scan's cluster is made of: one bucket, and the records of it with a partner.
spec fn cluster_from(
    rs: Seq<RecordV>,
    specs: Seq<FieldSpecV>,
    keys: Seq<Seq<char>>,
    min: u8,
    ks: Seq<Seq<char>>,
    c: ClusterV,
) -> bool {
    &&& ks.contains(c.cluster_key)
    &&& capped(bucket_members(rs, keys, c.cluster_key)).len() > 1
    &&& c == cluster_of(capped(bucket_members(rs, keys, c.cluster_key)), specs, keys, min)
}

/// The clusters of some buckets, each of a bucket of its own.
proof fn lemma_clusters_from(
    rs: Seq<RecordV>,
    specs: Seq<FieldSpecV>,
    keys: Seq<Seq<char>>,
    min: u8,
    ks: Seq<Seq<char>>,
)
    requires
        forall|i: int, j: int| 0 <= i < j < ks.len() ==> #[trigger] ks[i] != #[trigger] ks[j],
    ensures
        ({
            let cs = block_clusters(blocks_for(rs, keys, ks), specs, keys, min);
            &&& forall|i: int|
                0 <= i < cs.len() ==> cluster_from(rs, specs, keys, min, ks, #[trigger] cs[i])
            &&& forall|i: int, j: int|
                0 <= i < j < cs.len() ==> (#[trigger] cs[i]).cluster_key != (
                #[trigger] cs[j]).cluster_key
        }),
    decreases ks.len(),
{
    if ks.len() > 0 {
        let d = ks.drop_last();
        let last = ks.last();
        assert forall|i: int, j: int| 0 <= i < j < d.len() implies #[trigger] d[i] != #[trigger] d[j]
            by {
            assert(ks[i] != ks[j]);
        }
        lemma_clusters_from(rs, specs, keys, min, d);
        let bs = blocks_for(rs, keys, d);
        let all = blocks_for(rs, keys, ks);
        let b = capped(bucket_members(rs, keys, last));
        let before = block_clusters(bs, specs, keys, min);
        let cs = block_clusters(all, specs, keys, min);
        if b.len() > 1 {
            assert(all.drop_last() =~= bs);
            lemma_members_bucket(rs, keys, last, 0);
        }
        assert(ks[ks.len() - 1] == last);
        assert forall|i: int| 0 <= i < cs.len() implies cluster_from(
            rs,
            specs,
            keys,
            min,
            ks,
            #[trigger] cs[i],
        ) by {
            if i < before.len() {
                assert(cs[i] == before[i]);
                assert(cluster_from(rs, specs, keys, min, d, before[i]));
                let n = choose|n: int| 0 <= n < d.len() && d[n] == before[i].cluster_key;
                assert(ks[n] == before[i].cluster_key);
            }
        }
        assert forall|i: int, j: int| 0 <= i < j < cs.len() implies (
        #[trigger] cs[i]).cluster_key != (#[trigger] cs[j]).cluster_key by {
            if j < before.len() {
                assert(before[i].cluster_key != before[j].cluster_key);
            } else {
                assert(cs[i] == before[i]);
                assert(cluster_from(rs, specs, keys, min, d, before[i]));
                let n = choose|n: int| 0 <= n < d.len() && d[n] == before[i].cluster_key;
                assert(ks[n] != ks[ks.len() - 1]);
            }
        }
    }
}

/// No two clusters of a scan are of the same bucket.
pub proof fn law_clusters_differ(
    rs: Seq<RecordV>,
    specs: Seq<FieldSpecV>,
    keys: Seq<Seq<char>>,
    min: u8,
    i: int,
    j: int,
)
    requires
        0 <= i < j < clusters(rs, specs, keys, min).len(),
    ensures
        clusters(rs, specs, keys, min)[i].cluster_key != clusters(
            rs,
            specs,
            keys,
            min,
        )[j].cluster_key,
{
    let cs = block_clusters(blocks(rs, keys), specs, keys, min);
    let score = |c: ClusterV| cluster_score(c);
    let out = clusters(rs, specs, keys, min);
    lemma_keys_differ(rs, keys);
    lemma_clusters_from(rs, specs, keys, min, bucket_keys(rs, keys));
    assert forall|x: int, y: int| 0 <= x < y < cs.len() implies cs[x] != cs[y] by {
        assert(cs[x].cluster_key != cs[y].cluster_key);
    }
    assert(cs.no_duplicates());
    lemma_sorted_once(cs, score);
    assert(out.contains(out[i]) && out.contains(out[j]));
    lemma_sorted_contains(cs, score, out[i]);
    lemma_sorted_contains(cs, score, out[j]);
    let x = choose|x: int| 0 <= x < cs.len() && cs[x] == out[i];
    let y = choose|y: int| 0 <= y < cs.len() && cs[y] == out[j];
    assert(out[i] != out[j]);
    if x < y {
        assert(cs[x].cluster_key != cs[y].cluster_key);
    } else {
        assert(cs[y].cluster_key != cs[x].cluster_key);
    }
}

proof fn lemma_hit_of(
    b: Seq<RecordV>,
    specs: Seq<FieldSpecV>,
    min: u8,
    part: Seq<RecordV>,
    m: MemberV,
) -> (r: RecordV)
    requires
        hit_members(b, specs, min, part).contains(m),
    ensures
        part.contains(r),
        m.record_id == r.id,
        m.fields == r.fields,
        best_score(b, specs, min, r.id) == Some(m.score),
    decreases part.len(),
{
    let d = part.drop_last();
    let ms = hit_members(b, specs, min, d);
    let all = hit_members(b, specs, min, part);
    let i = choose|i: int| 0 <= i < all.len() && all[i] == m;
    if i < ms.len() {
        assert(ms[i] == m);
        let r = lemma_hit_of(b, specs, min, d, m);
        let n = choose|n: int| 0 <= n < d.len() && d[n] == r;
        assert(part[n] == r);
        r
    } else {
        assert(part[part.len() - 1] == part.last());
        part.last()
    }
}

/// A scan clusters nothing else: every member of a cluster is a record of that bucket with a
/// partner there, and its score is the highest that it has with one.
pub proof fn law_clustered_are_doubles(
    rs: Seq<RecordV>,
    specs: Seq<FieldSpecV>,
    keys: Seq<Seq<char>>,
    min: u8,
    c: ClusterV,
    m: MemberV,
)
    requires
        ids_differ(rs),
        uncut(rs, keys),
        clusters(rs, specs, keys, min).contains(c),
        c.members.contains(m),
    ensures
        m.score >= min,
        exists|r: RecordV| #[trigger]
            rs.contains(r) && bucket_key(r.fields, keys) == Some(c.cluster_key) && m.record_id
                == r.id && m.fields == r.fields && is_top_score(rs, specs, keys, r, m.score),
{
    let cs = block_clusters(blocks(rs, keys), specs, keys, min);
    lemma_sorted_contains(cs, |c: ClusterV| cluster_score(c), c);
    let i = choose|i: int| 0 <= i < cs.len() && cs[i] == c;
    lemma_keys_differ(rs, keys);
    lemma_clusters_from(rs, specs, keys, min, bucket_keys(rs, keys));
    assert(cluster_from(rs, specs, keys, min, bucket_keys(rs, keys), cs[i]));
    let k = c.cluster_key;
    let b = bucket_members(rs, keys, k);
    assert(b.len() <= BLOCK_CAP);
    assert(capped(b) == b);
    lemma_sorted_contains(hit_members(b, specs, min, b), |m: MemberV| m.score as int, m);
    let r = lemma_hit_of(b, specs, min, b, m);
    lemma_members_contain(rs, keys, k, r);
    lemma_best_is_top(rs, specs, keys, min, k, r, m.score);
    assert(rs.contains(r));
}

/// Whether a cluster lists a record.
pub open spec fn cluster_lists(c: ClusterV, id: i64) -> bool {
    exists|m: MemberV| #[trigger] c.members.contains(m) && m.record_id == id
}

/// A scan clusters a record exactly where it has a partner, another record with the same first
/// filled cluster key, that it scores at least the minimum with; it is then in one cluster, that
/// of its bucket, together with all others of the bucket that have a partner. A bucket that is cut
/// is left out of this.
pub proof fn law_scan_is_exact(
    rs: Seq<RecordV>,
    specs: Seq<FieldSpecV>,
    keys: Seq<Seq<char>>,
    min: u8,
    r: RecordV,
)
    requires
        ids_differ(rs),
        uncut(rs, keys),
        rs.contains(r),
    ensures
        (exists|i: int|
            0 <= i < clusters(rs, specs, keys, min).len() && cluster_lists(
                #[trigger] clusters(rs, specs, keys, min)[i],
                r.id,
            )) <==> has_partner(rs, specs, keys, r, min),
        forall|i: int|
            0 <= i < clusters(rs, specs, keys, min).len() && cluster_lists(
                #[trigger] clusters(rs, specs, keys, min)[i],
                r.id,
            ) ==> bucket_key(r.fields, keys) == Some(
                clusters(rs, specs, keys, min)[i].cluster_key,
            ),
        forall|i: int, j: int|
            0 <= i < j < clusters(rs, specs, keys, min).len() && cluster_lists(
                #[trigger] clusters(rs, specs, keys, min)[i],
                r.id,
            ) ==> !cluster_lists(#[trigger] clusters(rs, specs, keys, min)[j], r.id),
{
    let cs = clusters(rs, specs, keys, min);
    assert forall|i: int| 0 <= i < cs.len() && cluster_lists(#[trigger] cs[i], r.id) implies {
        &&& bucket_key(r.fields, keys) == Some(cs[i].cluster_key)
        &&& has_partner(rs, specs, keys, r, min)
    } by {
        let m = choose|m: MemberV| #[trigger] cs[i].members.contains(m) && m.record_id == r.id;
        assert(cs.contains(cs[i]));
        law_clustered_are_doubles(rs, specs, keys, min, cs[i], m);
        let p = choose|p: RecordV| #[trigger]
            rs.contains(p) && bucket_key(p.fields, keys) == Some(cs[i].cluster_key) && m.record_id
                == p.id && m.fields == p.fields && is_top_score(rs, specs, keys, p, m.score);
        lemma_one_of_id(rs, p, r);
        let q = choose|q: RecordV| #[trigger]
            is_partner(rs, keys, r, q) && similarity(r.fields, q.fields, specs) == m.score;
        assert(is_partner(rs, keys, r, q));
    }
    assert forall|i: int, j: int|
        0 <= i < j < cs.len() && cluster_lists(#[trigger] cs[i], r.id) implies !cluster_lists(
        #[trigger] cs[j],
        r.id,
    ) by {
        law_clusters_differ(rs, specs, keys, min, i, j);
    }
    if has_partner(rs, specs, keys, r, min) {
        let q = choose|q: RecordV| #[trigger]
            is_partner(rs, keys, r, q) && similarity(r.fields, q.fields, specs) >= min;
        let k = bucket_key(r.fields, keys).unwrap();
        assert(bucket_members(rs, keys, k).len() <= BLOCK_CAP);
        law_duplicates_are_clustered(rs, specs, keys, min, k, r, q);
        let s = similarity(r.fields, q.fields, specs);
        let c = choose|c: ClusterV| #[trigger]
            cs.contains(c) && c.cluster_key == k && cluster_holds(c, r, s) && cluster_holds(
                c,
                q,
                s,
            );
        let m = choose|m: MemberV| #[trigger]
            c.members.contains(m) && m.record_id == r.id && m.fields == r.fields && m.score >= s;
        let i = choose|i: int| 0 <= i < cs.len() && cs[i] == c;
        assert(cluster_lists(cs[i], r.id));
    }
}

proof fn lemma_one_of_id(rs: Seq<RecordV>, p: RecordV, r: RecordV)
    requires
        ids_differ(rs),
        rs.contains(p),
        rs.contains(r),
        p.id == r.id,
    ensures
        p == r,
{
    let x = choose|x: int| 0 <= x < rs.len() && rs[x] == p;
    let y = choose|y: int| 0 <= y < rs.len() && rs[y] == r;
    if x < y {
        assert(rs[x].id != rs[y].id);
    } else if y < x {
        assert(rs[y].id != rs[x].id);
    }
}

} // verus!
