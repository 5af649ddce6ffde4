//! Duplicate detection: blocking, weighted comparison, decision, clustering.

use crate::json::{obj_get, JsonV, Json, ObjV, Object};
use crate::outside::{json_text, value_text};
use crate::order::{lemma_sort_map, sort_by_score, sort_desc, Scored};
use crate::text::{chars_of, same_text, text_before, text_lt, texts};
use std::collections::HashMap;
use vstd::std_specs::hash::*;
use vstd::prelude::*;

verus! {

/// A candidate record: an id and the fields that take part in matching.
#[derive(Debug)]
pub struct MatchRecord {
    pub id: i64,
    pub fields: Object,
}

/// What a record stands for.
#[verifier::ext_equal]
pub struct RecordV {
    pub id: i64,
    pub fields: ObjV,
}

impl MatchRecord {
    pub open spec fn view(&self) -> RecordV {
        RecordV { id: self.id, fields: self.fields@ }
    }
}

impl Clone for MatchRecord {
    fn clone(&self) -> (r: Self)
        ensures
            r@ == self@,
    {
        MatchRecord { id: self.id, fields: self.fields.clone() }
    }
}

/// How a field is compared.
#[derive(Debug, Clone, Copy, PartialEq, Eq, Structural)]
pub enum FieldKind {
    /// 100 where both sides are equal and not empty, else 0.
    Exact,
    /// The share of the longer text that an edit need not touch.
    EditDistance,
}

/// One field of a comparison, with its weight.
#[derive(Debug, Clone)]
pub struct MatchFieldSpec {
    pub field: String,
    pub weight: u32,
    pub kind: FieldKind,
}

/// What a score leads to.
#[derive(Debug, Clone, Copy, PartialEq, Eq, Structural)]
pub enum Decision {
    /// At least 95.
    AutoMerge,
    /// From 80 to 94.
    Review,
    /// Below 80.
    NoMatch,
}

/// A record that resembles the one asked for.
#[derive(Debug, Clone, Copy)]
pub struct MatchCandidate {
    pub record_id: i64,
    pub score: u8,
    pub decision: Decision,
}

/// A member of a cluster of duplicates.
#[derive(Debug, Clone)]
pub struct MatchClusterMember {
    pub record_id: i64,
    /// The best score of a pair that this member is part of.
    pub score: u8,
    pub fields: Object,
}

/// A cluster of duplicates.
#[derive(Debug, Clone)]
pub struct DupCluster {
    /// The bucket that the members share, such as `credit_code:C1`.
    pub cluster_key: String,
    pub members: Vec<MatchClusterMember>,
}

/// The most records of one bucket that are compared with each other.
pub const BLOCK_CAP: usize = 500;

/// The smaller of two numbers.
pub open spec fn min_nat(a: nat, b: nat) -> nat {
    if a <= b {
        a
    } else {
        b
    }
}

/// The least number of insertions, deletions and substitutions that turn `a` into `b`.
pub open spec fn edit_distance(a: Seq<char>, b: Seq<char>) -> nat
    decreases a.len() + b.len(),
{
    if a.len() == 0 {
        b.len()
    } else if b.len() == 0 {
        a.len()
    } else {
        let cost: nat = if a.last() == b.last() {
            0
        } else {
            1
        };
        min_nat(
            min_nat(
                edit_distance(a.drop_last(), b) + 1,
                edit_distance(a, b.drop_last()) + 1,
            ),
            edit_distance(a.drop_last(), b.drop_last()) + cost,
        )
    }
}

/// An edit distance is never greater than the longer text.
pub proof fn law_edit_distance_bounded(a: Seq<char>, b: Seq<char>)
    ensures
        edit_distance(a, b) <= a.len() || edit_distance(a, b) <= b.len(),
    decreases a.len() + b.len(),
{
    if a.len() > 0 && b.len() > 0 {
        law_edit_distance_bounded(a.drop_last(), b.drop_last());
    }
}

/// Edit distance is symmetric.
pub proof fn law_edit_distance_symmetric(a: Seq<char>, b: Seq<char>)
    ensures
        edit_distance(a, b) == edit_distance(b, a),
    decreases a.len() + b.len(),
{
    if a.len() > 0 && b.len() > 0 {
        law_edit_distance_symmetric(a.drop_last(), b);
        law_edit_distance_symmetric(a, b.drop_last());
        law_edit_distance_symmetric(a.drop_last(), b.drop_last());
    }
}

/// Two texts are at distance zero exactly where they are equal.
pub proof fn law_edit_distance_zero(a: Seq<char>, b: Seq<char>)
    ensures
        edit_distance(a, b) == 0 <==> a == b,
    decreases a.len() + b.len(),
{
    if a.len() > 0 && b.len() > 0 {
        law_edit_distance_zero(a.drop_last(), b.drop_last());
        if a.last() == b.last() && a.drop_last() == b.drop_last() {
            assert(a =~= a.drop_last().push(a.last()));
            assert(b =~= b.drop_last().push(b.last()));
        }
    } else if a.len() == 0 && b.len() == 0 {
        assert(a =~= b);
    }
}

/// The edit distance of two texts, character by character.
pub fn levenshtein(a: &str, b: &str) -> (d: usize)
    ensures
        d == edit_distance(a@, b@),
{
    let x = chars_of(a);
    let y = chars_of(b);
    let mut prev: Vec<usize> = Vec::new();
    let mut j: usize = 0;
    assert(y@.take(0) =~= Seq::<char>::empty());
    while j < y.len()
        invariant
            j <= y@.len(),
            prev@.len() == j,
            forall|k: int|
                0 <= k < j ==> #[trigger] prev@[k] == edit_distance(x@.take(0), y@.take(k)),
        decreases y@.len() - j,
    {
        prev.push(j);
        j += 1;
    }
    prev.push(j);
    let mut i: usize = 0;
    while i < x.len()
        invariant
            i <= x@.len(),
            prev@.len() == y@.len() + 1,
            forall|k: int|
                0 <= k <= y@.len() ==> #[trigger] prev@[k] == edit_distance(
                    x@.take(i as int),
                    y@.take(k),
                ),
        decreases x@.len() - i,
    {
        let mut cur: Vec<usize> = Vec::new();
        cur.push(i + 1);
        let mut j: usize = 0;
        let ghost a1 = x@.take(i + 1);
        assert(a1.drop_last() =~= x@.take(i as int));
        assert(a1.last() == x@[i as int]);
        while j < y.len()
            invariant
                i < x.len(),
                j <= y.len(),
                prev@.len() == y@.len() + 1,
                cur@.len() == j + 1,
                a1 == x@.take(i + 1),
                a1.drop_last() == x@.take(i as int),
                a1.last() == x@[i as int],
                forall|k: int|
                    0 <= k <= y@.len() ==> #[trigger] prev@[k] == edit_distance(
                        x@.take(i as int),
                        y@.take(k),
                    ),
                forall|k: int|
                    0 <= k <= j ==> #[trigger] cur@[k] == edit_distance(a1, y@.take(k)),
            decreases y@.len() - j,
        {
            let ghost b1 = y@.take(j + 1);
            proof {
                assert(b1.drop_last() =~= y@.take(j as int));
                assert(b1.last() == y@[j as int]);
                law_edit_distance_bounded(x@.take(i as int), b1);
                law_edit_distance_bounded(a1, y@.take(j as int));
                law_edit_distance_bounded(x@.take(i as int), y@.take(j as int));
                assert(prev@[j as int] == edit_distance(x@.take(i as int), y@.take(j as int)));
                assert(prev@[j + 1] == edit_distance(x@.take(i as int), y@.take(j + 1)));
                assert(cur@[j as int] == edit_distance(a1, y@.take(j as int)));
            }
            let cost: usize = if x[i] == y[j] {
                0
            } else {
                1
            };
            let mut best: usize = prev[j + 1];
            if cur[j] < best {
                best = cur[j];
            }
            if cost == 1 && prev[j] < best {
                best = prev[j];
            }
            proof {
                law_edit_distance_bounded(a1, b1);
                if !(cost == 0 && prev@[j as int] <= best) {
                    assert(edit_distance(a1, b1) == best + 1);
                }
            }
            let d: usize = if cost == 0 && prev[j] <= best {
                prev[j]
            } else {
                best + 1
            };
            assert(d == edit_distance(a1, b1));
            cur.push(d);
            j += 1;
        }
        prev = cur;
        i += 1;
    }
    assert(x@.take(x@.len() as int) =~= x@);
    assert(y@.take(y@.len() as int) =~= y@);
    prev[y.len()]
}

/// The text of a field: a string as it is, another value as JSON text; `None` where it is
/// missing or null.
pub open spec fn field_text(o: ObjV, k: Seq<char>) -> Option<Seq<char>> {
    match obj_get(o, k) {
        None => None,
        Some(JsonV::Null) => None,
        Some(JsonV::Str(s)) => Some(s),
        Some(v) => Some(json_text(v)),
    }
}

/// The view of an optional string.
pub open spec fn opt_text(s: Option<String>) -> Option<Seq<char>> {
    match s {
        Some(t) => Some(t@),
        None => None,
    }
}

/// Whether there is no text, or an empty one.
pub open spec fn blank(s: Option<Seq<char>>) -> bool {
    match s {
        Some(t) => t.len() == 0,
        None => true,
    }
}

/// The text of a field.
pub fn field_str(fields: &Object, key: &str) -> (r: Option<String>)
    ensures
        opt_text(r) == field_text(fields@, key@),
{
    match fields.get(key) {
        None => None,
        Some(Json::Null) => None,
        Some(Json::Str(s)) => Some(s.clone()),
        Some(v) => Some(value_text(v)),
    }
}

/// The score of one field, from 0 to 100.
pub open spec fn text_score(kind: FieldKind, a: Option<Seq<char>>, b: Option<Seq<char>>) -> nat {
    match (a, b) {
        (Some(x), Some(y)) => match kind {
            FieldKind::Exact => if x.len() > 0 && x == y {
                100
            } else {
                0
            },
            FieldKind::EditDistance => {
                let longer: nat = if x.len() >= y.len() {
                    x.len()
                } else {
                    y.len()
                };
                if longer == 0 {
                    100
                } else {
                    (100 * (longer - edit_distance(x, y)) / longer as int) as nat
                }
            },
        },
        _ => 0,
    }
}

/// A field scores at most 100.
pub proof fn law_text_score_bounded(kind: FieldKind, a: Option<Seq<char>>, b: Option<Seq<char>>)
    ensures
        text_score(kind, a, b) <= 100,
{
    if let (Some(x), Some(y)) = (a, b) {
        law_edit_distance_bounded(x, y);
        let longer: int = if x.len() >= y.len() {
            x.len() as int
        } else {
            y.len() as int
        };
        let d = edit_distance(x, y) as int;
        if longer > 0 {
            assert(0 <= 100 * (longer - d) / longer <= 100) by (nonlinear_arith)
                requires
                    0 <= d <= longer,
                    longer > 0,
            ;
        }
    }
}

/// A field scores the same with its sides exchanged.
pub proof fn law_text_score_symmetric(kind: FieldKind, a: Option<Seq<char>>, b: Option<Seq<char>>)
    ensures
        text_score(kind, a, b) == text_score(kind, b, a),
{
    if let (Some(x), Some(y)) = (a, b) {
        law_edit_distance_symmetric(x, y);
    }
}

/// The score of one field, given its text on either side.
pub fn field_score(kind: FieldKind, a: &Option<String>, b: &Option<String>) -> (r: u8)
    ensures
        r == text_score(kind, opt_text(*a), opt_text(*b)),
{
    proof {
        law_text_score_bounded(kind, opt_text(*a), opt_text(*b));
    }
    match (a, b) {
        (Some(x), Some(y)) => match kind {
            FieldKind::Exact => if !x.as_str().is_empty() && same_text(x.as_str(), y.as_str()) {
                100
            } else {
                0
            },
            FieldKind::EditDistance => {
                let m: usize = chars_of(x.as_str()).len();
                let n: usize = chars_of(y.as_str()).len();
                let longer: usize = if m >= n {
                    m
                } else {
                    n
                };
                if longer == 0 {
                    100
                } else {
                    let d: usize = levenshtein(x.as_str(), y.as_str());
                    proof {
                        law_edit_distance_bounded(x@, y@);
                    }
                    let kept: u128 = (longer - d) as u128;
                    assert(100 * kept <= u128::MAX);
                    let score: u128 = 100 * kept / (longer as u128);
                    assert(score == 100 * (longer - d) / longer as int);
                    score as u8
                }
            },
        },
        _ => 0,
    }
}

/// What the specs stand for.
#[verifier::ext_equal]
pub struct FieldSpecV {
    pub field: Seq<char>,
    pub weight: u32,
    pub kind: FieldKind,
}

impl MatchFieldSpec {
    pub open spec fn view(&self) -> FieldSpecV {
        FieldSpecV { field: self.field@, weight: self.weight, kind: self.kind }
    }
}

/// The views of a list of specs.
pub open spec fn specs_view(s: Seq<MatchFieldSpec>) -> Seq<FieldSpecV> {
    Seq::new(s.len(), |i: int| s[i]@)
}

/// Whether a spec counts: a field that is blank on both sides does not.
pub open spec fn spec_counts(a: ObjV, b: ObjV, s: FieldSpecV) -> bool {
    !(blank(field_text(a, s.field)) && blank(field_text(b, s.field)))
}

/// The weight of the specs that count.
pub open spec fn weight_sum(a: ObjV, b: ObjV, specs: Seq<FieldSpecV>) -> nat
    decreases specs.len(),
{
    if specs.len() == 0 {
        0
    } else {
        weight_sum(a, b, specs.drop_last()) + (if spec_counts(a, b, specs.last()) {
            specs.last().weight as nat
        } else {
            0
        })
    }
}

/// The weighted scores of the specs that count.
pub open spec fn score_sum(a: ObjV, b: ObjV, specs: Seq<FieldSpecV>) -> nat
    decreases specs.len(),
{
    if specs.len() == 0 {
        0
    } else {
        score_sum(a, b, specs.drop_last()) + (if spec_counts(a, b, specs.last()) {
            text_score(
                specs.last().kind,
                field_text(a, specs.last().field),
                field_text(b, specs.last().field),
            ) * specs.last().weight as nat
        } else {
            0
        })
    }
}

/// The weighted mean of the field scores; 0 where nothing counts.
pub open spec fn similarity(a: ObjV, b: ObjV, specs: Seq<FieldSpecV>) -> nat {
    if weight_sum(a, b, specs) == 0 {
        0
    } else {
        score_sum(a, b, specs) / weight_sum(a, b, specs)
    }
}

/// The weighted scores are at most 100 times the weight.
proof fn lemma_score_sum_bounded(a: ObjV, b: ObjV, specs: Seq<FieldSpecV>)
    ensures
        score_sum(a, b, specs) <= 100 * weight_sum(a, b, specs),
        weight_sum(a, b, specs) <= u32::MAX * specs.len(),
    decreases specs.len(),
{
    if specs.len() > 0 {
        lemma_score_sum_bounded(a, b, specs.drop_last());
        let s = specs.last();
        let t = text_score(s.kind, field_text(a, s.field), field_text(b, s.field));
        law_text_score_bounded(s.kind, field_text(a, s.field), field_text(b, s.field));
        let w = s.weight as nat;
        assert(t * w <= 100 * w) by (nonlinear_arith)
            requires
                t <= 100,
        ;
        assert(u32::MAX * (specs.len() - 1) + u32::MAX == u32::MAX * specs.len())
            by (nonlinear_arith);
    }
}

/// A similarity is at most 100.
pub proof fn law_similarity_bounded(a: ObjV, b: ObjV, specs: Seq<FieldSpecV>)
    ensures
        similarity(a, b, specs) <= 100,
{
    lemma_score_sum_bounded(a, b, specs);
    let x = score_sum(a, b, specs) as int;
    let w = weight_sum(a, b, specs) as int;
    if w > 0 {
        assert(x / w <= 100) by (nonlinear_arith)
            requires
                0 <= x <= 100 * w,
                w > 0,
        ;
    }
}

proof fn lemma_sums_symmetric(a: ObjV, b: ObjV, specs: Seq<FieldSpecV>)
    ensures
        score_sum(a, b, specs) == score_sum(b, a, specs),
        weight_sum(a, b, specs) == weight_sum(b, a, specs),
    decreases specs.len(),
{
    if specs.len() > 0 {
        lemma_sums_symmetric(a, b, specs.drop_last());
        let s = specs.last();
        law_text_score_symmetric(s.kind, field_text(a, s.field), field_text(b, s.field));
    }
}

/// Similarity is symmetric.
pub proof fn law_similarity_symmetric(a: ObjV, b: ObjV, specs: Seq<FieldSpecV>)
    ensures
        similarity(a, b, specs) == similarity(b, a, specs),
{
    lemma_sums_symmetric(a, b, specs);
}

/// The weighted similarity of two records, from 0 to 100. Sums are taken in wide arithmetic, so
/// that no weight and no length of a text overflows.
pub fn compare(target: &MatchRecord, other: &MatchRecord, specs: &[MatchFieldSpec]) -> (r: u8)
    ensures
        r == similarity(target.fields@, other.fields@, specs_view(specs@)),
{
    let ghost a = target.fields@;
    let ghost b = other.fields@;
    let ghost all = specs_view(specs@);
    let mut acc: u128 = 0;
    let mut total: u128 = 0;
    let mut i: usize = 0;
    assert(all.take(0) =~= Seq::<FieldSpecV>::empty());
    while i < specs.len()
        invariant
            i <= specs@.len(),
            a == target.fields@,
            b == other.fields@,
            all == specs_view(specs@),
            acc == score_sum(a, b, all.take(i as int)),
            total == weight_sum(a, b, all.take(i as int)),
        decreases specs@.len() - i,
    {
        let x = field_str(&target.fields, specs[i].field.as_str());
        let y = field_str(&other.fields, specs[i].field.as_str());
        let x_blank: bool = match &x {
            Some(t) => t.as_str().is_empty(),
            None => true,
        };
        let y_blank: bool = match &y {
            Some(t) => t.as_str().is_empty(),
            None => true,
        };
        proof {
            let t = all.take(i + 1);
            assert(t.drop_last() =~= all.take(i as int));
            assert(t.last() == specs@[i as int]@);
            lemma_score_sum_bounded(a, b, t);
            assert(u32::MAX * t.len() <= u32::MAX * usize::MAX) by (nonlinear_arith)
                requires
                    t.len() <= usize::MAX,
            ;
        }
        if !(x_blank && y_blank) {
            let s: u8 = field_score(specs[i].kind, &x, &y);
            proof {
                law_text_score_bounded(specs@[i as int].kind, opt_text(x), opt_text(y));
            }
            assert(s as nat * specs@[i as int].weight as nat <= 100 * u32::MAX)
                by (nonlinear_arith)
                requires
                    s <= 100,
                    specs@[i as int].weight <= u32::MAX,
            ;
            acc = acc + (s as u128) * (specs[i].weight as u128);
            total = total + specs[i].weight as u128;
        }
        i += 1;
    }
    assert(all.take(specs@.len() as int) =~= all);
    proof {
        law_similarity_bounded(a, b, all);
    }
    if total == 0 {
        return 0;
    }
    (acc / total) as u8
}

/// What a score leads to.
pub open spec fn decision_of(score: nat) -> Decision {
    if score >= 95 {
        Decision::AutoMerge
    } else if score >= 80 {
        Decision::Review
    } else {
        Decision::NoMatch
    }
}

/// What a score leads to: 95 and more is merged, 80 to 94 reviewed, less is no match.
pub fn decide(score: u8) -> (d: Decision)
    ensures
        d == decision_of(score as nat),
{
    if score >= 95 {
        Decision::AutoMerge
    } else if score >= 80 {
        Decision::Review
    } else {
        Decision::NoMatch
    }
}

/// The views of a list of records.
pub open spec fn records_view(r: Seq<MatchRecord>) -> Seq<RecordV> {
    Seq::new(r.len(), |i: int| r[i]@)
}

/// The views of a list of borrowed records.
pub open spec fn block_view(r: Seq<&MatchRecord>) -> Seq<RecordV> {
    Seq::new(r.len(), |i: int| r[i]@)
}

/// The views of a list of borrowed texts.
pub open spec fn keys_view(k: Seq<&str>) -> Seq<Seq<char>> {
    Seq::new(k.len(), |i: int| k[i]@)
}

/// The bucket of a record: `key:value` of the first cluster key whose field is not blank.
pub open spec fn bucket_key(o: ObjV, keys: Seq<Seq<char>>) -> Option<Seq<char>>
    decreases keys.len(),
{
    if keys.len() == 0 {
        None
    } else if !blank(field_text(o, keys[0])) {
        Some(keys[0] + seq![':'] + field_text(o, keys[0]).unwrap())
    } else {
        bucket_key(o, keys.drop_first())
    }
}

/// The bucket of a record.
pub fn bucket_of(fields: &Object, cluster_keys: &[&str]) -> (r: Option<String>)
    ensures
        opt_text(r) == bucket_key(fields@, keys_view(cluster_keys@)),
{
    let ghost all = keys_view(cluster_keys@);
    let mut i: usize = 0;
    assert(all.skip(0) =~= all);
    while i < cluster_keys.len()
        invariant
            i <= cluster_keys@.len(),
            all == keys_view(cluster_keys@),
            bucket_key(fields@, all) == bucket_key(fields@, all.skip(i as int)),
        decreases cluster_keys@.len() - i,
    {
        let v = field_str(fields, cluster_keys[i]);
        assert(all.skip(i as int)[0] == cluster_keys@[i as int]@);
        assert(all.skip(i as int).drop_first() =~= all.skip(i + 1));
        if let Some(t) = v {
            if !t.as_str().is_empty() {
                let mut key: String = cluster_keys[i].to_owned();
                key.push(':');
                key.append(t.as_str());
                assert(key@ =~= cluster_keys@[i as int]@ + seq![':'] + t@);
                return Some(key);
            }
        }
        i += 1;
    }
    None
}

/// The field that names the bucket of a record, and its text.
pub open spec fn bucket_field(o: ObjV, keys: Seq<Seq<char>>) -> Option<(Seq<char>, Seq<char>)>
    decreases keys.len(),
{
    if keys.len() == 0 {
        None
    } else if !blank(field_text(o, keys[0])) {
        Some((keys[0], field_text(o, keys[0]).unwrap()))
    } else {
        bucket_field(o, keys.drop_first())
    }
}

/// The field that names the bucket of a record, and its text.
pub fn bucket_source(fields: &Object, cluster_keys: &[&str]) -> (r: Option<(String, String)>)
    ensures
        match r {
            Some((k, v)) => bucket_field(fields@, keys_view(cluster_keys@)) == Some((k@, v@)),
            None => bucket_field(fields@, keys_view(cluster_keys@)) is None,
        },
{
    let ghost all = keys_view(cluster_keys@);
    let mut i: usize = 0;
    assert(all.skip(0) =~= all);
    while i < cluster_keys.len()
        invariant
            i <= cluster_keys@.len(),
            all == keys_view(cluster_keys@),
            bucket_field(fields@, all) == bucket_field(fields@, all.skip(i as int)),
        decreases cluster_keys@.len() - i,
    {
        let v = field_str(fields, cluster_keys[i]);
        assert(all.skip(i as int)[0] == cluster_keys@[i as int]@);
        assert(all.skip(i as int).drop_first() =~= all.skip(i + 1));
        if let Some(t) = v {
            if !t.as_str().is_empty() {
                return Some((cluster_keys[i].to_owned(), t));
            }
        }
        i += 1;
    }
    None
}

/// The bucket of a record is named by its field and the text of it, which the record has there.
pub proof fn law_bucket_field(o: ObjV, keys: Seq<Seq<char>>)
    ensures
        match bucket_field(o, keys) {
            Some((k, v)) => bucket_key(o, keys) == Some(k + seq![':'] + v) && field_text(o, k)
                == Some(v) && keys.contains(k),
            None => bucket_key(o, keys) is None,
        },
    decreases keys.len(),
{
    if keys.len() > 0 {
        assert(keys.contains(keys[0]));
        law_bucket_field(o, keys.drop_first());
        if let Some((k, v)) = bucket_field(o, keys.drop_first()) {
            let d = keys.drop_first();
            let n = choose|n: int| 0 <= n < d.len() && d[n] == k;
            assert(keys[n + 1] == k);
        }
    }
}

/// The texts with `k` at its place in text order, once.
pub open spec fn key_put(ks: Seq<Seq<char>>, k: Seq<char>) -> Seq<Seq<char>>
    decreases ks.len(),
{
    if ks.len() == 0 {
        seq![k]
    } else if ks[0] == k {
        ks
    } else if text_lt(k, ks[0]) {
        seq![k] + ks
    } else {
        seq![ks[0]] + key_put(ks.drop_first(), k)
    }
}

proof fn lemma_key_put_at(ks: Seq<Seq<char>>, k: Seq<char>, n: int)
    requires
        0 <= n <= ks.len(),
        forall|i: int| 0 <= i < n ==> #[trigger] ks[i] != k && !text_lt(k, ks[i]),
        n < ks.len() ==> ks[n] == k || text_lt(k, ks[n]),
    ensures
        key_put(ks, k) == (if n < ks.len() && ks[n] == k {
            ks
        } else {
            ks.insert(n, k)
        }),
    decreases n,
{
    if n == 0 {
        if ks.len() == 0 {
            assert(ks.insert(0, k) =~= seq![k]);
        } else {
            assert(ks.insert(0, k) =~= seq![k] + ks);
        }
    } else {
        let d = ks.drop_first();
        assert(ks[0] != k && !text_lt(k, ks[0]));
        assert forall|i: int| 0 <= i < n - 1 implies #[trigger] d[i] != k && !text_lt(
            k,
            d[i],
        ) by {
            assert(d[i] == ks[i + 1]);
        }
        if n < ks.len() {
            assert(d[n - 1] == ks[n]);
        }
        lemma_key_put_at(d, k, n - 1);
        if n < ks.len() && ks[n] == k {
            assert(ks =~= seq![ks[0]] + d);
        } else {
            assert(ks.insert(n, k) =~= seq![ks[0]] + d.insert(n - 1, k));
        }
    }
}

/// The buckets of the records, each once, in text order.
pub open spec fn bucket_keys(rs: Seq<RecordV>, keys: Seq<Seq<char>>) -> Seq<Seq<char>>
    decreases rs.len(),
{
    if rs.len() == 0 {
        Seq::empty()
    } else {
        let ks = bucket_keys(rs.drop_last(), keys);
        match bucket_key(rs.last().fields, keys) {
            Some(k) => key_put(ks, k),
            None => ks,
        }
    }
}

/// The records of one bucket, in the order given.
pub open spec fn bucket_members(
    rs: Seq<RecordV>,
    keys: Seq<Seq<char>>,
    k: Seq<char>,
) -> Seq<RecordV>
    decreases rs.len(),
{
    if rs.len() == 0 {
        Seq::empty()
    } else {
        let g = bucket_members(rs.drop_last(), keys, k);
        if bucket_key(rs.last().fields, keys) == Some(k) {
            g.push(rs.last())
        } else {
            g
        }
    }
}

/// A bucket cut to the cap.
pub open spec fn capped(b: Seq<RecordV>) -> Seq<RecordV> {
    if b.len() > BLOCK_CAP {
        b.take(BLOCK_CAP as int)
    } else {
        b
    }
}

/// The blocks for the buckets `ks`: each bucket cut to the cap; those of one record are left out.
pub open spec fn blocks_for(
    rs: Seq<RecordV>,
    keys: Seq<Seq<char>>,
    ks: Seq<Seq<char>>,
) -> Seq<Seq<RecordV>>
    decreases ks.len(),
{
    if ks.len() == 0 {
        Seq::empty()
    } else {
        let bs = blocks_for(rs, keys, ks.drop_last());
        let b = capped(bucket_members(rs, keys, ks.last()));
        if b.len() > 1 {
            bs.push(b)
        } else {
            bs
        }
    }
}

/// The blocks of the records, in the order of their buckets.
pub open spec fn blocks(rs: Seq<RecordV>, keys: Seq<Seq<char>>) -> Seq<Seq<RecordV>> {
    blocks_for(rs, keys, bucket_keys(rs, keys))
}

/// The views of a list of blocks.
pub open spec fn blocks_view(b: Seq<Vec<&MatchRecord>>) -> Seq<Seq<RecordV>> {
    Seq::new(b.len(), |i: int| block_view(b[i]@))
}

/// A text absent from the buckets has no member.
pub proof fn lemma_no_members(rs: Seq<RecordV>, keys: Seq<Seq<char>>, k: Seq<char>)
    requires
        !bucket_keys(rs, keys).contains(k),
    ensures
        bucket_members(rs, keys, k).len() == 0,
    decreases rs.len(),
{
    if rs.len() > 0 {
        let ks = bucket_keys(rs.drop_last(), keys);
        let last = bucket_key(rs.last().fields, keys);
        if last is Some {
            lemma_key_put_contains(ks, last.unwrap(), k);
        }
        lemma_no_members(rs.drop_last(), keys, k);
    }
}

proof fn lemma_key_put_contains(ks: Seq<Seq<char>>, k: Seq<char>, q: Seq<char>)
    ensures
        key_put(ks, k).contains(q) <==> ks.contains(q) || q == k,
    decreases ks.len(),
{
    let p = key_put(ks, k);
    if ks.len() == 0 {
        assert(p[0] == k);
    } else if ks[0] == k {
        assert(ks[0] == k);
    } else if text_lt(k, ks[0]) {
        assert(p[0] == k);
        assert(p =~= seq![k] + ks);
        if ks.contains(q) {
            let i = choose|i: int| 0 <= i < ks.len() && ks[i] == q;
            assert(p[i + 1] == q);
        }
        if p.contains(q) && q != k {
            let i = choose|i: int| 0 <= i < p.len() && p[i] == q;
            assert(ks[i - 1] == q);
        }
    } else {
        let d = ks.drop_first();
        let r = key_put(d, k);
        lemma_key_put_contains(d, k, q);
        assert(p =~= seq![ks[0]] + r);
        if ks.contains(q) {
            let i = choose|i: int| 0 <= i < ks.len() && ks[i] == q;
            if i > 0 {
                assert(d[i - 1] == q);
            } else {
                assert(p[0] == q);
            }
        }
        if r.contains(q) {
            let i = choose|i: int| 0 <= i < r.len() && r[i] == q;
            assert(p[i + 1] == q);
        }
        if p.contains(q) {
            let i = choose|i: int| 0 <= i < p.len() && p[i] == q;
            if i > 0 {
                assert(r[i - 1] == q);
            } else {
                assert(ks[0] == q);
            }
        }
        if d.contains(q) {
            let i = choose|i: int| 0 <= i < d.len() && d[i] == q;
            assert(ks[i + 1] == q);
        }
    }
}

/// Groups the records by bucket. A record without a bucket is in no block.
pub fn blocking<'a>(records: &'a [MatchRecord], cluster_keys: &[&str]) -> (out: Vec<
    Vec<&'a MatchRecord>,
>)
    ensures
        blocks_view(out@) == blocks(records_view(records@), keys_view(cluster_keys@)),
{
    let ghost ck = keys_view(cluster_keys@);
    let ghost all = records_view(records@);
    let mut keys: Vec<String> = Vec::new();
    let mut groups: Vec<Vec<&'a MatchRecord>> = Vec::new();
    let mut i: usize = 0;
    assert(all.take(0) =~= Seq::<RecordV>::empty());
    assert(texts(keys@) =~= Seq::<Seq<char>>::empty());
    while i < records.len()
        invariant
            i <= records@.len(),
            ck == keys_view(cluster_keys@),
            all == records_view(records@),
            keys@.len() == groups@.len(),
            texts(keys@) == bucket_keys(all.take(i as int), ck),
            forall|j: int|
                0 <= j < keys@.len() ==> block_view((#[trigger] groups@[j])@) == bucket_members(
                    all.take(i as int),
                    ck,
                    keys@[j]@,
                ),
        decreases records@.len() - i,
    {
        let ghost rs = all.take(i as int);
        let ghost rs1 = all.take(i + 1);
        let ghost ks = texts(keys@);
        let ghost groups0 = groups@;
        let ghost keys0 = keys@;
        proof {
            assert(rs1.drop_last() =~= rs);
            assert(rs1.last() == records@[i as int]@);
        }
        let r: &'a MatchRecord = &records[i];
        match bucket_of(&r.fields, cluster_keys) {
            None => {},
            Some(key) => {
                let ghost k = key@;
                let mut n: usize = 0;
                while n < keys.len() && !same_text(keys[n].as_str(), key.as_str()) && !text_before(
                    key.as_str(),
                    keys[n].as_str(),
                )
                    invariant
                        n <= keys@.len(),
                        keys@ == keys0,
                        ks == texts(keys0),
                        k == key@,
                        forall|j: int| 0 <= j < n ==> #[trigger] ks[j] != k && !text_lt(k, ks[j]),
                    decreases keys@.len() - n,
                {
                    assert(ks[n as int] == keys@[n as int]@);
                    n += 1;
                }
                proof {
                    if n < ks.len() {
                        assert(ks[n as int] == keys@[n as int]@);
                    }
                    lemma_key_put_at(ks, k, n as int);
                }
                if n < keys.len() && same_text(keys[n].as_str(), key.as_str()) {
                    groups[n].push(r);
                    proof {
                        assert(block_view(groups@[n as int]@) =~= block_view(
                            groups0[n as int]@,
                        ).push(r@));
                        assert forall|j: int| 0 <= j < keys@.len() implies block_view(
                            (#[trigger] groups@[j])@,
                        ) == bucket_members(rs1, ck, keys@[j]@) by {
                            if j != n {
                                assert(groups@[j] == groups0[j]);
                                if keys@[j]@ == k {
                                    lemma_bucket_keys_ascend(rs, ck);
                                    assert(ks[j] == k && ks[n as int] == k);
                                    crate::text::lemma_text_lt_irreflexive(k);
                                }
                            }
                        }
                    }
                } else {
                    let mut fresh: Vec<&'a MatchRecord> = Vec::new();
                    fresh.push(r);
                    proof {
                        assert(!ks.contains(k)) by {
                            if ks.contains(k) {
                                let j = choose|j: int| 0 <= j < ks.len() && ks[j] == k;
                                lemma_bucket_keys_ascend(rs, ck);
                                if j > n {
                                    assert(text_lt(ks[n as int], ks[j]));
                                    crate::text::lemma_text_lt_transitive(k, ks[n as int], k);
                                }
                                crate::text::lemma_text_lt_irreflexive(k);
                            }
                        }
                        lemma_no_members(rs, ck, k);
                        assert(block_view(fresh@) =~= bucket_members(rs1, ck, k));
                    }
                    keys.insert(n, key);
                    groups.insert(n, fresh);
                    proof {
                        assert(texts(keys@) =~= ks.insert(n as int, k));
                        assert forall|j: int| 0 <= j < keys@.len() implies block_view(
                            (#[trigger] groups@[j])@,
                        ) == bucket_members(rs1, ck, keys@[j]@) by {
                            if j < n {
                                assert(groups@[j] == groups0[j] && keys@[j] == keys0[j]);
                                assert(ks[j] == keys0[j]@);
                            } else if j > n {
                                assert(groups@[j] == groups0[j - 1] && keys@[j] == keys0[j - 1]);
                                assert(ks[j - 1] == keys0[j - 1]@);
                            }
                        }
                    }
                }
            },
        }
        i += 1;
    }
    assert(all.take(records@.len() as int) =~= all);
    let ghost ks = texts(keys@);
    let mut out: Vec<Vec<&'a MatchRecord>> = Vec::new();
    let mut n: usize = 0;
    assert(ks.take(0) =~= Seq::<Seq<char>>::empty());
    assert(blocks_view(out@) =~= Seq::<Seq<RecordV>>::empty());
    while n < keys.len()
        invariant
            n <= keys@.len(),
            ks == texts(keys@),
            keys@.len() == groups@.len(),
            blocks_view(out@) == blocks_for(all, ck, ks.take(n as int)),
            forall|j: int|
                n <= j < keys@.len() ==> block_view((#[trigger] groups@[j])@) == bucket_members(
                    all,
                    ck,
                    keys@[j]@,
                ),
        decreases keys@.len() - n,
    {
        let ghost before = out@;
        let size: usize = if groups[n].len() > BLOCK_CAP {
            BLOCK_CAP
        } else {
            groups[n].len()
        };
        let mut blk: Vec<&'a MatchRecord> = Vec::new();
        let mut m: usize = 0;
        while m < size
            invariant
                m <= size,
                n < groups@.len(),
                size <= groups@[n as int]@.len(),
                blk@ == groups@[n as int]@.take(m as int),
            decreases size - m,
        {
            blk.push(groups[n][m]);
            assert(groups@[n as int]@.take(m + 1) =~= groups@[n as int]@.take(m as int).push(
                groups@[n as int]@[m as int],
            ));
            m += 1;
        }
        proof {
            assert(ks.take(n + 1).drop_last() =~= ks.take(n as int));
            assert(ks.take(n + 1).last() == keys@[n as int]@);
            assert(block_view(blk@) =~= capped(bucket_members(all, ck, keys@[n as int]@)));
        }
        if blk.len() > 1 {
            let ghost b = block_view(blk@);
            out.push(blk);
            assert(blocks_view(out@) =~= blocks_view(before).push(b));
        }
        n += 1;
    }
    assert(ks.take(keys@.len() as int) =~= ks);
    out
}

/// The buckets stand in text order.
pub proof fn lemma_bucket_keys_ascend(rs: Seq<RecordV>, keys: Seq<Seq<char>>)
    ensures
        forall|i: int, j: int|
            0 <= i < j < bucket_keys(rs, keys).len() ==> text_lt(
                #[trigger] bucket_keys(rs, keys)[i],
                #[trigger] bucket_keys(rs, keys)[j],
            ),
    decreases rs.len(),
{
    if rs.len() > 0 {
        lemma_bucket_keys_ascend(rs.drop_last(), keys);
        if let Some(k) = bucket_key(rs.last().fields, keys) {
            lemma_key_put_ascend(bucket_keys(rs.drop_last(), keys), k);
        }
    }
}

proof fn lemma_key_put_ascend(ks: Seq<Seq<char>>, k: Seq<char>)
    requires
        forall|i: int, j: int|
            0 <= i < j < ks.len() ==> text_lt(#[trigger] ks[i], #[trigger] ks[j]),
    ensures
        forall|i: int, j: int|
            0 <= i < j < key_put(ks, k).len() ==> text_lt(
                #[trigger] key_put(ks, k)[i],
                #[trigger] key_put(ks, k)[j],
            ),
    decreases ks.len(),
{
    let p = key_put(ks, k);
    if ks.len() == 0 || ks[0] == k {
    } else if text_lt(k, ks[0]) {
        assert forall|i: int, j: int| 0 <= i < j < p.len() implies text_lt(
            #[trigger] p[i],
            #[trigger] p[j],
        ) by {
            assert(p[j] == ks[j - 1]);
            if i > 0 {
                assert(p[i] == ks[i - 1]);
            } else if j > 1 {
                assert(text_lt(ks[0], ks[j - 1]));
                crate::text::lemma_text_lt_transitive(k, ks[0], ks[j - 1]);
            }
        }
    } else {
        let d = ks.drop_first();
        let r = key_put(d, k);
        assert forall|i: int, j: int| 0 <= i < j < d.len() implies text_lt(
            #[trigger] d[i],
            #[trigger] d[j],
        ) by {
            assert(d[i] == ks[i + 1] && d[j] == ks[j + 1]);
        }
        lemma_key_put_ascend(d, k);
        assert forall|i: int, j: int| 0 <= i < j < p.len() implies text_lt(
            #[trigger] p[i],
            #[trigger] p[j],
        ) by {
            assert(p[j] == r[j - 1]);
            if i > 0 {
                assert(p[i] == r[i - 1]);
            } else {
                lemma_key_put_contains(d, k, r[j - 1]);
                assert(r.contains(r[j - 1]));
                if r[j - 1] == k {
                    crate::text::lemma_text_lt_total(ks[0], k);
                } else {
                    let m = choose|m: int| 0 <= m < d.len() && d[m] == r[j - 1];
                    assert(ks[m + 1] == r[j - 1]);
                }
            }
        }
    }
}

/// A block holds from two records to the cap, all of one bucket.
pub proof fn law_blocks_hold_one_bucket(
    rs: Seq<RecordV>,
    keys: Seq<Seq<char>>,
    i: int,
    p: int,
    q: int,
)
    requires
        0 <= i < blocks(rs, keys).len(),
        0 <= p < blocks(rs, keys)[i].len(),
        0 <= q < blocks(rs, keys)[i].len(),
    ensures
        2 <= blocks(rs, keys)[i].len() <= BLOCK_CAP,
        bucket_key(blocks(rs, keys)[i][p].fields, keys) is Some,
        bucket_key(blocks(rs, keys)[i][p].fields, keys) == bucket_key(
            blocks(rs, keys)[i][q].fields,
            keys,
        ),
{
    lemma_block_of(rs, keys, bucket_keys(rs, keys), i);
    let k = choose|k: Seq<char>|
        blocks(rs, keys)[i] == capped(#[trigger] bucket_members(rs, keys, k)) && capped(
            bucket_members(rs, keys, k),
        ).len() > 1;
    lemma_members_bucket(rs, keys, k, p);
    lemma_members_bucket(rs, keys, k, q);
}

pub proof fn lemma_block_of(rs: Seq<RecordV>, keys: Seq<Seq<char>>, ks: Seq<Seq<char>>, i: int)
    requires
        0 <= i < blocks_for(rs, keys, ks).len(),
    ensures
        exists|k: Seq<char>|
            blocks_for(rs, keys, ks)[i] == capped(#[trigger] bucket_members(rs, keys, k))
                && capped(bucket_members(rs, keys, k)).len() > 1,
    decreases ks.len(),
{
    if ks.len() > 0 {
        let bs = blocks_for(rs, keys, ks.drop_last());
        if i < bs.len() {
            lemma_block_of(rs, keys, ks.drop_last(), i);
            assert(blocks_for(rs, keys, ks)[i] == bs[i]);
        }
    }
}

pub proof fn lemma_members_bucket(rs: Seq<RecordV>, keys: Seq<Seq<char>>, k: Seq<char>, p: int)
    requires
        0 <= p < bucket_members(rs, keys, k).len(),
    ensures
        bucket_key(bucket_members(rs, keys, k)[p].fields, keys) == Some(k),
    decreases rs.len(),
{
    if rs.len() > 0 {
        let g = bucket_members(rs.drop_last(), keys, k);
        if p < g.len() {
            lemma_members_bucket(rs.drop_last(), keys, k, p);
        }
    }
}

/// Whether a record of this id is among the records.
pub open spec fn has_id(b: Seq<RecordV>, id: i64) -> bool {
    exists|i: int| 0 <= i < b.len() && (#[trigger] b[i]).id == id
}

/// The candidates in one block: the records of another id that score at least 80.
pub open spec fn block_candidates(
    target: RecordV,
    b: Seq<RecordV>,
    specs: Seq<FieldSpecV>,
) -> Seq<MatchCandidate>
    decreases b.len(),
{
    if b.len() == 0 {
        Seq::empty()
    } else {
        let cs = block_candidates(target, b.drop_last(), specs);
        let r = b.last();
        let score = similarity(target.fields, r.fields, specs);
        if r.id == target.id || decision_of(score) == Decision::NoMatch {
            cs
        } else {
            cs.push(
                MatchCandidate {
                    record_id: r.id,
                    score: score as u8,
                    decision: decision_of(score),
                },
            )
        }
    }
}

/// The candidates in the blocks that hold the target's id.
pub open spec fn all_candidates(
    target: RecordV,
    bs: Seq<Seq<RecordV>>,
    specs: Seq<FieldSpecV>,
) -> Seq<MatchCandidate>
    decreases bs.len(),
{
    if bs.len() == 0 {
        Seq::empty()
    } else {
        let cs = all_candidates(target, bs.drop_last(), specs);
        if has_id(bs.last(), target.id) {
            cs + block_candidates(target, bs.last(), specs)
        } else {
            cs
        }
    }
}

/// The candidates for a target, best first.
pub open spec fn candidates(
    target: RecordV,
    all: Seq<RecordV>,
    specs: Seq<FieldSpecV>,
    keys: Seq<Seq<char>>,
) -> Seq<MatchCandidate> {
    sort_desc(
        all_candidates(target, blocks(seq![target] + all, keys), specs),
        |c: MatchCandidate| c.score as int,
    )
}

impl Scored for MatchCandidate {
    open spec fn score_of(&self) -> int {
        self.score as int
    }

    fn score(&self) -> (s: u8) {
        self.score
    }
}

/// Finds the records that resemble the target: those of its block, of another id, that score at
/// least 80, best first.
pub fn find_candidates(
    target: &MatchRecord,
    all: &[MatchRecord],
    specs: &[MatchFieldSpec],
    cluster_keys: &[&str],
) -> (out: Vec<MatchCandidate>)
    ensures
        out@ == candidates(
            target@,
            records_view(all@),
            specs_view(specs@),
            keys_view(cluster_keys@),
        ),
{
    let ghost sv = specs_view(specs@);
    let mut input: Vec<MatchRecord> = Vec::new();
    input.push(target.clone());
    let mut i: usize = 0;
    while i < all.len()
        invariant
            i <= all@.len(),
            input@.len() == i + 1,
            input@[0]@ == target@,
            forall|j: int| 0 <= j < i ==> (#[trigger] input@[j + 1])@ == all@[j]@,
        decreases all@.len() - i,
    {
        input.push(all[i].clone());
        i += 1;
    }
    assert(records_view(input@) =~= seq![target@] + records_view(all@)) by {
        assert forall|j: int| 0 < j < input@.len() implies (#[trigger] input@[j])@ == all@[j
            - 1]@ by {
            assert(input@[(j - 1) + 1]@ == all@[j - 1]@);
        }
    }
    let found = blocking(input.as_slice(), cluster_keys);
    let ghost bs = blocks_view(found@);
    let mut out: Vec<MatchCandidate> = Vec::new();
    let mut n: usize = 0;
    assert(bs.take(0) =~= Seq::<Seq<RecordV>>::empty());
    while n < found.len()
        invariant
            n <= found@.len(),
            bs == blocks_view(found@),
            sv == specs_view(specs@),
            out@ == all_candidates(target@, bs.take(n as int), sv),
        decreases found@.len() - n,
    {
        let ghost b = bs[n as int];
        assert(b == block_view(found@[n as int]@));
        assert(bs.take(n + 1).drop_last() =~= bs.take(n as int));
        assert(bs.take(n + 1).last() == b);
        let mut present = false;
        let mut m: usize = 0;
        while m < found[n].len()
            invariant
                m <= found@[n as int]@.len(),
                n < found@.len(),
                b == block_view(found@[n as int]@),
                present == (exists|j: int| 0 <= j < m && (#[trigger] b[j]).id == target.id),
            decreases found@[n as int]@.len() - m,
        {
            assert(b[m as int] == found@[n as int]@[m as int]@);
            if found[n][m].id == target.id {
                present = true;
            }
            m += 1;
        }
        assert(present == has_id(b, target.id)) by {
            if has_id(b, target.id) {
                let j = choose|j: int| 0 <= j < b.len() && (#[trigger] b[j]).id == target.id;
                assert(b[j].id == target.id);
            }
        }
        if present {
            let ghost before = out@;
            let mut m: usize = 0;
            assert(b.take(0) =~= Seq::<RecordV>::empty());
            assert(out@ =~= before + block_candidates(target@, b.take(0), sv));
            while m < found[n].len()
                invariant
                    m <= found@[n as int]@.len(),
                    n < found@.len(),
                    b == block_view(found@[n as int]@),
                    sv == specs_view(specs@),
                    out@ == before + block_candidates(target@, b.take(m as int), sv),
                decreases found@[n as int]@.len() - m,
            {
                let r: &MatchRecord = found[n][m];
                assert(b.take(m + 1).drop_last() =~= b.take(m as int));
                assert(b.take(m + 1).last() == r@);
                if r.id != target.id {
                    let score: u8 = compare(target, r, specs);
                    let decision = decide(score);
                    if decision != Decision::NoMatch {
                        out.push(MatchCandidate { record_id: r.id, score, decision });
                    }
                }
                assert(out@ =~= before + block_candidates(target@, b.take(m + 1), sv));
                m += 1;
            }
            assert(b.take(b.len() as int) =~= b);
        }
        n += 1;
    }
    assert(bs.take(bs.len() as int) =~= bs);
    proof {
        let f = |c: MatchCandidate| c.score as int;
        let g = |x: MatchCandidate| x.score_of();
        assert(f =~= g);
    }
    sort_by_score(out)
}

pub proof fn lemma_block_candidates(target: RecordV, b: Seq<RecordV>, specs: Seq<FieldSpecV>, i: int)
    requires
        0 <= i < block_candidates(target, b, specs).len(),
    ensures
        block_candidates(target, b, specs)[i].record_id != target.id,
        80 <= block_candidates(target, b, specs)[i].score <= 100,
        block_candidates(target, b, specs)[i].decision == decision_of(
            block_candidates(target, b, specs)[i].score as nat,
        ),
        exists|j: int|
            0 <= j < b.len() && (#[trigger] b[j]).id == block_candidates(
                target,
                b,
                specs,
            )[i].record_id && similarity(target.fields, b[j].fields, specs) == block_candidates(
                target,
                b,
                specs,
            )[i].score,
    decreases b.len(),
{
    if b.len() > 0 {
        let cs = block_candidates(target, b.drop_last(), specs);
        law_similarity_bounded(target.fields, b.last().fields, specs);
        if i < cs.len() {
            lemma_block_candidates(target, b.drop_last(), specs, i);
            let j = choose|j: int|
                0 <= j < b.drop_last().len() && (#[trigger] b.drop_last()[j]).id
                    == cs[i].record_id && similarity(
                    target.fields,
                    b.drop_last()[j].fields,
                    specs,
                ) == cs[i].score;
            assert(b[j] == b.drop_last()[j]);
        } else {
            assert(b[b.len() - 1] == b.last());
        }
    }
}

proof fn lemma_all_candidates(
    target: RecordV,
    bs: Seq<Seq<RecordV>>,
    specs: Seq<FieldSpecV>,
    i: int,
)
    requires
        0 <= i < all_candidates(target, bs, specs).len(),
    ensures
        all_candidates(target, bs, specs)[i].record_id != target.id,
        80 <= all_candidates(target, bs, specs)[i].score <= 100,
        all_candidates(target, bs, specs)[i].decision == decision_of(
            all_candidates(target, bs, specs)[i].score as nat,
        ),
    decreases bs.len(),
{
    if bs.len() > 0 {
        let cs = all_candidates(target, bs.drop_last(), specs);
        if i < cs.len() {
            lemma_all_candidates(target, bs.drop_last(), specs, i);
        } else {
            lemma_block_candidates(target, bs.last(), specs, i - cs.len());
        }
    }
}

/// A search never returns the target itself nor a score below 80, and returns the best first.
pub proof fn law_candidates(
    target: RecordV,
    all: Seq<RecordV>,
    specs: Seq<FieldSpecV>,
    keys: Seq<Seq<char>>,
)
    ensures
        forall|i: int|
            0 <= i < candidates(target, all, specs, keys).len() ==> {
                let c = #[trigger] candidates(target, all, specs, keys)[i];
                &&& c.record_id != target.id
                &&& 80 <= c.score <= 100
                &&& c.decision == decision_of(c.score as nat)
                &&& c.decision != Decision::NoMatch
            },
        forall|i: int, j: int|
            0 <= i < j < candidates(target, all, specs, keys).len() ==> (
            #[trigger] candidates(target, all, specs, keys)[i]).score >= (#[trigger] candidates(
                target,
                all,
                specs,
                keys,
            )[j]).score,
{
    let bs = blocks(seq![target] + all, keys);
    let u = all_candidates(target, bs, specs);
    let f = |c: MatchCandidate| c.score as int;
    let s = sort_desc(u, f);
    crate::order::law_sort_desc(u, f);
    assert forall|i: int| 0 <= i < s.len() implies {
        let c = #[trigger] s[i];
        &&& c.record_id != target.id
        &&& 80 <= c.score <= 100
        &&& c.decision == decision_of(c.score as nat)
        &&& c.decision != Decision::NoMatch
    } by {
        s.to_multiset_ensures();
        u.to_multiset_ensures();
        assert(s.to_multiset().count(s[i]) > 0);
        assert(u.contains(s[i]));
        let j = choose|j: int| 0 <= j < u.len() && u[j] == s[i];
        lemma_all_candidates(target, bs, specs, j);
    }
    assert forall|i: int, j: int| 0 <= i < j < s.len() implies (#[trigger] s[i]).score >= (
    #[trigger] s[j]).score by {
        assert(f(s[i]) >= f(s[j]));
    }
}

/// The greater of two scores that may be missing.
pub open spec fn opt_max(a: Option<u8>, b: Option<u8>) -> Option<u8> {
    match (a, b) {
        (None, _) => b,
        (_, None) => a,
        (Some(x), Some(y)) => if x >= y {
            Some(x)
        } else {
            Some(y)
        },
    }
}

/// The score of the pair `(i, j)` where it reaches `min` and record `id` is part of it.
pub open spec fn pair_hit(
    b: Seq<RecordV>,
    specs: Seq<FieldSpecV>,
    min: u8,
    id: i64,
    i: int,
    j: int,
) -> Option<u8> {
    let s = similarity(b[i].fields, b[j].fields, specs) as u8;
    if s >= min && (b[i].id == id || b[j].id == id) {
        Some(s)
    } else {
        None
    }
}

/// The best hit among the pairs `(i, k)` with `i < k < j`.
pub open spec fn row_best(
    b: Seq<RecordV>,
    specs: Seq<FieldSpecV>,
    min: u8,
    id: i64,
    i: int,
    j: int,
) -> Option<u8>
    decreases j - i,
{
    if j <= i + 1 {
        None
    } else {
        opt_max(row_best(b, specs, min, id, i, j - 1), pair_hit(b, specs, min, id, i, j - 1))
    }
}

/// The best hit among the pairs whose first record stands before `i`.
pub open spec fn rows_best(
    b: Seq<RecordV>,
    specs: Seq<FieldSpecV>,
    min: u8,
    id: i64,
    i: int,
) -> Option<u8>
    decreases i,
{
    if i <= 0 {
        None
    } else {
        opt_max(
            rows_best(b, specs, min, id, i - 1),
            row_best(b, specs, min, id, i - 1, b.len() as int),
        )
    }
}

/// The best score of a pair in the block that record `id` is part of, if one reaches `min`.
pub open spec fn best_score(
    b: Seq<RecordV>,
    specs: Seq<FieldSpecV>,
    min: u8,
    id: i64,
) -> Option<u8> {
    rows_best(b, specs, min, id, b.len() as int)
}

/// What a cluster member stands for.
#[verifier::ext_equal]
pub struct MemberV {
    pub record_id: i64,
    pub score: u8,
    pub fields: ObjV,
}

impl MatchClusterMember {
    pub open spec fn view(&self) -> MemberV {
        MemberV { record_id: self.record_id, score: self.score, fields: self.fields@ }
    }
}

/// What a cluster stands for.
#[verifier::ext_equal]
pub struct ClusterV {
    pub cluster_key: Seq<char>,
    pub members: Seq<MemberV>,
}

impl DupCluster {
    pub open spec fn view(&self) -> ClusterV {
        ClusterV {
            cluster_key: self.cluster_key@,
            members: self.members@.map_values(|m: MatchClusterMember| m@),
        }
    }
}

/// The records of the block prefix `p` that have a best score in the block `b`.
pub open spec fn hit_members(
    b: Seq<RecordV>,
    specs: Seq<FieldSpecV>,
    min: u8,
    p: Seq<RecordV>,
) -> Seq<MemberV>
    decreases p.len(),
{
    if p.len() == 0 {
        Seq::empty()
    } else {
        let ms = hit_members(b, specs, min, p.drop_last());
        match best_score(b, specs, min, p.last().id) {
            Some(s) => ms.push(
                MemberV { record_id: p.last().id, score: s, fields: p.last().fields },
            ),
            None => ms,
        }
    }
}

/// Whether records of two different ids have a best score in the block.
pub open spec fn has_duplicates(b: Seq<RecordV>, specs: Seq<FieldSpecV>, min: u8) -> bool {
    exists|p: i64, q: i64|
        p != q && (#[trigger] best_score(b, specs, min, p)) is Some && (#[trigger] best_score(
            b,
            specs,
            min,
            q,
        )) is Some
}

/// The clusters of the blocks, in their order: for each block with duplicates its members by
/// descending score.
pub open spec fn block_clusters(
    bs: Seq<Seq<RecordV>>,
    specs: Seq<FieldSpecV>,
    keys: Seq<Seq<char>>,
    min: u8,
) -> Seq<ClusterV>
    decreases bs.len(),
{
    if bs.len() == 0 {
        Seq::empty()
    } else {
        let cs = block_clusters(bs.drop_last(), specs, keys, min);
        let b = bs.last();
        if has_duplicates(b, specs, min) {
            cs.push(
                ClusterV {
                    cluster_key: match bucket_key(b[0].fields, keys) {
                        Some(k) => k,
                        None => Seq::empty(),
                    },
                    members: sort_desc(
                        hit_members(b, specs, min, b),
                        |m: MemberV| m.score as int,
                    ),
                },
            )
        } else {
            cs
        }
    }
}

/// The score of a cluster: that of its first member.
pub open spec fn cluster_score(c: ClusterV) -> int {
    if c.members.len() > 0 {
        c.members[0].score as int
    } else {
        0
    }
}

/// The clusters of duplicates, best first.
pub open spec fn clusters(
    rs: Seq<RecordV>,
    specs: Seq<FieldSpecV>,
    keys: Seq<Seq<char>>,
    min: u8,
) -> Seq<ClusterV> {
    sort_desc(
        block_clusters(blocks(rs, keys), specs, keys, min),
        |c: ClusterV| cluster_score(c),
    )
}

impl Scored for MatchClusterMember {
    open spec fn score_of(&self) -> int {
        self.score as int
    }

    fn score(&self) -> (s: u8) {
        self.score
    }
}

impl Scored for DupCluster {
    open spec fn score_of(&self) -> int {
        cluster_score(self@)
    }

    fn score(&self) -> (s: u8) {
        if self.members.len() > 0 {
            self.members[0].score
        } else {
            0
        }
    }
}

/// Records a hit of `id`.
fn note_hit(best: &mut HashMap<i64, u8>, id: i64, s: u8)
    ensures
        final(best)@ == old(best)@.insert(
            id,
            if old(best)@.contains_key(id) && old(best)@[id] >= s {
                old(best)@[id]
            } else {
                s
            },
        ),
{
    broadcast use group_hash_axioms;

    let v: u8 = match best.get(&id) {
        Some(m) => if *m >= s {
            *m
        } else {
            s
        },
        None => s,
    };
    best.insert(id, v);
}

/// What a table of best scores holds of `id`.
pub open spec fn noted(best: Map<i64, u8>, id: i64) -> Option<u8> {
    if best.contains_key(id) {
        Some(best[id])
    } else {
        None
    }
}

/// The best score of each record id of a block.
fn best_scores(blk: &Vec<&MatchRecord>, specs: &[MatchFieldSpec], min_score: u8) -> (best: HashMap<
    i64,
    u8,
>)
    ensures
        forall|id: i64| #[trigger]
            noted(best@, id) == best_score(block_view(blk@), specs_view(specs@), min_score, id),
{
    broadcast use group_hash_axioms;

    let ghost b = block_view(blk@);
    let ghost sv = specs_view(specs@);
    let mut best: HashMap<i64, u8> = HashMap::new();
    let mut i: usize = 0;
    while i < blk.len()
        invariant
            i <= blk@.len(),
            b == block_view(blk@),
            sv == specs_view(specs@),
            forall|id: i64| #[trigger]
                noted(best@, id) == rows_best(b, sv, min_score, id, i as int),
        decreases blk@.len() - i,
    {
        let mut j: usize = i + 1;
        while j < blk.len()
            invariant
                i < j <= blk@.len(),
                b == block_view(blk@),
                sv == specs_view(specs@),
                forall|id: i64| #[trigger]
                    noted(best@, id) == opt_max(
                        rows_best(b, sv, min_score, id, i as int),
                        row_best(b, sv, min_score, id, i as int, j as int),
                    ),
            decreases blk@.len() - j,
        {
            let ghost before = best@;
            let s: u8 = compare(blk[i], blk[j], specs);
            assert(s == similarity(b[i as int].fields, b[j as int].fields, sv) as u8);
            if s >= min_score {
                note_hit(&mut best, blk[i].id, s);
                note_hit(&mut best, blk[j].id, s);
            }
            proof {
                assert forall|id: i64| #[trigger] noted(best@, id) == opt_max(
                    rows_best(b, sv, min_score, id, i as int),
                    row_best(b, sv, min_score, id, i as int, j + 1),
                ) by {
                    assert(noted(before, id) == opt_max(
                        rows_best(b, sv, min_score, id, i as int),
                        row_best(b, sv, min_score, id, i as int, j as int),
                    ));
                    assert(noted(best@, id) == opt_max(
                        noted(before, id),
                        pair_hit(b, sv, min_score, id, i as int, j as int),
                    ));
                }
            }
            j += 1;
        }
        i += 1;
    }
    best
}

/// A table of best scores has two entries exactly where two ids have one.
proof fn lemma_two_noted(best: Map<i64, u8>)
    requires
        best.dom().finite(),
    ensures
        best.len() >= 2 <==> exists|p: i64, q: i64|
            p != q && (#[trigger] noted(best, p)) is Some && (#[trigger] noted(best, q)) is Some,
{
    let d = best.dom();
    if d.len() >= 2 {
        let p = d.choose();
        assert(d.contains(p));
        let e = d.remove(p);
        assert(e.len() >= 1);
        let q = e.choose();
        assert(e.contains(q));
        assert(noted(best, p) is Some && noted(best, q) is Some);
    }
    if exists|p: i64, q: i64|
        p != q && (#[trigger] noted(best, p)) is Some && (#[trigger] noted(best, q)) is Some {
        let (p, q) = choose|p: i64, q: i64|
            p != q && (#[trigger] noted(best, p)) is Some && (#[trigger] noted(best, q)) is Some;
        let e = d.remove(p);
        assert(e.contains(q));
        assert(e.remove(q).len() + 1 == e.len());
        assert(e.len() + 1 == d.len());
    }
}

/// Finds the clusters of duplicates: in each block the records that are part of a pair scoring
/// at least `min_score`, where there are two different ones; best first, within a cluster and
/// between clusters.
pub fn scan_clusters(
    suspects: &[MatchRecord],
    specs: &[MatchFieldSpec],
    cluster_keys: &[&str],
    min_score: u8,
) -> (out: Vec<DupCluster>)
    ensures
        out@.map_values(|c: DupCluster| c@) == clusters(
            records_view(suspects@),
            specs_view(specs@),
            keys_view(cluster_keys@),
            min_score,
        ),
{
    broadcast use group_hash_axioms;

    let ghost sv = specs_view(specs@);
    let ghost ck = keys_view(cluster_keys@);
    let ghost rs = records_view(suspects@);
    let ghost see = |c: DupCluster| c@;
    let found = blocking(suspects, cluster_keys);
    let ghost bs = blocks_view(found@);
    let mut out: Vec<DupCluster> = Vec::new();
    let mut n: usize = 0;
    assert(bs.take(0) =~= Seq::<Seq<RecordV>>::empty());
    assert(out@.map_values(see) =~= Seq::<ClusterV>::empty());
    while n < found.len()
        invariant
            n <= found@.len(),
            bs == blocks_view(found@),
            bs == blocks(rs, ck),
            sv == specs_view(specs@),
            ck == keys_view(cluster_keys@),
            see == (|c: DupCluster| c@),
            out@.map_values(see) == block_clusters(bs.take(n as int), sv, ck, min_score),
        decreases found@.len() - n,
    {
        let ghost before = out@;
        let ghost b = bs[n as int];
        let blk = &found[n];
        proof {
            assert(b == block_view(blk@));
            assert(bs.take(n + 1).drop_last() =~= bs.take(n as int));
            assert(bs.take(n + 1).last() == b);
            lemma_block_of(rs, ck, bucket_keys(rs, ck), n as int);
        }
        let best = best_scores(blk, specs, min_score);
        proof {
            lemma_two_noted(best@);
            if best@.len() >= 2 {
                let (p, q) = choose|p: i64, q: i64|
                    p != q && (#[trigger] noted(best@, p)) is Some && (#[trigger] noted(
                        best@,
                        q,
                    )) is Some;
                assert(best_score(b, sv, min_score, p) is Some && best_score(
                    b,
                    sv,
                    min_score,
                    q,
                ) is Some);
            }
            if has_duplicates(b, sv, min_score) {
                let (p, q) = choose|p: i64, q: i64|
                    p != q && (#[trigger] best_score(b, sv, min_score, p)) is Some && (
                    #[trigger] best_score(b, sv, min_score, q)) is Some;
                assert(noted(best@, p) is Some && noted(best@, q) is Some);
            }
            assert(best@.len() >= 2 <==> has_duplicates(b, sv, min_score));
        }
        if best.len() >= 2 {
            assert(b.len() > 1);
            let cluster_key: String = match bucket_of(&blk[0].fields, cluster_keys) {
                Some(k) => k,
                None => String::new(),
            };
            let ghost look = |m: MatchClusterMember| m@;
            let mut members: Vec<MatchClusterMember> = Vec::new();
            let mut m: usize = 0;
            assert(b.take(0) =~= Seq::<RecordV>::empty());
            assert(members@.map_values(look) =~= Seq::<MemberV>::empty());
            while m < blk.len()
                invariant
                    m <= blk@.len(),
                    b == block_view(blk@),
                    look == (|m: MatchClusterMember| m@),
                    forall|id: i64| #[trigger]
                        noted(best@, id) == best_score(b, sv, min_score, id),
                    members@.map_values(look) == hit_members(
                        b,
                        sv,
                        min_score,
                        b.take(m as int),
                    ),
                decreases blk@.len() - m,
            {
                let r: &MatchRecord = blk[m];
                let ghost had = members@;
                assert(b.take(m + 1).drop_last() =~= b.take(m as int));
                assert(b.take(m + 1).last() == r@);
                assert(noted(best@, r.id) == best_score(b, sv, min_score, r.id));
                if let Some(s) = best.get(&r.id) {
                    members.push(
                        MatchClusterMember {
                            record_id: r.id,
                            score: *s,
                            fields: r.fields.clone(),
                        },
                    );
                    assert(members@.map_values(look) =~= had.map_values(look).push(
                        MemberV { record_id: r.id, score: *s, fields: r.fields@ },
                    ));
                }
                m += 1;
            }
            assert(b.take(b.len() as int) =~= b);
            let ghost unsorted = members@;
            let members = sort_by_score(members);
            proof {
                let f = |x: MatchClusterMember| x.score_of();
                let g = |m: MemberV| m.score as int;
                assert forall|x: MatchClusterMember| #[trigger] g(look(x)) == f(x) by {}
                lemma_sort_map(unsorted, look, f, g);
            }
            let c = DupCluster { cluster_key, members };
            let ghost cv = c@;
            out.push(c);
            assert(out@.map_values(see) =~= before.map_values(see).push(cv));
        }
        n += 1;
    }
    assert(bs.take(bs.len() as int) =~= bs);
    let ghost unsorted = out@;
    let out = sort_by_score(out);
    proof {
        let f = |x: DupCluster| x.score_of();
        let g = |c: ClusterV| cluster_score(c);
        assert forall|x: DupCluster| #[trigger] g(see(x)) == f(x) by {}
        lemma_sort_map(unsorted, see, f, g);
    }
    out
}

proof fn lemma_row_best(
    b: Seq<RecordV>,
    specs: Seq<FieldSpecV>,
    min: u8,
    id: i64,
    i: int,
    j: int,
)
    requires
        0 <= i < b.len(),
        j <= b.len(),
        row_best(b, specs, min, id, i, j) is Some,
    ensures
        row_best(b, specs, min, id, i, j).unwrap() >= min,
        has_id(b, id),
    decreases j - i,
{
    if j > i + 1 {
        if row_best(b, specs, min, id, i, j - 1) is Some {
            lemma_row_best(b, specs, min, id, i, j - 1);
        } else {
            assert(b[i].id == id || b[j - 1].id == id);
        }
    }
}

proof fn lemma_rows_best(b: Seq<RecordV>, specs: Seq<FieldSpecV>, min: u8, id: i64, i: int)
    requires
        i <= b.len(),
        rows_best(b, specs, min, id, i) is Some,
    ensures
        rows_best(b, specs, min, id, i).unwrap() >= min,
        has_id(b, id),
    decreases i,
{
    if i > 0 {
        if rows_best(b, specs, min, id, i - 1) is Some {
            lemma_rows_best(b, specs, min, id, i - 1);
        }
        if row_best(b, specs, min, id, i - 1, b.len() as int) is Some {
            lemma_row_best(b, specs, min, id, i - 1, b.len() as int);
        }
    }
}

proof fn lemma_hit_members(
    b: Seq<RecordV>,
    specs: Seq<FieldSpecV>,
    min: u8,
    p: Seq<RecordV>,
)
    ensures
        forall|i: int|
            0 <= i < p.len() && best_score(b, specs, min, (#[trigger] p[i]).id) is Some
                ==> exists|m: int|
                0 <= m < hit_members(b, specs, min, p).len() && (#[trigger] hit_members(
                    b,
                    specs,
                    min,
                    p,
                )[m]).record_id == p[i].id,
        forall|m: int|
            0 <= m < hit_members(b, specs, min, p).len() ==> (#[trigger] hit_members(
                b,
                specs,
                min,
                p,
            )[m]).score >= min,
    decreases p.len(),
{
    if p.len() > 0 {
        let d = p.drop_last();
        lemma_hit_members(b, specs, min, d);
        let hd = hit_members(b, specs, min, d);
        let h = hit_members(b, specs, min, p);
        if best_score(b, specs, min, p.last().id) is Some {
            lemma_rows_best(b, specs, min, p.last().id, b.len() as int);
            assert(h[h.len() - 1].record_id == p.last().id);
        }
        assert forall|i: int|
            0 <= i < p.len() && best_score(b, specs, min, (#[trigger] p[i]).id) is Some implies exists|
            m: int,
        |
            0 <= m < h.len() && (#[trigger] h[m]).record_id == p[i].id by {
            if i < d.len() {
                assert(d[i] == p[i]);
                let m = choose|m: int| 0 <= m < hd.len() && (#[trigger] hd[m]).record_id == d[i].id;
                assert(h[m] == hd[m]);
            }
        }
        assert forall|m: int| 0 <= m < h.len() implies (#[trigger] h[m]).score >= min by {
            if m < hd.len() {
                assert(h[m] == hd[m]);
            }
        }
    }
}

/// A well-made cluster: at least two members, none below `min`, best first.
pub open spec fn cluster_ok(c: ClusterV, min: u8) -> bool {
    &&& c.members.len() >= 2
    &&& forall|m: int| 0 <= m < c.members.len() ==> (#[trigger] c.members[m]).score >= min
    &&& forall|i: int, j: int|
        0 <= i < j < c.members.len() ==> (#[trigger] c.members[i]).score >= (
        #[trigger] c.members[j]).score
}

proof fn lemma_block_clusters(
    bs: Seq<Seq<RecordV>>,
    specs: Seq<FieldSpecV>,
    keys: Seq<Seq<char>>,
    min: u8,
    n: int,
)
    requires
        0 <= n < block_clusters(bs, specs, keys, min).len(),
    ensures
        cluster_ok(block_clusters(bs, specs, keys, min)[n], min),
    decreases bs.len(),
{
    if bs.len() > 0 {
        let cs = block_clusters(bs.drop_last(), specs, keys, min);
        if n < cs.len() {
            lemma_block_clusters(bs.drop_last(), specs, keys, min, n);
        } else {
            let b = bs.last();
            let f = |m: MemberV| m.score as int;
            let h = hit_members(b, specs, min, b);
            let t = sort_desc(h, f);
            lemma_hit_members(b, specs, min, b);
            crate::order::law_sort_desc(h, f);
            let (p, q) = choose|p: i64, q: i64|
                p != q && (#[trigger] best_score(b, specs, min, p)) is Some && (
                #[trigger] best_score(b, specs, min, q)) is Some;
            lemma_rows_best(b, specs, min, p, b.len() as int);
            lemma_rows_best(b, specs, min, q, b.len() as int);
            let ip = choose|i: int| 0 <= i < b.len() && (#[trigger] b[i]).id == p;
            let iq = choose|i: int| 0 <= i < b.len() && (#[trigger] b[i]).id == q;
            assert(b[ip].id == p && b[iq].id == q);
            let mp = choose|m: int| 0 <= m < h.len() && (#[trigger] h[m]).record_id == p;
            let mq = choose|m: int| 0 <= m < h.len() && (#[trigger] h[m]).record_id == q;
            assert(mp != mq);
            assert forall|m: int| 0 <= m < t.len() implies (#[trigger] t[m]).score >= min by {
                t.to_multiset_ensures();
                h.to_multiset_ensures();
                assert(t.to_multiset().count(t[m]) > 0);
                assert(h.contains(t[m]));
            }
            assert forall|i: int, j: int| 0 <= i < j < t.len() implies (#[trigger] t[i]).score >= (
            #[trigger] t[j]).score by {
                assert(f(t[i]) >= f(t[j]));
            }
        }
    }
}

/// Every cluster of a scan has at least two members, none of them below the minimum, and stands
/// before the clusters and members that score less.
pub proof fn law_clusters(
    rs: Seq<RecordV>,
    specs: Seq<FieldSpecV>,
    keys: Seq<Seq<char>>,
    min: u8,
)
    ensures
        forall|n: int|
            0 <= n < clusters(rs, specs, keys, min).len() ==> cluster_ok(
                #[trigger] clusters(rs, specs, keys, min)[n],
                min,
            ),
        forall|i: int, j: int|
            0 <= i < j < clusters(rs, specs, keys, min).len() ==> cluster_score(
                #[trigger] clusters(rs, specs, keys, min)[i],
            ) >= cluster_score(#[trigger] clusters(rs, specs, keys, min)[j]),
{
    let bs = blocks(rs, keys);
    let u = block_clusters(bs, specs, keys, min);
    let f = |c: ClusterV| cluster_score(c);
    let s = sort_desc(u, f);
    crate::order::law_sort_desc(u, f);
    assert forall|n: int| 0 <= n < s.len() implies cluster_ok(#[trigger] s[n], min) by {
        s.to_multiset_ensures();
        u.to_multiset_ensures();
        assert(s.to_multiset().count(s[n]) > 0);
        assert(u.contains(s[n]));
        let j = choose|j: int| 0 <= j < u.len() && u[j] == s[n];
        lemma_block_clusters(bs, specs, keys, min, j);
    }
    assert forall|i: int, j: int| 0 <= i < j < s.len() implies cluster_score(#[trigger] s[i])
        >= cluster_score(#[trigger] s[j]) by {
        assert(f(s[i]) >= f(s[j]));
    }
}

} // verus!
