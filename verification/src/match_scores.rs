//! What a score means: which fields count, how much, and how far two texts are apart.

use crate::json::{obj_get, JsonV, ObjV};
use crate::match_algo::{
    bucket_key, decision_of, edit_distance, field_text, law_edit_distance_bounded,
    law_edit_distance_symmetric, score_sum, similarity, spec_counts, text_score, weight_sum,
    Decision, FieldKind, FieldSpecV,
};
use crate::outside::json_text;
use vstd::prelude::*;

verus! {

/// The text that a record shows in a field: none where it has no value there or null.
pub open spec fn shown(o: ObjV, f: Seq<char>) -> Seq<char> {
    match obj_get(o, f) {
        None => Seq::empty(),
        Some(JsonV::Null) => Seq::empty(),
        Some(JsonV::Str(s)) => s,
        Some(v) => json_text(v),
    }
}

/// The length of the longer of two texts.
pub open spec fn longer(x: Seq<char>, y: Seq<char>) -> nat {
    if x.len() >= y.len() {
        x.len()
    } else {
        y.len()
    }
}

/// `n` is `a / b` without the remainder.
pub open spec fn whole_part(n: int, a: int, b: int) -> bool {
    b * n <= a < b * (n + 1)
}

/// The points that two texts get: all where they are the same and none where they are not, or
/// the share of the longer text that an edit leaves alone.
pub open spec fn is_points(kind: FieldKind, x: Seq<char>, y: Seq<char>, p: int) -> bool {
    match kind {
        FieldKind::Exact => p == (if x == y {
            100int
        } else {
            0int
        }),
        FieldKind::EditDistance => whole_part(
            p,
            100 * (longer(x, y) - edit_distance(x, y)),
            longer(x, y) as int,
        ),
    }
}

proof fn lemma_points(kind: FieldKind, a: ObjV, b: ObjV, f: Seq<char>)
    requires
        shown(a, f).len() > 0 || shown(b, f).len() > 0,
    ensures
        is_points(
            kind,
            shown(a, f),
            shown(b, f),
            text_score(kind, field_text(a, f), field_text(b, f)) as int,
        ),
{
    let x = shown(a, f);
    let y = shown(b, f);
    let n = longer(x, y) as int;
    let d = edit_distance(x, y) as int;
    law_edit_distance_bounded(x, y);
    assert(field_text(a, f) is None ==> x =~= Seq::empty());
    assert(field_text(b, f) is None ==> y =~= Seq::empty());
    if kind == FieldKind::EditDistance {
        assert(n * (100 * (n - d) / n) <= 100 * (n - d) < n * (100 * (n - d) / n + 1)
            && 100 * (n - d) / n >= 0) by (nonlinear_arith)
            requires
                n > 0,
                0 <= d <= n,
        ;
        if x.len() == 0 || y.len() == 0 {
            assert(d == n) by {
                if x.len() > 0 {
                    law_edit_distance_symmetric(x, y);
                }
            }
            assert(n * 0 <= 0 < n * 1) by (nonlinear_arith)
                requires
                    n > 0,
            ;
            assert(0int / n == 0) by (nonlinear_arith)
                requires
                    n > 0,
            ;
        }
    }
}

/// What a field adds to a comparison: nothing where neither record shows anything in it; else its
/// weight to the weight of all, and its points, weighted, to the score. A comparison of no fields
/// has neither.
pub proof fn law_field_adds(a: ObjV, b: ObjV, specs: Seq<FieldSpecV>, s: FieldSpecV)
    ensures
        weight_sum(a, b, Seq::empty()) == 0,
        score_sum(a, b, Seq::empty()) == 0,
        shown(a, s.field).len() == 0 && shown(b, s.field).len() == 0 ==> weight_sum(
            a,
            b,
            specs.push(s),
        ) == weight_sum(a, b, specs) && score_sum(a, b, specs.push(s)) == score_sum(a, b, specs),
        shown(a, s.field).len() > 0 || shown(b, s.field).len() > 0 ==> {
            &&& weight_sum(a, b, specs.push(s)) == weight_sum(a, b, specs) + s.weight
            &&& exists|p: int| #[trigger]
                is_points(s.kind, shown(a, s.field), shown(b, s.field), p) && score_sum(
                    a,
                    b,
                    specs.push(s),
                ) == score_sum(a, b, specs) + p * s.weight
        },
{
    assert(specs.push(s).drop_last() =~= specs);
    if shown(a, s.field).len() > 0 || shown(b, s.field).len() > 0 {
        lemma_points(s.kind, a, b, s.field);
        let p = text_score(s.kind, field_text(a, s.field), field_text(b, s.field)) as int;
        assert(is_points(s.kind, shown(a, s.field), shown(b, s.field), p));
    }
}

/// The similarity is the mean of the points by weight, without the remainder; none where nothing
/// counts.
pub proof fn law_similarity_is_mean(a: ObjV, b: ObjV, specs: Seq<FieldSpecV>)
    ensures
        weight_sum(a, b, specs) > 0 ==> whole_part(
            similarity(a, b, specs) as int,
            score_sum(a, b, specs) as int,
            weight_sum(a, b, specs) as int,
        ),
        weight_sum(a, b, specs) == 0 ==> similarity(a, b, specs) == 0,
{
    let s = score_sum(a, b, specs) as int;
    let w = weight_sum(a, b, specs) as int;
    if w > 0 {
        assert(w * (s / w) <= s < w * (s / w + 1)) by (nonlinear_arith)
            requires
                w > 0,
                s >= 0,
        ;
    }
}

/// A field in which one record shows something and the other nothing.
pub open spec fn one_sided(a: ObjV, b: ObjV, f: Seq<char>) -> bool {
    (shown(a, f).len() == 0) != (shown(b, f).len() == 0)
}

/// A field in which only one record shows something is evidence against: it leaves the score as it
/// is and raises the weight by its own, so that the similarity does not rise.
pub proof fn law_one_sided_field_counts_against(
    a: ObjV,
    b: ObjV,
    specs: Seq<FieldSpecV>,
    s: FieldSpecV,
)
    requires
        one_sided(a, b, s.field),
    ensures
        score_sum(a, b, specs.push(s)) == score_sum(a, b, specs),
        weight_sum(a, b, specs.push(s)) == weight_sum(a, b, specs) + s.weight,
        similarity(a, b, specs.push(s)) <= similarity(a, b, specs),
{
    assert(specs.push(s).drop_last() =~= specs);
    lemma_one_sided(a, b, s);
    let n = score_sum(a, b, specs) as int;
    let w = weight_sum(a, b, specs) as int;
    let v = w + s.weight;
    if w > 0 {
        assert(n / v <= n / w) by (nonlinear_arith)
            requires
                0 < w <= v,
                n >= 0,
        ;
    } else {
        lemma_no_weight(a, b, specs);
        if v > 0 {
            assert(0int / v == 0) by (nonlinear_arith)
                requires
                    v > 0,
            ;
        }
    }
}

proof fn lemma_no_weight(a: ObjV, b: ObjV, specs: Seq<FieldSpecV>)
    ensures
        score_sum(a, b, specs) <= 100 * weight_sum(a, b, specs),
    decreases specs.len(),
{
    if specs.len() > 0 {
        let s = specs.last();
        lemma_no_weight(a, b, specs.drop_last());
        crate::match_algo::law_text_score_bounded(
            s.kind,
            field_text(a, s.field),
            field_text(b, s.field),
        );
        let p = text_score(s.kind, field_text(a, s.field), field_text(b, s.field)) as int;
        let w = s.weight as int;
        assert(p * w <= 100 * w) by (nonlinear_arith)
            requires
                0 <= p <= 100,
                w >= 0,
        ;
    }
}

proof fn lemma_one_sided(a: ObjV, b: ObjV, s: FieldSpecV)
    requires
        one_sided(a, b, s.field),
    ensures
        spec_counts(a, b, s),
        text_score(s.kind, field_text(a, s.field), field_text(b, s.field)) == 0,
{
    let x = shown(a, s.field);
    let y = shown(b, s.field);
    lemma_points(s.kind, a, b, s.field);
    let p = text_score(s.kind, field_text(a, s.field), field_text(b, s.field)) as int;
    if s.kind == FieldKind::EditDistance {
        let n = longer(x, y) as int;
        if x.len() > 0 {
            law_edit_distance_symmetric(x, y);
        }
        assert(edit_distance(x, y) == n);
        assert(p == 0) by (nonlinear_arith)
            requires
                n > 0,
                n * p <= 0 < n * (p + 1),
        ;
    }
}

/// Records of which one shows nothing where the other shows something, in a field that has a
/// weight, never score 100.
pub proof fn law_one_sided_field_spoils(a: ObjV, b: ObjV, specs: Seq<FieldSpecV>, i: int)
    requires
        0 <= i < specs.len(),
        specs[i].weight > 0,
        one_sided(a, b, specs[i].field),
    ensures
        similarity(a, b, specs) < 100,
{
    lemma_spoiled(a, b, specs, i);
    let n = score_sum(a, b, specs) as int;
    let w = weight_sum(a, b, specs) as int;
    if w > 0 {
        assert(n / w < 100) by (nonlinear_arith)
            requires
                0 < w,
                n < 100 * w,
        ;
    }
}

proof fn lemma_spoiled(a: ObjV, b: ObjV, specs: Seq<FieldSpecV>, i: int)
    requires
        0 <= i < specs.len(),
        specs[i].weight > 0,
        one_sided(a, b, specs[i].field),
    ensures
        score_sum(a, b, specs) < 100 * weight_sum(a, b, specs),
    decreases specs.len(),
{
    let d = specs.drop_last();
    let s = specs.last();
    if i < d.len() {
        lemma_spoiled(a, b, d, i);
        crate::match_algo::law_text_score_bounded(
            s.kind,
            field_text(a, s.field),
            field_text(b, s.field),
        );
        let p = text_score(s.kind, field_text(a, s.field), field_text(b, s.field)) as int;
        let w = s.weight as int;
        assert(p * w <= 100 * w) by (nonlinear_arith)
            requires
                0 <= p <= 100,
                w >= 0,
        ;
    } else {
        lemma_no_weight(a, b, d);
        lemma_one_sided(a, b, s);
        assert(0 * s.weight as nat == 0);
    }
}

/// One text becomes another by a single edit: a character goes, comes or is another.
pub open spec fn one_edit(a: Seq<char>, b: Seq<char>) -> bool {
    ||| exists|i: int| 0 <= i < a.len() && b == #[trigger] a.remove(i)
    ||| exists|i: int| 0 <= i < b.len() && a == #[trigger] b.remove(i)
    ||| a.len() == b.len() && exists|i: int|
        0 <= i < a.len() && b == #[trigger] a.update(i, b[i])
}

proof fn lemma_shorter(a: Seq<char>, b: Seq<char>)
    requires
        a.len() > 0,
    ensures
        edit_distance(a.drop_last(), b) <= edit_distance(a, b) + 1,
    decreases b.len(),
{
    if b.len() > 0 {
        lemma_shorter(a, b.drop_last());
    }
}

proof fn lemma_other_last(a: Seq<char>, c: Seq<char>, b: Seq<char>)
    requires
        a.len() > 0,
        c.len() > 0,
        a.drop_last() == c.drop_last(),
    ensures
        edit_distance(a, b) <= edit_distance(c, b) + 1,
    decreases b.len(),
{
    assert(a.drop_last().len() == a.len() - 1);
    assert(c.drop_last().len() == c.len() - 1);
    assert(b.len() == 0 ==> edit_distance(a, b) == a.len() && edit_distance(c, b) == c.len());
    if b.len() > 0 {
        let r = b.drop_last();
        lemma_other_last(a, c, r);
        let p = a.drop_last();
        assert(edit_distance(a, b) <= edit_distance(p, b) + 1);
        assert(edit_distance(a, b) <= edit_distance(a, r) + 1);
        assert(edit_distance(a, b) <= edit_distance(p, r) + 1);
        assert(edit_distance(c, b) >= edit_distance(p, b) + 1 || edit_distance(c, b)
            >= edit_distance(c, r) + 1 || edit_distance(c, b) >= edit_distance(p, r));
    }
}

/// A single edit of a text takes it at most one further from another.
pub proof fn law_edit_is_a_step(a: Seq<char>, c: Seq<char>, b: Seq<char>)
    requires
        one_edit(a, c),
    ensures
        edit_distance(a, b) <= edit_distance(c, b) + 1,
    decreases a.len() + c.len() + b.len(),
{
    if a.len() > 0 && c.len() > 0 && b.len() > 0 {
        if c == a.drop_last() {
        } else if a == c.drop_last() {
            lemma_shorter(c, b);
        } else if a.drop_last() == c.drop_last() {
            lemma_other_last(a, c, b);
        } else {
            lemma_inner_edit(a, c);
            law_edit_is_a_step(a.drop_last(), c.drop_last(), b);
            law_edit_is_a_step(a, c, b.drop_last());
            law_edit_is_a_step(a.drop_last(), c.drop_last(), b.drop_last());
        }
    } else if b.len() > 0 {
        if a.len() == 0 {
            assert(c.len() == 1 ==> a =~= c.drop_last());
            if c.len() > 0 {
                lemma_shorter(c, b);
            }
        } else {
            assert(c =~= a.drop_last());
        }
    }
}

proof fn lemma_inner_edit(a: Seq<char>, c: Seq<char>)
    requires
        one_edit(a, c),
        a.len() > 0,
        c.len() > 0,
        c != a.drop_last(),
        a != c.drop_last(),
        a.drop_last() != c.drop_last(),
    ensures
        a.last() == c.last(),
        one_edit(a.drop_last(), c.drop_last()),
{
    let p = a.drop_last();
    let r = c.drop_last();
    if exists|i: int| 0 <= i < a.len() && c == #[trigger] a.remove(i) {
        let i = choose|i: int| 0 <= i < a.len() && c == #[trigger] a.remove(i);
        if i == a.len() - 1 {
            assert(c =~= a.drop_last());
        } else {
            assert(r =~= p.remove(i));
        }
    } else if exists|i: int| 0 <= i < c.len() && a == #[trigger] c.remove(i) {
        let i = choose|i: int| 0 <= i < c.len() && a == #[trigger] c.remove(i);
        if i == c.len() - 1 {
            assert(a =~= c.drop_last());
        } else {
            assert(p =~= r.remove(i));
        }
    } else {
        let i = choose|i: int| 0 <= i < a.len() && c == #[trigger] a.update(i, c[i]);
        if i == a.len() - 1 {
            assert(p =~= r);
        } else {
            assert(r =~= p.update(i, r[i]));
        }
    }
}

/// The distance of two different texts is that of a way of single edits: some edit of the one
/// takes it exactly one nearer to the other.
pub proof fn law_edit_goes_nearer(a: Seq<char>, b: Seq<char>) -> (c: Seq<char>)
    requires
        a != b,
    ensures
        one_edit(a, c),
        edit_distance(a, b) == edit_distance(c, b) + 1,
    decreases a.len() + b.len(),
{
    if b.len() == 0 {
        assert(a.len() > 0) by {
            if a.len() == 0 {
                assert(a =~= b);
            }
        }
        let c = a.drop_last();
        assert(c =~= a.remove(a.len() - 1));
        c
    } else if a.len() == 0 {
        let c = seq![b.last()];
        assert(a =~= c.remove(0));
        law_edit_is_a_step(a, c, b);
        assert(c.drop_last() =~= a);
        assert(edit_distance(c, b) <= edit_distance(c.drop_last(), b.drop_last()));
        c
    } else {
        let p = a.drop_last();
        let r = b.drop_last();
        let d = edit_distance(a, b);
        if d == edit_distance(p, b) + 1 {
            assert(p =~= a.remove(a.len() - 1));
            p
        } else if d == edit_distance(a, r) + 1 {
            let c = a.push(b.last());
            assert(a =~= c.remove(a.len() as int));
            law_edit_is_a_step(a, c, b);
            assert(c.drop_last() =~= a);
            c
        } else if a.last() != b.last() {
            let c = p.push(b.last());
            assert(c =~= a.update(a.len() - 1, c[a.len() - 1]));
            law_edit_is_a_step(a, c, b);
            assert(c.drop_last() =~= p);
            c
        } else {
            if p == r {
                assert(a =~= p.push(a.last()));
                assert(b =~= r.push(b.last()));
            }
            let q = law_edit_goes_nearer(p, r);
            let c = q.push(a.last());
            lemma_edit_before(p, q, a.last());
            assert(a =~= p.push(a.last()));
            law_edit_is_a_step(a, c, b);
            assert(c.drop_last() =~= q);
            c
        }
    }
}

proof fn lemma_edit_before(p: Seq<char>, q: Seq<char>, x: char)
    requires
        one_edit(p, q),
    ensures
        one_edit(p.push(x), q.push(x)),
{
    if exists|i: int| 0 <= i < p.len() && q == #[trigger] p.remove(i) {
        let i = choose|i: int| 0 <= i < p.len() && q == #[trigger] p.remove(i);
        assert(q.push(x) =~= p.push(x).remove(i));
    } else if exists|i: int| 0 <= i < q.len() && p == #[trigger] q.remove(i) {
        let i = choose|i: int| 0 <= i < q.len() && p == #[trigger] q.remove(i);
        assert(p.push(x) =~= q.push(x).remove(i));
    } else {
        let i = choose|i: int| 0 <= i < p.len() && q == #[trigger] p.update(i, q[i]);
        assert(q.push(x) =~= p.push(x).update(i, q.push(x)[i]));
    }
}

/// A score of 95 and more is merged, one below 80 is no match, and one between is reviewed.
pub proof fn law_decisions(score: nat)
    ensures
        decision_of(score) == Decision::AutoMerge <==> score >= 95,
        decision_of(score) == Decision::NoMatch <==> score < 80,
        decision_of(score) == Decision::Review <==> 80 <= score < 95,
{
}

/// The bucket of a record is named by the first cluster key in which it shows something, and by
/// what it shows there; a record that shows nothing in any has no bucket.
pub proof fn law_bucket_by_first_key(o: ObjV, keys: Seq<Seq<char>>, j: int)
    requires
        0 <= j <= keys.len(),
        forall|i: int| 0 <= i < j ==> shown(o, #[trigger] keys[i]).len() == 0,
        j < keys.len() ==> shown(o, keys[j]).len() > 0,
    ensures
        j < keys.len() ==> bucket_key(o, keys) == Some(keys[j] + seq![':'] + shown(o, keys[j])),
        j == keys.len() ==> bucket_key(o, keys) is None,
    decreases j,
{
    if j > 0 {
        let d = keys.drop_first();
        assert(shown(o, keys[0]).len() == 0);
        assert forall|i: int| 0 <= i < j - 1 implies shown(o, #[trigger] d[i]).len() == 0 by {
            assert(d[i] == keys[i + 1]);
        }
        law_bucket_by_first_key(o, d, j - 1);
    }
}

} // verus!
