//! Stable sorting by descending score.

use vstd::prelude::*;

verus! {

/// Something with a score.
pub trait Scored: Sized {
    spec fn score_of(&self) -> int;

    fn score(&self) -> (s: u8)
        ensures
            s == self.score_of(),
    ;
}

/// `s` with `x` behind the last of its leading items that score at least as much.
pub open spec fn place<T>(s: Seq<T>, x: T, score: spec_fn(T) -> int) -> Seq<T>
    decreases s.len(),
{
    if s.len() == 0 {
        seq![x]
    } else if score(s[0]) >= score(x) {
        seq![s[0]] + place(s.drop_first(), x, score)
    } else {
        seq![x] + s
    }
}

/// `s` by descending score; items of one score keep their order.
pub open spec fn sort_desc<T>(s: Seq<T>, score: spec_fn(T) -> int) -> Seq<T>
    decreases s.len(),
{
    if s.len() == 0 {
        s
    } else {
        place(sort_desc(s.drop_last(), score), s.last(), score)
    }
}

/// No item scores more than one before it.
pub open spec fn descends<T>(s: Seq<T>, score: spec_fn(T) -> int) -> bool {
    forall|i: int, j: int| 0 <= i < j < s.len() ==> score(#[trigger] s[i]) >= score(#[trigger] s[j])
}

pub proof fn lemma_place_at<T>(s: Seq<T>, x: T, score: spec_fn(T) -> int, n: int)
    requires
        0 <= n <= s.len(),
        forall|i: int| 0 <= i < n ==> score(#[trigger] s[i]) >= score(x),
        n < s.len() ==> score(s[n]) < score(x),
    ensures
        place(s, x, score) == s.insert(n, x),
    decreases n,
{
    if n == 0 {
        assert(s.insert(0, x) =~= seq![x] + s);
    } else {
        let d = s.drop_first();
        assert(score(s[0]) >= score(x));
        assert forall|i: int| 0 <= i < n - 1 implies score(#[trigger] d[i]) >= score(x) by {
            assert(d[i] == s[i + 1]);
        }
        if n < s.len() {
            assert(d[n - 1] == s[n]);
        }
        lemma_place_at(d, x, score, n - 1);
        assert(s.insert(n, x) =~= seq![s[0]] + d.insert(n - 1, x));
    }
}

/// The place of `x` in a descending list.
proof fn lemma_place_exists<T>(s: Seq<T>, x: T, score: spec_fn(T) -> int) -> (n: int)
    requires
        descends(s, score),
    ensures
        0 <= n <= s.len(),
        forall|i: int| 0 <= i < n ==> score(#[trigger] s[i]) >= score(x),
        forall|i: int| n <= i < s.len() ==> score(#[trigger] s[i]) < score(x),
    decreases s.len(),
{
    if s.len() == 0 || score(s[0]) < score(x) {
        0
    } else {
        let d = s.drop_first();
        assert forall|i: int, j: int| 0 <= i < j < d.len() implies score(#[trigger] d[i]) >= score(
            #[trigger] d[j],
        ) by {
            assert(d[i] == s[i + 1] && d[j] == s[j + 1]);
        }
        let m = lemma_place_exists(d, x, score);
        assert forall|i: int| 0 <= i < m + 1 implies score(#[trigger] s[i]) >= score(x) by {
            if i > 0 {
                assert(d[i - 1] == s[i]);
            }
        }
        assert forall|i: int| m + 1 <= i < s.len() implies score(#[trigger] s[i]) < score(x) by {
            assert(d[i - 1] == s[i]);
        }
        m + 1
    }
}

/// Sorting gives a descending list of the same items.
pub proof fn law_sort_desc<T>(s: Seq<T>, score: spec_fn(T) -> int)
    ensures
        descends(sort_desc(s, score), score),
        sort_desc(s, score).to_multiset() == s.to_multiset(),
        sort_desc(s, score).len() == s.len(),
    decreases s.len(),
{
    if s.len() > 0 {
        let d = s.drop_last();
        let x = s.last();
        law_sort_desc(d, score);
        let t = sort_desc(d, score);
        let n = lemma_place_exists(t, x, score);
        lemma_place_at(t, x, score, n);
        let p = t.insert(n, x);
        assert forall|i: int, j: int| 0 <= i < j < p.len() implies score(#[trigger] p[i]) >= score(
            #[trigger] p[j],
        ) by {
            let a = if i < n {
                i
            } else {
                i - 1
            };
            let b = if j < n {
                j
            } else {
                j - 1
            };
            if i != n {
                assert(p[i] == t[a]);
            }
            if j != n {
                assert(p[j] == t[b]);
            }
        }
        vstd::seq_lib::to_multiset_insert(t, n, x);
        assert(s =~= d.push(x));
        vstd::seq_lib::to_multiset_build(d, x);
    }
}

/// Mapping the items of a list commutes with sorting it, where the scores agree.
pub proof fn lemma_sort_map<T, U>(
    s: Seq<T>,
    f: spec_fn(T) -> U,
    score: spec_fn(T) -> int,
    score2: spec_fn(U) -> int,
)
    requires
        forall|x: T| #[trigger] score2(f(x)) == score(x),
    ensures
        sort_desc(s, score).map_values(f) == sort_desc(s.map_values(f), score2),
    decreases s.len(),
{
    if s.len() > 0 {
        let d = s.drop_last();
        lemma_sort_map(d, f, score, score2);
        lemma_place_map(sort_desc(d, score), s.last(), f, score, score2);
        assert(s.map_values(f).drop_last() =~= d.map_values(f));
        assert(s.map_values(f).last() == f(s.last()));
    } else {
        assert(s.map_values(f) =~= Seq::<U>::empty());
        assert(sort_desc(s, score).map_values(f) =~= sort_desc(s.map_values(f), score2));
    }
}

proof fn lemma_place_map<T, U>(
    s: Seq<T>,
    x: T,
    f: spec_fn(T) -> U,
    score: spec_fn(T) -> int,
    score2: spec_fn(U) -> int,
)
    requires
        forall|y: T| #[trigger] score2(f(y)) == score(y),
    ensures
        place(s, x, score).map_values(f) == place(s.map_values(f), f(x), score2),
    decreases s.len(),
{
    if s.len() == 0 {
        assert(place(s, x, score).map_values(f) =~= seq![f(x)]);
    } else {
        assert(score2(f(x)) == score(x));
        assert(score2(f(s[0])) == score(s[0]));
        if score(s[0]) >= score(x) {
            lemma_place_map(s.drop_first(), x, f, score, score2);
            assert(s.map_values(f).drop_first() =~= s.drop_first().map_values(f));
            assert(place(s, x, score).map_values(f) =~= seq![f(s[0])] + place(
                s.drop_first(),
                x,
                score,
            ).map_values(f));
        } else {
            assert(place(s, x, score).map_values(f) =~= seq![f(x)] + s.map_values(f));
        }
    }
}

/// Sorts by descending score; items of one score keep their order.
pub fn sort_by_score<T: Scored>(v: Vec<T>) -> (out: Vec<T>)
    ensures
        out@ == sort_desc(v@, |x: T| x.score_of()),
{
    let ghost score = |x: T| x.score_of();
    let ghost all = v@;
    let mut out: Vec<T> = Vec::new();
    assert(all.take(0) =~= Seq::<T>::empty());
    for x in it: v
        invariant
            all == v@,
            it.seq() == all,
            score == (|x: T| x.score_of()),
            out@ == sort_desc(all.take(it.index() as int), score),
    {
        let ghost i = it.index();
        assert(all.take(i + 1).drop_last() =~= all.take(i as int));
        assert(all.take(i + 1).last() == x);
        let key: u8 = x.score();
        let mut n: usize = 0;
        proof {
            law_sort_desc(all.take(i as int), score);
        }
        while n < out.len() && out[n].score() >= key
            invariant
                n <= out@.len(),
                key == x.score_of(),
                score == (|x: T| x.score_of()),
                forall|j: int| 0 <= j < n ==> score(#[trigger] out@[j]) >= score(x),
            decreases out@.len() - n,
        {
            n += 1;
        }
        proof {
            lemma_place_at(out@, x, score, n as int);
        }
        out.insert(n, x);
    }
    assert(all.take(all.len() as int) =~= all);
    out
}

} // verus!
