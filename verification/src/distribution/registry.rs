//! The channels that are in use.

use crate::text::{
    lemma_text_lt_total, lemma_text_lt_transitive, same_text, text_before, text_lt, texts,
};
use vstd::prelude::*;

verus! {

/// A map of the `dashmap` crate.
#[verifier::external_type_specification]
#[verifier::external_body]
#[verifier::reject_recursive_types(K)]
#[verifier::reject_recursive_types(V)]
#[verifier::reject_recursive_types(S)]
pub struct ExDashMap<K, V, S>(dashmap::DashMap<K, V, S>);

/// What a map from channel types to slots holds.
pub uninterp spec fn slots_in(m: dashmap::DashMap<String, usize>) -> Map<Seq<char>, usize>;

/// A map that holds nothing.
pub open spec fn no_slots() -> Map<Seq<char>, usize> {
    Map::empty()
}

/// `DashMap::new`: the empty map.
#[verifier::external_body]
fn new_map() -> (m: dashmap::DashMap<String, usize>)
    ensures
        slots_in(m) == no_slots(),
{
    dashmap::DashMap::new()
}

/// `DashMap::insert`: the value of the key is the new one, whatever it was.
#[verifier::external_body]
fn put_slot(m: &mut dashmap::DashMap<String, usize>, key: String, slot: usize)
    ensures
        slots_in(*final(m)) == slots_in(*old(m)).insert(key@, slot),
{
    m.insert(key, slot);
}

/// `DashMap::get`: the value of the key, where there is one.
#[verifier::external_body]
fn slot_of(m: &dashmap::DashMap<String, usize>, key: &str) -> (r: Option<usize>)
    ensures
        r == (if slots_in(*m).contains_key(key@) {
            Some(slots_in(*m)[key@])
        } else {
            None
        }),
{
    m.get(key).map(|e| *e.value())
}

/// `DashMap::iter`: each key once, in no particular order.
#[verifier::external_body]
fn keys_in(m: &dashmap::DashMap<String, usize>) -> (r: Vec<String>)
    ensures
        texts(r@).no_duplicates(),
        forall|k: Seq<char>| #[trigger] texts(r@).contains(k) <==> slots_in(*m).contains_key(k),
{
    m.iter().map(|e| e.key().clone()).collect()
}

/// The channels in use: for each type a slot, under which its implementation is kept.
pub struct ChannelRegistry {
    channels: dashmap::DashMap<String, usize>,
}

/// Each text stands before the next.
pub open spec fn texts_ascend(t: Seq<Seq<char>>) -> bool {
    forall|i: int, j: int| 0 <= i < j < t.len() ==> text_lt(#[trigger] t[i], #[trigger] t[j])
}

/// The texts of `v` in ascending order, each once.
pub fn sorted_texts(v: &Vec<String>) -> (r: Vec<String>)
    ensures
        texts_ascend(texts(r@)),
        forall|k: Seq<char>| #[trigger] texts(r@).contains(k) <==> texts(v@).contains(k),
{
    let mut r: Vec<String> = Vec::new();
    let mut i: usize = 0;
    while i < v.len()
        invariant
            i <= v@.len(),
            texts_ascend(texts(r@)),
            forall|k: Seq<char>| #[trigger]
                texts(r@).contains(k) <==> texts(v@).take(i as int).contains(k),
        decreases v@.len() - i,
    {
        let ghost before = r@;
        let ghost t0 = texts(before);
        let ghost x = v@[i as int]@;
        let ghost done = texts(v@).take(i as int);
        let ghost next = texts(v@).take(i + 1);
        proof {
            assert(next =~= done.push(x));
            assert forall|k: Seq<char>| next.contains(k) <==> done.contains(k) || k == x by {
                if done.contains(k) {
                    let j = choose|j: int| 0 <= j < done.len() && done[j] == k;
                    assert(next[j] == k);
                }
                if next.contains(k) && k != x {
                    let j = choose|j: int| 0 <= j < next.len() && next[j] == k;
                    assert(done[j] == k);
                }
                if k == x {
                    assert(next[done.len() as int] == k);
                }
            }
        }
        let mut n: usize = 0;
        while n < r.len() && text_before(r[n].as_str(), v[i].as_str())
            invariant
                n <= r@.len(),
                i < v@.len(),
                r@ == before,
                t0 == texts(before),
                x == v@[i as int]@,
                forall|j: int| 0 <= j < n ==> text_lt(#[trigger] t0[j], x),
            decreases r@.len() - n,
        {
            assert(t0[n as int] == r@[n as int]@);
            n += 1;
        }
        if n < r.len() && same_text(r[n].as_str(), v[i].as_str()) {
            assert(t0[n as int] == x);
        } else {
            r.insert(n, v[i].clone());
            proof {
                let t = texts(r@);
                assert(t =~= t0.insert(n as int, x));
                assert forall|a: int, b: int| 0 <= a < b < t.len() implies text_lt(
                    #[trigger] t[a],
                    #[trigger] t[b],
                ) by {
                    if b < n {
                        assert(t[a] == t0[a] && t[b] == t0[b]);
                    } else if a > n {
                        assert(t[a] == t0[a - 1] && t[b] == t0[b - 1]);
                    } else if b == n {
                        assert(t[a] == t0[a]);
                    } else if a < n {
                        assert(t[a] == t0[a] && t[b] == t0[b - 1]);
                    } else {
                        assert(t[b] == t0[b - 1]);
                        assert(t0[n as int] == before[n as int]@);
                        lemma_text_lt_total(t0[n as int], x);
                        if b - 1 > n {
                            assert(text_lt(t0[n as int], t0[b - 1]));
                            lemma_text_lt_transitive(x, t0[n as int], t0[b - 1]);
                        }
                    }
                }
                assert forall|k: Seq<char>| t.contains(k) <==> t0.contains(k) || k == x by {
                    if t0.contains(k) {
                        let j = choose|j: int| 0 <= j < t0.len() && t0[j] == k;
                        if j < n {
                            assert(t[j] == k);
                        } else {
                            assert(t[j + 1] == k);
                        }
                    }
                    if t.contains(k) && k != x {
                        let j = choose|j: int| 0 <= j < t.len() && t[j] == k;
                        if j < n {
                            assert(t0[j] == k);
                        } else {
                            assert(t0[j - 1] == k);
                        }
                    }
                    if k == x {
                        assert(t[n as int] == k);
                    }
                }
            }
        }
        i += 1;
    }
    assert(texts(v@).take(v@.len() as int) =~= texts(v@));
    r
}

impl ChannelRegistry {
    pub closed spec fn view(&self) -> Map<Seq<char>, usize> {
        slots_in(self.channels)
    }

    /// A registry without channels.
    pub fn new() -> (r: ChannelRegistry)
        ensures
            r@ == Map::<Seq<char>, usize>::empty(),
    {
        ChannelRegistry { channels: new_map() }
    }

    /// Enters a channel; a type that is present gets the new slot.
    pub fn register(&mut self, channel_type: &str, slot: usize)
        ensures
            final(self)@ == old(self)@.insert(channel_type@, slot),
    {
        put_slot(&mut self.channels, channel_type.to_owned(), slot);
    }

    /// The slot of a channel type.
    pub fn get(&self, channel_type: &str) -> (r: Option<usize>)
        ensures
            r == (if self@.contains_key(channel_type@) {
                Some(self@[channel_type@])
            } else {
                None
            }),
    {
        slot_of(&self.channels, channel_type)
    }

    /// The channel types, in ascending order.
    pub fn types(&self) -> (r: Vec<String>)
        ensures
            texts_ascend(texts(r@)),
            forall|k: Seq<char>| #[trigger] texts(r@).contains(k) <==> self@.contains_key(k),
    {
        let keys = keys_in(&self.channels);
        sorted_texts(&keys)
    }
}

} // verus!
