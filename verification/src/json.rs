//! JSON values as plain data.
//!
//! An object keeps its members in ascending key order, each key once.

use crate::text::{lemma_text_lt_irreflexive, lemma_text_lt_total, lemma_text_lt_transitive, same_text, text_before, text_lt};
use vstd::prelude::*;

verus! {

/// A JSON number: a non-negative integer, a negative integer, or a double, given by
/// its shortest decimal text (the one that `serde_json` writes).
#[derive(Debug)]
pub enum Number {
    PosInt(u64),
    NegInt(i64),
    Float(String),
}

/// What a number stands for.
pub enum NumberV {
    PosInt(u64),
    NegInt(i64),
    Float(Seq<char>),
}

impl Number {
    pub open spec fn view(&self) -> NumberV {
        match *self {
            Number::PosInt(u) => NumberV::PosInt(u),
            Number::NegInt(i) => NumberV::NegInt(i),
            Number::Float(t) => NumberV::Float(t@),
        }
    }
}

impl Clone for Number {
    fn clone(&self) -> (r: Self)
        ensures
            r@ == self@,
    {
        match self {
            Number::PosInt(u) => Number::PosInt(*u),
            Number::NegInt(i) => Number::NegInt(*i),
            Number::Float(t) => Number::Float(t.clone()),
        }
    }
}

/// A JSON value.
#[derive(Debug)]
pub enum Json {
    Null,
    Bool(bool),
    Num(Number),
    Str(String),
    Arr(Vec<Json>),
    Obj(Object),
}

/// One member of an object.
#[derive(Debug)]
pub struct Member {
    pub key: String,
    pub value: Json,
}

/// The members of a JSON object, in ascending key order.
#[derive(Debug)]
pub struct Object {
    members: Vec<Member>,
}

/// What a JSON value stands for.
#[verifier::ext_equal]
pub enum JsonV {
    Null,
    Bool(bool),
    Num(NumberV),
    Str(Seq<char>),
    Arr(Seq<JsonV>),
    Obj(Seq<(Seq<char>, JsonV)>),
}

/// What an object stands for: its members in key order.
pub type ObjV = Seq<(Seq<char>, JsonV)>;

impl Json {
    pub open spec fn view(&self) -> JsonV
        decreases self,
    {
        match *self {
            Json::Null => JsonV::Null,
            Json::Bool(b) => JsonV::Bool(b),
            Json::Num(n) => JsonV::Num(n@),
            Json::Str(s) => JsonV::Str(s@),
            Json::Arr(a) => JsonV::Arr(
                Seq::new(
                    a@.len(),
                    |i: int|
                        if 0 <= i < a@.len() {
                            a@[i].view()
                        } else {
                            JsonV::Null
                        },
                ),
            ),
            Json::Obj(o) => JsonV::Obj(o.view()),
        }
    }
}

impl Object {
    pub closed spec fn view(&self) -> ObjV
        decreases self,
    {
        Seq::new(
            self.members@.len(),
            |i: int|
                if 0 <= i < self.members@.len() {
                    (self.members@[i].key@, self.members@[i].value.view())
                } else {
                    (Seq::<char>::empty(), JsonV::Null)
                },
        )
    }

    #[verifier::type_invariant]
    closed spec fn in_key_order(&self) -> bool {
        keys_ascend(self.view())
    }
}

/// The views of a list of values.
pub open spec fn values_view(a: Seq<Json>) -> Seq<JsonV> {
    Seq::new(a.len(), |i: int| a[i]@)
}

/// Each key stands before the next.
pub open spec fn keys_ascend(o: ObjV) -> bool {
    forall|i: int, j: int| 0 <= i < j < o.len() ==> text_lt(#[trigger] o[i].0, #[trigger] o[j].0)
}

/// The value under key `k`.
pub open spec fn obj_get(o: ObjV, k: Seq<char>) -> Option<JsonV>
    decreases o.len(),
{
    if o.len() == 0 {
        None
    } else if o[0].0 == k {
        Some(o[0].1)
    } else {
        obj_get(o.drop_first(), k)
    }
}

/// The object with `v` under key `k`: in place of the present member, or as a new
/// member before the first greater key.
pub open spec fn obj_put(o: ObjV, k: Seq<char>, v: JsonV) -> ObjV
    decreases o.len(),
{
    if o.len() == 0 {
        seq![(k, v)]
    } else if o[0].0 == k {
        seq![(k, v)] + o.drop_first()
    } else if text_lt(k, o[0].0) {
        seq![(k, v)] + o
    } else {
        seq![o[0]] + obj_put(o.drop_first(), k, v)
    }
}

/// The object without key `k`.
pub open spec fn obj_remove(o: ObjV, k: Seq<char>) -> ObjV
    decreases o.len(),
{
    if o.len() == 0 {
        o
    } else if o[0].0 == k {
        o.drop_first()
    } else {
        seq![o[0]] + obj_remove(o.drop_first(), k)
    }
}

/// The member `k` of a value; `None` where the value is no object or has no such key.
pub open spec fn json_get(v: JsonV, k: Seq<char>) -> Option<JsonV> {
    match v {
        JsonV::Obj(o) => obj_get(o, k),
        _ => None,
    }
}

/// The text of a string value.
pub open spec fn json_str(v: Option<JsonV>) -> Option<Seq<char>> {
    match v {
        Some(JsonV::Str(s)) => Some(s),
        _ => None,
    }
}

/// The number as a signed 64-bit integer.
pub open spec fn number_i64(n: NumberV) -> Option<i64> {
    match n {
        NumberV::PosInt(u) => if u <= i64::MAX {
            Some(u as i64)
        } else {
            None
        },
        NumberV::NegInt(i) => Some(i),
        NumberV::Float(_) => None,
    }
}

/// The integer held by a number value.
pub open spec fn json_i64(v: Option<JsonV>) -> Option<i64> {
    match v {
        Some(JsonV::Num(n)) => number_i64(n),
        _ => None,
    }
}

/// The non-negative integer held by a number value.
pub open spec fn json_u64(v: Option<JsonV>) -> Option<u64> {
    match v {
        Some(JsonV::Num(NumberV::PosInt(u))) => Some(u),
        _ => None,
    }
}

/// The truth value held by a boolean value.
pub open spec fn json_bool(v: Option<JsonV>) -> Option<bool> {
    match v {
        Some(JsonV::Bool(b)) => Some(b),
        _ => None,
    }
}

/// The number that stands for a signed integer.
pub open spec fn number_of(i: i64) -> NumberV {
    if i < 0 {
        NumberV::NegInt(i)
    } else {
        NumberV::PosInt(i as u64)
    }
}

/// What a lookup finds after a put.
pub proof fn law_get_after_put(o: ObjV, k: Seq<char>, v: JsonV, q: Seq<char>)
    ensures
        obj_get(obj_put(o, k, v), q) == (if q == k {
            Some(v)
        } else {
            obj_get(o, q)
        }),
    decreases o.len(),
{
    let p = obj_put(o, k, v);
    if o.len() == 0 {
        assert(p[0] == (k, v));
        assert(p.drop_first() =~= o);
    } else if o[0].0 == k {
        assert(p[0] == (k, v));
        assert(p.drop_first() =~= o.drop_first());
    } else if text_lt(k, o[0].0) {
        assert(p[0] == (k, v));
        assert(p.drop_first() =~= o);
    } else {
        assert(p[0] == o[0]);
        assert(p.drop_first() =~= obj_put(o.drop_first(), k, v));
        law_get_after_put(o.drop_first(), k, v, q);
    }
}

/// A put adds at most one member.
pub proof fn lemma_put_len(o: ObjV, k: Seq<char>, v: JsonV)
    ensures
        o.len() <= obj_put(o, k, v).len() <= o.len() + 1,
    decreases o.len(),
{
    if o.len() > 0 {
        lemma_put_len(o.drop_first(), k, v);
    }
}

/// A key absent from the members is not found.
proof fn lemma_get_absent(o: ObjV, k: Seq<char>)
    requires
        forall|i: int| 0 <= i < o.len() ==> (#[trigger] o[i]).0 != k,
    ensures
        obj_get(o, k) is None,
    decreases o.len(),
{
    if o.len() > 0 {
        assert(o[0].0 != k);
        assert forall|i: int| 0 <= i < o.drop_first().len() implies (
        #[trigger] o.drop_first()[i]).0 != k by {
            assert(o.drop_first()[i] == o[i + 1]);
        }
        lemma_get_absent(o.drop_first(), k);
    }
}

/// What a lookup finds after a removal.
pub proof fn law_get_after_remove(o: ObjV, k: Seq<char>, q: Seq<char>)
    requires
        keys_ascend(o),
    ensures
        obj_get(obj_remove(o, k), q) == (if q == k {
            None
        } else {
            obj_get(o, q)
        }),
    decreases o.len(),
{
    if o.len() > 0 {
        let p = obj_remove(o, k);
        assert forall|i: int, j: int| 0 <= i < j < o.drop_first().len() implies text_lt(
            #[trigger] o.drop_first()[i].0,
            #[trigger] o.drop_first()[j].0,
        ) by {
            assert(o.drop_first()[i] == o[i + 1]);
            assert(o.drop_first()[j] == o[j + 1]);
        }
        if o[0].0 == k {
            assert forall|i: int| 0 <= i < p.len() implies (#[trigger] p[i]).0 != k by {
                assert(p[i] == o[i + 1]);
                assert(text_lt(o[0].0, o[i + 1].0));
                lemma_text_lt_irreflexive(k);
            }
            if q == k {
                lemma_get_absent(p, k);
            }
        } else {
            law_get_after_remove(o.drop_first(), k, q);
            assert(p.drop_first() =~= obj_remove(o.drop_first(), k));
            assert(p[0] == o[0]);
        }
    }
}

/// Where a put places its member: at `n`, over an equal key or before a greater one.
proof fn lemma_put_at(o: ObjV, k: Seq<char>, v: JsonV, n: int)
    requires
        0 <= n <= o.len(),
        forall|i: int| 0 <= i < n ==> (#[trigger] o[i]).0 != k && !text_lt(k, o[i].0),
        n < o.len() ==> o[n].0 == k || text_lt(k, o[n].0),
    ensures
        obj_put(o, k, v) == (if n < o.len() && o[n].0 == k {
            o.update(n, (k, v))
        } else {
            o.insert(n, (k, v))
        }),
    decreases n,
{
    if n == 0 {
        if o.len() == 0 {
            assert(o.insert(0, (k, v)) =~= seq![(k, v)]);
        } else if o[0].0 == k {
            assert(o.update(0, (k, v)) =~= seq![(k, v)] + o.drop_first());
        } else {
            assert(o.insert(0, (k, v)) =~= seq![(k, v)] + o);
        }
    } else {
        let d = o.drop_first();
        assert(o[0].0 != k);
        assert forall|i: int| 0 <= i < n - 1 implies (#[trigger] d[i]).0 != k && !text_lt(
            k,
            d[i].0,
        ) by {
            assert(d[i] == o[i + 1]);
        }
        if n < o.len() {
            assert(d[n - 1] == o[n]);
        }
        lemma_put_at(d, k, v, n - 1);
        if n < o.len() && o[n].0 == k {
            assert(o.update(n, (k, v)) =~= seq![o[0]] + d.update(n - 1, (k, v)));
        } else {
            assert(o.insert(n, (k, v)) =~= seq![o[0]] + d.insert(n - 1, (k, v)));
        }
    }
}

/// A removal takes out the member at `n`.
proof fn lemma_remove_at(o: ObjV, k: Seq<char>, n: int)
    requires
        0 <= n <= o.len(),
        forall|i: int| 0 <= i < n ==> (#[trigger] o[i]).0 != k,
        n < o.len() ==> o[n].0 == k,
    ensures
        obj_remove(o, k) == (if n < o.len() {
            o.remove(n)
        } else {
            o
        }),
        obj_get(o, k) == (if n < o.len() {
            Some(o[n].1)
        } else {
            None
        }),
    decreases n,
{
    if n == 0 {
        if o.len() > 0 {
            assert(o.remove(0) =~= o.drop_first());
        }
    } else {
        let d = o.drop_first();
        assert(o[0].0 != k);
        assert forall|i: int| 0 <= i < n - 1 implies (#[trigger] d[i]).0 != k by {
            assert(d[i] == o[i + 1]);
        }
        if n < o.len() {
            assert(d[n - 1] == o[n]);
            lemma_remove_at(d, k, n - 1);
            assert(o.remove(n) =~= seq![o[0]] + d.remove(n - 1));
        } else {
            lemma_remove_at(d, k, n - 1);
            assert(o =~= seq![o[0]] + d);
        }
    }
}

impl Object {
    /// The empty object.
    pub fn new() -> (r: Object)
        ensures
            r@ == ObjV::empty(),
    {
        let members: Vec<Member> = Vec::new();
        proof {
            assert(Seq::new(
                members@.len(),
                |i: int|
                    if 0 <= i < members@.len() {
                        (members@[i].key@, members@[i].value.view())
                    } else {
                        (Seq::<char>::empty(), JsonV::Null)
                    },
            ) =~= ObjV::empty());
        }
        Object { members }
    }

    /// How many members there are.
    pub fn len(&self) -> (n: usize)
        ensures
            n == self@.len(),
    {
        self.members.len()
    }

    /// Whether there is no member.
    pub fn is_empty(&self) -> (r: bool)
        ensures
            r == (self@.len() == 0),
    {
        self.members.len() == 0
    }

    /// The key of member `i`.
    pub fn key_at(&self, i: usize) -> (k: &String)
        requires
            i < self@.len(),
        ensures
            k@ == self@[i as int].0,
    {
        &self.members[i].key
    }

    /// The value of member `i`.
    pub fn value_at(&self, i: usize) -> (v: &Json)
        requires
            i < self@.len(),
        ensures
            v@ == self@[i as int].1,
    {
        &self.members[i].value
    }

    /// The position of key `k`, or the number of members.
    fn position(&self, k: &str) -> (n: usize)
        ensures
            n <= self@.len(),
            forall|i: int| 0 <= i < n ==> (#[trigger] self@[i]).0 != k@,
            n < self@.len() ==> self@[n as int].0 == k@,
    {
        let mut n: usize = 0;
        while n < self.members.len() && !same_text(self.members[n].key.as_str(), k)
            invariant
                n <= self@.len(),
                self@.len() == self.members@.len(),
                forall|i: int| 0 <= i < n ==> (#[trigger] self@[i]).0 != k@,
            decreases self@.len() - n,
        {
            n += 1;
        }
        n
    }

    /// The value under key `k`.
    pub fn get(&self, k: &str) -> (r: Option<&Json>)
        ensures
            match r {
                Some(v) => obj_get(self@, k@) == Some(v@),
                None => obj_get(self@, k@) is None,
            },
    {
        let n: usize = self.position(k);
        proof {
            lemma_remove_at(self@, k@, n as int);
        }
        if n < self.members.len() {
            Some(&self.members[n].value)
        } else {
            None
        }
    }

    /// Whether key `k` is present.
    pub fn contains_key(&self, k: &str) -> (r: bool)
        ensures
            r == obj_get(self@, k@) is Some,
    {
        self.get(k).is_some()
    }

    /// Puts `value` under `key`.
    pub fn insert(&mut self, key: String, value: Json)
        ensures
            final(self)@ == obj_put(old(self)@, key@, value@),
    {
        proof {
            use_type_invariant(&*self);
        }
        let ghost before = self@;
        let ghost k = key@;
        let ghost v = value@;
        let mut n: usize = 0;
        while n < self.members.len() && !same_text(self.members[n].key.as_str(), key.as_str())
            && !text_before(key.as_str(), self.members[n].key.as_str())
            invariant
                n <= self@.len(),
                self@ == before,
                key@ == k,
                self@.len() == self.members@.len(),
                forall|i: int|
                    0 <= i < n ==> (#[trigger] before[i]).0 != k && !text_lt(k, before[i].0),
            decreases self@.len() - n,
        {
            assert(before[n as int].0 == self.members@[n as int].key@);
            n += 1;
        }
        proof {
            if n < before.len() {
                assert(before[n as int].0 == self.members@[n as int].key@);
            }
            lemma_put_at(before, k, v, n as int);
            lemma_put_ascends(before, k, v, n as int);
        }
        let mut members: Vec<Member> = Vec::new();
        std::mem::swap(&mut members, &mut self.members);
        let ghost was = members@;
        if n < members.len() && same_text(members[n].key.as_str(), key.as_str()) {
            members.set(n, Member { key, value });
        } else {
            members.insert(n, Member { key, value });
        }
        proof {
            let o = Object { members };
            assert(o.view() =~= obj_put(before, k, v)) by {
                assert forall|i: int| 0 <= i < was.len() implies before[i] == (
                    #[trigger] was[i].key@,
                    was[i].value.view(),
                ) by {}
            }
        }
        self.members = members;
    }

    /// Takes out the member `k`.
    pub fn remove(&mut self, k: &str) -> (r: Option<Json>)
        ensures
            final(self)@ == obj_remove(old(self)@, k@),
            match r {
                Some(v) => obj_get(old(self)@, k@) == Some(v@),
                None => obj_get(old(self)@, k@) is None,
            },
    {
        proof {
            use_type_invariant(&*self);
        }
        let ghost before = self@;
        let n: usize = self.position(k);
        proof {
            lemma_remove_at(before, k@, n as int);
        }
        if n >= self.members.len() {
            return None;
        }
        let mut members: Vec<Member> = Vec::new();
        std::mem::swap(&mut members, &mut self.members);
        let ghost was = members@;
        let m = members.remove(n);
        proof {
            assert forall|i: int| 0 <= i < was.len() implies before[i] == (
                #[trigger] was[i].key@,
                was[i].value.view(),
            ) by {}
            let o = Object { members };
            assert(o.view() =~= before.remove(n as int));
            assert forall|i: int, j: int| 0 <= i < j < o.view().len() implies text_lt(
                #[trigger] o.view()[i].0,
                #[trigger] o.view()[j].0,
            ) by {
                let a = if i < n {
                    i
                } else {
                    i + 1
                };
                let b = if j < n {
                    j
                } else {
                    j + 1
                };
                assert(o.view()[i] == before[a] && o.view()[j] == before[b]);
            }
        }
        self.members = members;
        Some(m.value)
    }
}

/// A put keeps the keys ascending.
proof fn lemma_put_ascends(o: ObjV, k: Seq<char>, v: JsonV, n: int)
    requires
        keys_ascend(o),
        0 <= n <= o.len(),
        forall|i: int| 0 <= i < n ==> (#[trigger] o[i]).0 != k && !text_lt(k, o[i].0),
        n < o.len() ==> o[n].0 == k || text_lt(k, o[n].0),
    ensures
        keys_ascend(obj_put(o, k, v)),
{
    lemma_put_at(o, k, v, n);
    let p = obj_put(o, k, v);
    let over = n < o.len() && o[n].0 == k;
    assert forall|i: int, j: int| 0 <= i < j < p.len() implies text_lt(
        #[trigger] p[i].0,
        #[trigger] p[j].0,
    ) by {
        if over {
            assert(p[i].0 == o[i].0 && p[j].0 == o[j].0);
        } else if j < n {
            assert(p[i] == o[i] && p[j] == o[j]);
        } else if i > n {
            assert(p[i] == o[i - 1] && p[j] == o[j - 1]);
        } else if i < n && j > n {
            assert(p[i] == o[i] && p[j] == o[j - 1]);
        } else if j == n {
            assert(p[i] == o[i]);
            lemma_text_lt_total(o[i].0, k);
        } else {
            assert(p[j] == o[j - 1]);
            if j - 1 > n {
                assert(text_lt(o[n].0, o[j - 1].0));
                lemma_text_lt_transitive(k, o[n].0, o[j - 1].0);
            }
        }
    }
}

impl Clone for Object {
    fn clone(&self) -> (r: Self)
        ensures
            r@ == self@,
        decreases self,
    {
        proof {
            use_type_invariant(self);
        }
        let mut members: Vec<Member> = Vec::new();
        let mut i: usize = 0;
        while i < self.members.len()
            invariant
                i <= self.members@.len(),
                members@.len() == i,
                forall|j: int|
                    0 <= j < i ==> (#[trigger] members@[j]).key@ == self.members@[j].key@
                        && members@[j].value@ == self.members@[j].value@,
            decreases self.members@.len() - i,
        {
            let key = self.members[i].key.clone();
            let value = self.members[i].value.clone();
            members.push(Member { key, value });
            i += 1;
        }
        proof {
            let o = Object { members };
            assert(o.view() =~= self.view());
        }
        Object { members }
    }
}

/// A copy of each value.
fn copy_all(a: &Vec<Json>) -> (out: Vec<Json>)
    ensures
        out@.len() == a@.len(),
        forall|j: int| 0 <= j < a@.len() ==> (#[trigger] out@[j])@ == a@[j]@,
    decreases a,
{
    let mut out: Vec<Json> = Vec::new();
    let mut i: usize = 0;
    while i < a.len()
        invariant
            i <= a@.len(),
            out@.len() == i,
            forall|j: int| 0 <= j < i ==> (#[trigger] out@[j])@ == a@[j]@,
        decreases a@.len() - i,
    {
        let v = a[i].clone();
        out.push(v);
        i += 1;
    }
    out
}

impl Clone for Json {
    fn clone(&self) -> (r: Self)
        ensures
            r@ == self@,
        decreases self,
    {
        match self {
            Json::Null => Json::Null,
            Json::Bool(b) => Json::Bool(*b),
            Json::Num(n) => Json::Num(n.clone()),
            Json::Str(s) => Json::Str(s.clone()),
            Json::Arr(a) => {
                let r = Json::Arr(copy_all(a));
                assert(r@->Arr_0 =~= self@->Arr_0);
                r
            },
            Json::Obj(o) => Json::Obj(o.clone()),
        }
    }
}

impl Json {
    /// A string value.
    pub fn string(s: &str) -> (r: Json)
        ensures
            r@ == JsonV::Str(s@),
    {
        Json::Str(s.to_owned())
    }

    /// An integer value.
    pub fn integer(i: i64) -> (r: Json)
        ensures
            r@ == JsonV::Num(number_of(i)),
    {
        if i < 0 {
            Json::Num(Number::NegInt(i))
        } else {
            Json::Num(Number::PosInt(i as u64))
        }
    }

    /// The member `k` of an object value.
    pub fn get(&self, k: &str) -> (r: Option<&Json>)
        ensures
            match r {
                Some(v) => json_get(self@, k@) == Some(v@),
                None => json_get(self@, k@) is None,
            },
    {
        match self {
            Json::Obj(o) => o.get(k),
            _ => None,
        }
    }

    /// The text of a string value.
    pub fn as_str(&self) -> (r: Option<&String>)
        ensures
            match r {
                Some(s) => self@ == JsonV::Str(s@),
                None => !(self@ is Str),
            },
    {
        match self {
            Json::Str(s) => Some(s),
            _ => None,
        }
    }

    /// The integer held by a number value.
    pub fn as_i64(&self) -> (r: Option<i64>)
        ensures
            r == json_i64(Some(self@)),
    {
        match self {
            Json::Num(Number::PosInt(u)) => if *u <= i64::MAX as u64 {
                Some(*u as i64)
            } else {
                None
            },
            Json::Num(Number::NegInt(i)) => Some(*i),
            _ => None,
        }
    }

    /// The non-negative integer held by a number value.
    pub fn as_u64(&self) -> (r: Option<u64>)
        ensures
            r == json_u64(Some(self@)),
    {
        match self {
            Json::Num(Number::PosInt(u)) => Some(*u),
            _ => None,
        }
    }

    /// The truth value held by a boolean value.
    pub fn as_bool(&self) -> (r: Option<bool>)
        ensures
            r == json_bool(Some(self@)),
    {
        match self {
            Json::Bool(b) => Some(*b),
            _ => None,
        }
    }

    /// The members of an object value.
    pub fn as_object(&self) -> (r: Option<&Object>)
        ensures
            match r {
                Some(o) => self@ == JsonV::Obj(o@),
                None => !(self@ is Obj),
            },
    {
        match self {
            Json::Obj(o) => Some(o),
            _ => None,
        }
    }

    /// The elements of an array value.
    pub fn as_array(&self) -> (r: Option<&Vec<Json>>)
        ensures
            match r {
                Some(a) => self@ == JsonV::Arr(values_view(a@)),
                None => !(self@ is Arr),
            },
    {
        match self {
            Json::Arr(a) => {
                assert(self@->Arr_0 =~= values_view(a@));
                Some(a)
            },
            _ => None,
        }
    }

    /// Whether the value is null.
    pub fn is_null(&self) -> (r: bool)
        ensures
            r == (self@ is Null),
    {
        match self {
            Json::Null => true,
            _ => false,
        }
    }
}

/// An array value.
pub fn array(a: Vec<Json>) -> (r: Json)
    ensures
        r@ == JsonV::Arr(values_view(a@)),
{
    let r = Json::Arr(a);
    assert(r@->Arr_0 =~= values_view(a@));
    r
}

/// Whether the text of a double is that of one of the two zeros.
pub open spec fn zero_text(t: Seq<char>) -> bool {
    t == seq!['0', '.', '0'] || t == seq!['-', '0', '.', '0']
}

/// Equality of numbers: of one kind and of one value; the two zeros are equal.
pub open spec fn number_same(a: NumberV, b: NumberV) -> bool {
    match (a, b) {
        (NumberV::Float(x), NumberV::Float(y)) => x == y || (zero_text(x) && zero_text(y)),
        _ => a == b,
    }
}

/// Equality of JSON values.
pub open spec fn json_same(a: JsonV, b: JsonV) -> bool
    decreases a,
{
    match (a, b) {
        (JsonV::Num(x), JsonV::Num(y)) => number_same(x, y),
        (JsonV::Arr(x), JsonV::Arr(y)) => x.len() == y.len() && forall|i: int|
            0 <= i < x.len() ==> json_same(#[trigger] x[i], y[i]),
        (JsonV::Obj(x), JsonV::Obj(y)) => x.len() == y.len() && forall|i: int|
            0 <= i < x.len() ==> (#[trigger] x[i]).0 == y[i].0 && json_same(x[i].1, y[i].1),
        (JsonV::Null, JsonV::Null) => true,
        (JsonV::Bool(x), JsonV::Bool(y)) => x == y,
        (JsonV::Str(x), JsonV::Str(y)) => x == y,
        _ => false,
    }
}

/// Whether `t` is the text of a zero.
fn is_zero_text(t: &String) -> (r: bool)
    ensures
        r == zero_text(t@),
{
    proof {
        reveal_strlit("0.0");
        reveal_strlit("-0.0");
        assert("0.0"@ =~= seq!['0', '.', '0']);
        assert("-0.0"@ =~= seq!['-', '0', '.', '0']);
    }
    same_text(t.as_str(), "0.0") || same_text(t.as_str(), "-0.0")
}

/// Whether two numbers are equal.
pub fn same_number(a: &Number, b: &Number) -> (r: bool)
    ensures
        r == number_same(a@, b@),
{
    match (a, b) {
        (Number::PosInt(x), Number::PosInt(y)) => *x == *y,
        (Number::NegInt(x), Number::NegInt(y)) => *x == *y,
        (Number::Float(x), Number::Float(y)) => *x == *y || (is_zero_text(x) && is_zero_text(y)),
        _ => false,
    }
}

/// Whether two values are equal.
pub fn same_json(a: &Json, b: &Json) -> (r: bool)
    ensures
        r == json_same(a@, b@),
    decreases a,
{
    match (a, b) {
        (Json::Null, Json::Null) => true,
        (Json::Bool(x), Json::Bool(y)) => *x == *y,
        (Json::Num(x), Json::Num(y)) => same_number(x, y),
        (Json::Str(x), Json::Str(y)) => *x == *y,
        (Json::Arr(x), Json::Arr(y)) => {
            if x.len() != y.len() {
                return false;
            }
            let mut i: usize = 0;
            while i < x.len()
                invariant
                    i <= x@.len(),
                    x@.len() == y@.len(),
                    *a == Json::Arr(*x),
                    *b == Json::Arr(*y),
                    forall|j: int| 0 <= j < i ==> json_same((#[trigger] x@[j])@, y@[j]@),
                decreases x@.len() - i,
            {
                if !same_json(&x[i], &y[i]) {
                    assert(a@->Arr_0[i as int] == x@[i as int]@);
                    assert(b@->Arr_0[i as int] == y@[i as int]@);
                    return false;
                }
                i += 1;
            }
            assert forall|j: int| 0 <= j < x@.len() implies json_same(
                #[trigger] a@->Arr_0[j],
                b@->Arr_0[j],
            ) by {
                assert(a@->Arr_0[j] == x@[j]@);
            }
            true
        },
        (Json::Obj(x), Json::Obj(y)) => {
            assert(a@ == JsonV::Obj(x@) && b@ == JsonV::Obj(y@));
            if x.members.len() != y.members.len() {
                assert(x@.len() != y@.len());
                return false;
            }
            let mut i: usize = 0;
            while i < x.members.len()
                invariant
                    i <= x.members@.len(),
                    x.members@.len() == y.members@.len(),
                    *a == Json::Obj(*x),
                    *b == Json::Obj(*y),
                    forall|j: int|
                        0 <= j < i ==> (#[trigger] x@[j]).0 == y@[j].0 && json_same(
                            x@[j].1,
                            y@[j].1,
                        ),
                decreases x.members@.len() - i,
            {
                assert(x@[i as int] == (x.members@[i as int].key@, x.members@[i as int].value@));
                assert(y@[i as int] == (y.members@[i as int].key@, y.members@[i as int].value@));
                if x.members[i].key != y.members[i].key || !same_json(
                    &x.members[i].value,
                    &y.members[i].value,
                ) {
                    return false;
                }
                i += 1;
            }
            true
        },
        _ => false,
    }
}

proof fn lemma_put_place(o: ObjV, k: Seq<char>, from: int) -> (n: int)
    requires
        0 <= from <= o.len(),
        forall|i: int| 0 <= i < from ==> (#[trigger] o[i]).0 != k && !text_lt(k, o[i].0),
    ensures
        0 <= n <= o.len(),
        forall|i: int| 0 <= i < n ==> (#[trigger] o[i]).0 != k && !text_lt(k, o[i].0),
        n < o.len() ==> o[n].0 == k || text_lt(k, o[n].0),
    decreases o.len() - from,
{
    if from == o.len() || o[from].0 == k || text_lt(k, o[from].0) {
        from
    } else {
        lemma_put_place(o, k, from + 1)
    }
}

proof fn lemma_key_place(o: ObjV, k: Seq<char>, from: int) -> (n: int)
    requires
        0 <= from <= o.len(),
        forall|i: int| 0 <= i < from ==> (#[trigger] o[i]).0 != k,
    ensures
        0 <= n <= o.len(),
        forall|i: int| 0 <= i < n ==> (#[trigger] o[i]).0 != k,
        n < o.len() ==> o[n].0 == k,
    decreases o.len() - from,
{
    if from == o.len() || o[from].0 == k {
        from
    } else {
        lemma_key_place(o, k, from + 1)
    }
}

/// A put and a removal keep the keys ascending.
pub proof fn law_keys_stay_ascending(o: ObjV, k: Seq<char>, v: JsonV)
    requires
        keys_ascend(o),
    ensures
        keys_ascend(obj_put(o, k, v)),
        keys_ascend(obj_remove(o, k)),
{
    let n = lemma_put_place(o, k, 0);
    lemma_put_ascends(o, k, v, n);
    let m = lemma_key_place(o, k, 0);
    lemma_remove_at(o, k, m);
    let r = obj_remove(o, k);
    if m < o.len() {
        assert forall|i: int, j: int| 0 <= i < j < r.len() implies text_lt(
            #[trigger] r[i].0,
            #[trigger] r[j].0,
        ) by {
            let a = if i < m {
                i
            } else {
                i + 1
            };
            let b = if j < m {
                j
            } else {
                j + 1
            };
            assert(r[i] == o[a] && r[j] == o[b]);
        }
    }
}

/// A lookup finds exactly the members of an object: the value that stands under the key, and
/// nothing where no member has the key.
pub proof fn law_get_finds_members(o: ObjV, k: Seq<char>)
    requires
        keys_ascend(o),
    ensures
        forall|i: int| 0 <= i < o.len() && (#[trigger] o[i]).0 == k ==> obj_get(o, k) == Some(o[i].1),
        (forall|i: int| 0 <= i < o.len() ==> (#[trigger] o[i]).0 != k) ==> obj_get(o, k) is None,
        obj_get(o, k) matches Some(v) ==> o.contains((k, v)),
{
    let n = lemma_key_place(o, k, 0);
    lemma_remove_at(o, k, n);
    assert forall|i: int| 0 <= i < o.len() && (#[trigger] o[i]).0 == k implies obj_get(o, k)
        == Some(o[i].1) by {
        if n < i {
            assert(text_lt(o[n].0, o[i].0));
            lemma_text_lt_irreflexive(k);
        }
    }
    if n < o.len() {
        assert(o[n] == (k, o[n].1));
    }
}

/// A value is equal to itself.
pub proof fn law_json_same_reflexive(a: JsonV)
    ensures
        json_same(a, a),
    decreases a,
{
    match a {
        JsonV::Arr(x) => {
            assert forall|i: int| 0 <= i < x.len() implies json_same(#[trigger] x[i], x[i]) by {
                law_json_same_reflexive(x[i]);
            }
        },
        JsonV::Obj(x) => {
            assert forall|i: int| 0 <= i < x.len() implies json_same((#[trigger] x[i]).1, x[i].1) by {
                assert(decreases_to!(x => x[i]));
                law_json_same_reflexive(x[i].1);
            }
        },
        _ => {},
    }
}

/// Values without doubles are equal only where they are the same: a text, a truth value, an
/// integer or null equals nothing but itself, and lists and objects equal only those that agree
/// element by element and member by member.
pub proof fn law_json_same_separates(a: JsonV, b: JsonV)
    requires
        json_same(a, b),
    ensures
        a is Null || a is Bool || a is Str ==> a == b,
        a matches JsonV::Num(n) && !(n is Float) ==> a == b,
        a is Num ==> b is Num,
        a matches JsonV::Arr(x) ==> (b matches JsonV::Arr(y) && x.len() == y.len() && forall|i: int|
            0 <= i < x.len() ==> json_same(#[trigger] x[i], y[i])),
        a matches JsonV::Obj(x) ==> (b matches JsonV::Obj(y) && x.len() == y.len() && forall|i: int|
            0 <= i < x.len() ==> (#[trigger] x[i]).0 == y[i].0 && json_same(x[i].1, y[i].1)),
{
}

/// What a lookup finds after a put, wherever one is asked for.
pub broadcast proof fn lemma_get_put(o: ObjV, k: Seq<char>, v: JsonV, q: Seq<char>)
    ensures
        #[trigger] obj_get(obj_put(o, k, v), q) == (if q == k {
            Some(v)
        } else {
            obj_get(o, q)
        }),
{
    law_get_after_put(o, k, v, q);
}

} // verus!
