//! Which subscriptions an event concerns, and what of it is sent.

use crate::distribution::envelope::{EnvelopeV, EventEnvelope};
use crate::json::{
    json_get, json_i64, json_same, json_str, law_get_after_put, number_i64, obj_get, obj_put,
    obj_remove, same_json, values_view, Json, JsonV, Number, NumberV, ObjV, Object,
};
use crate::outside::{double_bits, number_bits};
use crate::text::{chars_of, contains_text, has_part, has_prefix, same_text, starts_with, string_of};
use vstd::prelude::*;

verus! {

/// The text of a member, empty where it is missing or no string.
pub open spec fn text_at(v: JsonV, k: Seq<char>) -> Seq<char> {
    match json_str(json_get(v, k)) {
        Some(s) => s,
        None => Seq::empty(),
    }
}

/// The text of a member.
pub fn text_member(v: &Json, k: &str) -> (r: String)
    ensures
        r@ == text_at(v@, k@),
{
    match v.get(k) {
        Some(Json::Str(s)) => s.clone(),
        _ => String::new(),
    }
}

/// The integer of a member, 0 where it is missing or no integer.
pub open spec fn int_at(v: JsonV, k: Seq<char>) -> i64 {
    match json_i64(json_get(v, k)) {
        Some(i) => i,
        None => 0,
    }
}

/// The integer of a member.
pub fn int_member(v: &Json, k: &str) -> (r: i64)
    ensures
        r == int_at(v@, k@),
{
    match v.get(k) {
        Some(x) => match x.as_i64() {
            Some(i) => i,
            None => 0,
        },
        None => 0,
    }
}

/// A member, null where it is missing.
pub open spec fn member_at(v: JsonV, k: Seq<char>) -> JsonV {
    match json_get(v, k) {
        Some(x) => x,
        None => JsonV::Null,
    }
}

/// A member, null where it is missing.
pub fn member(v: &Json, k: &str) -> (r: Json)
    ensures
        r@ == member_at(v@, k@),
{
    match v.get(k) {
        Some(x) => x.clone(),
        None => Json::Null,
    }
}

/// The bits of one of the two zeros.
pub open spec fn zero_bits(b: u64) -> bool {
    b == 0 || b == 0x8000_0000_0000_0000
}

/// Equality of two finite doubles given by their bits.
pub open spec fn bits_equal(a: Option<u64>, b: Option<u64>) -> bool {
    match (a, b) {
        (Some(x), Some(y)) => x == y || (zero_bits(x) && zero_bits(y)),
        (None, None) => true,
        _ => false,
    }
}

/// Equality of numbers, given the doubles nearest to them: as doubles, or as integers.
pub open spec fn numbers_equal(a: NumberV, b: NumberV, p: Option<u64>, q: Option<u64>) -> bool {
    ||| bits_equal(p, q)
    ||| number_i64(a) is Some && number_i64(a) == number_i64(b)
}

/// Loose equality: numbers by value, everything else exactly.
pub open spec fn loosely_equal(a: JsonV, b: JsonV) -> bool {
    match (a, b) {
        (JsonV::Num(x), JsonV::Num(y)) => numbers_equal(x, y, double_bits(x), double_bits(y)),
        _ => json_same(a, b),
    }
}

fn number_as_i64(n: &Number) -> (r: Option<i64>)
    ensures
        r == number_i64(n@),
{
    match n {
        Number::PosInt(u) => if *u <= i64::MAX as u64 {
            Some(*u as i64)
        } else {
            None
        },
        Number::NegInt(i) => Some(*i),
        Number::Float(_) => None,
    }
}

/// Equality of numbers, given the doubles nearest to them.
pub fn same_value(a: &Number, b: &Number, p: Option<u64>, q: Option<u64>) -> (r: bool)
    ensures
        r == numbers_equal(a@, b@, p, q),
{
    let by_double = match (p, q) {
        (Some(x), Some(y)) => x == y || ((x == 0 || x == 0x8000_0000_0000_0000) && (y == 0 || y
            == 0x8000_0000_0000_0000)),
        (None, None) => true,
        _ => false,
    };
    if by_double {
        return true;
    }
    match (number_as_i64(a), number_as_i64(b)) {
        (Some(i), Some(j)) => i == j,
        _ => false,
    }
}

/// Loose equality of values.
pub fn json_eq(a: &Json, b: &Json) -> (r: bool)
    ensures
        r == loosely_equal(a@, b@),
{
    match (a, b) {
        (Json::Num(x), Json::Num(y)) => same_value(x, y, number_bits(x), number_bits(y)),
        _ => same_json(a, b),
    }
}

/// Without the trailing percent signs.
pub open spec fn drop_tail_percent(s: Seq<char>) -> Seq<char>
    decreases s.len(),
{
    if s.len() > 0 && s.last() == '%' {
        drop_tail_percent(s.drop_last())
    } else {
        s
    }
}

/// Without the leading percent signs.
pub open spec fn drop_head_percent(s: Seq<char>) -> Seq<char>
    decreases s.len(),
{
    if s.len() > 0 && s[0] == '%' {
        drop_head_percent(s.drop_first())
    } else {
        s
    }
}

/// Whether a text is like a pattern: one with a leading percent sign may stand anywhere, another
/// only at the start.
pub open spec fn like(g: Seq<char>, pattern: Seq<char>) -> bool {
    let w = drop_tail_percent(pattern);
    has_part(g, drop_head_percent(w)) && ((w.len() > 0 && w[0] == '%') || has_prefix(g, w))
}

/// Whether a text is like a pattern.
pub fn is_like(g: &str, pattern: &str) -> (r: bool)
    ensures
        r == like(g@, pattern@),
{
    let p = chars_of(pattern);
    let mut n: usize = p.len();
    assert(p@.take(n as int) =~= p@);
    while n > 0 && p[n - 1] == '%'
        invariant
            n <= p@.len(),
            drop_tail_percent(p@.take(n as int)) == drop_tail_percent(p@),
        decreases n,
    {
        assert(p@.take(n as int).drop_last() =~= p@.take(n - 1));
        n -= 1;
    }
    let ghost w = p@.take(n as int);
    assert(drop_tail_percent(p@) == w);
    let mut m: usize = 0;
    assert(w.subrange(0, n as int) =~= w);
    while m < n && p[m] == '%'
        invariant
            m <= n <= p@.len(),
            w == p@.take(n as int),
            drop_head_percent(w.subrange(m as int, n as int)) == drop_head_percent(w),
        decreases n - m,
    {
        assert(w.subrange(m as int, n as int).drop_first() =~= w.subrange(m + 1, n as int));
        m += 1;
    }
    assert(drop_head_percent(w) == w.subrange(m as int, n as int));
    let whole = string_of(&p, 0, n);
    let core = string_of(&p, m, n);
    assert(whole@ =~= w);
    assert(core@ =~= w.subrange(m as int, n as int));
    contains_text(g, core.as_str()) && ((n > 0 && p[0] == '%') || starts_with(g, whole.as_str()))
}

/// Whether two values are of one kind.
pub open spec fn same_kind(a: JsonV, b: JsonV) -> bool {
    match (a, b) {
        (JsonV::Null, JsonV::Null) => true,
        (JsonV::Bool(_), JsonV::Bool(_)) => true,
        (JsonV::Num(_), JsonV::Num(_)) => true,
        (JsonV::Str(_), JsonV::Str(_)) => true,
        (JsonV::Arr(_), JsonV::Arr(_)) => true,
        (JsonV::Obj(_), JsonV::Obj(_)) => true,
        _ => false,
    }
}

fn is_same_kind(a: &Json, b: &Json) -> (r: bool)
    ensures
        r == same_kind(a@, b@),
{
    match (a, b) {
        (Json::Null, Json::Null) => true,
        (Json::Bool(_), Json::Bool(_)) => true,
        (Json::Num(_), Json::Num(_)) => true,
        (Json::Str(_), Json::Str(_)) => true,
        (Json::Arr(_), Json::Arr(_)) => true,
        (Json::Obj(_), Json::Obj(_)) => true,
        _ => false,
    }
}

/// Whether the values pass the test `op`; values of different kinds pass none.
pub open spec fn passes(op: Seq<char>, got: JsonV, want: JsonV) -> bool {
    if op == "eq"@ {
        loosely_equal(got, want)
    } else if op == "ne"@ {
        same_kind(got, want) && !loosely_equal(got, want)
    } else if op == "in"@ {
        match want {
            JsonV::Arr(a) => exists|i: int|
                0 <= i < a.len() && loosely_equal(got, #[trigger] a[i]),
            _ => false,
        }
    } else if op == "like"@ {
        match (got, want) {
            (JsonV::Str(g), JsonV::Str(w)) => like(g, w),
            _ => false,
        }
    } else {
        false
    }
}

/// Whether a condition holds of a snapshot. One without field or test, and one on a field that
/// the snapshot lacks, does not hold.
pub open spec fn holds(cond: JsonV, snapshot: JsonV) -> bool {
    match (json_str(json_get(cond, "field"@)), json_str(json_get(cond, "op"@))) {
        (Some(f), Some(op)) => match json_get(snapshot, f) {
            Some(got) => passes(op, got, member_at(cond, "value"@)),
            None => false,
        },
        _ => false,
    }
}

/// Whether a filter lets a snapshot pass: all its conditions hold.
pub open spec fn filter_passes(filter: JsonV, snapshot: JsonV) -> bool {
    match json_get(filter, "conditions"@) {
        Some(JsonV::Arr(a)) => forall|i: int|
            0 <= i < a.len() ==> holds(#[trigger] a[i], snapshot),
        _ => true,
    }
}

fn test_values(op: &str, got: &Json, want: &Json) -> (r: bool)
    ensures
        r == passes(op@, got@, want@),
{
    if same_text(op, "eq") {
        return json_eq(got, want);
    }
    if same_text(op, "ne") {
        return is_same_kind(got, want) && !json_eq(got, want);
    }
    if same_text(op, "in") {
        if let Some(a) = want.as_array() {
            let ghost av = values_view(a@);
            let mut i: usize = 0;
            while i < a.len()
                invariant
                    i <= a@.len(),
                    av == values_view(a@),
                    want@ == JsonV::Arr(av),
                    op@ == "in"@,
                    op@ != "eq"@,
                    op@ != "ne"@,
                    forall|j: int| 0 <= j < i ==> !loosely_equal(got@, #[trigger] av[j]),
                decreases a@.len() - i,
            {
                assert(av[i as int] == a@[i as int]@);
                if json_eq(got, &a[i]) {
                    proof {
                        let k = i as int;
                        assert(0 <= k < av.len() && loosely_equal(got@, av[k]));
                        assert(loosely_equal(got@, want@->Arr_0[k]));
                    }
                    return true;
                }
                i += 1;
            }
        }
        return false;
    }
    if same_text(op, "like") {
        return match (got, want) {
            (Json::Str(g), Json::Str(w)) => is_like(g.as_str(), w.as_str()),
            _ => false,
        };
    }
    false
}

/// Whether a condition holds of a snapshot.
pub fn eval_condition(cond: &Json, snapshot: &Json) -> (r: bool)
    ensures
        r == holds(cond@, snapshot@),
{
    let field = match cond.get("field") {
        Some(Json::Str(f)) => f,
        _ => {
            return false;
        },
    };
    let op = match cond.get("op") {
        Some(Json::Str(o)) => o,
        _ => {
            return false;
        },
    };
    match snapshot.get(field.as_str()) {
        Some(got) => {
            let want = member(cond, "value");
            test_values(op.as_str(), got, &want)
        },
        None => false,
    }
}

/// Whether a filter lets a snapshot pass.
pub fn eval_filter(filter: &Json, snapshot: &Json) -> (r: bool)
    ensures
        r == filter_passes(filter@, snapshot@),
{
    if let Some(c) = filter.get("conditions") {
        if let Some(a) = c.as_array() {
            let ghost av = values_view(a@);
            let mut i: usize = 0;
            while i < a.len()
                invariant
                    i <= a@.len(),
                    av == values_view(a@),
                    json_get(filter@, "conditions"@) == Some(JsonV::Arr(av)),
                    forall|j: int| 0 <= j < i ==> holds(#[trigger] av[j], snapshot@),
                decreases a@.len() - i,
            {
                assert(av[i as int] == a@[i as int]@);
                if !eval_condition(&a[i], snapshot) {
                    proof {
                        let k = i as int;
                        assert(0 <= k < av.len() && !holds(av[k], snapshot@));
                        assert(!holds(
                            json_get(filter@, "conditions"@)->Some_0->Arr_0[k],
                            snapshot@,
                        ));
                    }
                    return false;
                }
                i += 1;
            }
        }
    }
    true
}

/// Whether a subscription takes events of a type: an empty list takes all, `*` takes any.
pub open spec fn takes_type(sub: JsonV, ev_type: Seq<char>) -> bool {
    match json_get(sub, "event_types"@) {
        Some(JsonV::Arr(a)) => a.len() == 0 || exists|i: int|
            0 <= i < a.len() && (#[trigger] a[i] == JsonV::Str(ev_type) || a[i] == JsonV::Str(
                "*"@,
            )),
        _ => true,
    }
}

/// The snapshot of an event, where it carries one.
pub open spec fn snapshot_of(event: JsonV) -> Option<JsonV> {
    match json_get(event, "payload"@) {
        Some(p) => match json_get(p, "snapshot"@) {
            Some(JsonV::Obj(o)) => Some(JsonV::Obj(o)),
            _ => None,
        },
        None => None,
    }
}

/// Whether an event concerns a subscription: it is of its dictionary and of a type that it takes,
/// and its snapshot passes the filter. An event without a snapshot is not filtered.
pub open spec fn concerns(event: JsonV, sub: JsonV) -> bool {
    &&& text_at(event, "dict_code"@).len() > 0
    &&& text_at(event, "dict_code"@) == text_at(sub, "dict_code"@)
    &&& takes_type(sub, text_at(event, "event_type"@))
    &&& match (json_get(sub, "filter"@), snapshot_of(event)) {
        (Some(JsonV::Obj(f)), Some(s)) => filter_passes(JsonV::Obj(f), s),
        _ => true,
    }
}

fn type_taken(sub: &Json, ev_type: &str) -> (r: bool)
    ensures
        r == takes_type(sub@, ev_type@),
{
    if let Some(t) = sub.get("event_types") {
        if let Some(a) = t.as_array() {
            if a.len() == 0 {
                return true;
            }
            let ghost av = values_view(a@);
            let mut i: usize = 0;
            while i < a.len()
                invariant
                    i <= a@.len(),
                    av == values_view(a@),
                    json_get(sub@, "event_types"@) == Some(JsonV::Arr(av)),
                    forall|j: int|
                        0 <= j < i ==> !(#[trigger] av[j] == JsonV::Str(ev_type@) || av[j]
                            == JsonV::Str("*"@)),
                decreases a@.len() - i,
            {
                assert(av[i as int] == a@[i as int]@);
                if let Some(s) = a[i].as_str() {
                    if same_text(s.as_str(), ev_type) || same_text(s.as_str(), "*") {
                        return true;
                    }
                }
                i += 1;
            }
            return false;
        }
    }
    true
}

/// Whether an event concerns a subscription.
pub fn event_matches_sub(event: &Json, sub: &Json) -> (r: bool)
    ensures
        r == concerns(event@, sub@),
{
    let ev_dict = text_member(event, "dict_code");
    let sub_dict = text_member(sub, "dict_code");
    if ev_dict.as_str().is_empty() || !same_text(ev_dict.as_str(), sub_dict.as_str()) {
        return false;
    }
    let ev_type = text_member(event, "event_type");
    if !type_taken(sub, ev_type.as_str()) {
        return false;
    }
    if let Some(filter) = sub.get("filter") {
        if let Json::Obj(_) = filter {
            if let Some(p) = event.get("payload") {
                if let Some(s) = p.get("snapshot") {
                    if let Json::Obj(_) = s {
                        return eval_filter(filter, s);
                    }
                }
            }
        }
    }
    true
}

/// Whether a list of values holds the string `k`.
pub open spec fn names(a: Seq<JsonV>, k: Seq<char>) -> bool {
    exists|i: int| 0 <= i < a.len() && #[trigger] a[i] == JsonV::Str(k)
}

/// Whether a list of values holds a string at all.
pub open spec fn names_any(a: Seq<JsonV>) -> bool {
    exists|i: int| 0 <= i < a.len() && (#[trigger] a[i]) is Str
}

/// The members whose keys are named.
pub open spec fn only_named(o: ObjV, a: Seq<JsonV>) -> ObjV
    decreases o.len(),
{
    if o.len() == 0 {
        o
    } else {
        let r = only_named(o.drop_last(), a);
        if names(a, o.last().0) {
            obj_put(r, o.last().0, o.last().1)
        } else {
            r
        }
    }
}

/// The first step of a projection: the included members, or all.
pub open spec fn included(o: ObjV, fm: ObjV) -> ObjV {
    match obj_get(fm, "include"@) {
        Some(JsonV::Arr(a)) => if names_any(a) {
            only_named(o, a)
        } else {
            o
        },
        _ => o,
    }
}

/// One renaming: the member leaves its old key and, where the new one is a string, gets that.
pub open spec fn rename_one(o: ObjV, old: Seq<char>, new: JsonV) -> ObjV {
    match (new, obj_get(o, old)) {
        (JsonV::Str(n), Some(v)) => obj_put(obj_remove(o, old), n, v),
        _ => obj_remove(o, old),
    }
}

/// The renamings in their order.
pub open spec fn rename_all(o: ObjV, ren: ObjV) -> ObjV
    decreases ren.len(),
{
    if ren.len() == 0 {
        o
    } else {
        rename_one(rename_all(o, ren.drop_last()), ren.last().0, ren.last().1)
    }
}

/// The second step of a projection.
pub open spec fn renamed(o: ObjV, fm: ObjV) -> ObjV {
    match obj_get(fm, "rename"@) {
        Some(JsonV::Obj(r)) => rename_all(o, r),
        _ => o,
    }
}

/// The named members with stars for values.
pub open spec fn mask_all(o: ObjV, a: Seq<JsonV>) -> ObjV
    decreases a.len(),
{
    if a.len() == 0 {
        o
    } else {
        let r = mask_all(o, a.drop_last());
        match a.last() {
            JsonV::Str(k) => if obj_get(r, k) is Some {
                obj_put(r, k, JsonV::Str("***"@))
            } else {
                r
            },
            _ => r,
        }
    }
}

/// The third step of a projection.
pub open spec fn masked(o: ObjV, fm: ObjV) -> ObjV {
    match obj_get(fm, "mask"@) {
        Some(JsonV::Arr(a)) => mask_all(o, a),
        _ => o,
    }
}

/// What of a snapshot is sent: some members, some under other names, some masked.
pub open spec fn projected(snapshot: JsonV, field_map: JsonV) -> JsonV {
    match (snapshot, field_map) {
        (JsonV::Obj(o), JsonV::Obj(fm)) => JsonV::Obj(masked(renamed(included(o, fm), fm), fm)),
        _ => snapshot,
    }
}

fn named(a: &Vec<Json>, k: &str) -> (r: bool)
    ensures
        r == names(values_view(a@), k@),
{
    let ghost av = values_view(a@);
    let mut i: usize = 0;
    while i < a.len()
        invariant
            i <= a@.len(),
            av == values_view(a@),
            forall|j: int| 0 <= j < i ==> #[trigger] av[j] != JsonV::Str(k@),
        decreases a@.len() - i,
    {
        assert(av[i as int] == a@[i as int]@);
        if let Some(s) = a[i].as_str() {
            if same_text(s.as_str(), k) {
                assert(av[i as int] == JsonV::Str(k@));
                return true;
            }
        }
        i += 1;
    }
    false
}

fn any_named(a: &Vec<Json>) -> (r: bool)
    ensures
        r == names_any(values_view(a@)),
{
    let ghost av = values_view(a@);
    let mut i: usize = 0;
    while i < a.len()
        invariant
            i <= a@.len(),
            av == values_view(a@),
            forall|j: int| 0 <= j < i ==> !((#[trigger] av[j]) is Str),
        decreases a@.len() - i,
    {
        assert(av[i as int] == a@[i as int]@);
        if a[i].as_str().is_some() {
            return true;
        }
        i += 1;
    }
    false
}

fn include_step(o: &Object, fm: &Object) -> (r: Object)
    ensures
        r@ == included(o@, fm@),
{
    if let Some(inc) = fm.get("include") {
        if let Some(a) = inc.as_array() {
            if any_named(a) {
                let mut r = Object::new();
                let n: usize = o.len();
                let mut i: usize = 0;
                assert(o@.take(0) =~= ObjV::empty());
                while i < n
                    invariant
                        i <= n,
                        n == o@.len(),
                        r@ == only_named(o@.take(i as int), values_view(a@)),
                    decreases n - i,
                {
                    assert(o@.take(i + 1).drop_last() =~= o@.take(i as int));
                    assert(o@.take(i + 1).last() == o@[i as int]);
                    if named(a, o.key_at(i).as_str()) {
                        r.insert(o.key_at(i).clone(), o.value_at(i).clone());
                    }
                    i += 1;
                }
                assert(o@.take(n as int) =~= o@);
                return r;
            }
        }
    }
    o.clone()
}

fn rename_step(o: &mut Object, fm: &Object)
    ensures
        final(o)@ == renamed(old(o)@, fm@),
{
    if let Some(Json::Obj(ren)) = fm.get("rename") {
        let ghost start = o@;
        let n: usize = ren.len();
        let mut i: usize = 0;
        assert(ren@.take(0) =~= ObjV::empty());
        while i < n
            invariant
                i <= n,
                n == ren@.len(),
                o@ == rename_all(start, ren@.take(i as int)),
            decreases n - i,
        {
            assert(ren@.take(i + 1).drop_last() =~= ren@.take(i as int));
            assert(ren@.take(i + 1).last() == ren@[i as int]);
            let taken = o.remove(ren.key_at(i).as_str());
            if let Some(v) = taken {
                if let Some(k) = ren.value_at(i).as_str() {
                    o.insert(k.clone(), v);
                }
            }
            i += 1;
        }
        assert(ren@.take(n as int) =~= ren@);
    }
}

fn mask_step(o: &mut Object, fm: &Object)
    ensures
        final(o)@ == masked(old(o)@, fm@),
{
    if let Some(m) = fm.get("mask") {
        if let Some(a) = m.as_array() {
            let ghost start = o@;
            let ghost av = values_view(a@);
            let mut i: usize = 0;
            assert(av.take(0) =~= Seq::<JsonV>::empty());
            while i < a.len()
                invariant
                    i <= a@.len(),
                    av == values_view(a@),
                    o@ == mask_all(start, av.take(i as int)),
                decreases a@.len() - i,
            {
                assert(av.take(i + 1).drop_last() =~= av.take(i as int));
                assert(av.take(i + 1).last() == a@[i as int]@);
                if let Some(k) = a[i].as_str() {
                    if o.contains_key(k.as_str()) {
                        o.insert(k.clone(), Json::string("***"));
                    }
                }
                i += 1;
            }
            assert(av.take(av.len() as int) =~= av);
        }
    }
}

/// What of a snapshot is sent: `include` first, then `rename`, then `mask`.
pub fn apply_field_map(snapshot: &Json, field_map: &Json) -> (r: Json)
    ensures
        r@ == projected(snapshot@, field_map@),
{
    match (snapshot, field_map) {
        (Json::Obj(o), Json::Obj(fm)) => {
            let mut out = include_step(o, fm);
            rename_step(&mut out, fm);
            mask_step(&mut out, fm);
            Json::Obj(out)
        },
        _ => snapshot.clone(),
    }
}

proof fn lemma_mask_all(o: ObjV, a: Seq<JsonV>, k: Seq<char>)
    ensures
        (obj_get(mask_all(o, a), k) is Some) == (obj_get(o, k) is Some),
        names(a, k) && obj_get(o, k) is Some ==> obj_get(mask_all(o, a), k) == Some(
            JsonV::Str("***"@),
        ),
        !names(a, k) ==> obj_get(mask_all(o, a), k) == obj_get(o, k),
    decreases a.len(),
{
    if a.len() > 0 {
        let d = a.drop_last();
        lemma_mask_all(o, d, k);
        let r = mask_all(o, d);
        if let JsonV::Str(x) = a.last() {
            law_get_after_put(r, x, JsonV::Str("***"@), k);
        }
        if names(a, k) {
            let i = choose|i: int| 0 <= i < a.len() && #[trigger] a[i] == JsonV::Str(k);
            if i < d.len() {
                assert(d[i] == JsonV::Str(k));
            }
        }
        if names(d, k) {
            let i = choose|i: int| 0 <= i < d.len() && #[trigger] d[i] == JsonV::Str(k);
            assert(a[i] == JsonV::Str(k));
        }
        if a.last() == JsonV::Str(k) {
            assert(a[a.len() - 1] == JsonV::Str(k));
        }
    }
}

/// A masked member is sent with stars for its value; masking neither adds nor drops a member and
/// leaves the others alone.
pub proof fn law_mask(o: ObjV, fm: ObjV, a: Seq<JsonV>, k: Seq<char>)
    requires
        obj_get(fm, "mask"@) == Some(JsonV::Arr(a)),
    ensures
        (obj_get(masked(o, fm), k) is Some) == (obj_get(o, k) is Some),
        names(a, k) && obj_get(o, k) is Some ==> obj_get(masked(o, fm), k) == Some(
            JsonV::Str("***"@),
        ),
        !names(a, k) ==> obj_get(masked(o, fm), k) == obj_get(o, k),
{
    lemma_mask_all(o, a, k);
}

/// An empty field map sends the snapshot as it is.
pub proof fn law_empty_field_map(snapshot: JsonV)
    ensures
        projected(snapshot, JsonV::Obj(Seq::empty())) == snapshot,
{
}

/// The envelope of an event.
pub open spec fn envelope_of(event: JsonV, data: JsonV, meta: JsonV) -> EnvelopeV {
    let payload = member_at(event, "payload"@);
    EnvelopeV {
        event_id: text_at(event, "id"@),
        seq: int_at(event, "seq"@),
        event_type: text_at(event, "event_type"@),
        dict_code: text_at(event, "dict_code"@),
        record_id: int_at(event, "record_id"@),
        record_code: text_at(member_at(payload, "snapshot"@), "code"@),
        version: int_at(payload, "version"@),
        source: "cmx-mdm"@,
        occurred_at: text_at(event, "emitted_at"@),
        data,
        meta,
    }
}

/// The envelope of an event: its columns, and the version and code that its payload carries.
pub fn build_envelope(event: &Json, data: Json, meta: Json) -> (r: EventEnvelope)
    ensures
        r@ == envelope_of(event@, data@, meta@),
{
    let payload = member(event, "payload");
    let snapshot = member(&payload, "snapshot");
    EventEnvelope {
        event_id: text_member(event, "id"),
        seq: int_member(event, "seq"),
        event_type: text_member(event, "event_type"),
        dict_code: text_member(event, "dict_code"),
        record_id: int_member(event, "record_id"),
        record_code: text_member(&snapshot, "code"),
        version: int_member(&payload, "version"),
        source: "cmx-mdm".to_owned(),
        occurred_at: text_member(event, "emitted_at"),
        data,
        meta,
    }
}

} // verus!
