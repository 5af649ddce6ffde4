//! What a subscriber gets: which events concern it, and what of them is sent.

use crate::distribution::transform::{
    concerns, drop_head_percent, drop_tail_percent, envelope_of, filter_passes, holds, included,
    law_mask, like, loosely_equal, masked, names, names_any, only_named, passes, projected,
    rename_all, rename_one, renamed, snapshot_of, takes_type, text_at,
};
use crate::json::{
    json_get, json_same, keys_ascend, law_get_after_put, law_get_after_remove,
    law_get_finds_members, law_json_same_reflexive, law_json_same_separates,
    law_keys_stay_ascending, number_i64, obj_get, obj_remove, JsonV, ObjV,
};
use crate::text::{has_part, has_prefix, stands_at, text_lt};
use vstd::prelude::*;

verus! {

/// A filter with one condition.
pub open spec fn only_condition(cond: JsonV) -> JsonV {
    JsonV::Obj(seq![("conditions"@, JsonV::Arr(seq![cond]))])
}

/// An object with one member.
pub open spec fn only_member(k: Seq<char>, v: JsonV) -> JsonV {
    JsonV::Obj(seq![(k, v)])
}

proof fn lemma_only_member(k: Seq<char>, v: JsonV)
    ensures
        json_get(only_member(k, v), k) == Some(v),
{
    assert(seq![(k, v)][0] == (k, v));
}

/// A filter with conditions lets pass where all of them hold.
proof fn lemma_all_hold(filter: JsonV, snapshot: JsonV, conds: Seq<JsonV>)
    requires
        json_get(filter, "conditions"@) == Some(JsonV::Arr(conds)),
    ensures
        filter_passes(filter, snapshot) ==> forall|i: int|
            0 <= i < conds.len() ==> holds(#[trigger] conds[i], snapshot),
        (forall|i: int| 0 <= i < conds.len() ==> holds(#[trigger] conds[i], snapshot))
            ==> filter_passes(filter, snapshot),
{
    if filter_passes(filter, snapshot) {
        assert forall|i: int| 0 <= i < conds.len() implies holds(#[trigger] conds[i], snapshot) by {
            assert(holds(json_get(filter, "conditions"@)->Some_0->Arr_0[i], snapshot));
        }
    }
    if forall|i: int| 0 <= i < conds.len() ==> holds(#[trigger] conds[i], snapshot) {
        let a = json_get(filter, "conditions"@)->Some_0->Arr_0;
        assert(a == conds);
        assert(forall|i: int| 0 <= i < a.len() ==> holds(#[trigger] a[i], snapshot));
    }
}

proof fn lemma_alone(cond: JsonV, snapshot: JsonV)
    ensures
        filter_passes(only_condition(cond), snapshot) <==> holds(cond, snapshot),
{
    lemma_only_member("conditions"@, JsonV::Arr(seq![cond]));
    let a = seq![cond];
    lemma_all_hold(only_condition(cond), snapshot, a);
    assert(a[0] == cond);
}

/// A filter lets a snapshot pass exactly where each of its conditions, taken alone, does.
pub proof fn law_filter_joins_by_and(filter: JsonV, snapshot: JsonV, conds: Seq<JsonV>)
    requires
        json_get(filter, "conditions"@) == Some(JsonV::Arr(conds)),
    ensures
        filter_passes(filter, snapshot) <==> forall|i: int|
            0 <= i < conds.len() ==> filter_passes(
                only_condition(#[trigger] conds[i]),
                snapshot,
            ),
{
    lemma_all_hold(filter, snapshot, conds);
    assert forall|i: int| 0 <= i < conds.len() implies (filter_passes(
        only_condition(#[trigger] conds[i]),
        snapshot,
    ) <==> holds(conds[i], snapshot)) by {
        lemma_alone(conds[i], snapshot);
    }
}

/// One more condition never lets more snapshots pass.
pub proof fn law_condition_narrows(snapshot: JsonV, conds: Seq<JsonV>, cond: JsonV)
    ensures
        filter_passes(only_member("conditions"@, JsonV::Arr(conds.push(cond))), snapshot)
            <==> filter_passes(only_member("conditions"@, JsonV::Arr(conds)), snapshot)
            && filter_passes(only_condition(cond), snapshot),
{
    lemma_only_member("conditions"@, JsonV::Arr(conds.push(cond)));
    lemma_only_member("conditions"@, JsonV::Arr(conds));
    lemma_alone(cond, snapshot);
    let all = conds.push(cond);
    lemma_all_hold(only_member("conditions"@, JsonV::Arr(all)), snapshot, all);
    lemma_all_hold(only_member("conditions"@, JsonV::Arr(conds)), snapshot, conds);
    if filter_passes(only_member("conditions"@, JsonV::Arr(all)), snapshot) {
        assert(holds(all[conds.len() as int], snapshot));
        assert forall|i: int| 0 <= i < conds.len() implies holds(#[trigger] conds[i], snapshot) by {
            assert(all[i] == conds[i]);
        }
    }
}

/// The dictionary of an event and of a subscription is the same, and is named.
pub open spec fn of_its_dictionary(event: JsonV, sub: JsonV) -> bool {
    json_get(event, "dict_code"@) matches Some(JsonV::Str(d)) && d.len() > 0 && json_get(
        sub,
        "dict_code"@,
    ) == Some(JsonV::Str(d))
}

/// A subscription asks for the type of an event: it lists none, lists it, or lists `*`.
pub open spec fn of_its_types(event: JsonV, sub: JsonV) -> bool {
    json_get(sub, "event_types"@) matches Some(JsonV::Arr(a)) ==> a.len() == 0 || a.contains(
        JsonV::Str("*"@),
    ) || match json_get(event, "event_type"@) {
        Some(JsonV::Str(t)) => a.contains(JsonV::Str(t)),
        _ => a.contains(JsonV::Str(Seq::empty())),
    }
}

/// An event concerns a subscription exactly where both are of one dictionary, the subscription
/// asks for its type and, where the event carries a snapshot and the subscription a filter with
/// conditions, each condition, taken alone, lets the snapshot pass.
pub proof fn law_event_concerns(event: JsonV, sub: JsonV)
    ensures
        concerns(event, sub) <==> {
            &&& of_its_dictionary(event, sub)
            &&& of_its_types(event, sub)
            &&& forall|i: int, conds: Seq<JsonV>, p: JsonV, snapshot: ObjV, f: ObjV|
                json_get(sub, "filter"@) == Some(JsonV::Obj(f)) && obj_get(f, "conditions"@)
                    == Some(JsonV::Arr(conds)) && json_get(event, "payload"@) == Some(p)
                    && json_get(p, "snapshot"@) == Some(JsonV::Obj(snapshot)) && 0 <= i
                    < conds.len() ==> #[trigger] condition_lets_pass(f, p, conds, i, snapshot)
        },
{
    let fits = of_its_dictionary(event, sub) && of_its_types(event, sub);
    assert(of_its_dictionary(event, sub) <==> text_at(event, "dict_code"@).len() > 0 && text_at(
        event,
        "dict_code"@,
    ) == text_at(sub, "dict_code"@));
    lemma_types(event, sub);
    if let Some(JsonV::Obj(f)) = json_get(sub, "filter"@) {
        if let Some(JsonV::Arr(conds)) = obj_get(f, "conditions"@) {
            if let Some(p) = json_get(event, "payload"@) {
                if let Some(JsonV::Obj(o)) = json_get(p, "snapshot"@) {
                    let s = JsonV::Obj(o);
                    law_filter_joins_by_and(JsonV::Obj(f), s, conds);
                    assert(snapshot_of(event) == Some(s));
                    if forall|i: int| 0 <= i < conds.len() ==> #[trigger]
                        condition_lets_pass(f, p, conds, i, o) {
                        assert forall|i: int| 0 <= i < conds.len() implies filter_passes(
                            only_condition(#[trigger] conds[i]),
                            s,
                        ) by {
                            assert(condition_lets_pass(f, p, conds, i, o));
                        }
                    }
                }
            }
        }
    }
}

/// Condition `i`, taken alone, lets a snapshot pass.
pub open spec fn condition_lets_pass(
    f: ObjV,
    p: JsonV,
    conds: Seq<JsonV>,
    i: int,
    snapshot: ObjV,
) -> bool {
    filter_passes(only_condition(conds[i]), JsonV::Obj(snapshot))
}

proof fn lemma_types(event: JsonV, sub: JsonV)
    ensures
        of_its_types(event, sub) <==> takes_type(sub, text_at(event, "event_type"@)),
{
    if let Some(JsonV::Arr(a)) = json_get(sub, "event_types"@) {
        let t = text_at(event, "event_type"@);
        if a.len() > 0 {
            if takes_type(sub, t) {
                let i = choose|i: int|
                    0 <= i < a.len() && (#[trigger] a[i] == JsonV::Str(t) || a[i] == JsonV::Str(
                        "*"@,
                    ));
                assert(a.contains(a[i]));
            }
            if a.contains(JsonV::Str("*"@)) {
                let i = choose|i: int| 0 <= i < a.len() && a[i] == JsonV::Str("*"@);
                assert(a[i] == JsonV::Str("*"@));
            }
            if a.contains(JsonV::Str(t)) {
                let i = choose|i: int| 0 <= i < a.len() && a[i] == JsonV::Str(t);
                assert(a[i] == JsonV::Str(t));
            }
        }
    }
}

/// One condition that fails keeps an event with a snapshot from a subscription.
pub proof fn law_failed_condition_excludes(
    event: JsonV,
    sub: JsonV,
    f: ObjV,
    conds: Seq<JsonV>,
    p: JsonV,
    snapshot: ObjV,
    i: int,
)
    requires
        json_get(sub, "filter"@) == Some(JsonV::Obj(f)),
        obj_get(f, "conditions"@) == Some(JsonV::Arr(conds)),
        json_get(event, "payload"@) == Some(p),
        json_get(p, "snapshot"@) == Some(JsonV::Obj(snapshot)),
        0 <= i < conds.len(),
        !filter_passes(only_condition(conds[i]), JsonV::Obj(snapshot)),
    ensures
        !concerns(event, sub),
{
    law_event_concerns(event, sub);
    assert(!condition_lets_pass(f, p, conds, i, snapshot));
}

/// A condition on a field, with a test and a value.
pub open spec fn condition(field: Seq<char>, op: Seq<char>, value: JsonV) -> JsonV {
    JsonV::Obj(
        seq![
            ("field"@, JsonV::Str(field)),
            ("op"@, JsonV::Str(op)),
            ("value"@, value),
        ],
    )
}

/// A condition lets a snapshot pass that has a value in a field.
pub open spec fn lets_pass(op: Seq<char>, got: JsonV, want: JsonV) -> bool {
    filter_passes(only_condition(condition("f"@, op, want)), only_member("f"@, got))
}

proof fn lemma_condition(field: Seq<char>, op: Seq<char>, value: JsonV)
    ensures
        json_get(condition(field, op, value), "field"@) == Some(JsonV::Str(field)),
        json_get(condition(field, op, value), "op"@) == Some(JsonV::Str(op)),
        json_get(condition(field, op, value), "value"@) == Some(value),
{
    reveal_strlit("field");
    reveal_strlit("op");
    reveal_strlit("value");
    let s = seq![
        ("field"@, JsonV::Str(field)),
        ("op"@, JsonV::Str(op)),
        ("value"@, value),
    ];
    assert("field"@.len() == 5 && "op"@.len() == 2 && "value"@.len() == 5);
    assert("field"@[0] == 'f' && "value"@[0] == 'v');
    let d = s.drop_first();
    let e = d.drop_first();
    assert(d[0] == s[1]);
    assert(e[0] == s[2]);
    reveal_with_fuel(obj_get, 4);
}

proof fn lemma_lets_pass(op: Seq<char>, got: JsonV, want: JsonV)
    ensures
        lets_pass(op, got, want) <==> passes(op, got, want),
{
    lemma_condition("f"@, op, want);
    lemma_only_member("f"@, got);
    lemma_alone(condition("f"@, op, want), only_member("f"@, got));
}

proof fn lemma_tests()
    ensures
        "eq"@ != "ne"@,
        "eq"@ != "in"@,
        "eq"@ != "like"@,
        "ne"@ != "in"@,
        "ne"@ != "like"@,
        "in"@ != "like"@,
{
    reveal_strlit("eq");
    reveal_strlit("ne");
    reveal_strlit("in");
    reveal_strlit("like");
    assert("eq"@[0] == 'e' && "ne"@[0] == 'n' && "in"@[0] == 'i' && "like"@.len() == 4);
}

/// A condition looks at its own field only: it lets a snapshot pass exactly where the snapshot has
/// that field and the value there, alone, would pass; a snapshot without the field never does.
pub proof fn law_condition_looks_at_field(
    field: Seq<char>,
    op: Seq<char>,
    want: JsonV,
    snapshot: JsonV,
)
    ensures
        match json_get(snapshot, field) {
            Some(got) => filter_passes(only_condition(condition(field, op, want)), snapshot)
                <==> lets_pass(op, got, want),
            None => !filter_passes(only_condition(condition(field, op, want)), snapshot),
        },
{
    lemma_condition(field, op, want);
    lemma_alone(condition(field, op, want), snapshot);
    if let Some(got) = json_get(snapshot, field) {
        lemma_lets_pass(op, got, want);
    }
}

/// The test for equality: a value passes against itself; a text, a truth value and null pass
/// against nothing else; integers pass where they are the same; values of different kinds never
/// pass.
pub proof fn law_eq_condition(got: JsonV, want: JsonV)
    ensures
        !(got is Num) ==> lets_pass("eq"@, got, got),
        got is Str || got is Bool || got is Null ==> (lets_pass("eq"@, got, want) <==> got
            == want),
        want is Str || want is Bool || want is Null ==> (lets_pass("eq"@, got, want) <==> got
            == want),
        got matches JsonV::Num(n) ==> (want matches JsonV::Num(m) ==> (number_i64(n) is Some
            && number_i64(n) == number_i64(m) ==> lets_pass("eq"@, got, want))),
        got is Num != want is Num ==> !lets_pass("eq"@, got, want),
        got is Arr != want is Arr ==> !lets_pass("eq"@, got, want),
        got is Obj != want is Obj ==> !lets_pass("eq"@, got, want),
{
    lemma_lets_pass("eq"@, got, got);
    lemma_lets_pass("eq"@, got, want);
    law_json_same_reflexive(got);
    law_json_same_reflexive(want);
    if json_same(got, want) {
        law_json_same_separates(got, want);
    }
}

/// The test for inequality passes exactly where both values are of one kind and the test for
/// equality does not.
pub proof fn law_ne_condition(got: JsonV, want: JsonV)
    ensures
        lets_pass("ne"@, got, want) ==> !lets_pass("eq"@, got, want),
        got is Str && want is Str || got is Num && want is Num || got is Bool && want is Bool
            || got is Arr && want is Arr || got is Obj && want is Obj || got is Null
            && want is Null ==> (lets_pass("ne"@, got, want) <==> !lets_pass("eq"@, got, want)),
        got is Str != want is Str || got is Num != want is Num || got is Bool != want is Bool
            || got is Null != want is Null ==> !lets_pass("ne"@, got, want),
{
    lemma_tests();
    lemma_lets_pass("eq"@, got, want);
    lemma_lets_pass("ne"@, got, want);
}

/// The test for membership passes exactly where one of the values listed passes the test for
/// equality; it never passes against something that is no list.
pub proof fn law_in_condition(got: JsonV, want: JsonV)
    ensures
        want matches JsonV::Arr(a) ==> (lets_pass("in"@, got, want) <==> exists|i: int|
            0 <= i < a.len() && lets_pass("eq"@, got, #[trigger] a[i])),
        !(want is Arr) ==> !lets_pass("in"@, got, want),
{
    lemma_tests();
    lemma_lets_pass("in"@, got, want);
    if let JsonV::Arr(a) = want {
        assert forall|i: int| 0 <= i < a.len() implies (lets_pass("eq"@, got, #[trigger] a[i])
            <==> loosely_equal(got, a[i])) by {
            lemma_lets_pass("eq"@, got, a[i]);
        }
        if lets_pass("in"@, got, want) {
            let i = choose|i: int| 0 <= i < a.len() && loosely_equal(got, #[trigger] a[i]);
            assert(lets_pass("eq"@, got, a[i]));
        }
        if exists|i: int| 0 <= i < a.len() && lets_pass("eq"@, got, #[trigger] a[i]) {
            let i = choose|i: int| 0 <= i < a.len() && lets_pass("eq"@, got, #[trigger] a[i]);
            assert(loosely_equal(got, a[i]));
        }
    }
}

/// No other test passes.
pub proof fn law_other_condition(op: Seq<char>, got: JsonV, want: JsonV)
    requires
        op != "eq"@,
        op != "ne"@,
        op != "in"@,
        op != "like"@,
    ensures
        !lets_pass(op, got, want),
{
    lemma_lets_pass(op, got, want);
}

/// A text with no percent sign at either end.
pub open spec fn plain(c: Seq<char>) -> bool {
    c.len() > 0 && c[0] != '%' && c.last() != '%'
}

/// A text begins with another.
pub open spec fn begins(g: Seq<char>, c: Seq<char>) -> bool {
    c.len() <= g.len() && forall|i: int| 0 <= i < c.len() ==> g[i] == c[i]
}

/// A text holds another from position `at` on.
pub open spec fn holds_at(g: Seq<char>, c: Seq<char>, at: int) -> bool {
    0 <= at && at + c.len() <= g.len() && forall|i: int| 0 <= i < c.len() ==> g[at + i] == #[trigger] c[i]
}

/// A pattern with a percent sign in front passes every text that holds the rest of it; one without
/// passes the texts that begin with it. Percent signs at the end change nothing. Only texts pass.
pub proof fn law_like_condition(g: Seq<char>, c: Seq<char>)
    requires
        plain(c),
    ensures
        lets_pass("like"@, JsonV::Str(g), JsonV::Str(c)) <==> begins(g, c),
        lets_pass("like"@, JsonV::Str(g), JsonV::Str(c.push('%'))) <==> begins(g, c),
        lets_pass("like"@, JsonV::Str(g), JsonV::Str(seq!['%'] + c)) <==> exists|at: int|
            holds_at(g, c, at),
        lets_pass("like"@, JsonV::Str(g), JsonV::Str((seq!['%'] + c).push('%'))) <==> exists|
            at: int,
        |
            holds_at(g, c, at),
{
    lemma_tests();
    let l = seq!['%'] + c;
    lemma_lets_pass("like"@, JsonV::Str(g), JsonV::Str(c));
    lemma_lets_pass("like"@, JsonV::Str(g), JsonV::Str(c.push('%')));
    lemma_lets_pass("like"@, JsonV::Str(g), JsonV::Str(l));
    lemma_lets_pass("like"@, JsonV::Str(g), JsonV::Str(l.push('%')));
    reveal_with_fuel(drop_tail_percent, 2);
    reveal_with_fuel(drop_head_percent, 2);
    assert(c.push('%').drop_last() =~= c);
    assert(l.push('%').drop_last() =~= l);
    assert(l.drop_first() =~= c);
    assert(l.last() == c.last());
    assert(drop_tail_percent(c) == c);
    assert(drop_tail_percent(l) == l);
    assert(drop_head_percent(l) == c);
    assert(drop_head_percent(c) == c);
    assert(has_prefix(g, c) <==> begins(g, c)) by {
        if has_prefix(g, c) {
            assert forall|i: int| 0 <= i < c.len() implies g[i] == c[i] by {
                assert(g.take(c.len() as int)[i] == c[i]);
            }
        }
        if begins(g, c) {
            assert(g.take(c.len() as int) =~= c);
        }
    }
    if has_prefix(g, c) {
        assert(g.subrange(0, c.len() as int) =~= g.take(c.len() as int));
        assert(stands_at(g, c, 0));
    }
    assert forall|at: int| stands_at(g, c, at) <==> #[trigger] holds_at(g, c, at) by {
        if stands_at(g, c, at) {
            assert forall|i: int| 0 <= i < c.len() implies g[at + i] == #[trigger] c[i] by {
                assert(g.subrange(at, at + c.len())[i] == c[i]);
            }
        }
        if holds_at(g, c, at) {
            assert(g.subrange(at, at + c.len()) =~= c);
        }
    }
    if has_part(g, c) {
        let at = choose|at: int| stands_at(g, c, at);
        assert(holds_at(g, c, at));
    }
    if exists|at: int| holds_at(g, c, at) {
        let at = choose|at: int| holds_at(g, c, at);
        assert(stands_at(g, c, at));
    }
}

/// A pattern passes nothing but texts, and is itself a text.
pub proof fn law_like_needs_texts(got: JsonV, want: JsonV)
    requires
        !(got is Str) || !(want is Str),
    ensures
        !lets_pass("like"@, got, want),
{
    lemma_tests();
    lemma_lets_pass("like"@, got, want);
}

/// A list of keys names a key.
pub open spec fn lists_key(v: Option<JsonV>, k: Seq<char>) -> bool {
    v matches Some(JsonV::Arr(a)) && a.contains(JsonV::Str(k))
}

/// A field map keeps a key of the snapshot: it lists the key under `include`, or names no key
/// there at all.
pub open spec fn keeps_key(fm: ObjV, k: Seq<char>) -> bool {
    lists_key(obj_get(fm, "include"@), k) || (obj_get(fm, "include"@) matches Some(
        JsonV::Arr(a),
    ) ==> forall|i: int| 0 <= i < a.len() ==> !((#[trigger] a[i]) is Str))
}

/// What is sent of a snapshot.
pub open spec fn sent(o: ObjV, fm: ObjV, k: Seq<char>) -> Option<JsonV> {
    json_get(projected(JsonV::Obj(o), JsonV::Obj(fm)), k)
}

proof fn lemma_names(a: Seq<JsonV>, k: Seq<char>)
    ensures
        names(a, k) <==> a.contains(JsonV::Str(k)),
{
    if a.contains(JsonV::Str(k)) {
        let i = choose|i: int| 0 <= i < a.len() && a[i] == JsonV::Str(k);
        assert(a[i] == JsonV::Str(k));
    }
}

proof fn lemma_only_named(o: ObjV, a: Seq<JsonV>, k: Seq<char>)
    requires
        keys_ascend(o),
    ensures
        obj_get(only_named(o, a), k) == (if names(a, k) {
            obj_get(o, k)
        } else {
            None
        }),
        keys_ascend(only_named(o, a)),
    decreases o.len(),
{
    law_get_finds_members(o, k);
    if o.len() > 0 {
        let d = o.drop_last();
        assert(keys_ascend(d)) by {
            assert forall|i: int, j: int| 0 <= i < j < d.len() implies text_lt(
                #[trigger] d[i].0,
                #[trigger] d[j].0,
            ) by {
                assert(d[i] == o[i] && d[j] == o[j]);
            }
        }
        lemma_only_named(d, a, k);
        law_get_finds_members(d, k);
        let r = only_named(d, a);
        law_get_after_put(r, o.last().0, o.last().1, k);
        law_keys_stay_ascending(r, o.last().0, o.last().1);
        assert(o[o.len() - 1] == o.last());
        if o.last().0 != k {
            if obj_get(d, k) is Some {
                let v = obj_get(d, k)->Some_0;
                let i = choose|i: int| 0 <= i < d.len() && d[i] == (k, v);
                assert(o[i] == (k, v));
                assert(o[i].0 == k);
            } else {
                assert forall|i: int| 0 <= i < o.len() implies (#[trigger] o[i]).0 != k by {
                    if i < d.len() {
                        assert(d[i] == o[i]);
                        assert(d[i].0 == k ==> obj_get(d, k) == Some(d[i].1));
                    }
                }
            }
        }
    }
}

proof fn lemma_included(o: ObjV, fm: ObjV, k: Seq<char>)
    requires
        keys_ascend(o),
    ensures
        obj_get(included(o, fm), k) == (if keeps_key(fm, k) {
            obj_get(o, k)
        } else {
            None
        }),
        keys_ascend(included(o, fm)),
{
    if let Some(JsonV::Arr(a)) = obj_get(fm, "include"@) {
        lemma_names(a, k);
        lemma_only_named(o, a, k);
        if names_any(a) {
            let i = choose|i: int| 0 <= i < a.len() && (#[trigger] a[i]) is Str;
            assert(a[i] is Str);
        } else {
            assert forall|i: int| 0 <= i < a.len() implies !((#[trigger] a[i]) is Str) by {}
        }
    }
}

proof fn lemma_renames_ascend(o: ObjV, ren: ObjV)
    requires
        keys_ascend(o),
    ensures
        keys_ascend(rename_all(o, ren)),
    decreases ren.len(),
{
    if ren.len() > 0 {
        let r = rename_all(o, ren.drop_last());
        lemma_renames_ascend(o, ren.drop_last());
        let old = ren.last().0;
        law_keys_stay_ascending(r, old, JsonV::Null);
        if let Some(v) = obj_get(r, old) {
            if let JsonV::Str(n) = ren.last().1 {
                law_keys_stay_ascending(obj_remove(r, old), n, v);
            }
        }
    }
}

/// What one renaming makes of the members.
proof fn lemma_rename_one(o: ObjV, old: Seq<char>, new: JsonV, k: Seq<char>)
    requires
        keys_ascend(o),
    ensures
        obj_get(rename_one(o, old, new), k) == (if new == JsonV::Str(k) && obj_get(o, old) is Some {
            obj_get(o, old)
        } else if k == old {
            None
        } else {
            obj_get(o, k)
        }),
{
    law_get_after_remove(o, old, k);
    if let Some(v) = obj_get(o, old) {
        if let JsonV::Str(n) = new {
            law_get_after_put(obj_remove(o, old), n, v, k);
        }
    }
}

/// No renaming is of a key or to it.
pub open spec fn not_renamed(ren: ObjV, k: Seq<char>) -> bool {
    forall|i: int| 0 <= i < ren.len() ==> (#[trigger] ren[i]).0 != k && ren[i].1 != JsonV::Str(k)
}

proof fn lemma_rename_other(o: ObjV, ren: ObjV, k: Seq<char>)
    requires
        keys_ascend(o),
        not_renamed(ren, k),
    ensures
        obj_get(rename_all(o, ren), k) == obj_get(o, k),
    decreases ren.len(),
{
    if ren.len() > 0 {
        let d = ren.drop_last();
        assert forall|i: int| 0 <= i < d.len() implies (#[trigger] d[i]).0 != k && d[i].1
            != JsonV::Str(k) by {
            assert(d[i] == ren[i]);
        }
        lemma_rename_other(o, d, k);
        lemma_renames_ascend(o, d);
        assert(ren[ren.len() - 1] == ren.last());
        lemma_rename_one(rename_all(o, d), ren.last().0, ren.last().1, k);
    }
}

/// Every value after the renamings was there before, under some key.
proof fn lemma_rename_source(o: ObjV, ren: ObjV, k: Seq<char>)
    requires
        keys_ascend(o),
        obj_get(rename_all(o, ren), k) is Some,
    ensures
        exists|q: Seq<char>| obj_get(o, q) == #[trigger] value_of(obj_get(rename_all(o, ren), k), q),
    decreases ren.len(),
{
    if ren.len() > 0 {
        let d = ren.drop_last();
        let r = rename_all(o, d);
        lemma_renames_ascend(o, d);
        lemma_rename_one(r, ren.last().0, ren.last().1, k);
        let from = if ren.last().1 == JsonV::Str(k) && obj_get(r, ren.last().0) is Some {
            ren.last().0
        } else {
            k
        };
        assert(obj_get(r, from) == obj_get(rename_all(o, ren), k));
        lemma_rename_source(o, d, from);
        let q = choose|q: Seq<char>| obj_get(o, q) == #[trigger] value_of(obj_get(r, from), q);
        assert(obj_get(o, q) == value_of(obj_get(rename_all(o, ren), k), q));
    } else {
        assert(obj_get(o, k) == value_of(obj_get(rename_all(o, ren), k), k));
    }
}

/// A value, told of under a key.
pub open spec fn value_of(v: Option<JsonV>, q: Seq<char>) -> Option<JsonV> {
    v
}

/// What masking makes of a member.
proof fn lemma_masked(o: ObjV, fm: ObjV, k: Seq<char>)
    ensures
        obj_get(masked(o, fm), k) == (if lists_key(obj_get(fm, "mask"@), k) && obj_get(
            o,
            k,
        ) is Some {
            Some(JsonV::Str("***"@))
        } else {
            obj_get(o, k)
        }),
{
    if let Some(JsonV::Arr(a)) = obj_get(fm, "mask"@) {
        lemma_names(a, k);
        law_mask(o, fm, a, k);
    }
}

/// A key that the mask lists is never sent with another value than stars: it names the keys that
/// are sent, behind all renamings.
pub proof fn law_masked_key_is_hidden(o: ObjV, fm: ObjV, k: Seq<char>)
    requires
        lists_key(obj_get(fm, "mask"@), k),
    ensures
        sent(o, fm, k) is None || sent(o, fm, k) == Some(JsonV::Str("***"@)),
{
    lemma_masked(renamed(included(o, fm), fm), fm, k);
}

/// Nothing is sent but stars and values of the snapshot that stand there under keys which the field
/// map keeps.
pub proof fn law_sent_is_included(o: ObjV, fm: ObjV, k: Seq<char>, v: JsonV)
    requires
        keys_ascend(o),
        sent(o, fm, k) == Some(v),
        v != JsonV::Str("***"@),
    ensures
        !lists_key(obj_get(fm, "mask"@), k),
        exists|q: Seq<char>| keeps_key(fm, q) && #[trigger] obj_get(o, q) == Some(v),
{
    let a = included(o, fm);
    let b = renamed(a, fm);
    lemma_masked(b, fm, k);
    lemma_included(o, fm, k);
    if let Some(JsonV::Obj(ren)) = obj_get(fm, "rename"@) {
        lemma_rename_source(a, ren, k);
        let q = choose|q: Seq<char>| obj_get(a, q) == #[trigger] value_of(
            obj_get(rename_all(a, ren), k),
            q,
        );
        lemma_included(o, fm, q);
        assert(obj_get(o, q) == Some(v));
    } else {
        assert(obj_get(o, k) == Some(v));
    }
}

/// A key that no renaming touches is sent exactly where the field map keeps it and the snapshot
/// has it: with stars where the mask lists it, else with its value.
pub proof fn law_key_is_sent(o: ObjV, fm: ObjV, k: Seq<char>)
    requires
        keys_ascend(o),
        obj_get(fm, "rename"@) matches Some(JsonV::Obj(ren)) ==> not_renamed(ren, k),
    ensures
        sent(o, fm, k) == (if !keeps_key(fm, k) || obj_get(o, k) is None {
            None
        } else if lists_key(obj_get(fm, "mask"@), k) {
            Some(JsonV::Str("***"@))
        } else {
            obj_get(o, k)
        }),
{
    let a = included(o, fm);
    let b = renamed(a, fm);
    lemma_masked(b, fm, k);
    lemma_included(o, fm, k);
    if let Some(JsonV::Obj(ren)) = obj_get(fm, "rename"@) {
        lemma_rename_other(a, ren, k);
    }
}

/// Entry `i` is the only renaming that has to do with two keys, and it renames the one to the
/// other.
pub open spec fn renames(ren: ObjV, i: int, old: Seq<char>, new: Seq<char>) -> bool {
    &&& 0 <= i < ren.len()
    &&& ren[i] == (old, JsonV::Str(new))
    &&& old != new
    &&& forall|j: int|
        0 <= j < ren.len() && j != i ==> (#[trigger] ren[j]).0 != old && ren[j].0 != new && ren[j].1
            != JsonV::Str(old) && ren[j].1 != JsonV::Str(new)
}

proof fn lemma_renamed_key(o: ObjV, ren: ObjV, i: int, old: Seq<char>, new: Seq<char>)
    requires
        keys_ascend(o),
        renames(ren, i, old, new),
    ensures
        obj_get(rename_all(o, ren), old) is None,
        obj_get(rename_all(o, ren), new) == (if obj_get(o, old) is Some {
            obj_get(o, old)
        } else {
            obj_get(o, new)
        }),
    decreases ren.len(),
{
    let d = ren.drop_last();
    let r = rename_all(o, d);
    lemma_renames_ascend(o, d);
    assert(ren[ren.len() - 1] == ren.last());
    lemma_rename_one(r, ren.last().0, ren.last().1, old);
    lemma_rename_one(r, ren.last().0, ren.last().1, new);
    assert forall|j: int| 0 <= j < d.len() implies #[trigger] d[j] == ren[j] by {}
    if i < d.len() {
        assert forall|j: int| 0 <= j < d.len() && j != i implies (#[trigger] d[j]).0 != old
            && d[j].0 != new && d[j].1 != JsonV::Str(old) && d[j].1 != JsonV::Str(new) by {
            assert(d[j] == ren[j]);
        }
        lemma_renamed_key(o, d, i, old, new);
    } else {
        assert(not_renamed(d, old) && not_renamed(d, new)) by {
            assert forall|j: int| 0 <= j < d.len() implies (#[trigger] d[j]).0 != old && d[j].1
                != JsonV::Str(old) && d[j].0 != new && d[j].1 != JsonV::Str(new) by {
                assert(d[j] == ren[j]);
            }
        }
        lemma_rename_other(o, d, old);
        lemma_rename_other(o, d, new);
    }
}

/// A renamed member is not sent under its old key. It is sent under the new one, over a member that
/// the snapshot has there: with stars where the mask lists the new key, else with its value.
pub proof fn law_renamed_key_is_sent(
    o: ObjV,
    fm: ObjV,
    ren: ObjV,
    i: int,
    old: Seq<char>,
    new: Seq<char>,
)
    requires
        keys_ascend(o),
        obj_get(fm, "rename"@) == Some(JsonV::Obj(ren)),
        renames(ren, i, old, new),
        keeps_key(fm, old),
        obj_get(o, old) is Some,
    ensures
        sent(o, fm, old) is None,
        sent(o, fm, new) == (if lists_key(obj_get(fm, "mask"@), new) {
            Some(JsonV::Str("***"@))
        } else {
            obj_get(o, old)
        }),
{
    let a = included(o, fm);
    let b = renamed(a, fm);
    lemma_included(o, fm, old);
    lemma_included(o, fm, new);
    lemma_renamed_key(a, ren, i, old, new);
    lemma_masked(b, fm, old);
    lemma_masked(b, fm, new);
}

/// What is no object is sent as it is, and a field map that is none changes nothing.
pub proof fn law_nothing_to_project(snapshot: JsonV, field_map: JsonV)
    requires
        !(snapshot is Obj) || !(field_map is Obj),
    ensures
        projected(snapshot, field_map) == snapshot,
{
}

/// The envelope of an event carries its columns, the version of its payload `p` and the code of
/// its snapshot `o`.
pub proof fn law_envelope_carries(
    event: ObjV,
    p: ObjV,
    o: ObjV,
    data: JsonV,
    meta: JsonV,
    t: Seq<char>,
    n: i64,
)
    requires
        obj_get(event, "payload"@) == Some(JsonV::Obj(p)),
        obj_get(p, "snapshot"@) == Some(JsonV::Obj(o)),
    ensures
        ({
            let e = envelope_of(JsonV::Obj(event), data, meta);
            let num = Some(JsonV::Num(crate::json::number_of(n)));
            let text = Some(JsonV::Str(t));
            &&& obj_get(event, "id"@) == text ==> e.event_id == t
            &&& obj_get(event, "seq"@) == num ==> e.seq == n
            &&& obj_get(event, "event_type"@) == text ==> e.event_type == t
            &&& obj_get(event, "dict_code"@) == text ==> e.dict_code == t
            &&& obj_get(event, "record_id"@) == num ==> e.record_id == n
            &&& obj_get(event, "emitted_at"@) == text ==> e.occurred_at == t
            &&& obj_get(p, "version"@) == num ==> e.version == n
            &&& obj_get(o, "code"@) == text ==> e.record_code == t
            &&& e.data == data
            &&& e.meta == meta
            &&& e.source == "cmx-mdm"@
        }),
{
}

} // verus!
