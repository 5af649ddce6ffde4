//! Which value of a field survives a merge.

use crate::activation::{is_unfilled, unfilled};
use crate::json::{json_str, law_get_after_put, obj_get, obj_put, Json, JsonV, ObjV, Object};
use crate::match_algo::MatchRecord;
use crate::text::{same_text, text_before, text_lt, texts};
use vstd::prelude::*;

verus! {

/// How the survivor of a field is chosen.
#[derive(Debug, Clone, Copy, PartialEq, Eq, Structural)]
pub enum SurvivorRule {
    /// The master's value unless it is empty.
    MasterFirst,
    /// The value that is not empty; of two, the master's.
    Fullest,
    /// The value of the record with the later `update_time`.
    Latest,
}

/// Where the value of a field came from.
#[derive(Debug)]
pub struct SurvivorLogEntry {
    pub field: String,
    /// `master`, `victim` or `override`.
    pub from: String,
    pub value: Json,
}

/// What a log entry stands for.
#[verifier::ext_equal]
pub struct LogV {
    pub field: Seq<char>,
    pub from: Seq<char>,
    pub value: JsonV,
}

impl SurvivorLogEntry {
    pub open spec fn view(&self) -> LogV {
        LogV { field: self.field@, from: self.from@, value: self.value@ }
    }
}

/// The views of a log.
pub open spec fn log_view(l: Seq<SurvivorLogEntry>) -> Seq<LogV> {
    Seq::new(l.len(), |i: int| l[i]@)
}

/// A rule table: the views of its fields, with their rules.
pub open spec fn rules_view(r: Seq<(String, SurvivorRule)>) -> Seq<(Seq<char>, SurvivorRule)> {
    Seq::new(r.len(), |i: int| (r[i].0@, r[i].1))
}

/// The rule for a field: the first in the table, else the master's value first.
pub open spec fn rule_for(rules: Seq<(Seq<char>, SurvivorRule)>, f: Seq<char>) -> SurvivorRule
    decreases rules.len(),
{
    if rules.len() == 0 {
        SurvivorRule::MasterFirst
    } else if rules[0].0 == f {
        rules[0].1
    } else {
        rule_for(rules.drop_first(), f)
    }
}

/// The value of a field, null where it is missing.
pub open spec fn value_or_null(o: ObjV, f: Seq<char>) -> JsonV {
    match obj_get(o, f) {
        Some(v) => v,
        None => JsonV::Null,
    }
}

/// The text of `update_time`, empty where there is none.
pub open spec fn update_time(o: ObjV) -> Seq<char> {
    match json_str(obj_get(o, "update_time"@)) {
        Some(t) => t,
        None => Seq::empty(),
    }
}

/// Whether the victim's value of a field survives.
pub open spec fn victim_wins(rule: SurvivorRule, master: ObjV, victim: ObjV, f: Seq<char>) -> bool {
    match rule {
        SurvivorRule::Latest => text_lt(update_time(master), update_time(victim)),
        _ => unfilled(value_or_null(master, f)) && !unfilled(value_or_null(victim, f)),
    }
}

/// The log entry for a field.
pub open spec fn survivor(rule: SurvivorRule, master: ObjV, victim: ObjV, f: Seq<char>) -> LogV {
    if victim_wins(rule, master, victim, f) {
        LogV { field: f, from: "victim"@, value: value_or_null(victim, f) }
    } else {
        LogV { field: f, from: "master"@, value: value_or_null(master, f) }
    }
}

/// The log of a survival: one entry for each field.
pub open spec fn survival_log(
    master: ObjV,
    victim: ObjV,
    fields: Seq<Seq<char>>,
    rules: Seq<(Seq<char>, SurvivorRule)>,
) -> Seq<LogV> {
    Seq::new(
        fields.len(),
        |i: int| survivor(rule_for(rules, fields[i]), master, victim, fields[i]),
    )
}

/// The row that a log stands for.
pub open spec fn log_row(log: Seq<LogV>) -> ObjV
    decreases log.len(),
{
    if log.len() == 0 {
        Seq::empty()
    } else {
        obj_put(log_row(log.drop_last()), log.last().field, log.last().value)
    }
}

fn find_rule(rules: &Vec<(String, SurvivorRule)>, f: &str) -> (r: SurvivorRule)
    ensures
        r == rule_for(rules_view(rules@), f@),
{
    let ghost all = rules_view(rules@);
    let mut i: usize = 0;
    assert(all.skip(0) =~= all);
    while i < rules.len()
        invariant
            i <= rules@.len(),
            all == rules_view(rules@),
            rule_for(all, f@) == rule_for(all.skip(i as int), f@),
        decreases rules@.len() - i,
    {
        assert(all.skip(i as int)[0] == (rules@[i as int].0@, rules@[i as int].1));
        assert(all.skip(i as int).drop_first() =~= all.skip(i + 1));
        if same_text(rules[i].0.as_str(), f) {
            return rules[i].1;
        }
        i += 1;
    }
    SurvivorRule::MasterFirst
}

fn field_or_null(o: &Object, f: &str) -> (r: Json)
    ensures
        r@ == value_or_null(o@, f@),
{
    match o.get(f) {
        Some(v) => v.clone(),
        None => Json::Null,
    }
}

fn update_time_of(o: &Object) -> (r: String)
    ensures
        r@ == update_time(o@),
{
    match o.get("update_time") {
        Some(Json::Str(s)) => s.clone(),
        _ => String::new(),
    }
}

/// The survivor of one field.
fn pick(rule: SurvivorRule, master: &Object, victim: &Object, f: &str) -> (r: SurvivorLogEntry)
    ensures
        r@ == survivor(rule, master@, victim@, f@),
{
    let m = field_or_null(master, f);
    let v = field_or_null(victim, f);
    let wins: bool = match rule {
        SurvivorRule::Latest => text_before(
            update_time_of(master).as_str(),
            update_time_of(victim).as_str(),
        ),
        _ => is_unfilled(&m) && !is_unfilled(&v),
    };
    if wins {
        SurvivorLogEntry { field: f.to_owned(), from: "victim".to_owned(), value: v }
    } else {
        SurvivorLogEntry { field: f.to_owned(), from: "master".to_owned(), value: m }
    }
}

/// Chooses field by field what survives of a master and a victim: the row and, for each field,
/// where its value came from.
pub fn survive(
    master: &MatchRecord,
    victim: &MatchRecord,
    survive_fields: &Vec<String>,
    rules: &Vec<(String, SurvivorRule)>,
) -> (r: (Object, Vec<SurvivorLogEntry>))
    ensures
        log_view(r.1@) == survival_log(
            master.fields@,
            victim.fields@,
            texts(survive_fields@),
            rules_view(rules@),
        ),
        r.0@ == log_row(log_view(r.1@)),
{
    let ghost want = survival_log(
        master.fields@,
        victim.fields@,
        texts(survive_fields@),
        rules_view(rules@),
    );
    let mut row = Object::new();
    let mut log: Vec<SurvivorLogEntry> = Vec::new();
    let mut i: usize = 0;
    assert(want.take(0) =~= Seq::<LogV>::empty());
    assert(log_view(log@) =~= want.take(0));
    while i < survive_fields.len()
        invariant
            i <= survive_fields@.len(),
            want == survival_log(
                master.fields@,
                victim.fields@,
                texts(survive_fields@),
                rules_view(rules@),
            ),
            log_view(log@) == want.take(i as int),
            row@ == log_row(want.take(i as int)),
        decreases survive_fields@.len() - i,
    {
        let ghost before = log@;
        let f = survive_fields[i].as_str();
        let e = pick(find_rule(rules, f), &master.fields, &victim.fields, f);
        proof {
            assert(e@ == want[i as int]);
            assert(want.take(i + 1).drop_last() =~= want.take(i as int));
            assert(want.take(i + 1) =~= want.take(i as int).push(want[i as int]));
        }
        row.insert(e.field.clone(), e.value.clone());
        let ghost ev = e@;
        log.push(e);
        assert(log_view(log@) =~= log_view(before).push(ev));
        i += 1;
    }
    assert(want.take(want.len() as int) =~= want);
    (row, log)
}

proof fn lemma_log_row(log: Seq<LogV>, i: int)
    requires
        0 <= i < log.len(),
        forall|j: int| i < j < log.len() ==> (#[trigger] log[j]).field != log[i].field,
    ensures
        obj_get(log_row(log), log[i].field) == Some(log[i].value),
    decreases log.len(),
{
    let d = log.drop_last();
    law_get_after_put(log_row(d), log.last().field, log.last().value, log[i].field);
    if i < d.len() {
        assert(log[log.len() - 1].field != log[i].field);
        assert forall|j: int| i < j < d.len() implies (#[trigger] d[j]).field != d[i].field by {
            assert(d[j] == log[j]);
        }
        lemma_log_row(d, i);
    }
}

/// Every field survives with a value of the master or the victim, and the row holds the value
/// that the log names.
pub proof fn law_survival(
    master: ObjV,
    victim: ObjV,
    fields: Seq<Seq<char>>,
    rules: Seq<(Seq<char>, SurvivorRule)>,
    i: int,
)
    requires
        0 <= i < fields.len(),
    ensures
        obj_get(log_row(survival_log(master, victim, fields, rules)), fields[i]) == Some(
            survivor(rule_for(rules, fields[i]), master, victim, fields[i]).value,
        ),
        survival_log(master, victim, fields, rules)[i].field == fields[i],
        survival_log(master, victim, fields, rules)[i].value == value_or_null(master, fields[i])
            || survival_log(master, victim, fields, rules)[i].value == value_or_null(
            victim,
            fields[i],
        ),
{
    let log = survival_log(master, victim, fields, rules);
    let last = lemma_last_of(fields, fields[i], fields.len() as int, i);
    assert forall|j: int| last < j < log.len() implies (#[trigger] log[j]).field
        != log[last].field by {
        assert(fields[j] != fields[last]);
    }
    lemma_log_row(log, last);
}

proof fn lemma_last_of(fields: Seq<Seq<char>>, f: Seq<char>, n: int, i: int) -> (r: int)
    requires
        0 <= i < n <= fields.len(),
        fields[i] == f,
        forall|j: int| n <= j < fields.len() ==> #[trigger] fields[j] != f,
    ensures
        0 <= r < fields.len(),
        fields[r] == f,
        forall|j: int| r < j < fields.len() ==> #[trigger] fields[j] != f,
    decreases n,
{
    if fields[n - 1] == f {
        n - 1
    } else {
        lemma_last_of(fields, f, n - 1, i)
    }
}

/// Under the rules that prefer a value that is filled in, a merge never loses one: a field that
/// either side had filled in survives filled in.
pub proof fn law_survival_keeps_filled(
    rule: SurvivorRule,
    master: ObjV,
    victim: ObjV,
    f: Seq<char>,
)
    requires
        rule != SurvivorRule::Latest,
        !unfilled(value_or_null(master, f)) || !unfilled(value_or_null(victim, f)),
    ensures
        !unfilled(survivor(rule, master, victim, f).value),
        !unfilled(value_or_null(master, f)) ==> survivor(rule, master, victim, f).value
            == value_or_null(master, f),
{
}

/// A record has a value in a field that is neither null nor the empty string.
pub open spec fn says_something(o: ObjV, f: Seq<char>) -> bool {
    match obj_get(o, f) {
        None => false,
        Some(JsonV::Null) => false,
        Some(JsonV::Str(s)) => s.len() > 0,
        Some(_) => true,
    }
}

/// No entry of a table of rules names a field.
pub open spec fn no_rule_names(rules: Seq<(Seq<char>, SurvivorRule)>, f: Seq<char>) -> bool {
    forall|k: int| 0 <= k < rules.len() ==> (#[trigger] rules[k]).0 != f
}

/// Entry `k` of a table of rules is the first that names a field.
pub open spec fn first_names(
    rules: Seq<(Seq<char>, SurvivorRule)>,
    f: Seq<char>,
    k: int,
) -> bool {
    &&& 0 <= k < rules.len()
    &&& rules[k].0 == f
    &&& forall|j: int| 0 <= j < k ==> (#[trigger] rules[j]).0 != f
}

/// A field comes out of a merge with the value that a record has there, and the log names that
/// record; a record without the field gives null.
pub open spec fn comes_from(
    row: ObjV,
    entry: LogV,
    f: Seq<char>,
    o: ObjV,
    name: Seq<char>,
) -> bool {
    &&& entry.field == f
    &&& entry.from == name
    &&& obj_get(row, f) == Some(entry.value)
    &&& match obj_get(o, f) {
        Some(v) => entry.value == v,
        None => entry.value == JsonV::Null,
    }
}

proof fn lemma_rule_named(rules: Seq<(Seq<char>, SurvivorRule)>, f: Seq<char>, k: int)
    requires
        first_names(rules, f, k),
    ensures
        rule_for(rules, f) == rules[k].1,
    decreases rules.len(),
{
    if k > 0 {
        let d = rules.drop_first();
        assert(rules[0].0 != f);
        assert forall|j: int| 0 <= j < k - 1 implies (#[trigger] d[j]).0 != f by {
            assert(d[j] == rules[j + 1]);
        }
        lemma_rule_named(d, f, k - 1);
    }
}

proof fn lemma_rule_unnamed(rules: Seq<(Seq<char>, SurvivorRule)>, f: Seq<char>)
    requires
        no_rule_names(rules, f),
    ensures
        rule_for(rules, f) == SurvivorRule::MasterFirst,
    decreases rules.len(),
{
    if rules.len() > 0 {
        let d = rules.drop_first();
        assert(rules[0].0 != f);
        assert forall|j: int| 0 <= j < d.len() implies (#[trigger] d[j]).0 != f by {
            assert(d[j] == rules[j + 1]);
        }
        lemma_rule_unnamed(d, f);
    }
}

/// A field that no rule names keeps the master's value wherever the master says something, or the
/// victim says nothing, whatever rules there are for other fields; else it takes the victim's.
pub proof fn law_field_without_rule(
    master: ObjV,
    victim: ObjV,
    fields: Seq<Seq<char>>,
    rules: Seq<(Seq<char>, SurvivorRule)>,
    i: int,
)
    requires
        0 <= i < fields.len(),
        no_rule_names(rules, fields[i]),
    ensures
        ({
            let log = survival_log(master, victim, fields, rules);
            let f = fields[i];
            if says_something(master, f) || !says_something(victim, f) {
                comes_from(log_row(log), log[i], f, master, "master"@)
            } else {
                comes_from(log_row(log), log[i], f, victim, "victim"@)
            }
        }),
{
    lemma_rule_unnamed(rules, fields[i]);
    law_survival(master, victim, fields, rules, i);
}

/// A field that rules name goes by the first of them. Under the first two kinds of rule the
/// master's value stays wherever the master says something or the victim says nothing.
pub proof fn law_field_by_filling(
    master: ObjV,
    victim: ObjV,
    fields: Seq<Seq<char>>,
    rules: Seq<(Seq<char>, SurvivorRule)>,
    i: int,
    k: int,
)
    requires
        0 <= i < fields.len(),
        first_names(rules, fields[i], k),
        rules[k].1 == SurvivorRule::MasterFirst || rules[k].1 == SurvivorRule::Fullest,
    ensures
        ({
            let log = survival_log(master, victim, fields, rules);
            let f = fields[i];
            if says_something(master, f) || !says_something(victim, f) {
                comes_from(log_row(log), log[i], f, master, "master"@)
            } else {
                comes_from(log_row(log), log[i], f, victim, "victim"@)
            }
        }),
{
    lemma_rule_named(rules, fields[i], k);
    law_survival(master, victim, fields, rules, i);
}

/// One text stands before another in text order: it is a beginning of the other, or the first
/// character in which they differ is the smaller one.
pub open spec fn earlier(a: Seq<char>, b: Seq<char>) -> bool {
    exists|n: int|
        0 <= n <= a.len() && n < b.len() && #[trigger] a.take(n) == b.take(n) && (n == a.len() || (
        a[n] as int) < (b[n] as int))
}

/// The time of the last change of a record, as a text; empty where it has none.
pub open spec fn changed_at(o: ObjV, t: Seq<char>) -> bool {
    match obj_get(o, "update_time"@) {
        Some(JsonV::Str(s)) => t == s,
        _ => t.len() == 0,
    }
}

proof fn lemma_earlier(a: Seq<char>, b: Seq<char>)
    ensures
        text_lt(a, b) <==> earlier(a, b),
    decreases a.len(),
{
    if b.len() == 0 {
    } else if a.len() == 0 {
        assert(a.take(0) =~= b.take(0));
    } else if a[0] != b[0] {
        if earlier(a, b) {
            let n = choose|n: int|
                0 <= n <= a.len() && n < b.len() && #[trigger] a.take(n) == b.take(n) && (n
                    == a.len() || (a[n] as int) < (b[n] as int));
            if n > 0 {
                assert(a.take(n)[0] == b.take(n)[0]);
            }
        }
        assert(a.take(0) =~= b.take(0));
    } else {
        let c = a.drop_first();
        let d = b.drop_first();
        lemma_earlier(c, d);
        if earlier(c, d) {
            let n = choose|n: int|
                0 <= n <= c.len() && n < d.len() && #[trigger] c.take(n) == d.take(n) && (n
                    == c.len() || (c[n] as int) < (d[n] as int));
            assert(a.take(n + 1) =~= b.take(n + 1)) by {
                assert forall|j: int| 0 <= j < n + 1 implies a[j] == b[j] by {
                    if j > 0 {
                        assert(c.take(n)[j - 1] == d.take(n)[j - 1]);
                    }
                }
            }
            assert(n + 1 == a.len() || c[n] == a[n + 1]);
            assert(d[n] == b[n + 1]);
        }
        if earlier(a, b) {
            let n = choose|n: int|
                0 <= n <= a.len() && n < b.len() && #[trigger] a.take(n) == b.take(n) && (n
                    == a.len() || (a[n] as int) < (b[n] as int));
            assert(n > 0);
            assert(c.take(n - 1) =~= d.take(n - 1)) by {
                assert forall|j: int| 0 <= j < n - 1 implies c[j] == d[j] by {
                    assert(a.take(n)[j + 1] == b.take(n)[j + 1]);
                }
            }
            assert(n == a.len() || c[n - 1] == a[n]);
            assert(d[n - 1] == b[n]);
        }
    }
}

/// A field that goes by the latest change takes the victim's value exactly where the victim was
/// changed after the master, whichever of the two is filled in.
pub proof fn law_field_by_time(
    master: ObjV,
    victim: ObjV,
    fields: Seq<Seq<char>>,
    rules: Seq<(Seq<char>, SurvivorRule)>,
    i: int,
    k: int,
    m: Seq<char>,
    v: Seq<char>,
)
    requires
        0 <= i < fields.len(),
        first_names(rules, fields[i], k),
        rules[k].1 == SurvivorRule::Latest,
        changed_at(master, m),
        changed_at(victim, v),
    ensures
        ({
            let log = survival_log(master, victim, fields, rules);
            let f = fields[i];
            if earlier(m, v) {
                comes_from(log_row(log), log[i], f, victim, "victim"@)
            } else {
                comes_from(log_row(log), log[i], f, master, "master"@)
            }
        }),
{
    lemma_rule_named(rules, fields[i], k);
    law_survival(master, victim, fields, rules, i);
    lemma_earlier(m, v);
    assert(update_time(master) =~= m);
    assert(update_time(victim) =~= v);
}

/// The log of a merge has one entry for each field, in their order, and the row has no field
/// besides.
pub proof fn law_nothing_else_survives(
    master: ObjV,
    victim: ObjV,
    fields: Seq<Seq<char>>,
    rules: Seq<(Seq<char>, SurvivorRule)>,
    f: Seq<char>,
)
    ensures
        survival_log(master, victim, fields, rules).len() == fields.len(),
        obj_get(log_row(survival_log(master, victim, fields, rules)), f) is Some
            <==> fields.contains(f),
{
    let log = survival_log(master, victim, fields, rules);
    if fields.contains(f) {
        let i = choose|i: int| 0 <= i < fields.len() && fields[i] == f;
        law_survival(master, victim, fields, rules, i);
    } else {
        assert forall|i: int| 0 <= i < log.len() implies (#[trigger] log[i]).field != f by {
            assert(fields[i] != f);
        }
        lemma_not_in_row(log, f);
    }
}

proof fn lemma_not_in_row(log: Seq<LogV>, f: Seq<char>)
    requires
        forall|i: int| 0 <= i < log.len() ==> (#[trigger] log[i]).field != f,
    ensures
        obj_get(log_row(log), f) is None,
    decreases log.len(),
{
    if log.len() > 0 {
        let d = log.drop_last();
        assert(log[log.len() - 1].field != f);
        assert forall|i: int| 0 <= i < d.len() implies (#[trigger] d[i]).field != f by {
            assert(d[i] == log[i]);
        }
        lemma_not_in_row(d, f);
        law_get_after_put(log_row(d), log.last().field, log.last().value, f);
    }
}

} // verus!
