//! What a merge makes of the records: whose value each field gets, what a person's decision
//! changes, and which lines move.

use crate::json::{
    json_i64, json_same, keys_ascend, law_get_after_put, law_get_finds_members,
    law_keys_stay_ascending, number_of, obj_get, JsonV, ObjV,
};
use crate::match_algo::RecordV;
use crate::merge_parts::{
    first_unpublished, first_with_id, has_key, is_published, lines_with, log_override, merge_update,
    merged, overlay, overridden, parties, same_key, stray_override, surviving, version_of, with_ids,
    LineKeyV, MergedV,
};
use crate::survivorship::{
    changed_at, earlier, first_names, law_field_by_filling, law_field_by_time,
    law_field_without_rule, law_nothing_else_survives, log_row, no_rule_names, says_something,
    survival_log, LogV, SurvivorRule,
};
use crate::text::text_lt;
use vstd::prelude::*;

verus! {

/// The first entry of a log for a field.
pub open spec fn first_entry(log: Seq<LogV>, f: Seq<char>) -> Option<LogV>
    decreases log.len(),
{
    if log.len() == 0 {
        None
    } else if log[0].field == f {
        Some(log[0])
    } else {
        first_entry(log.drop_first(), f)
    }
}

proof fn lemma_log_override(log: Seq<LogV>, k: Seq<char>, v: JsonV, f: Seq<char>)
    ensures
        first_entry(log_override(log, k, v), f) == (if f == k {
            Some(LogV { field: k, from: "override"@, value: v })
        } else {
            first_entry(log, f)
        }),
        forall|e: LogV|
            e.field != k ==> (#[trigger] log_override(log, k, v).contains(e) <==> log.contains(e)),
    decreases log.len(),
{
    let e0 = LogV { field: k, from: "override"@, value: v };
    let r = log_override(log, k, v);
    if log.len() == 0 {
        assert(r[0] == e0);
        assert(r.drop_first() =~= Seq::empty());
        reveal_with_fuel(first_entry, 2);
    } else if log[0].field == k {
        assert(r.drop_first() =~= log.drop_first());
        assert forall|e: LogV| e.field != k implies (#[trigger] r.contains(e) <==> log.contains(e)) by {
            if r.contains(e) {
                let i = choose|i: int| 0 <= i < r.len() && r[i] == e;
                assert(log[i] == e);
            }
            if log.contains(e) {
                let i = choose|i: int| 0 <= i < log.len() && log[i] == e;
                assert(r[i] == e);
            }
        }
    } else {
        let d = log.drop_first();
        lemma_log_override(d, k, v, f);
        let rd = log_override(d, k, v);
        assert(r.drop_first() =~= rd);
        assert(r[0] == log[0]);
        assert forall|e: LogV| e.field != k implies (#[trigger] r.contains(e) <==> log.contains(e)) by {
            assert(rd.contains(e) <==> d.contains(e));
            if r.contains(e) {
                let i = choose|i: int| 0 <= i < r.len() && r[i] == e;
                if i == 0 {
                    assert(log[0] == e);
                } else {
                    assert(rd[i - 1] == e);
                    let j = choose|j: int| 0 <= j < d.len() && d[j] == e;
                    assert(log[j + 1] == e);
                }
            }
            if log.contains(e) {
                let i = choose|i: int| 0 <= i < log.len() && log[i] == e;
                if i == 0 {
                    assert(r[0] == e);
                } else {
                    assert(d[i - 1] == e);
                    let j = choose|j: int| 0 <= j < rd.len() && rd[j] == e;
                    assert(r[j + 1] == e);
                }
            }
        }
    }
}

proof fn lemma_front_ascends(o: ObjV)
    requires
        keys_ascend(o),
        o.len() > 0,
    ensures
        keys_ascend(o.drop_last()),
        forall|k: Seq<char>| #[trigger]
            obj_get(o, k) == (if k == o.last().0 {
                Some(o.last().1)
            } else {
                obj_get(o.drop_last(), k)
            }),
{
    let d = o.drop_last();
    assert forall|i: int, j: int| 0 <= i < j < d.len() implies text_lt(
        #[trigger] d[i].0,
        #[trigger] d[j].0,
    ) by {
        assert(d[i] == o[i] && d[j] == o[j]);
    }
    assert forall|k: Seq<char>| #[trigger]
        obj_get(o, k) == (if k == o.last().0 {
            Some(o.last().1)
        } else {
            obj_get(d, k)
        }) by {
        law_get_finds_members(o, k);
        law_get_finds_members(d, k);
        assert(o[o.len() - 1] == o.last());
        if k != o.last().0 {
            if obj_get(d, k) is Some {
                let v = obj_get(d, k)->Some_0;
                let i = choose|i: int| 0 <= i < d.len() && d[i] == (k, v);
                assert(o[i] == (k, v));
                assert(o[i].0 == k);
            } else {
                assert forall|i: int| 0 <= i < o.len() implies (#[trigger] o[i]).0 != k by {
                    if i < d.len() {
                        assert(d[i] == o[i]);
                        assert(d[i].0 == k ==> obj_get(d, k) == Some(d[i].1));
                    }
                }
            }
        }
    }
}

/// What a person decided holds: a field that the overrides name has their value, and the log says
/// so first of it; every other field, and every other entry of the log, stays as it was.
pub proof fn law_override_decides(m: MergedV, overrides: ObjV, f: Seq<char>)
    requires
        keys_ascend(overrides),
    ensures
        ({
            let r = overridden(m, overrides);
            match obj_get(overrides, f) {
                Some(v) => {
                    &&& obj_get(r.row, f) == Some(v)
                    &&& first_entry(r.log, f) == Some(
                        LogV { field: f, from: "override"@, value: v },
                    )
                },
                None => {
                    &&& obj_get(r.row, f) == obj_get(m.row, f)
                    &&& first_entry(r.log, f) == first_entry(m.log, f)
                    &&& forall|e: LogV|
                        e.field == f ==> (#[trigger] r.log.contains(e) <==> m.log.contains(e))
                },
            }
        }),
    decreases overrides.len(),
{
    if overrides.len() > 0 {
        let d = overrides.drop_last();
        let k = overrides.last().0;
        let v = overrides.last().1;
        lemma_front_ascends(overrides);
        law_override_decides(m, d, f);
        let p = overridden(m, d);
        law_get_after_put(p.row, k, v, f);
        lemma_log_override(p.log, k, v, f);
        assert(obj_get(overrides, f) == (if f == k {
            Some(v)
        } else {
            obj_get(d, f)
        }));
    }
}

/// Overrides are allowed exactly where each of them is of a field that survives.
pub proof fn law_overrides_of_survivors(overrides: ObjV, fields: Seq<Seq<char>>)
    ensures
        stray_override(overrides, fields) is None <==> forall|i: int|
            0 <= i < overrides.len() ==> fields.contains((#[trigger] overrides[i]).0),
        stray_override(overrides, fields) matches Some(k) ==> !fields.contains(k),
    decreases overrides.len(),
{
    if overrides.len() > 0 {
        let d = overrides.drop_first();
        law_overrides_of_survivors(d, fields);
        if stray_override(overrides, fields) is None {
            assert forall|i: int| 0 <= i < overrides.len() implies fields.contains(
                (#[trigger] overrides[i]).0,
            ) by {
                if i > 0 {
                    assert(d[i - 1] == overrides[i]);
                }
            }
        }
        if forall|i: int|
            0 <= i < overrides.len() ==> fields.contains((#[trigger] overrides[i]).0) {
            assert(fields.contains(overrides[0].0));
            assert forall|i: int| 0 <= i < d.len() implies fields.contains((#[trigger] d[i]).0) by {
                assert(d[i] == overrides[i + 1]);
            }
        }
    }
}

/// A merge writes exactly the surviving fields that its row has, with the values there, and the
/// version after the one that was read.
pub proof fn law_merge_writes(row: ObjV, fields: Seq<Seq<char>>, version: i64, col: Seq<char>)
    ensures
        obj_get(merge_update(row, fields, version), col) == (if col == "published_version"@ {
            Some(JsonV::Num(number_of((version + 1) as i64)))
        } else if fields.contains(col) {
            obj_get(row, col)
        } else {
            None
        }),
{
    lemma_surviving(row, fields, col);
    law_get_after_put(
        surviving(row, fields),
        "published_version"@,
        JsonV::Num(number_of((version + 1) as i64)),
        col,
    );
}

proof fn lemma_surviving(row: ObjV, fields: Seq<Seq<char>>, col: Seq<char>)
    ensures
        obj_get(surviving(row, fields), col) == (if fields.contains(col) {
            obj_get(row, col)
        } else {
            None
        }),
    decreases fields.len(),
{
    if fields.len() > 0 {
        let d = fields.drop_last();
        let f = fields.last();
        lemma_surviving(row, d, col);
        if let Some(v) = obj_get(row, f) {
            law_get_after_put(surviving(row, d), f, v, col);
        }
        if fields.contains(col) {
            let i = choose|i: int| 0 <= i < fields.len() && fields[i] == col;
            if i < d.len() {
                assert(d[i] == col);
            }
        }
        if d.contains(col) {
            let i = choose|i: int| 0 <= i < d.len() && d[i] == col;
            assert(fields[i] == col);
        }
        if f == col {
            assert(fields[fields.len() - 1] == col);
        }
    }
}

/// The version of a record is the integer that it holds there, and 1 where it holds none.
pub proof fn law_version_of(o: ObjV)
    ensures
        json_i64(obj_get(o, "published_version"@)) matches Some(v) ==> version_of(o) == v,
        json_i64(obj_get(o, "published_version"@)) is None ==> version_of(o) == 1,
{
}

/// A record is in the state `published`.
pub open spec fn published_record(r: RecordV) -> bool {
    obj_get(r.fields, "lifecycle_status"@) == Some(JsonV::Str("published"@))
}

proof fn lemma_published(r: RecordV)
    ensures
        is_published(r) <==> published_record(r),
{
    reveal_strlit("published");
    assert("published"@.len() == 9);
}

proof fn lemma_first_id(rs: Seq<RecordV>, id: i64)
    ensures
        first_with_id(rs, id) matches Some(r) ==> rs.contains(r) && r.id == id,
        first_with_id(rs, id) is None ==> forall|i: int|
            0 <= i < rs.len() ==> (#[trigger] rs[i]).id != id,
    decreases rs.len(),
{
    if rs.len() > 0 {
        let d = rs.drop_first();
        lemma_first_id(d, id);
        if rs[0].id == id {
            assert(rs.contains(rs[0]));
        } else if let Some(r) = first_with_id(d, id) {
            let i = choose|i: int| 0 <= i < d.len() && d[i] == r;
            assert(rs[i + 1] == r);
        } else {
            assert forall|i: int| 0 <= i < rs.len() implies (#[trigger] rs[i]).id != id by {
                if i > 0 {
                    assert(d[i - 1] == rs[i]);
                }
            }
        }
    }
}

proof fn lemma_ids_kept(rs: Seq<RecordV>, ids: Seq<i64>, r: RecordV)
    ensures
        with_ids(rs, ids).contains(r) <==> rs.contains(r) && ids.contains(r.id),
    decreases rs.len(),
{
    if rs.len() > 0 {
        let d = rs.drop_last();
        let w = with_ids(d, ids);
        lemma_ids_kept(d, ids, r);
        let all = with_ids(rs, ids);
        if all.contains(r) {
            let i = choose|i: int| 0 <= i < all.len() && all[i] == r;
            if i < w.len() {
                assert(w[i] == r);
                let j = choose|j: int| 0 <= j < d.len() && d[j] == r;
                assert(rs[j] == r);
            } else {
                assert(rs[rs.len() - 1] == r);
            }
        }
        if rs.contains(r) && ids.contains(r.id) {
            let j = choose|j: int| 0 <= j < rs.len() && rs[j] == r;
            if j < d.len() {
                assert(d[j] == r);
                let i = choose|i: int| 0 <= i < w.len() && w[i] == r;
                assert(all[i] == r);
            } else {
                assert(all.last() == r);
            }
        }
    }
}

proof fn lemma_all_published(rs: Seq<RecordV>)
    ensures
        first_unpublished(rs) is None <==> forall|i: int|
            0 <= i < rs.len() ==> published_record(#[trigger] rs[i]),
        first_unpublished(rs) matches Some(r) ==> rs.contains(r) && !published_record(r),
    decreases rs.len(),
{
    if rs.len() > 0 {
        let d = rs.drop_first();
        lemma_all_published(d);
        lemma_published(rs[0]);
        if first_unpublished(rs) is None {
            assert forall|i: int| 0 <= i < rs.len() implies published_record(#[trigger] rs[i]) by {
                if i > 0 {
                    assert(d[i - 1] == rs[i]);
                }
            }
        } else if is_published(rs[0]) {
            let r = first_unpublished(d)->Some_0;
            let i = choose|i: int| 0 <= i < d.len() && d[i] == r;
            assert(rs[i + 1] == r);
        } else {
            assert(rs.contains(rs[0]));
        }
    }
}

/// A merge goes on only with parties that were read and are published: the master is a record read
/// of its id, the victims are exactly the records read of theirs, as many as were asked for.
pub proof fn law_parties(rs: Seq<RecordV>, master_id: i64, victim_ids: Seq<i64>)
    ensures
        parties(rs, master_id, victim_ids) matches Ok((m, vs)) ==> {
            &&& rs.contains(m)
            &&& m.id == master_id
            &&& published_record(m)
            &&& vs.len() == victim_ids.len()
            &&& forall|r: RecordV| #[trigger]
                vs.contains(r) <==> rs.contains(r) && victim_ids.contains(r.id)
            &&& forall|i: int| 0 <= i < vs.len() ==> published_record(#[trigger] vs[i])
        },
        (forall|r: RecordV| #[trigger] rs.contains(r) ==> published_record(r)) && (exists|
            r: RecordV,
        | #[trigger] rs.contains(r) && r.id == master_id) && with_ids(rs, victim_ids).len()
            == victim_ids.len() ==> parties(rs, master_id, victim_ids) is Ok,
{
    lemma_first_id(rs, master_id);
    let vs = with_ids(rs, victim_ids);
    lemma_all_published(vs);
    if let Some(m) = first_with_id(rs, master_id) {
        lemma_published(m);
    }
    assert forall|r: RecordV| #[trigger] vs.contains(r) <==> rs.contains(r) && victim_ids.contains(
        r.id,
    ) by {
        lemma_ids_kept(rs, victim_ids, r);
    }
    if (forall|r: RecordV| #[trigger] rs.contains(r) ==> published_record(r)) && (exists|
        r: RecordV,
    | #[trigger] rs.contains(r) && r.id == master_id) && vs.len() == victim_ids.len() {
        let r = choose|r: RecordV| #[trigger] rs.contains(r) && r.id == master_id;
        let i = choose|i: int| 0 <= i < rs.len() && rs[i] == r;
        assert(rs[i].id == master_id);
        assert forall|i: int| 0 <= i < vs.len() implies published_record(#[trigger] vs[i]) by {
            assert(vs.contains(vs[i]));
        }
    }
}

proof fn lemma_log_row_ascends(log: Seq<LogV>)
    ensures
        keys_ascend(log_row(log)),
    decreases log.len(),
{
    if log.len() > 0 {
        lemma_log_row_ascends(log.drop_last());
        law_keys_stay_ascending(log_row(log.drop_last()), log.last().field, log.last().value);
    }
}

proof fn lemma_overlay(row: ObjV, over: ObjV, f: Seq<char>)
    requires
        keys_ascend(over),
    ensures
        obj_get(overlay(row, over), f) == (if obj_get(over, f) is Some {
            obj_get(over, f)
        } else {
            obj_get(row, f)
        }),
    decreases over.len(),
{
    if over.len() > 0 {
        let d = over.drop_last();
        lemma_front_ascends(over);
        lemma_overlay(row, d, f);
        law_get_after_put(overlay(row, d), over.last().0, over.last().1, f);
        assert(obj_get(over, f) == (if f == over.last().0 {
            Some(over.last().1)
        } else {
            obj_get(d, f)
        }));
    }
}

/// What the last victim changes: the surviving fields get what survives of the row so far and that
/// victim, the others stay.
proof fn lemma_merged_step(
    master: ObjV,
    victims: Seq<RecordV>,
    fields: Seq<Seq<char>>,
    rules: Seq<(Seq<char>, SurvivorRule)>,
    f: Seq<char>,
)
    requires
        victims.len() > 0,
    ensures
        ({
            let m = merged(master, victims.drop_last(), fields, rules);
            let l = survival_log(m.row, victims.last().fields, fields, rules);
            obj_get(merged(master, victims, fields, rules).row, f) == (if fields.contains(f) {
                obj_get(log_row(l), f)
            } else {
                obj_get(m.row, f)
            })
        }),
{
    let m = merged(master, victims.drop_last(), fields, rules);
    let l = survival_log(m.row, victims.last().fields, fields, rules);
    lemma_log_row_ascends(l);
    lemma_overlay(m.row, log_row(l), f);
    law_nothing_else_survives(m.row, victims.last().fields, fields, rules, f);
}

/// A field that does not survive keeps the master's value.
pub proof fn law_other_fields_stay(
    master: ObjV,
    victims: Seq<RecordV>,
    fields: Seq<Seq<char>>,
    rules: Seq<(Seq<char>, SurvivorRule)>,
    f: Seq<char>,
)
    requires
        !fields.contains(f),
    ensures
        obj_get(merged(master, victims, fields, rules).row, f) == obj_get(master, f),
    decreases victims.len(),
{
    if victims.len() > 0 {
        law_other_fields_stay(master, victims.drop_last(), fields, rules, f);
        lemma_merged_step(master, victims, fields, rules, f);
    }
}

/// A field goes by what is filled in: no rule names it, or the first that does is of the first two
/// kinds.
pub open spec fn by_filling(rules: Seq<(Seq<char>, SurvivorRule)>, f: Seq<char>) -> bool {
    no_rule_names(rules, f) || exists|k: int| #[trigger]
        first_names(rules, f, k) && rules[k].1 != SurvivorRule::Latest
}

proof fn lemma_by_filling(
    row: ObjV,
    victim: ObjV,
    fields: Seq<Seq<char>>,
    rules: Seq<(Seq<char>, SurvivorRule)>,
    f: Seq<char>,
)
    requires
        fields.contains(f),
        by_filling(rules, f),
    ensures
        ({
            let r = obj_get(log_row(survival_log(row, victim, fields, rules)), f);
            let o = if says_something(row, f) || !says_something(victim, f) {
                row
            } else {
                victim
            };
            r == Some(
                match obj_get(o, f) {
                    Some(v) => v,
                    None => JsonV::Null,
                },
            )
        }),
{
    let i = choose|i: int| 0 <= i < fields.len() && fields[i] == f;
    if no_rule_names(rules, f) {
        law_field_without_rule(row, victim, fields, rules, i);
    } else {
        let k = choose|k: int| #[trigger]
            first_names(rules, f, k) && rules[k].1 != SurvivorRule::Latest;
        law_field_by_filling(row, victim, fields, rules, i, k);
    }
}

/// A field that goes by what is filled in: the master's value stays where the master says
/// something, however many victims there are.
pub proof fn law_filled_master_stays(
    master: ObjV,
    victims: Seq<RecordV>,
    fields: Seq<Seq<char>>,
    rules: Seq<(Seq<char>, SurvivorRule)>,
    f: Seq<char>,
)
    requires
        by_filling(rules, f),
        says_something(master, f),
    ensures
        obj_get(merged(master, victims, fields, rules).row, f) == obj_get(master, f),
    decreases victims.len(),
{
    if victims.len() > 0 {
        let d = victims.drop_last();
        law_filled_master_stays(master, d, fields, rules, f);
        lemma_merged_step(master, victims, fields, rules, f);
        if fields.contains(f) {
            lemma_by_filling(
                merged(master, d, fields, rules).row,
                victims.last().fields,
                fields,
                rules,
                f,
            );
        }
    }
}

/// Where the master says nothing, the value is that of the first victim that says something; where
/// none does, the field is not filled in.
pub proof fn law_first_victim_fills(
    master: ObjV,
    victims: Seq<RecordV>,
    fields: Seq<Seq<char>>,
    rules: Seq<(Seq<char>, SurvivorRule)>,
    f: Seq<char>,
    j: int,
)
    requires
        by_filling(rules, f),
        fields.contains(f),
        !says_something(master, f),
        0 <= j <= victims.len(),
        forall|i: int| 0 <= i < j ==> !says_something((#[trigger] victims[i]).fields, f),
        j < victims.len() ==> says_something(victims[j].fields, f),
    ensures
        j < victims.len() ==> obj_get(merged(master, victims, fields, rules).row, f) == obj_get(
            victims[j].fields,
            f,
        ),
        j == victims.len() ==> !says_something(merged(master, victims, fields, rules).row, f),
    decreases victims.len(),
{
    if victims.len() > 0 {
        let d = victims.drop_last();
        let n = victims.len() - 1;
        let m = merged(master, d, fields, rules).row;
        lemma_merged_step(master, victims, fields, rules, f);
        lemma_by_filling(m, victims.last().fields, fields, rules, f);
        assert(victims.last() == victims[n]);
        assert forall|i: int| 0 <= i < d.len() implies #[trigger] d[i] == victims[i] by {}
        if j < n {
            assert(d[j] == victims[j]);
            law_first_victim_fills(master, d, fields, rules, f, j);
        } else {
            law_first_victim_fills(master, d, fields, rules, f, n);
        }
    }
}

/// A field that goes by the latest change, while the time of change itself does not survive: the
/// value is that of the last victim that was changed after the master, and the master's where none
/// was; a record without the field gives null.
pub proof fn law_latest_victim_wins(
    master: ObjV,
    victims: Seq<RecordV>,
    fields: Seq<Seq<char>>,
    rules: Seq<(Seq<char>, SurvivorRule)>,
    f: Seq<char>,
    k: int,
    t: Seq<char>,
    times: Seq<Seq<char>>,
    j: int,
)
    requires
        victims.len() > 0,
        first_names(rules, f, k),
        rules[k].1 == SurvivorRule::Latest,
        fields.contains(f),
        !fields.contains("update_time"@),
        changed_at(master, t),
        times.len() == victims.len(),
        forall|i: int| 0 <= i < victims.len() ==> changed_at(victims[i].fields, #[trigger] times[i]),
        -1 <= j < victims.len(),
        j >= 0 ==> earlier(t, times[j]),
        forall|i: int| j < i < victims.len() ==> !earlier(t, #[trigger] times[i]),
    ensures
        ({
            let o = if j >= 0 {
                victims[j].fields
            } else {
                master
            };
            obj_get(merged(master, victims, fields, rules).row, f) == Some(
                match obj_get(o, f) {
                    Some(v) => v,
                    None => JsonV::Null,
                },
            )
        }),
    decreases victims.len(),
{
    let d = victims.drop_last();
    let n = victims.len() - 1;
    let m = merged(master, d, fields, rules).row;
    lemma_merged_step(master, victims, fields, rules, f);
    law_other_fields_stay(master, d, fields, rules, "update_time"@);
    let i = choose|i: int| 0 <= i < fields.len() && fields[i] == f;
    assert(victims.last() == victims[n]);
    assert(changed_at(victims[n].fields, times[n]));
    law_field_by_time(m, victims.last().fields, fields, rules, i, k, t, times[n]);
    if j < n && d.len() > 0 {
        let ts = times.drop_last();
        assert forall|i: int| 0 <= i < d.len() implies changed_at(
            d[i].fields,
            #[trigger] ts[i],
        ) by {
            assert(d[i] == victims[i]);
            assert(ts[i] == times[i]);
        }
        assert forall|i: int| j < i < d.len() implies !earlier(t, #[trigger] ts[i]) by {
            assert(ts[i] == times[i]);
        }
        if j >= 0 {
            assert(d[j] == victims[j] && ts[j] == times[j]);
        }
        law_latest_victim_wins(master, d, fields, rules, f, k, t, ts, j);
    }
}

/// The log of a merge has an entry for each victim and each surviving field, victim by victim.
pub proof fn law_merge_log(
    master: ObjV,
    victims: Seq<RecordV>,
    fields: Seq<Seq<char>>,
    rules: Seq<(Seq<char>, SurvivorRule)>,
)
    ensures
        merged(master, victims, fields, rules).log.len() == victims.len() * fields.len(),
        forall|v: int, i: int|
            0 <= v < victims.len() && 0 <= i < fields.len() ==> 0 <= #[trigger] entry_place(
                fields,
                v,
                i,
            ) < merged(master, victims, fields, rules).log.len() && merged(
                master,
                victims,
                fields,
                rules,
            ).log[entry_place(fields, v, i)].field == fields[i],
    decreases victims.len(),
{
    let log = merged(master, victims, fields, rules).log;
    let k = fields.len() as int;
    if victims.len() > 0 {
        let d = victims.drop_last();
        let n = victims.len() - 1;
        law_merge_log(master, d, fields, rules);
        let m = merged(master, d, fields, rules);
        let l = survival_log(m.row, victims.last().fields, fields, rules);
        assert(victims.len() * k == n * k + k) by (nonlinear_arith)
            requires
                victims.len() == n + 1,
        ;
        assert forall|v: int, i: int| 0 <= v < victims.len() && 0 <= i < k implies 0
            <= #[trigger] entry_place(fields, v, i) < log.len() && log[entry_place(
            fields,
            v,
            i,
        )].field == fields[i] by {
            let at = entry_place(fields, v, i);
            if v < n {
                assert(0 <= entry_place(fields, v, i) < m.log.len());
                assert(log[at] == m.log[at]);
            } else {
                assert(log[at] == l[i]);
            }
        }
    } else {
        assert(0 * k == 0) by (nonlinear_arith);
    }
}

/// Where the entry for a victim and a field stands in the log.
pub open spec fn entry_place(fields: Seq<Seq<char>>, v: int, i: int) -> int {
    v * fields.len() + i
}

/// Two lines agree in all their key values.
pub open spec fn lines_agree(a: LineKeyV, b: LineKeyV) -> bool {
    a.values.len() == b.values.len() && forall|c: int|
        0 <= c < a.values.len() ==> json_same(#[trigger] a.values[c], b.values[c])
}

/// A line repeats one of the master's.
pub open spec fn repeats(l: LineKeyV, master: Seq<LineKeyV>) -> bool {
    exists|j: int| 0 <= j < master.len() && lines_agree(l, #[trigger] master[j])
}

/// A line of the victim moves to the master exactly where it repeats none of the master's, and is
/// retired exactly where it repeats one: where all its key values agree with those of one line.
pub proof fn law_lines_move_or_retire(victim: Seq<LineKeyV>, master: Seq<LineKeyV>, id: i64)
    ensures
        lines_with(victim, master, false).contains(id) <==> exists|i: int|
            0 <= i < victim.len() && (#[trigger] victim[i]).id == id && !repeats(victim[i], master),
        lines_with(victim, master, true).contains(id) <==> exists|i: int|
            0 <= i < victim.len() && (#[trigger] victim[i]).id == id && repeats(victim[i], master),
    decreases victim.len(),
{
    lemma_split(victim, master, false, id);
    lemma_split(victim, master, true, id);
}

proof fn lemma_repeats(l: LineKeyV, master: Seq<LineKeyV>)
    ensures
        has_key(master, l.values) <==> repeats(l, master),
{
    if has_key(master, l.values) {
        let j = choose|j: int| 0 <= j < master.len() && same_key(l.values, (#[trigger] master[j]).values);
        assert(lines_agree(l, master[j]));
    }
    if repeats(l, master) {
        let j = choose|j: int| 0 <= j < master.len() && lines_agree(l, #[trigger] master[j]);
        assert(same_key(l.values, master[j].values));
    }
}

proof fn lemma_split(victim: Seq<LineKeyV>, master: Seq<LineKeyV>, dup: bool, id: i64)
    ensures
        lines_with(victim, master, dup).contains(id) <==> exists|i: int|
            0 <= i < victim.len() && (#[trigger] victim[i]).id == id && repeats(victim[i], master)
                == dup,
    decreases victim.len(),
{
    if victim.len() > 0 {
        let d = victim.drop_last();
        let n = victim.len() - 1;
        lemma_split(d, master, dup, id);
        lemma_repeats(victim.last(), master);
        let a = lines_with(d, master, dup);
        let r = lines_with(victim, master, dup);
        if r.contains(id) {
            let i = choose|i: int| 0 <= i < r.len() && r[i] == id;
            if i < a.len() {
                assert(a[i] == id);
                let j = choose|j: int|
                    0 <= j < d.len() && (#[trigger] d[j]).id == id && repeats(d[j], master) == dup;
                assert(victim[j] == d[j]);
            } else {
                assert(victim[n] == victim.last());
            }
        }
        if exists|i: int|
            0 <= i < victim.len() && (#[trigger] victim[i]).id == id && repeats(victim[i], master)
                == dup {
            let i = choose|i: int|
                0 <= i < victim.len() && (#[trigger] victim[i]).id == id && repeats(
                    victim[i],
                    master,
                ) == dup;
            if i < n {
                assert(d[i] == victim[i]);
                let j = choose|j: int| 0 <= j < a.len() && a[j] == id;
                assert(r[j] == id);
            } else {
                assert(r.last() == id);
            }
        }
    }
}

} // verus!
