//! What searches, scans and merge requests are answered.

use crate::handlers::dedup::{
    candidate_value, checked_search, detail_keys, duplicates_of, first_record, key_answer, without,
};
use crate::handlers::merge::{
    find_name, first_other, group_members, leaves_out_pending, member_name, named_group,
    named_rules, searched_name, NameV,
};
use crate::handlers::scan::prepared_of;
use crate::handlers::scan_run::{scan_step, scan_value, ScanEventV, ScanStageV};
use crate::handlers::{match_specs, SpecDtoV};
use crate::json::{json_get, json_i64, lemma_get_put, number_of, obj_get, JsonV, NumberV, ObjV};
use crate::match_algo::{
    bucket_key, bucket_members, candidates, law_candidates, similarity, ClusterV, Decision,
    FieldKind, FieldSpecV, MatchCandidate, RecordV, BLOCK_CAP,
};
use crate::match_exact::{ids_differ, is_double, law_search_is_exact};
use crate::match_laws::as_candidate;
use crate::store::dispatch_store::integers;
use crate::store::scan_store::InsertStats;
use crate::survivorship::SurvivorRule;
use crate::text::{texts, trimmed};
use vstd::prelude::*;

verus! {

pub proof fn lemma_without(s: Seq<Seq<char>>, x: Seq<char>, k: Seq<char>)
    ensures
        without(s, x).contains(k) <==> s.contains(k) && k != x,
    decreases s.len(),
{
    if s.len() > 0 {
        let d = s.drop_last();
        let w = without(d, x);
        let r = without(s, x);
        lemma_without(d, x, k);
        if r.contains(k) {
            let i = choose|i: int| 0 <= i < r.len() && r[i] == k;
            if i < w.len() {
                assert(w[i] == k);
                let j = choose|j: int| 0 <= j < d.len() && d[j] == k;
                assert(s[j] == k);
            } else {
                assert(s[s.len() - 1] == k);
            }
        }
        if s.contains(k) && k != x {
            let j = choose|j: int| 0 <= j < s.len() && s[j] == k;
            if j < d.len() {
                assert(d[j] == k);
                let i = choose|i: int| 0 <= i < w.len() && w[i] == k;
                assert(r[i] == k);
            } else {
                assert(r.last() == k);
            }
        }
    }
}

/// What tells one detail row from another is the first unique key of its table, but for the column
/// that points at the head row; a table without a unique key has nothing of the kind.
pub proof fn law_detail_keys(unique_keys: Seq<Vec<String>>, parent_field: Seq<char>, k: Seq<char>)
    ensures
        unique_keys.len() == 0 ==> detail_keys(unique_keys, parent_field).len() == 0,
        unique_keys.len() > 0 ==> (detail_keys(unique_keys, parent_field).contains(k)
            <==> texts(unique_keys[0]@).contains(k) && k != parent_field),
{
    if unique_keys.len() > 0 {
        lemma_without(texts(unique_keys[0]@), parent_field, k);
    }
}

/// The names of the two ways to compare.
pub open spec fn names_kind(name: Seq<char>, kind: FieldKind) -> bool {
    match kind {
        FieldKind::Exact => name == "Exact"@ || name == "exact"@,
        FieldKind::EditDistance => name == "EditDistance"@ || name == "edit_distance"@ || name
            == "editDistance"@,
    }
}

/// A name stands for a way to compare.
pub open spec fn known_kind(name: Seq<char>) -> bool {
    names_kind(name, FieldKind::Exact) || names_kind(name, FieldKind::EditDistance)
}

/// The comparisons of a request are as it names them, one for each field and in its order, with the
/// weights given; one name that stands for no way to compare refuses them all.
pub proof fn law_specs_as_named(s: Seq<SpecDtoV>)
    ensures
        match_specs(s) is Ok <==> forall|i: int| 0 <= i < s.len() ==> known_kind((#[trigger] s[i]).kind),
        match_specs(s) matches Ok(r) ==> {
            &&& r.len() == s.len()
            &&& forall|i: int|
                0 <= i < s.len() ==> (#[trigger] r[i]).field == s[i].field && r[i].weight
                    == s[i].weight && names_kind(s[i].kind, r[i].kind)
        },
    decreases s.len(),
{
    if s.len() > 0 {
        let d = s.drop_last();
        law_specs_as_named(d);
        assert forall|i: int| 0 <= i < d.len() implies #[trigger] d[i] == s[i] by {}
        assert(s[s.len() - 1] == s.last());
        if match_specs(s) is Ok {
            assert forall|i: int| 0 <= i < s.len() implies known_kind((#[trigger] s[i]).kind) by {
                if i < d.len() {
                    assert(known_kind(d[i].kind));
                }
            }
            let r = match_specs(s)->Ok_0;
            let q = match_specs(d)->Ok_0;
            assert forall|i: int| 0 <= i < s.len() implies (#[trigger] r[i]).field == s[i].field
                && r[i].weight == s[i].weight && names_kind(s[i].kind, r[i].kind) by {
                if i < d.len() {
                    assert(r[i] == q[i]);
                }
            }
        }
        if forall|i: int| 0 <= i < s.len() ==> known_kind((#[trigger] s[i]).kind) {
            assert forall|i: int| 0 <= i < d.len() implies known_kind((#[trigger] d[i]).kind) by {
                assert(known_kind(s[i].kind));
            }
            assert(known_kind(s[s.len() - 1].kind));
        }
    }
}

/// A search is made exactly where it has comparisons that are named rightly, a table and cluster
/// keys.
pub proof fn law_search_needs(specs: Seq<SpecDtoV>, table: Seq<char>, keys: Seq<Seq<char>>)
    ensures
        checked_search(specs, table, keys) is Ok <==> {
            &&& specs.len() > 0
            &&& table.len() > 0
            &&& keys.len() > 0
            &&& forall|i: int| 0 <= i < specs.len() ==> known_kind((#[trigger] specs[i]).kind)
        },
        checked_search(specs, table, keys) matches Ok(r) ==> match_specs(specs) == Ok::<
            Seq<FieldSpecV>,
            Seq<char>,
        >(r),
{
    law_specs_as_named(specs);
}

proof fn lemma_first_record(rs: Seq<RecordV>, id: i64, j: int)
    requires
        0 <= j <= rs.len(),
        forall|k: int| 0 <= k < j ==> (#[trigger] rs[k]).id != id,
        j < rs.len() ==> rs[j].id == id,
    ensures
        first_record(rs, id) == (if j < rs.len() {
            Some(rs[j])
        } else {
            None
        }),
    decreases j,
{
    if j > 0 {
        let d = rs.drop_first();
        assert(rs[0].id != id);
        assert forall|k: int| 0 <= k < j - 1 implies (#[trigger] d[k]).id != id by {
            assert(d[k] == rs[k + 1]);
        }
        if j < rs.len() {
            assert(d[j - 1] == rs[j]);
        }
        lemma_first_record(d, id, j - 1);
    }
}

/// A candidate is shown with its number, its score, its decision and the values of its record.
pub proof fn law_candidate_shown(c: MatchCandidate, all: Seq<RecordV>, j: int)
    requires
        0 <= j < all.len(),
        all[j].id == c.record_id,
        forall|k: int| 0 <= k < j ==> (#[trigger] all[k]).id != c.record_id,
    ensures
        json_get(candidate_value(c, all), "recordId"@) == Some(
            JsonV::Num(number_of(c.record_id)),
        ),
        json_get(candidate_value(c, all), "score"@) == Some(JsonV::Num(NumberV::PosInt(c.score as u64))),
        json_get(candidate_value(c, all), "decision"@) == Some(
            JsonV::Str(
                match c.decision {
                    Decision::AutoMerge => "AutoMerge"@,
                    Decision::Review => "Review"@,
                    Decision::NoMatch => "NoMatch"@,
                },
            ),
        ),
        json_get(candidate_value(c, all), "fields"@) == Some(JsonV::Obj(all[j].fields)),
{
    broadcast use lemma_get_put;

    lemma_first_record(all, c.record_id, j);
    reveal_strlit("recordId");
    reveal_strlit("score");
    reveal_strlit("decision");
    reveal_strlit("fields");
    assert("recordId"@.len() == 8 && "score"@.len() == 5 && "decision"@.len() == 8
        && "fields"@.len() == 6);
    assert("recordId"@[0] == 'r' && "decision"@[0] == 'd');
}

/// The duplicates of a record are shown with the record itself; a record that is not among those
/// read has none to show.
pub proof fn law_duplicates_shown(
    all: Seq<RecordV>,
    id: i64,
    specs: Seq<FieldSpecV>,
    keys: Seq<Seq<char>>,
    j: int,
)
    requires
        0 <= j <= all.len(),
        forall|k: int| 0 <= k < j ==> (#[trigger] all[k]).id != id,
        j < all.len() ==> all[j].id == id,
    ensures
        j == all.len() ==> duplicates_of(all, id, specs, keys) is Err,
        j < all.len() ==> (duplicates_of(all, id, specs, keys) matches Ok(v) && {
            let found = candidates(all[j], all, specs, keys);
            &&& json_get(v, "targetId"@) == Some(JsonV::Num(number_of(id)))
            &&& json_get(v, "targetFields"@) == Some(JsonV::Obj(all[j].fields))
            &&& json_get(v, "candidates"@) matches Some(JsonV::Arr(a)) && a.len() == found.len()
                && forall|i: int|
                0 <= i < found.len() ==> #[trigger] a[i] == candidate_value(found[i], all)
        }),
{
    broadcast use lemma_get_put;

    lemma_first_record(all, id, j);
    reveal_strlit("targetId");
    reveal_strlit("targetFields");
    reveal_strlit("candidates");
    reveal_strlit("thresholds");
    assert("targetId"@.len() == 8 && "targetFields"@.len() == 12 && "candidates"@.len() == 10
        && "thresholds"@.len() == 10);
    assert("candidates"@[0] == 'c' && "thresholds"@[0] == 't');
}

proof fn lemma_key_words()
    ensures
        "exists"@ != "id"@,
        "exists"@ != "code"@,
        "exists"@ != "message"@,
        "id"@ != "code"@,
        "id"@ != "message"@,
{
    reveal_strlit("exists");
    reveal_strlit("id");
    reveal_strlit("code");
    reveal_strlit("message");
    assert("exists"@.len() == 6 && "id"@.len() == 2 && "code"@.len() == 4 && "message"@.len() == 7);
}

/// Whether a record with given values is there: exactly where some record is a double of them, in
/// the same bucket and with a score of at least 80. The one that is named then is such a double,
/// and none scores more.
pub proof fn law_key_check_is_exact(
    all: Seq<RecordV>,
    values: ObjV,
    specs: Seq<FieldSpecV>,
    keys: Seq<Seq<char>>,
)
    requires
        ids_differ(all),
        forall|i: int| 0 <= i < all.len() ==> (#[trigger] all[i]).id != 0,
        bucket_key(values, keys) matches Some(k) ==> bucket_members(
            seq![RecordV { id: 0, fields: values }] + all,
            keys,
            k,
        ).len() <= BLOCK_CAP,
    ensures
        ({
            let t = RecordV { id: 0, fields: values };
            let a = key_answer(all, values, specs, keys);
            &&& json_get(a, "exists"@) == Some(JsonV::Bool(true)) || json_get(a, "exists"@) == Some(
                JsonV::Bool(false),
            )
            &&& json_get(a, "exists"@) == Some(JsonV::Bool(true)) <==> exists|r: RecordV| #[trigger]
                all.contains(r) && is_double(t, r, specs, keys)
            &&& json_get(a, "exists"@) == Some(JsonV::Bool(true)) ==> exists|r: RecordV| #[trigger]
                all.contains(r) && is_double(t, r, specs, keys) && json_get(a, "id"@) == Some(
                    JsonV::Num(number_of(r.id)),
                ) && forall|s: RecordV| #[trigger]
                    all.contains(s) && is_double(t, s, specs, keys) ==> similarity(
                        values,
                        s.fields,
                        specs,
                    ) <= similarity(values, r.fields, specs)
        }),
{
    broadcast use lemma_get_put;

    lemma_key_words();
    let t = RecordV { id: 0, fields: values };
    let found = candidates(t, all, specs, keys);
    law_search_is_exact(t, all, specs, keys);
    law_candidates(t, all, specs, keys);
    if found.len() > 0 {
        assert(found.contains(found[0]));
        let r = choose|r: RecordV| #[trigger]
            all.contains(r) && is_double(t, r, specs, keys) && found[0] == as_candidate(
                t,
                r,
                specs,
            );
        assert(all.contains(r) && is_double(t, r, specs, keys));
        assert forall|s: RecordV| #[trigger] all.contains(s) && is_double(t, s, specs, keys) implies
            similarity(values, s.fields, specs) <= similarity(values, r.fields, specs) by {
            let c = as_candidate(t, s, specs);
            assert(found.contains(c));
            let i = choose|i: int| 0 <= i < found.len() && found[i] == c;
            assert(found[0].score >= found[i].score);
            crate::match_algo::law_similarity_bounded(values, s.fields, specs);
            crate::match_algo::law_similarity_bounded(values, r.fields, specs);
        }
    } else {
        assert forall|r: RecordV| #[trigger] all.contains(r) implies !is_double(
            t,
            r,
            specs,
            keys,
        ) by {
            if is_double(t, r, specs, keys) {
                assert(found.contains(as_candidate(t, r, specs)));
            }
        }
    }
}

/// The names of the three rules.
pub open spec fn names_rule(v: JsonV, r: SurvivorRule) -> bool {
    match r {
        SurvivorRule::MasterFirst => v == JsonV::Str("master"@),
        SurvivorRule::Fullest => v == JsonV::Str("fullest"@),
        SurvivorRule::Latest => v == JsonV::Str("latest"@),
    }
}

/// A value names a rule.
pub open spec fn known_rule(v: JsonV) -> bool {
    v == JsonV::Str("master"@) || v == JsonV::Str("fullest"@) || v == JsonV::Str("latest"@)
}

/// The rules of a request are as it names them, one for each field; one name that is no rule
/// refuses them all.
pub proof fn law_rules_as_named(m: ObjV)
    ensures
        named_rules(m) is Ok <==> forall|i: int| 0 <= i < m.len() ==> known_rule((#[trigger] m[i]).1),
        named_rules(m) matches Ok(r) ==> {
            &&& r.len() == m.len()
            &&& forall|i: int|
                0 <= i < m.len() ==> (#[trigger] r[i]).0 == m[i].0 && names_rule(m[i].1, r[i].1)
        },
    decreases m.len(),
{
    reveal_strlit("master");
    reveal_strlit("fullest");
    reveal_strlit("latest");
    assert("master"@[0] == 'm' && "fullest"@[0] == 'f' && "latest"@[0] == 'l');
    if m.len() > 0 {
        let d = m.drop_last();
        law_rules_as_named(d);
        assert forall|i: int| 0 <= i < d.len() implies #[trigger] d[i] == m[i] by {}
        assert(m[m.len() - 1] == m.last());
        if named_rules(m) is Ok {
            assert forall|i: int| 0 <= i < m.len() implies known_rule((#[trigger] m[i]).1) by {
                if i < d.len() {
                    assert(known_rule(d[i].1));
                }
            }
            let r = named_rules(m)->Ok_0;
            let q = named_rules(d)->Ok_0;
            assert forall|i: int| 0 <= i < m.len() implies (#[trigger] r[i]).0 == m[i].0
                && names_rule(m[i].1, r[i].1) by {
                if i < d.len() {
                    assert(r[i] == q[i]);
                }
            }
        }
        if forall|i: int| 0 <= i < m.len() ==> known_rule((#[trigger] m[i]).1) {
            assert forall|i: int| 0 <= i < d.len() implies known_rule((#[trigger] d[i]).1) by {
                assert(known_rule(m[i].1));
            }
            assert(known_rule(m[m.len() - 1].1));
        }
    }
}

/// The record that an undo gives back is the first of a merge that is not its master; none, 0,
/// where all are.
pub proof fn law_first_other(ids: Seq<i64>, x: i64, j: int)
    requires
        0 <= j <= ids.len(),
        forall|k: int| 0 <= k < j ==> #[trigger] ids[k] == x,
        j < ids.len() ==> ids[j] != x,
    ensures
        first_other(ids, x) == (if j < ids.len() {
            ids[j]
        } else {
            0
        }),
    decreases j,
{
    if j > 0 {
        let d = ids.drop_first();
        assert(ids[0] == x);
        assert forall|k: int| 0 <= k < j - 1 implies #[trigger] d[k] == x by {
            assert(d[k] == ids[k + 1]);
        }
        if j < ids.len() {
            assert(d[j - 1] == ids[j]);
        }
        law_first_other(d, x, j - 1);
    }
}

/// The members of a merge request are the integers that it lists, in their order, whether it holds
/// the list or its text.
pub proof fn law_members_listed(g: JsonV, a: Seq<JsonV>, ids: Seq<i64>)
    requires
        a.len() == ids.len(),
        forall|i: int| 0 <= i < a.len() ==> json_i64(Some(#[trigger] a[i])) == Some(ids[i]),
    ensures
        json_get(g, "member_ids"@) == Some(JsonV::Arr(a)) ==> group_members(g) == ids,
        (json_get(g, "member_ids"@) matches Some(JsonV::Str(s)) && crate::outside::json_parse(s)
            == Some(JsonV::Arr(a))) ==> group_members(g) == ids,
{
    lemma_integers(a, ids);
}

proof fn lemma_integers(a: Seq<JsonV>, ids: Seq<i64>)
    requires
        a.len() == ids.len(),
        forall|i: int| 0 <= i < a.len() ==> json_i64(Some(#[trigger] a[i])) == Some(ids[i]),
    ensures
        integers(a) == ids,
    decreases a.len(),
{
    if a.len() > 0 {
        let d = a.drop_last();
        let e = ids.drop_last();
        assert forall|i: int| 0 <= i < d.len() implies json_i64(Some(#[trigger] d[i])) == Some(
            e[i],
        ) by {
            assert(d[i] == a[i]);
        }
        lemma_integers(d, e);
        assert(json_i64(Some(a[a.len() - 1])) == Some(ids[a.len() - 1]));
        assert(e.push(ids.last()) =~= ids);
    } else {
        assert(integers(a) =~= ids);
    }
}

/// Entry `j` is the last for a record of a dictionary.
pub open spec fn last_name(names: Seq<NameV>, dict: Seq<char>, id: i64, j: int) -> bool {
    &&& 0 <= j < names.len()
    &&& names[j].dict_code == dict
    &&& names[j].id == id
    &&& forall|k: int|
        j < k < names.len() ==> (#[trigger] names[k]).dict_code != dict || names[k].id != id
}

proof fn lemma_last_name(names: Seq<NameV>, dict: Seq<char>, id: i64, j: int)
    requires
        last_name(names, dict, id, j),
    ensures
        find_name(names, dict, id) == Some(names[j]),
    decreases names.len(),
{
    if j < names.len() - 1 {
        let d = names.drop_last();
        assert(names[names.len() - 1].dict_code != dict || names[names.len() - 1].id != id);
        assert forall|k: int| j < k < d.len() implies (#[trigger] d[k]).dict_code != dict || d[k].id
            != id by {
            assert(d[k] == names[k]);
        }
        lemma_last_name(d, dict, id, j);
    }
}

/// A merge request is shown with the name and the code of its master, and with those of each
/// member, in their order; its own columns stay.
pub proof fn law_group_named(
    g: ObjV,
    names: Seq<NameV>,
    dict: Seq<char>,
    master: i64,
    j: int,
    col: Seq<char>,
)
    requires
        obj_get(g, "dict_code"@) == Some(JsonV::Str(dict)),
        json_i64(obj_get(g, "master_id"@)) == Some(master),
        last_name(names, dict, master, j),
    ensures
        obj_get(named_group(g, names), "masterName"@) == Some(JsonV::Str(names[j].name)),
        obj_get(named_group(g, names), "masterCode"@) == Some(JsonV::Str(names[j].code)),
        col != "masterName"@ && col != "masterCode"@ && col != "memberNames"@ ==> obj_get(
            named_group(g, names),
            col,
        ) == obj_get(g, col),
        obj_get(named_group(g, names), "memberNames"@) matches Some(JsonV::Arr(a)) && a.len()
            == group_members(JsonV::Obj(g)).len() && forall|i: int|
            0 <= i < a.len() ==> json_get(#[trigger] a[i], "id"@) == Some(
                JsonV::Num(number_of(group_members(JsonV::Obj(g))[i])),
            ),
{
    broadcast use lemma_get_put;

    lemma_last_name(names, dict, master, j);
    reveal_strlit("masterName");
    reveal_strlit("masterCode");
    reveal_strlit("memberNames");
    reveal_strlit("id");
    reveal_strlit("name");
    reveal_strlit("code");
    assert("masterName"@.len() == 10 && "masterCode"@.len() == 10 && "memberNames"@.len() == 11);
    assert("masterName"@[6] == 'N' && "masterCode"@[6] == 'C');
    assert("id"@.len() == 2 && "name"@.len() == 4 && "code"@.len() == 4);
}

/// A member is shown with the last name and code that are known of it, and with none where none
/// are.
pub proof fn law_member_named(names: Seq<NameV>, dict: Seq<char>, id: i64, j: int)
    ensures
        last_name(names, dict, id, j) ==> json_get(member_name(names, dict, id), "name"@) == Some(
            JsonV::Str(names[j].name),
        ) && json_get(member_name(names, dict, id), "code"@) == Some(JsonV::Str(names[j].code)),
{
    broadcast use lemma_get_put;

    if last_name(names, dict, id, j) {
        lemma_last_name(names, dict, id, j);
    }
    reveal_strlit("id");
    reveal_strlit("name");
    reveal_strlit("code");
    assert("id"@.len() == 2 && "name"@.len() == 4 && "code"@.len() == 4);
    assert("name"@[0] == 'n' && "code"@[0] == 'c');
}

/// A name is searched for only within a dictionary, and without the white space around it.
pub proof fn law_searched_name(kw: Seq<char>, dict: Option<Seq<char>>)
    ensures
        searched_name(None, dict) is None,
        searched_name(Some(kw), None) is None,
        dict is Some && trimmed(kw).len() > 0 ==> searched_name(Some(kw), dict) == Some(
            trimmed(kw),
        ),
        trimmed(kw).len() == 0 ==> searched_name(Some(kw), dict) is None,
{
}

/// Requests that wait are left out of a list unless that is asked otherwise, in one of three ways.
pub proof fn law_pending_left_out(asked: Option<Seq<char>>)
    ensures
        leaves_out_pending(None),
        !leaves_out_pending(asked) <==> asked == Some("0"@) || asked == Some("false"@) || asked
            == Some("False"@),
{
}

/// A cluster is entered with the numbers of its members, in their order, and the score of the
/// first.
pub proof fn law_cluster_entered(c: ClusterV, i: int)
    requires
        0 <= i < c.members.len(),
    ensures
        prepared_of(c).cluster_key == c.cluster_key,
        prepared_of(c).member_ids.len() == c.members.len(),
        prepared_of(c).member_ids[i] == c.members[i].record_id,
        prepared_of(c).max_score == c.members[0].score,
{
}

/// What a scan answers adds up: what is new and what waited already are all the clusters found.
pub proof fn law_scan_counts(
    dict: Seq<char>,
    found: Seq<crate::store::scan_store::PreparedV>,
    waiting: Seq<Seq<char>>,
    ids: Seq<i64>,
    rows: Seq<JsonV>,
)
    requires
        found.len() <= ids.len(),
        found.len() <= u64::MAX,
    ensures
        ids.len() >= found.len() ==> match scan_step(
            ScanStageV::Ids(dict, found, waiting),
            ScanEventV::Ids(ids),
        ).0 {
            ScanStageV::Inserting(d, left, stats) => d == dict && stats.inserted + stats.skipped
                == found.len() && stats.inserted == left.len() + 1,
            ScanStageV::Counting(stats) => stats.inserted == 0 && stats.skipped == found.len(),
            _ => false,
        },
{
    lemma_findings_fit(dict, found, waiting, ids);
}

proof fn lemma_findings_fit(
    dict: Seq<char>,
    found: Seq<crate::store::scan_store::PreparedV>,
    waiting: Seq<Seq<char>>,
    ids: Seq<i64>,
)
    ensures
        crate::store::scan_store::findings(dict, found, waiting, ids).len() <= found.len(),
    decreases found.len(),
{
    if found.len() > 0 {
        lemma_findings_fit(dict, found.drop_last(), waiting, ids);
    }
}

/// A scan is answered with what is new, what waited already and how much waits now.
pub proof fn law_scan_answer(stats: InsertStats, waiting: i64)
    ensures
        json_get(scan_value(stats, waiting), "newFindings"@) == Some(
            JsonV::Num(NumberV::PosInt(stats.inserted)),
        ),
        json_get(scan_value(stats, waiting), "skipped"@) == Some(
            JsonV::Num(NumberV::PosInt(stats.skipped)),
        ),
        json_get(scan_value(stats, waiting), "pendingTotal"@) == Some(
            JsonV::Num(number_of(waiting)),
        ),
{
    broadcast use lemma_get_put;

    reveal_strlit("newFindings");
    reveal_strlit("skipped");
    reveal_strlit("pendingTotal");
    assert("newFindings"@.len() == 11 && "skipped"@.len() == 7 && "pendingTotal"@.len() == 12);
}

} // verus!
