//! Search for duplicates of a record, and of a record that is yet to be made.

use crate::distribution::registry::{sorted_texts, texts_ascend};
use crate::distribution::transform::{text_at, text_member};
use crate::handlers::{dtos_view, match_specs, put, to_match_specs, SpecDto, SpecDtoV};
use crate::json::{
    array, json_get, law_get_after_put, number_of, obj_put, values_view, Json, JsonV, ObjV, Object,
};
use crate::match_algo::{
    bucket_key, bucket_members, candidates, find_candidates, keys_view, records_view, similarity,
    specs_view, Decision, FieldSpecV, MatchCandidate, MatchFieldSpec, MatchRecord, RecordV,
    BLOCK_CAP,
};
use crate::match_laws::{as_candidate, law_duplicates_are_found};
use crate::merge_parts::{about_id, LineTableInfo};
use crate::store::activation_store::LineTable;
use crate::text::{dec_int, decimal_int, same_text, texts};
use vstd::prelude::*;

verus! {

/// Some texts without one of them.
pub open spec fn without(s: Seq<Seq<char>>, x: Seq<char>) -> Seq<Seq<char>>
    decreases s.len(),
{
    if s.len() == 0 {
        s
    } else if s.last() == x {
        without(s.drop_last(), x)
    } else {
        without(s.drop_last(), x).push(s.last())
    }
}

/// What tells one detail row from another: the first unique key without the column that points at
/// the head row.
pub open spec fn detail_keys(unique_keys: Seq<Vec<String>>, parent_field: Seq<char>) -> Seq<
    Seq<char>,
> {
    if unique_keys.len() == 0 {
        Seq::empty()
    } else {
        without(texts(unique_keys[0]@), parent_field)
    }
}

/// What tells one detail row from another.
pub fn dedup_keys_from(unique_keys: &[Vec<String>], parent_field: &str) -> (r: Vec<String>)
    ensures
        texts(r@) == detail_keys(unique_keys@, parent_field@),
{
    let mut out: Vec<String> = Vec::new();
    assert(texts(out@) =~= Seq::<Seq<char>>::empty());
    if unique_keys.len() > 0 {
        let g = &unique_keys[0];
        let ghost all = texts(g@);
        let mut i: usize = 0;
        assert(all.take(0) =~= Seq::<Seq<char>>::empty());
        while i < g.len()
            invariant
                i <= g@.len(),
                all == texts(g@),
                texts(out@) == without(all.take(i as int), parent_field@),
            decreases g@.len() - i,
        {
            let ghost before = out@;
            assert(all.take(i + 1).drop_last() =~= all.take(i as int));
            assert(all.take(i + 1).last() == g@[i as int]@);
            if !same_text(g[i].as_str(), parent_field) {
                out.push(g[i].clone());
                assert(texts(out@) =~= texts(before).push(g@[i as int]@));
            }
            i += 1;
        }
        assert(all.take(all.len() as int) =~= all);
    }
    out
}

/// A detail table with what tells its rows apart: nothing where its dictionary is not known.
pub fn line_table_info(table: LineTable, unique_keys: Option<&[Vec<String>]>) -> (r: LineTableInfo)
    ensures
        r.table@ == table.table@,
        r.parent_field@ == table.parent_field@,
        texts(r.dedup_keys@) == (match unique_keys {
            Some(k) => if table.dict_code@.len() > 0 {
                detail_keys(k@, table.parent_field@)
            } else {
                Seq::empty()
            },
            None => Seq::empty(),
        }),
{
    let none: Vec<String> = Vec::new();
    assert(texts(none@) =~= Seq::<Seq<char>>::empty());
    let dedup_keys: Vec<String> = match unique_keys {
        Some(k) => if table.dict_code.as_str().is_empty() {
            none
        } else {
            dedup_keys_from(k, table.parent_field.as_str())
        },
        None => none,
    };
    LineTableInfo { table: table.table, parent_field: table.parent_field, dedup_keys }
}

/// What a rule gives where a request is silent.
#[derive(Debug)]
pub struct MatchConfigDefaults {
    pub target_table: String,
    pub specs: Vec<SpecDto>,
    pub cluster_keys: Vec<String>,
    pub survive_fields: Vec<String>,
}

/// The texts of a list; none where one element is no text.
pub open spec fn all_texts(a: Seq<JsonV>) -> Seq<Seq<char>> {
    if forall|i: int| 0 <= i < a.len() ==> (#[trigger] a[i]) is Str {
        Seq::new(a.len(), |i: int| a[i]->Str_0)
    } else {
        Seq::empty()
    }
}

/// The texts of a member that is a list of texts; none where it is anything else.
pub open spec fn texts_at(v: JsonV, k: Seq<char>) -> Seq<Seq<char>> {
    match json_get(v, k) {
        Some(JsonV::Arr(a)) => all_texts(a),
        _ => Seq::empty(),
    }
}

/// The texts of a member that is a list of texts.
pub fn text_list(v: &Json, k: &str) -> (r: Vec<String>)
    ensures
        texts(r@) == texts_at(v@, k@),
{
    let mut out: Vec<String> = Vec::new();
    assert(texts(out@) =~= Seq::<Seq<char>>::empty());
    let list: Option<&Vec<Json>> = match v.get(k) {
        Some(x) => x.as_array(),
        None => None,
    };
    if let Some(a) = list {
        let ghost all = values_view(a@);
        let mut i: usize = 0;
        while i < a.len()
            invariant
                i <= a@.len(),
                all == values_view(a@),
                out@.len() == i,
                texts_at(v@, k@) == all_texts(all),
                forall|j: int| 0 <= j < i ==> (#[trigger] all[j]) is Str,
                forall|j: int| 0 <= j < i ==> (#[trigger] out@[j])@ == all[j]->Str_0,
            decreases a@.len() - i,
        {
            assert(all[i as int] == a@[i as int]@);
            match &a[i] {
                Json::Str(s) => {
                    out.push(s.clone());
                },
                _ => {
                    let none: Vec<String> = Vec::new();
                    assert(!(all[i as int] is Str));
                    assert(texts(none@) =~= Seq::<Seq<char>>::empty());
                    return none;
                },
            }
            i += 1;
        }
        assert(texts(out@) =~= all_texts(all));
    }
    out
}

/// What the first rule of a dictionary gives; nothing where it names no table.
pub fn config_defaults(rules: &Vec<Json>, specs: Vec<SpecDto>) -> (r: Option<MatchConfigDefaults>)
    ensures
        r is Some <==> rules@.len() > 0 && text_at(rules@[0]@, "target_table"@).len() > 0,
        match r {
            Some(d) => d.target_table@ == text_at(rules@[0]@, "target_table"@) && d.specs == specs
                && texts(d.cluster_keys@) == texts_at(rules@[0]@, "cluster_keys"@) && texts(
                d.survive_fields@,
            ) == texts_at(rules@[0]@, "survive_fields"@),
            None => true,
        },
{
    if rules.len() == 0 {
        return None;
    }
    let table = text_member(&rules[0], "target_table");
    if table.as_str().is_empty() {
        return None;
    }
    Some(
        MatchConfigDefaults {
            target_table: table,
            specs,
            cluster_keys: text_list(&rules[0], "cluster_keys"),
            survive_fields: text_list(&rules[0], "survive_fields"),
        },
    )
}

/// A text, or another where it is empty.
pub open spec fn text_else(a: Seq<char>, d: Seq<char>) -> Seq<char> {
    if a.len() > 0 {
        a
    } else {
        d
    }
}

/// A list, or another where it is empty.
pub open spec fn list_else<T>(a: Seq<T>, d: Seq<T>) -> Seq<T> {
    if a.len() > 0 {
        a
    } else {
        d
    }
}

pub(crate) fn fill_text(a: &mut String, d: String)
    ensures
        final(a)@ == text_else(old(a)@, d@),
{
    if a.as_str().is_empty() {
        *a = d;
    }
}

pub(crate) fn fill_list<T>(a: &mut Vec<T>, d: Vec<T>)
    ensures
        final(a)@ == list_else(old(a)@, d@),
{
    if a.len() == 0 {
        *a = d;
    }
}

/// A request for the duplicates of a record.
#[derive(Debug)]
pub struct FindDupBody {
    pub dict_code: String,
    pub record_id: i64,
    pub target_table: String,
    pub specs: Vec<SpecDto>,
    pub cluster_keys: Vec<String>,
    pub survive_fields: Vec<String>,
    /// Columns that are only shown.
    pub display_fields: Vec<String>,
}

impl FindDupBody {
    /// Whether a rule is asked for what the request leaves out.
    pub fn lacks_defaults(&self) -> (r: bool)
        ensures
            r == (self.target_table@.len() == 0 || self.specs@.len() == 0
                || self.cluster_keys@.len() == 0 || self.survive_fields@.len() == 0),
    {
        self.target_table.as_str().is_empty() || self.specs.len() == 0 || self.cluster_keys.len()
            == 0 || self.survive_fields.len() == 0
    }

    /// Takes from a rule what the request leaves out.
    pub fn fill(&mut self, d: MatchConfigDefaults)
        ensures
            final(self).dict_code == old(self).dict_code,
            final(self).record_id == old(self).record_id,
            final(self).display_fields == old(self).display_fields,
            final(self).target_table@ == text_else(old(self).target_table@, d.target_table@),
            final(self).specs@ == list_else(old(self).specs@, d.specs@),
            final(self).cluster_keys@ == list_else(old(self).cluster_keys@, d.cluster_keys@),
            final(self).survive_fields@ == list_else(
                old(self).survive_fields@,
                d.survive_fields@,
            ),
    {
        fill_text(&mut self.target_table, d.target_table);
        fill_list(&mut self.specs, d.specs);
        fill_list(&mut self.cluster_keys, d.cluster_keys);
        fill_list(&mut self.survive_fields, d.survive_fields);
    }
}

/// A request whether a record with these values is there already.
#[derive(Debug)]
pub struct CheckKeyBody {
    pub dict_code: String,
    pub target_table: String,
    pub key_value: Object,
    pub specs: Vec<SpecDto>,
    pub cluster_keys: Vec<String>,
}

impl CheckKeyBody {
    /// Whether a rule is asked for what the request leaves out.
    pub fn lacks_defaults(&self) -> (r: bool)
        ensures
            r == (self.target_table@.len() == 0 || self.specs@.len() == 0
                || self.cluster_keys@.len() == 0),
    {
        self.target_table.as_str().is_empty() || self.specs.len() == 0 || self.cluster_keys.len()
            == 0
    }

    /// Takes from a rule what the request leaves out.
    pub fn fill(&mut self, d: MatchConfigDefaults)
        ensures
            final(self).dict_code == old(self).dict_code,
            final(self).key_value == old(self).key_value,
            final(self).target_table@ == text_else(old(self).target_table@, d.target_table@),
            final(self).specs@ == list_else(old(self).specs@, d.specs@),
            final(self).cluster_keys@ == list_else(old(self).cluster_keys@, d.cluster_keys@),
    {
        fill_text(&mut self.target_table, d.target_table);
        fill_list(&mut self.specs, d.specs);
        fill_list(&mut self.cluster_keys, d.cluster_keys);
    }
}

/// The comparisons of a search, or what it lacks.
pub open spec fn checked_search(
    specs: Seq<SpecDtoV>,
    table: Seq<char>,
    keys: Seq<Seq<char>>,
) -> Result<Seq<FieldSpecV>, Seq<char>> {
    match match_specs(specs) {
        Err(e) => Err(e),
        Ok(s) => if s.len() == 0 {
            Err("查重字段（specs）不能为空（body 未传且 match_config 无配置）"@)
        } else if table.len() == 0 {
            Err("target_table 不能为空（body 未传且 match_config 无配置）"@)
        } else if keys.len() == 0 {
            Err("cluster_keys 不能为空（body 未传且 match_config 无配置）"@)
        } else {
            Ok(s)
        },
    }
}

/// The comparisons of a search, or what it lacks.
pub fn check_search(specs: &Vec<SpecDto>, table: &str, keys: &Vec<String>) -> (r: Result<
    Vec<MatchFieldSpec>,
    String,
>)
    ensures
        match r {
            Ok(s) => checked_search(dtos_view(specs@), table@, texts(keys@)) == Ok::<
                Seq<FieldSpecV>,
                Seq<char>,
            >(specs_view(s@)),
            Err(e) => checked_search(dtos_view(specs@), table@, texts(keys@)) == Err::<
                Seq<FieldSpecV>,
                Seq<char>,
            >(e@),
        },
{
    let s = match to_match_specs(specs) {
        Ok(s) => s,
        Err(e) => {
            return Err(e);
        },
    };
    if s.len() == 0 {
        return Err(
            "查重字段（specs）不能为空（body 未传且 match_config 无配置）".to_owned(),
        );
    }
    if table.is_empty() {
        return Err(
            "target_table 不能为空（body 未传且 match_config 无配置）".to_owned(),
        );
    }
    if keys.len() == 0 {
        return Err(
            "cluster_keys 不能为空（body 未传且 match_config 无配置）".to_owned(),
        );
    }
    Ok(s)
}

/// The fields that are compared.
pub open spec fn compared(specs: Seq<SpecDtoV>) -> Seq<Seq<char>> {
    Seq::new(specs.len(), |i: int| specs[i].field)
}

/// The columns that are read: all that are wanted, in order, each once.
pub open spec fn columns_for(r: Seq<Seq<char>>, wanted: Seq<Seq<char>>) -> bool {
    &&& texts_ascend(r)
    &&& forall|k: Seq<char>| #[trigger] r.contains(k) <==> wanted.contains(k)
}

pub(crate) fn push_fields(out: &mut Vec<String>, specs: &Vec<SpecDto>)
    ensures
        texts(final(out)@) == texts(old(out)@) + compared(dtos_view(specs@)),
{
    let ghost before = texts(out@);
    let ghost add = compared(dtos_view(specs@));
    let mut i: usize = 0;
    assert(texts(out@) =~= before + add.take(0));
    while i < specs.len()
        invariant
            i <= specs@.len(),
            add == compared(dtos_view(specs@)),
            texts(out@) == before + add.take(i as int),
        decreases specs@.len() - i,
    {
        let ghost now = out@;
        out.push(specs[i].field.clone());
        assert(texts(out@) =~= texts(now).push(add[i as int]));
        assert(texts(out@) =~= before + add.take(i + 1));
        i += 1;
    }
    assert(add.take(add.len() as int) =~= add);
}

pub(crate) fn push_all(out: &mut Vec<String>, more: &Vec<String>)
    ensures
        texts(final(out)@) == texts(old(out)@) + texts(more@),
{
    let ghost before = texts(out@);
    let ghost add = texts(more@);
    let mut i: usize = 0;
    assert(texts(out@) =~= before + add.take(0));
    while i < more.len()
        invariant
            i <= more@.len(),
            add == texts(more@),
            texts(out@) == before + add.take(i as int),
        decreases more@.len() - i,
    {
        let ghost now = out@;
        out.push(more[i].clone());
        assert(texts(out@) =~= texts(now).push(add[i as int]));
        assert(texts(out@) =~= before + add.take(i + 1));
        i += 1;
    }
    assert(add.take(add.len() as int) =~= add);
}

/// What a search reads and compares.
#[derive(Debug)]
pub struct SearchPlan {
    pub specs: Vec<MatchFieldSpec>,
    pub columns: Vec<String>,
}

/// What a search for the duplicates of a record reads: what it compares, what brings records
/// together, what it keeps and what it shows.
pub fn plan_find_duplicates(body: &FindDupBody) -> (r: Result<SearchPlan, String>)
    ensures
        match r {
            Ok(p) => checked_search(
                dtos_view(body.specs@),
                body.target_table@,
                texts(body.cluster_keys@),
            ) == Ok::<Seq<FieldSpecV>, Seq<char>>(specs_view(p.specs@)) && columns_for(
                texts(p.columns@),
                seq!["id"@, "update_time"@] + compared(dtos_view(body.specs@)) + texts(
                    body.cluster_keys@,
                ) + texts(body.survive_fields@) + texts(body.display_fields@),
            ),
            Err(e) => checked_search(
                dtos_view(body.specs@),
                body.target_table@,
                texts(body.cluster_keys@),
            ) == Err::<Seq<FieldSpecV>, Seq<char>>(e@),
        },
{
    let specs = match check_search(&body.specs, body.target_table.as_str(), &body.cluster_keys) {
        Ok(s) => s,
        Err(e) => {
            return Err(e);
        },
    };
    let mut wanted: Vec<String> = Vec::new();
    wanted.push("id".to_owned());
    wanted.push("update_time".to_owned());
    assert(texts(wanted@) =~= seq!["id"@, "update_time"@]);
    push_fields(&mut wanted, &body.specs);
    push_all(&mut wanted, &body.cluster_keys);
    push_all(&mut wanted, &body.survive_fields);
    push_all(&mut wanted, &body.display_fields);
    let columns = sorted_texts(&wanted);
    Ok(SearchPlan { specs, columns })
}

/// What a search for a record with given values reads: what it compares, what brings records
/// together, and what a record is called.
pub fn plan_check_key(body: &CheckKeyBody) -> (r: Result<SearchPlan, String>)
    ensures
        match r {
            Ok(p) => checked_search(
                dtos_view(body.specs@),
                body.target_table@,
                texts(body.cluster_keys@),
            ) == Ok::<Seq<FieldSpecV>, Seq<char>>(specs_view(p.specs@)) && columns_for(
                texts(p.columns@),
                seq!["id"@, "code"@, "name"@, "update_time"@] + compared(dtos_view(body.specs@))
                    + texts(body.cluster_keys@),
            ),
            Err(e) => checked_search(
                dtos_view(body.specs@),
                body.target_table@,
                texts(body.cluster_keys@),
            ) == Err::<Seq<FieldSpecV>, Seq<char>>(e@),
        },
{
    let specs = match check_search(&body.specs, body.target_table.as_str(), &body.cluster_keys) {
        Ok(s) => s,
        Err(e) => {
            return Err(e);
        },
    };
    let mut wanted: Vec<String> = Vec::new();
    wanted.push("id".to_owned());
    wanted.push("code".to_owned());
    wanted.push("name".to_owned());
    wanted.push("update_time".to_owned());
    assert(texts(wanted@) =~= seq!["id"@, "code"@, "name"@, "update_time"@]);
    push_fields(&mut wanted, &body.specs);
    push_all(&mut wanted, &body.cluster_keys);
    let columns = sorted_texts(&wanted);
    Ok(SearchPlan { specs, columns })
}

/// The first record of an id.
pub open spec fn first_record(rs: Seq<RecordV>, id: i64) -> Option<RecordV>
    decreases rs.len(),
{
    if rs.len() == 0 {
        None
    } else if rs[0].id == id {
        Some(rs[0])
    } else {
        first_record(rs.drop_first(), id)
    }
}

/// The first record of an id.
pub fn find_record(rs: &[MatchRecord], id: i64) -> (r: Option<&MatchRecord>)
    ensures
        match r {
            Some(m) => first_record(records_view(rs@), id) == Some(m@),
            None => first_record(records_view(rs@), id) is None,
        },
{
    let ghost all = records_view(rs@);
    let mut i: usize = 0;
    assert(all.skip(0) =~= all);
    while i < rs.len()
        invariant
            i <= rs@.len(),
            all == records_view(rs@),
            first_record(all, id) == first_record(all.skip(i as int), id),
        decreases rs@.len() - i,
    {
        assert(all.skip(i as int)[0] == rs@[i as int]@);
        assert(all.skip(i as int).drop_first() =~= all.skip(i + 1));
        if rs[i].id == id {
            return Some(&rs[i]);
        }
        i += 1;
    }
    None
}

/// The name of a decision.
pub open spec fn decision_name(d: Decision) -> Seq<char> {
    match d {
        Decision::AutoMerge => "AutoMerge"@,
        Decision::Review => "Review"@,
        Decision::NoMatch => "NoMatch"@,
    }
}

fn decision_text(d: Decision) -> (r: &'static str)
    ensures
        r@ == decision_name(d),
{
    match d {
        Decision::AutoMerge => "AutoMerge",
        Decision::Review => "Review",
        Decision::NoMatch => "NoMatch",
    }
}

/// A candidate as it is shown, with the values of its record.
pub open spec fn candidate_value(c: MatchCandidate, all: Seq<RecordV>) -> JsonV {
    JsonV::Obj(
        obj_put(
            obj_put(
                obj_put(
                    obj_put(Seq::empty(), "recordId"@, JsonV::Num(number_of(c.record_id))),
                    "score"@,
                    JsonV::Num(number_of(c.score as i64)),
                ),
                "decision"@,
                JsonV::Str(decision_name(c.decision)),
            ),
            "fields"@,
            JsonV::Obj(
                match first_record(all, c.record_id) {
                    Some(m) => m.fields,
                    None => Seq::empty(),
                },
            ),
        ),
    )
}

fn show_candidate(c: &MatchCandidate, all: &[MatchRecord]) -> (r: Json)
    ensures
        r@ == candidate_value(*c, records_view(all@)),
{
    let fields: Object = match find_record(all, c.record_id) {
        Some(m) => m.fields.clone(),
        None => Object::new(),
    };
    let o = put(Object::new(), "recordId", Json::integer(c.record_id));
    let o = put(o, "score", Json::integer(c.score as i64));
    let o = put(o, "decision", Json::string(decision_text(c.decision)));
    Json::Obj(put(o, "fields", Json::Obj(fields)))
}

/// The thresholds of the decisions.
pub open spec fn thresholds() -> JsonV {
    JsonV::Obj(
        obj_put(
            obj_put(Seq::empty(), "auto_merge"@, JsonV::Num(number_of(95))),
            "review"@,
            JsonV::Num(number_of(80)),
        ),
    )
}

/// The duplicates of a record among those read.
pub open spec fn duplicates_of(
    all: Seq<RecordV>,
    record_id: i64,
    specs: Seq<FieldSpecV>,
    keys: Seq<Seq<char>>,
) -> Result<JsonV, Seq<char>> {
    match first_record(all, record_id) {
        None => Err("记录 "@ + dec_int(record_id as int) + " 不存在或非 published"@),
        Some(t) => {
            let found = candidates(t, all, specs, keys);
            Ok(
                JsonV::Obj(
                    obj_put(
                        obj_put(
                            obj_put(
                                obj_put(Seq::empty(), "targetId"@, JsonV::Num(number_of(t.id))),
                                "targetFields"@,
                                JsonV::Obj(t.fields),
                            ),
                            "candidates"@,
                            JsonV::Arr(
                                Seq::new(found.len(), |i: int| candidate_value(found[i], all)),
                            ),
                        ),
                        "thresholds"@,
                        thresholds(),
                    ),
                ),
            )
        },
    }
}

/// Answers a request for the duplicates of a record.
pub fn mdm_find_duplicates(
    all: &[MatchRecord],
    record_id: i64,
    specs: &[MatchFieldSpec],
    cluster_keys: &[&str],
) -> (r: Result<Json, String>)
    ensures
        match r {
            Ok(v) => duplicates_of(
                records_view(all@),
                record_id,
                specs_view(specs@),
                keys_view(cluster_keys@),
            ) == Ok::<JsonV, Seq<char>>(v@),
            Err(e) => duplicates_of(
                records_view(all@),
                record_id,
                specs_view(specs@),
                keys_view(cluster_keys@),
            ) == Err::<JsonV, Seq<char>>(e@),
        },
{
    let target = match find_record(all, record_id) {
        Some(t) => t,
        None => {
            return Err(about_id("记录 ", record_id, " 不存在或非 published"));
        },
    };
    let found = find_candidates(target, all, specs, cluster_keys);
    let ghost rv = records_view(all@);
    let mut list: Vec<Json> = Vec::new();
    let mut i: usize = 0;
    while i < found.len()
        invariant
            i <= found@.len(),
            rv == records_view(all@),
            list@.len() == i,
            forall|j: int| 0 <= j < i ==> (#[trigger] list@[j])@ == candidate_value(found@[j], rv),
        decreases found@.len() - i,
    {
        list.push(show_candidate(&found[i], all));
        i += 1;
    }
    assert(values_view(list@) =~= Seq::new(
        found@.len(),
        |i: int| candidate_value(found@[i], rv),
    ));
    let limits = put(
        put(Object::new(), "auto_merge", Json::integer(95)),
        "review",
        Json::integer(80),
    );
    let o = put(Object::new(), "targetId", Json::integer(target.id));
    let o = put(o, "targetFields", Json::Obj(target.fields.clone()));
    let o = put(o, "candidates", array(list));
    Ok(Json::Obj(put(o, "thresholds", Json::Obj(limits))))
}

/// How a record is called: by code and name, as far as it has them, else by its id.
pub open spec fn called(code: Seq<char>, name: Seq<char>, id: i64) -> Seq<char> {
    if code.len() > 0 && name.len() > 0 {
        code + "（"@ + name + "）"@
    } else if code.len() > 0 {
        code
    } else if name.len() > 0 {
        name
    } else {
        "id="@ + dec_int(id as int)
    }
}

fn call_record(code: &str, name: &str, id: i64) -> (r: String)
    ensures
        r@ == called(code@, name@, id),
{
    if !code.is_empty() && !name.is_empty() {
        let mut s: String = code.to_owned();
        s.append("（");
        s.append(name);
        s.append("）");
        s
    } else if !code.is_empty() {
        code.to_owned()
    } else if !name.is_empty() {
        name.to_owned()
    } else {
        let mut s: String = "id=".to_owned();
        s.append(decimal_int(id).as_str());
        s
    }
}

/// A text of a record that was found; empty where it has none.
pub open spec fn record_text(rec: Option<RecordV>, k: Seq<char>) -> Seq<char> {
    match rec {
        Some(m) => text_at(JsonV::Obj(m.fields), k),
        None => Seq::empty(),
    }
}

fn text_of(rec: Option<&MatchRecord>, k: &str) -> (r: String)
    ensures
        r@ == record_text(
            match rec {
                Some(m) => Some(m@),
                None => None,
            },
            k@,
        ),
{
    match rec {
        Some(m) => match m.fields.get(k) {
            Some(Json::Str(s)) => s.clone(),
            _ => String::new(),
        },
        None => String::new(),
    }
}

/// Whether a record with these values is there: the best candidate stands in the way.
pub open spec fn key_answer(
    all: Seq<RecordV>,
    key_value: ObjV,
    specs: Seq<FieldSpecV>,
    keys: Seq<Seq<char>>,
) -> JsonV {
    let found = candidates(RecordV { id: 0, fields: key_value }, all, specs, keys);
    if found.len() == 0 {
        JsonV::Obj(obj_put(Seq::empty(), "exists"@, JsonV::Bool(false)))
    } else {
        let id = found[0].record_id;
        let rec = first_record(all, id);
        JsonV::Obj(
            obj_put(
                obj_put(
                    obj_put(
                        obj_put(Seq::empty(), "exists"@, JsonV::Bool(true)),
                        "id"@,
                        JsonV::Num(number_of(id)),
                    ),
                    "code"@,
                    JsonV::Str(record_text(rec, "code"@)),
                ),
                "message"@,
                JsonV::Str(
                    "已存在相同记录："@ + called(
                        record_text(rec, "code"@),
                        record_text(rec, "name"@),
                        id,
                    ),
                ),
            ),
        )
    }
}

/// Answers whether a record with these values is there.
pub fn mdm_check_key(
    all: &[MatchRecord],
    key_value: Object,
    specs: &[MatchFieldSpec],
    cluster_keys: &[&str],
) -> (r: Json)
    ensures
        r@ == key_answer(
            records_view(all@),
            key_value@,
            specs_view(specs@),
            keys_view(cluster_keys@),
        ),
{
    let target = MatchRecord { id: 0, fields: key_value };
    let found = find_candidates(&target, all, specs, cluster_keys);
    if found.len() == 0 {
        return Json::Obj(put(Object::new(), "exists", Json::Bool(false)));
    }
    let id: i64 = found[0].record_id;
    let rec = find_record(all, id);
    let code = text_of(rec, "code");
    let name = text_of(rec, "name");
    let mut message: String = "已存在相同记录：".to_owned();
    message.append(call_record(code.as_str(), name.as_str(), id).as_str());
    let o = put(Object::new(), "exists", Json::Bool(true));
    let o = put(o, "id", Json::integer(id));
    let o = put(o, "code", Json::Str(code));
    Json::Obj(put(o, "message", Json::Str(message)))
}

/// A record that is published with nearly the same values stands in the way: where it shares the
/// bucket of the values and scores at least 80, the answer is that there is one.
pub proof fn law_key_check_blocks(
    all: Seq<RecordV>,
    key_value: ObjV,
    specs: Seq<FieldSpecV>,
    keys: Seq<Seq<char>>,
    k: Seq<char>,
    r: RecordV,
)
    requires
        all.contains(r),
        r.id != 0,
        bucket_key(key_value, keys) == Some(k),
        bucket_key(r.fields, keys) == Some(k),
        bucket_members(seq![RecordV { id: 0, fields: key_value }] + all, keys, k).len()
            <= BLOCK_CAP,
        similarity(key_value, r.fields, specs) >= 80,
    ensures
        json_get(key_answer(all, key_value, specs, keys), "exists"@) == Some(JsonV::Bool(true)),
{
    let target = RecordV { id: 0, fields: key_value };
    law_duplicates_are_found(target, all, specs, keys, k, r);
    let found = candidates(target, all, specs, keys);
    let n = choose|n: int| 0 <= n < found.len() && found[n] == as_candidate(target, r, specs);
    reveal_strlit("exists");
    reveal_strlit("id");
    reveal_strlit("code");
    reveal_strlit("message");
    assert("exists"@.len() == 6 && "id"@.len() == 2 && "code"@.len() == 4 && "message"@.len() == 7);
    let id = found[0].record_id;
    let rec = first_record(all, id);
    let a = obj_put(Seq::empty(), "exists"@, JsonV::Bool(true));
    let b = obj_put(a, "id"@, JsonV::Num(number_of(id)));
    let c = obj_put(b, "code"@, JsonV::Str(record_text(rec, "code"@)));
    law_get_after_put(Seq::empty(), "exists"@, JsonV::Bool(true), "exists"@);
    law_get_after_put(a, "id"@, JsonV::Num(number_of(id)), "exists"@);
    law_get_after_put(b, "code"@, JsonV::Str(record_text(rec, "code"@)), "exists"@);
    let message = JsonV::Str(
        "已存在相同记录："@ + called(
            record_text(rec, "code"@),
            record_text(rec, "name"@),
            id,
        ),
    );
    law_get_after_put(c, "message"@, message, "exists"@);
}

} // verus!
