//! Requests to merge records, and to undo that.

use crate::distribution::transform::{int_at, int_member, text_at, text_member};
use crate::handlers::dedup::{fill_list, fill_text, list_else, text_else, MatchConfigDefaults};
use crate::handlers::put;
use crate::handlers::scan::{fields_of, record_values};
use crate::json::{
    array, json_get, json_str, number_of, obj_put, values_view, Json, JsonV, Number, NumberV, ObjV,
    Object,
};
use crate::match_algo::{keys_view, opt_text, MatchRecord, RecordV};
use crate::merge_parts::{about_id, ids_json, ids_value, MergeStats};
use crate::outside::{debug_str, debug_text, json_parse, json_text, parse_value};
use crate::sql::{opt_int_v, params_view, SqlV, Statement};
use crate::store::dct_accessor::has_text;
use crate::store::dispatch_store::integers;
use crate::store::jsonb::{parse_jsonb_field, parsed_field};
use crate::store::match_group::{
    insert_match_group, list_match_groups, merge_filter, transition_match_group, update_match_group, NewMatchGroup,
};
use crate::store::query::{opt_str, page_offset, page_query, PageQuery, PageQueryV};
use crate::survivorship::{rules_view, SurvivorRule};
use crate::text::{dec_int, decimal_int, same_text, texts, trim, trimmed};
use vstd::prelude::*;

verus! {

/// A request for a page of merge requests.
#[derive(Debug)]
pub struct MergeListQuery {
    pub dict_code: Option<String>,
    pub status: Option<String>,
    /// Requests that wait are left out unless this is `0`, `false` or `False`.
    pub exclude_pending: Option<String>,
    pub page: i64,
    pub page_size: i64,
    /// A part of the name of a record.
    pub kw: Option<String>,
}

/// A request to merge records.
#[derive(Debug)]
pub struct MergeBody {
    pub dict_code: String,
    pub master_id: i64,
    pub victim_ids: Vec<i64>,
    /// The merge request that is carried out; a new one unless set.
    pub merge_id: Option<i64>,
    pub target_table: String,
    pub survive_fields: Vec<String>,
    /// For each field `master`, `fullest` or `latest`.
    pub survivorship: Option<Object>,
    /// Values that a person decided on.
    pub overrides: Option<Object>,
    /// The finding that is resolved by this.
    pub scan_id: Option<i64>,
}

/// A request for, or to undo, a merge.
#[derive(Debug)]
pub struct UndoBody {
    pub merge_id: i64,
}

/// A request to reject a merge.
#[derive(Debug)]
pub struct RejectMergeBody {
    pub merge_id: i64,
    pub reason: Option<String>,
}

/// Whether requests that wait are left out.
pub open spec fn leaves_out_pending(asked: Option<Seq<char>>) -> bool {
    !(asked == Some("0"@) || asked == Some("false"@) || asked == Some("False"@))
}

/// Whether requests that wait are left out of a list.
pub fn excludes_pending(asked: Option<&str>) -> (r: bool)
    ensures
        r == leaves_out_pending(opt_str(asked)),
{
    match asked {
        Some(s) => !(same_text(s, "0") || same_text(s, "false") || same_text(s, "False")),
        None => true,
    }
}

/// The part of a name that is searched for: only within one dictionary.
pub open spec fn searched_name(kw: Option<Seq<char>>, dict: Option<Seq<char>>) -> Option<
    Seq<char>,
> {
    match (kw, dict) {
        (Some(k), Some(_)) => if trimmed(k).len() > 0 {
            Some(trimmed(k))
        } else {
            None
        },
        _ => None,
    }
}

/// The part of a name that is searched for.
pub fn name_search(kw: Option<&str>, dict_code: Option<&str>) -> (r: Option<String>)
    ensures
        match r {
            Some(s) => searched_name(opt_str(kw), opt_str(dict_code)) == Some(s@),
            None => searched_name(opt_str(kw), opt_str(dict_code)) is None,
        },
{
    match (kw, dict_code) {
        (Some(k), Some(_)) => {
            let t = trim(k);
            if t.as_str().is_empty() {
                None
            } else {
                Some(t)
            }
        },
        _ => None,
    }
}

/// A page as it is answered.
pub open spec fn page_value(list: Seq<JsonV>, total: i64, page: i64, page_size: i64) -> JsonV {
    JsonV::Obj(
        obj_put(
            obj_put(
                obj_put(
                    obj_put(Seq::empty(), "list"@, JsonV::Arr(list)),
                    "total"@,
                    JsonV::Num(number_of(total)),
                ),
                "page"@,
                JsonV::Num(number_of(page)),
            ),
            "pageSize"@,
            JsonV::Num(number_of(page_size)),
        ),
    )
}

/// Answers with a page.
pub fn page_answer(list: Vec<Json>, total: i64, page: i64, page_size: i64) -> (r: Json)
    ensures
        r@ == page_value(values_view(list@), total, page, page_size),
{
    let o = put(Object::new(), "list", array(list));
    let o = put(o, "total", Json::integer(total));
    let o = put(o, "page", Json::integer(page));
    Json::Obj(put(o, "pageSize", Json::integer(page_size)))
}

/// How a page of merge requests is found: by a query, or it is known to be empty.
#[derive(Debug)]
pub enum MergeListPlan {
    Query(PageQuery),
    Empty(Json),
}

/// The states that are left out of a list.
pub open spec fn left_out(asked: Option<Seq<char>>) -> Seq<Seq<char>> {
    if leaves_out_pending(asked) {
        seq!["pending"@]
    } else {
        Seq::empty()
    }
}

/// How a page of merge requests is found, given the records of the name that was searched for: no
/// such record, no request.
pub fn mdm_merge_requests_list(q: &MergeListQuery, hits: Option<&Vec<i64>>) -> (r: MergeListPlan)
    requires
        hits matches Some(h) ==> 2 * h@.len() + 8 <= usize::MAX,
        page_offset(q.page, q.page_size) <= i64::MAX,
    ensures
        match hits {
            Some(h) => if h@.len() == 0 {
                r matches MergeListPlan::Empty(v) && v@ == page_value(
                    Seq::empty(),
                    0,
                    q.page,
                    q.page_size,
                )
            } else {
                r matches MergeListPlan::Query(p) && p@ == merge_page(*q, h@)
            },
            None => r matches MergeListPlan::Query(p) && p@ == merge_page(*q, Seq::empty()),
        },
{
    let none: Vec<i64> = Vec::new();
    let ids: &Vec<i64> = match hits {
        Some(h) => {
            if h.len() == 0 {
                let list: Vec<Json> = Vec::new();
                assert(values_view(list@) =~= Seq::<JsonV>::empty());
                return MergeListPlan::Empty(page_answer(list, 0, q.page, q.page_size));
            }
            h
        },
        None => &none,
    };
    assert(hits is None ==> ids@ =~= Seq::<i64>::empty());
    let asked: Option<&str> = match &q.exclude_pending {
        Some(s) => Some(s.as_str()),
        None => None,
    };
    let dict: Option<&str> = match &q.dict_code {
        Some(s) => Some(s.as_str()),
        None => None,
    };
    let status: Option<&str> = match &q.status {
        Some(s) => Some(s.as_str()),
        None => None,
    };
    let mut excluded: Vec<&str> = Vec::new();
    if excludes_pending(asked) {
        excluded.push("pending");
    }
    assert(keys_view(excluded@) =~= left_out(opt_text(q.exclude_pending)));
    MergeListPlan::Query(
        list_match_groups(
            dict,
            status,
            excluded.as_slice(),
            ids.as_slice(),
            q.page,
            q.page_size,
        ),
    )
}

/// A page of merge requests.
pub open spec fn merge_page(q: MergeListQuery, ids: Seq<i64>) -> PageQueryV {
    page_query(
        "md_merge_record"@,
        "id, dict_code, group_key, member_ids, master_id, score, decision, status, created_at"@,
        "md_merge_record"@,
        "created_at DESC, id DESC"@,
        merge_filter(
            opt_text(q.dict_code),
            opt_text(q.status),
            left_out(opt_text(q.exclude_pending)),
            ids,
        ),
        q.page,
        q.page_size,
    )
}

/// The members of a merge request, which may stand there as JSON text.
pub open spec fn members_value(g: JsonV) -> JsonV {
    match json_get(g, "member_ids"@) {
        Some(JsonV::Str(s)) => match json_parse(s) {
            Some(v) => v,
            None => JsonV::Null,
        },
        Some(v) => v,
        None => JsonV::Null,
    }
}

/// The ids that a value lists.
pub open spec fn value_ids(v: JsonV) -> Seq<i64> {
    match v {
        JsonV::Arr(a) => integers(a),
        _ => Seq::empty(),
    }
}

/// The ids of the members of a merge request.
pub open spec fn group_members(g: JsonV) -> Seq<i64> {
    value_ids(members_value(g))
}

/// The ids that a value lists.
pub fn ids_in(v: &Json) -> (r: Vec<i64>)
    ensures
        r@ == value_ids(v@),
{
    let mut r: Vec<i64> = Vec::new();
    if let Some(a) = v.as_array() {
        let ghost all = values_view(a@);
        let mut i: usize = 0;
        assert(all.take(0) =~= Seq::<JsonV>::empty());
        while i < a.len()
            invariant
                i <= a@.len(),
                all == values_view(a@),
                r@ == integers(all.take(i as int)),
            decreases a@.len() - i,
        {
            assert(all.take(i + 1).drop_last() =~= all.take(i as int));
            assert(all.take(i + 1).last() == a@[i as int]@);
            if let Some(n) = a[i].as_i64() {
                r.push(n);
            }
            i += 1;
        }
        assert(all.take(all.len() as int) =~= all);
    }
    r
}

/// The ids of the members of a merge request.
pub fn member_list(g: &Json) -> (r: Vec<i64>)
    ensures
        r@ == group_members(g@),
{
    match g.get("member_ids") {
        Some(v) => match v {
            Json::Str(s) => match parse_value(s.as_str()) {
                Some(p) => ids_in(&p),
                None => Vec::new(),
            },
            _ => ids_in(v),
        },
        None => Vec::new(),
    }
}

/// The records that are named for one dictionary: masters and members, in order.
pub open spec fn wanted_ids(groups: Seq<JsonV>, dict: Seq<char>) -> Seq<i64>
    decreases groups.len(),
{
    if groups.len() == 0 {
        Seq::empty()
    } else {
        let r = wanted_ids(groups.drop_last(), dict);
        let g = groups.last();
        if text_at(g, "dict_code"@) == dict {
            let m = int_at(g, "master_id"@);
            (if m > 0 {
                r.push(m)
            } else {
                r
            }) + group_members(g)
        } else {
            r
        }
    }
}

/// The dictionaries of some merge requests, each once, in the order in which they first occur.
pub open spec fn wanted_dicts(groups: Seq<JsonV>) -> Seq<Seq<char>>
    decreases groups.len(),
{
    if groups.len() == 0 {
        Seq::empty()
    } else {
        let r = wanted_dicts(groups.drop_last());
        let d = text_at(groups.last(), "dict_code"@);
        if d.len() == 0 || r.contains(d) {
            r
        } else {
            r.push(d)
        }
    }
}

/// The dictionaries of some merge requests.
pub fn dicts_of_groups(groups: &Vec<Json>) -> (r: Vec<String>)
    ensures
        texts(r@) == wanted_dicts(values_view(groups@)),
{
    let ghost all = values_view(groups@);
    let mut out: Vec<String> = Vec::new();
    let mut i: usize = 0;
    assert(all.take(0) =~= Seq::<JsonV>::empty());
    assert(texts(out@) =~= Seq::<Seq<char>>::empty());
    while i < groups.len()
        invariant
            i <= groups@.len(),
            all == values_view(groups@),
            texts(out@) == wanted_dicts(all.take(i as int)),
        decreases groups@.len() - i,
    {
        let ghost before = out@;
        assert(all.take(i + 1).drop_last() =~= all.take(i as int));
        assert(all.take(i + 1).last() == groups@[i as int]@);
        let d = text_member(&groups[i], "dict_code");
        if !d.as_str().is_empty() && !has_text(&out, d.as_str()) {
            let ghost dv = d@;
            out.push(d);
            assert(texts(out@) =~= texts(before).push(dv));
        }
        i += 1;
    }
    assert(all.take(all.len() as int) =~= all);
    out
}

/// The records that are named for one dictionary.
pub fn ids_of_dict(groups: &Vec<Json>, dict: &str) -> (r: Vec<i64>)
    ensures
        r@ == wanted_ids(values_view(groups@), dict@),
{
    let ghost all = values_view(groups@);
    let mut out: Vec<i64> = Vec::new();
    let mut i: usize = 0;
    assert(all.take(0) =~= Seq::<JsonV>::empty());
    while i < groups.len()
        invariant
            i <= groups@.len(),
            all == values_view(groups@),
            out@ == wanted_ids(all.take(i as int), dict@),
        decreases groups@.len() - i,
    {
        assert(all.take(i + 1).drop_last() =~= all.take(i as int));
        assert(all.take(i + 1).last() == groups@[i as int]@);
        let d = text_member(&groups[i], "dict_code");
        if same_text(d.as_str(), dict) {
            let m: i64 = int_member(&groups[i], "master_id");
            if m > 0 {
                out.push(m);
            }
            let ghost head = out@;
            let mut more = member_list(&groups[i]);
            let ghost tail = more@;
            out.append(&mut more);
            assert(out@ =~= head + tail);
        }
        i += 1;
    }
    assert(all.take(all.len() as int) =~= all);
    out
}

/// How a record of a dictionary is called.
#[derive(Debug)]
pub struct NameEntry {
    pub dict_code: String,
    pub id: i64,
    pub name: String,
    pub code: String,
}

/// What an entry stands for.
#[verifier::ext_equal]
pub struct NameV {
    pub dict_code: Seq<char>,
    pub id: i64,
    pub name: Seq<char>,
    pub code: Seq<char>,
}

impl NameEntry {
    pub open spec fn view(&self) -> NameV {
        NameV {
            dict_code: self.dict_code@,
            id: self.id,
            name: self.name@,
            code: self.code@,
        }
    }
}

/// The views of a list of entries.
pub open spec fn names_view(n: Seq<NameEntry>) -> Seq<NameV> {
    Seq::new(n.len(), |i: int| n[i]@)
}

/// The entry of a record of a dictionary.
pub open spec fn name_of(dict: Seq<char>, r: RecordV) -> NameV {
    NameV {
        dict_code: dict,
        id: r.id,
        name: text_at(JsonV::Obj(r.fields), "name"@),
        code: text_at(JsonV::Obj(r.fields), "code"@),
    }
}

fn field_text(o: &Object, k: &str) -> (r: String)
    ensures
        r@ == text_at(JsonV::Obj(o@), k@),
{
    match o.get(k) {
        Some(Json::Str(s)) => s.clone(),
        _ => String::new(),
    }
}

/// Adds the names of the records of a dictionary.
pub fn push_names(names: &mut Vec<NameEntry>, dict: &str, rows: &Vec<MatchRecord>)
    ensures
        names_view(final(names)@) == names_view(old(names)@) + Seq::new(
            rows@.len(),
            |i: int| name_of(dict@, rows@[i]@),
        ),
{
    let ghost before = names_view(names@);
    let ghost add = Seq::new(rows@.len(), |i: int| name_of(dict@, rows@[i]@));
    let mut i: usize = 0;
    assert(names_view(names@) =~= before + add.take(0));
    while i < rows.len()
        invariant
            i <= rows@.len(),
            add == Seq::new(rows@.len(), |i: int| name_of(dict@, rows@[i]@)),
            names_view(names@) == before + add.take(i as int),
        decreases rows@.len() - i,
    {
        let ghost now = names@;
        names.push(
            NameEntry {
                dict_code: dict.to_owned(),
                id: rows[i].id,
                name: field_text(&rows[i].fields, "name"),
                code: field_text(&rows[i].fields, "code"),
            },
        );
        assert(names_view(names@) =~= names_view(now).push(add[i as int]));
        assert(names_view(names@) =~= before + add.take(i + 1));
        i += 1;
    }
    assert(add.take(add.len() as int) =~= add);
}

/// The last entry of a record.
pub open spec fn find_name(names: Seq<NameV>, dict: Seq<char>, id: i64) -> Option<NameV>
    decreases names.len(),
{
    if names.len() == 0 {
        None
    } else if names.last().dict_code == dict && names.last().id == id {
        Some(names.last())
    } else {
        find_name(names.drop_last(), dict, id)
    }
}

fn lookup_name<'a>(names: &'a Vec<NameEntry>, dict: &str, id: i64) -> (r: Option<&'a NameEntry>)
    ensures
        match r {
            Some(n) => find_name(names_view(names@), dict@, id) == Some(n@),
            None => find_name(names_view(names@), dict@, id) is None,
        },
{
    let ghost all = names_view(names@);
    let mut n: usize = names.len();
    assert(all.take(n as int) =~= all);
    while n > 0
        invariant
            n <= names@.len(),
            all == names_view(names@),
            find_name(all, dict@, id) == find_name(all.take(n as int), dict@, id),
        decreases n,
    {
        assert(all.take(n as int).last() == names@[n - 1]@);
        assert(all.take(n as int).drop_last() =~= all.take(n - 1));
        if names[n - 1].id == id && same_text(names[n - 1].dict_code.as_str(), dict) {
            return Some(&names[n - 1]);
        }
        n -= 1;
    }
    None
}

/// A member as it is shown: its name and code, empty where they are not known.
pub open spec fn member_name(names: Seq<NameV>, dict: Seq<char>, id: i64) -> JsonV {
    let (n, c) = match find_name(names, dict, id) {
        Some(e) => (e.name, e.code),
        None => (Seq::empty(), Seq::empty()),
    };
    JsonV::Obj(
        obj_put(
            obj_put(
                obj_put(Seq::empty(), "id"@, JsonV::Num(number_of(id))),
                "name"@,
                JsonV::Str(n),
            ),
            "code"@,
            JsonV::Str(c),
        ),
    )
}

/// A merge request with the names of its master, where they are known, and of its members.
pub open spec fn named_group(g: ObjV, names: Seq<NameV>) -> ObjV {
    let v = JsonV::Obj(g);
    let dict = text_at(v, "dict_code"@);
    let base = match find_name(names, dict, int_at(v, "master_id"@)) {
        Some(e) => obj_put(
            obj_put(g, "masterName"@, JsonV::Str(e.name)),
            "masterCode"@,
            JsonV::Str(e.code),
        ),
        None => g,
    };
    let ids = group_members(v);
    obj_put(
        base,
        "memberNames"@,
        JsonV::Arr(Seq::new(ids.len(), |i: int| member_name(names, dict, ids[i]))),
    )
}

/// A row of a table; an empty one may be null.
pub open spec fn is_row(v: JsonV) -> bool {
    v is Obj || v is Null
}

/// Merge requests with the names of their records.
pub open spec fn named_groups(groups: Seq<JsonV>, names: Seq<NameV>) -> Seq<JsonV> {
    Seq::new(
        groups.len(),
        |i: int|
            match groups[i] {
                JsonV::Obj(g) => JsonV::Obj(named_group(g, names)),
                _ => JsonV::Obj(named_group(Seq::empty(), names)),
            },
    )
}

fn show_member(names: &Vec<NameEntry>, dict: &str, id: i64) -> (r: Json)
    ensures
        r@ == member_name(names_view(names@), dict@, id),
{
    let (n, c) = match lookup_name(names, dict, id) {
        Some(e) => (e.name.clone(), e.code.clone()),
        None => (String::new(), String::new()),
    };
    let o = put(Object::new(), "id", Json::integer(id));
    let o = put(o, "name", Json::Str(n));
    let r = Json::Obj(put(o, "code", Json::Str(c)));
    assert(n@ =~= (match find_name(names_view(names@), dict@, id) {
        Some(e) => e.name,
        None => Seq::empty(),
    }));
    assert(c@ =~= (match find_name(names_view(names@), dict@, id) {
        Some(e) => e.code,
        None => Seq::empty(),
    }));
    r
}

fn name_group(g: &Object, names: &Vec<NameEntry>) -> (r: Object)
    ensures
        r@ == named_group(g@, names_view(names@)),
{
    let ghost nv = names_view(names@);
    let v = Json::Obj(g.clone());
    let dict = text_member(&v, "dict_code");
    let master: i64 = int_member(&v, "master_id");
    let ids = member_list(&v);
    let base: Object = match lookup_name(names, dict.as_str(), master) {
        Some(e) => put(
            put(g.clone(), "masterName", Json::Str(e.name.clone())),
            "masterCode",
            Json::Str(e.code.clone()),
        ),
        None => g.clone(),
    };
    let mut list: Vec<Json> = Vec::new();
    let mut i: usize = 0;
    while i < ids.len()
        invariant
            i <= ids@.len(),
            nv == names_view(names@),
            list@.len() == i,
            forall|k: int| 0 <= k < i ==> (#[trigger] list@[k])@ == member_name(nv, dict@, ids@[k]),
        decreases ids@.len() - i,
    {
        list.push(show_member(names, dict.as_str(), ids[i]));
        i += 1;
    }
    assert(values_view(list@) =~= Seq::new(
        ids@.len(),
        |i: int| member_name(nv, dict@, ids@[i]),
    ));
    put(base, "memberNames", array(list))
}

/// Merge requests with the names of their records.
pub fn enrich_group_names(groups: &Vec<Json>, names: &Vec<NameEntry>) -> (r: Vec<Json>)
    requires
        forall|i: int| 0 <= i < groups@.len() ==> is_row((#[trigger] groups@[i])@),
    ensures
        values_view(r@) == named_groups(values_view(groups@), names_view(names@)),
{
    let ghost want = named_groups(values_view(groups@), names_view(names@));
    let mut out: Vec<Json> = Vec::new();
    let mut i: usize = 0;
    while i < groups.len()
        invariant
            i <= groups@.len(),
            want == named_groups(values_view(groups@), names_view(names@)),
            out@.len() == i,
            forall|k: int| 0 <= k < i ==> (#[trigger] out@[k])@ == want[k],
        decreases groups@.len() - i,
    {
        assert(values_view(groups@)[i as int] == groups@[i as int]@);
        match groups[i].as_object() {
            Some(g) => {
                out.push(Json::Obj(name_group(g, names)));
            },
            None => {
                out.push(Json::Obj(name_group(&Object::new(), names)));
            },
        }
        assert(out@[i as int]@ == want[i as int]);
        i += 1;
    }
    assert(values_view(out@) =~= want);
    out
}

impl MergeBody {
    /// Whether a rule is asked for what the request leaves out.
    pub fn lacks_defaults(&self) -> (r: bool)
        ensures
            r == (self.target_table@.len() == 0 || self.survive_fields@.len() == 0),
    {
        self.target_table.as_str().is_empty() || self.survive_fields.len() == 0
    }

    /// Takes from a rule what the request leaves out.
    pub fn fill(&mut self, d: MatchConfigDefaults)
        ensures
            *final(self) == (MergeBody {
                target_table: final(self).target_table,
                survive_fields: final(self).survive_fields,
                ..*old(self)
            }),
            final(self).target_table@ == text_else(old(self).target_table@, d.target_table@),
            final(self).survive_fields@ == list_else(
                old(self).survive_fields@,
                d.survive_fields@,
            ),
    {
        fill_text(&mut self.target_table, d.target_table);
        fill_list(&mut self.survive_fields, d.survive_fields);
    }

    /// The table of the head rows, which must be named.
    pub fn head_table(&self) -> (r: Result<String, String>)
        ensures
            match r {
                Ok(t) => self.target_table@.len() > 0 && t@ == self.target_table@,
                Err(e) => self.target_table@.len() == 0 && e@
                    == "target_table 不能为空（body 未传且 match_config 无配置）"@,
            },
    {
        if self.target_table.as_str().is_empty() {
            Err(
                "target_table 不能为空（body 未传且 match_config 无配置）".to_owned(),
            )
        } else {
            Ok(self.target_table.clone())
        }
    }

    /// All records of the merge: the master, then the victims.
    pub fn member_ids(&self) -> (r: Vec<i64>)
        ensures
            r@ == seq![self.master_id] + self.victim_ids@,
    {
        let mut out: Vec<i64> = Vec::new();
        out.push(self.master_id);
        let mut i: usize = 0;
        assert(out@ =~= seq![self.master_id] + self.victim_ids@.take(0));
        while i < self.victim_ids.len()
            invariant
                i <= self.victim_ids@.len(),
                out@ == seq![self.master_id] + self.victim_ids@.take(i as int),
            decreases self.victim_ids@.len() - i,
        {
            out.push(self.victim_ids[i]);
            i += 1;
            assert(out@ =~= seq![self.master_id] + self.victim_ids@.take(i as int));
        }
        assert(self.victim_ids@.take(self.victim_ids@.len() as int) =~= self.victim_ids@);
        out
    }
}

/// The merge request that is carried out, and its write where it is new.
#[derive(Debug)]
pub struct GroupChoice {
    pub id: i64,
    pub insert: Option<Statement>,
}

/// The merge request that is carried out: the one named, or a new one.
pub fn choose_group(body: &MergeBody, new_id: i64) -> (r: GroupChoice)
    ensures
        match body.merge_id {
            Some(g) => r.id == g && r.insert is None,
            None => r.insert matches Some(s) && r.id == new_id && s.sql@
                == "INSERT INTO md_merge_record (id, dict_code, group_key, member_ids, master_id, score, decision, survivorship_log, status, created_at) VALUES ($1,$2,$3,$4,$5,$6,$7,NULL,$8,now())"@
                && params_view(s.params@) == seq![
                SqlV::Int(new_id),
                SqlV::Text(body.dict_code@),
                SqlV::Text("merge:"@ + dec_int(body.master_id as int)),
                SqlV::Json(json_text(ids_json(seq![body.master_id] + body.victim_ids@))),
                SqlV::Int(body.master_id),
                SqlV::Int(100),
                SqlV::Text("automerge"@),
                SqlV::Text("pending"@),
            ],
        },
{
    match body.merge_id {
        Some(g) => GroupChoice { id: g, insert: None },
        None => {
            let mut key: String = "merge:".to_owned();
            key.append(decimal_int(body.master_id).as_str());
            let members = ids_value(&body.member_ids());
            let g = NewMatchGroup {
                id: new_id,
                dict_code: body.dict_code.as_str(),
                group_key: key.as_str(),
                member_ids: &members,
                master_id: Some(body.master_id),
                score: 100,
                decision: "automerge",
                status: "pending",
            };
            GroupChoice { id: new_id, insert: Some(insert_match_group(&g)) }
        },
    }
}

/// The rule that a value names.
pub open spec fn rule_named(v: JsonV) -> Option<SurvivorRule> {
    match v {
        JsonV::Str(s) => if s == "master"@ {
            Some(SurvivorRule::MasterFirst)
        } else if s == "fullest"@ {
            Some(SurvivorRule::Fullest)
        } else if s == "latest"@ {
            Some(SurvivorRule::Latest)
        } else {
            None
        },
        _ => None,
    }
}

/// How a value that names no rule is shown.
pub open spec fn shown_rule(v: JsonV) -> Seq<char> {
    match v {
        JsonV::Str(s) => "Some("@ + debug_text(s) + ")"@,
        _ => "None"@,
    }
}

/// What is said of a field whose rule is none.
pub open spec fn bad_rule(k: Seq<char>, v: JsonV) -> Seq<char> {
    "字段 "@ + k + " 的 survivorship 规则 "@ + shown_rule(v)
        + " 不合法（master/fullest/latest；选 victim/手填请走 overrides）"@
}

/// The rules that a request names, or the first that is none.
pub open spec fn named_rules(m: ObjV) -> Result<Seq<(Seq<char>, SurvivorRule)>, Seq<char>>
    decreases m.len(),
{
    if m.len() == 0 {
        Ok(Seq::empty())
    } else {
        match named_rules(m.drop_last()) {
            Err(e) => Err(e),
            Ok(r) => match rule_named(m.last().1) {
                Some(x) => Ok(r.push((m.last().0, x))),
                None => Err(bad_rule(m.last().0, m.last().1)),
            },
        }
    }
}

/// The rule that a value names.
pub fn rule_of(v: &Json) -> (r: Option<SurvivorRule>)
    ensures
        r == rule_named(v@),
{
    match v {
        Json::Str(s) => if same_text(s.as_str(), "master") {
            Some(SurvivorRule::MasterFirst)
        } else if same_text(s.as_str(), "fullest") {
            Some(SurvivorRule::Fullest)
        } else if same_text(s.as_str(), "latest") {
            Some(SurvivorRule::Latest)
        } else {
            None
        },
        _ => None,
    }
}

fn rule_error(k: &str, v: &Json) -> (r: String)
    ensures
        r@ == bad_rule(k@, v@),
{
    let shown: String = match v {
        Json::Str(s) => {
            let mut t: String = "Some(".to_owned();
            t.append(debug_str(s.as_str()).as_str());
            t.append(")");
            t
        },
        _ => "None".to_owned(),
    };
    let mut r: String = "字段 ".to_owned();
    r.append(k);
    r.append(" 的 survivorship 规则 ");
    r.append(shown.as_str());
    r.append(" 不合法（master/fullest/latest；选 victim/手填请走 overrides）");
    r
}

proof fn lemma_first_bad_rule(m: ObjV, n: int)
    requires
        0 <= n <= m.len(),
        named_rules(m.take(n)) is Err,
    ensures
        named_rules(m) == named_rules(m.take(n)),
    decreases m.len(),
{
    if n == m.len() {
        assert(m.take(n) =~= m);
    } else {
        assert(m.drop_last().take(n) =~= m.take(n));
        lemma_first_bad_rule(m.drop_last(), n);
    }
}

/// The rules that a request names; a name that is none is refused.
pub fn survivor_rules(m: &Object) -> (r: Result<Vec<(String, SurvivorRule)>, String>)
    ensures
        match r {
            Ok(s) => named_rules(m@) == Ok::<Seq<(Seq<char>, SurvivorRule)>, Seq<char>>(
                rules_view(s@),
            ),
            Err(e) => named_rules(m@) == Err::<Seq<(Seq<char>, SurvivorRule)>, Seq<char>>(e@),
        },
{
    let ghost all = m@;
    let mut out: Vec<(String, SurvivorRule)> = Vec::new();
    let mut i: usize = 0;
    assert(all.take(0) =~= ObjV::empty());
    assert(rules_view(out@) =~= Seq::<(Seq<char>, SurvivorRule)>::empty());
    while i < m.len()
        invariant
            i <= m@.len(),
            all == m@,
            named_rules(all.take(i as int)) == Ok::<Seq<(Seq<char>, SurvivorRule)>, Seq<char>>(
                rules_view(out@),
            ),
        decreases m@.len() - i,
    {
        let ghost before = out@;
        assert(all.take(i + 1).drop_last() =~= all.take(i as int));
        assert(all.take(i + 1).last() == all[i as int]);
        match rule_of(m.value_at(i)) {
            Some(x) => {
                out.push((m.key_at(i).clone(), x));
                assert(rules_view(out@) =~= rules_view(before).push((all[i as int].0, x)));
            },
            None => {
                proof {
                    lemma_first_bad_rule(all, i + 1);
                }
                return Err(rule_error(m.key_at(i).as_str(), m.value_at(i)));
            },
        }
        i += 1;
    }
    assert(all.take(all.len() as int) =~= all);
    Ok(out)
}

/// Answers a merge.
pub fn merge_answer(stats: &MergeStats, group_id: i64) -> (r: Json)
    ensures
        r@ == JsonV::Obj(
            obj_put(
                obj_put(
                    obj_put(
                        obj_put(
                            Seq::empty(),
                            "masterId"@,
                            JsonV::Num(number_of(stats.master_id)),
                        ),
                        "matchGroupId"@,
                        JsonV::Num(number_of(group_id)),
                    ),
                    "reparentedTotal"@,
                    JsonV::Num(NumberV::PosInt(stats.reparented_total)),
                ),
                "dedupedTotal"@,
                JsonV::Num(NumberV::PosInt(stats.deduped_total)),
            ),
        ),
{
    let o = put(Object::new(), "masterId", Json::integer(stats.master_id));
    let o = put(o, "matchGroupId", Json::integer(group_id));
    let o = put(o, "reparentedTotal", Json::Num(Number::PosInt(stats.reparented_total)));
    Json::Obj(put(o, "dedupedTotal", Json::Num(Number::PosInt(stats.deduped_total))))
}

/// A merge request with its dictionary, its master and the other records.
#[derive(Debug)]
pub struct GroupParts {
    pub group: Json,
    pub dict_code: String,
    pub master_id: i64,
    pub victim_ids: Vec<i64>,
}

/// Some ids without one of them.
pub open spec fn ids_without(s: Seq<i64>, x: i64) -> Seq<i64>
    decreases s.len(),
{
    if s.len() == 0 {
        s
    } else if s.last() == x {
        ids_without(s.drop_last(), x)
    } else {
        ids_without(s.drop_last(), x).push(s.last())
    }
}

/// Of the ids exactly the one is gone.
pub proof fn law_ids_without(s: Seq<i64>, x: i64, y: i64)
    ensures
        ids_without(s, x).contains(y) <==> s.contains(y) && y != x,
    decreases s.len(),
{
    if s.len() > 0 {
        let front = s.drop_last();
        let r = ids_without(front, x);
        law_ids_without(front, x, y);
        if s.contains(y) && y != x {
            let i = choose|i: int| 0 <= i < s.len() && s[i] == y;
            if i < front.len() {
                assert(front[i] == y);
                let k = choose|k: int| 0 <= k < r.len() && r[k] == y;
                assert(ids_without(s, x)[k] == y);
            } else {
                assert(ids_without(s, x)[r.len() as int] == y);
            }
        }
        if ids_without(s, x).contains(y) {
            let k = choose|k: int| 0 <= k < ids_without(s, x).len() && ids_without(s, x)[k] == y;
            if k < r.len() {
                assert(r[k] == y);
                let i = choose|i: int| 0 <= i < front.len() && front[i] == y;
                assert(s[i] == y);
            } else {
                assert(s[s.len() - 1] == y);
            }
        }
    }
}

fn drop_id(s: &Vec<i64>, x: i64) -> (r: Vec<i64>)
    ensures
        r@ == ids_without(s@, x),
{
    let mut out: Vec<i64> = Vec::new();
    let mut i: usize = 0;
    assert(s@.take(0) =~= Seq::<i64>::empty());
    while i < s.len()
        invariant
            i <= s@.len(),
            out@ == ids_without(s@.take(i as int), x),
        decreases s@.len() - i,
    {
        assert(s@.take(i + 1).drop_last() =~= s@.take(i as int));
        if s[i] != x {
            out.push(s[i]);
        }
        i += 1;
    }
    assert(s@.take(s@.len() as int) =~= s@);
    out
}

/// A merge request as it is shown: its columns with JSON are read back.
pub open spec fn shown_group(g: JsonV) -> JsonV {
    parsed_field(parsed_field(g, "member_ids"@), "survivorship_log"@)
}

/// What is said where there is no merge request of an id.
pub open spec fn no_group(merge_id: i64) -> Seq<char> {
    "合并请求 "@ + dec_int(merge_id as int) + " 不存在"@
}

/// The parts of a merge request, or what it lacks.
pub fn group_parts(group: Option<Json>, merge_id: i64) -> (r: Result<GroupParts, String>)
    ensures
        match group {
            None => r matches Err(e) && e@ == no_group(merge_id),
            Some(g) => match json_str(json_get(shown_group(g@), "dict_code"@)) {
                None => r matches Err(e) && e@ == "合并记录 dict_code 缺失"@,
                Some(d) => r matches Ok(p) && p.group@ == shown_group(g@) && p.dict_code@ == d
                    && p.master_id == int_at(shown_group(g@), "master_id"@) && p.victim_ids@
                    == ids_without(
                    value_ids(
                        match json_get(shown_group(g@), "member_ids"@) {
                            Some(m) => m,
                            None => JsonV::Null,
                        },
                    ),
                    p.master_id,
                ),
            },
        },
{
    let mut g = match group {
        Some(g) => g,
        None => {
            return Err(about_id("合并请求 ", merge_id, " 不存在"));
        },
    };
    parse_jsonb_field(&mut g, "member_ids");
    parse_jsonb_field(&mut g, "survivorship_log");
    let dict_code = match g.get("dict_code") {
        Some(Json::Str(s)) => s.clone(),
        _ => {
            return Err("合并记录 dict_code 缺失".to_owned());
        },
    };
    let master_id: i64 = int_member(&g, "master_id");
    let members: Vec<i64> = match g.get("member_ids") {
        Some(v) => ids_in(v),
        None => Vec::new(),
    };
    assert(members@ =~= value_ids(
        match json_get(g@, "member_ids"@) {
            Some(m) => m,
            None => JsonV::Null,
        },
    ));
    let victim_ids = drop_id(&members, master_id);
    Ok(GroupParts { group: g, dict_code, master_id, victim_ids })
}

/// Answers a request for one merge request: the request, the master and the other records.
pub fn mdm_merge_request_detail(group: Json, master: &Vec<MatchRecord>, victims: &Vec<MatchRecord>)
    -> (r: Json)
    ensures
        r@ == JsonV::Obj(
            obj_put(
                obj_put(
                    obj_put(Seq::empty(), "group"@, group@),
                    "master"@,
                    JsonV::Obj(
                        if master@.len() > 0 {
                            master@.last().fields@
                        } else {
                            Seq::empty()
                        },
                    ),
                ),
                "victims"@,
                JsonV::Arr(record_values(victims@)),
            ),
        ),
{
    let fields: Object = if master.len() > 0 {
        master[master.len() - 1].fields.clone()
    } else {
        Object::new()
    };
    let o = put(Object::new(), "group", group);
    let o = put(o, "master", Json::Obj(fields));
    Json::Obj(put(o, "victims", fields_of(victims)))
}

/// Rejects a merge request that waits.
pub fn reject_transition(merge_id: i64) -> (r: Statement)
    ensures
        r.sql@ == "UPDATE md_merge_record SET status = $1 WHERE id = $2 AND status = $3"@,
        params_view(r.params@) == seq![
            SqlV::Text("rejected"@),
            SqlV::Int(merge_id),
            SqlV::Text("pending"@),
        ],
{
    transition_match_group(merge_id, "pending", "rejected")
}

/// The trace of a rejection: who, and why.
pub open spec fn rejection(operated_by: i64, reason: Option<Seq<char>>) -> JsonV {
    JsonV::Obj(
        obj_put(
            obj_put(Seq::empty(), "rejected_by"@, JsonV::Num(number_of(operated_by))),
            "reason"@,
            match reason {
                Some(s) => JsonV::Str(s),
                None => JsonV::Null,
            },
        ),
    )
}

/// Leaves the trace of a rejection, given how many rows changed; none where the request did not
/// wait.
pub fn reject_trace(merge_id: i64, changed: u64, operated_by: i64, reason: Option<&str>) -> (r:
    Result<Statement, String>)
    ensures
        match r {
            Ok(s) => changed > 0 && s.sql@
                == "UPDATE md_merge_record SET status = $1, survivorship_log = $2, master_id = $3 WHERE id = $4"@
                && params_view(s.params@) == seq![
                SqlV::Text("rejected"@),
                SqlV::Json(json_text(rejection(operated_by, opt_str(reason)))),
                opt_int_v(None),
                SqlV::Int(merge_id),
            ],
            Err(e) => changed == 0 && e@ == "group "@ + dec_int(merge_id as int)
                + " 非 pending，不可驳回"@,
        },
{
    if changed == 0 {
        return Err(about_id("group ", merge_id, " 非 pending，不可驳回"));
    }
    let why: Json = match reason {
        Some(s) => Json::string(s),
        None => Json::Null,
    };
    let o = put(Object::new(), "rejected_by", Json::integer(operated_by));
    let log = Json::Obj(put(o, "reason", why));
    Ok(update_match_group(merge_id, "rejected", Some(&log), None))
}

/// Answers a rejection.
pub fn mdm_merge_request_reject(merge_id: i64) -> (r: Json)
    ensures
        r@ == JsonV::Obj(
            obj_put(
                obj_put(Seq::empty(), "mergeId"@, JsonV::Num(number_of(merge_id))),
                "status"@,
                JsonV::Str("rejected"@),
            ),
        ),
{
    let o = put(Object::new(), "mergeId", Json::integer(merge_id));
    Json::Obj(put(o, "status", Json::string("rejected")))
}

/// What is undone: the dictionary, the master and the first other record.
#[derive(Debug)]
pub struct UndoParts {
    pub dict_code: String,
    pub master_id: i64,
    pub victim_id: i64,
}

/// The first id that is another one; 0 where there is none.
pub open spec fn first_other(ids: Seq<i64>, x: i64) -> i64
    decreases ids.len(),
{
    if ids.len() == 0 {
        0
    } else if ids[0] != x {
        ids[0]
    } else {
        first_other(ids.drop_first(), x)
    }
}

fn other_id(ids: &Vec<i64>, x: i64) -> (r: i64)
    ensures
        r == first_other(ids@, x),
{
    let mut i: usize = 0;
    assert(ids@.skip(0) =~= ids@);
    while i < ids.len()
        invariant
            i <= ids@.len(),
            first_other(ids@, x) == first_other(ids@.skip(i as int), x),
        decreases ids@.len() - i,
    {
        assert(ids@.skip(i as int)[0] == ids@[i as int]);
        assert(ids@.skip(i as int).drop_first() =~= ids@.skip(i + 1));
        if ids[i] != x {
            return ids[i];
        }
        i += 1;
    }
    0
}

/// What is undone, or what the merge request lacks.
pub fn undo_parts(group: Option<&Json>, merge_id: i64) -> (r: Result<UndoParts, String>)
    ensures
        match group {
            None => r matches Err(e) && e@ == no_group(merge_id),
            Some(g) => match json_str(json_get(g@, "dict_code"@)) {
                None => r matches Err(e) && e@ == "合并记录 dict_code 缺失"@,
                Some(d) => r matches Ok(p) && p.dict_code@ == d && p.master_id == int_at(
                    g@,
                    "master_id"@,
                ) && p.victim_id == first_other(group_members(g@), p.master_id),
            },
        },
{
    let g = match group {
        Some(g) => g,
        None => {
            return Err(about_id("合并请求 ", merge_id, " 不存在"));
        },
    };
    match g.get("dict_code") {
        Some(Json::Str(s)) => {
            let master_id: i64 = int_member(g, "master_id");
            let victim_id: i64 = other_id(&member_list(g), master_id);
            Ok(UndoParts { dict_code: s.clone(), master_id, victim_id })
        },
        _ => Err("合并记录 dict_code 缺失".to_owned()),
    }
}

/// Answers an undo.
pub fn mdm_merge_requests_undo(p: &UndoParts) -> (r: Json)
    ensures
        r@ == JsonV::Obj(
            obj_put(
                obj_put(
                    obj_put(Seq::empty(), "masterId"@, JsonV::Num(number_of(p.master_id))),
                    "victimId"@,
                    JsonV::Num(number_of(p.victim_id)),
                ),
                "status"@,
                JsonV::Str("unmerged"@),
            ),
        ),
{
    let o = put(Object::new(), "masterId", Json::integer(p.master_id));
    let o = put(o, "victimId", Json::integer(p.victim_id));
    Json::Obj(put(o, "status", Json::string("unmerged")))
}

} // verus!
