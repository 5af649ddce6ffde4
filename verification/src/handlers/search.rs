//! What the searches for duplicates have in common: filling a request from the rules of its
//! dictionary, and reading the records that may be duplicates.

use crate::distribution::registry::texts_ascend;
use crate::distribution::transform::text_at;
use crate::handlers::dedup::{
    checked_search, columns_for, compared, config_defaults, list_else, plan_check_key,
    plan_find_duplicates, text_else, texts_at, CheckKeyBody, FindDupBody, SearchPlan,
};
use crate::handlers::merge_create::rules_query;
use crate::handlers::scan::{plan_scan, ScanRunBody};
use crate::handlers::{dtos_view, SpecDto, SpecDtoV};
use crate::json::{values_view, Json, JsonV, ObjV, Object};
use crate::match_algo::{
    bucket_field, bucket_source, law_bucket_field, records_view, specs_view, FieldSpecV,
    MatchFieldSpec, MatchRecord, RecordV,
};
use crate::sql::{params_view, SqlV, Statement, StatementV};
use crate::store::loader::{
    borrowed, load_bucket, load_suspects, published_with, read_records,
    rows_records, suspects_sql,
};
use crate::store::match_config_store::{config_row, list_match_config, read_config_row};
use crate::store::query::{bad_name, check_name, check_names, first_bad};
use crate::text::{lemma_text_lt_irreflexive, lemma_text_lt_transitive, text_lt, texts};
use vstd::prelude::*;

verus! {

/// A request that is answered by a search.
#[derive(Debug)]
pub enum SearchBody {
    Find(FindDupBody),
    Check(CheckKeyBody),
    Scan(ScanRunBody),
}

/// What a search is for.
pub enum SearchKind {
    /// The duplicates of a record.
    Find(i64),
    /// A record with given values.
    Check(ObjV),
    /// Every pair with a score.
    Scan(Option<u8>),
}

/// What a request stands for.
#[verifier::ext_equal]
pub struct SearchV {
    pub kind: SearchKind,
    pub dict_code: Seq<char>,
    pub target_table: Seq<char>,
    pub specs: Seq<SpecDtoV>,
    pub cluster_keys: Seq<Seq<char>>,
    pub survive_fields: Seq<Seq<char>>,
    pub display_fields: Seq<Seq<char>>,
}

impl SearchBody {
    pub open spec fn view(&self) -> SearchV {
        match *self {
            SearchBody::Find(b) => SearchV {
                kind: SearchKind::Find(b.record_id),
                dict_code: b.dict_code@,
                target_table: b.target_table@,
                specs: dtos_view(b.specs@),
                cluster_keys: texts(b.cluster_keys@),
                survive_fields: texts(b.survive_fields@),
                display_fields: texts(b.display_fields@),
            },
            SearchBody::Check(b) => SearchV {
                kind: SearchKind::Check(b.key_value@),
                dict_code: b.dict_code@,
                target_table: b.target_table@,
                specs: dtos_view(b.specs@),
                cluster_keys: texts(b.cluster_keys@),
                survive_fields: Seq::empty(),
                display_fields: Seq::empty(),
            },
            SearchBody::Scan(b) => SearchV {
                kind: SearchKind::Scan(b.min_score),
                dict_code: b.dict_code@,
                target_table: b.target_table@,
                specs: dtos_view(b.specs@),
                cluster_keys: texts(b.cluster_keys@),
                survive_fields: texts(b.survive_fields@),
                display_fields: Seq::empty(),
            },
        }
    }
}

impl SearchV {
    /// Whether a rule is asked for what the request leaves out.
    pub open spec fn lacks(&self) -> bool {
        ||| self.target_table.len() == 0
        ||| self.specs.len() == 0
        ||| self.cluster_keys.len() == 0
        ||| !(self.kind is Check) && self.survive_fields.len() == 0
    }

    /// The columns that the search needs.
    pub open spec fn wanted(&self) -> Seq<Seq<char>> {
        if self.kind is Check {
            seq!["id"@, "code"@, "name"@, "update_time"@] + compared(self.specs)
                + self.cluster_keys
        } else {
            seq!["id"@, "update_time"@] + compared(self.specs) + self.cluster_keys
                + self.survive_fields + self.display_fields
        }
    }
}

/// A request with what it leaves out taken from the first rule, where that names a table; `specs`
/// are the comparisons of that rule.
pub open spec fn search_filled(b: SearchV, rows: Seq<JsonV>, specs: Seq<SpecDtoV>) -> SearchV {
    if rows.len() > 0 && text_at(config_row(rows[0]), "target_table"@).len() > 0 {
        let rule = config_row(rows[0]);
        SearchV {
            target_table: text_else(b.target_table, text_at(rule, "target_table"@)),
            specs: list_else(b.specs, specs),
            cluster_keys: list_else(b.cluster_keys, texts_at(rule, "cluster_keys"@)),
            survive_fields: if b.kind is Check {
                b.survive_fields
            } else {
                list_else(b.survive_fields, texts_at(rule, "survive_fields"@))
            },
            ..b
        }
    } else {
        b
    }
}

/// The columns that are read: all that are wanted, in order, each once.
pub open spec fn column_list(wanted: Seq<Seq<char>>) -> Seq<Seq<char>> {
    choose|r: Seq<Seq<char>>| columns_for(r, wanted)
}

proof fn lemma_last_is_greatest(a: Seq<Seq<char>>, k: Seq<char>)
    requires
        texts_ascend(a),
        a.contains(k),
    ensures
        k == a.last() || text_lt(k, a.last()),
{
    let i = choose|i: int| 0 <= i < a.len() && a[i] == k;
    if i < a.len() - 1 {
        assert(text_lt(a[i], a[a.len() - 1]));
    }
}

/// Two ascending lists of the same texts are the same list.
proof fn lemma_ascending_unique(a: Seq<Seq<char>>, b: Seq<Seq<char>>)
    requires
        texts_ascend(a),
        texts_ascend(b),
        forall|k: Seq<char>| #[trigger] a.contains(k) <==> b.contains(k),
    ensures
        a == b,
    decreases a.len(),
{
    if a.len() == 0 {
        if b.len() > 0 {
            assert(b.contains(b[0]));
            assert(a.contains(b[0]));
        }
        assert(a =~= b);
    } else {
        assert(a.contains(a[a.len() - 1]));
        assert(b.contains(a.last()));
        assert(b.contains(b[b.len() - 1]));
        assert(a.contains(b.last()));
        lemma_last_is_greatest(b, a.last());
        lemma_last_is_greatest(a, b.last());
        if a.last() != b.last() {
            lemma_text_lt_transitive(a.last(), b.last(), a.last());
            lemma_text_lt_irreflexive(a.last());
        }
        let x = a.drop_last();
        let y = b.drop_last();
        assert forall|k: Seq<char>| #[trigger] x.contains(k) <==> y.contains(k) by {
            if x.contains(k) {
                let i = choose|i: int| 0 <= i < x.len() && x[i] == k;
                assert(a[i] == k);
                assert(a.contains(k));
                assert(text_lt(a[i], a[a.len() - 1]));
                lemma_text_lt_irreflexive(a.last());
                let j = choose|j: int| 0 <= j < b.len() && b[j] == k;
                assert(y[j] == k);
            }
            if y.contains(k) {
                let i = choose|i: int| 0 <= i < y.len() && y[i] == k;
                assert(b[i] == k);
                assert(b.contains(k));
                assert(a.contains(k));
                assert(text_lt(b[i], b[b.len() - 1]));
                lemma_text_lt_irreflexive(b.last());
                let j = choose|j: int| 0 <= j < a.len() && a[j] == k;
                assert(x[j] == k);
            }
        }
        assert forall|i: int, j: int| 0 <= i < j < x.len() implies text_lt(
            #[trigger] x[i],
            #[trigger] x[j],
        ) by {
            assert(a[i] == x[i] && a[j] == x[j]);
        }
        assert forall|i: int, j: int| 0 <= i < j < y.len() implies text_lt(
            #[trigger] y[i],
            #[trigger] y[j],
        ) by {
            assert(b[i] == y[i] && b[j] == y[j]);
        }
        lemma_ascending_unique(x, y);
        assert(a =~= x.push(a.last()));
        assert(b =~= y.push(b.last()));
    }
}

proof fn lemma_column_list(r: Seq<Seq<char>>, wanted: Seq<Seq<char>>)
    requires
        columns_for(r, wanted),
    ensures
        r == column_list(wanted),
{
    let c = column_list(wanted);
    assert(columns_for(c, wanted));
    assert forall|k: Seq<char>| #[trigger] r.contains(k) <==> c.contains(k) by {
        assert(r.contains(k) <==> wanted.contains(k));
        assert(c.contains(k) <==> wanted.contains(k));
    }
    lemma_ascending_unique(r, c);
}

/// What came back of the last step.
#[derive(Debug)]
pub enum SearchEvent {
    Begin,
    /// The rules of the dictionary, and the comparisons of the first of them.
    Rules(Vec<Json>, Vec<SpecDto>),
    Rows(Vec<Json>),
    Failed(String),
}

/// What an event stands for.
#[verifier::ext_equal]
pub enum SearchEventV {
    Begin,
    Rules(Seq<JsonV>, Seq<SpecDtoV>),
    Rows(Seq<JsonV>),
    Failed(Seq<char>),
}

impl SearchEvent {
    pub open spec fn view(&self) -> SearchEventV {
        match *self {
            SearchEvent::Begin => SearchEventV::Begin,
            SearchEvent::Rules(r, s) => SearchEventV::Rules(values_view(r@), dtos_view(s@)),
            SearchEvent::Rows(r) => SearchEventV::Rows(values_view(r@)),
            SearchEvent::Failed(e) => SearchEventV::Failed(e@),
        }
    }
}

/// What a search waits for.
#[derive(Debug)]
pub enum SearchStage {
    Start(SearchBody),
    Rules(SearchBody),
    /// The records to be compared.
    Suspects(SearchBody, Vec<MatchFieldSpec>),
    Over,
}

/// What a stage stands for.
#[verifier::ext_equal]
pub enum SearchStageV {
    Start(SearchV),
    Rules(SearchV),
    Suspects(SearchV, Seq<FieldSpecV>),
    Over,
}

impl SearchStage {
    pub open spec fn view(&self) -> SearchStageV {
        match *self {
            SearchStage::Start(b) => SearchStageV::Start(b@),
            SearchStage::Rules(b) => SearchStageV::Rules(b@),
            SearchStage::Suspects(b, s) => SearchStageV::Suspects(b@, specs_view(s@)),
            SearchStage::Over => SearchStageV::Over,
        }
    }
}

/// What to do next.
#[derive(Debug)]
pub enum SearchAction {
    /// Read the rules of the dictionary.
    QueryRules(Statement),
    Query(Statement),
    /// Compare the records that were read.
    Compare(SearchBody, Vec<MatchFieldSpec>, Vec<MatchRecord>),
    Fail(String),
}

/// What an action stands for.
#[verifier::ext_equal]
pub enum SearchActionV {
    QueryRules(StatementV),
    Query(StatementV),
    Compare(SearchV, Seq<FieldSpecV>, Seq<RecordV>),
    Fail(Seq<char>),
}

impl SearchAction {
    pub open spec fn view(&self) -> SearchActionV {
        match *self {
            SearchAction::QueryRules(s) => SearchActionV::QueryRules(s@),
            SearchAction::Query(s) => SearchActionV::Query(s@),
            SearchAction::Compare(b, s, r) => SearchActionV::Compare(
                b@,
                specs_view(s@),
                records_view(r@),
            ),
            SearchAction::Fail(e) => SearchActionV::Fail(e@),
        }
    }
}

/// The first name of a request that may not stand in a statement.
pub open spec fn bad_search_name(b: SearchV, columns: Seq<Seq<char>>) -> Option<Seq<char>> {
    match first_bad(seq![b.target_table]) {
        Some(n) => Some(n),
        None => match first_bad(columns) {
            Some(n) => Some(n),
            None => first_bad(b.cluster_keys),
        },
    }
}

/// A search that fails.
pub open spec fn search_fails(e: Seq<char>) -> (SearchStageV, SearchActionV) {
    (SearchStageV::Over, SearchActionV::Fail(e))
}

/// The published records in the bucket of given values are read; values without a bucket have no
/// duplicates.
pub open spec fn bucket_step(
    b: SearchV,
    specs: Seq<FieldSpecV>,
    columns: Seq<Seq<char>>,
    values: ObjV,
) -> (SearchStageV, SearchActionV) {
    match bucket_field(values, b.cluster_keys) {
        None => (SearchStageV::Over, SearchActionV::Compare(b, specs, Seq::empty())),
        Some((k, v)) => (
            SearchStageV::Suspects(b, specs),
            SearchActionV::Query(published_with(b.target_table, columns, k, v)),
        ),
    }
}

/// The records are read, once the request says enough: for given values those in the same bucket,
/// else those that share the value of a key with another.
pub open spec fn suspects_step(b: SearchV) -> (SearchStageV, SearchActionV) {
    match checked_search(b.specs, b.target_table, b.cluster_keys) {
        Err(e) => search_fails(e),
        Ok(specs) => match bad_search_name(b, column_list(b.wanted())) {
            Some(n) => search_fails(bad_name(n)),
            None => match b.kind {
                SearchKind::Check(values) => bucket_step(
                    b,
                    specs,
                    column_list(b.wanted()),
                    values,
                ),
                _ => (
                    SearchStageV::Suspects(b, specs),
                    SearchActionV::Query(
                        StatementV {
                            sql: suspects_sql(
                                b.target_table,
                                column_list(b.wanted()),
                                b.cluster_keys,
                            ),
                            params: Seq::empty(),
                        },
                    ),
                ),
            },
        },
    }
}

/// One step of a search: what the request leaves out is taken from the rules, the records are
/// read, and they are handed on to be compared.
pub open spec fn searched(stage: SearchStageV, event: SearchEventV) -> (
    SearchStageV,
    SearchActionV,
) {
    match (stage, event) {
        (_, SearchEventV::Failed(e)) => search_fails(e),
        (SearchStageV::Start(b), SearchEventV::Begin) => if b.lacks() {
            (SearchStageV::Rules(b), SearchActionV::QueryRules(rules_query(b.dict_code)))
        } else {
            suspects_step(b)
        },
        (SearchStageV::Rules(b), SearchEventV::Rules(rows, specs)) => suspects_step(
            search_filled(b, rows, specs),
        ),
        (SearchStageV::Suspects(b, specs), SearchEventV::Rows(rows)) => (
            SearchStageV::Over,
            SearchActionV::Compare(b, specs, rows_records(rows)),
        ),
        _ => search_fails("查重步骤与事件不符"@),
    }
}

impl SearchBody {
    fn lacks_defaults(&self) -> (r: bool)
        ensures
            r == self@.lacks(),
    {
        match self {
            SearchBody::Find(b) => {
                assert(b.specs@.len() == dtos_view(b.specs@).len());
                assert(b.cluster_keys@.len() == texts(b.cluster_keys@).len());
                assert(b.survive_fields@.len() == texts(b.survive_fields@).len());
                b.lacks_defaults()
            },
            SearchBody::Check(b) => {
                assert(b.specs@.len() == dtos_view(b.specs@).len());
                assert(b.cluster_keys@.len() == texts(b.cluster_keys@).len());
                b.lacks_defaults()
            },
            SearchBody::Scan(b) => {
                assert(b.specs@.len() == dtos_view(b.specs@).len());
                assert(b.cluster_keys@.len() == texts(b.cluster_keys@).len());
                assert(b.survive_fields@.len() == texts(b.survive_fields@).len());
                b.lacks_defaults()
            },
        }
    }

    fn dict(&self) -> (r: &str)
        ensures
            r@ == self@.dict_code,
    {
        match self {
            SearchBody::Find(b) => b.dict_code.as_str(),
            SearchBody::Check(b) => b.dict_code.as_str(),
            SearchBody::Scan(b) => b.dict_code.as_str(),
        }
    }

    fn table(&self) -> (r: &str)
        ensures
            r@ == self@.target_table,
    {
        match self {
            SearchBody::Find(b) => b.target_table.as_str(),
            SearchBody::Check(b) => b.target_table.as_str(),
            SearchBody::Scan(b) => b.target_table.as_str(),
        }
    }

    /// The keys by which records are brought together.
    pub fn keys(&self) -> (r: Vec<&str>)
        ensures
            crate::match_algo::keys_view(r@) == self@.cluster_keys,
    {
        match self {
            SearchBody::Find(b) => borrowed(&b.cluster_keys),
            SearchBody::Check(b) => borrowed(&b.cluster_keys),
            SearchBody::Scan(b) => borrowed(&b.cluster_keys),
        }
    }

    fn plan(&self) -> (r: Result<SearchPlan, String>)
        ensures
            match r {
                Ok(p) => checked_search(self@.specs, self@.target_table, self@.cluster_keys)
                    == Ok::<Seq<FieldSpecV>, Seq<char>>(specs_view(p.specs@)) && texts(p.columns@)
                    == column_list(self@.wanted()),
                Err(e) => checked_search(self@.specs, self@.target_table, self@.cluster_keys)
                    == Err::<Seq<FieldSpecV>, Seq<char>>(e@),
            },
    {
        let ghost wanted = self@.wanted();
        let p = match self {
            SearchBody::Find(b) => plan_find_duplicates(b),
            SearchBody::Check(b) => plan_check_key(b),
            SearchBody::Scan(b) => {
                assert(wanted =~= seq!["id"@, "update_time"@] + compared(self@.specs)
                    + self@.cluster_keys + self@.survive_fields);
                plan_scan(b)
            },
        };
        if let Ok(q) = &p {
            proof {
                lemma_column_list(texts(q.columns@), wanted);
            }
        }
        p
    }
}

fn fill_search(body: SearchBody, rows: &Vec<Json>, specs: Vec<SpecDto>) -> (r: SearchBody)
    ensures
        r@ == search_filled(body@, values_view(rows@), dtos_view(specs@)),
{
    let ghost start = body@;
    let ghost want = search_filled(body@, values_view(rows@), dtos_view(specs@));
    if rows.len() == 0 {
        return body;
    }
    let mut rule = rows[0].clone();
    read_config_row(&mut rule);
    let mut first: Vec<Json> = Vec::new();
    first.push(rule);
    let ghost sv = specs@;
    match config_defaults(&first, specs) {
        None => body,
        Some(d) => {
            let ghost dk = d.cluster_keys@;
            let ghost df = d.survive_fields@;
            match body {
                SearchBody::Find(x) => {
                    let mut b: FindDupBody = x;
                    let ghost o = b;
                    b.fill(d);
                    assert(dtos_view(b.specs@) =~= list_else(dtos_view(o.specs@), dtos_view(sv)));
                    assert(texts(b.cluster_keys@) =~= list_else(texts(o.cluster_keys@), texts(dk)));
                    assert(texts(b.survive_fields@) =~= list_else(
                        texts(o.survive_fields@),
                        texts(df),
                    ));
                    assert(SearchBody::Find(b)@ =~= want);
                    SearchBody::Find(b)
                },
                SearchBody::Check(x) => {
                    let mut b: CheckKeyBody = x;
                    let ghost o = b;
                    b.fill(d);
                    assert(dtos_view(b.specs@) =~= list_else(dtos_view(o.specs@), dtos_view(sv)));
                    assert(texts(b.cluster_keys@) =~= list_else(texts(o.cluster_keys@), texts(dk)));
                    assert(SearchBody::Check(b)@ =~= want);
                    SearchBody::Check(b)
                },
                SearchBody::Scan(x) => {
                    let mut b: ScanRunBody = x;
                    let ghost o = b;
                    b.fill(d);
                    assert(dtos_view(b.specs@) =~= list_else(dtos_view(o.specs@), dtos_view(sv)));
                    assert(texts(b.cluster_keys@) =~= list_else(texts(o.cluster_keys@), texts(dk)));
                    assert(texts(b.survive_fields@) =~= list_else(
                        texts(o.survive_fields@),
                        texts(df),
                    ));
                    assert(SearchBody::Scan(b)@ =~= want);
                    SearchBody::Scan(b)
                },
            }
        },
    }
}

fn check_search_names(body: &SearchBody, columns: &Vec<String>) -> (r: Result<(), String>)
    ensures
        match bad_search_name(body@, texts(columns@)) {
            Some(n) => r matches Err(e) && e@ == bad_name(n),
            None => r is Ok,
        },
{
    if let Err(e) = check_name(body.table()) {
        return Err(e);
    }
    if let Err(e) = check_names(borrowed(columns).as_slice()) {
        return Err(e);
    }
    check_names(body.keys().as_slice())
}

proof fn lemma_good_name(names: Seq<Seq<char>>, k: Seq<char>)
    requires
        first_bad(names) is None,
        names.contains(k),
    ensures
        first_bad(seq![k]) is None,
    decreases names.len(),
{
    assert(seq![k].drop_first() =~= Seq::<Seq<char>>::empty());
    reveal_with_fuel(first_bad, 2);
    if names[0] != k {
        let n = choose|n: int| 0 <= n < names.len() && names[n] == k;
        assert(names.drop_first()[n - 1] == k);
        lemma_good_name(names.drop_first(), k);
    }
}

fn read_bucket(
    body: SearchBody,
    specs: Vec<MatchFieldSpec>,
    columns: &Vec<String>,
    values: &Object,
) -> (r: (SearchStage, SearchAction))
    requires
        bad_search_name(body@, texts(columns@)) is None,
    ensures
        (r.0@, r.1@) == bucket_step(body@, specs_view(specs@), texts(columns@), values@),
{
    match bucket_source(values, body.keys().as_slice()) {
        None => {
            let none: Vec<MatchRecord> = Vec::new();
            assert(records_view(none@) =~= Seq::<RecordV>::empty());
            (SearchStage::Over, SearchAction::Compare(body, specs, none))
        },
        Some((k, v)) => {
            proof {
                law_bucket_field(values@, body@.cluster_keys);
                lemma_good_name(body@.cluster_keys, k@);
            }
            match load_bucket(
                body.table(),
                borrowed(columns).as_slice(),
                k.as_str(),
                v.as_str(),
            ) {
                Ok(s) => (SearchStage::Suspects(body, specs), SearchAction::Query(s)),
                Err(e) => (SearchStage::Over, SearchAction::Fail(e)),
            }
        },
    }
}

fn read_suspects(body: SearchBody) -> (r: (SearchStage, SearchAction))
    ensures
        (r.0@, r.1@) == suspects_step(body@),
{
    let plan = match body.plan() {
        Err(e) => {
            return (SearchStage::Over, SearchAction::Fail(e));
        },
        Ok(p) => p,
    };
    if let Err(e) = check_search_names(&body, &plan.columns) {
        return (SearchStage::Over, SearchAction::Fail(e));
    }
    let given: Option<Object> = match &body {
        SearchBody::Check(b) => Some(b.key_value.clone()),
        _ => None,
    };
    if let Some(values) = given {
        return read_bucket(body, plan.specs, &plan.columns, &values);
    }
    let columns = borrowed(&plan.columns);
    match load_suspects(body.table(), columns.as_slice(), body.keys().as_slice()) {
        Err(e) => (SearchStage::Over, SearchAction::Fail(e)),
        Ok(Some(s)) => {
            assert(params_view(s.params@) =~= Seq::<SqlV>::empty());
            (SearchStage::Suspects(body, plan.specs), SearchAction::Query(s))
        },
        Ok(None) => (SearchStage::Over, SearchAction::Fail(String::new())),
    }
}

/// One step of a search.
pub fn search_step(stage: SearchStage, event: SearchEvent) -> (r: (SearchStage, SearchAction))
    ensures
        (r.0@, r.1@) == searched(stage@, event@),
{
    match (stage, event) {
        (_, SearchEvent::Failed(e)) => (SearchStage::Over, SearchAction::Fail(e)),
        (SearchStage::Start(b), SearchEvent::Begin) => if b.lacks_defaults() {
            let s = list_match_config(Some(b.dict()));
            (SearchStage::Rules(b), SearchAction::QueryRules(s))
        } else {
            read_suspects(b)
        },
        (SearchStage::Rules(b), SearchEvent::Rules(rows, specs)) => read_suspects(
            fill_search(b, &rows, specs),
        ),
        (SearchStage::Suspects(b, specs), SearchEvent::Rows(rows)) => (
            SearchStage::Over,
            SearchAction::Compare(b, specs, read_records(&rows)),
        ),
        _ => (
            SearchStage::Over,
            SearchAction::Fail("查重步骤与事件不符".to_owned()),
        ),
    }
}

} // verus!
