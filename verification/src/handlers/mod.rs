//! What each request asks for, and how it is answered.

pub mod activation;
pub mod answer_laws;
pub mod approval_laws;
pub mod cr;
pub mod dedup;
pub mod distribution;
pub mod flow_cb;
pub mod flow_step;
pub mod governance;
pub mod match_config;
pub mod merge;
pub mod merge_create;
pub mod request_laws;
pub mod review;
pub mod scan;
pub mod scan_run;
pub mod search;
pub mod search_laws;
pub mod workbench;

use crate::json::{obj_put, Json, JsonV, Object};
use crate::match_algo::{specs_view, FieldKind, FieldSpecV, MatchFieldSpec};
use crate::outside::{debug_str, debug_text};
use crate::text::same_text;
use vstd::prelude::*;

verus! {

/// An object with one more member.
pub fn put(o: Object, k: &str, v: Json) -> (r: Object)
    ensures
        r@ == obj_put(o@, k@, v@),
{
    let mut m = o;
    m.insert(k.to_owned(), v);
    m
}

/// A field to be compared, as a request names it.
#[derive(Debug)]
pub struct SpecDto {
    pub field: String,
    pub weight: u32,
    /// `Exact` or `EditDistance`.
    pub kind: String,
}

/// What a named field stands for.
#[verifier::ext_equal]
pub struct SpecDtoV {
    pub field: Seq<char>,
    pub weight: u32,
    pub kind: Seq<char>,
}

impl SpecDto {
    pub open spec fn view(&self) -> SpecDtoV {
        SpecDtoV { field: self.field@, weight: self.weight, kind: self.kind@ }
    }
}

impl Clone for SpecDto {
    fn clone(&self) -> (r: Self)
        ensures
            r@ == self@,
    {
        SpecDto { field: self.field.clone(), weight: self.weight, kind: self.kind.clone() }
    }
}

/// The views of a list of named fields.
pub open spec fn dtos_view(s: Seq<SpecDto>) -> Seq<SpecDtoV> {
    Seq::new(s.len(), |i: int| s[i]@)
}

/// How a field is compared, by name.
pub open spec fn kind_named(kind: Seq<char>) -> Option<FieldKind> {
    if kind == "Exact"@ || kind == "exact"@ {
        Some(FieldKind::Exact)
    } else if kind == "EditDistance"@ || kind == "edit_distance"@ || kind == "editDistance"@ {
        Some(FieldKind::EditDistance)
    } else {
        None
    }
}

/// The comparison that a request names, or what is wrong with the name.
pub open spec fn match_spec(s: SpecDtoV) -> Result<FieldSpecV, Seq<char>> {
    match kind_named(s.kind) {
        Some(kind) => Ok(FieldSpecV { field: s.field, weight: s.weight, kind }),
        None => Err(
            "字段 "@ + s.field + " 的比较方式 "@ + debug_text(s.kind)
                + " 不合法（Exact / EditDistance）"@,
        ),
    }
}

/// How a field is compared, by name.
pub fn field_kind(kind: &str) -> (r: Option<FieldKind>)
    ensures
        r == kind_named(kind@),
{
    if same_text(kind, "Exact") || same_text(kind, "exact") {
        Some(FieldKind::Exact)
    } else if same_text(kind, "EditDistance") || same_text(kind, "edit_distance") || same_text(
        kind,
        "editDistance",
    ) {
        Some(FieldKind::EditDistance)
    } else {
        None
    }
}

impl SpecDto {
    /// The comparison that the request names.
    pub fn to_match_spec(&self) -> (r: Result<MatchFieldSpec, String>)
        ensures
            match r {
                Ok(s) => match_spec(self@) == Ok::<FieldSpecV, Seq<char>>(s@),
                Err(e) => match_spec(self@) == Err::<FieldSpecV, Seq<char>>(e@),
            },
    {
        match field_kind(self.kind.as_str()) {
            Some(kind) => Ok(
                MatchFieldSpec { field: self.field.clone(), weight: self.weight, kind },
            ),
            None => {
                let mut s: String = "字段 ".to_owned();
                s.append(self.field.as_str());
                s.append(" 的比较方式 ");
                s.append(debug_str(self.kind.as_str()).as_str());
                s.append(" 不合法（Exact / EditDistance）");
                Err(s)
            },
        }
    }
}

/// The comparisons that a request names, or the first thing that is wrong.
pub open spec fn match_specs(s: Seq<SpecDtoV>) -> Result<Seq<FieldSpecV>, Seq<char>>
    decreases s.len(),
{
    if s.len() == 0 {
        Ok(Seq::empty())
    } else {
        match match_specs(s.drop_last()) {
            Err(e) => Err(e),
            Ok(r) => match match_spec(s.last()) {
                Ok(x) => Ok(r.push(x)),
                Err(e) => Err(e),
            },
        }
    }
}

/// The comparisons that a request names.
pub fn to_match_specs(dtos: &Vec<SpecDto>) -> (r: Result<Vec<MatchFieldSpec>, String>)
    ensures
        match r {
            Ok(s) => match_specs(dtos_view(dtos@)) == Ok::<Seq<FieldSpecV>, Seq<char>>(
                specs_view(s@),
            ),
            Err(e) => match_specs(dtos_view(dtos@)) == Err::<Seq<FieldSpecV>, Seq<char>>(e@),
        },
{
    let ghost all = dtos_view(dtos@);
    let mut out: Vec<MatchFieldSpec> = Vec::new();
    let mut i: usize = 0;
    assert(all.take(0) =~= Seq::<SpecDtoV>::empty());
    assert(specs_view(out@) =~= Seq::<FieldSpecV>::empty());
    while i < dtos.len()
        invariant
            i <= dtos@.len(),
            all == dtos_view(dtos@),
            match_specs(all.take(i as int)) == Ok::<Seq<FieldSpecV>, Seq<char>>(specs_view(out@)),
        decreases dtos@.len() - i,
    {
        let ghost before = out@;
        assert(all.take(i + 1).drop_last() =~= all.take(i as int));
        assert(all.take(i + 1).last() == dtos@[i as int]@);
        match dtos[i].to_match_spec() {
            Ok(s) => {
                let ghost sv = s@;
                out.push(s);
                assert(specs_view(out@) =~= specs_view(before).push(sv));
            },
            Err(e) => {
                proof {
                    lemma_first_error(all, i + 1);
                }
                return Err(e);
            },
        }
        i += 1;
    }
    assert(all.take(all.len() as int) =~= all);
    Ok(out)
}

proof fn lemma_first_error(s: Seq<SpecDtoV>, n: int)
    requires
        0 <= n <= s.len(),
        match_specs(s.take(n)) is Err,
    ensures
        match_specs(s) == match_specs(s.take(n)),
    decreases s.len(),
{
    if n == s.len() {
        assert(s.take(n) =~= s);
    } else {
        assert(s.drop_last().take(n) =~= s.take(n));
        lemma_first_error(s.drop_last(), n);
    }
}

/// The first page.
pub fn default_page() -> (r: i64)
    ensures
        r == 1,
{
    1
}

/// Twenty rows to a page.
pub fn default_page_size() -> (r: i64)
    ensures
        r == 20,
{
    20
}

/// A field without a weight does not count.
pub fn default_weight() -> (r: u32)
    ensures
        r == 0,
{
    0
}

/// Fields are compared for equality.
pub fn default_kind() -> (r: String)
    ensures
        r@ == "Exact"@,
{
    "Exact".to_owned()
}

/// That the service runs.
pub fn mdm_health() -> (r: Json)
    ensures
        r@ == JsonV::Obj(
            obj_put(
                obj_put(Seq::empty(), "module"@, JsonV::Str("mdm"@)),
                "status"@,
                JsonV::Str("ok"@),
            ),
        ),
{
    let o = put(Object::new(), "module", Json::string("mdm"));
    Json::Obj(put(o, "status", Json::string("ok")))
}

} // verus!
