//! How much waits, and how much was done.

use crate::handlers::put;
use crate::json::{
    json_get, json_i64, json_str, number_of, obj_put, values_view, Json, JsonV, ObjV, Object,
};
use crate::store::query::opt_str;
use vstd::prelude::*;

verus! {

/// A request for the counts of one dictionary, or of all.
#[derive(Debug)]
pub struct WorkbenchSummaryQuery {
    pub dict_code: Option<String>,
}

/// The counts of some rows by state; rows without a state or a count are left out.
pub open spec fn counts(rows: Seq<JsonV>) -> ObjV
    decreases rows.len(),
{
    if rows.len() == 0 {
        Seq::empty()
    } else {
        let r = counts(rows.drop_last());
        match (
            json_str(json_get(rows.last(), "status"@)),
            json_i64(json_get(rows.last(), "c"@)),
        ) {
            (Some(s), Some(n)) => obj_put(r, s, JsonV::Num(number_of(n))),
            _ => r,
        }
    }
}

/// The counts of some rows by state.
pub fn counts_of(rows: &Vec<Json>) -> (r: Object)
    ensures
        r@ == counts(values_view(rows@)),
{
    let ghost all = values_view(rows@);
    let mut out = Object::new();
    let mut i: usize = 0;
    assert(all.take(0) =~= Seq::<JsonV>::empty());
    while i < rows.len()
        invariant
            i <= rows@.len(),
            all == values_view(rows@),
            out@ == counts(all.take(i as int)),
        decreases rows@.len() - i,
    {
        assert(all.take(i + 1).drop_last() =~= all.take(i as int));
        assert(all.take(i + 1).last() == rows@[i as int]@);
        let n: Option<i64> = match rows[i].get("c") {
            Some(v) => v.as_i64(),
            None => None,
        };
        if let Some(Json::Str(s)) = rows[i].get("status") {
            if let Some(c) = n {
                out.insert(s.clone(), Json::integer(c));
            }
        }
        i += 1;
    }
    assert(all.take(all.len() as int) =~= all);
    out
}

/// Answers with the counts of findings and of merges.
pub fn mdm_workbench_summary(
    dict_code: Option<&str>,
    findings: &Vec<Json>,
    merges: &Vec<Json>,
) -> (r: Json)
    ensures
        ({
            let o = obj_put(
                Seq::empty(),
                "dictCode"@,
                match opt_str(dict_code) {
                    Some(d) => JsonV::Str(d),
                    None => JsonV::Null,
                },
            );
            let o = obj_put(o, "findings"@, JsonV::Obj(counts(values_view(findings@))));
            r@ == JsonV::Obj(obj_put(o, "merges"@, JsonV::Obj(counts(values_view(merges@)))))
        }),
{
    let dict: Json = match dict_code {
        Some(d) => Json::string(d),
        None => Json::Null,
    };
    let o = put(Object::new(), "dictCode", dict);
    let o = put(o, "findings", Json::Obj(counts_of(findings)));
    Json::Obj(put(o, "merges", Json::Obj(counts_of(merges))))
}

} // verus!
