//! Columns that hold JSON arrive as text: they are read back into values.

use crate::json::{json_get, json_str, obj_put, values_view, Json, JsonV, Object};
use crate::match_algo::keys_view;
use crate::outside::{json_parse, parse_value};
use vstd::prelude::*;

verus! {

/// A row with the value of one column replaced, where there is a new value; what is no row stays.
pub open spec fn with_value(v: JsonV, field: Seq<char>, parsed: Option<JsonV>) -> JsonV {
    match (v, parsed) {
        (JsonV::Obj(o), Some(p)) => JsonV::Obj(obj_put(o, field, p)),
        _ => v,
    }
}

/// The value that the text of a column stands for.
pub open spec fn column_value(v: JsonV, field: Seq<char>) -> Option<JsonV> {
    match json_str(json_get(v, field)) {
        Some(s) => json_parse(s),
        None => None,
    }
}

/// A row with one column read back; a column that is no text, or no JSON, stays as it is.
pub open spec fn parsed_field(v: JsonV, field: Seq<char>) -> JsonV {
    with_value(v, field, column_value(v, field))
}

/// A row with some columns read back, one after the other.
pub open spec fn parsed_fields(v: JsonV, fields: Seq<Seq<char>>) -> JsonV
    decreases fields.len(),
{
    if fields.len() == 0 {
        v
    } else {
        parsed_field(parsed_fields(v, fields.drop_last()), fields.last())
    }
}

/// Replaces the value of one column, where there is a new value.
pub fn put_value(v: &mut Json, field: &str, parsed: Option<Json>)
    ensures
        final(v)@ == with_value(
            old(v)@,
            field@,
            match parsed {
                Some(p) => Some(p@),
                None => None,
            },
        ),
{
    if let Some(p) = parsed {
        let mut t = Json::Null;
        std::mem::swap(v, &mut t);
        *v = match t {
            Json::Obj(o) => {
                let mut m: Object = o;
                m.insert(field.to_owned(), p);
                Json::Obj(m)
            },
            other => other,
        };
    }
}

/// Reads one column back.
pub fn parse_jsonb_field(v: &mut Json, field: &str)
    ensures
        final(v)@ == parsed_field(old(v)@, field@),
{
    let parsed: Option<Json> = match v.get(field) {
        Some(Json::Str(s)) => parse_value(s.as_str()),
        _ => None,
    };
    put_value(v, field, parsed);
}

/// Reads some columns back.
pub fn parse_jsonb_fields(v: &mut Json, fields: &[&str])
    ensures
        final(v)@ == parsed_fields(old(v)@, keys_view(fields@)),
{
    let ghost start = v@;
    let ghost all = keys_view(fields@);
    let mut i: usize = 0;
    assert(all.take(0) =~= Seq::<Seq<char>>::empty());
    while i < fields.len()
        invariant
            i <= fields@.len(),
            all == keys_view(fields@),
            v@ == parsed_fields(start, all.take(i as int)),
        decreases fields@.len() - i,
    {
        assert(all.take(i + 1).drop_last() =~= all.take(i as int));
        assert(all.take(i + 1).last() == fields@[i as int]@);
        parse_jsonb_field(v, fields[i]);
        i += 1;
    }
    assert(all.take(all.len() as int) =~= all);
}

/// Rows with some columns read back.
pub open spec fn parsed_rows(rows: Seq<JsonV>, fields: Seq<Seq<char>>) -> Seq<JsonV> {
    Seq::new(rows.len(), |i: int| parsed_fields(rows[i], fields))
}

/// Reads some columns of every row back.
pub fn parse_rows(rows: &Vec<Json>, fields: &[&str]) -> (r: Vec<Json>)
    ensures
        values_view(r@) == parsed_rows(values_view(rows@), keys_view(fields@)),
{
    let ghost want = parsed_rows(values_view(rows@), keys_view(fields@));
    let mut out: Vec<Json> = Vec::new();
    let mut i: usize = 0;
    while i < rows.len()
        invariant
            i <= rows@.len(),
            out@.len() == i,
            want == parsed_rows(values_view(rows@), keys_view(fields@)),
            forall|k: int| 0 <= k < i ==> (#[trigger] out@[k])@ == want[k],
        decreases rows@.len() - i,
    {
        let mut v = rows[i].clone();
        parse_jsonb_fields(&mut v, fields);
        out.push(v);
        i += 1;
    }
    assert(values_view(out@) =~= want);
    out
}

} // verus!
