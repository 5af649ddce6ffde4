//! What an activation carries over: which value of a request ends up in which column.

use crate::activation::{
    carries, carry, carry_subject, create_row, line_fields, line_mapping_of, lines_plan,
    mapping_for, source_value, subject_value, update_row, LineMappingV, SourceV,
};
use crate::json::{
    json_get, json_i64, json_str, law_get_after_put, number_of, obj_get, obj_put, JsonV, ObjV,
};
use vstd::prelude::*;

verus! {

/// A value says something: it is neither null nor the empty string.
pub open spec fn filled_in(v: JsonV) -> bool {
    v != JsonV::Null && v != JsonV::Str(Seq::empty())
}

/// Entry `i` of a mapping is the last that fills a column.
pub open spec fn last_fills(mapping: ObjV, i: int, col: Seq<char>) -> bool {
    &&& 0 <= i < mapping.len()
    &&& mapping[i].1 == JsonV::Str(col)
    &&& forall|j: int| i < j < mapping.len() ==> (#[trigger] mapping[j]).1 != JsonV::Str(col)
}

/// Entry `i` of a mapping is the only one that fills a column.
pub open spec fn alone_fills(mapping: ObjV, i: int, col: Seq<char>) -> bool {
    &&& last_fills(mapping, i, col)
    &&& forall|j: int| 0 <= j < i ==> (#[trigger] mapping[j]).1 != JsonV::Str(col)
}

/// A column that every new record has, whatever the request says.
pub open spec fn fixed_column(col: Seq<char>) -> bool {
    col == "code"@ || col == "lifecycle_status"@ || col == "published_version"@
}

/// The value that a request for a new record has in a field: that of its payload, else that of
/// its head.
pub open spec fn requested(head: ObjV, f: Seq<char>, v: Option<JsonV>) -> bool {
    match obj_get(head, "payload"@) {
        Some(JsonV::Obj(p)) => if obj_get(p, f) is Some {
            v == obj_get(p, f)
        } else {
            v == obj_get(head, f)
        },
        _ => v == obj_get(head, f),
    }
}

/// The new value of a field in the changes of a request.
pub open spec fn changed_to(deltas: ObjV, f: Seq<char>, v: Option<JsonV>) -> bool {
    match obj_get(deltas, f) {
        Some(JsonV::Obj(d)) => v == obj_get(d, "new"@),
        _ => v is None,
    }
}

proof fn lemma_filled(v: JsonV)
    ensures
        filled_in(v) <==> !crate::activation::unfilled(v),
        v == JsonV::Str(Seq::empty()) <==> crate::activation::empty_str(v),
{
    if let JsonV::Str(s) = v {
        if s.len() == 0 {
            assert(s =~= Seq::empty());
        }
    }
}

proof fn lemma_carried(mapping: ObjV, s: SourceV, i: int, col: Seq<char>, v: JsonV)
    requires
        last_fills(mapping, i, col),
        source_value(s, mapping[i].0) == Some(v),
        carries(s, v),
    ensures
        obj_get(carry(mapping, s), col) == Some(v),
    decreases mapping.len(),
{
    let d = mapping.drop_last();
    let last = mapping.last();
    if i < d.len() {
        assert forall|j: int| i < j < d.len() implies (#[trigger] d[j]).1 != JsonV::Str(col) by {
            assert(d[j] == mapping[j]);
        }
        lemma_carried(d, s, i, col, v);
        assert(mapping[mapping.len() - 1].1 != JsonV::Str(col));
    }
    if let JsonV::Str(c) = last.1 {
        if let Some(x) = source_value(s, last.0) {
            law_get_after_put(carry(d, s), c, x, col);
        }
    }
}

/// A source gives a value for a field that is carried over.
spec fn gives(s: SourceV, f: Seq<char>) -> bool {
    match source_value(s, f) {
        Some(v) => carries(s, v),
        None => false,
    }
}

proof fn lemma_not_carried(mapping: ObjV, s: SourceV, col: Seq<char>)
    requires
        forall|i: int|
            0 <= i < mapping.len() && (#[trigger] mapping[i]).1 == JsonV::Str(col)
                ==> !gives(s, mapping[i].0),
    ensures
        obj_get(carry(mapping, s), col) is None,
    decreases mapping.len(),
{
    if mapping.len() > 0 {
        let d = mapping.drop_last();
        assert forall|i: int|
            0 <= i < d.len() && (#[trigger] d[i]).1 == JsonV::Str(col) implies !gives(
            s,
            d[i].0,
        ) by {
            assert(d[i] == mapping[i]);
        }
        lemma_not_carried(d, s, col);
        assert(mapping[mapping.len() - 1] == mapping.last());
        if let JsonV::Str(c) = mapping.last().1 {
            if let Some(x) = source_value(s, mapping.last().0) {
                law_get_after_put(carry(d, s), c, x, col);
            }
        }
    }
}

proof fn lemma_beside_fixed(row: ObjV, code: Seq<char>, col: Seq<char>)
    requires
        !fixed_column(col),
    ensures
        obj_get(
            obj_put(
                obj_put(
                    obj_put(row, "code"@, JsonV::Str(code)),
                    "lifecycle_status"@,
                    JsonV::Str("published"@),
                ),
                "published_version"@,
                JsonV::Num(number_of(1)),
            ),
            col,
        ) == obj_get(row, col),
{
    let a = obj_put(row, "code"@, JsonV::Str(code));
    let b = obj_put(a, "lifecycle_status"@, JsonV::Str("published"@));
    law_get_after_put(row, "code"@, JsonV::Str(code), col);
    law_get_after_put(a, "lifecycle_status"@, JsonV::Str("published"@), col);
    law_get_after_put(b, "published_version"@, JsonV::Num(number_of(1)), col);
}

proof fn lemma_beside_subject(row: ObjV, s: SourceV, name_col: Option<Seq<char>>, col: Seq<char>)
    requires
        name_col != Some(col),
    ensures
        obj_get(carry_subject(row, s, name_col), col) == obj_get(row, col),
{
    if let Some(c) = name_col {
        if let Some(v) = subject_value(s) {
            law_get_after_put(row, c, v, col);
        }
    }
}

/// A field of a request for a new record that is filled in ends up, as it is, in the column that
/// its entry of the mapping names, unless a later entry, the subject's name or a fixed column
/// takes that column.
pub proof fn law_create_carries(
    mapping: ObjV,
    name_col: Option<Seq<char>>,
    head: ObjV,
    code: Seq<char>,
    i: int,
    col: Seq<char>,
    v: JsonV,
)
    requires
        last_fills(mapping, i, col),
        name_col != Some(col),
        !fixed_column(col),
        requested(head, mapping[i].0, Some(v)),
        filled_in(v),
    ensures
        obj_get(create_row(mapping, name_col, head, code), col) == Some(v),
{
    let s = SourceV::Create { head };
    lemma_filled(v);
    lemma_carried(mapping, s, i, col, v);
    lemma_beside_subject(carry(mapping, s), s, name_col, col);
    lemma_beside_fixed(carry_subject(carry(mapping, s), s, name_col), code, col);
}

/// A field that is not filled in leaves its column out of a new record, where no other entry of
/// the mapping fills it.
pub proof fn law_create_leaves_out(
    mapping: ObjV,
    name_col: Option<Seq<char>>,
    head: ObjV,
    code: Seq<char>,
    i: int,
    col: Seq<char>,
    v: Option<JsonV>,
)
    requires
        alone_fills(mapping, i, col),
        name_col != Some(col),
        !fixed_column(col),
        requested(head, mapping[i].0, v),
        v matches Some(x) ==> !filled_in(x),
    ensures
        obj_get(create_row(mapping, name_col, head, code), col) is None,
{
    let s = SourceV::Create { head };
    if let Some(x) = v {
        lemma_filled(x);
    }
    lemma_not_carried(mapping, s, col);
    lemma_beside_subject(carry(mapping, s), s, name_col, col);
    lemma_beside_fixed(carry_subject(carry(mapping, s), s, name_col), code, col);
}

/// A new record has no column besides those that the mapping, the subject's name and the fixed
/// columns fill.
pub proof fn law_create_adds_nothing(
    mapping: ObjV,
    name_col: Option<Seq<char>>,
    head: ObjV,
    code: Seq<char>,
    col: Seq<char>,
)
    requires
        forall|j: int| 0 <= j < mapping.len() ==> (#[trigger] mapping[j]).1 != JsonV::Str(col),
        name_col != Some(col),
        !fixed_column(col),
    ensures
        obj_get(create_row(mapping, name_col, head, code), col) is None,
{
    let s = SourceV::Create { head };
    lemma_not_carried(mapping, s, col);
    lemma_beside_subject(carry(mapping, s), s, name_col, col);
    lemma_beside_fixed(carry_subject(carry(mapping, s), s, name_col), code, col);
}

/// The subject's name of a request ends up in the column that is set for it, where it is filled
/// in, whatever the mapping says of that column.
pub proof fn law_create_carries_subject(
    mapping: ObjV,
    head: ObjV,
    code: Seq<char>,
    col: Seq<char>,
    v: JsonV,
)
    requires
        col.len() > 0,
        !fixed_column(col),
        obj_get(head, "subject_name"@) == Some(v),
        filled_in(v),
    ensures
        obj_get(create_row(mapping, Some(col), head, code), col) == Some(v),
{
    let s = SourceV::Create { head };
    lemma_filled(v);
    law_get_after_put(carry(mapping, s), col, v, col);
    lemma_beside_fixed(carry_subject(carry(mapping, s), s, Some(col)), code, col);
}

/// The new value of a changed field ends up, as it is, in the column that its entry of the mapping
/// names; null too, which clears the column, but not the empty string.
pub proof fn law_update_carries(
    mapping: ObjV,
    name_col: Option<Seq<char>>,
    deltas: ObjV,
    version: i64,
    i: int,
    col: Seq<char>,
    v: JsonV,
)
    requires
        last_fills(mapping, i, col),
        name_col != Some(col),
        col != "published_version"@,
        changed_to(deltas, mapping[i].0, Some(v)),
        v != JsonV::Str(Seq::empty()),
    ensures
        obj_get(update_row(mapping, name_col, JsonV::Obj(deltas), version), col) == Some(v),
{
    let s = SourceV::Update { deltas };
    let n = JsonV::Num(number_of((version + 1) as i64));
    lemma_filled(v);
    lemma_carried(mapping, s, i, col, v);
    let row = carry_subject(carry(mapping, s), s, name_col);
    lemma_beside_subject(carry(mapping, s), s, name_col, col);
    law_get_after_put(row, "published_version"@, n, col);
}

/// A field without a change, or changed to the empty string, leaves its column alone, where no
/// other entry of the mapping fills it.
pub proof fn law_update_leaves_out(
    mapping: ObjV,
    name_col: Option<Seq<char>>,
    deltas: ObjV,
    version: i64,
    i: int,
    col: Seq<char>,
    v: Option<JsonV>,
)
    requires
        alone_fills(mapping, i, col),
        name_col != Some(col),
        col != "published_version"@,
        changed_to(deltas, mapping[i].0, v),
        v is None || v == Some(JsonV::Str(Seq::empty())),
    ensures
        obj_get(update_row(mapping, name_col, JsonV::Obj(deltas), version), col) is None,
{
    let s = SourceV::Update { deltas };
    let n = JsonV::Num(number_of((version + 1) as i64));
    if let Some(x) = v {
        lemma_filled(x);
    }
    lemma_not_carried(mapping, s, col);
    let row = carry_subject(carry(mapping, s), s, name_col);
    lemma_beside_subject(carry(mapping, s), s, name_col, col);
    law_get_after_put(row, "published_version"@, n, col);
}

/// The new name of the subject ends up in the column that is set for it.
pub proof fn law_update_carries_subject(
    mapping: ObjV,
    deltas: ObjV,
    version: i64,
    col: Seq<char>,
    v: JsonV,
)
    requires
        col.len() > 0,
        col != "published_version"@,
        changed_to(deltas, "subject_name"@, Some(v)),
        v != JsonV::Str(Seq::empty()),
    ensures
        obj_get(update_row(mapping, Some(col), JsonV::Obj(deltas), version), col) == Some(v),
{
    let s = SourceV::Update { deltas };
    let n = JsonV::Num(number_of((version + 1) as i64));
    lemma_filled(v);
    law_get_after_put(carry(mapping, s), col, v, col);
    law_get_after_put(
        carry_subject(carry(mapping, s), s, Some(col)),
        "published_version"@,
        n,
        col,
    );
}

/// Mapping `k` is the first for the type of a line.
pub open spec fn first_for_line(ms: Seq<LineMappingV>, line: JsonV, k: int) -> bool {
    &&& 0 <= k < ms.len()
    &&& json_get(line, "line_type"@) == Some(JsonV::Str(ms[k].line_type))
    &&& forall|j: int| 0 <= j < k ==> json_get(line, "line_type"@) != Some(
        JsonV::Str((#[trigger] ms[j]).line_type),
    )
}

/// No mapping is for the type of a line, or the line has none.
pub open spec fn no_mapping_for_line(ms: Seq<LineMappingV>, line: JsonV) -> bool {
    forall|j: int| 0 <= j < ms.len() ==> json_get(line, "line_type"@) != Some(
        JsonV::Str((#[trigger] ms[j]).line_type),
    )
}

proof fn lemma_first_mapping(ms: Seq<LineMappingV>, line: JsonV, k: int)
    requires
        first_for_line(ms, line, k),
    ensures
        mapping_for(ms, ms[k].line_type) == Some(ms[k]),
    decreases k,
{
    if k > 0 {
        let d = ms.drop_first();
        assert(json_get(line, "line_type"@) != Some(JsonV::Str(ms[0].line_type)));
        assert forall|j: int| 0 <= j < k - 1 implies json_get(line, "line_type"@) != Some(
            JsonV::Str((#[trigger] d[j]).line_type),
        ) by {
            assert(d[j] == ms[j + 1]);
        }
        assert(d[k - 1] == ms[k]);
        lemma_first_mapping(d, line, k - 1);
    }
}

proof fn lemma_no_mapping(ms: Seq<LineMappingV>, line: JsonV, t: Seq<char>)
    requires
        no_mapping_for_line(ms, line),
        json_get(line, "line_type"@) == Some(JsonV::Str(t)),
    ensures
        mapping_for(ms, t) is None,
    decreases ms.len(),
{
    if ms.len() > 0 {
        let d = ms.drop_first();
        assert(json_get(line, "line_type"@) != Some(JsonV::Str(ms[0].line_type)));
        assert forall|j: int| 0 <= j < d.len() implies json_get(line, "line_type"@) != Some(
            JsonV::Str((#[trigger] d[j]).line_type),
        ) by {
            assert(d[j] == ms[j + 1]);
        }
        lemma_no_mapping(d, line, t);
    }
}

/// One more line adds to the plan what it adds alone: a line that names a detail row updates that
/// row of the table that its mapping names, another is inserted there under its parent column, and
/// one without a mapping adds nothing. What was planned before stays.
pub proof fn law_line_is_planned(
    ms: Seq<LineMappingV>,
    lines: Seq<JsonV>,
    line: JsonV,
    header_id: i64,
)
    ensures
        ({
            let p = lines_plan(ms, lines, header_id);
            let n = lines_plan(ms, lines.push(line), header_id);
            &&& no_mapping_for_line(ms, line) ==> n == p
            &&& forall|k: int| #[trigger]
                first_for_line(ms, line, k) ==> match json_i64(
                    json_get(line, "line_target_id"@),
                ) {
                    Some(id) => {
                        &&& n.inserts == p.inserts
                        &&& n.updates.len() == p.updates.len() + 1
                        &&& n.updates.drop_last() == p.updates
                        &&& n.updates.last().0 == ms[k].target_table
                        &&& n.updates.last().1 == id
                    },
                    None => {
                        &&& n.updates == p.updates
                        &&& n.inserts.len() == p.inserts.len() + 1
                        &&& n.inserts.drop_last() == p.inserts
                        &&& n.inserts.last().0 == ms[k].target_table
                        &&& n.inserts.last().1 == ms[k].parent_field
                    },
                }
        }),
        lines_plan(ms, Seq::empty(), header_id).inserts.len() == 0,
        lines_plan(ms, Seq::empty(), header_id).updates.len() == 0,
{
    let p = lines_plan(ms, lines, header_id);
    let n = lines_plan(ms, lines.push(line), header_id);
    assert(lines.push(line).drop_last() =~= lines);
    if no_mapping_for_line(ms, line) {
        if let Some(t) = json_str(json_get(line, "line_type"@)) {
            lemma_no_mapping(ms, line, t);
        }
    }
    assert forall|k: int| #[trigger] first_for_line(ms, line, k) implies match json_i64(
        json_get(line, "line_target_id"@),
    ) {
        Some(id) => {
            &&& n.inserts == p.inserts
            &&& n.updates.len() == p.updates.len() + 1
            &&& n.updates.drop_last() == p.updates
            &&& n.updates.last().0 == ms[k].target_table
            &&& n.updates.last().1 == id
        },
        None => {
            &&& n.updates == p.updates
            &&& n.inserts.len() == p.inserts.len() + 1
            &&& n.inserts.drop_last() == p.inserts
            &&& n.inserts.last().0 == ms[k].target_table
            &&& n.inserts.last().1 == ms[k].parent_field
        },
    } by {
        lemma_first_mapping(ms, line, k);
        assert(line_mapping_of(ms, line) == Some(ms[k]));
        assert(n.updates.len() > p.updates.len() ==> n.updates.drop_last() =~= p.updates);
        assert(n.inserts.len() > p.inserts.len() ==> n.inserts.drop_last() =~= p.inserts);
    }
}

/// A field of a line that is filled in ends up, as it is, in the column that its entry of the
/// mapping names, unless a later entry takes that column or, for an inserted line, the parent
/// column or the state does. A line without that field has no such column, where no other entry
/// fills it.
pub proof fn law_line_carries(
    ms: Seq<LineMappingV>,
    lines: Seq<JsonV>,
    line: JsonV,
    header_id: i64,
    k: int,
    i: int,
    col: Seq<char>,
    payload: ObjV,
)
    requires
        first_for_line(ms, line, k),
        json_get(line, "line_payload"@) == Some(JsonV::Obj(payload)),
        last_fills(ms[k].fields, i, col),
        json_i64(json_get(line, "line_target_id"@)) is None ==> col != ms[k].parent_field && col
            != "lifecycle_status"@,
    ensures
        ({
            let n = lines_plan(ms, lines.push(line), header_id);
            let row = if json_i64(json_get(line, "line_target_id"@)) is Some {
                n.updates.last().2
            } else {
                n.inserts.last().2
            };
            let v = obj_get(payload, ms[k].fields[i].0);
            &&& v is Some && filled_in(v->Some_0) ==> obj_get(row, col) == v
            &&& !(v is Some && filled_in(v->Some_0)) && alone_fills(ms[k].fields, i, col)
                ==> obj_get(row, col) is None
        }),
{
    let n = lines_plan(ms, lines.push(line), header_id);
    let m = ms[k];
    let s = SourceV::Line { payload };
    assert(lines.push(line).drop_last() =~= lines);
    lemma_first_mapping(ms, line, k);
    assert(line_mapping_of(ms, line) == Some(m));
    let v = obj_get(payload, m.fields[i].0);
    if let Some(x) = v {
        lemma_filled(x);
        if filled_in(x) {
            lemma_carried(m.fields, s, i, col, x);
        }
    }
    if !(v is Some && filled_in(v->Some_0)) && alone_fills(m.fields, i, col) {
        lemma_not_carried(m.fields, s, col);
    }
    let a = line_fields(m, line);
    let b = obj_put(a, m.parent_field, JsonV::Num(number_of(header_id)));
    law_get_after_put(a, m.parent_field, JsonV::Num(number_of(header_id)), col);
    law_get_after_put(b, "lifecycle_status"@, JsonV::Str("published"@), col);
}

} // verus!
