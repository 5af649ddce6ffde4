//! From an approved change request to the rows of the master data: which fields are carried
//! over, where, and with which fixed values.

use crate::json::{
    json_get, json_i64, json_str, law_get_after_put, number_of, obj_get, obj_put, values_view, Json,
    JsonV, ObjV, Object,
};
use crate::match_algo::opt_text;
use crate::text::same_text;
use vstd::prelude::*;

verus! {

/// How one document type is turned into master data.
#[derive(Debug)]
pub struct ActivationConfig {
    pub activation_code: String,
    pub source_doc_type: String,
    /// `create` or `update`.
    pub cr_type: String,
    pub target_dict: String,
    pub target_table: String,
    /// From document field to column of the head table.
    pub header_mapping: Object,
    pub line_mappings: Vec<LineMapping>,
    pub code_rule_code: Option<String>,
    /// The column that takes the subject's name.
    pub subject_name_field: Option<String>,
    pub subject_code_field: Option<String>,
    pub header_groups: Vec<HeaderGroup>,
    pub doc_code_rules: Object,
    pub key_fields: Vec<KeyField>,
}

/// How one kind of detail line is turned into rows of a detail table.
#[derive(Debug)]
pub struct LineMapping {
    pub line_type: String,
    pub target_dict: String,
    pub target_table: String,
    /// The column that points at the head row.
    pub parent_field: String,
    /// From document field to column of the detail table.
    pub fields: Object,
    pub field_order: Vec<String>,
}

/// A field that identifies a record before it is created.
#[derive(Debug)]
pub struct KeyField {
    pub field: String,
    pub weight: u32,
    pub kind: String,
    /// Whether the field takes part in the search for duplicates.
    pub dedup: bool,
}

/// A group of head fields on a form.
#[derive(Debug)]
pub struct HeaderGroup {
    pub group_code: String,
    pub group_name: String,
    pub fields: Vec<String>,
}

/// The rows to write.
#[derive(Debug)]
pub struct ActivationPlan {
    pub header_row: Object,
    /// Detail table, parent column, row.
    pub line_rows: Vec<(String, String, Object)>,
}

/// The detail rows to write.
#[derive(Debug)]
pub struct LinesPlan {
    /// Detail table, parent column, row.
    pub inserts: Vec<(String, String, Object)>,
    /// Detail table, id of the row, row.
    pub updates: Vec<(String, i64, Object)>,
}

/// The weight of a key field that names none.
pub fn default_key_weight() -> (r: u32)
    ensures
        r == 100,
{
    100
}

/// The comparison of a key field that names none.
pub fn default_key_kind() -> (r: String)
    ensures
        r@ == "EditDistance"@,
{
    "EditDistance".to_owned()
}

/// Whether a key field that does not say so takes part in the search for duplicates.
pub fn default_key_dedup() -> (r: bool)
    ensures
        r,
{
    true
}

/// Null and the empty string count as not filled in.
pub open spec fn unfilled(v: JsonV) -> bool {
    v is Null || empty_str(v)
}

/// The empty string.
pub open spec fn empty_str(v: JsonV) -> bool {
    v matches JsonV::Str(s) && s.len() == 0
}

/// Whether a value counts as not filled in.
pub fn is_unfilled(v: &Json) -> (r: bool)
    ensures
        r == unfilled(v@),
{
    v.is_null() || is_empty_str(v)
}

/// Whether a value is the empty string.
pub fn is_empty_str(v: &Json) -> (r: bool)
    ensures
        r == empty_str(v@),
{
    match v.as_str() {
        Some(s) => s.as_str().is_empty(),
        None => false,
    }
}

/// Where the values of a row come from.
pub enum SourceV {
    /// A request for a new record: its payload first, then its head.
    Create { head: ObjV },
    /// The changes of a request on an existing record.
    Update { deltas: ObjV },
    /// The payload of a detail line.
    Line { payload: ObjV },
}

/// The value that a source has for a field.
pub open spec fn source_value(s: SourceV, k: Seq<char>) -> Option<JsonV> {
    match s {
        SourceV::Create { head } => match obj_get(head, "payload"@) {
            Some(JsonV::Obj(p)) => match obj_get(p, k) {
                Some(v) => Some(v),
                None => obj_get(head, k),
            },
            _ => obj_get(head, k),
        },
        SourceV::Update { deltas } => match obj_get(deltas, k) {
            Some(d) => json_get(d, "new"@),
            None => None,
        },
        SourceV::Line { payload } => obj_get(payload, k),
    }
}

/// Whether a value is carried over: an update keeps null, which clears a column.
pub open spec fn carries(s: SourceV, v: JsonV) -> bool {
    match s {
        SourceV::Update { .. } => !empty_str(v),
        _ => !unfilled(v),
    }
}

/// `row` with the value for `field` under column `col`, where there is one to carry over.
pub open spec fn carry_one(row: ObjV, s: SourceV, field: Seq<char>, col: Seq<char>) -> ObjV {
    match source_value(s, field) {
        Some(v) => if carries(s, v) {
            obj_put(row, col, v)
        } else {
            row
        },
        None => row,
    }
}

/// The values that a mapping carries over, in its order.
pub open spec fn carry(mapping: ObjV, s: SourceV) -> ObjV
    decreases mapping.len(),
{
    if mapping.len() == 0 {
        Seq::empty()
    } else {
        let row = carry(mapping.drop_last(), s);
        match mapping.last().1 {
            JsonV::Str(col) => carry_one(row, s, mapping.last().0, col),
            _ => row,
        }
    }
}

/// `row` with the subject's name, where a column is set for it.
pub open spec fn carry_subject(row: ObjV, s: SourceV, name_col: Option<Seq<char>>) -> ObjV {
    match name_col {
        Some(col) => if col.len() > 0 {
            match subject_value(s) {
                Some(v) => if carries(s, v) {
                    obj_put(row, col, v)
                } else {
                    row
                },
                None => row,
            }
        } else {
            row
        },
        None => row,
    }
}

/// The subject's name: a column of the request, apart from its payload.
pub open spec fn subject_value(s: SourceV) -> Option<JsonV> {
    match s {
        SourceV::Create { head } => obj_get(head, "subject_name"@),
        SourceV::Update { deltas } => match obj_get(deltas, "subject_name"@) {
            Some(d) => json_get(d, "new"@),
            None => None,
        },
        SourceV::Line { payload } => None,
    }
}

/// A head row for a new record.
pub open spec fn create_row(
    mapping: ObjV,
    name_col: Option<Seq<char>>,
    head: ObjV,
    code: Seq<char>,
) -> ObjV {
    let s = SourceV::Create { head };
    obj_put(
        obj_put(
            obj_put(carry_subject(carry(mapping, s), s, name_col), "code"@, JsonV::Str(code)),
            "lifecycle_status"@,
            JsonV::Str("published"@),
        ),
        "published_version"@,
        JsonV::Num(number_of(1)),
    )
}

/// The changed columns of an existing head row.
pub open spec fn update_row(
    mapping: ObjV,
    name_col: Option<Seq<char>>,
    deltas: JsonV,
    version: i64,
) -> ObjV {
    let row = match deltas {
        JsonV::Obj(d) => carry_subject(
            carry(mapping, SourceV::Update { deltas: d }),
            SourceV::Update { deltas: d },
            name_col,
        ),
        _ => Seq::empty(),
    };
    obj_put(row, "published_version"@, JsonV::Num(number_of((version + 1) as i64)))
}

enum Source<'a> {
    Create { head: &'a Object },
    Update { deltas: &'a Object },
    Line { payload: &'a Object },
}

impl<'a> Source<'a> {
    spec fn view(&self) -> SourceV {
        match *self {
            Source::Create { head } => SourceV::Create { head: head@ },
            Source::Update { deltas } => SourceV::Update { deltas: deltas@ },
            Source::Line { payload } => SourceV::Line { payload: payload@ },
        }
    }

    fn value(&self, k: &str) -> (r: Option<&Json>)
        ensures
            match r {
                Some(v) => source_value(self@, k@) == Some(v@),
                None => source_value(self@, k@) is None,
            },
    {
        match self {
            Source::Create { head } => {
                if let Some(Json::Obj(p)) = head.get("payload") {
                    if let Some(v) = p.get(k) {
                        return Some(v);
                    }
                }
                head.get(k)
            },
            Source::Update { deltas } => match deltas.get(k) {
                Some(d) => d.get("new"),
                None => None,
            },
            Source::Line { payload } => payload.get(k),
        }
    }

    fn subject(&self) -> (r: Option<&Json>)
        ensures
            match r {
                Some(v) => subject_value(self@) == Some(v@),
                None => subject_value(self@) is None,
            },
    {
        match self {
            Source::Create { head } => head.get("subject_name"),
            Source::Update { deltas } => match deltas.get("subject_name") {
                Some(d) => d.get("new"),
                None => None,
            },
            Source::Line { .. } => None,
        }
    }

    fn carries(&self, v: &Json) -> (r: bool)
        ensures
            r == carries(self@, v@),
    {
        match self {
            Source::Update { .. } => !is_empty_str(v),
            _ => !is_unfilled(v),
        }
    }

    fn carry(&self, mapping: &Object) -> (row: Object)
        ensures
            row@ == carry(mapping@, self@),
    {
        let mut row = Object::new();
        let n: usize = mapping.len();
        let mut i: usize = 0;
        assert(mapping@.take(0) =~= ObjV::empty());
        while i < n
            invariant
                i <= n,
                n == mapping@.len(),
                row@ == carry(mapping@.take(i as int), self@),
            decreases n - i,
        {
            proof {
                assert(mapping@.take(i + 1).drop_last() =~= mapping@.take(i as int));
                assert(mapping@.take(i + 1).last() == mapping@[i as int]);
            }
            if let Some(col) = mapping.value_at(i).as_str() {
                if let Some(v) = self.value(mapping.key_at(i).as_str()) {
                    if self.carries(v) {
                        row.insert(col.clone(), v.clone());
                    }
                }
            }
            i += 1;
        }
        assert(mapping@.take(n as int) =~= mapping@);
        row
    }

    fn carry_subject(&self, row: &mut Object, name_col: &Option<String>)
        ensures
            final(row)@ == carry_subject(old(row)@, self@, opt_text(*name_col)),
    {
        if let Some(col) = name_col {
            if !col.as_str().is_empty() {
                if let Some(v) = self.subject() {
                    if self.carries(v) {
                        row.insert(col.clone(), v.clone());
                    }
                }
            }
        }
    }
}

/// The head row of a new record: the mapped fields and the subject's name, where they are filled
/// in; then its code, the state `published` and version 1.
pub fn plan_create(cfg: &ActivationConfig, cr_head: &Object, new_code: &str) -> (plan:
    ActivationPlan)
    ensures
        plan.header_row@ == create_row(
            cfg.header_mapping@,
            opt_text(cfg.subject_name_field),
            cr_head@,
            new_code@,
        ),
        plan.line_rows@.len() == 0,
{
    let s = Source::Create { head: cr_head };
    let mut row = s.carry(&cfg.header_mapping);
    s.carry_subject(&mut row, &cfg.subject_name_field);
    row.insert("code".to_owned(), Json::string(new_code));
    row.insert("lifecycle_status".to_owned(), Json::string("published"));
    row.insert("published_version".to_owned(), Json::integer(1));
    ActivationPlan { header_row: row, line_rows: Vec::new() }
}

/// The changed columns of an existing record: the new values of the mapped fields and of the
/// subject's name, but no empty string; then the next version.
pub fn plan_update(
    cfg: &ActivationConfig,
    cr_head: &Object,
    field_deltas: &Json,
    current_version: i64,
) -> (plan: ActivationPlan)
    requires
        current_version < i64::MAX,
    ensures
        plan.header_row@ == update_row(
            cfg.header_mapping@,
            opt_text(cfg.subject_name_field),
            field_deltas@,
            current_version,
        ),
        plan.line_rows@.len() == 0,
{
    let mut row = Object::new();
    if let Some(deltas) = field_deltas.as_object() {
        let s = Source::Update { deltas };
        row = s.carry(&cfg.header_mapping);
        s.carry_subject(&mut row, &cfg.subject_name_field);
    }
    row.insert("published_version".to_owned(), Json::integer(current_version + 1));
    ActivationPlan { header_row: row, line_rows: Vec::new() }
}

/// What a line mapping stands for, as far as rows depend on it.
#[verifier::ext_equal]
pub struct LineMappingV {
    pub line_type: Seq<char>,
    pub target_table: Seq<char>,
    pub parent_field: Seq<char>,
    pub fields: ObjV,
}

impl LineMapping {
    pub open spec fn view(&self) -> LineMappingV {
        LineMappingV {
            line_type: self.line_type@,
            target_table: self.target_table@,
            parent_field: self.parent_field@,
            fields: self.fields@,
        }
    }
}

/// The views of a list of line mappings.
pub open spec fn mappings_view(m: Seq<LineMapping>) -> Seq<LineMappingV> {
    Seq::new(m.len(), |i: int| m[i]@)
}

/// The first mapping for a line type.
pub open spec fn mapping_for(ms: Seq<LineMappingV>, line_type: Seq<char>) -> Option<LineMappingV>
    decreases ms.len(),
{
    if ms.len() == 0 {
        None
    } else if ms[0].line_type == line_type {
        Some(ms[0])
    } else {
        mapping_for(ms.drop_first(), line_type)
    }
}

/// What a plan for detail lines stands for.
#[verifier::ext_equal]
pub struct LinesPlanV {
    pub inserts: Seq<(Seq<char>, Seq<char>, ObjV)>,
    pub updates: Seq<(Seq<char>, i64, ObjV)>,
}

impl LinesPlan {
    pub open spec fn view(&self) -> LinesPlanV {
        LinesPlanV {
            inserts: self.inserts@.map_values(
                |r: (String, String, Object)| (r.0@, r.1@, r.2@),
            ),
            updates: self.updates@.map_values(|r: (String, i64, Object)| (r.0@, r.1, r.2@)),
        }
    }
}

/// The mapping that applies to a line.
pub open spec fn line_mapping_of(ms: Seq<LineMappingV>, line: JsonV) -> Option<LineMappingV> {
    match json_str(json_get(line, "line_type"@)) {
        Some(t) => mapping_for(ms, t),
        None => None,
    }
}

/// The business fields of a line.
pub open spec fn line_fields(m: LineMappingV, line: JsonV) -> ObjV {
    match json_get(line, "line_payload"@) {
        Some(JsonV::Obj(p)) => carry(m.fields, SourceV::Line { payload: p }),
        _ => Seq::empty(),
    }
}

/// The row of a new detail line.
pub open spec fn line_insert_row(m: LineMappingV, line: JsonV, header_id: i64) -> ObjV {
    obj_put(
        obj_put(line_fields(m, line), m.parent_field, JsonV::Num(number_of(header_id))),
        "lifecycle_status"@,
        JsonV::Str("published"@),
    )
}

/// The plan for the lines: a line that points at a detail row updates it, another is inserted;
/// lines without a mapping are passed over.
pub open spec fn lines_plan(ms: Seq<LineMappingV>, lines: Seq<JsonV>, header_id: i64) -> LinesPlanV
    decreases lines.len(),
{
    if lines.len() == 0 {
        LinesPlanV { inserts: Seq::empty(), updates: Seq::empty() }
    } else {
        let p = lines_plan(ms, lines.drop_last(), header_id);
        let line = lines.last();
        match line_mapping_of(ms, line) {
            None => p,
            Some(m) => match json_i64(json_get(line, "line_target_id"@)) {
                Some(id) => LinesPlanV {
                    inserts: p.inserts,
                    updates: p.updates.push((m.target_table, id, line_fields(m, line))),
                },
                None => LinesPlanV {
                    inserts: p.inserts.push(
                        (m.target_table, m.parent_field, line_insert_row(m, line, header_id)),
                    ),
                    updates: p.updates,
                },
            },
        }
    }
}

fn find_mapping<'a>(ms: &'a Vec<LineMapping>, line_type: &str) -> (r: Option<&'a LineMapping>)
    ensures
        match r {
            Some(m) => mapping_for(mappings_view(ms@), line_type@) == Some(m@),
            None => mapping_for(mappings_view(ms@), line_type@) is None,
        },
{
    let ghost all = mappings_view(ms@);
    let mut i: usize = 0;
    assert(all.skip(0) =~= all);
    while i < ms.len()
        invariant
            i <= ms@.len(),
            all == mappings_view(ms@),
            mapping_for(all, line_type@) == mapping_for(all.skip(i as int), line_type@),
        decreases ms@.len() - i,
    {
        assert(all.skip(i as int)[0] == ms@[i as int]@);
        assert(all.skip(i as int).drop_first() =~= all.skip(i + 1));
        if same_text(ms[i].line_type.as_str(), line_type) {
            return Some(&ms[i]);
        }
        i += 1;
    }
    None
}

/// Plans the detail rows of a request.
pub fn plan_lines(cfg: &ActivationConfig, cr_lines: &[Json], header_id: i64) -> (plan: LinesPlan)
    ensures
        plan@ == lines_plan(mappings_view(cfg.line_mappings@), values_view(cr_lines@), header_id),
{
    let ghost ms = mappings_view(cfg.line_mappings@);
    let ghost all = values_view(cr_lines@);
    let mut plan = LinesPlan { inserts: Vec::new(), updates: Vec::new() };
    let mut i: usize = 0;
    assert(all.take(0) =~= Seq::<JsonV>::empty());
    assert(plan@ =~= lines_plan(ms, all.take(0), header_id));
    while i < cr_lines.len()
        invariant
            i <= cr_lines@.len(),
            ms == mappings_view(cfg.line_mappings@),
            all == values_view(cr_lines@),
            plan@ == lines_plan(ms, all.take(i as int), header_id),
        decreases cr_lines@.len() - i,
    {
        let line = &cr_lines[i];
        let ghost before = plan@;
        let ghost inserts0 = plan.inserts@;
        let ghost updates0 = plan.updates@;
        proof {
            assert(all.take(i + 1).drop_last() =~= all.take(i as int));
            assert(all.take(i + 1).last() == line@);
        }
        if let Some(Json::Str(t)) = line.get("line_type") {
            if let Some(m) = find_mapping(&cfg.line_mappings, t.as_str()) {
                let mut row = match line.get("line_payload") {
                    Some(Json::Obj(p)) => (Source::Line { payload: p }).carry(&m.fields),
                    _ => Object::new(),
                };
                assert(row@ == line_fields(m@, line@));
                let target: Option<i64> = match line.get("line_target_id") {
                    Some(v) => v.as_i64(),
                    None => None,
                };
                match target {
                    Some(id) => {
                        plan.updates.push((m.target_table.clone(), id, row));
                        assert(plan@.updates =~= before.updates.push(
                            (m@.target_table, id, line_fields(m@, line@)),
                        ));
                        assert(plan@.inserts =~= before.inserts);
                    },
                    None => {
                        row.insert(m.parent_field.clone(), Json::integer(header_id));
                        row.insert("lifecycle_status".to_owned(), Json::string("published"));
                        plan.inserts.push((m.target_table.clone(), m.parent_field.clone(), row));
                        assert(plan@.inserts =~= before.inserts.push(
                            (
                                m@.target_table,
                                m@.parent_field,
                                line_insert_row(m@, line@, header_id),
                            ),
                        ));
                        assert(plan@.updates =~= before.updates);
                    },
                }
            }
        }
        i += 1;
    }
    assert(all.take(all.len() as int) =~= all);
    plan
}

proof fn lemma_column_names()
    ensures
        "code"@ != "lifecycle_status"@,
        "code"@ != "published_version"@,
        "lifecycle_status"@ != "published_version"@,
{
    reveal_strlit("code");
    reveal_strlit("lifecycle_status");
    reveal_strlit("published_version");
    assert("code"@.len() == 4);
    assert("lifecycle_status"@.len() == 16);
    assert("published_version"@.len() == 17);
}

/// Only values that are carried over stand in a carried row.
proof fn lemma_carry_values(mapping: ObjV, s: SourceV, col: Seq<char>)
    ensures
        obj_get(carry(mapping, s), col) matches Some(v) ==> carries(s, v),
    decreases mapping.len(),
{
    if mapping.len() > 0 {
        lemma_carry_values(mapping.drop_last(), s, col);
        let row = carry(mapping.drop_last(), s);
        if let JsonV::Str(c) = mapping.last().1 {
            if let Some(v) = source_value(s, mapping.last().0) {
                law_get_after_put(row, c, v, col);
            }
        }
    }
}

proof fn lemma_subject_values(row: ObjV, s: SourceV, name_col: Option<Seq<char>>, col: Seq<char>)
    requires
        obj_get(row, col) matches Some(v) ==> carries(s, v),
    ensures
        obj_get(carry_subject(row, s, name_col), col) matches Some(v) ==> carries(s, v),
{
    if let Some(c) = name_col {
        if let Some(v) = subject_value(s) {
            law_get_after_put(row, c, v, col);
        }
    }
}

/// Whether a mapping or the subject's name fills a column.
pub open spec fn fills(mapping: ObjV, name_col: Option<Seq<char>>, col: Seq<char>) -> bool {
    name_col == Some(col) || exists|i: int|
        0 <= i < mapping.len() && (#[trigger] mapping[i]).1 == JsonV::Str(col)
}

/// A column that no mapping fills is not in a carried row.
proof fn lemma_carry_other(mapping: ObjV, s: SourceV, col: Seq<char>)
    requires
        forall|i: int| 0 <= i < mapping.len() ==> (#[trigger] mapping[i]).1 != JsonV::Str(col),
    ensures
        obj_get(carry(mapping, s), col) is None,
    decreases mapping.len(),
{
    if mapping.len() > 0 {
        let d = mapping.drop_last();
        assert forall|i: int| 0 <= i < d.len() implies (#[trigger] d[i]).1 != JsonV::Str(col) by {
            assert(d[i] == mapping[i]);
        }
        lemma_carry_other(d, s, col);
        assert(mapping[mapping.len() - 1].1 != JsonV::Str(col));
        if let JsonV::Str(c) = mapping.last().1 {
            if let Some(v) = source_value(s, mapping.last().0) {
                law_get_after_put(carry(d, s), c, v, col);
            }
        }
    }
}

/// A new record always has the given code, the state `published` and version 1, whatever the
/// mapping and the request say.
pub proof fn law_create_row_fixed(
    mapping: ObjV,
    name_col: Option<Seq<char>>,
    head: ObjV,
    code: Seq<char>,
)
    ensures
        obj_get(create_row(mapping, name_col, head, code), "code"@) == Some(JsonV::Str(code)),
        obj_get(create_row(mapping, name_col, head, code), "lifecycle_status"@) == Some(
            JsonV::Str("published"@),
        ),
        obj_get(create_row(mapping, name_col, head, code), "published_version"@) == Some(
            JsonV::Num(number_of(1)),
        ),
{
    lemma_column_names();
    let s = SourceV::Create { head };
    let a = carry_subject(carry(mapping, s), s, name_col);
    let b = obj_put(a, "code"@, JsonV::Str(code));
    let c = obj_put(b, "lifecycle_status"@, JsonV::Str("published"@));
    let v = JsonV::Num(number_of(1));
    law_get_after_put(a, "code"@, JsonV::Str(code), "code"@);
    law_get_after_put(b, "lifecycle_status"@, JsonV::Str("published"@), "code"@);
    law_get_after_put(b, "lifecycle_status"@, JsonV::Str("published"@), "lifecycle_status"@);
    law_get_after_put(c, "published_version"@, v, "code"@);
    law_get_after_put(c, "published_version"@, v, "lifecycle_status"@);
    law_get_after_put(c, "published_version"@, v, "published_version"@);
}

/// Apart from the fixed columns, a new record has no null and no empty string.
pub proof fn law_create_row_filled(
    mapping: ObjV,
    name_col: Option<Seq<char>>,
    head: ObjV,
    code: Seq<char>,
    col: Seq<char>,
)
    requires
        col != "code"@,
    ensures
        obj_get(create_row(mapping, name_col, head, code), col) matches Some(v) ==> !unfilled(v),
{
    let s = SourceV::Create { head };
    lemma_carry_values(mapping, s, col);
    lemma_subject_values(carry(mapping, s), s, name_col, col);
    let a = carry_subject(carry(mapping, s), s, name_col);
    let b = obj_put(a, "code"@, JsonV::Str(code));
    let c = obj_put(b, "lifecycle_status"@, JsonV::Str("published"@));
    law_get_after_put(a, "code"@, JsonV::Str(code), col);
    law_get_after_put(b, "lifecycle_status"@, JsonV::Str("published"@), col);
    law_get_after_put(c, "published_version"@, JsonV::Num(number_of(1)), col);
    reveal_strlit("published");
    assert("published"@.len() == 9);
}

/// An update raises the version by one and writes no empty string.
pub proof fn law_update_row(
    mapping: ObjV,
    name_col: Option<Seq<char>>,
    deltas: JsonV,
    version: i64,
    col: Seq<char>,
)
    requires
        version < i64::MAX,
    ensures
        obj_get(update_row(mapping, name_col, deltas, version), "published_version"@) == Some(
            JsonV::Num(number_of((version + 1) as i64)),
        ),
        obj_get(update_row(mapping, name_col, deltas, version), col) matches Some(v) ==> !empty_str(
            v,
        ),
{
    let n = JsonV::Num(number_of((version + 1) as i64));
    let row = match deltas {
        JsonV::Obj(d) => carry_subject(
            carry(mapping, SourceV::Update { deltas: d }),
            SourceV::Update { deltas: d },
            name_col,
        ),
        _ => Seq::empty(),
    };
    if let JsonV::Obj(d) = deltas {
        let s = SourceV::Update { deltas: d };
        lemma_carry_values(mapping, s, col);
        lemma_subject_values(carry(mapping, s), s, name_col, col);
    }
    law_get_after_put(row, "published_version"@, n, "published_version"@);
    law_get_after_put(row, "published_version"@, n, col);
}

/// An update leaves alone every column that neither the mapping nor the subject's name fills,
/// the state of the record among them.
pub proof fn law_update_row_leaves(
    mapping: ObjV,
    name_col: Option<Seq<char>>,
    deltas: JsonV,
    version: i64,
    col: Seq<char>,
)
    requires
        version < i64::MAX,
        !fills(mapping, name_col, col),
        col != "published_version"@,
    ensures
        obj_get(update_row(mapping, name_col, deltas, version), col) is None,
{
    let n = JsonV::Num(number_of((version + 1) as i64));
    match deltas {
        JsonV::Obj(d) => {
            let s = SourceV::Update { deltas: d };
            lemma_carry_other(mapping, s, col);
            let a = carry(mapping, s);
            if let Some(c) = name_col {
                if let Some(v) = subject_value(s) {
                    law_get_after_put(a, c, v, col);
                }
            }
            law_get_after_put(carry_subject(a, s, name_col), "published_version"@, n, col);
        },
        _ => {
            law_get_after_put(Seq::empty(), "published_version"@, n, col);
        },
    }
}

/// How many lines have a mapping.
pub open spec fn mapped_lines(ms: Seq<LineMappingV>, lines: Seq<JsonV>) -> nat
    decreases lines.len(),
{
    if lines.len() == 0 {
        0
    } else {
        mapped_lines(ms, lines.drop_last()) + (if line_mapping_of(ms, lines.last()) is Some {
            1nat
        } else {
            0nat
        })
    }
}

/// Every inserted line is `published` and, unless its parent column is the state itself, points
/// at the head row; every updated line names the row that it changes; each line with a mapping is
/// inserted or updated, once.
pub proof fn law_lines_plan(ms: Seq<LineMappingV>, lines: Seq<JsonV>, header_id: i64)
    ensures
        forall|i: int|
            0 <= i < lines_plan(ms, lines, header_id).inserts.len() ==> {
                let r = #[trigger] lines_plan(ms, lines, header_id).inserts[i];
                &&& obj_get(r.2, "lifecycle_status"@) == Some(JsonV::Str("published"@))
                &&& r.1 != "lifecycle_status"@ ==> obj_get(r.2, r.1) == Some(
                    JsonV::Num(number_of(header_id)),
                )
            },
        forall|i: int|
            0 <= i < lines_plan(ms, lines, header_id).updates.len() ==> exists|j: int|
                0 <= j < lines.len() && json_i64(
                    json_get(#[trigger] lines[j], "line_target_id"@),
                ) == Some((#[trigger] lines_plan(ms, lines, header_id).updates[i]).1),
        lines_plan(ms, lines, header_id).inserts.len() + lines_plan(
            ms,
            lines,
            header_id,
        ).updates.len() == mapped_lines(ms, lines),
    decreases lines.len(),
{
    if lines.len() > 0 {
        let d = lines.drop_last();
        law_lines_plan(ms, d, header_id);
        let p0 = lines_plan(ms, d, header_id);
        let p = lines_plan(ms, lines, header_id);
        let line = lines.last();
        if let Some(m) = line_mapping_of(ms, line) {
            let a = line_fields(m, line);
            let b = obj_put(a, m.parent_field, JsonV::Num(number_of(header_id)));
            let pub_v = JsonV::Str("published"@);
            law_get_after_put(b, "lifecycle_status"@, pub_v, "lifecycle_status"@);
            law_get_after_put(b, "lifecycle_status"@, pub_v, m.parent_field);
            law_get_after_put(
                a,
                m.parent_field,
                JsonV::Num(number_of(header_id)),
                m.parent_field,
            );
        }
        assert forall|i: int| 0 <= i < p.inserts.len() implies {
            let r = #[trigger] p.inserts[i];
            &&& obj_get(r.2, "lifecycle_status"@) == Some(JsonV::Str("published"@))
            &&& r.1 != "lifecycle_status"@ ==> obj_get(r.2, r.1) == Some(
                JsonV::Num(number_of(header_id)),
            )
        } by {
            if i < p0.inserts.len() {
                assert(p.inserts[i] == p0.inserts[i]);
            }
        }
        assert forall|i: int| 0 <= i < p.updates.len() implies exists|j: int|
            0 <= j < lines.len() && json_i64(json_get(#[trigger] lines[j], "line_target_id"@))
                == Some((#[trigger] p.updates[i]).1) by {
            if i < p0.updates.len() {
                assert(p.updates[i] == p0.updates[i]);
                let j = choose|j: int|
                    0 <= j < d.len() && json_i64(json_get(#[trigger] d[j], "line_target_id"@))
                        == Some(p0.updates[i].1);
                assert(lines[j] == d[j]);
            } else {
                assert(lines[lines.len() - 1] == line);
            }
        }
    }
}

} // verus!
