//! The mappings by which change requests become records.

use crate::activation::{ActivationConfig, HeaderGroup, KeyField, LineMapping};
use crate::distribution::transform::{text_at, text_member};
use crate::handlers::put;
use crate::json::{array, json_get, obj_put, values_view, Json, JsonV, Number, NumberV, Object};
use crate::match_algo::opt_text;
use crate::outside::{json_text, value_text};
use crate::sql::{params_view, text_param, SqlV, SqlValue, Statement, StatementV};
use crate::store::jsonb::{parse_jsonb_field, parsed_field};
use crate::store::query::{filter_of, filter_text, opt_str, statement, Filter, FilterV};
use crate::text::{join, joined, same_text, texts};
use vstd::prelude::*;

verus! {

/// The mapping of a kind of document.
pub fn find_by_doc_type(source_doc_type: &str, cr_type: &str) -> (r: Statement)
    ensures
        r.sql@
            == "SELECT activation_code, source_doc_type, cr_type, target_dict, target_table, header_mapping, line_mappings, code_rule_code, subject_name_field, subject_code_field, doc_code_rules, key_fields FROM mdm_activation WHERE source_doc_type = $1 AND cr_type = $2 AND is_active = TRUE LIMIT 1"@,
        params_view(r.params@) == seq![SqlV::Text(source_doc_type@), SqlV::Text(cr_type@)],
{
    let mut params: Vec<SqlValue> = Vec::new();
    params.push(text_param(source_doc_type));
    params.push(text_param(cr_type));
    assert(params_view(params@) =~= seq![SqlV::Text(source_doc_type@), SqlV::Text(cr_type@)]);
    statement(
        "SELECT activation_code, source_doc_type, cr_type, target_dict, target_table, header_mapping, line_mappings, code_rule_code, subject_name_field, subject_code_field, doc_code_rules, key_fields FROM mdm_activation WHERE source_doc_type = $1 AND cr_type = $2 AND is_active = TRUE LIMIT 1",
        params,
    )
}

/// A mapping, from its row: its columns with JSON are read back.
pub open spec fn activation_row(v: JsonV) -> JsonV {
    parsed_field(
        parsed_field(
            parsed_field(
                parsed_field(parsed_field(v, "header_mapping"@), "line_mappings"@),
                "header_groups"@,
            ),
            "doc_code_rules"@,
        ),
        "key_fields"@,
    )
}

/// Reads the columns with JSON of a mapping back.
pub fn read_activation_row(v: &mut Json)
    ensures
        final(v)@ == activation_row(old(v)@),
{
    parse_jsonb_field(v, "header_mapping");
    parse_jsonb_field(v, "line_mappings");
    parse_jsonb_field(v, "header_groups");
    parse_jsonb_field(v, "doc_code_rules");
    parse_jsonb_field(v, "key_fields");
}

/// The filter of a list of mappings.
pub open spec fn activation_filter(
    source_doc_type: Option<Seq<char>>,
    cr_type: Option<Seq<char>>,
    target_dict: Option<Seq<char>>,
) -> FilterV {
    filter_text(
        filter_text(
            filter_text(filter_of("is_active = TRUE"@), "source_doc_type = "@, source_doc_type),
            "cr_type = "@,
            cr_type,
        ),
        "target_dict = "@,
        target_dict,
    )
}

/// The mappings in force.
pub fn list(source_doc_type: Option<&str>, cr_type: Option<&str>, target_dict: Option<&str>) -> (r:
    Statement)
    ensures
        ({
            let f = activation_filter(
                opt_str(source_doc_type),
                opt_str(cr_type),
                opt_str(target_dict),
            );
            r@ == (StatementV {
                sql: "SELECT id, activation_code, source_doc_type, cr_type, target_dict, target_table, header_mapping, line_mappings, code_rule_code, subject_name_field, subject_code_field, header_groups, doc_code_rules, key_fields, is_active FROM mdm_activation WHERE "@
                    + join(f.clauses, " AND "@) + " ORDER BY activation_code"@,
                params: f.params,
            })
        }),
{
    let mut f = Filter::new("is_active = TRUE");
    f.text("source_doc_type = ", source_doc_type);
    f.text("cr_type = ", cr_type);
    f.text("target_dict = ", target_dict);
    let mut sql: String =
        "SELECT id, activation_code, source_doc_type, cr_type, target_dict, target_table, header_mapping, line_mappings, code_rule_code, subject_name_field, subject_code_field, header_groups, doc_code_rules, key_fields, is_active FROM mdm_activation WHERE ".to_owned();
    sql.append(joined(&f.clauses, " AND ").as_str());
    sql.append(" ORDER BY activation_code");
    Statement { sql, params: f.params }
}

/// Texts as JSON.
pub open spec fn texts_json(t: Seq<Seq<char>>) -> JsonV {
    JsonV::Arr(Seq::new(t.len(), |i: int| JsonV::Str(t[i])))
}

fn texts_value(t: &Vec<String>) -> (r: Json)
    ensures
        r@ == texts_json(texts(t@)),
{
    let mut a: Vec<Json> = Vec::new();
    let mut i: usize = 0;
    while i < t.len()
        invariant
            i <= t@.len(),
            a@.len() == i,
            forall|j: int| 0 <= j < i ==> (#[trigger] a@[j])@ == JsonV::Str(t@[j]@),
        decreases t@.len() - i,
    {
        a.push(Json::string(t[i].as_str()));
        i += 1;
    }
    assert(values_view(a@) =~= texts_json(texts(t@))->Arr_0);
    array(a)
}

/// A mapping of detail lines as it is stored.
pub open spec fn line_mapping_json(m: LineMapping) -> JsonV {
    let o = obj_put(Seq::empty(), "lineType"@, JsonV::Str(m.line_type@));
    let o = obj_put(o, "targetDict"@, JsonV::Str(m.target_dict@));
    let o = obj_put(o, "targetTable"@, JsonV::Str(m.target_table@));
    let o = obj_put(o, "parentIdField"@, JsonV::Str(m.parent_field@));
    let o = obj_put(o, "fields"@, JsonV::Obj(m.fields@));
    JsonV::Obj(obj_put(o, "fieldOrder"@, texts_json(texts(m.field_order@))))
}

/// A group of head fields as it is stored.
pub open spec fn header_group_json(g: HeaderGroup) -> JsonV {
    let o = obj_put(Seq::empty(), "groupCode"@, JsonV::Str(g.group_code@));
    let o = obj_put(o, "groupName"@, JsonV::Str(g.group_name@));
    JsonV::Obj(obj_put(o, "fields"@, texts_json(texts(g.fields@))))
}

/// A key field as it is stored.
pub open spec fn key_field_json(k: KeyField) -> JsonV {
    let o = obj_put(Seq::empty(), "field"@, JsonV::Str(k.field@));
    let o = obj_put(o, "weight"@, JsonV::Num(NumberV::PosInt(k.weight as u64)));
    let o = obj_put(o, "kind"@, JsonV::Str(k.kind@));
    JsonV::Obj(obj_put(o, "dedup"@, JsonV::Bool(k.dedup)))
}

/// The mappings of detail lines as they are stored.
pub open spec fn line_mappings_json(m: Seq<LineMapping>) -> JsonV {
    JsonV::Arr(Seq::new(m.len(), |i: int| line_mapping_json(m[i])))
}

/// The groups of head fields as they are stored.
pub open spec fn header_groups_json(g: Seq<HeaderGroup>) -> JsonV {
    JsonV::Arr(Seq::new(g.len(), |i: int| header_group_json(g[i])))
}

/// The key fields as they are stored.
pub open spec fn key_fields_json(k: Seq<KeyField>) -> JsonV {
    JsonV::Arr(Seq::new(k.len(), |i: int| key_field_json(k[i])))
}

fn line_mapping_value(m: &LineMapping) -> (r: Json)
    ensures
        r@ == line_mapping_json(*m),
{
    let o = put(Object::new(), "lineType", Json::string(m.line_type.as_str()));
    let o = put(o, "targetDict", Json::string(m.target_dict.as_str()));
    let o = put(o, "targetTable", Json::string(m.target_table.as_str()));
    let o = put(o, "parentIdField", Json::string(m.parent_field.as_str()));
    let o = put(o, "fields", Json::Obj(m.fields.clone()));
    Json::Obj(put(o, "fieldOrder", texts_value(&m.field_order)))
}

fn line_mappings_value(m: &Vec<LineMapping>) -> (r: Json)
    ensures
        r@ == line_mappings_json(m@),
{
    let mut a: Vec<Json> = Vec::new();
    let mut i: usize = 0;
    while i < m.len()
        invariant
            i <= m@.len(),
            a@.len() == i,
            forall|j: int| 0 <= j < i ==> (#[trigger] a@[j])@ == line_mapping_json(m@[j]),
        decreases m@.len() - i,
    {
        a.push(line_mapping_value(&m[i]));
        i += 1;
    }
    assert(values_view(a@) =~= line_mappings_json(m@)->Arr_0);
    array(a)
}

fn header_groups_value(g: &Vec<HeaderGroup>) -> (r: Json)
    ensures
        r@ == header_groups_json(g@),
{
    let mut a: Vec<Json> = Vec::new();
    let mut i: usize = 0;
    while i < g.len()
        invariant
            i <= g@.len(),
            a@.len() == i,
            forall|j: int| 0 <= j < i ==> (#[trigger] a@[j])@ == header_group_json(g@[j]),
        decreases g@.len() - i,
    {
        let o = put(Object::new(), "groupCode", Json::string(g[i].group_code.as_str()));
        let o = put(o, "groupName", Json::string(g[i].group_name.as_str()));
        a.push(Json::Obj(put(o, "fields", texts_value(&g[i].fields))));
        i += 1;
    }
    assert(values_view(a@) =~= header_groups_json(g@)->Arr_0);
    array(a)
}

fn key_fields_value(k: &Vec<KeyField>) -> (r: Json)
    ensures
        r@ == key_fields_json(k@),
{
    let mut a: Vec<Json> = Vec::new();
    let mut i: usize = 0;
    while i < k.len()
        invariant
            i <= k@.len(),
            a@.len() == i,
            forall|j: int| 0 <= j < i ==> (#[trigger] a@[j])@ == key_field_json(k@[j]),
        decreases k@.len() - i,
    {
        let o = put(Object::new(), "field", Json::string(k[i].field.as_str()));
        let o = put(o, "weight", Json::Num(Number::PosInt(k[i].weight as u64)));
        let o = put(o, "kind", Json::string(k[i].kind.as_str()));
        a.push(Json::Obj(put(o, "dedup", Json::Bool(k[i].dedup))));
        i += 1;
    }
    assert(values_view(a@) =~= key_fields_json(k@)->Arr_0);
    array(a)
}

/// A text, or null where there is none.
pub open spec fn text_or_null(s: Option<Seq<char>>) -> SqlV {
    match s {
        Some(t) => SqlV::Text(t),
        None => SqlV::Null,
    }
}

fn nullable(s: &Option<String>) -> (r: SqlValue)
    ensures
        r@ == text_or_null(opt_text(*s)),
{
    match s {
        Some(t) => text_param(t.as_str()),
        None => SqlValue::Null,
    }
}

/// Writes a mapping under its code, its lists and objects as JSON; one of that code is replaced.
pub fn upsert(id: &str, cfg: &ActivationConfig) -> (r: Statement)
    ensures
        r.sql@
            == "INSERT INTO mdm_activation (id, activation_code, source_doc_type, cr_type, target_dict, target_table, header_mapping, line_mappings, code_rule_code, subject_name_field, subject_code_field, header_groups, doc_code_rules, key_fields, is_active) VALUES ($1,$2,$3,$4,$5,$6,$7,$8,$9,$10,$11,$12,$13,$14,TRUE) ON CONFLICT (activation_code) DO UPDATE SET source_doc_type = EXCLUDED.source_doc_type, cr_type = EXCLUDED.cr_type, target_dict = EXCLUDED.target_dict, target_table = EXCLUDED.target_table, header_mapping = EXCLUDED.header_mapping, line_mappings = EXCLUDED.line_mappings, code_rule_code = EXCLUDED.code_rule_code, subject_name_field = EXCLUDED.subject_name_field, subject_code_field = EXCLUDED.subject_code_field, header_groups = EXCLUDED.header_groups, doc_code_rules = EXCLUDED.doc_code_rules, key_fields = EXCLUDED.key_fields, is_active = TRUE, updated_at = now()"@,
        params_view(r.params@) == seq![
            SqlV::Text(id@),
            SqlV::Text(cfg.activation_code@),
            SqlV::Text(cfg.source_doc_type@),
            SqlV::Text(cfg.cr_type@),
            SqlV::Text(cfg.target_dict@),
            SqlV::Text(cfg.target_table@),
            SqlV::Json(json_text(JsonV::Obj(cfg.header_mapping@))),
            SqlV::Json(json_text(line_mappings_json(cfg.line_mappings@))),
            text_or_null(opt_text(cfg.code_rule_code)),
            text_or_null(opt_text(cfg.subject_name_field)),
            text_or_null(opt_text(cfg.subject_code_field)),
            SqlV::Json(json_text(header_groups_json(cfg.header_groups@))),
            SqlV::Json(json_text(JsonV::Obj(cfg.doc_code_rules@))),
            SqlV::Json(json_text(key_fields_json(cfg.key_fields@))),
        ],
{
    let mut params: Vec<SqlValue> = Vec::new();
    params.push(text_param(id));
    params.push(text_param(cfg.activation_code.as_str()));
    params.push(text_param(cfg.source_doc_type.as_str()));
    params.push(text_param(cfg.cr_type.as_str()));
    params.push(text_param(cfg.target_dict.as_str()));
    params.push(text_param(cfg.target_table.as_str()));
    params.push(SqlValue::Json(value_text(&Json::Obj(cfg.header_mapping.clone()))));
    params.push(SqlValue::Json(value_text(&line_mappings_value(&cfg.line_mappings))));
    params.push(nullable(&cfg.code_rule_code));
    params.push(nullable(&cfg.subject_name_field));
    params.push(nullable(&cfg.subject_code_field));
    params.push(SqlValue::Json(value_text(&header_groups_value(&cfg.header_groups))));
    params.push(SqlValue::Json(value_text(&Json::Obj(cfg.doc_code_rules.clone()))));
    params.push(SqlValue::Json(value_text(&key_fields_value(&cfg.key_fields))));
    assert(params_view(params@) =~= seq![
        SqlV::Text(id@),
        SqlV::Text(cfg.activation_code@),
        SqlV::Text(cfg.source_doc_type@),
        SqlV::Text(cfg.cr_type@),
        SqlV::Text(cfg.target_dict@),
        SqlV::Text(cfg.target_table@),
        SqlV::Json(json_text(JsonV::Obj(cfg.header_mapping@))),
        SqlV::Json(json_text(line_mappings_json(cfg.line_mappings@))),
        text_or_null(opt_text(cfg.code_rule_code)),
        text_or_null(opt_text(cfg.subject_name_field)),
        text_or_null(opt_text(cfg.subject_code_field)),
        SqlV::Json(json_text(header_groups_json(cfg.header_groups@))),
        SqlV::Json(json_text(JsonV::Obj(cfg.doc_code_rules@))),
        SqlV::Json(json_text(key_fields_json(cfg.key_fields@))),
    ]);
    statement(
        "INSERT INTO mdm_activation (id, activation_code, source_doc_type, cr_type, target_dict, target_table, header_mapping, line_mappings, code_rule_code, subject_name_field, subject_code_field, header_groups, doc_code_rules, key_fields, is_active) VALUES ($1,$2,$3,$4,$5,$6,$7,$8,$9,$10,$11,$12,$13,$14,TRUE) ON CONFLICT (activation_code) DO UPDATE SET source_doc_type = EXCLUDED.source_doc_type, cr_type = EXCLUDED.cr_type, target_dict = EXCLUDED.target_dict, target_table = EXCLUDED.target_table, header_mapping = EXCLUDED.header_mapping, line_mappings = EXCLUDED.line_mappings, code_rule_code = EXCLUDED.code_rule_code, subject_name_field = EXCLUDED.subject_name_field, subject_code_field = EXCLUDED.subject_code_field, header_groups = EXCLUDED.header_groups, doc_code_rules = EXCLUDED.doc_code_rules, key_fields = EXCLUDED.key_fields, is_active = TRUE, updated_at = now()",
        params,
    )
}

/// Deletes a mapping.
pub fn delete_by_code(activation_code: &str) -> (r: Statement)
    ensures
        r.sql@ == "DELETE FROM mdm_activation WHERE activation_code = $1"@,
        params_view(r.params@) == seq![SqlV::Text(activation_code@)],
{
    let mut params: Vec<SqlValue> = Vec::new();
    params.push(text_param(activation_code));
    assert(params_view(params@) =~= seq![SqlV::Text(activation_code@)]);
    statement("DELETE FROM mdm_activation WHERE activation_code = $1", params)
}

/// The mappings that write to a dictionary, for its detail tables.
pub fn line_tables_for_dict(dict_code: &str) -> (r: Statement)
    ensures
        r.sql@
            == "SELECT line_mappings FROM mdm_activation WHERE target_dict = $1 AND is_active = TRUE"@,
        params_view(r.params@) == seq![SqlV::Text(dict_code@)],
{
    let mut params: Vec<SqlValue> = Vec::new();
    params.push(text_param(dict_code));
    assert(params_view(params@) =~= seq![SqlV::Text(dict_code@)]);
    statement(
        "SELECT line_mappings FROM mdm_activation WHERE target_dict = $1 AND is_active = TRUE",
        params,
    )
}

/// A detail table: the column that points at the head row, and the table's own dictionary.
#[derive(Debug)]
pub struct LineTable {
    pub table: String,
    pub parent_field: String,
    pub dict_code: String,
}

/// What a detail table stands for.
#[verifier::ext_equal]
pub struct LineTableV {
    pub table: Seq<char>,
    pub parent_field: Seq<char>,
    pub dict_code: Seq<char>,
}

impl LineTable {
    pub open spec fn view(&self) -> LineTableV {
        LineTableV {
            table: self.table@,
            parent_field: self.parent_field@,
            dict_code: self.dict_code@,
        }
    }
}

/// The views of a list of detail tables.
pub open spec fn tables_view(t: Seq<LineTable>) -> Seq<LineTableV> {
    Seq::new(t.len(), |i: int| t[i]@)
}

/// Whether a table with this column is listed.
pub open spec fn lists_table(t: Seq<LineTableV>, table: Seq<char>, field: Seq<char>) -> bool {
    exists|i: int|
        0 <= i < t.len() && (#[trigger] t[i]).table == table && t[i].parent_field == field
}

/// The list with the table of one more mapping; one that is listed, or lacks a name, is left out.
pub open spec fn with_table(t: Seq<LineTableV>, item: JsonV) -> Seq<LineTableV> {
    let table = text_at(item, "targetTable"@);
    let field = text_at(item, "parentIdField"@);
    if table.len() > 0 && field.len() > 0 && !lists_table(t, table, field) {
        t.push(
            LineTableV {
                table,
                parent_field: field,
                dict_code: text_at(item, "targetDict"@),
            },
        )
    } else {
        t
    }
}

/// The list with the tables of some mappings.
pub open spec fn with_tables(t: Seq<LineTableV>, items: Seq<JsonV>) -> Seq<LineTableV>
    decreases items.len(),
{
    if items.len() == 0 {
        t
    } else {
        with_table(with_tables(t, items.drop_last()), items.last())
    }
}

/// The line mappings of a row.
pub open spec fn mappings_of(row: JsonV) -> Seq<JsonV> {
    match json_get(parsed_field(row, "line_mappings"@), "line_mappings"@) {
        Some(JsonV::Arr(a)) => a,
        _ => Seq::empty(),
    }
}

/// The detail tables of some rows, each once.
pub open spec fn line_tables(rows: Seq<JsonV>) -> Seq<LineTableV>
    decreases rows.len(),
{
    if rows.len() == 0 {
        Seq::empty()
    } else {
        with_tables(line_tables(rows.drop_last()), mappings_of(rows.last()))
    }
}

/// No two entries are of the same table and column.
pub open spec fn tables_distinct(t: Seq<LineTableV>) -> bool {
    forall|i: int, j: int|
        0 <= i < j < t.len() ==> (#[trigger] t[i]).table != (#[trigger] t[j]).table
            || t[i].parent_field != t[j].parent_field
}

proof fn lemma_with_tables_distinct(t: Seq<LineTableV>, items: Seq<JsonV>)
    requires
        tables_distinct(t),
    ensures
        tables_distinct(with_tables(t, items)),
    decreases items.len(),
{
    if items.len() > 0 {
        lemma_with_tables_distinct(t, items.drop_last());
    }
}

/// No detail table is listed twice.
pub proof fn law_line_tables(rows: Seq<JsonV>)
    ensures
        tables_distinct(line_tables(rows)),
    decreases rows.len(),
{
    if rows.len() > 0 {
        law_line_tables(rows.drop_last());
        lemma_with_tables_distinct(line_tables(rows.drop_last()), mappings_of(rows.last()));
    }
}

fn add_table(out: &mut Vec<LineTable>, item: &Json)
    ensures
        tables_view(final(out)@) == with_table(tables_view(old(out)@), item@),
{
    let table = text_member(item, "targetTable");
    let field = text_member(item, "parentIdField");
    if table.as_str().is_empty() || field.as_str().is_empty() {
        return;
    }
    let ghost before = tables_view(out@);
    let mut i: usize = 0;
    while i < out.len()
        invariant
            i <= out@.len(),
            before == tables_view(out@),
            before == tables_view(old(out)@),
            table@ == text_at(item@, "targetTable"@),
            field@ == text_at(item@, "parentIdField"@),
            forall|k: int|
                0 <= k < i ==> !((#[trigger] before[k]).table == table@ && before[k].parent_field
                    == field@),
        decreases out@.len() - i,
    {
        if same_text(out[i].table.as_str(), table.as_str()) && same_text(
            out[i].parent_field.as_str(),
            field.as_str(),
        ) {
            assert(before[i as int].table == table@);
            return;
        }
        i += 1;
    }
    out.push(LineTable { table, parent_field: field, dict_code: text_member(item, "targetDict") });
    assert(tables_view(out@) =~= with_table(before, item@));
}

/// Lists the detail tables of some rows, each once.
pub fn read_line_tables(rows: &Vec<Json>) -> (r: Vec<LineTable>)
    ensures
        tables_view(r@) == line_tables(values_view(rows@)),
{
    let ghost all = values_view(rows@);
    let mut out: Vec<LineTable> = Vec::new();
    let mut i: usize = 0;
    assert(all.take(0) =~= Seq::<JsonV>::empty());
    assert(tables_view(out@) =~= Seq::<LineTableV>::empty());
    while i < rows.len()
        invariant
            i <= rows@.len(),
            all == values_view(rows@),
            tables_view(out@) == line_tables(all.take(i as int)),
        decreases rows@.len() - i,
    {
        let ghost start = tables_view(out@);
        assert(all.take(i + 1).drop_last() =~= all.take(i as int));
        assert(all.take(i + 1).last() == rows@[i as int]@);
        let mut v = rows[i].clone();
        parse_jsonb_field(&mut v, "line_mappings");
        let items: Option<&Vec<Json>> = match v.get("line_mappings") {
            Some(m) => m.as_array(),
            None => None,
        };
        if let Some(a) = items {
            let ghost av = values_view(a@);
            let mut j: usize = 0;
            assert(av.take(0) =~= Seq::<JsonV>::empty());
            while j < a.len()
                invariant
                    j <= a@.len(),
                    av == values_view(a@),
                    tables_view(out@) == with_tables(start, av.take(j as int)),
                decreases a@.len() - j,
            {
                assert(av.take(j + 1).drop_last() =~= av.take(j as int));
                assert(av.take(j + 1).last() == a@[j as int]@);
                add_table(&mut out, &a[j]);
                j += 1;
            }
            assert(av.take(av.len() as int) =~= av);
        }
        i += 1;
    }
    assert(all.take(all.len() as int) =~= all);
    out
}

} // verus!
