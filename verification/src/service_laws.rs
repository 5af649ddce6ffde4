//! What approvals are told, who acts, how codes are made, and what settings and mappings say.

use crate::activation::{KeyField, LineMapping};
use crate::codegen::{code_of, code_prefix, radix_of};
use crate::ctx::{actor_of, user_of};
use crate::distribution::channels::{signature, signed_by, snippet_of, timeout_or_default};
use crate::distribution::config::{positive_or, switch_or};
use crate::flow::{column_text, open_at, start_of, start_variables};
use crate::json::{json_get, json_i64, lemma_get_put, obj_get, JsonV, NumberV, ObjV};
use crate::lifecycle::{status_name, LifecycleStatus};
use crate::outside::{json_parse, json_text};
use crate::sql::SqlV;
use crate::store::activation_store::{
    activation_filter, key_field_json, line_mapping_json, line_tables, lists_table, mappings_of,
    texts_json, with_table, with_tables, LineTableV,
};
use crate::store::cr_service::{cr_detail, cr_filter, head_of, lines_of, status_of};
use crate::store::fanout::{fanned, FanoutActionV, FanoutEventV, FanoutStageV};
use crate::text::{dec_int, texts, trimmed};
use vstd::prelude::*;

verus! {

proof fn lemma_variable_words()
    ensures
        "initiator"@.len() == 9,
        "docNo"@.len() == 5,
        "docType"@.len() == 7,
        "targetDictCode"@.len() == 14,
        "crType"@.len() == 6,
        "subjectName"@.len() == 11,
        "bizTable"@.len() == 8,
        "bizId"@.len() == 5,
        "initiatorName"@.len() == 13,
        "docNo"@[0] == 'd',
        "bizId"@[0] == 'b',
{
    reveal_strlit("initiator");
    reveal_strlit("docNo");
    reveal_strlit("docType");
    reveal_strlit("targetDictCode");
    reveal_strlit("crType");
    reveal_strlit("subjectName");
    reveal_strlit("bizTable");
    reveal_strlit("bizId");
    reveal_strlit("initiatorName");
}

/// An approval knows who made the request, its number, its kind, and where it is kept.
pub proof fn law_approval_knows(head: ObjV, cr_id: i64, by: Seq<char>, no: Seq<char>)
    requires
        obj_get(head, "create_by"@) == Some(JsonV::Str(by)),
        obj_get(head, "doc_no"@) == Some(JsonV::Str(no)),
    ensures
        ({
            let v = start_variables(head, cr_id, None);
            &&& obj_get(v, "initiator"@) == Some(JsonV::Str(by))
            &&& obj_get(v, "docNo"@) == Some(JsonV::Str(no))
            &&& obj_get(v, "bizId"@) == Some(JsonV::Str(dec_int(cr_id as int)))
            &&& obj_get(v, "bizTable"@) == Some(JsonV::Str("cv_mdm_apply"@))
            &&& obj_get(v, "docType"@) == Some(JsonV::Str(column_text(head, "doc_type"@)))
            &&& obj_get(v, "targetDictCode"@) == Some(
                JsonV::Str(column_text(head, "target_dict_code"@)),
            )
            &&& obj_get(v, "crType"@) == Some(JsonV::Str(column_text(head, "cr_type"@)))
            &&& obj_get(v, "subjectName"@) == Some(JsonV::Str(column_text(head, "subject_name"@)))
            &&& obj_get(v, "initiatorName"@) is None
        }),
{
    broadcast use lemma_get_put;

    lemma_variable_words();
    assert(obj_get(Seq::empty(), "initiatorName"@) is None);
}

/// A name that is not blank is told too, without the white space around it, and changes nothing
/// else.
pub proof fn law_approval_knows_name(head: ObjV, cr_id: i64, name: Seq<char>, k: Seq<char>)
    ensures
        trimmed(name).len() > 0 ==> obj_get(
            start_variables(head, cr_id, Some(name)),
            "initiatorName"@,
        ) == Some(JsonV::Str(trimmed(name))),
        trimmed(name).len() == 0 ==> start_variables(head, cr_id, Some(name)) == start_variables(
            head,
            cr_id,
            None,
        ),
        k != "initiatorName"@ ==> obj_get(start_variables(head, cr_id, Some(name)), k) == obj_get(
            start_variables(head, cr_id, None),
            k,
        ),
{
    broadcast use lemma_get_put;

}

/// An approval is started under the number of the request, about its row, and by the definition
/// that is set.
pub proof fn law_approval_started(
    head: ObjV,
    cr_id: i64,
    name: Option<Seq<char>>,
    key: Seq<char>,
    no: Seq<char>,
)
    requires
        obj_get(head, "doc_no"@) == Some(JsonV::Str(no)),
    ensures
        ({
            let s = start_of(head, cr_id, name, key);
            &&& s.definition_key == key
            &&& s.business_key == no
            &&& s.biz_table == "cv_mdm_apply"@
            &&& s.biz_id == dec_int(cr_id as int)
            &&& s.role == "approval"@
            &&& s.variables == JsonV::Obj(start_variables(head, cr_id, name))
        }),
{
}

/// A column is told as its text, or as its number written out; anything else is empty.
pub proof fn law_column_told(head: ObjV, k: Seq<char>, s: Seq<char>, n: NumberV)
    ensures
        obj_get(head, k) == Some(JsonV::Str(s)) ==> column_text(head, k) == s,
        obj_get(head, k) == Some(JsonV::Num(n)) ==> column_text(head, k) == json_text(
            JsonV::Num(n),
        ),
        obj_get(head, k) is None || obj_get(head, k) == Some(JsonV::Null) ==> column_text(
            head,
            k,
        ).len() == 0,
{
}

/// A task is open at a node exactly where the word stands in the node's name and the task is not
/// completed.
pub proof fn law_open_task(a: Seq<char>, word: Seq<char>, b: Seq<char>, task: JsonV)
    ensures
        json_get(task, "completed"@) == Some(JsonV::Bool(true)) ==> !open_at(a, task, word),
        json_get(task, "completed"@) != Some(JsonV::Bool(true)) ==> open_at(a + word + b, task, word),
        word.len() > a.len() ==> !open_at(a, task, word),
{
    assert((a + word + b).subrange(a.len() as int, (a.len() + word.len()) as int) =~= word);
    assert(crate::text::stands_at(a + word + b, word, a.len() as int));
}

/// The user is whoever is named, without the white space around it; nobody where the name is
/// blank. The number of the user is the one that is named, and else 0.
pub proof fn law_who_acts(name: Seq<char>, n: i64)
    ensures
        user_of(None) is None,
        trimmed(name).len() == 0 ==> user_of(Some(name)) is None,
        trimmed(name).len() > 0 ==> user_of(Some(name)) == Some(trimmed(name)),
        actor_of(None) == 0,
        trimmed(name) == dec_int(n as int) ==> actor_of(Some(name)) == n,
        trimmed(name).len() == 0 ==> actor_of(Some(name)) == 0,
{
    if trimmed(name) == dec_int(n as int) {
        crate::text_laws::law_decimal_reads_back(n as int);
    }
}

/// A code begins with at most six characters of the dictionary's name, or with `MDM` where that is
/// empty; then follow a dash and the id.
pub proof fn law_code_parts(upper: Seq<char>, id: i64, i: int)
    ensures
        code_of(upper, id) == code_prefix(upper) + "-"@ + radix_of(id, 36),
        upper.len() == 0 ==> code_prefix(upper) == "MDM"@,
        upper.len() > 0 ==> code_prefix(upper).is_prefix_of(upper),
        1 <= upper.len() <= 6 ==> code_prefix(upper).len() == upper.len(),
        upper.len() > 6 ==> code_prefix(upper).len() == 6,
        id < 0 ==> radix_of(id, 36).len() == 0,
        id >= 0 ==> radix_of(id, 36).len() > 0,
{
}

/// The last digit of a number in a base is its remainder, and the digits before it are those of the
/// quotient.
pub proof fn law_radix_digits(n: i64, radix: u32)
    requires
        2 <= radix <= 36,
        n >= 0,
    ensures
        n < 10 && n < radix ==> radix_of(n, radix) == seq![(48 + n) as char],
        10 <= n < radix ==> radix_of(n, radix) == seq![(87 + n) as char],
        n >= radix ==> radix_of(n, radix) == radix_of((n / radix as i64) as i64, radix) + radix_of(
            (n % radix as i64) as i64,
            radix,
        ),
{
    let r = radix as nat;
    if n >= radix {
        assert((n % radix as i64) < radix) by (nonlinear_arith)
            requires
                n >= 0,
                2 <= radix <= 36,
        ;
        assert(0 <= n % radix as i64) by (nonlinear_arith)
            requires
                n >= 0,
                2 <= radix <= 36,
        ;
        assert(0 <= n / radix as i64 <= n) by (nonlinear_arith)
            requires
                n >= 0,
                2 <= radix <= 36,
        ;
        assert(radix_of(n, radix) =~= radix_of((n / radix as i64) as i64, radix) + radix_of(
            (n % radix as i64) as i64,
            radix,
        ));
    }
}

/// The names of the states are those that the database holds.
pub proof fn law_state_names(s: LifecycleStatus)
    ensures
        status_name(s) == "published"@ <==> s is Published,
        status_name(s) == "merged"@ <==> s is Merged,
        status_name(s) == "frozen"@ <==> s is Frozen,
        status_name(s) == "archived"@ <==> s is Archived,
{
    reveal_strlit("published");
    reveal_strlit("merged");
    reveal_strlit("frozen");
    reveal_strlit("archived");
    assert("published"@.len() == 9 && "merged"@.len() == 6 && "frozen"@.len() == 6
        && "archived"@.len() == 8);
    assert("merged"@[0] == 'm' && "frozen"@[0] == 'f');
}

/// A switch that is missing is as by default; one that is written is on for `1` and for `true`,
/// and off for anything of another length.
pub proof fn law_switch(s: Seq<char>, default: bool)
    ensures
        switch_or(None, default) == default,
        trimmed(s) == "1"@ || trimmed(s) == "true"@ || trimmed(s) == "TRUE"@ || trimmed(s)
            == "True"@ ==> switch_or(Some(s), default),
        trimmed(s).len() != 1 && trimmed(s).len() != 4 ==> !switch_or(Some(s), default),
        trimmed(s) == "0"@ ==> !switch_or(Some(s), default),
{
    reveal_strlit("1");
    reveal_strlit("0");
    reveal_strlit("true");
    reveal_strlit("TRUE");
    reveal_strlit("True");
    assert("1"@.len() == 1 && "0"@.len() == 1 && "true"@.len() == 4);
    assert("1"@[0] == '1' && "0"@[0] == '0');
    assert("true"@ =~= seq!['t', 'r', 'u', 'e']);
    assert("TRUE"@ =~= seq!['T', 'R', 'U', 'E']);
    assert("True"@ =~= seq!['T', 'r', 'u', 'e']);
}

/// A number that is written and positive counts; one that is missing, zero or negative is as by
/// default.
pub proof fn law_positive_setting(s: Seq<char>, signed: bool, max: int, default: int, n: int)
    requires
        n <= max,
        n >= 0 || signed,
    ensures
        positive_or(None, signed, max, default) == default,
        trimmed(s) == dec_int(n) && n >= 1 ==> positive_or(Some(s), signed, max, default) == n,
        trimmed(s) == dec_int(n) && n < 1 ==> positive_or(Some(s), signed, max, default) == default,
        trimmed(s).len() == 0 ==> positive_or(Some(s), signed, max, default) == default,
{
    if trimmed(s) == dec_int(n) {
        crate::text_laws::law_decimal_reads_back(n);
    }
}

/// A header that signs a body is accepted only under a secret, and only with that body's tag.
pub proof fn law_signature_needs_secret(secret: Seq<char>, body: Seq<u8>, header: Seq<char>)
    ensures
        !signed_by(Seq::empty(), body, Some(header)),
        !signed_by(secret, body, None),
        secret.len() > 0 ==> signed_by(secret, body, Some(signature(secret, body))),
{
    crate::distribution::channels::law_signed_is_accepted(secret, body);
}

/// Of an answer at most 200 characters are kept, from its beginning; a shorter one is kept whole.
pub proof fn law_snippet(body: Seq<char>)
    ensures
        snippet_of(body).is_prefix_of(body),
        body.len() <= 200 ==> snippet_of(body) == body,
        body.len() > 200 ==> snippet_of(body).len() == 200,
        timeout_or_default(None) == 10_000,
        forall|t: u64| #[trigger] timeout_or_default(Some(t)) == t,
{
}

/// The head of a change request is the first row found, with its columns of JSON read back; it is
/// missing exactly where no row is, or where the row is no object.
pub proof fn law_head_read(rows: Seq<JsonV>, cr_id: i64, o: ObjV, k: Seq<char>, t: Seq<char>, v: JsonV)
    ensures
        rows.len() == 0 ==> head_of(rows, cr_id) is Err,
        rows.len() > 0 && !(rows[0] is Obj) ==> head_of(rows, cr_id) is Err,
        rows.len() > 0 && rows[0] == JsonV::Obj(o) ==> head_of(rows, cr_id) is Ok,
        rows.len() > 0 && rows[0] == JsonV::Obj(o) && k != "field_deltas"@ && k != "payload"@
            ==> obj_get(head_of(rows, cr_id)->Ok_0, k) == obj_get(o, k),
        rows.len() > 0 && rows[0] == JsonV::Obj(o) && (k == "field_deltas"@ || k == "payload"@)
            && obj_get(o, k) == Some(JsonV::Str(t)) && json_parse(t) == Some(v) ==> obj_get(
            head_of(rows, cr_id)->Ok_0,
            k,
        ) == Some(v),
{
    broadcast use lemma_get_put;

    lemma_cr_words();
}

proof fn lemma_cr_words()
    ensures
        "field_deltas"@ != "payload"@,
        "line_payload"@ != "line_deltas"@,
        "head"@ != "lines"@,
{
    reveal_strlit("field_deltas");
    reveal_strlit("payload");
    reveal_strlit("line_payload");
    reveal_strlit("line_deltas");
    reveal_strlit("head");
    reveal_strlit("lines");
    assert("field_deltas"@.len() == 12 && "payload"@.len() == 7 && "line_payload"@.len() == 12
        && "line_deltas"@.len() == 11 && "head"@.len() == 4 && "lines"@.len() == 5);
}

/// The lines of a change request are the rows found, in their order, with their columns of JSON
/// read back.
pub proof fn law_lines_of_request(
    rows: Seq<JsonV>,
    i: int,
    o: ObjV,
    k: Seq<char>,
    t: Seq<char>,
    v: JsonV,
)
    requires
        0 <= i < rows.len(),
        rows[i] == JsonV::Obj(o),
    ensures
        lines_of(rows).len() == rows.len(),
        k != "line_payload"@ && k != "line_deltas"@ ==> json_get(lines_of(rows)[i], k) == obj_get(
            o,
            k,
        ),
        (k == "line_payload"@ || k == "line_deltas"@) && obj_get(o, k) == Some(JsonV::Str(t))
            && json_parse(t) == Some(v) ==> json_get(lines_of(rows)[i], k) == Some(v),
{
    broadcast use lemma_get_put;

    lemma_cr_words();
}

/// A change request is shown with its head and its lines, and its state is the one of its head.
pub proof fn law_request_shown(head: ObjV, lines: Seq<JsonV>, s: Seq<char>)
    ensures
        json_get(cr_detail(head, lines), "head"@) == Some(JsonV::Obj(head)),
        json_get(cr_detail(head, lines), "lines"@) == Some(JsonV::Arr(lines)),
        obj_get(head, "doc_status"@) == Some(JsonV::Str(s)) ==> status_of(head) == s,
        obj_get(head, "doc_status"@) is None ==> status_of(head).len() == 0,
{
    broadcast use lemma_get_put;

    lemma_cr_words();
}

/// A list of change requests binds the state, the kind and the keyword, the last with anything
/// around it; a blank keyword binds nothing.
pub proof fn law_request_list_binds(status: Seq<char>, kind: Seq<char>, word: Seq<char>)
    ensures
        trimmed(word).len() > 0 ==> cr_filter(Some(status), Some(kind), Some(word)).params == seq![
            SqlV::Text(status),
            SqlV::Text(kind),
            SqlV::Text("%"@ + trimmed(word) + "%"@),
        ],
        trimmed(word).len() == 0 ==> cr_filter(Some(status), Some(kind), Some(word)) == cr_filter(
            Some(status),
            Some(kind),
            None,
        ),
        cr_filter(None, None, None).params.len() == 0,
        cr_filter(None, None, None).clauses == seq!["delete_flag = 0"@],
{
    if trimmed(word).len() > 0 {
        assert(cr_filter(Some(status), Some(kind), Some(word)).params =~= seq![
            SqlV::Text(status),
            SqlV::Text(kind),
            SqlV::Text("%"@ + trimmed(word) + "%"@),
        ]);
    }
}

/// A list of mappings binds the kind of document, the kind of request and the dictionary.
pub proof fn law_mapping_list_binds(doc: Seq<char>, cr: Seq<char>, dict: Seq<char>)
    ensures
        activation_filter(Some(doc), Some(cr), Some(dict)).params == seq![
            SqlV::Text(doc),
            SqlV::Text(cr),
            SqlV::Text(dict),
        ],
        activation_filter(None, None, None).params.len() == 0,
{
    assert(activation_filter(Some(doc), Some(cr), Some(dict)).params =~= seq![
        SqlV::Text(doc),
        SqlV::Text(cr),
        SqlV::Text(dict),
    ]);
}

/// A mapping of lines is stored with its kind, its table and dictionary, the column that points at
/// the head, and its fields with their order.
pub proof fn law_line_mapping_stored(m: LineMapping)
    ensures
        ({
            let v = line_mapping_json(m);
            &&& json_get(v, "lineType"@) == Some(JsonV::Str(m.line_type@))
            &&& json_get(v, "targetDict"@) == Some(JsonV::Str(m.target_dict@))
            &&& json_get(v, "targetTable"@) == Some(JsonV::Str(m.target_table@))
            &&& json_get(v, "parentIdField"@) == Some(JsonV::Str(m.parent_field@))
            &&& json_get(v, "fields"@) == Some(JsonV::Obj(m.fields@))
            &&& json_get(v, "fieldOrder"@) == Some(texts_json(texts(m.field_order@)))
        }),
{
    broadcast use lemma_get_put;

    reveal_strlit("lineType");
    reveal_strlit("targetDict");
    reveal_strlit("targetTable");
    reveal_strlit("parentIdField");
    reveal_strlit("fields");
    reveal_strlit("fieldOrder");
    assert("lineType"@.len() == 8 && "targetDict"@.len() == 10 && "targetTable"@.len() == 11
        && "parentIdField"@.len() == 13 && "fields"@.len() == 6 && "fieldOrder"@.len() == 10);
    assert("targetDict"@[0] == 't' && "fieldOrder"@[0] == 'f');
}

/// A key field is stored with its name, its weight, its kind, and whether it tells doubles.
pub proof fn law_key_field_stored(k: KeyField)
    ensures
        json_get(key_field_json(k), "field"@) == Some(JsonV::Str(k.field@)),
        json_get(key_field_json(k), "weight"@) == Some(JsonV::Num(NumberV::PosInt(k.weight as u64))),
        json_get(key_field_json(k), "kind"@) == Some(JsonV::Str(k.kind@)),
        json_get(key_field_json(k), "dedup"@) == Some(JsonV::Bool(k.dedup)),
{
    broadcast use lemma_get_put;

    reveal_strlit("field");
    reveal_strlit("weight");
    reveal_strlit("kind");
    reveal_strlit("dedup");
    assert("field"@.len() == 5 && "weight"@.len() == 6 && "kind"@.len() == 4 && "dedup"@.len() == 5);
    assert("field"@[0] == 'f' && "dedup"@[0] == 'd');
}

/// A mapping that names a table and the column that points at the head lists them, with the
/// dictionary of the table, unless both are listed already; nothing that is listed goes.
pub proof fn law_table_listed(
    t: Seq<LineTableV>,
    item: JsonV,
    table: Seq<char>,
    field: Seq<char>,
    dict: Seq<char>,
    i: int,
)
    requires
        json_get(item, "targetTable"@) == Some(JsonV::Str(table)),
        json_get(item, "parentIdField"@) == Some(JsonV::Str(field)),
        json_get(item, "targetDict"@) == Some(JsonV::Str(dict)),
    ensures
        0 <= i < t.len() ==> with_table(t, item)[i] == t[i],
        table.len() == 0 || field.len() == 0 ==> with_table(t, item) == t,
        0 <= i < t.len() && t[i].table == table && t[i].parent_field == field ==> with_table(
            t,
            item,
        ) == t,
        table.len() > 0 && field.len() > 0 && (forall|k: int|
            0 <= k < t.len() ==> (#[trigger] t[k]).table != table || t[k].parent_field != field)
            ==> with_table(t, item) == t.push(
            LineTableV { table, parent_field: field, dict_code: dict },
        ),
{
}

proof fn lemma_tables_stay(t: Seq<LineTableV>, items: Seq<JsonV>, table: Seq<char>, field: Seq<char>)
    requires
        lists_table(t, table, field),
    ensures
        lists_table(with_tables(t, items), table, field),
    decreases items.len(),
{
    if items.len() > 0 {
        let d = with_tables(t, items.drop_last());
        lemma_tables_stay(t, items.drop_last(), table, field);
        let i = choose|i: int|
            0 <= i < d.len() && (#[trigger] d[i]).table == table && d[i].parent_field == field;
        assert(with_table(d, items.last())[i] == d[i]);
    }
}

proof fn lemma_item_listed(
    t: Seq<LineTableV>,
    items: Seq<JsonV>,
    j: int,
    table: Seq<char>,
    field: Seq<char>,
)
    requires
        0 <= j < items.len(),
        json_get(items[j], "targetTable"@) == Some(JsonV::Str(table)),
        json_get(items[j], "parentIdField"@) == Some(JsonV::Str(field)),
        table.len() > 0,
        field.len() > 0,
    ensures
        lists_table(with_tables(t, items), table, field),
    decreases items.len(),
{
    let d = with_tables(t, items.drop_last());
    let r = with_table(d, items.last());
    if j < items.len() - 1 {
        assert(items.drop_last()[j] == items[j]);
        lemma_item_listed(t, items.drop_last(), j, table, field);
        let i = choose|i: int|
            0 <= i < d.len() && (#[trigger] d[i]).table == table && d[i].parent_field == field;
        assert(r[i] == d[i]);
    } else if !lists_table(d, table, field) {
        assert(r[d.len() as int].table == table);
    }
}

/// Every table that a mapping of some row names, with its column, is listed.
pub proof fn law_all_tables_listed(
    rows: Seq<JsonV>,
    n: int,
    j: int,
    table: Seq<char>,
    field: Seq<char>,
)
    requires
        0 <= n < rows.len(),
        0 <= j < mappings_of(rows[n]).len(),
        json_get(mappings_of(rows[n])[j], "targetTable"@) == Some(JsonV::Str(table)),
        json_get(mappings_of(rows[n])[j], "parentIdField"@) == Some(JsonV::Str(field)),
        table.len() > 0,
        field.len() > 0,
    ensures
        exists|i: int|
            0 <= i < line_tables(rows).len() && (#[trigger] line_tables(rows)[i]).table == table
                && line_tables(rows)[i].parent_field == field,
    decreases rows.len(),
{
    let d = rows.drop_last();
    if n < d.len() {
        assert(d[n] == rows[n]);
        law_all_tables_listed(d, n, j, table, field);
        lemma_tables_stay(line_tables(d), mappings_of(rows.last()), table, field);
    } else {
        lemma_item_listed(line_tables(d), mappings_of(rows.last()), j, table, field);
    }
    assert(lists_table(line_tables(rows), table, field));
}

/// The mappings of a row are read from its column, whether that holds the list or its text.
pub proof fn law_mappings_read(o: ObjV, a: Seq<JsonV>, t: Seq<char>)
    ensures
        obj_get(o, "line_mappings"@) == Some(JsonV::Arr(a)) ==> mappings_of(JsonV::Obj(o)) == a,
        obj_get(o, "line_mappings"@) == Some(JsonV::Str(t)) && json_parse(t) == Some(JsonV::Arr(a))
            ==> mappings_of(JsonV::Obj(o)) == a,
        obj_get(o, "line_mappings"@) is None ==> mappings_of(JsonV::Obj(o)).len() == 0,
{
    broadcast use lemma_get_put;

}

/// A round reads the events behind the mark that it locked, at most as many as it may.
pub proof fn law_round_reads_behind_mark(batch: i64, row: JsonV, mark: i64)
    requires
        json_i64(json_get(row, "last_seq"@)) == Some(mark),
    ensures
        fanned(batch, FanoutStageV::Mark, FanoutEventV::Rows(
            seq![row],
        )).1 matches FanoutActionV::Query(s) && s.params == seq![SqlV::Int(mark), SqlV::Int(batch)],
        fanned(batch, FanoutStageV::Mark, FanoutEventV::Rows(seq![row])).0 == FanoutStageV::Events(
            mark,
        ),
{
}

} // verus!
