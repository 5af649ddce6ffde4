//! What statements bind, and what is made of the rows that they find.

use crate::json::{json_get, json_i64, lemma_get_put, number_of, obj_get, JsonV, ObjV};
use crate::order::law_sort_desc;
use crate::outside::{hex_text, hex_value, json_parse, json_text};
use crate::sql::{
    assignments, insert_columns, insert_statement, slot, sql_of, time_column, update_line_statement,
    update_statement, valid_ident, without_times, SqlV,
};
use crate::store::dct_accessor::full_row;
use crate::store::jsonb::{parsed_field, parsed_rows};
use crate::store::loader::rows_records;
use crate::store::match_config_store::config_write;
use crate::store::match_group::merge_filter;
use crate::store::md_accessor::claim_statement;
use crate::store::query::{filter_on, first_bad, page_query, total_in, FilterV};
use crate::store::scan_store::{
    ascending, backwards, cluster_mark, column_texts, finding_statement, findings, ids_bytes,
    le_bytes, PreparedV,
};
use crate::text::{dec_int, digit_char};
use vstd::prelude::*;

verus! {

/// A column that holds the text of a value is read back as that value; one that holds anything
/// else stays, and so does every other column.
pub proof fn law_column_read_back(
    row: ObjV,
    col: Seq<char>,
    other: Seq<char>,
    text: Seq<char>,
    v: JsonV,
)
    ensures
        obj_get(row, col) == Some(JsonV::Str(text)) && json_parse(text) == Some(v) ==> json_get(
            parsed_field(JsonV::Obj(row), col),
            col,
        ) == Some(v),
        obj_get(row, col) == Some(JsonV::Str(text)) && json_parse(text) is None ==> parsed_field(
            JsonV::Obj(row),
            col,
        ) == JsonV::Obj(row),
        !(obj_get(row, col) matches Some(JsonV::Str(_))) ==> parsed_field(JsonV::Obj(row), col)
            == JsonV::Obj(row),
        other != col ==> json_get(parsed_field(JsonV::Obj(row), col), other) == obj_get(row, other),
{
    broadcast use lemma_get_put;

}

/// Rows are read back one by one.
pub proof fn law_rows_read_back(rows: Seq<JsonV>, col: Seq<char>, i: int)
    requires
        0 <= i < rows.len(),
    ensures
        parsed_rows(rows, seq![col]).len() == rows.len(),
        parsed_rows(rows, seq![col])[i] == parsed_field(rows[i], col),
{
    let one = seq![col];
    assert(one.drop_last() =~= Seq::<Seq<char>>::empty());
    reveal_with_fuel(crate::store::jsonb::parsed_fields, 2);
}

/// A character that may stand in a name.
pub open spec fn letter_digit_or_underscore(c: char) -> bool {
    ||| 'a' <= c && c <= 'z'
    ||| 'A' <= c && c <= 'Z'
    ||| '0' <= c && c <= '9'
    ||| c == '_'
}

/// A name may stand in a statement exactly where it is not empty and all its characters are letters
/// without accents, digits and underscores; the first name that may not is refused.
pub proof fn law_names_checked(names: Seq<Seq<char>>, j: int)
    requires
        0 <= j <= names.len(),
        forall|k: int|
            0 <= k < j ==> (#[trigger] names[k]).len() > 0 && forall|i: int|
                0 <= i < names[k].len() ==> letter_digit_or_underscore(#[trigger] names[k][i]),
        j < names.len() ==> names[j].len() == 0 || exists|i: int|
            0 <= i < names[j].len() && !letter_digit_or_underscore(#[trigger] names[j][i]),
    ensures
        first_bad(names) == (if j < names.len() {
            Some(names[j])
        } else {
            None
        }),
    decreases j,
{
    if j > 0 {
        let d = names.drop_first();
        assert(names[0].len() > 0);
        assert forall|i: int| 0 <= i < names[0].len() implies crate::sql::ident_char(
            #[trigger] names[0][i],
        ) by {
            assert(letter_digit_or_underscore(names[0][i]));
        }
        assert(valid_ident(names[0]));
        assert forall|k: int| 0 <= k < j - 1 implies (#[trigger] d[k]).len() > 0 && forall|i: int|
            0 <= i < d[k].len() ==> letter_digit_or_underscore(#[trigger] d[k][i]) by {
            assert(d[k] == names[k + 1]);
        }
        if j < names.len() {
            assert(d[j - 1] == names[j]);
        }
        law_names_checked(d, j - 1);
    } else if names.len() > 0 && names[0].len() > 0 {
        let i = choose|i: int|
            0 <= i < names[0].len() && !letter_digit_or_underscore(#[trigger] names[0][i]);
        assert(!crate::sql::ident_char(names[0][i]));
    }
}

/// A page binds what its filter binds, then its size and how many rows stand before it. Page 1
/// begins at the first row, and each page begins where the one before it ends.
pub proof fn law_page_window(
    from: Seq<char>,
    columns: Seq<char>,
    list: Seq<char>,
    order: Seq<char>,
    f: FilterV,
    page: i64,
    size: i64,
    i: int,
)
    requires
        1 <= page < i64::MAX,
        1 <= size,
        page * size <= i64::MAX,
    ensures
        ({
            let q = page_query(from, columns, list, order, f, page, size);
            let next = page_query(from, columns, list, order, f, (page + 1) as i64, size);
            let n = f.params.len() as int;
            &&& q.count.params == f.params
            &&& q.list.params.len() == n + 2
            &&& 0 <= i < n ==> q.list.params[i] == f.params[i]
            &&& q.list.params[n] == SqlV::Int(size)
            &&& page == 1 ==> q.list.params[n + 1] == SqlV::Int(0)
            &&& q.list.params[n + 1] is Int
            &&& next.list.params[n + 1] == SqlV::Int(
                (q.list.params[n + 1]->Int_0 + size) as i64,
            )
            &&& 0 <= q.list.params[n + 1]->Int_0 <= i64::MAX - size
        }),
{
    assert((page + 1 - 1) * size == page * size);
    assert((page - 1) * size == page * size - size) by (nonlinear_arith);
    assert((page - 1) * size >= 0) by (nonlinear_arith)
        requires
            page >= 1,
            size >= 1,
    ;
}

/// Without a page number the first page is meant, without a size twenty rows.
pub proof fn law_page_defaults(
    from: Seq<char>,
    columns: Seq<char>,
    list: Seq<char>,
    order: Seq<char>,
    f: FilterV,
    page: i64,
    size: i64,
    none: i64,
)
    requires
        none <= 0,
    ensures
        page_query(from, columns, list, order, f, none, size) == page_query(
            from,
            columns,
            list,
            order,
            f,
            1,
            size,
        ),
        page_query(from, columns, list, order, f, page, none) == page_query(
            from,
            columns,
            list,
            order,
            f,
            page,
            20,
        ),
{
}

/// A condition takes the next placeholder, and its value comes last.
pub proof fn law_filter_binds(f: FilterV, before: Seq<char>, after: Seq<char>, v: SqlV, i: int)
    ensures
        filter_on(f, before, after, v).params == f.params.push(v),
        filter_on(f, before, after, v).clauses.len() == f.clauses.len() + 1,
        0 <= i < f.clauses.len() ==> filter_on(f, before, after, v).clauses[i] == f.clauses[i],
        filter_on(f, before, after, v).clauses.last() == before + slot(
            filter_on(f, before, after, v).params.len(),
        ) + after,
{
}

/// The total is the count of the first row; without a row it is 0.
pub proof fn law_total(rows: Seq<JsonV>, n: i64)
    ensures
        rows.len() == 0 ==> total_in(rows) == 0,
        rows.len() > 0 && json_i64(json_get(rows[0], "c"@)) == Some(n) ==> total_in(rows) == n,
{
}

/// Ids are put in ascending order: the same ids, none before a smaller one.
pub proof fn law_ascends(ids: Seq<i64>, i: int, j: int)
    ensures
        ascending(ids).to_multiset() == ids.to_multiset(),
        ascending(ids).len() == ids.len(),
        0 <= i < j < ids.len() ==> ascending(ids)[i] <= ascending(ids)[j],
{
    law_sort_desc(ids, backwards());
    let s = ascending(ids);
    if 0 <= i < j < ids.len() {
        assert(backwards()(s[i]) >= backwards()(s[j]));
    }
}

/// The bytes of an id add up to it, each worth 256 times the one before; a negative id is taken
/// from 2 to the power of 64.
pub proof fn law_bytes_add_up(id: i64)
    ensures
        le_bytes(id).len() == 8,
        ({
            let b = le_bytes(id);
            let sum = b[0] + 0x100 * (b[1] + 0x100 * (b[2] + 0x100 * (b[3] + 0x100 * (b[4] + 0x100
                * (b[5] + 0x100 * (b[6] + 0x100 * b[7]))))));
            sum == (if id >= 0 {
                id as int
            } else {
                id + 0x1_0000_0000_0000_0000
            })
        }),
{
    let u: int = if id >= 0 {
        id as int
    } else {
        id + 0x1_0000_0000_0000_0000
    };
    let u1 = u / 0x100;
    let u2 = u1 / 0x100;
    let u3 = u2 / 0x100;
    let u4 = u3 / 0x100;
    let u5 = u4 / 0x100;
    let u6 = u5 / 0x100;
    let u7 = u6 / 0x100;
    assert(u2 == u / 0x1_0000);
    assert(u3 == u / 0x100_0000);
    assert(u4 == u / 0x1_0000_0000);
    assert(u5 == u / 0x100_0000_0000);
    assert(u6 == u / 0x1_0000_0000_0000);
    assert(u7 == u / 0x100_0000_0000_0000);
    assert(u7 % 0x100 == u7);
    assert(u6 == 0x100 * u7 + u6 % 0x100);
    assert(u5 == 0x100 * u6 + u5 % 0x100);
    assert(u4 == 0x100 * u5 + u4 % 0x100);
    assert(u3 == 0x100 * u4 + u3 % 0x100);
    assert(u2 == 0x100 * u3 + u2 % 0x100);
    assert(u1 == 0x100 * u2 + u1 % 0x100);
    assert(u == 0x100 * u1 + u % 0x100);
}

/// The bytes of several ids stand one behind the other.
pub proof fn law_bytes_in_order(ids: Seq<i64>, id: i64)
    ensures
        ids_bytes(Seq::empty()).len() == 0,
        ids_bytes(ids.push(id)) == ids_bytes(ids) + ids_bytes(seq![id]),
        ids_bytes(seq![id]) == le_bytes(id),
{
    assert(ids.push(id).drop_last() =~= ids);
    assert(seq![id].drop_last() =~= Seq::<i64>::empty());
    assert(ids_bytes(Seq::<i64>::empty()) =~= Seq::empty());
    assert(ids_bytes(seq![id]) =~= le_bytes(id));
}

/// Each byte is written as two digits in lower case, which stand for it.
pub proof fn law_hex_stands_for(b: Seq<u8>, i: int)
    requires
        0 <= i < b.len(),
    ensures
        hex_text(b).len() == 2 * b.len(),
        hex_value(hex_text(b)[2 * i]) is Some,
        hex_value(hex_text(b)[2 * i + 1]) is Some,
        16 * hex_value(hex_text(b)[2 * i])->Some_0 + hex_value(hex_text(b)[2 * i + 1])->Some_0
            == b[i],
        !('A' <= hex_text(b)[2 * i] <= 'Z'),
        !('A' <= hex_text(b)[2 * i + 1] <= 'Z'),
    decreases b.len(),
{
    let d = b.drop_last();
    if d.len() > 0 && i < d.len() {
        law_hex_stands_for(d, i);
        assert(hex_text(b)[2 * i] == hex_text(d)[2 * i]);
        assert(hex_text(b)[2 * i + 1] == hex_text(d)[2 * i + 1]);
    } else {
        if d.len() > 0 {
            law_hex_stands_for(d, 0);
        } else {
            assert(hex_text(d).len() == 0);
        }
        let hi = (b.last() / 16) as nat;
        let lo = (b.last() % 16) as nat;
        assert(hex_text(b)[2 * i] == digit_char(hi));
        assert(hex_text(b)[2 * i + 1] == digit_char(lo));
        assert(hi < 16 && lo < 16);
    }
}

/// A finding is written with its own number, its dictionary, its key and mark, its members, how
/// many these are, and its score.
pub proof fn law_finding_written(id: i64, dict: Seq<char>, c: PreparedV)
    requires
        c.member_ids.len() <= i64::MAX,
    ensures
        ({
            let p = finding_statement(id, dict, c).params;
            &&& p.len() == 7
            &&& p[0] == SqlV::Int(id)
            &&& p[1] == SqlV::Text(dict)
            &&& p[2] == SqlV::Text(c.cluster_key)
            &&& p[3] == SqlV::Text(cluster_mark(c.member_ids))
            &&& p[5] is Int && p[5]->Int_0 == c.member_ids.len()
            &&& p[6] is Int && p[6]->Int_0 == c.max_score
            &&& p[4] matches SqlV::Json(t) && exists|v: JsonV|
                t == #[trigger] json_text(v) && v is Arr && v->Arr_0.len() == c.member_ids.len()
                    && forall|i: int|
                    0 <= i < c.member_ids.len() ==> #[trigger] v->Arr_0[i] == JsonV::Num(
                        number_of(c.member_ids[i]),
                    )
        }),
{
    let v = crate::merge_parts::ids_json(c.member_ids);
    assert(v is Arr && v->Arr_0.len() == c.member_ids.len());
    assert(finding_statement(id, dict, c).params[4] == SqlV::Json(json_text(v)));
}

/// A cluster that waits already, or that was found before in the same scan, is not written again;
/// any other is, under the next id.
pub proof fn law_findings_once(
    dict: Seq<char>,
    found: Seq<PreparedV>,
    c: PreparedV,
    waiting: Seq<Seq<char>>,
    ids: Seq<i64>,
)
    ensures
        ({
            let before = findings(dict, found, waiting, ids);
            let after = findings(dict, found.push(c), waiting, ids);
            let seen = waiting.contains(cluster_mark(c.member_ids)) || exists|i: int|
                0 <= i < found.len() && cluster_mark((#[trigger] found[i]).member_ids)
                    == cluster_mark(c.member_ids);
            &&& seen ==> after == before
            &&& !seen ==> after == before.push(
                finding_statement(ids[before.len() as int], dict, c),
            )
        }),
{
    assert(found.push(c).drop_last() =~= found);
}

/// The texts of a column, and nothing else of it, row by row.
pub proof fn law_column_texts(rows: Seq<JsonV>, row: JsonV, col: Seq<char>, t: Seq<char>)
    ensures
        column_texts(Seq::empty(), col).len() == 0,
        json_get(row, col) == Some(JsonV::Str(t)) ==> column_texts(rows.push(row), col)
            == column_texts(rows, col).push(t),
        !(json_get(row, col) matches Some(JsonV::Str(_))) ==> column_texts(rows.push(row), col)
            == column_texts(rows, col),
{
    assert(rows.push(row).drop_last() =~= rows);
}

/// A rule has a text under one of two keys, of which the first counts.
pub open spec fn says(cfg: JsonV, k1: Seq<char>, k2: Seq<char>, t: Seq<char>) -> bool {
    ||| json_get(cfg, k1) == Some(JsonV::Str(t))
    ||| !(json_get(cfg, k1) matches Some(JsonV::Str(_))) && json_get(cfg, k2) == Some(
        JsonV::Str(t),
    )
}

/// A rule lacks a text under either of two keys.
pub open spec fn says_nothing(cfg: JsonV, k1: Seq<char>, k2: Seq<char>) -> bool {
    &&& !(json_get(cfg, k1) matches Some(JsonV::Str(_)))
    &&& !(json_get(cfg, k2) matches Some(JsonV::Str(_)))
}

/// A rule is written exactly where it has a name, a dictionary and a table, and with these; under
/// its own id where that is positive, and else under a new one, which is then looked up.
pub proof fn law_rule_written(
    cfg: JsonV,
    new_id: i64,
    rule: Seq<char>,
    dict: Seq<char>,
    table: Seq<char>,
    own: i64,
)
    ensures
        config_write(cfg, new_id) is Err <==> says_nothing(cfg, "ruleName"@, "rule_name"@)
            || says_nothing(cfg, "dictCode"@, "dict_code"@) || says_nothing(
            cfg,
            "targetTable"@,
            "target_table"@,
        ),
        says(cfg, "ruleName"@, "rule_name"@, rule) && says(cfg, "dictCode"@, "dict_code"@, dict)
            && says(cfg, "targetTable"@, "target_table"@, table) ==> {
            let w = config_write(cfg, new_id)->Ok_0;
            &&& w.insert.params.len() == 8
            &&& w.insert.params[0] == SqlV::Int(w.id)
            &&& w.insert.params[1] == SqlV::Text(rule)
            &&& w.insert.params[2] == SqlV::Text(dict)
            &&& w.insert.params[3] == SqlV::Text(table)
            &&& json_i64(json_get(cfg, "id"@)) == Some(own) && own > 0 ==> w.id == own
                && w.resolve is None
            &&& !(json_i64(json_get(cfg, "id"@)) matches Some(n) && n > 0) ==> w.id == new_id
                && w.resolve is Some && w.resolve->Some_0.params == seq![
                SqlV::Text(dict),
                SqlV::Text(rule),
            ]
        },
{
    if says(cfg, "ruleName"@, "rule_name"@, rule) && says(cfg, "dictCode"@, "dict_code"@, dict)
        && says(cfg, "targetTable"@, "target_table"@, table) {
        assert(crate::store::match_config_store::picked(cfg, "ruleName"@, "rule_name"@) == Some(
            rule,
        ));
        assert(crate::store::match_config_store::picked(cfg, "dictCode"@, "dict_code"@) == Some(
            dict,
        ));
        assert(crate::store::match_config_store::picked(cfg, "targetTable"@, "target_table"@)
            == Some(table));
    }
}

/// The lists of a rule are written as they stand under their keys, or as empty lists; thresholds
/// that are missing or null are written as null.
pub proof fn law_rule_lists(
    cfg: JsonV,
    new_id: i64,
    specs: JsonV,
    keys: JsonV,
    survive: JsonV,
    limits: JsonV,
)
    requires
        config_write(cfg, new_id) is Ok,
    ensures
        ({
            let p = config_write(cfg, new_id)->Ok_0.insert.params;
            let empty = SqlV::Json(json_text(JsonV::Arr(Seq::empty())));
            &&& json_get(cfg, "specs"@) == Some(specs) ==> p[4] == SqlV::Json(json_text(specs))
            &&& json_get(cfg, "specs"@) is None ==> p[4] == empty
            &&& json_get(cfg, "clusterKeys"@) == Some(keys) || json_get(cfg, "clusterKeys"@) is None
                && json_get(cfg, "cluster_keys"@) == Some(keys) ==> p[5] == SqlV::Json(
                json_text(keys),
            )
            &&& json_get(cfg, "clusterKeys"@) is None && json_get(cfg, "cluster_keys"@) is None
                ==> p[5] == empty
            &&& json_get(cfg, "surviveFields"@) == Some(survive) || json_get(
                cfg,
                "surviveFields"@,
            ) is None && json_get(cfg, "survive_fields"@) == Some(survive) ==> p[6] == SqlV::Json(
                json_text(survive),
            )
            &&& json_get(cfg, "surviveFields"@) is None && json_get(cfg, "survive_fields"@) is None
                ==> p[6] == empty
            &&& json_get(cfg, "thresholds"@) == Some(limits) && !(limits is Null) ==> p[7]
                == SqlV::Json(json_text(limits))
            &&& json_get(cfg, "thresholds"@) is None || json_get(cfg, "thresholds"@) == Some(
                JsonV::Null,
            ) ==> p[7] is NullTyped
        }),
{
}

/// A request moves only out of the states that are bound first, into the one bound behind them.
pub proof fn law_claim_binds(cr_id: i64, from: Seq<Seq<char>>, to: Seq<char>, i: int)
    ensures
        claim_statement(cr_id, from, to).params.len() == from.len() + 2,
        0 <= i < from.len() ==> claim_statement(cr_id, from, to).params[i] == SqlV::Text(from[i]),
        claim_statement(cr_id, from, to).params[from.len() as int] == SqlV::Text(to),
        claim_statement(cr_id, from, to).params[(from.len() + 1) as int] == SqlV::Int(cr_id),
{
}

/// A list of merge requests binds the dictionary, the state, the states left out, and the records
/// twice: once for masters and once for members.
pub proof fn law_merge_list_binds(
    dict: Seq<char>,
    status: Seq<char>,
    excluded: Seq<Seq<char>>,
    ids: Seq<i64>,
    i: int,
)
    ensures
        ({
            let p = merge_filter(Some(dict), Some(status), excluded, ids).params;
            let n = excluded.len();
            &&& p.len() == 2 + n + 2 * ids.len()
            &&& p[0] == SqlV::Text(dict)
            &&& p[1] == SqlV::Text(status)
            &&& 0 <= i < n ==> p[2 + i] == SqlV::Text(excluded[i])
            &&& 0 <= i < ids.len() ==> p[2 + n + i] == SqlV::Int(ids[i])
            &&& 0 <= i < ids.len() ==> p[2 + n + ids.len() + i] == SqlV::Int(ids[i])
        }),
        merge_filter(None, None, Seq::empty(), Seq::empty()).params.len() == 0,
{
}

/// What a new record gets in a common column that it lacks and its table has: a code and a name
/// made of its id, version 1, the first place, the state 1, and who made it.
pub proof fn law_new_record_defaults(
    cols: Seq<Seq<char>>,
    row: ObjV,
    id: i64,
    by: i64,
    col: Seq<char>,
)
    requires
        cols.contains(col),
        obj_get(row, col) is None,
    ensures
        col == "code"@ || col == "name"@ ==> obj_get(full_row(cols, row, id, by), col) == Some(
            JsonV::Str("MDM-"@ + dec_int(id as int)),
        ),
        col == "published_version"@ || col == "status"@ ==> obj_get(full_row(cols, row, id, by), col)
            == Some(JsonV::Num(number_of(1))),
        col == "sort_no"@ ==> obj_get(full_row(cols, row, id, by), col) == Some(
            JsonV::Num(number_of(0)),
        ),
        col == "create_by"@ || col == "update_by"@ ==> obj_get(full_row(cols, row, id, by), col)
            == Some(JsonV::Num(number_of(by))),
        col == "create_time"@ || col == "update_time"@ ==> obj_get(
            full_row(cols, row, id, by),
            col,
        ) == Some(JsonV::Null),
{
    broadcast use lemma_get_put;

    reveal_strlit("code");
    reveal_strlit("name");
    reveal_strlit("published_version");
    reveal_strlit("sort_no");
    reveal_strlit("status");
    reveal_strlit("create_by");
    reveal_strlit("update_by");
    reveal_strlit("create_time");
    reveal_strlit("update_time");
    assert("code"@.len() == 4 && "name"@.len() == 4 && "published_version"@.len() == 17
        && "sort_no"@.len() == 7 && "status"@.len() == 6 && "create_by"@.len() == 9
        && "update_by"@.len() == 9 && "create_time"@.len() == 11 && "update_time"@.len() == 11);
    assert("code"@[0] == 'c' && "name"@[0] == 'n' && "create_by"@[0] == 'c' && "update_by"@[0]
        == 'u' && "create_time"@[0] == 'c' && "update_time"@[0] == 'u');
}

/// Parameters keep the kind of the values that they are made of: an integer that fits is bound as
/// one, what is no plain value as its JSON text.
pub proof fn law_value_bound(i: i64, b: bool, s: Seq<char>, a: Seq<JsonV>, o: ObjV)
    ensures
        sql_of(JsonV::Num(number_of(i))) == SqlV::Int(i),
        sql_of(JsonV::Bool(b)) == SqlV::Bool(b),
        sql_of(JsonV::Str(s)) == SqlV::Text(s),
        sql_of(JsonV::Null) is Null,
        sql_of(JsonV::Arr(a)) == SqlV::Json(json_text(JsonV::Arr(a))),
        sql_of(JsonV::Obj(o)) == SqlV::Json(json_text(JsonV::Obj(o))),
{
}

/// An update assigns each column the placeholder of its own value, and finds the row by the id and
/// the version behind them.
pub proof fn law_update_binds(table: Seq<char>, id: i64, row: ObjV, version: i64, i: int)
    requires
        0 <= i < row.len(),
    ensures
        assignments(row).len() == row.len(),
        assignments(row)[i] == row[i].0 + " = "@ + slot((i + 1) as nat),
        update_statement(table, id, row, version).params.len() == row.len() + 2,
        update_statement(table, id, row, version).params[i] == sql_of(row[i].1),
        update_statement(table, id, row, version).params[row.len() as int] == SqlV::Int(id),
        update_statement(table, id, row, version).params[(row.len() + 1) as int] == SqlV::Int(version),
{
}

proof fn lemma_without_times(row: ObjV, i: int)
    requires
        0 <= i < row.len(),
    ensures
        row[i].0 != "create_time"@ && row[i].0 != "update_time"@ ==> without_times(row).contains(
            row[i],
        ),
        forall|k: int|
            0 <= k < without_times(row).len() ==> (#[trigger] without_times(row)[k]).0
                != "create_time"@ && without_times(row)[k].0 != "update_time"@ && row.contains(
                without_times(row)[k],
            ),
    decreases row.len(),
{
    let d = row.drop_last();
    let w = without_times(d);
    let r = without_times(row);
    if d.len() > 0 {
        lemma_without_times(
            d,
            if i < d.len() {
                i
            } else {
                0
            },
        );
    } else {
        assert(w.len() == 0);
    }
    assert(row[row.len() - 1] == row.last());
    if row[i].0 != "create_time"@ && row[i].0 != "update_time"@ {
        if i < d.len() {
            assert(d[i] == row[i]);
            let k = choose|k: int| 0 <= k < w.len() && w[k] == row[i];
            assert(r[k] == row[i]);
        } else {
            assert(r[r.len() - 1] == row[i]);
        }
    }
    assert forall|k: int| 0 <= k < r.len() implies (#[trigger] r[k]).0 != "create_time"@ && r[k].0
        != "update_time"@ && row.contains(r[k]) by {
        if k < w.len() {
            assert(r[k] == w[k]);
            let m = choose|m: int| 0 <= m < d.len() && d[m] == w[k];
            assert(row[m] == r[k]);
        }
    }
}

/// A detail row is changed in every column that is given but the time stamps, and found by the id
/// that is bound last.
pub proof fn law_line_update_binds(table: Seq<char>, id: i64, row: ObjV, i: int)
    requires
        0 <= i < row.len(),
    ensures
        update_line_statement(table, id, row).params.last() == SqlV::Int(id),
        row[i].0 != "create_time"@ && row[i].0 != "update_time"@ ==> exists|k: int|
            0 <= k < update_line_statement(table, id, row).params.len() - 1
                && #[trigger] update_line_statement(table, id, row).params[k] == sql_of(row[i].1)
                && assignments(without_times(row))[k] == row[i].0 + " = "@ + slot((k + 1) as nat),
        forall|k: int|
            0 <= k < without_times(row).len() ==> (#[trigger] without_times(row)[k]).0
                != "create_time"@ && without_times(row)[k].0 != "update_time"@ && row.contains(
                without_times(row)[k],
            ),
{
    lemma_without_times(row, i);
    let w = without_times(row);
    let p = update_line_statement(table, id, row).params;
    if row[i].0 != "create_time"@ && row[i].0 != "update_time"@ {
        let k = choose|k: int| 0 <= k < w.len() && w[k] == row[i];
        assert(p[k] == sql_of(row[i].1));
    }
}

/// An insert names the id first and then the columns of the row, in their order; the id is bound
/// first.
pub proof fn law_insert_columns(table: Seq<char>, row: ObjV, id: i64, i: int)
    ensures
        insert_columns(row).len() == row.len() + 1,
        insert_columns(row)[0] == "id"@,
        0 <= i < row.len() ==> insert_columns(row)[i + 1] == row[i].0,
        insert_statement(table, row, id).params[0] == SqlV::Int(id),
        time_column("create_time"@),
        time_column("update_time"@),
{
}

/// A record is read from its row: the number under `id`, and all its columns.
pub proof fn law_record_read(rows: Seq<JsonV>, i: int, o: ObjV, id: i64)
    requires
        0 <= i < rows.len(),
        rows[i] == JsonV::Obj(o),
    ensures
        rows_records(rows).len() == rows.len(),
        rows_records(rows)[i].fields == o,
        json_i64(obj_get(o, "id"@)) == Some(id) ==> rows_records(rows)[i].id == id,
        json_i64(obj_get(o, "id"@)) is None ==> rows_records(rows)[i].id == 0,
{
}

} // verus!
