//! What requests are filled from, how subscriptions are kept, and what counts are answered.

use crate::distribution::transform::int_at;
use crate::handlers::dedup::{all_texts, texts_at};
use crate::handlers::governance::{
    changed_in_all, config_of, deletion, events_value, masked, max_seq, next_since, saving,
    switching, unmasked, with_creator,
};
use crate::handlers::distribution::{snapshot_filter, snapshot_value};
use crate::handlers::merge::page_value;
use crate::handlers::merge_create::{
    created, filled, group_insert, info_of, merge_step, merged_answer, BodyV, CreateActionV,
    CreateEventV, CreateStageV, LineInfoV, MergeInput,
};
use crate::handlers::search::{
    search_filled, searched, suspects_step, SearchActionV, SearchEventV, SearchKind, SearchStageV,
    SearchV,
};
use crate::handlers::workbench::counts;
use crate::handlers::SpecDtoV;
use crate::json::{
    json_get, json_i64, lemma_get_put, number_of, obj_get, JsonV, NumberV, ObjV,
};
use crate::match_algo::FieldSpecV;
use crate::merge_parts::MergeStats;
use crate::outside::json_text;
use crate::sql::{SqlType, SqlV, StatementV};
use crate::store::activation_store::LineTableV;
use crate::store::governance::{event_order, subscription_id, subscription_statement};
use crate::store::loader::rows_records;
use crate::store::match_config_store::config_row;
use vstd::prelude::*;

verus! {

/// A rule that names a table.
pub open spec fn rule_names(rows: Seq<JsonV>, table: Seq<char>) -> bool {
    &&& rows.len() > 0
    &&& json_get(config_row(rows[0]), "target_table"@) == Some(JsonV::Str(table))
    &&& table.len() > 0
}

/// A request to merge keeps what it says itself; what it leaves out comes from the first rule, and
/// nothing comes from a rule without a table.
pub proof fn law_merge_filled(b: BodyV, rows: Seq<JsonV>, table: Seq<char>)
    ensures
        b.target_table.len() > 0 ==> filled(b, rows).target_table == b.target_table,
        b.survive_fields.len() > 0 ==> filled(b, rows).survive_fields == b.survive_fields,
        rule_names(rows, table) && b.target_table.len() == 0 ==> filled(b, rows).target_table
            == table,
        rule_names(rows, table) && b.survive_fields.len() == 0 ==> filled(b, rows).survive_fields
            == texts_at(config_row(rows[0]), "survive_fields"@),
        rows.len() == 0 ==> filled(b, rows) == b,
        rows.len() > 0 && json_get(config_row(rows[0]), "target_table"@) is None ==> filled(b, rows)
            == b,
        filled(b, rows).dict_code == b.dict_code,
        filled(b, rows).master_id == b.master_id,
        filled(b, rows).victim_ids == b.victim_ids,
        filled(b, rows).merge_id == b.merge_id,
        filled(b, rows).survivorship == b.survivorship,
        filled(b, rows).overrides == b.overrides,
        filled(b, rows).scan_id == b.scan_id,
{
}

/// A search keeps what it says itself; what it leaves out comes from the first rule. A check of
/// given values takes no fields that survive.
pub proof fn law_search_filled(
    b: SearchV,
    rows: Seq<JsonV>,
    specs: Seq<SpecDtoV>,
    table: Seq<char>,
)
    ensures
        ({
            let r = search_filled(b, rows, specs);
            &&& b.target_table.len() > 0 ==> r.target_table == b.target_table
            &&& b.specs.len() > 0 ==> r.specs == b.specs
            &&& b.cluster_keys.len() > 0 ==> r.cluster_keys == b.cluster_keys
            &&& b.survive_fields.len() > 0 || b.kind is Check ==> r.survive_fields
                == b.survive_fields
            &&& rule_names(rows, table) && b.target_table.len() == 0 ==> r.target_table == table
            &&& rule_names(rows, table) && b.specs.len() == 0 ==> r.specs == specs
            &&& rule_names(rows, table) && b.cluster_keys.len() == 0 ==> r.cluster_keys == texts_at(
                config_row(rows[0]),
                "cluster_keys"@,
            )
            &&& rule_names(rows, table) && b.survive_fields.len() == 0 && !(b.kind is Check)
                ==> r.survive_fields == texts_at(config_row(rows[0]), "survive_fields"@)
            &&& rows.len() == 0 ==> r == b
            &&& r.kind == b.kind
            &&& r.dict_code == b.dict_code
            &&& r.display_fields == b.display_fields
        }),
{
}

/// A list of texts is read as such, in its order; a list with anything else in it as none.
pub proof fn law_text_list(a: Seq<JsonV>, t: Seq<Seq<char>>, i: int)
    requires
        a.len() == t.len(),
    ensures
        (forall|k: int| 0 <= k < a.len() ==> #[trigger] a[k] == JsonV::Str(t[k])) ==> all_texts(a)
            == t,
        0 <= i < a.len() && !(a[i] is Str) ==> all_texts(a).len() == 0,
{
    if forall|k: int| 0 <= k < a.len() ==> #[trigger] a[k] == JsonV::Str(t[k]) {
        assert(all_texts(a) =~= t);
    }
}

/// A complete search asks for no rule; one that lacks something asks for the rules of its own
/// dictionary and of no other.
pub proof fn law_search_asks_rules(b: SearchV)
    ensures
        ({
            let a = searched(SearchStageV::Start(b), SearchEventV::Begin).1;
            let complete = b.target_table.len() > 0 && b.specs.len() > 0 && b.cluster_keys.len() > 0
                && (b.kind is Check || b.survive_fields.len() > 0);
            &&& complete ==> !(a is QueryRules)
            &&& !complete ==> a is QueryRules && a->QueryRules_0.params == seq![
                SqlV::Text(b.dict_code),
            ]
        }),
{
}

/// The records that were read are compared, all of them and as they were read.
pub proof fn law_search_compares(b: SearchV, specs: Seq<FieldSpecV>, rows: Seq<JsonV>)
    ensures
        searched(SearchStageV::Suspects(b, specs), SearchEventV::Rows(rows)).1
            == SearchActionV::Compare(b, specs, rows_records(rows)),
{
}

/// Values without a bucket are compared with nothing, and nothing is read for them.
pub proof fn law_check_without_bucket(b: SearchV, values: ObjV)
    requires
        b.kind == SearchKind::Check(values),
        forall|i: int|
            0 <= i < b.cluster_keys.len() ==> (obj_get(values, #[trigger] b.cluster_keys[i]) is None
                || obj_get(values, b.cluster_keys[i]) == Some(JsonV::Null)),
    ensures
        suspects_step(b).1 matches SearchActionV::Fail(_) || (
        suspects_step(b).1 matches SearchActionV::Compare(_, _, rs) && rs.len() == 0),
{
    lemma_no_bucket(values, b.cluster_keys);
}

proof fn lemma_no_bucket(values: ObjV, keys: Seq<Seq<char>>)
    requires
        forall|i: int|
            0 <= i < keys.len() ==> (obj_get(values, #[trigger] keys[i]) is None || obj_get(
                values,
                keys[i],
            ) == Some(JsonV::Null)),
    ensures
        crate::match_algo::bucket_field(values, keys) is None,
    decreases keys.len(),
{
    if keys.len() > 0 {
        let d = keys.drop_first();
        assert(obj_get(values, keys[0]) is None || obj_get(values, keys[0]) == Some(JsonV::Null));
        assert forall|i: int| 0 <= i < d.len() implies (obj_get(values, #[trigger] d[i]) is None
            || obj_get(values, d[i]) == Some(JsonV::Null)) by {
            assert(d[i] == keys[i + 1]);
        }
        lemma_no_bucket(values, d);
    }
}

/// What tells the rows of a detail table apart: the first unique key of its dictionary but for the
/// column that points at the head row; nothing for a table without a dictionary or without keys.
pub proof fn law_line_keys(t: LineTableV, keys: Seq<Seq<Seq<char>>>, k: Seq<char>)
    ensures
        info_of(t, Some(keys)).table == t.table,
        info_of(t, Some(keys)).parent_field == t.parent_field,
        t.dict_code.len() == 0 || keys.len() == 0 ==> info_of(t, Some(keys)).dedup_keys.len() == 0,
        info_of(t, None).dedup_keys.len() == 0,
        t.dict_code.len() > 0 && keys.len() > 0 ==> (info_of(t, Some(keys)).dedup_keys.contains(k)
            <==> keys[0].contains(k) && k != t.parent_field),
{
    if keys.len() > 0 {
        crate::handlers::search_laws::lemma_without(keys[0], t.parent_field, k);
    }
}

/// A merge takes place with the master, the victims, the tables and the fields that were asked for,
/// under the merge request that is named.
pub proof fn law_merge_as_asked(i: MergeInput, b: BodyV, tables: Seq<LineInfoV>, group: i64)
    requires
        b.survivorship is None,
    ensures
        merge_step(i, b, tables, group).1 matches CreateActionV::Merge(q) && {
            &&& q.dict_code == b.dict_code
            &&& q.head_table == b.target_table
            &&& q.master_id == b.master_id
            &&& q.victim_ids == b.victim_ids
            &&& q.survive_fields == b.survive_fields
            &&& q.rules.len() == 0
            &&& q.line_tables == tables
            &&& q.operated_by == i.operated_by
            &&& q.match_group_id == group
            &&& q.audit_id == i.audit_id
            &&& q.event_id == i.event_id@
            &&& b.overrides is None ==> q.overrides.len() == 0
            &&& b.overrides is Some ==> q.overrides == b.overrides->Some_0
        },
{
}

/// A new merge request is written with the master first among its members and then the victims, as
/// one that waits.
pub proof fn law_request_written(b: BodyV, id: i64)
    ensures
        ({
            let p = group_insert(b, id).params;
            &&& p.len() == 8
            &&& p[0] == SqlV::Int(id)
            &&& p[1] == SqlV::Text(b.dict_code)
            &&& p[4] == SqlV::Int(b.master_id)
            &&& p[5] == SqlV::Int(100)
            &&& p[6] == SqlV::Text("automerge"@)
            &&& p[7] == SqlV::Text("pending"@)
            &&& p[3] matches SqlV::Json(t) && exists|a: JsonV|
                t == #[trigger] json_text(a) && a is Arr && a->Arr_0.len() == b.victim_ids.len() + 1
                    && a->Arr_0[0] == JsonV::Num(number_of(b.master_id)) && forall|i: int|
                    0 <= i < b.victim_ids.len() ==> a->Arr_0[i + 1] == JsonV::Num(
                        number_of(#[trigger] b.victim_ids[i]),
                    )
        }),
{
    let ids = seq![b.master_id] + b.victim_ids;
    let a = crate::merge_parts::ids_json(ids);
    assert(group_insert(b, id).params[3] == SqlV::Json(json_text(a)));
    assert(a is Arr && a->Arr_0.len() == b.victim_ids.len() + 1);
    assert forall|i: int| 0 <= i < b.victim_ids.len() implies a->Arr_0[i + 1] == JsonV::Num(
        number_of(#[trigger] b.victim_ids[i]),
    ) by {
        assert(ids[i + 1] == b.victim_ids[i]);
    }
}

/// The finding behind a merge is resolved by who merged, once the records are merged; without one
/// the merge is answered at once.
pub proof fn law_finding_resolved(i: MergeInput, scan: i64, group: i64, s: MergeStats)
    ensures
        created(i, CreateStageV::Merging(Some(scan), group), CreateEventV::Merged(
            s,
        )).1 matches CreateActionV::Execute(q) && q.params == seq![
            SqlV::Text("resolved"@),
            SqlV::Int(scan),
            SqlV::Text("pending"@),
            SqlV::Int(i.operated_by),
        ],
        created(i, CreateStageV::Merging(None, group), CreateEventV::Merged(s)).1
            == CreateActionV::Answer(merged_answer(s, group)),
{
}

/// A merge is answered with its master, its request, and how many lines moved and retired.
pub proof fn law_merge_answer(s: MergeStats, group: i64)
    ensures
        json_get(merged_answer(s, group), "masterId"@) == Some(JsonV::Num(number_of(s.master_id))),
        json_get(merged_answer(s, group), "matchGroupId"@) == Some(JsonV::Num(number_of(group))),
        json_get(merged_answer(s, group), "reparentedTotal"@) == Some(
            JsonV::Num(NumberV::PosInt(s.reparented_total)),
        ),
        json_get(merged_answer(s, group), "dedupedTotal"@) == Some(
            JsonV::Num(NumberV::PosInt(s.deduped_total)),
        ),
{
    broadcast use lemma_get_put;

    reveal_strlit("masterId");
    reveal_strlit("matchGroupId");
    reveal_strlit("reparentedTotal");
    reveal_strlit("dedupedTotal");
    assert("masterId"@.len() == 8 && "matchGroupId"@.len() == 12 && "reparentedTotal"@.len() == 15
        && "dedupedTotal"@.len() == 12);
    assert("matchGroupId"@[0] == 'm' && "dedupedTotal"@[0] == 'd');
}

/// A secret that is there is shown as three stars; nothing else of a subscription changes.
pub proof fn law_secret_starred(sub: ObjV, cfg: ObjV, secret: Seq<char>, k: Seq<char>)
    requires
        obj_get(sub, "channel_config"@) == Some(JsonV::Obj(cfg)),
    ensures
        obj_get(cfg, "secret"@) == Some(JsonV::Str(secret)) && secret.len() > 0 ==> (config_of(
            masked(JsonV::Obj(sub)),
        ) matches Some(c) && obj_get(c, "secret"@) == Some(JsonV::Str("***"@))),
        k != "channel_config"@ ==> json_get(masked(JsonV::Obj(sub)), k) == obj_get(sub, k),
        k != "secret"@ ==> (config_of(masked(JsonV::Obj(sub))) matches Some(c) && obj_get(c, k)
            == obj_get(cfg, k)),
        obj_get(cfg, "secret"@) is None ==> masked(JsonV::Obj(sub)) == JsonV::Obj(sub),
{
    broadcast use lemma_get_put;

}

/// A subscription that is saved with a new secret gets it; one that comes back with the stars keeps
/// what is stored. All else is as it comes.
pub proof fn law_secret_kept_or_changed(
    body: ObjV,
    cfg: ObjV,
    id: i64,
    stored: JsonV,
    old_cfg: ObjV,
    v: JsonV,
    k: Seq<char>,
)
    requires
        obj_get(body, "channel_config"@) == Some(JsonV::Obj(cfg)),
        json_i64(obj_get(body, "id"@)) == Some(id),
        json_get(stored, "channel_config"@) == Some(JsonV::Obj(old_cfg)),
        obj_get(old_cfg, "secret"@) == Some(v),
    ensures
        obj_get(cfg, "secret"@) != Some(JsonV::Str("***"@)) ==> unmasked(
            JsonV::Obj(body),
            Some(stored),
        ) == JsonV::Obj(body),
        obj_get(cfg, "secret"@) == Some(JsonV::Str("***"@)) ==> (config_of(
            unmasked(JsonV::Obj(body), Some(stored)),
        ) matches Some(c) && obj_get(c, "secret"@) == Some(v) && (k != "secret"@ ==> obj_get(c, k)
            == obj_get(cfg, k))),
        k != "channel_config"@ ==> json_get(unmasked(JsonV::Obj(body), Some(stored)), k) == obj_get(
            body,
            k,
        ),
{
    broadcast use lemma_get_put;

}

/// A new subscription is noted with who made it; one that has an id keeps what it says of that.
pub proof fn law_maker_noted(body: ObjV, user: Seq<char>, id: i64, k: Seq<char>)
    ensures
        json_i64(obj_get(body, "id"@)) == Some(id) ==> with_creator(body, Some(user)) == body,
        json_i64(obj_get(body, "id"@)) is None ==> obj_get(
            with_creator(body, Some(user)),
            "created_by"@,
        ) == Some(JsonV::Str(user)),
        json_i64(obj_get(body, "id"@)) is None ==> obj_get(with_creator(body, None), "created_by"@)
            == Some(JsonV::Null),
        k != "created_by"@ ==> obj_get(with_creator(body, Some(user)), k) == obj_get(body, k),
{
    broadcast use lemma_get_put;

}

/// A subscription is written as it comes.
pub proof fn law_subscription_written(
    body: JsonV,
    new_id: i64,
    id: i64,
    target: Seq<char>,
    dict: Seq<char>,
    channel: Seq<char>,
    active: bool,
    retry: i64,
    timeout: i64,
    batch: i64,
)
    ensures
        ({
            let p = subscription_statement(body, new_id).params;
            &&& p.len() == 15
            &&& p[0] == SqlV::Int(subscription_id(body, new_id))
            &&& json_i64(json_get(body, "id"@)) == Some(id) ==> p[0] == SqlV::Int(id)
            &&& json_get(body, "id"@) is None ==> p[0] == SqlV::Int(new_id)
            &&& json_get(body, "target_sys"@) == Some(JsonV::Str(target)) ==> p[1] == SqlV::Text(
                target,
            )
            &&& json_get(body, "dict_code"@) == Some(JsonV::Str(dict)) ==> p[2] == SqlV::Text(dict)
            &&& json_get(body, "channel"@) == Some(JsonV::Str(channel)) ==> p[5] == SqlV::Text(
                channel,
            )
            &&& json_get(body, "channel"@) is None ==> p[5] == SqlV::Text("webhook"@)
            &&& json_get(body, "active"@) == Some(JsonV::Bool(active)) ==> p[6] == SqlV::Bool(
                active,
            )
            &&& json_get(body, "active"@) is None ==> p[6] == SqlV::Bool(true)
            &&& json_i64(json_get(body, "retry_max"@)) == Some(retry) ==> p[11] == SqlV::Int(retry)
            &&& json_get(body, "retry_max"@) is None ==> p[11] == SqlV::Int(8)
            &&& json_i64(json_get(body, "timeout_ms"@)) == Some(timeout) ==> p[12] == SqlV::Int(
                timeout,
            )
            &&& json_get(body, "timeout_ms"@) is None ==> p[12] == SqlV::Int(10000)
            &&& json_i64(json_get(body, "batch_size"@)) == Some(batch) ==> p[13] == SqlV::Int(batch)
            &&& json_get(body, "batch_size"@) is None ==> p[13] == SqlV::Int(50)
        }),
{
}

/// The parts of a subscription that are values are written as their text; without a filter or a
/// field map null is written, without settings none, without event types none.
pub proof fn law_subscription_values(
    body: JsonV,
    new_id: i64,
    filter: JsonV,
    map: JsonV,
    cfg: JsonV,
    types: JsonV,
)
    ensures
        ({
            let p = subscription_statement(body, new_id).params;
            &&& json_get(body, "filter"@) == Some(filter) ==> p[3] == SqlV::Json(json_text(filter))
            &&& json_get(body, "filter"@) is None ==> p[3] == SqlV::NullTyped(SqlType::Json)
            &&& json_get(body, "field_map"@) == Some(map) ==> p[4] == SqlV::Json(json_text(map))
            &&& json_get(body, "field_map"@) is None ==> p[4] == SqlV::NullTyped(SqlType::Json)
            &&& json_get(body, "channel_config"@) == Some(cfg) ==> p[9] == SqlV::Json(
                json_text(cfg),
            )
            &&& json_get(body, "channel_config"@) is None ==> p[9] == SqlV::Json("{}"@)
            &&& json_get(body, "event_types"@) == Some(types) ==> p[10] == SqlV::Json(
                json_text(types),
            )
            &&& json_get(body, "event_types"@) is None ==> p[10] == SqlV::Json("[]"@)
        }),
{
}

/// The next page of events begins behind the greatest number of this one, which one of its events
/// has; after an empty page it begins where this one did.
pub proof fn law_next_page_of_events(list: Seq<JsonV>, since: i64)
    ensures
        list.len() > 0 ==> exists|i: int|
            0 <= i < list.len() && next_since(list, Some(since)) == int_at(
                #[trigger] list[i],
                "seq"@,
            ),
        forall|i: int|
            0 <= i < list.len() ==> int_at(#[trigger] list[i], "seq"@) <= next_since(
                list,
                Some(since),
            ),
        list.len() == 0 ==> next_since(list, Some(since)) == since,
        list.len() == 0 ==> next_since(list, None) == 0,
{
    if list.len() > 0 {
        lemma_max_is_there(list);
        assert forall|i: int| 0 <= i < list.len() implies int_at(#[trigger] list[i], "seq"@)
            <= next_since(list, Some(since)) by {
            crate::handlers::governance::law_next_since(list, Some(since), i);
        }
    }
}

proof fn lemma_max_is_there(list: Seq<JsonV>)
    requires
        list.len() > 0,
    ensures
        exists|i: int| 0 <= i < list.len() && max_seq(list) == int_at(#[trigger] list[i], "seq"@),
    decreases list.len(),
{
    assert(list[list.len() - 1] == list.last());
    if list.len() > 1 {
        let d = list.drop_last();
        lemma_max_is_there(d);
        let i = choose|i: int|
            0 <= i < d.len() && max_seq(d) == int_at(#[trigger] d[i], "seq"@);
        assert(list[i] == d[i]);
    }
}

/// Events come forwards unless they are asked for backwards.
pub proof fn law_event_order(order: Option<Seq<char>>)
    ensures
        event_order(None) == "seq ASC"@,
        event_order(Some("desc"@)) == "seq DESC"@,
        event_order(Some("DESC"@)) == "seq DESC"@,
        event_order(Some("asc"@)) == "seq ASC"@,
        event_order(order) == "seq ASC"@ || event_order(order) == "seq DESC"@,
{
    reveal_strlit("desc");
    reveal_strlit("DESC");
    reveal_strlit("asc");
    assert("desc"@.len() == 4 && "asc"@.len() == 3);
    assert("DESC"@ =~= seq!['D', 'E', 'S', 'C']);
    assert("desc"@ =~= seq!['d', 'e', 's', 'c']);
}

/// Row `j` is the last of the rows with a state and a count that has this state.
pub open spec fn last_count(rows: Seq<JsonV>, state: Seq<char>, j: int) -> bool {
    &&& 0 <= j < rows.len()
    &&& json_get(rows[j], "status"@) == Some(JsonV::Str(state))
    &&& json_i64(json_get(rows[j], "c"@)) is Some
    &&& forall|k: int|
        j < k < rows.len() ==> json_get(#[trigger] rows[k], "status"@) != Some(JsonV::Str(state))
}

/// Each state is counted as its row says; a state without a row is not counted.
pub proof fn law_counts(rows: Seq<JsonV>, state: Seq<char>, j: int)
    ensures
        last_count(rows, state, j) ==> obj_get(counts(rows), state) == Some(
            JsonV::Num(number_of(json_i64(json_get(rows[j], "c"@))->Some_0)),
        ),
        (forall|k: int|
            0 <= k < rows.len() ==> json_get(#[trigger] rows[k], "status"@) != Some(
                JsonV::Str(state),
            )) ==> obj_get(counts(rows), state) is None,
    decreases rows.len(),
{
    broadcast use lemma_get_put;

    if rows.len() > 0 {
        let d = rows.drop_last();
        law_counts(d, state, j);
        assert(rows[rows.len() - 1] == rows.last());
        if last_count(rows, state, j) && j < d.len() {
            assert(json_get(rows[rows.len() - 1], "status"@) != Some(JsonV::Str(state)));
            assert forall|k: int| j < k < d.len() implies json_get(#[trigger] d[k], "status"@)
                != Some(JsonV::Str(state)) by {
                assert(d[k] == rows[k]);
            }
            assert(last_count(d, state, j));
        }
        if forall|k: int|
            0 <= k < rows.len() ==> json_get(#[trigger] rows[k], "status"@) != Some(
                JsonV::Str(state),
            ) {
            assert forall|k: int| 0 <= k < d.len() implies json_get(#[trigger] d[k], "status"@)
                != Some(JsonV::Str(state)) by {
                assert(d[k] == rows[k]);
            }
            assert(json_get(rows[rows.len() - 1], "status"@) != Some(JsonV::Str(state)));
        }
    }
}

/// Deliveries that were made again add up over the statements that made them.
pub proof fn law_changes_add_up(counts: Seq<u64>, n: u64)
    ensures
        changed_in_all(Seq::empty()) == 0,
        changed_in_all(counts.push(n)) == changed_in_all(counts) + n,
{
    assert(counts.push(n).drop_last() =~= counts);
}

proof fn lemma_page_words()
    ensures
        "list"@.len() == 4,
        "total"@.len() == 5,
        "page"@.len() == 4,
        "pageSize"@.len() == 8,
        "nextSince"@.len() == 9,
        "hasMore"@.len() == 7,
        "maxSeq"@.len() == 6,
        "list"@[0] == 'l',
        "page"@[0] == 'p',
{
    reveal_strlit("list");
    reveal_strlit("total");
    reveal_strlit("page");
    reveal_strlit("pageSize");
    reveal_strlit("nextSince");
    reveal_strlit("hasMore");
    reveal_strlit("maxSeq");
}

/// A page holds its rows, the total, and which page of which size it is.
pub proof fn law_page_answered(list: Seq<JsonV>, total: i64, page: i64, size: i64)
    ensures
        ({
            let v = page_value(list, total, page, size);
            &&& json_get(v, "list"@) == Some(JsonV::Arr(list))
            &&& json_get(v, "total"@) == Some(JsonV::Num(number_of(total)))
            &&& json_get(v, "page"@) == Some(JsonV::Num(number_of(page)))
            &&& json_get(v, "pageSize"@) == Some(JsonV::Num(number_of(size)))
        }),
{
    broadcast use lemma_get_put;

    lemma_page_words();
}

/// A page of events says that there are more exactly where the total goes beyond it.
pub proof fn law_events_answered(
    list: Seq<JsonV>,
    total: i64,
    since: Option<i64>,
    page: i64,
    size: i64,
)
    ensures
        ({
            let v = events_value(list, total, since, page, size);
            &&& json_get(v, "list"@) == Some(JsonV::Arr(list))
            &&& json_get(v, "total"@) == Some(JsonV::Num(number_of(total)))
            &&& json_get(v, "page"@) == Some(JsonV::Num(number_of(page)))
            &&& json_get(v, "pageSize"@) == Some(JsonV::Num(number_of(size)))
            &&& json_get(v, "nextSince"@) == Some(JsonV::Num(number_of(next_since(list, since))))
            &&& json_get(v, "hasMore"@) == Some(JsonV::Bool(true)) <==> page * size < total
            &&& json_get(v, "hasMore"@) == Some(JsonV::Bool(false)) <==> total <= page * size
        }),
{
    broadcast use lemma_get_put;

    lemma_page_words();
}

/// A page of a snapshot tells up to which event the records go; it is the first page of twenty
/// where nothing else is asked for.
pub proof fn law_snapshot_answered(
    body: JsonV,
    list: Seq<JsonV>,
    total: i64,
    max_seq: i64,
    page: i64,
    size: i64,
)
    ensures
        ({
            let v = snapshot_value(body, list, total, max_seq);
            &&& json_get(v, "list"@) == Some(JsonV::Arr(list))
            &&& json_get(v, "total"@) == Some(JsonV::Num(number_of(total)))
            &&& json_get(v, "maxSeq"@) == Some(JsonV::Num(number_of(max_seq)))
            &&& json_i64(json_get(body, "page"@)) == Some(page) && page > 0 ==> json_get(v, "page"@)
                == Some(JsonV::Num(number_of(page)))
            &&& json_get(body, "page"@) is None ==> json_get(v, "page"@) == Some(
                JsonV::Num(number_of(1)),
            )
            &&& json_i64(json_get(body, "pageSize"@)) == Some(size) && size > 0 ==> json_get(
                v,
                "pageSize"@,
            ) == Some(JsonV::Num(number_of(size)))
            &&& json_get(body, "pageSize"@) is None ==> json_get(v, "pageSize"@) == Some(
                JsonV::Num(number_of(20)),
            )
        }),
{
    broadcast use lemma_get_put;

    lemma_page_words();
}

/// A snapshot binds the two days that are asked for, the first as its beginning and the second as
/// its end.
pub proof fn law_snapshot_binds(body: JsonV, from: Seq<char>, to: Seq<char>)
    requires
        from.len() > 0,
        to.len() > 0,
        json_get(body, "updatedFrom"@) == Some(JsonV::Str(from)),
        json_get(body, "updatedTo"@) == Some(JsonV::Str(to)),
    ensures
        snapshot_filter(body).params == seq![SqlV::Text(from), SqlV::Text(to)],
        snapshot_filter(body).clauses.len() == 3,
        snapshot_filter(body).clauses[0] == "lifecycle_status = 'published'"@,
{
    assert(snapshot_filter(body).params =~= seq![SqlV::Text(from), SqlV::Text(to)]);
}

/// A subscription that runs is not deleted, nor is one that is not there; any other is, by its own
/// number.
pub proof fn law_running_is_not_deleted(id: i64, sub: JsonV)
    ensures
        deletion(id, None) is Err,
        json_get(sub, "active"@) == Some(JsonV::Bool(true)) ==> deletion(id, Some(sub)) is Err,
        json_get(sub, "active"@) != Some(JsonV::Bool(true)) ==> (deletion(
            id,
            Some(sub),
        ) matches Ok(s) && s.params == seq![SqlV::Int(id)]),
{
}

/// A subscription is stopped only where that is asked for.
pub proof fn law_started_unless_stopped(body: JsonV, id: i64)
    requires
        json_i64(json_get(body, "id"@)) == Some(id),
    ensures
        json_get(body, "active"@) == Some(JsonV::Bool(false)) ==> (switching(body) matches Ok(s)
            && s.params == seq![SqlV::Bool(false), SqlV::Int(id)]),
        json_get(body, "active"@) != Some(JsonV::Bool(false)) ==> (switching(body) matches Ok(s)
            && s.params == seq![SqlV::Bool(true), SqlV::Int(id)]),
{
}

/// A subscription is saved exactly where its channel is there and takes its settings, or where it
/// pulls and no channel is needed.
pub proof fn law_saved_with_channel(
    channel: Seq<char>,
    body: ObjV,
    error: Seq<char>,
    user: Seq<char>,
    new_id: i64,
    id: i64,
)
    ensures
        channel != "rest_pull"@ ==> saving(
            channel,
            JsonV::Obj(body),
            false,
            None,
            Some(user),
            new_id,
        ) is Err,
        saving(channel, JsonV::Obj(body), true, Some(error), Some(user), new_id) == Err::<
            (i64, StatementV),
            Seq<char>,
        >(error),
        saving(channel, JsonV::Obj(body), true, None, Some(user), new_id) is Ok,
        saving("rest_pull"@, JsonV::Obj(body), false, None, Some(user), new_id) is Ok,
        json_i64(obj_get(body, "id"@)) == Some(id) ==> (saving(
            channel,
            JsonV::Obj(body),
            true,
            None,
            Some(user),
            new_id,
        ) matches Ok(w) && w.0 == id && w.1.params[0] == SqlV::Int(id)),
        json_i64(obj_get(body, "id"@)) is None ==> (saving(
            channel,
            JsonV::Obj(body),
            true,
            None,
            Some(user),
            new_id,
        ) matches Ok(w) && w.0 == new_id && w.1.params[0] == SqlV::Int(new_id) && w.1.params[14]
            == SqlV::Text(user)),
{
    broadcast use lemma_get_put;

    reveal_strlit("id");
    reveal_strlit("created_by");
    assert("id"@.len() == 2 && "created_by"@.len() == 10);
}

} // verus!
