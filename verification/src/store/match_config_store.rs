//! Rules for finding duplicates.

use crate::json::{array, json_get, json_i64, json_str, values_view, Json, JsonV};
use crate::outside::{json_text, value_text};
use crate::sql::{params_view, text_param, SqlType, SqlV, SqlValue, Statement, StatementV};
use crate::store::jsonb::{parse_jsonb_field, parsed_field};
use crate::store::query::{filter_of, filter_text, opt_str, statement, Filter};
use crate::text::{join, joined};
use vstd::prelude::*;

verus! {

/// The rules in force, of one dictionary or of all.
pub fn list_match_config(dict_code: Option<&str>) -> (r: Statement)
    ensures
        ({
            let f = filter_text(filter_of("is_active = TRUE"@), "dict_code = "@, opt_str(dict_code));
            r@ == (StatementV {
                sql: "SELECT id, rule_name, dict_code, target_table, specs, cluster_keys, survive_fields, thresholds, is_active, created_at FROM md_match_config WHERE "@
                    + join(f.clauses, " AND "@) + " ORDER BY rule_name"@,
                params: f.params,
            })
        }),
{
    let mut f = Filter::new("is_active = TRUE");
    f.text("dict_code = ", dict_code);
    let mut sql: String =
        "SELECT id, rule_name, dict_code, target_table, specs, cluster_keys, survive_fields, thresholds, is_active, created_at FROM md_match_config WHERE ".to_owned();
    sql.append(joined(&f.clauses, " AND ").as_str());
    sql.append(" ORDER BY rule_name");
    Statement { sql, params: f.params }
}

/// A rule by id.
pub fn get_match_config(config_id: i64) -> (r: Statement)
    ensures
        r.sql@
            == "SELECT id, rule_name, dict_code, target_table, specs, cluster_keys, survive_fields, thresholds, is_active, created_at FROM md_match_config WHERE id = $1"@,
        params_view(r.params@) == seq![SqlV::Int(config_id)],
{
    let mut params: Vec<SqlValue> = Vec::new();
    params.push(SqlValue::Int(config_id));
    assert(params_view(params@) =~= seq![SqlV::Int(config_id)]);
    statement(
        "SELECT id, rule_name, dict_code, target_table, specs, cluster_keys, survive_fields, thresholds, is_active, created_at FROM md_match_config WHERE id = $1",
        params,
    )
}

/// A rule, from its row: its columns with JSON are read back.
pub open spec fn config_row(v: JsonV) -> JsonV {
    parsed_field(
        parsed_field(parsed_field(parsed_field(v, "specs"@), "cluster_keys"@), "survive_fields"@),
        "thresholds"@,
    )
}

/// Reads the columns with JSON of a rule back.
pub fn read_config_row(v: &mut Json)
    ensures
        final(v)@ == config_row(old(v)@),
{
    parse_jsonb_field(v, "specs");
    parse_jsonb_field(v, "cluster_keys");
    parse_jsonb_field(v, "survive_fields");
    parse_jsonb_field(v, "thresholds");
}

/// The text under one key, or else under another.
pub open spec fn picked(cfg: JsonV, k1: Seq<char>, k2: Seq<char>) -> Option<Seq<char>> {
    match json_str(json_get(cfg, k1)) {
        Some(s) => Some(s),
        None => json_str(json_get(cfg, k2)),
    }
}

fn pick<'a>(cfg: &'a Json, k1: &str, k2: &str) -> (r: Option<&'a str>)
    ensures
        opt_str(r) == picked(cfg@, k1@, k2@),
{
    match cfg.get(k1) {
        Some(Json::Str(s)) => Some(s.as_str()),
        _ => match cfg.get(k2) {
            Some(Json::Str(s)) => Some(s.as_str()),
            _ => None,
        },
    }
}

/// The value under one key, or else under another, or else an empty list.
pub open spec fn list_or_empty(cfg: JsonV, k1: Seq<char>, k2: Seq<char>) -> JsonV {
    match json_get(cfg, k1) {
        Some(v) => v,
        None => match json_get(cfg, k2) {
            Some(v) => v,
            None => JsonV::Arr(Seq::empty()),
        },
    }
}

fn list_text(cfg: &Json, k1: &str, k2: &str) -> (r: String)
    ensures
        r@ == json_text(list_or_empty(cfg@, k1@, k2@)),
{
    match cfg.get(k1) {
        Some(v) => value_text(v),
        None => match cfg.get(k2) {
            Some(v) => value_text(v),
            None => {
                let none: Vec<Json> = Vec::new();
                assert(values_view(none@) =~= Seq::<JsonV>::empty());
                value_text(&array(none))
            },
        },
    }
}

/// The id that a rule has already.
pub open spec fn known_id(cfg: JsonV) -> Option<i64> {
    match json_i64(json_get(cfg, "id"@)) {
        Some(i) => if i > 0 {
            Some(i)
        } else {
            None
        },
        None => None,
    }
}

/// The thresholds of a rule as JSON, null where it has none.
pub open spec fn thresholds_param(cfg: JsonV) -> SqlV {
    match json_get(cfg, "thresholds"@) {
        Some(t) => if t is Null {
            SqlV::NullTyped(SqlType::Json)
        } else {
            SqlV::Json(json_text(t))
        },
        None => SqlV::NullTyped(SqlType::Json),
    }
}

/// The write of a rule.
pub open spec fn config_statement(
    cfg: JsonV,
    id: i64,
    rule: Seq<char>,
    dict: Seq<char>,
    table: Seq<char>,
) -> StatementV {
    StatementV {
        sql: "INSERT INTO md_match_config (id, rule_name, dict_code, target_table, specs, cluster_keys, survive_fields, thresholds, is_active) VALUES ($1,$2,$3,$4,$5,$6,$7,$8,TRUE) ON CONFLICT (dict_code, rule_name) DO UPDATE SET target_table = EXCLUDED.target_table, specs = EXCLUDED.specs, cluster_keys = EXCLUDED.cluster_keys, survive_fields = EXCLUDED.survive_fields, thresholds = EXCLUDED.thresholds, is_active = TRUE"@,
        params: seq![
            SqlV::Int(id),
            SqlV::Text(rule),
            SqlV::Text(dict),
            SqlV::Text(table),
            SqlV::Json(json_text(list_or_empty(cfg, "specs"@, "specs"@))),
            SqlV::Json(json_text(list_or_empty(cfg, "clusterKeys"@, "cluster_keys"@))),
            SqlV::Json(json_text(list_or_empty(cfg, "surviveFields"@, "survive_fields"@))),
            thresholds_param(cfg),
        ],
    }
}

/// The write of a rule under an id; where the id is new the rule may have been there under
/// another, which is then looked up.
#[derive(Debug)]
pub struct ConfigWrite {
    pub id: i64,
    pub insert: Statement,
    pub resolve: Option<Statement>,
}

/// What a write of a rule stands for.
#[verifier::ext_equal]
pub struct ConfigWriteV {
    pub id: i64,
    pub insert: StatementV,
    pub resolve: Option<StatementV>,
}

impl ConfigWrite {
    pub open spec fn view(&self) -> ConfigWriteV {
        ConfigWriteV {
            id: self.id,
            insert: self.insert@,
            resolve: match self.resolve {
                Some(s) => Some(s@),
                None => None,
            },
        }
    }
}

/// The look-up of a rule's id.
pub open spec fn resolve_statement(dict: Seq<char>, rule: Seq<char>) -> StatementV {
    StatementV {
        sql: "SELECT id FROM md_match_config WHERE dict_code = $1 AND rule_name = $2"@,
        params: seq![SqlV::Text(dict), SqlV::Text(rule)],
    }
}

/// The write of a rule, or what it lacks: keys in camel case stand before those with underscores.
pub open spec fn config_write(cfg: JsonV, new_id: i64) -> Result<ConfigWriteV, Seq<char>> {
    match picked(cfg, "ruleName"@, "rule_name"@) {
        None => Err("rule_name 必填"@),
        Some(rule) => match picked(cfg, "dictCode"@, "dict_code"@) {
            None => Err("dict_code 必填"@),
            Some(dict) => match picked(cfg, "targetTable"@, "target_table"@) {
                None => Err("target_table 必填"@),
                Some(table) => {
                    let id = match known_id(cfg) {
                        Some(i) => i,
                        None => new_id,
                    };
                    Ok(
                        ConfigWriteV {
                            id,
                            insert: config_statement(cfg, id, rule, dict, table),
                            resolve: match known_id(cfg) {
                                Some(_) => None,
                                None => Some(resolve_statement(dict, rule)),
                            },
                        },
                    )
                },
            },
        },
    }
}

/// Looks up a rule's id.
pub fn resolve_id(dict_code: &str, rule_name: &str) -> (r: Statement)
    ensures
        r@ == resolve_statement(dict_code@, rule_name@),
{
    let mut params: Vec<SqlValue> = Vec::new();
    params.push(text_param(dict_code));
    params.push(text_param(rule_name));
    assert(params_view(params@) =~= seq![SqlV::Text(dict_code@), SqlV::Text(rule_name@)]);
    statement("SELECT id FROM md_match_config WHERE dict_code = $1 AND rule_name = $2", params)
}

/// The id that was looked up.
pub fn resolved_id(rows: &Vec<Json>) -> (r: Result<i64, String>)
    ensures
        match r {
            Ok(i) => rows@.len() > 0 && json_i64(json_get(rows@[0]@, "id"@)) == Some(i),
            Err(e) => (rows@.len() == 0 || json_i64(json_get(rows@[0]@, "id"@)) is None) && e@
                == "保存后反查规则 id 为空"@,
        },
{
    if rows.len() > 0 {
        if let Some(v) = rows[0].get("id") {
            if let Some(i) = v.as_i64() {
                return Ok(i);
            }
        }
    }
    Err("保存后反查规则 id 为空".to_owned())
}

fn insert_config(cfg: &Json, id: i64, rule: &str, dict: &str, table: &str) -> (r: Statement)
    ensures
        r@ == config_statement(cfg@, id, rule@, dict@, table@),
{
    let mut params: Vec<SqlValue> = Vec::new();
    params.push(SqlValue::Int(id));
    params.push(text_param(rule));
    params.push(text_param(dict));
    params.push(text_param(table));
    params.push(SqlValue::Json(list_text(cfg, "specs", "specs")));
    params.push(SqlValue::Json(list_text(cfg, "clusterKeys", "cluster_keys")));
    params.push(SqlValue::Json(list_text(cfg, "surviveFields", "survive_fields")));
    params.push(
        match cfg.get("thresholds") {
            Some(t) => if t.is_null() {
                SqlValue::NullTyped(SqlType::Json)
            } else {
                SqlValue::Json(value_text(t))
            },
            None => SqlValue::NullTyped(SqlType::Json),
        },
    );
    assert(params_view(params@) =~= config_statement(cfg@, id, rule@, dict@, table@).params);
    statement(
        "INSERT INTO md_match_config (id, rule_name, dict_code, target_table, specs, cluster_keys, survive_fields, thresholds, is_active) VALUES ($1,$2,$3,$4,$5,$6,$7,$8,TRUE) ON CONFLICT (dict_code, rule_name) DO UPDATE SET target_table = EXCLUDED.target_table, specs = EXCLUDED.specs, cluster_keys = EXCLUDED.cluster_keys, survive_fields = EXCLUDED.survive_fields, thresholds = EXCLUDED.thresholds, is_active = TRUE",
        params,
    )
}

/// Writes a rule under its own id, or under a new one.
pub fn upsert_match_config(cfg: &Json, new_id: i64) -> (r: Result<ConfigWrite, String>)
    ensures
        match r {
            Ok(w) => config_write(cfg@, new_id) == Ok::<ConfigWriteV, Seq<char>>(w@),
            Err(e) => config_write(cfg@, new_id) == Err::<ConfigWriteV, Seq<char>>(e@),
        },
{
    let rule = match pick(cfg, "ruleName", "rule_name") {
        Some(s) => s,
        None => {
            return Err("rule_name 必填".to_owned());
        },
    };
    let dict = match pick(cfg, "dictCode", "dict_code") {
        Some(s) => s,
        None => {
            return Err("dict_code 必填".to_owned());
        },
    };
    let table = match pick(cfg, "targetTable", "target_table") {
        Some(s) => s,
        None => {
            return Err("target_table 必填".to_owned());
        },
    };
    let known: Option<i64> = match cfg.get("id") {
        Some(v) => match v.as_i64() {
            Some(i) => if i > 0 {
                Some(i)
            } else {
                None
            },
            None => None,
        },
        None => None,
    };
    let id: i64 = match known {
        Some(i) => i,
        None => new_id,
    };
    let insert = insert_config(cfg, id, rule, dict, table);
    let resolve = match known {
        Some(_) => None,
        None => Some(resolve_id(dict, rule)),
    };
    Ok(ConfigWrite { id, insert, resolve })
}

/// Puts a rule out of force.
pub fn delete_match_config(config_id: i64) -> (r: Statement)
    ensures
        r.sql@ == "UPDATE md_match_config SET is_active = FALSE WHERE id = $1"@,
        params_view(r.params@) == seq![SqlV::Int(config_id)],
{
    let mut params: Vec<SqlValue> = Vec::new();
    params.push(SqlValue::Int(config_id));
    assert(params_view(params@) =~= seq![SqlV::Int(config_id)]);
    statement("UPDATE md_match_config SET is_active = FALSE WHERE id = $1", params)
}

} // verus!
