//! The workflow platform: how an approval is started, and how its answers are read.

use crate::distribution::config::{read_switch, switch_or};
use crate::json::{json_get, obj_put, Json, JsonV, ObjV, Object};
use crate::handlers::put;
use crate::match_algo::opt_text;
use crate::outside::{json_text, value_text};
use crate::store::query::opt_str;
use crate::text::{contains_text, dec_int, decimal_int, has_part, trim, trimmed};
use vstd::prelude::*;

verus! {

/// The table that approvals are about.
pub const MDM_BIZ_TABLE: &'static str = "cv_mdm_apply";

/// How the workflow platform is used.
#[derive(Debug)]
pub struct FlowCfg {
    /// The definition that approvals follow.
    pub definition_key: String,
    /// The key under which events are signed.
    pub webhook_secret: String,
    /// Whether requests can be moved by hand.
    pub manual_override_enabled: bool,
}

impl Default for FlowCfg {
    fn default() -> (r: FlowCfg)
        ensures
            r.definition_key@ == "mdm_cr_approval"@,
            r.webhook_secret@.len() == 0,
            !r.manual_override_enabled,
    {
        FlowCfg {
            definition_key: "mdm_cr_approval".to_owned(),
            webhook_secret: String::new(),
            manual_override_enabled: false,
        }
    }
}

/// The settings as they are written, as far as they are.
#[derive(Debug)]
pub struct FlowSettings {
    pub definition_key: Option<String>,
    pub webhook_secret: Option<String>,
    pub manual_override_enabled: Option<String>,
}

/// Reads the settings: what is not written keeps its default.
pub fn flow_cfg(s: &FlowSettings) -> (r: FlowCfg)
    ensures
        r.definition_key@ == (match opt_text(s.definition_key) {
            Some(v) => if trimmed(v).len() > 0 {
                trimmed(v)
            } else {
                "mdm_cr_approval"@
            },
            None => "mdm_cr_approval"@,
        }),
        r.webhook_secret@ == (match opt_text(s.webhook_secret) {
            Some(v) => v,
            None => Seq::empty(),
        }),
        r.manual_override_enabled == switch_or(opt_text(s.manual_override_enabled), false),
{
    let mut cfg = FlowCfg::default();
    if let Some(v) = &s.definition_key {
        let t = trim(v.as_str());
        if !t.as_str().is_empty() {
            cfg.definition_key = t;
        }
    }
    if let Some(v) = &s.webhook_secret {
        cfg.webhook_secret = v.clone();
    }
    cfg.manual_override_enabled = read_switch(&s.manual_override_enabled, false);
    assert(s.webhook_secret is None ==> cfg.webhook_secret@ =~= Seq::<char>::empty());
    cfg
}

/// Requests are moved by hand only where that is allowed.
pub fn manual_override_guard(cfg: &FlowCfg) -> (r: Result<(), String>)
    ensures
        match r {
            Ok(_) => cfg.manual_override_enabled,
            Err(e) => !cfg.manual_override_enabled && e@
                == "流程审批模式已启用，手动端点已关闭（[mdm.flow].manual_override_enabled）"@,
        },
{
    if cfg.manual_override_enabled {
        Ok(())
    } else {
        Err(
            "流程审批模式已启用，手动端点已关闭（[mdm.flow].manual_override_enabled）".to_owned(),
        )
    }
}

/// A column as text: a number is written out, anything else is empty.
pub open spec fn column_text(head: ObjV, k: Seq<char>) -> Seq<char> {
    match json_get(JsonV::Obj(head), k) {
        Some(JsonV::Str(s)) => s,
        Some(JsonV::Num(n)) => json_text(JsonV::Num(n)),
        _ => Seq::empty(),
    }
}

/// A column as text.
pub fn text_column(head: &Object, k: &str) -> (r: String)
    ensures
        r@ == column_text(head@, k@),
{
    match head.get(k) {
        Some(v) => match v {
            Json::Str(s) => s.clone(),
            Json::Num(_) => value_text(v),
            _ => String::new(),
        },
        None => String::new(),
    }
}

/// A request to start an approval.
#[derive(Debug)]
pub struct StartRequest {
    pub definition_key: String,
    pub business_key: String,
    pub variables: Json,
    pub biz_table: String,
    pub biz_id: String,
    pub role: String,
}

/// What a request to start an approval stands for.
#[verifier::ext_equal]
pub struct StartV {
    pub definition_key: Seq<char>,
    pub business_key: Seq<char>,
    pub variables: JsonV,
    pub biz_table: Seq<char>,
    pub biz_id: Seq<char>,
    pub role: Seq<char>,
}

impl StartRequest {
    pub open spec fn view(&self) -> StartV {
        StartV {
            definition_key: self.definition_key@,
            business_key: self.business_key@,
            variables: self.variables@,
            biz_table: self.biz_table@,
            biz_id: self.biz_id@,
            role: self.role@,
        }
    }
}

/// What the approval knows of the request: who made it, and where it is kept.
pub open spec fn start_variables(head: ObjV, cr_id: i64, name: Option<Seq<char>>) -> ObjV {
    let o = obj_put(Seq::empty(), "initiator"@, JsonV::Str(column_text(head, "create_by"@)));
    let o = obj_put(o, "docNo"@, JsonV::Str(column_text(head, "doc_no"@)));
    let o = obj_put(o, "docType"@, JsonV::Str(column_text(head, "doc_type"@)));
    let o = obj_put(o, "targetDictCode"@, JsonV::Str(column_text(head, "target_dict_code"@)));
    let o = obj_put(o, "crType"@, JsonV::Str(column_text(head, "cr_type"@)));
    let o = obj_put(o, "subjectName"@, JsonV::Str(column_text(head, "subject_name"@)));
    let o = obj_put(o, "bizTable"@, JsonV::Str(MDM_BIZ_TABLE@));
    let o = obj_put(o, "bizId"@, JsonV::Str(dec_int(cr_id as int)));
    match name {
        Some(n) => if trimmed(n).len() > 0 {
            obj_put(o, "initiatorName"@, JsonV::Str(trimmed(n)))
        } else {
            o
        },
        None => o,
    }
}

/// The request to start the approval of a change request.
pub open spec fn start_of(
    head: ObjV,
    cr_id: i64,
    name: Option<Seq<char>>,
    definition_key: Seq<char>,
) -> StartV {
    StartV {
        definition_key,
        business_key: column_text(head, "doc_no"@),
        variables: JsonV::Obj(start_variables(head, cr_id, name)),
        biz_table: MDM_BIZ_TABLE@,
        biz_id: dec_int(cr_id as int),
        role: "approval"@,
    }
}

/// Asks for the approval of a change request.
pub fn start_instance(
    cr_head: &Object,
    cr_id: i64,
    initiator_name: Option<&str>,
    definition_key: &str,
) -> (r: StartRequest)
    ensures
        r@ == start_of(cr_head@, cr_id, opt_str(initiator_name), definition_key@),
{
    let o = put(Object::new(), "initiator", Json::Str(text_column(cr_head, "create_by")));
    let o = put(o, "docNo", Json::Str(text_column(cr_head, "doc_no")));
    let o = put(o, "docType", Json::Str(text_column(cr_head, "doc_type")));
    let o = put(o, "targetDictCode", Json::Str(text_column(cr_head, "target_dict_code")));
    let o = put(o, "crType", Json::Str(text_column(cr_head, "cr_type")));
    let o = put(o, "subjectName", Json::Str(text_column(cr_head, "subject_name")));
    let o = put(o, "bizTable", Json::string(MDM_BIZ_TABLE));
    let mut o = put(o, "bizId", Json::Str(decimal_int(cr_id)));
    if let Some(n) = initiator_name {
        let t = trim(n);
        if !t.as_str().is_empty() {
            o = put(o, "initiatorName", Json::Str(t));
        }
    }
    StartRequest {
        definition_key: definition_key.to_owned(),
        business_key: text_column(cr_head, "doc_no"),
        variables: Json::Obj(o),
        biz_table: MDM_BIZ_TABLE.to_owned(),
        biz_id: decimal_int(cr_id),
        role: "approval".to_owned(),
    }
}

/// An answer of the platform that a task was done before.
pub open spec fn says_done(msg: Seq<char>) -> bool {
    has_part(msg, "TaskNotActionable"@) || has_part(msg, "不可办"@)
}

/// Whether an error says that a task was done before; only the platform's own answers do.
pub fn is_already_done(remote: bool, msg: &str) -> (r: bool)
    ensures
        r == (remote && says_done(msg@)),
{
    remote && (contains_text(msg, "TaskNotActionable") || contains_text(msg, "不可办"))
}

/// Whether a task is open and stands at a node of this kind, given the node's name in lower case.
pub open spec fn open_at(node: Seq<char>, task: JsonV, word: Seq<char>) -> bool {
    has_part(node, word) && json_get(task, "completed"@) != Some(JsonV::Bool(true))
}

/// Whether a task is open and stands at a node of this kind, given the node's name in lower case.
pub fn is_open_at(node: &str, task: &Json, word: &str) -> (r: bool)
    ensures
        r == open_at(node@, task@, word@),
{
    let done = match task.get("completed") {
        Some(Json::Bool(b)) => *b,
        _ => false,
    };
    contains_text(node, word) && !done
}

} // verus!
