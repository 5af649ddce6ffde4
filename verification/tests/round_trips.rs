//! Whole runs against tables in memory: a merge and its undo, and rounds of fanning out.

use std::collections::BTreeMap;

use cmx_mdm::json::{Json, Number, Object};
use cmx_mdm::merge::{MergeRequest, MergeRun, StepAction, StepEvent};
use cmx_mdm::merge_parts::LineTableInfo;
use cmx_mdm::merge_record::key_of_lines;
use cmx_mdm::sql::{SqlValue, Statement};
use cmx_mdm::store::fanout::{fanout_tick, FanoutAction, FanoutEvent, FanoutStage};
use cmx_mdm::unmerge::{undo_step, UndoAction, UndoStage, UnmergeRequest};

fn of_serde(v: &serde_json::Value) -> Json {
    match v {
        serde_json::Value::Null => Json::Null,
        serde_json::Value::Bool(b) => Json::Bool(*b),
        serde_json::Value::Number(n) => match (n.as_u64(), n.as_i64()) {
            (Some(u), _) => Json::Num(Number::PosInt(u)),
            (_, Some(i)) => Json::Num(Number::NegInt(i)),
            _ => Json::Num(Number::Float(n.to_string())),
        },
        serde_json::Value::String(s) => Json::Str(s.clone()),
        serde_json::Value::Array(a) => Json::Arr(a.iter().map(of_serde).collect()),
        serde_json::Value::Object(o) => {
            let mut r = Object::new();
            for (k, x) in o {
                r.insert(k.clone(), of_serde(x));
            }
            Json::Obj(r)
        }
    }
}

fn json(text: &str) -> Json {
    of_serde(&serde_json::from_str(text).unwrap())
}

fn number(v: &SqlValue) -> i64 {
    match v {
        SqlValue::Int(i) => *i,
        other => panic!("not an integer: {other:?}"),
    }
}

fn string(v: &SqlValue) -> String {
    match v {
        SqlValue::Text(s) | SqlValue::Json(s) => s.clone(),
        other => panic!("not a text: {other:?}"),
    }
}

/// A detail line: its parent, its agent, its state and its account.
#[derive(Clone, Debug, PartialEq)]
struct Line {
    parent: i64,
    agent: i64,
    status: String,
    account: String,
}

impl Line {
    /// The column that a statement speaks of.
    fn column(&mut self, sql: &str) -> &mut i64 {
        if sql.contains("agent_id") {
            &mut self.agent
        } else {
            &mut self.parent
        }
    }
}

fn line(parent: i64, status: &str, account: &str) -> Line {
    line_with_agent(parent, 0, status, account)
}

fn line_with_agent(parent: i64, agent: i64, status: &str, account: &str) -> Line {
    Line { parent, agent, status: status.to_string(), account: account.to_string() }
}

/// The tables that a merge and its undo change.
#[derive(Clone, Debug, PartialEq)]
struct Tables {
    heads: BTreeMap<i64, String>,
    lines: BTreeMap<String, BTreeMap<i64, Line>>,
    xref: String,
    group: String,
    record: String,
}

impl Tables {
    fn query(&self, s: &Statement) -> StepEvent {
        let sql = s.sql.as_str();
        let mut rows = vec![];
        if sql.contains("FROM md_merge_record") {
            rows.push(json(&format!(r#"{{"id": 50, "survivorship_log": {}}}"#, self.record)));
        } else if sql.contains("FROM cm_supplier") {
            for (id, status) in &self.heads {
                rows.push(json(&format!(
                    r#"{{"id": {id}, "lifecycle_status": "{status}", "published_version": 1, "name": "n{id}"}}"#
                )));
            }
        } else {
            for (name, lines) in &self.lines {
                if sql.contains(&format!("FROM {name} ")) {
                    for (id, l) in lines {
                        if *l.clone().column(sql) == number(&s.params[0])
                            && (!sql.contains("'published'") || l.status == "published")
                        {
                            let row = format!(r#"{{"id": {id}, "account_no": "{}"}}"#, l.account);
                            rows.push(json(&row));
                        }
                    }
                }
            }
        }
        StepEvent { rows, affected: 0 }
    }

    fn execute(&mut self, s: &Statement) -> StepEvent {
        let sql = s.sql.as_str();
        let mut affected: u64 = 0;
        if sql.starts_with("UPDATE md_xref ") {
            self.xref = string(&s.params[0]);
        } else if sql.starts_with("UPDATE md_merge_record SET status = $1, ") {
            self.group = string(&s.params[0]);
            if let SqlValue::Json(r) = &s.params[1] {
                self.record = r.clone();
            }
        } else if sql.starts_with("UPDATE md_merge_record ") {
            affected = 1;
        } else if sql.starts_with("UPDATE cm_supplier SET lifecycle_status") {
            let status = self.heads.get_mut(&number(&s.params[1])).unwrap();
            if *status == string(&s.params[2]) {
                *status = string(&s.params[0]);
                affected = 1;
            }
        } else if sql.starts_with("UPDATE cm_supplier ") {
            affected = 1;
        } else if sql.starts_with("UPDATE ") {
            for (name, lines) in self.lines.iter_mut() {
                if !sql.starts_with(&format!("UPDATE {name} ")) {
                    continue;
                }
                for (id, l) in lines.iter_mut() {
                    if sql.ends_with("_id = $2") {
                        if *l.column(sql) == number(&s.params[1]) {
                            *l.column(sql) = number(&s.params[0]);
                        }
                    } else if sql.contains("SET lifecycle_status") {
                        let listed = s.params[2..].iter().any(|p| number(p) == *id);
                        if listed && l.status == string(&s.params[1]) {
                            l.status = string(&s.params[0]);
                        }
                    } else if s.params[1..].iter().any(|p| number(p) == *id) {
                        *l.column(sql) = number(&s.params[0]);
                    }
                }
            }
        }
        StepEvent { rows: vec![], affected }
    }

    fn merge(&mut self, q: MergeRequest) -> Result<(u64, u64), String> {
        let mut run = MergeRun::new(q);
        let mut ev = StepEvent { rows: vec![], affected: 0 };
        loop {
            match run.step(&ev) {
                StepAction::Query(s) => ev = self.query(&s),
                StepAction::Execute(s) => ev = self.execute(&s),
                StepAction::Done(m) => return Ok((m.reparented_total, m.deduped_total)),
                StepAction::Fail(e) => return Err(e),
            }
        }
    }

    fn undo(&mut self, q: &UnmergeRequest) -> Result<(), String> {
        let mut stage = UndoStage::Start;
        let mut ev = StepEvent { rows: vec![], affected: 0 };
        loop {
            let (next, action) = undo_step(q, stage, &ev);
            stage = next;
            match action {
                UndoAction::Query(s) => ev = self.query(&s),
                UndoAction::Execute(s) => ev = self.execute(&s),
                UndoAction::Done => return Ok(()),
                UndoAction::Fail(e) => return Err(e),
            }
        }
    }
}

fn line_tables() -> Vec<LineTableInfo> {
    vec![
        LineTableInfo {
            table: "cm_contact".to_string(),
            parent_field: "supplier_id".to_string(),
            dedup_keys: vec![],
        },
        LineTableInfo {
            table: "cm_bank".to_string(),
            parent_field: "supplier_id".to_string(),
            dedup_keys: vec!["account_no".to_string()],
        },
    ]
}

fn merge_request(victims: &[i64]) -> MergeRequest {
    MergeRequest {
        dict_code: "supplier".to_string(),
        head_table: "cm_supplier".to_string(),
        master_id: 1,
        victim_ids: victims.to_vec(),
        survive_fields: vec!["name".to_string()],
        rules: vec![],
        overrides: Object::new(),
        line_tables: line_tables(),
        operated_by: 7,
        match_group_id: 50,
        audit_id: 60,
        event_id: "evt-70".to_string(),
    }
}

fn undo_request(victim: i64) -> UnmergeRequest {
    UnmergeRequest {
        dict_code: "supplier".to_string(),
        head_table: "cm_supplier".to_string(),
        master_id: 1,
        victim_id: victim,
        line_tables: line_tables(),
        operated_by: 7,
        match_group_id: 50,
        audit_id: 61,
    }
}

fn tables() -> Tables {
    let mut heads = BTreeMap::new();
    for id in [1, 2, 3] {
        heads.insert(id, "published".to_string());
    }
    let contacts = BTreeMap::from([
        (10, line(1, "published", "a")),
        (20, line(2, "published", "b")),
        (21, line(2, "draft", "c")),
        (30, line(3, "published", "d")),
    ]);
    let banks = BTreeMap::from([
        (11, line(1, "published", "x")),
        (22, line(2, "published", "x")),
        (23, line(2, "published", "y")),
        (24, line(2, "draft", "z")),
        (31, line(3, "published", "x")),
    ]);
    Tables {
        heads,
        lines: BTreeMap::from([
            ("cm_contact".to_string(), contacts),
            ("cm_bank".to_string(), banks),
        ]),
        xref: "active".to_string(),
        group: "pending".to_string(),
        record: "null".to_string(),
    }
}

#[test]
fn an_undo_gives_back_what_a_merge_took() {
    let before = tables();
    let mut t = before.clone();
    assert_eq!(t.merge(merge_request(&[2])), Ok((3, 1)));
    assert_eq!(t.heads[&2], "merged");
    assert_eq!(t.xref, "inactive");
    assert_eq!(t.group, "reviewed");
    assert_eq!(t.lines["cm_contact"][&21], line(1, "draft", "c"));
    assert_eq!(t.lines["cm_bank"][&22], line(2, "merged", "x"));
    assert_eq!(t.lines["cm_bank"][&23], line(1, "published", "y"));
    assert_eq!(t.lines["cm_bank"][&24], line(2, "draft", "z"));

    assert_eq!(t.undo(&undo_request(2)), Ok(()));
    assert_eq!(t.heads, before.heads);
    assert_eq!(t.lines, before.lines);
    assert_eq!(t.xref, "active");
    assert_eq!(t.group, "unmerged");

    let undone = t.clone();
    assert!(t.undo(&undo_request(2)).is_err());
    assert_eq!(t, undone);
}

#[test]
fn an_undo_of_one_of_two_victims_leaves_the_other_merged() {
    let before = tables();
    let mut t = before.clone();
    assert_eq!(t.merge(merge_request(&[2, 3])), Ok((4, 2)));
    assert_eq!(t.undo(&undo_request(2)), Ok(()));
    assert_eq!(t.heads[&2], "published");
    assert_eq!(t.heads[&3], "merged");
    for (name, lines) in &t.lines {
        for (id, l) in lines {
            if before.lines[name][id].parent == 2 {
                assert_eq!(l, &before.lines[name][id]);
            }
        }
    }
    assert_eq!(t.lines["cm_contact"][&30], line(1, "published", "d"));
    assert_eq!(t.lines["cm_bank"][&31], line(3, "merged", "x"));
}

/// The tables of lines, each under its parent and under its agent.
fn twofold_tables() -> Vec<LineTableInfo> {
    let mut all = line_tables();
    all.push(LineTableInfo {
        table: "cm_contact".to_string(),
        parent_field: "agent_id".to_string(),
        dedup_keys: vec![],
    });
    all.push(LineTableInfo {
        table: "cm_bank".to_string(),
        parent_field: "agent_id".to_string(),
        dedup_keys: vec!["account_no".to_string()],
    });
    all
}

fn lines_with_agents() -> Tables {
    let mut t = tables();
    let contacts = t.lines.get_mut("cm_contact").unwrap();
    contacts.insert(40, line_with_agent(1, 2, "published", "e"));
    contacts.insert(41, line_with_agent(2, 1, "published", "f"));
    contacts.insert(42, line_with_agent(2, 3, "published", "g"));
    let banks = t.lines.get_mut("cm_bank").unwrap();
    banks.insert(43, line_with_agent(2, 2, "published", "x"));
    banks.insert(44, line_with_agent(1, 2, "published", "w"));
    t
}

#[test]
fn lines_of_one_table_under_two_columns_come_back_under_their_own() {
    let before = lines_with_agents();
    let mut t = before.clone();
    let merge = MergeRequest { line_tables: twofold_tables(), ..merge_request(&[2]) };
    assert!(t.merge(merge).is_ok());
    assert_eq!(t.lines["cm_contact"][&40], line_with_agent(1, 1, "published", "e"));
    assert_eq!(t.lines["cm_contact"][&41], line_with_agent(1, 1, "published", "f"));
    assert_eq!(t.lines["cm_contact"][&42], line_with_agent(1, 3, "published", "g"));
    assert_eq!(t.lines["cm_bank"][&43], line_with_agent(2, 2, "merged", "x"));
    assert_eq!(t.lines["cm_bank"][&44], line_with_agent(1, 1, "published", "w"));
    let record: serde_json::Value = serde_json::from_str(&t.record).unwrap();
    let moved = record["reparented"].as_object().unwrap();
    assert_eq!(moved.len(), 4);
    assert_eq!(moved["cm_contact.agent_id"].to_string(), "[40]");
    assert_eq!(moved["cm_contact.supplier_id"].to_string(), "[20,21,41,42]");
    assert_eq!(moved["cm_bank.agent_id"].to_string(), "[44]");

    let undo = UnmergeRequest { line_tables: twofold_tables(), ..undo_request(2) };
    assert_eq!(t.undo(&undo), Ok(()));
    assert_eq!(t.heads, before.heads);
    assert_eq!(t.lines, before.lines);
    let undone = t.clone();
    assert!(t.undo(&undo).is_err());
    assert_eq!(t, undone);
}

#[test]
fn a_line_of_two_victims_comes_back_under_the_column_of_the_one() {
    let before = lines_with_agents();
    let mut t = before.clone();
    let merge = MergeRequest { line_tables: twofold_tables(), ..merge_request(&[2, 3]) };
    assert!(t.merge(merge).is_ok());
    assert_eq!(t.lines["cm_contact"][&42], line_with_agent(1, 1, "published", "g"));
    let undo = UnmergeRequest { line_tables: twofold_tables(), ..undo_request(2) };
    assert_eq!(t.undo(&undo), Ok(()));
    assert_eq!(t.lines["cm_contact"][&42], line_with_agent(2, 1, "published", "g"));
    assert_eq!(t.lines["cm_contact"][&40], before.lines["cm_contact"][&40]);
    assert_eq!(t.lines["cm_bank"][&43], before.lines["cm_bank"][&43]);
    assert_eq!(t.heads[&2], "published");
    assert_eq!(t.heads[&3], "merged");
}

#[test]
fn a_table_that_is_listed_once_is_recorded_by_its_name() {
    let mut t = tables();
    assert_eq!(t.merge(merge_request(&[2])), Ok((3, 1)));
    let record: serde_json::Value = serde_json::from_str(&t.record).unwrap();
    assert_eq!(record["reparented"]["cm_contact"].to_string(), "[20,21]");
    assert_eq!(record["reparented"]["cm_bank"].to_string(), "[23]");
    assert_eq!(record["deduped"]["cm_bank"].to_string(), "[22]");
    let all = line_tables();
    assert_eq!(key_of_lines(&all, &all[0]), "cm_contact");
    let all = twofold_tables();
    assert_eq!(key_of_lines(&all, &all[0]), "cm_contact.supplier_id");
    assert_eq!(key_of_lines(&all, &all[3]), "cm_bank.agent_id");
}

/// The tables of the fan-out: deliveries by subscription and event, and the mark.
#[derive(Clone, Debug, PartialEq)]
struct Queue {
    deliveries: BTreeMap<(i64, String), i64>,
    mark: i64,
}

impl Queue {
    fn tick(&mut self, batch: i64, log: &[(i64, &str)], ids: &[i64]) -> Result<u64, String> {
        let before = self.clone();
        let mut stage = FanoutStage::Start;
        let mut event = FanoutEvent::Begin;
        loop {
            let (next, action) = fanout_tick(batch, stage, event);
            stage = next;
            event = match action {
                FanoutAction::Query(s) => FanoutEvent::Rows(self.rows(&s, log)),
                FanoutAction::NewIds(_) => FanoutEvent::Ids(ids.to_vec()),
                FanoutAction::Execute(s) => FanoutEvent::Changed(self.write(&s)),
                FanoutAction::Done(n) => return Ok(n),
                FanoutAction::Fail(e) => {
                    *self = before;
                    return Err(e);
                }
            };
        }
    }

    fn rows(&self, s: &Statement, log: &[(i64, &str)]) -> Vec<Json> {
        if s.sql.contains("md_dist_watermark") {
            return vec![json(&format!(r#"{{"last_seq": {}}}"#, self.mark))];
        }
        if s.sql.contains("md_subscription") {
            return vec![
                json(r#"{"id": 1, "dict_code": "d", "event_types": "[]", "filter": "{}"}"#),
                json(r#"{"id": 2, "dict_code": "other", "event_types": "[]", "filter": "{}"}"#),
                json(r#"{"id": 3, "dict_code": "d", "event_types": "[]", "filter": "{}"}"#),
            ];
        }
        let (from, n) = (number(&s.params[0]), number(&s.params[1]) as usize);
        log.iter()
            .filter(|(seq, _)| *seq > from)
            .take(n)
            .map(|(seq, dict)| {
                json(&format!(
                    r#"{{"id": "e{seq}", "seq": {seq}, "dict_code": "{dict}", "record_id": 9,
                        "event_type": "created", "payload": "{{}}"}}"#
                ))
            })
            .collect()
    }

    fn write(&mut self, s: &Statement) -> u64 {
        if s.sql.starts_with("UPDATE md_dist_watermark") {
            self.mark = number(&s.params[0]);
            return 1;
        }
        assert!(s.sql.ends_with("ON CONFLICT (subscription_id, event_id) DO NOTHING"));
        let mut n = 0;
        for row in s.params.chunks(6) {
            let key = (number(&row[1]), string(&row[2]));
            if !self.deliveries.contains_key(&key) {
                self.deliveries.insert(key, number(&row[0]));
                n += 1;
            }
        }
        n
    }
}

#[test]
fn a_round_makes_what_is_owed_and_a_repeat_makes_nothing() {
    let log = [(5, "d"), (6, "none"), (8, "d"), (9, "none")];
    let mut q = Queue { deliveries: BTreeMap::from([((3, "e8".to_string()), 40)]), mark: 4 };
    assert_eq!(q.tick(500, &log, &[71, 72, 73, 74]), Ok(3));
    let expected = BTreeMap::from([
        ((1, "e5".to_string()), 71),
        ((3, "e5".to_string()), 72),
        ((1, "e8".to_string()), 73),
        ((3, "e8".to_string()), 40),
    ]);
    assert_eq!(q, Queue { deliveries: expected, mark: 9 });
    let done = q.clone();
    assert_eq!(q.tick(500, &log, &[]), Ok(0));
    assert_eq!(q, done);
}

#[test]
fn rounds_go_through_the_events_batch_by_batch() {
    let log = [(5, "d"), (6, "none"), (8, "d")];
    let mut q = Queue { deliveries: BTreeMap::new(), mark: 0 };
    assert_eq!(q.tick(1, &log, &[71, 72]), Ok(2));
    assert_eq!(q.mark, 5);
    assert_eq!(q.tick(1, &log, &[]), Ok(0));
    assert_eq!(q.mark, 6);
    let before = q.clone();
    assert!(q.tick(1, &log, &[73]).is_err());
    assert_eq!(q, before);
    assert_eq!(q.tick(1, &log, &[73, 74]), Ok(2));
    assert_eq!(q.mark, 8);
}
