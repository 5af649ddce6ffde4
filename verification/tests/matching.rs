//! Comparing records, finding clusters of duplicates, and choosing what survives.

use cmx_mdm::handlers::scan::prepare_clusters;
use cmx_mdm::json::{Json, Object};
use cmx_mdm::match_algo::{
    blocking, bucket_of, compare, decide, field_score, field_str, find_candidates, levenshtein,
    scan_clusters, Decision, FieldKind, MatchFieldSpec, MatchRecord, BLOCK_CAP,
};
use cmx_mdm::order::sort_by_score;
use cmx_mdm::survivorship::{survive, SurvivorRule};

fn rec(id: i64, credit: &str, tax: &str, name: &str) -> MatchRecord {
    let mut fields = Object::new();
    fields.insert("credit_code".to_string(), Json::string(credit));
    fields.insert("tax_no".to_string(), Json::string(tax));
    fields.insert("name".to_string(), Json::string(name));
    MatchRecord { id, fields }
}

fn contact(id: i64, name: &str, phone: &str) -> MatchRecord {
    let mut fields = Object::new();
    fields.insert("name".to_string(), Json::string(name));
    fields.insert("phone".to_string(), Json::string(phone));
    MatchRecord { id, fields }
}

fn spec(field: &str, weight: u32, kind: FieldKind) -> MatchFieldSpec {
    MatchFieldSpec { field: field.to_string(), weight, kind }
}

fn specs() -> Vec<MatchFieldSpec> {
    vec![
        spec("credit_code", 40, FieldKind::Exact),
        spec("tax_no", 30, FieldKind::Exact),
        spec("name", 30, FieldKind::EditDistance),
    ]
}

const KEYS: [&str; 3] = ["credit_code", "tax_no", "name"];

#[test]
fn blocking_same_credit_code_same_block() {
    let rs = vec![rec(1, "C1", "", "甲"), rec(2, "C1", "", "甲乙"), rec(3, "C2", "", "丙")];
    let blocks = blocking(&rs, &["credit_code", "tax_no", "name"]);
    assert!(blocks.iter().any(|b| b.len() == 2));
}

#[test]
fn blocking_null_key_orphan() {
    let rs = vec![rec(1, "", "", "甲"), rec(2, "", "", "甲"), rec(3, "C1", "", "丙")];
    let blocks = blocking(&rs, &["credit_code", "tax_no", "name"]);
    assert!(blocks.iter().any(|b| b.len() == 2));
}

#[test]
fn compare_identical_100() {
    let a = rec(1, "C1", "T1", "华东钢铁");
    let b = rec(2, "C1", "T1", "华东钢铁");
    assert_eq!(compare(&a, &b, &specs()), 100);
    assert_eq!(decide(100), Decision::AutoMerge);
}

#[test]
fn compare_name_block_one_char_diff_review() {
    let a = rec(1, "", "", "华东钢铁集团");
    let b = rec(2, "", "", "华东钢铁集团公");
    let s = compare(&a, &b, &specs());
    assert!((80..=94).contains(&s), "score={s}");
    assert_eq!(decide(s), Decision::Review);
}

#[test]
fn compare_credit_tax_eq_name_near_automerge() {
    let a = rec(1, "C1", "T1", "华东钢铁集团有限公司");
    let b = rec(2, "C1", "T1", "华东钢铁集团有限公");
    let s = compare(&a, &b, &specs());
    assert!(s >= 95, "score={s}");
    assert_eq!(decide(s), Decision::AutoMerge);
}

#[test]
fn compare_zero_weight_no_panic() {
    let a = rec(1, "C1", "", "甲");
    let b = rec(2, "C1", "", "甲");
    let empty: Vec<MatchFieldSpec> = vec![];
    assert_eq!(compare(&a, &b, &empty), 0);
}

#[test]
fn compare_both_empty_name_no_div_zero() {
    let a = rec(1, "C1", "", "");
    let b = rec(2, "C1", "", "");
    let s = compare(&a, &b, &specs());
    assert_eq!(s, 100);
}

#[test]
fn scan_clusters_identical_one_cluster() {
    let rs = vec![rec(1, "C1", "T1", "甲"), rec(2, "C1", "T1", "甲"), rec(3, "C2", "", "乙")];
    let clusters = scan_clusters(&rs, &specs(), &["credit_code", "tax_no", "name"], 80);
    assert_eq!(clusters.len(), 1);
    assert_eq!(clusters[0].members.len(), 2);
    assert_eq!(clusters[0].members[0].score, 100);
    assert_eq!(clusters[0].cluster_key, "credit_code:C1");
}

#[test]
fn scan_clusters_name_key_exact_match() {
    let rs = vec![rec(1, "", "", "华东钢铁集团"), rec(2, "", "", "华东钢铁集团")];
    let clusters = scan_clusters(&rs, &specs(), &["credit_code", "tax_no", "name"], 80);
    assert_eq!(clusters.len(), 1);
    assert_eq!(clusters[0].members.len(), 2);
    assert_eq!(clusters[0].members[0].score, 100);
    assert_eq!(clusters[0].cluster_key, "name:华东钢铁集团");
}

#[test]
fn scan_clusters_below_threshold_empty() {
    let rs = vec![rec(1, "", "", "甲公司"), rec(2, "", "", "乙公司")];
    let clusters = scan_clusters(&rs, &specs(), &["credit_code", "tax_no", "name"], 80);
    assert!(clusters.is_empty(), "应有 0 簇，实际 {}", clusters.len());
}

#[test]
fn scan_clusters_multi_blocks() {
    let rs = vec![
        rec(1, "C1", "T1", "甲"),
        rec(2, "C1", "T1", "甲"),
        rec(3, "C2", "T2", "乙"),
        rec(4, "C2", "T2", "乙"),
    ];
    let clusters = scan_clusters(&rs, &specs(), &["credit_code", "tax_no", "name"], 80);
    assert_eq!(clusters.len(), 2);
    assert!(clusters.iter().all(|c| c.members.len() == 2 && c.members[0].score == 100));
}

#[test]
fn scan_clusters_partial_member_excluded() {
    let rs = vec![
        rec(1, "C1", "T1", "甲公司"),
        rec(2, "C1", "T1", "甲公司"),
        rec(3, "C1", "T1", "丙公司完全不同"),
    ];
    let clusters = scan_clusters(&rs, &specs(), &["credit_code", "tax_no", "name"], 80);
    assert_eq!(clusters.len(), 1);
    assert_eq!(clusters[0].members.len(), 2);
    assert!(!clusters[0].members.iter().any(|m| m.record_id == 3));
}

#[test]
fn master_empty_victim_wins() {
    let m = contact(1, "", "111");
    let v = contact(2, "乙", "");
    let (row, log) = survive(&m, &v, &vec!["name".to_string(), "phone".to_string()], &vec![]);
    assert_eq!(row.get("name").and_then(|x| x.as_str()).map(|s| s.as_str()), Some("乙"));
    assert_eq!(log.iter().find(|e| e.field == "name").unwrap().from, "victim");
    assert_eq!(row.get("phone").and_then(|x| x.as_str()).map(|s| s.as_str()), Some("111"));
}

#[test]
fn both_nonempty_master_wins() {
    let m = contact(1, "甲", "");
    let v = contact(2, "乙", "");
    let (row, log) = survive(&m, &v, &vec!["name".to_string()], &vec![]);
    assert_eq!(row.get("name").and_then(|x| x.as_str()).map(|s| s.as_str()), Some("甲"));
    assert_eq!(log[0].from, "master");
}

#[test]
fn edit_distance_counts_edits() {
    assert_eq!(levenshtein("kitten", "sitting"), 3);
    assert_eq!(levenshtein("", "abc"), 3);
    assert_eq!(levenshtein("abc", ""), 3);
    assert_eq!(levenshtein("华东", "华东"), 0);
    assert_eq!(levenshtein("abc", "cab"), levenshtein("cab", "abc"));
}

#[test]
fn decisions_change_at_the_thresholds() {
    assert_eq!(decide(95), Decision::AutoMerge);
    assert_eq!(decide(94), Decision::Review);
    assert_eq!(decide(80), Decision::Review);
    assert_eq!(decide(79), Decision::NoMatch);
    assert_eq!(decide(0), Decision::NoMatch);
}

#[test]
fn a_field_score_is_a_percentage() {
    let some = |s: &str| Some(s.to_string());
    assert_eq!(field_score(FieldKind::Exact, &some("a"), &some("a")), 100);
    assert_eq!(field_score(FieldKind::Exact, &some("a"), &some("b")), 0);
    assert_eq!(field_score(FieldKind::EditDistance, &some("华东钢铁集团"), &some("华东钢铁集团公")), 85);
}

#[test]
fn comparison_is_symmetric() {
    let a = rec(1, "C1", "T2", "华东钢铁");
    let b = rec(2, "C1", "T1", "华东钢");
    assert_eq!(compare(&a, &b, &specs()), compare(&b, &a, &specs()));
}

#[test]
fn the_first_filled_key_names_the_bucket() {
    let r = rec(1, "", "T9", "甲");
    assert_eq!(bucket_of(&r.fields, &KEYS), Some("tax_no:T9".to_string()));
    let empty = rec(2, "", "", "");
    assert_eq!(bucket_of(&empty.fields, &KEYS), None);
    assert_eq!(field_str(&r.fields, "name"), Some("甲".to_string()));
    assert_eq!(field_str(&r.fields, "credit_code"), Some(String::new()));
    assert_eq!(field_str(&r.fields, "nothing"), None);
}

#[test]
fn candidates_leave_out_the_target_and_come_best_first() {
    let target = rec(1, "C1", "T1", "华东钢铁集团有限公司");
    let all = vec![
        rec(1, "C1", "T1", "华东钢铁集团有限公司"),
        rec(2, "C1", "T1", "华东钢铁集团有限公"),
        rec(3, "C1", "T1", "华东钢铁集团有限公司"),
        rec(4, "C2", "T1", "华东钢铁集团有限公司"),
    ];
    let c = find_candidates(&target, &all, &specs(), &KEYS);
    assert_eq!(c.iter().map(|x| x.record_id).collect::<Vec<i64>>(), vec![3, 2]);
    assert_eq!(c[0].score, 100);
    assert_eq!(c[0].decision, Decision::AutoMerge);
    assert_eq!(c[1].score, 97);
}

#[test]
fn equal_scores_keep_their_order() {
    let target = rec(9, "C1", "T1", "甲");
    let all = vec![rec(5, "C1", "T1", "甲"), rec(4, "C1", "T1", "甲"), rec(7, "C1", "T1", "甲")];
    let sorted = sort_by_score(find_candidates(&target, &all, &specs(), &KEYS));
    assert_eq!(sorted.iter().map(|x| x.record_id).collect::<Vec<i64>>(), vec![5, 4, 7]);
}

#[test]
fn the_fullest_rule_fills_only_what_the_master_lacks() {
    let m = contact(1, "甲", "");
    let v = contact(2, "甲乙丙", "1");
    let fields = vec!["name".to_string(), "phone".to_string()];
    let rules = vec![
        ("name".to_string(), SurvivorRule::Fullest),
        ("phone".to_string(), SurvivorRule::Fullest),
    ];
    let (row, log) = survive(&m, &v, &fields, &rules);
    assert_eq!(row.get("name").and_then(|x| x.as_str()).map(|s| s.as_str()), Some("甲"));
    assert_eq!(row.get("phone").and_then(|x| x.as_str()).map(|s| s.as_str()), Some("1"));
    assert_eq!(log.len(), 2);
    assert_eq!((log[0].from.as_str(), log[1].from.as_str()), ("master", "victim"));
}

#[test]
fn the_latest_rule_goes_by_update_time() {
    let mut m = contact(1, "甲", "1");
    let mut v = contact(2, "", "2");
    m.fields.insert("update_time".to_string(), Json::string("2026-01-01"));
    v.fields.insert("update_time".to_string(), Json::string("2026-02-01"));
    let rules = vec![("name".to_string(), SurvivorRule::Latest)];
    let (row, log) = survive(&m, &v, &vec!["name".to_string()], &rules);
    assert_eq!(row.get("name").and_then(|x| x.as_str()).map(|s| s.as_str()), Some(""));
    assert_eq!(log[0].from, "victim");
    let (_, back) = survive(&v, &m, &vec!["name".to_string()], &rules);
    assert_eq!(back[0].from, "master");
}

#[test]
fn a_new_record_finds_its_near_double() {
    let target = rec(9, "C1", "T1", "华东钢铁集团有限公司");
    let all = vec![rec(1, "C1", "T1", "华东钢铁集团有限公"), rec(2, "C2", "T2", "完全不同的公司")];
    let c = find_candidates(&target, &all, &specs(), &KEYS);
    assert_eq!(c.len(), 1);
    assert_eq!((c[0].record_id, c[0].score), (1, 97));
    assert_eq!(c[0].decision, Decision::AutoMerge);
}

#[test]
fn every_double_in_a_bucket_is_found_up_to_its_limit() {
    let target = rec(1, "C1", "T1", "甲");
    let all: Vec<MatchRecord> = (2..500).map(|i| rec(i, "C1", "T1", "甲")).collect();
    assert_eq!(find_candidates(&target, &all, &specs(), &KEYS).len(), 498);
    let more: Vec<MatchRecord> = (2..=502).map(|i| rec(i, "C1", "T1", "甲")).collect();
    let found = find_candidates(&target, &more, &specs(), &KEYS);
    assert_eq!(found.len(), BLOCK_CAP - 1);
    assert!(found.iter().all(|c| c.record_id <= 500));
}

#[test]
fn two_doubles_share_a_cluster_under_their_key() {
    let rs = vec![
        rec(1, "C1", "T1", "华东钢铁集团有限公司"),
        rec(2, "C2", "T1", "华东钢铁集团有限公司"),
        rec(3, "C1", "T1", "华东钢铁集团有限公"),
    ];
    let clusters = scan_clusters(&rs, &specs(), &KEYS, 97);
    assert_eq!(clusters.len(), 1);
    assert_eq!(clusters[0].cluster_key, "credit_code:C1");
    let members: Vec<(i64, u8)> =
        clusters[0].members.iter().map(|m| (m.record_id, m.score)).collect();
    assert_eq!(members, vec![(1, 97), (3, 97)]);
    assert!(scan_clusters(&rs, &specs(), &KEYS, 98).is_empty());
}

#[test]
fn a_field_that_both_lack_counts_nothing() {
    let a = rec(1, "C1", "", "甲乙丙丁");
    let b = rec(2, "C1", "", "甲乙丙戊");
    let two = vec![spec("credit_code", 40, FieldKind::Exact), spec("name", 30, FieldKind::EditDistance)];
    assert_eq!(compare(&a, &b, &two), compare(&a, &b, &specs()));
    assert_eq!(compare(&a, &b, &two), 89);
}

#[test]
fn equal_records_are_merged() {
    let a = rec(1, "", "", "甲");
    let b = rec(2, "", "", "甲");
    assert_eq!(compare(&a, &b, &specs()), 100);
    assert_eq!(decide(compare(&a, &b, &specs())), Decision::AutoMerge);
}

#[test]
fn a_finding_has_the_score_of_its_best_member() {
    let rs = vec![
        rec(1, "C1", "T1", "华东钢铁集团有限公司"),
        rec(2, "C1", "T1", "华东钢铁集团有限公"),
        rec(3, "C1", "T1", "华东钢铁集团有限公"),
    ];
    let found = prepare_clusters(&scan_clusters(&rs, &specs(), &KEYS, 80));
    assert_eq!(found.len(), 1);
    assert_eq!(found[0].member_ids, vec![2, 3, 1]);
    assert_eq!(found[0].max_score, 100);
}
