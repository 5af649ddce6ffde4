//! Distribution: filters, envelopes, channels, retries and rounds.

use cmx_mdm::distribution::channels::{
    check_host, check_private_address, chrono_now_ms, classify_response, fail_all,
    is_private_host, no_answer, parse_config, request_headers, sign_body, snippet, time_string,
    verify_signature, KafkaChannel, RocketMqChannel, WebhookChannel,
};
use cmx_mdm::distribution::config::{dist_cfg, scan_pause_ms, DistCfg, DistSettings};
use cmx_mdm::distribution::dispatcher::{
    backoff_at, backoff_epoch, backoff_ms, build_envelopes, dead_notice,
    deliver_round, delivery_plan, fail_rows, group_deliveries, mark_deliveries, mark_delivery,
    mark_simple, plan_group, sub_by_id, GroupPlan,
};
use cmx_mdm::distribution::envelope::{DeliveryResult, EventEnvelope};
use cmx_mdm::distribution::registry::{sorted_texts, ChannelRegistry};
use cmx_mdm::distribution::transform::{
    apply_field_map, build_envelope, eval_filter, event_matches_sub, is_like, json_eq,
};
use cmx_mdm::json::{same_json, Json, Number, Object};
use hmac::{Hmac, Mac};
use sha2::Sha256;

/// The library's value for a JSON text.
fn json(text: &str) -> Json {
    let v: serde_json::Value = serde_json::from_str(text).unwrap();
    of_serde(&v)
}

fn of_serde(v: &serde_json::Value) -> Json {
    match v {
        serde_json::Value::Null => Json::Null,
        serde_json::Value::Bool(b) => Json::Bool(*b),
        serde_json::Value::Number(n) => match (n.as_u64(), n.as_i64()) {
            (Some(u), _) => Json::Num(Number::PosInt(u)),
            (_, Some(i)) => Json::Num(Number::NegInt(i)),
            _ => Json::Num(Number::Float(n.to_string())),
        },
        serde_json::Value::String(s) => Json::Str(s.clone()),
        serde_json::Value::Array(a) => Json::Arr(a.iter().map(of_serde).collect()),
        serde_json::Value::Object(o) => {
            let mut r = Object::new();
            for (k, x) in o {
                r.insert(k.clone(), of_serde(x));
            }
            Json::Obj(r)
        }
    }
}

fn text(v: &Json, k: &str) -> String {
    v.get(k).and_then(|x| x.as_str()).cloned().unwrap_or_default()
}

fn event(dict: &str, ev_type: &str, snapshot: &str) -> Json {
    json(&format!(
        r#"{{ "id": "evt-1", "seq": 1, "dict_code": "{dict}", "event_type": "{ev_type}",
              "record_id": 42, "emitted_at": "2026-08-18T08:00:00Z",
              "payload": {{ "version": 3, "snapshot": {snapshot} }} }}"#
    ))
}

fn sub(dict: &str, types: &str, filter: &str) -> Json {
    json(&format!(r#"{{ "dict_code": "{dict}", "event_types": {types}, "filter": {filter} }}"#))
}

fn sign(secret: &str, body: &[u8]) -> String {
    let mut mac = Hmac::<Sha256>::new_from_slice(secret.as_bytes()).unwrap();
    mac.update(body);
    format!("sha256={}", hex::encode(mac.finalize().into_bytes()))
}

fn envelope(id: &str) -> EventEnvelope {
    build_envelope(
        &json(&format!(r#"{{ "id": "{id}", "seq": 5, "event_type": "created" }}"#)),
        Json::Null,
        Json::Null,
    )
}

#[test]
fn signature_matches_flow_protocol() {
    let sig = sign_body("secret", b"body");
    assert!(sig.starts_with("sha256="));
    assert_eq!(sig.len(), 7 + 64);
    assert_eq!(sig, sign_body("secret", b"body"));
}

#[test]
fn config_validation_rejects_missing_fields() {
    assert!(parse_config(&json(r#"{}"#)).is_err());
    assert!(parse_config(&json(r#"{"url": "http://a"}"#)).is_err());
    assert!(parse_config(&json(r#"{"url": "ftp://a", "secret": "s"}"#)).is_err());
    assert!(parse_config(&json(r#"{"url": "http://a", "secret": "s"}"#)).is_ok());
}

#[test]
fn backoff_is_exponential_and_capped() {
    let cfg = DistCfg { backoff_base_ms: 5_000, backoff_max_ms: 1_800_000, ..DistCfg::default() };
    assert_eq!(
        backoff_epoch(&cfg, 1),
        std::time::SystemTime::now().duration_since(std::time::UNIX_EPOCH).unwrap().as_secs()
            as i64
            + 5
            + 1
    );
    let a = backoff_epoch(&cfg, 20);
    let b = backoff_epoch(&cfg, 30);
    assert!((a as i64 - b as i64).abs() <= 2, "退避应封顶 30min（a={a} b={b}）");
}

#[test]
fn register_and_lookup_roundtrip() {
    let mut reg = ChannelRegistry::new();
    reg.register("stub-a", 0);
    assert!(reg.get("stub-a").is_some());
    assert!(reg.get("stub-b").is_none());
    assert_eq!(reg.types(), vec!["stub-a"]);
}

#[test]
fn matches_dict_type_and_filter() {
    let ev = event("supplier", "created", r#"{"status": "A", "group": "g1", "name": "华东钢铁"}"#);
    assert!(!event_matches_sub(&ev, &sub("customer", "[]", "{}")));
    assert!(!event_matches_sub(&ev, &sub("supplier", r#"["updated"]"#, "{}")));
    assert!(event_matches_sub(&ev, &sub("supplier", "[]", "{}")));
    assert!(event_matches_sub(
        &ev,
        &sub("supplier", "[]", r#"{"conditions":[{"field":"status","op":"eq","value":"A"}]}"#)
    ));
    assert!(!event_matches_sub(
        &ev,
        &sub("supplier", "[]", r#"{"conditions":[{"field":"status","op":"ne","value":"A"}]}"#)
    ));
    assert!(event_matches_sub(
        &ev,
        &sub("supplier", "[]", r#"{"conditions":[{"field":"group","op":"in","value":["g1","g2"]}]}"#)
    ));
    assert!(event_matches_sub(
        &ev,
        &sub("supplier", "[]", r#"{"conditions":[{"field":"name","op":"like","value":"华东%"}]}"#)
    ));
    assert!(!event_matches_sub(
        &ev,
        &sub("supplier", "[]", r#"{"conditions":[{"field":"name","op":"like","value":"钢铁%"}]}"#)
    ));
    assert!(!event_matches_sub(
        &ev,
        &sub("supplier", "[]", r#"{"conditions":[{"field":"missing","op":"eq","value":1}]}"#)
    ));
    assert!(event_matches_sub(
        &ev,
        &sub(
            "supplier",
            "[]",
            r#"{"conditions":[{"field":"status","op":"eq","value":"A"},{"field":"group","op":"eq","value":"g1"}]}"#
        )
    ));
}

#[test]
fn thin_event_skips_filter() {
    let ev = json(
        r#"{ "id": "evt-2", "seq": 2, "dict_code": "supplier", "event_type": "updated",
             "record_id": 1, "payload": { "version": 2 } }"#,
    );
    assert!(event_matches_sub(
        &ev,
        &sub("supplier", "[]", r#"{"conditions":[{"field":"status","op":"eq","value":"A"}]}"#)
    ));
}

#[test]
fn field_map_project_in_order() {
    let snap = json(r#"{"code": "GYS1", "name": "华东", "tax_no": "91310000", "status": "A"}"#);
    let fm = json(
        r#"{ "include": ["code", "name", "tax_no"], "rename": { "code": "supplierCode" },
             "mask": ["tax_no"] }"#,
    );
    let out = apply_field_map(&snap, &fm);
    assert_eq!(text(&out, "supplierCode"), "GYS1");
    assert_eq!(text(&out, "tax_no"), "***");
    assert!(out.get("status").is_none());
    assert!(same_json(&apply_field_map(&snap, &json("{}")), &snap));
}

#[test]
fn envelope_carries_version_and_code() {
    let ev = event("supplier", "updated", r#"{"code": "GYS1", "name": "华东"}"#);
    let env = build_envelope(&ev, json(r#"{"code": "GYS1"}"#), json(r#"{"crId": 9}"#));
    assert_eq!(env.version, 3);
    assert_eq!(env.record_code, "GYS1");
    assert_eq!(env.seq, 1);
}

#[test]
fn verify_signature_accepts_correct() {
    let body = br#"{"event":"instance.completed"}"#;
    let sig = sign("s3cret", body);
    assert!(verify_signature("s3cret", body, Some(&sig)));
}

#[test]
fn verify_signature_rejects_wrong() {
    let body = br#"{"event":"instance.completed"}"#;
    let sig = sign("WRONG", body);
    assert!(!verify_signature("s3cret", body, Some(&sig)));
}

#[test]
fn verify_signature_rejects_missing_prefix_or_header_or_secret() {
    let body = br#"{}"#;
    assert!(!verify_signature("s", body, Some("deadbeef")));
    assert!(!verify_signature("s", body, None));
    assert!(!verify_signature("", body, Some(&sign("x", body))));
}

#[test]
fn delivery_result_helpers_build_expected_shapes() {
    let ok = DeliveryResult::ok("e1", Some(200), Some("ok".into()));
    assert!(ok.ok && ok.retryable && ok.http_status == Some(200));

    let fail = DeliveryResult::fail("e2", false, Some(404), "not found");
    assert!(!fail.ok && !fail.retryable && fail.detail.as_deref() == Some("not found"));
}

#[test]
fn a_signature_is_the_tag_in_hexadecimal() {
    assert_eq!(
        sign_body("secret", b"body"),
        "sha256=dc46983557fea127b43af721467eb9b3fde2338fe3e14f51952aa8478c13d355"
    );
    assert!(verify_signature("secret", b"body", Some(&sign_body("secret", b"body"))));
    assert!(!verify_signature("secret", b"bodx", Some(&sign_body("secret", b"body"))));
    assert!(!verify_signature("secret", b"body", Some("sha256=zz")));
    assert!(!verify_signature("secret", b"body", Some("sha256=dc46")));
}

#[test]
fn each_missing_setting_has_its_message() {
    let e = |t: &str| parse_config(&json(t)).unwrap_err();
    assert_eq!(e(r#"{"secret": "s"}"#), "webhook 通道缺 url");
    assert_eq!(e(r#"{"url": "ftp://a", "secret": "s"}"#), "webhook url 必须以 http:// 或 https:// 开头");
    assert_eq!(e(r#"{"url": " https://a ", "secret": " "}"#), "webhook 通道缺签名秘钥 secret");
    let c = parse_config(&json(r#"{"url": " https://a ", "secret": "s", "timeout_ms": 7}"#)).unwrap();
    assert_eq!((c.url.as_str(), c.secret.as_str(), c.timeout_ms), ("https://a", "s", Some(7)));
    assert_eq!(WebhookChannel::timeout(&c), 7);
}

#[test]
fn private_targets_are_refused_where_they_are_not_allowed() {
    assert!(check_private_address("http://192.168.1.9/x", true).is_ok());
    assert!(check_private_address("http://example.com/x", false).is_ok());
    assert_eq!(
        check_private_address("http://127.0.0.1:80/x", false).unwrap_err(),
        "webhook 目标 127.0.0.1 为私网/回环地址，当前配置禁止（allow_private_address=false）"
    );
    assert!(check_private_address("not a url", false).unwrap_err().starts_with("url 解析失败: "));
    assert!(check_private_address("http://LOCALHOST/", false).is_err());
    assert!(is_private_host("172.16.0.1") && is_private_host("172.31.9.9"));
    assert!(!is_private_host("172.32.0.1") && !is_private_host("172.x.0.1"));
    assert!(check_host(&Ok(None)).is_ok());
    let ch = WebhookChannel;
    let cfg = json(r#"{"url": "http://10.0.0.1", "secret": "s"}"#);
    assert!(ch.validate_config(&cfg, true).is_ok());
    assert!(ch.validate_config(&cfg, false).is_err());
}

#[test]
fn answers_are_told_apart() {
    let ok = classify_response("e", 204, "fine");
    assert!(ok.ok && ok.detail.as_deref() == Some("fine"));
    for s in [408, 429, 500, 503] {
        let r = classify_response("e", s, "x");
        assert!(!r.ok && r.retryable && r.http_status == Some(s));
    }
    for s in [301, 400, 404] {
        let r = classify_response("e", s, "x");
        assert!(!r.ok && !r.retryable);
    }
    let r = no_answer("e", "timed out");
    assert!(!r.ok && r.retryable && r.http_status.is_none());
    assert_eq!(snippet(&"中".repeat(300)).chars().count(), 200);
}

#[test]
fn a_request_carries_its_headers() {
    let env = envelope("e9");
    let h = request_headers(&env, "123", "secret", b"body", &json(r#"{"X-A": "1", "X-B": 2}"#));
    let pairs: Vec<(&str, &str)> = h.iter().map(|(a, b)| (a.as_str(), b.as_str())).collect();
    assert_eq!(pairs[1], ("X-CMX-Event-Id", "e9"));
    assert_eq!(pairs[2], ("X-CMX-Event-Type", "created"));
    assert_eq!(pairs[3], ("X-CMX-Timestamp", "123"));
    assert_eq!(pairs[4], ("X-CMX-Signature", sign("secret", b"body").as_str()));
    assert_eq!(pairs[5..], [("X-A", "1")]);
}

#[test]
fn the_clock_runs() {
    let now = chrono_now_ms();
    assert!(now.parse::<u64>().unwrap() > 1_600_000_000_000);
    assert_eq!(time_string(Some(17)), "17");
    assert_eq!(time_string(None), "");
}

#[test]
fn message_queues_only_check_their_settings() {
    assert!(KafkaChannel.validate_config(&json("{}")).is_err());
    assert!(RocketMqChannel.validate_config(&json("{}")).is_err());
    let es = vec![envelope("a"), envelope("b")];
    for r in KafkaChannel.deliver(&es).iter().chain(RocketMqChannel.deliver(&es).iter()) {
        assert!(!r.ok && !r.retryable);
    }
    assert_eq!(KafkaChannel.channel_type(), "kafka");
    assert!(KafkaChannel.health_check().is_err() && RocketMqChannel.health_check().is_err());
    let all = fail_all(&es, "no");
    assert_eq!(all.iter().map(|r| r.event_id.as_str()).collect::<Vec<&str>>(), vec!["a", "b"]);
}

#[test]
fn waits_double_up_to_the_maximum() {
    let cfg = DistCfg { backoff_base_ms: 5_000, backoff_max_ms: 1_800_000, ..DistCfg::default() };
    assert_eq!(backoff_ms(&cfg, 0), 5_000);
    assert_eq!(backoff_ms(&cfg, 1), 5_000);
    assert_eq!(backoff_ms(&cfg, 2), 10_000);
    assert_eq!(backoff_ms(&cfg, 9), 1_280_000);
    assert_eq!(backoff_ms(&cfg, 10), 1_800_000);
    assert_eq!(backoff_ms(&cfg, i64::MAX), 1_800_000);
    assert_eq!(backoff_at(&cfg, 2, Some(1_000_999)), 1_000 + 10 + 1);
    assert_eq!(backoff_at(&cfg, 2, None), 0);
}

#[test]
fn types_come_sorted() {
    let mut reg = ChannelRegistry::new();
    reg.register("webhook", 0);
    reg.register("kafka", 1);
    reg.register("rocketmq", 2);
    reg.register("kafka", 3);
    assert_eq!(reg.types(), vec!["kafka", "rocketmq", "webhook"]);
    assert_eq!(reg.get("kafka"), Some(3));
    assert_eq!(sorted_texts(&vec!["b".to_string(), "a".to_string()]), vec!["a", "b"]);
}

#[test]
fn numbers_are_equal_by_value() {
    assert!(json_eq(&json("1"), &json("1.0")));
    assert!(!json_eq(&json("1"), &json("1.5")));
    assert!(!json_eq(&json("1"), &json("\"1\"")));
    assert!(json_eq(&json("[1, 2]"), &json("[1, 2]")));
}

#[test]
fn patterns_match_ends() {
    assert!(is_like("华东钢铁", "%钢铁"));
    assert!(is_like("华东钢铁", "%东钢%"));
    assert!(is_like("华东", "华东"));
    assert!(is_like("华东", "华"));
    assert!(!is_like("华东", "东"));
    assert!(eval_filter(&json("{}"), &json("{}")));
    assert!(!eval_filter(
        &json(r#"{"conditions":[{"field":"a","op":"weird","value":1}]}"#),
        &json(r#"{"a": 1}"#)
    ));
}

#[test]
fn settings_fall_back_to_their_defaults() {
    let mut s = DistSettings {
        enabled: Some(" FALSE ".to_string()),
        scan_interval_ms: Some("50".to_string()),
        fanout_batch: Some("-3".to_string()),
        deliver_batch: Some("x".to_string()),
        deliver_concurrency: Some(" 4 ".to_string()),
        backoff_base_ms: None,
        backoff_max_ms: Some("0".to_string()),
        running_reclaim_minutes: Some("3".to_string()),
        allow_private_address: None,
    };
    let c = dist_cfg(&s);
    assert!(!c.enabled && c.allow_private_address);
    assert_eq!((c.scan_interval_ms, c.fanout_batch, c.deliver_batch), (50, 500, 100));
    assert_eq!((c.deliver_concurrency, c.backoff_base_ms, c.backoff_max_ms), (4, 5_000, 1_800_000));
    assert_eq!(c.running_reclaim_minutes, 3);
    assert_eq!(scan_pause_ms(&c), 200);
    s.enabled = Some("True".to_string());
    s.scan_interval_ms = None;
    assert!(dist_cfg(&s).enabled);
    assert_eq!(scan_pause_ms(&dist_cfg(&s)), 2_000);
}

#[test]
fn envelopes_are_built_of_the_events_at_hand() {
    let events = vec![event("supplier", "created", r#"{"code": "G1", "name": "甲"}"#)];
    let chunk = vec![
        json(r#"{"id": 7, "event_id": "evt-1"}"#),
        json(r#"{"id": 8, "event_id": "evt-x"}"#),
    ];
    let es = build_envelopes(&chunk, &events, &json(r#"{"include": ["code"]}"#));
    assert_eq!(es.len(), 1);
    assert_eq!((es[0].event_id.as_str(), es[0].record_code.as_str()), ("evt-1", "G1"));
    assert!(same_json(&es[0].data, &json(r#"{"code": "G1"}"#)));
    assert!(same_json(&es[0].meta, &json(r#"{"crId": null, "dispatchId": 7}"#)));
    assert_eq!(es[0].source, "cmx-mdm");
}

#[test]
fn a_delivery_is_noted_by_its_result() {
    let cfg = DistCfg::default();
    let d = json(r#"{"id": 7, "event_id": "e1", "attempts": 1}"#);
    let ok = DeliveryResult::ok("e1", Some(200), Some("fine".to_string()));
    let m = mark_delivery(&d, Some(&ok), 8, &cfg, Some(0));
    assert_eq!((m.dispatch_id, m.status.as_str(), m.attempts, m.alarm), (7, "delivered", 2, false));
    let soft = DeliveryResult::fail("e1", true, Some(503), "busy");
    let m = mark_delivery(&d, Some(&soft), 8, &cfg, Some(100_000));
    assert_eq!((m.status.as_str(), m.next_retry, m.alarm), ("failed", Some(100 + 10 + 1), false));
    let m = mark_delivery(&d, Some(&soft), 2, &cfg, Some(0));
    assert_eq!((m.status.as_str(), m.alarm), ("dead", true));
    let hard = DeliveryResult::fail("e1", false, Some(404), "gone");
    let m = mark_delivery(&d, Some(&hard), 8, &cfg, Some(0));
    assert_eq!((m.status.as_str(), m.next_retry, m.alarm), ("dead", None, true));
    let m = mark_delivery(&d, None, 8, &cfg, Some(0));
    assert_eq!((m.status.as_str(), m.error.as_deref()), ("dead", Some("事件详情缺失（可能已被归档清理）")));
    assert!(m.alarm);
    let m = mark_simple(&d, "failed", "why", Some(5_000));
    assert_eq!((m.attempts, m.next_retry, m.alarm), (2, Some(65), false));
    let marks = mark_deliveries(&[d.clone()], &vec![ok], 8, &cfg, Some(0));
    assert_eq!(marks[0].status, "delivered");
    assert_eq!(marks[0].statement().params.len(), 6);
    assert_eq!(fail_rows(&[d], "x", Some(0))[0].error.as_deref(), Some("x"));
}

#[test]
fn a_subscription_has_delivery_settings() {
    let p = delivery_plan(&json(
        r#"{"batch_size": 0, "retry_max": 3, "timeout_ms": 900, "channel_config": {"url": "u"},
            "field_map": {"mask": ["a"]}}"#,
    ));
    assert_eq!((p.batch_size, p.retry_max), (1, 3));
    assert!(same_json(&p.channel_config, &json(r#"{"url": "u", "timeout_ms": 900}"#)));
    let d = delivery_plan(&json("{}"));
    assert_eq!((d.batch_size, d.retry_max), (50, 8));
}

#[test]
fn deliveries_are_grouped_by_subscription() {
    let rows = vec![
        json(r#"{"id": 1, "subscription_id": 5, "event_id": "a", "attempts": 0}"#),
        json(r#"{"id": 2, "subscription_id": 6, "event_id": "b", "attempts": 0}"#),
        json(r#"{"id": 3, "subscription_id": 5, "event_id": "a", "attempts": 0}"#),
    ];
    let g = group_deliveries(&rows);
    assert_eq!(g.iter().map(|x| (x.subscription_id, x.rows.len())).collect::<Vec<(i64, usize)>>(),
        vec![(5, 2), (6, 1)]);
    let round = deliver_round(&rows);
    assert_eq!(round.groups.len(), 2);
    assert_eq!(round.events.unwrap().params.len(), 3);
    assert_eq!(round.subs.unwrap().params.len(), 3);
    let empty = deliver_round(&vec![]);
    assert!(empty.events.is_none() && empty.subs.is_none() && empty.groups.is_empty());

    let subs = vec![json(r#"{"id": 5, "channel": "webhook"}"#), json(r#"{"id": 6, "channel": "fax"}"#)];
    let mut reg = ChannelRegistry::new();
    reg.register("webhook", 2);
    assert!(matches!(plan_group(&g[0], &subs, &reg, Some(0)), GroupPlan::Deliver(2, _)));
    assert!(matches!(plan_group(&g[1], &subs, &reg, Some(0)), GroupPlan::NotTried(m) if m.len() == 1));
    assert!(matches!(plan_group(&g[1], &vec![], &reg, Some(0)), GroupPlan::NotTried(_)));
    assert!(sub_by_id(&subs, 6).is_some() && sub_by_id(&subs, 7).is_none());
}

#[test]
fn people_are_told_of_what_is_given_up() {
    let s = json(r#"{"id": 5, "dict_code": "supplier", "target_sys": "ERP", "created_by": "u1"}"#);
    let n = dead_notice(&s, "e1", "gone");
    assert_eq!(n.title, "主数据分发死信：supplier → ERP");
    assert_eq!(n.body, "事件 e1 投递耗尽重试进入死信：gone");
    assert_eq!(n.targets, vec!["admin", "u1"]);
    assert_eq!(dead_notice(&json("{}"), "e1", "x").title, "主数据分发死信：? → ?");
}

#[test]
fn a_test_delivery_reports_its_outcome() {
    let env = WebhookChannel::test_envelope(77, "now".to_string());
    assert_eq!(env.occurred_at, "now");
    assert!(WebhookChannel::test_outcome(&DeliveryResult::ok("x", Some(200), None)).is_ok());
    assert!(WebhookChannel::test_outcome(&DeliveryResult::fail("x", false, None, "no")).is_err());
}
