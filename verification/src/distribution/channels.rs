//! The ways an event can be sent.

use crate::distribution::envelope::{failed, DeliveryResult, EnvelopeV, EventEnvelope, ResultV};
use crate::distribution::transform::text_at;
use crate::json::{json_get, json_u64, obj_put, Json, JsonV, ObjV, Object};
use crate::match_algo::opt_text;
use crate::outside::{
    clock_ms, from_hex, hex_bytes, hex_text, hmac_sha256, hmac_tag, hmac_verify, parse_host, to_hex,
    url_host,
};
use crate::text::{
    chars_of, dec, dec_int, decimal, decimal_int, has_prefix, is_white, parse_u64, parsed_in,
    starts_with, string_of, strip_prefix, trim, trim_back, trim_front, trimmed,
};
use vstd::prelude::*;
use vstd::utf8::encode_utf8;

verus! {

/// The text of a setting without the white space around it, empty where it is missing.
pub open spec fn setting(config: JsonV, k: Seq<char>) -> Seq<char> {
    trimmed(text_at(config, k))
}

/// The text of a setting without the white space around it.
pub fn read_setting(config: &Json, k: &str) -> (r: String)
    ensures
        r@ == setting(config@, k@),
{
    match config.get(k) {
        Some(Json::Str(s)) => trim(s.as_str()),
        _ => {
            reveal_with_fuel(trim_front, 1);
            reveal_with_fuel(trim_back, 1);
            assert(trimmed(Seq::<char>::empty()) =~= Seq::<char>::empty());
            String::new()
        },
    }
}

/// Sends events to a URL.
pub struct WebhookChannel;

/// The settings of a webhook.
#[derive(Debug)]
pub struct WebhookCfg {
    pub url: String,
    pub secret: String,
    /// Headers to add: an object, or null.
    pub headers: Json,
    pub timeout_ms: Option<u64>,
}

/// What is wrong with the settings of a webhook.
pub open spec fn webhook_fault(config: JsonV) -> Option<Seq<char>> {
    let url = setting(config, "url"@);
    if url.len() == 0 {
        Some("webhook 通道缺 url"@)
    } else if !has_prefix(url, "http://"@) && !has_prefix(url, "https://"@) {
        Some("webhook url 必须以 http:// 或 https:// 开头"@)
    } else if setting(config, "secret"@).len() == 0 {
        Some("webhook 通道缺签名秘钥 secret"@)
    } else {
        None
    }
}

/// The headers that a webhook adds.
pub open spec fn webhook_headers(config: JsonV) -> JsonV {
    match json_get(config, "headers"@) {
        Some(JsonV::Obj(o)) => JsonV::Obj(o),
        _ => JsonV::Null,
    }
}

/// Reads the settings of a webhook.
pub fn parse_config(config: &Json) -> (r: Result<WebhookCfg, String>)
    ensures
        match webhook_fault(config@) {
            Some(e) => r matches Err(x) && x@ == e,
            None => r matches Ok(c) && c.url@ == setting(config@, "url"@) && c.secret@ == setting(
                config@,
                "secret"@,
            ) && c.headers@ == webhook_headers(config@) && c.timeout_ms == json_u64(
                json_get(config@, "timeout_ms"@),
            ),
        },
{
    let url = read_setting(config, "url");
    if url.as_str().is_empty() {
        return Err("webhook 通道缺 url".to_owned());
    }
    if !starts_with(url.as_str(), "http://") && !starts_with(url.as_str(), "https://") {
        return Err("webhook url 必须以 http:// 或 https:// 开头".to_owned());
    }
    let secret = read_setting(config, "secret");
    if secret.as_str().is_empty() {
        return Err("webhook 通道缺签名秘钥 secret".to_owned());
    }
    let headers: Json = match config.get("headers") {
        Some(Json::Obj(o)) => Json::Obj(o.clone()),
        _ => Json::Null,
    };
    let timeout_ms: Option<u64> = match config.get("timeout_ms") {
        Some(v) => v.as_u64(),
        None => None,
    };
    Ok(WebhookCfg { url, secret, headers, timeout_ms })
}

/// The signature of a body under a secret.
pub open spec fn signature(secret: Seq<char>, body: Seq<u8>) -> Seq<char> {
    "sha256="@ + hex_text(hmac_sha256(encode_utf8(secret), body))
}

/// Signs a body: `sha256=` and the HMAC-SHA256 tag in hexadecimal.
pub fn sign_body(secret: &str, body: &[u8]) -> (r: String)
    ensures
        r@ == signature(secret@, body@),
{
    let tag = hmac_tag(secret.as_bytes(), body);
    let mut s: String = "sha256=".to_owned();
    s.append(to_hex(tag.as_slice()).as_str());
    s
}

/// Whether a header carries the tag `tag`: `sha256=` and the tag in hexadecimal, with white space
/// around either part.
pub open spec fn carries_tag(header: Option<Seq<char>>, tag: Seq<u8>) -> bool {
    match header {
        Some(h) => has_prefix(trimmed(h), "sha256="@) && hex_bytes(
            trimmed(trimmed(h).skip("sha256="@.len() as int)),
        ) == Some(tag),
        None => false,
    }
}

/// Whether a header signs a body under a secret; without a secret none does.
pub open spec fn signed_by(secret: Seq<char>, body: Seq<u8>, header: Option<Seq<char>>) -> bool {
    secret.len() > 0 && carries_tag(header, hmac_sha256(encode_utf8(secret), body))
}

/// Checks the signature of a body; without a secret none is accepted.
pub fn verify_signature(secret: &str, body: &[u8], sig_header: Option<&str>) -> (r: bool)
    ensures
        r == signed_by(secret@, body@, crate::store::query::opt_str(sig_header)),
{
    if secret.is_empty() {
        return false;
    }
    let raw = match sig_header {
        Some(h) => h,
        None => {
            return false;
        },
    };
    let t = trim(raw);
    let rest = match strip_prefix(t.as_str(), "sha256=") {
        Some(x) => x,
        None => {
            return false;
        },
    };
    let tag = match from_hex(trim(rest.as_str()).as_str()) {
        Some(b) => b,
        None => {
            return false;
        },
    };
    hmac_verify(secret.as_bytes(), body, tag.as_slice())
}

proof fn lemma_trimmed_same(s: Seq<char>)
    requires
        s.len() > 0 ==> !is_white(s[0]) && !is_white(s.last()),
    ensures
        trimmed(s) == s,
{
}

proof fn lemma_hex_round_trip(b: Seq<u8>)
    ensures
        hex_bytes(hex_text(b)) == Some(b),
        forall|i: int| 0 <= i < hex_text(b).len() ==> !is_white(#[trigger] hex_text(b)[i]),
    decreases b.len(),
{
    if b.len() > 0 {
        let d = b.drop_last();
        lemma_hex_round_trip(d);
        let t = hex_text(b);
        let x = (b.last() / 16) as nat;
        let y = (b.last() % 16) as nat;
        assert(t.take(t.len() - 2) =~= hex_text(d));
        assert(t[t.len() - 2] == crate::text::digit_char(x));
        assert(t[t.len() - 1] == crate::text::digit_char(y));
        lemma_hex_digit(x);
        lemma_hex_digit(y);
        assert(16 * (x as int) + y == b.last());
        assert(d.push(b.last()) =~= b);
        assert forall|i: int| 0 <= i < t.len() implies !is_white(#[trigger] t[i]) by {
            if i < t.len() - 2 {
                assert(t[i] == hex_text(d)[i]);
            }
        }
    } else {
        assert(hex_bytes(hex_text(b)) == Some(Seq::<u8>::empty()));
        assert(b =~= Seq::<u8>::empty());
    }
}

proof fn lemma_hex_digit(d: nat)
    requires
        d < 16,
    ensures
        crate::outside::hex_value(crate::text::digit_char(d)) == Some(d as int),
        !is_white(crate::text::digit_char(d)),
{
    let c = crate::text::digit_char(d);
    if d < 10 {
        assert(c as int == 48 + d);
    } else {
        assert(c as int == 87 + d);
    }
}

/// A body signed under a secret is accepted under the same secret.
pub proof fn law_signed_is_accepted(secret: Seq<char>, body: Seq<u8>)
    ensures
        carries_tag(Some(signature(secret, body)), hmac_sha256(encode_utf8(secret), body)),
{
    let tag = hmac_sha256(encode_utf8(secret), body);
    let h = hex_text(tag);
    let s = signature(secret, body);
    lemma_hex_round_trip(tag);
    reveal_strlit("sha256=");
    let p = "sha256="@;
    assert(p.len() == 7);
    assert(s[0] == 's');
    if h.len() > 0 {
        assert(s.last() == h[h.len() - 1]);
    } else {
        assert(s.last() == p[6]);
        assert(p[6] == '=');
    }
    lemma_trimmed_same(s);
    assert(s.take(7) =~= p);
    assert(s.skip(7) =~= h);
    if h.len() > 0 {
        assert(!is_white(h[0]) && !is_white(h[h.len() - 1]));
    }
    lemma_trimmed_same(h);
}

/// Only the tag of the body under the secret is accepted: whatever else a header carries is
/// refused.
pub proof fn law_other_tag_is_refused(header: Option<Seq<char>>, tag: Seq<u8>, other: Seq<u8>)
    requires
        carries_tag(header, other),
        other != tag,
    ensures
        !carries_tag(header, tag),
{
}

/// What stands before the first dot.
pub open spec fn before_dot(s: Seq<char>) -> Seq<char>
    decreases s.len(),
{
    if s.len() == 0 || s[0] == '.' {
        Seq::empty()
    } else {
        seq![s[0]] + before_dot(s.drop_first())
    }
}

fn up_to_dot(s: &str) -> (r: String)
    ensures
        r@ == before_dot(s@),
{
    let v = chars_of(s);
    let mut n: usize = 0;
    assert(v@.skip(0) =~= v@);
    assert(v@.take(0) + before_dot(v@.skip(0)) =~= before_dot(v@));
    while n < v.len() && v[n] != '.'
        invariant
            n <= v@.len(),
            v@.take(n as int) + before_dot(v@.skip(n as int)) == before_dot(v@),
        decreases v@.len() - n,
    {
        assert(v@.skip(n as int).drop_first() =~= v@.skip(n + 1));
        assert(v@.take(n + 1) + before_dot(v@.skip(n + 1)) =~= v@.take(n as int) + (seq![
            v@[n as int],
        ] + before_dot(v@.skip(n + 1))));
        n += 1;
    }
    assert(v@.take(n as int) + Seq::<char>::empty() =~= v@.subrange(0, n as int));
    string_of(&v, 0, n)
}

/// Whether a host is a private or a loopback address, as it is written.
pub open spec fn private_host(host: Seq<char>) -> bool {
    ||| has_prefix(host, "127."@)
    ||| has_prefix(host, "10."@)
    ||| has_prefix(host, "192.168."@)
    ||| has_prefix(host, "169.254."@)
    ||| has_prefix(host, "localhost"@)
    ||| has_prefix(host, "[::1]"@)
    ||| has_prefix(host, "::1"@)
    ||| has_prefix(host, "172."@) && match parsed_in(
        before_dot(host.skip("172."@.len() as int)),
        false,
        0,
        255,
    ) {
        Some(n) => 16 <= n <= 31,
        None => false,
    }
}

/// Whether a host is a private or a loopback address.
pub fn is_private_host(host: &str) -> (r: bool)
    ensures
        r == private_host(host@),
{
    if starts_with(host, "127.") || starts_with(host, "10.") || starts_with(host, "192.168.")
        || starts_with(host, "169.254.") || starts_with(host, "localhost") || starts_with(
        host,
        "[::1]",
    ) || starts_with(host, "::1") {
        return true;
    }
    match strip_prefix(host, "172.") {
        Some(rest) => {
            let part = up_to_dot(rest.as_str());
            match parse_u64(part.as_str()) {
                Some(n) => 16 <= n && n <= 31,
                None => false,
            }
        },
        None => false,
    }
}

/// What is said of a target that may not be called, given the outcome of parsing its URL.
pub open spec fn target_fault(host: Result<Option<Seq<char>>, Seq<char>>) -> Option<Seq<char>> {
    match host {
        Err(e) => Some("url 解析失败: "@ + e),
        Ok(h) => {
            let name = match h {
                Some(n) => n,
                None => Seq::empty(),
            };
            if private_host(name) {
                Some(
                    "webhook 目标 "@ + name
                        + " 为私网/回环地址，当前配置禁止（allow_private_address=false）"@,
                )
            } else {
                None
            }
        },
    }
}

/// The view of the outcome of parsing a URL.
pub open spec fn host_view(h: Result<Option<String>, String>) -> Result<
    Option<Seq<char>>,
    Seq<char>,
> {
    match h {
        Ok(Some(s)) => Ok(Some(s@)),
        Ok(None) => Ok(None),
        Err(e) => Err(e@),
    }
}

/// Refuses a private target, given the outcome of parsing its URL.
pub fn check_host(host: &Result<Option<String>, String>) -> (r: Result<(), String>)
    ensures
        match target_fault(host_view(*host)) {
            Some(e) => r matches Err(x) && x@ == e,
            None => r is Ok,
        },
{
    match host {
        Err(e) => {
            let mut s: String = "url 解析失败: ".to_owned();
            s.append(e.as_str());
            Err(s)
        },
        Ok(h) => {
            let name: String = match h {
                Some(n) => n.clone(),
                None => String::new(),
            };
            if is_private_host(name.as_str()) {
                let mut s: String = "webhook 目标 ".to_owned();
                s.append(name.as_str());
                s.append(
                    " 为私网/回环地址，当前配置禁止（allow_private_address=false）",
                );
                Err(s)
            } else {
                Ok(())
            }
        },
    }
}

/// Refuses a URL whose host is a private or loopback address, unless these are allowed.
pub fn check_private_address(url: &str, allow_private_address: bool) -> (r: Result<(), String>)
    ensures
        if allow_private_address {
            r is Ok
        } else {
            match target_fault(url_host(url@)) {
                Some(e) => r matches Err(x) && x@ == e,
                None => r is Ok,
            }
        },
{
    if allow_private_address {
        return Ok(());
    }
    let h = parse_host(url);
    assert(host_view(h) == url_host(url@));
    check_host(&h)
}

/// The first 200 characters of an answer.
pub open spec fn snippet_of(body: Seq<char>) -> Seq<char> {
    if body.len() > 200 {
        body.take(200)
    } else {
        body
    }
}

/// The first 200 characters of an answer.
pub fn snippet(body: &str) -> (r: String)
    ensures
        r@ == snippet_of(body@),
{
    let v = chars_of(body);
    if v.len() > 200 {
        assert(v@.subrange(0, 200) =~= v@.take(200));
        string_of(&v, 0, 200)
    } else {
        assert(v@.subrange(0, v@.len() as int) =~= v@);
        string_of(&v, 0, v.len())
    }
}

/// What an answer means: 2xx is success; 408, 429 and 5xx may pass; any other status will not.
pub open spec fn answer(event_id: Seq<char>, status: i64, body: Seq<char>) -> ResultV {
    let text = snippet_of(body);
    if 200 <= status < 300 {
        ResultV {
            event_id,
            ok: true,
            retryable: true,
            http_status: Some(status),
            detail: Some(text),
        }
    } else if status == 408 || status == 429 || status >= 500 {
        failed(
            event_id,
            true,
            Some(status),
            "HTTP "@ + dec_int(status as int) + ": "@ + text,
        )
    } else {
        failed(
            event_id,
            false,
            Some(status),
            "HTTP "@ + dec_int(status as int)
                + "（不可重试类错误，请检查订阅配置）: "@ + text,
        )
    }
}

/// What an answer to a delivery means.
pub fn classify_response(event_id: &str, status: i64, body: &str) -> (r: DeliveryResult)
    ensures
        r@ == answer(event_id@, status, body@),
{
    let text = snippet(body);
    if 200 <= status && status < 300 {
        return DeliveryResult::ok(event_id, Some(status), Some(text));
    }
    let passing = status == 408 || status == 429 || status >= 500;
    let mut e: String = "HTTP ".to_owned();
    e.append(decimal_int(status).as_str());
    if passing {
        e.append(": ");
    } else {
        e.append("（不可重试类错误，请检查订阅配置）: ");
    }
    e.append(text.as_str());
    DeliveryResult::fail(event_id, passing, Some(status), e.as_str())
}

/// A delivery that got no answer may be tried again.
pub fn no_answer(event_id: &str, error: &str) -> (r: DeliveryResult)
    ensures
        r@ == failed(event_id@, true, None, "请求失败: "@ + error@),
{
    let mut e: String = "请求失败: ".to_owned();
    e.append(error);
    DeliveryResult::fail(event_id, true, None, e.as_str())
}

/// The view of a list of headers.
pub open spec fn pairs_view(h: Seq<(String, String)>) -> Seq<(Seq<char>, Seq<char>)> {
    Seq::new(h.len(), |i: int| (h[i].0@, h[i].1@))
}

/// The members of an object whose values are strings.
pub open spec fn string_members(o: ObjV) -> Seq<(Seq<char>, Seq<char>)>
    decreases o.len(),
{
    if o.len() == 0 {
        Seq::empty()
    } else {
        let r = string_members(o.drop_last());
        match o.last().1 {
            JsonV::Str(s) => r.push((o.last().0, s)),
            _ => r,
        }
    }
}

/// The headers of a delivery.
pub open spec fn delivery_headers(
    env: EnvelopeV,
    timestamp: Seq<char>,
    sig: Seq<char>,
    headers: JsonV,
) -> Seq<(Seq<char>, Seq<char>)> {
    seq![
        ("Content-Type"@, "application/json"@),
        ("X-CMX-Event-Id"@, env.event_id),
        ("X-CMX-Event-Type"@, env.event_type),
        ("X-CMX-Timestamp"@, timestamp),
        ("X-CMX-Signature"@, sig),
    ] + match headers {
        JsonV::Obj(o) => string_members(o),
        _ => Seq::empty(),
    }
}

/// The headers of a delivery: those of the protocol, then the string members of the settings.
pub fn request_headers(
    env: &EventEnvelope,
    timestamp: &str,
    secret: &str,
    body: &[u8],
    headers: &Json,
) -> (r: Vec<(String, String)>)
    ensures
        pairs_view(r@) == delivery_headers(
            env@,
            timestamp@,
            signature(secret@, body@),
            headers@,
        ),
{
    let mut r: Vec<(String, String)> = Vec::new();
    r.push(("Content-Type".to_owned(), "application/json".to_owned()));
    r.push(("X-CMX-Event-Id".to_owned(), env.event_id.clone()));
    r.push(("X-CMX-Event-Type".to_owned(), env.event_type.clone()));
    r.push(("X-CMX-Timestamp".to_owned(), timestamp.to_owned()));
    r.push(("X-CMX-Signature".to_owned(), sign_body(secret, body)));
    let ghost five = pairs_view(r@);
    proof {
        assert(five =~= seq![
            ("Content-Type"@, "application/json"@),
            ("X-CMX-Event-Id"@, env.event_id@),
            ("X-CMX-Event-Type"@, env.event_type@),
            ("X-CMX-Timestamp"@, timestamp@),
            ("X-CMX-Signature"@, signature(secret@, body@)),
        ]);
        assert(five =~= five + Seq::<(Seq<char>, Seq<char>)>::empty());
    }
    if let Some(o) = headers.as_object() {
        let n: usize = o.len();
        let mut i: usize = 0;
        assert(o@.take(0) =~= ObjV::empty());
        while i < n
            invariant
                i <= n,
                n == o@.len(),
                pairs_view(r@) == five + string_members(o@.take(i as int)),
            decreases n - i,
        {
            let ghost before = r@;
            assert(o@.take(i + 1).drop_last() =~= o@.take(i as int));
            assert(o@.take(i + 1).last() == o@[i as int]);
            if let Some(v) = o.value_at(i).as_str() {
                let pair = (o.key_at(i).clone(), v.clone());
                let ghost pv = (pair.0@, pair.1@);
                r.push(pair);
                assert(pairs_view(r@) =~= pairs_view(before).push(pv));
                assert(pairs_view(r@) =~= five + string_members(o@.take(i + 1)));
            }
            i += 1;
        }
        assert(o@.take(n as int) =~= o@);
    }
    r
}

/// The time as a text: milliseconds since the Unix epoch, empty for a clock before it.
pub open spec fn time_text(ms: Option<u64>) -> Seq<char> {
    match ms {
        Some(t) => dec(t as nat),
        None => Seq::empty(),
    }
}

/// The time as a text.
pub fn time_string(ms: Option<u64>) -> (r: String)
    ensures
        r@ == time_text(ms),
{
    match ms {
        Some(t) => decimal(t),
        None => String::new(),
    }
}

/// The present time as a text.
pub fn chrono_now_ms() -> (r: String)
    ensures
        exists|ms: Option<u64>| r@ == #[trigger] time_text(ms),
{
    let t = clock_ms();
    let r = time_string(t);
    assert(r@ == time_text(t));
    r
}

/// The time that a webhook is given for an answer: 10 s unless set.
pub open spec fn timeout_or_default(t: Option<u64>) -> u64 {
    match t {
        Some(n) => n,
        None => 10_000,
    }
}

/// The views of a list of results.
pub open spec fn results_view(r: Seq<DeliveryResult>) -> Seq<ResultV> {
    Seq::new(r.len(), |i: int| r[i]@)
}

/// Every event fails for good, for one reason.
pub open spec fn all_failed(envelopes: Seq<EventEnvelope>, e: Seq<char>) -> Seq<ResultV> {
    Seq::new(envelopes.len(), |i: int| failed(envelopes[i].event_id@, false, None, e))
}

/// Fails every event for good, for one reason.
pub fn fail_all(envelopes: &Vec<EventEnvelope>, e: &str) -> (r: Vec<DeliveryResult>)
    ensures
        results_view(r@) == all_failed(envelopes@, e@),
{
    let mut r: Vec<DeliveryResult> = Vec::new();
    let mut i: usize = 0;
    while i < envelopes.len()
        invariant
            i <= envelopes@.len(),
            r@.len() == i,
            forall|j: int|
                0 <= j < i ==> (#[trigger] r@[j])@ == failed(
                    envelopes@[j].event_id@,
                    false,
                    None,
                    e@,
                ),
        decreases envelopes@.len() - i,
    {
        r.push(DeliveryResult::fail(envelopes[i].event_id.as_str(), false, None, e));
        i += 1;
    }
    assert(results_view(r@) =~= all_failed(envelopes@, e@));
    r
}

impl WebhookChannel {
    /// The name of the channel.
    pub fn channel_type(&self) -> (r: &'static str)
        ensures
            r@ == "webhook"@,
    {
        "webhook"
    }

    /// Checks the settings of a subscription.
    pub fn validate_config(&self, config: &Json, allow_private_address: bool) -> (r: Result<
        (),
        String,
    >)
        ensures
            match webhook_fault(config@) {
                Some(e) => r matches Err(x) && x@ == e,
                None => if allow_private_address {
                    r is Ok
                } else {
                    match target_fault(url_host(setting(config@, "url"@))) {
                        Some(e) => r matches Err(x) && x@ == e,
                        None => r is Ok,
                    }
                },
            },
    {
        match parse_config(config) {
            Err(e) => Err(e),
            Ok(c) => check_private_address(c.url.as_str(), allow_private_address),
        }
    }

    /// The time that an answer is waited for.
    pub fn timeout(cfg: &WebhookCfg) -> (r: u64)
        ensures
            r == timeout_or_default(cfg.timeout_ms),
    {
        match cfg.timeout_ms {
            Some(n) => n,
            None => 10_000,
        }
    }

    /// The event that a test of the channel sends.
    pub fn test_envelope(pk: i64, now: String) -> (r: EventEnvelope)
        ensures
            r@ == (EnvelopeV {
                event_id: "test-"@ + dec_int(pk as int),
                seq: 0,
                event_type: "test"@,
                dict_code: "health-check"@,
                record_id: 0,
                record_code: Seq::empty(),
                version: 0,
                source: "cmx-mdm"@,
                occurred_at: now@,
                data: JsonV::Obj(
                    obj_put(
                        Seq::empty(),
                        "message"@,
                        JsonV::Str("cmx-mdm webhook 连通性测试"@),
                    ),
                ),
                meta: JsonV::Obj(Seq::empty()),
            }),
    {
        let mut event_id: String = "test-".to_owned();
        event_id.append(decimal_int(pk).as_str());
        let mut data = Object::new();
        data.insert("message".to_owned(), Json::string("cmx-mdm webhook 连通性测试"));
        EventEnvelope {
            event_id,
            seq: 0,
            event_type: "test".to_owned(),
            dict_code: "health-check".to_owned(),
            record_id: 0,
            record_code: String::new(),
            version: 0,
            source: "cmx-mdm".to_owned(),
            occurred_at: now,
            data: Json::Obj(data),
            meta: Json::Obj(Object::new()),
        }
    }

    /// What a test of the channel says, given what became of its event.
    pub fn test_outcome(result: &DeliveryResult) -> (r: Result<(), String>)
        ensures
            if result.ok {
                r is Ok
            } else {
                r matches Err(e) && e@ == match opt_text(result.detail) {
                    Some(d) => d,
                    None => "未知错误"@,
                }
            },
    {
        if result.ok {
            return Ok(());
        }
        match &result.detail {
            Some(d) => Err(d.clone()),
            None => Err("未知错误".to_owned()),
        }
    }
}

/// Refuses settings that lack one of two texts.
fn need_two(config: &Json, a: &str, a_fault: &str, b: &str, b_fault: &str) -> (r: Result<
    (),
    String,
>)
    ensures
        if setting(config@, a@).len() == 0 {
            r matches Err(e) && e@ == a_fault@
        } else if setting(config@, b@).len() == 0 {
            r matches Err(e) && e@ == b_fault@
        } else {
            r is Ok
        },
{
    if read_setting(config, a).as_str().is_empty() {
        return Err(a_fault.to_owned());
    }
    if read_setting(config, b).as_str().is_empty() {
        return Err(b_fault.to_owned());
    }
    Ok(())
}

/// Would send events to Kafka; every delivery fails for good.
pub struct KafkaChannel;

impl KafkaChannel {
    /// The name of the channel.
    pub fn channel_type(&self) -> (r: &'static str)
        ensures
            r@ == "kafka"@,
    {
        "kafka"
    }

    /// Checks the settings of a subscription.
    pub fn validate_config(&self, config: &Json) -> (r: Result<(), String>)
        ensures
            if setting(config@, "brokers"@).len() == 0 {
                r matches Err(e) && e@ == "kafka 通道缺 brokers"@
            } else if setting(config@, "topic"@).len() == 0 {
                r matches Err(e) && e@ == "kafka 通道缺 topic"@
            } else {
                r is Ok
            },
    {
        need_two(
            config,
            "brokers",
            "kafka 通道缺 brokers",
            "topic",
            "kafka 通道缺 topic",
        )
    }

    /// Fails every event for good.
    pub fn deliver(&self, envelopes: &Vec<EventEnvelope>) -> (r: Vec<DeliveryResult>)
        ensures
            results_view(r@) == all_failed(
                envelopes@,
                "kafka 通道未实现（M5.3 启用 channel-kafka feature 并引入 rdkafka）"@,
            ),
    {
        fail_all(
            envelopes,
            "kafka 通道未实现（M5.3 启用 channel-kafka feature 并引入 rdkafka）",
        )
    }

    /// The channel cannot be tested.
    pub fn health_check(&self) -> (r: Result<(), String>)
        ensures
            r matches Err(e) && e@ == "kafka 通道未实现（M5.3 启用）"@,
    {
        Err("kafka 通道未实现（M5.3 启用）".to_owned())
    }
}

/// Would send events to RocketMQ; every delivery fails for good.
pub struct RocketMqChannel;

impl RocketMqChannel {
    /// The name of the channel.
    pub fn channel_type(&self) -> (r: &'static str)
        ensures
            r@ == "rocketmq"@,
    {
        "rocketmq"
    }

    /// Checks the settings of a subscription.
    pub fn validate_config(&self, config: &Json) -> (r: Result<(), String>)
        ensures
            if setting(config@, "endpoints"@).len() == 0 {
                r matches Err(e) && e@
                    == "rocketmq 通道缺 endpoints（NameServer/Proxy 地址）"@
            } else if setting(config@, "topic"@).len() == 0 {
                r matches Err(e) && e@ == "rocketmq 通道缺 topic"@
            } else {
                r is Ok
            },
    {
        need_two(
            config,
            "endpoints",
            "rocketmq 通道缺 endpoints（NameServer/Proxy 地址）",
            "topic",
            "rocketmq 通道缺 topic",
        )
    }

    /// Fails every event for good.
    pub fn deliver(&self, envelopes: &Vec<EventEnvelope>) -> (r: Vec<DeliveryResult>)
        ensures
            results_view(r@) == all_failed(
                envelopes@,
                "rocketmq 通道未实现（M5.3 启用 channel-rocketmq feature）"@,
            ),
    {
        fail_all(
            envelopes,
            "rocketmq 通道未实现（M5.3 启用 channel-rocketmq feature）",
        )
    }

    /// The channel cannot be tested.
    pub fn health_check(&self) -> (r: Result<(), String>)
        ensures
            r matches Err(e) && e@ == "rocketmq 通道未实现（M5.3 启用）"@,
    {
        Err("rocketmq 通道未实现（M5.3 启用）".to_owned())
    }
}

} // verus!
