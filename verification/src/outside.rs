//! Calls into other crates and into parts of the standard library, with what is
//! believed of them.

use crate::json::{Json, JsonV, Number, NumberV, Object};
use crate::text::digit_char;
use hmac::Mac;
use sha2::Digest;
use serde_json::Value;
use vstd::prelude::*;

verus! {

/// A JSON value of the `serde_json` crate.
#[verifier::external_type_specification]
#[verifier::external_body]
pub struct ExSerdeValue(serde_json::Value);

/// The compact JSON text of a value.
pub uninterp spec fn json_text(v: JsonV) -> Seq<char>;

/// The value that a JSON text stands for; `None` where the text is no JSON.
pub uninterp spec fn json_parse(s: Seq<char>) -> Option<JsonV>;

/// The outcome of reading bytes as JSON: the value, or what is wrong with them.
pub uninterp spec fn json_bytes(b: Seq<u8>) -> Result<JsonV, Seq<char>>;

/// The bits of the double nearest to a number; `None` where the text of a double is no number.
pub uninterp spec fn double_bits(n: NumberV) -> Option<u64>;

/// HMAC-SHA256 of a message under a key.
pub uninterp spec fn hmac_sha256(key: Seq<u8>, message: Seq<u8>) -> Seq<u8>;

/// SHA-256 of some bytes.
pub uninterp spec fn sha256(data: Seq<u8>) -> Seq<u8>;

/// The outcome of parsing a URL: its host, if it has one, or what is wrong with the text.
pub uninterp spec fn url_host(url: Seq<char>) -> Result<Option<Seq<char>>, Seq<char>>;

/// The upper-case form of a text.
pub uninterp spec fn uppercase(s: Seq<char>) -> Seq<char>;

/// The lower-case form of a text.
pub uninterp spec fn lowercase(s: Seq<char>) -> Seq<char>;

/// A text as it is shown in a message about it: quoted, with escapes.
pub uninterp spec fn debug_text(s: Seq<char>) -> Seq<char>;

/// A JSON value as it is shown in a message about it.
pub uninterp spec fn debug_json(v: JsonV) -> Seq<char>;

/// Builds the `serde_json::Value` with the same contents, member for member. The text of a double
/// is read by the standard library, which finds the nearest double.
#[verifier::external_body]
pub(crate) fn to_serde(v: &Json) -> Value {
    match v {
        Json::Null => Value::Null,
        Json::Bool(b) => Value::Bool(*b),
        Json::Num(Number::PosInt(u)) => Value::from(*u),
        Json::Num(Number::NegInt(i)) => Value::from(*i),
        Json::Num(Number::Float(t)) => t.parse().ok().and_then(serde_json::Number::from_f64).into(),
        Json::Str(s) => Value::String(s.clone()),
        Json::Arr(a) => Value::Array(a.iter().map(to_serde).collect()),
        Json::Obj(o) => (0..o.len()).map(|i| (o.key_at(i).clone(), to_serde(o.value_at(i)))).collect(),
    }
}

/// Builds the [`Json`] with the same contents as a `serde_json::Value`.
#[verifier::external_body]
pub(crate) fn from_serde(v: &Value) -> Json {
    match v {
        Value::Null => Json::Null,
        Value::Bool(b) => Json::Bool(*b),
        Value::Number(n) => n.as_u64().map(Number::PosInt).or(n.as_i64().map(Number::NegInt))
            .map_or_else(|| Json::Num(Number::Float(n.to_string())), Json::Num),
        Value::String(s) => Json::Str(s.clone()),
        Value::Array(a) => Json::Arr(a.iter().map(from_serde).collect()),
        Value::Object(m) => Json::Obj(m.iter().fold(Object::new(), |mut o, (k, x)| {
            o.insert(k.clone(), from_serde(x));
            o
        })),
    }
}

/// `serde_json::Value`'s `to_string`: the compact JSON text, a function of the value alone.
#[verifier::external_body]
pub(crate) fn value_text(v: &Json) -> (r: String)
    ensures
        r@ == json_text(v@),
{
    to_serde(v).to_string()
}

/// `serde_json::from_str` into a `serde_json::Value`: whether the text is JSON, and of which
/// value, is a function of the text alone.
#[verifier::external_body]
pub(crate) fn parse_value(s: &str) -> (r: Option<Json>)
    ensures
        match r {
            Some(v) => json_parse(s@) == Some(v@),
            None => json_parse(s@) is None,
        },
{
    serde_json::from_str::<serde_json::Value>(s).ok().map(|v| from_serde(&v))
}

/// `serde_json::Number::as_f64`, the double given by its bits.
#[verifier::external_body]
pub(crate) fn number_bits(n: &Number) -> (r: Option<u64>)
    ensures
        r == double_bits(n@),
{
    to_serde(&Json::Num(n.clone())).as_number().and_then(|x| x.as_f64()).map(|d| d.to_bits())
}

/// `Hmac::<Sha256>`'s `new_from_slice` (which takes a key of any length), `update` and
/// `finalize`: a tag of 32 bytes, a function of key and message.
#[verifier::external_body]
pub(crate) fn hmac_tag(key: &[u8], message: &[u8]) -> (r: Vec<u8>)
    ensures
        r@ == hmac_sha256(key@, message@),
        r@.len() == 32,
{
    hmac::Hmac::<sha2::Sha256>::new_from_slice(key).map_or(Vec::new(), |m| {
        m.chain_update(message).finalize().into_bytes().to_vec()
    })
}

/// `Hmac::<Sha256>`'s `verify_slice`: whether `tag` is the tag of the message.
#[verifier::external_body]
pub(crate) fn hmac_verify(key: &[u8], message: &[u8], tag: &[u8]) -> (r: bool)
    ensures
        r == (tag@ == hmac_sha256(key@, message@)),
{
    hmac::Hmac::<sha2::Sha256>::new_from_slice(key)
        .is_ok_and(|m| m.chain_update(message).verify_slice(tag).is_ok())
}

/// `sha2::Sha256::digest`: 32 bytes, a function of the input.
#[verifier::external_body]
pub(crate) fn sha256_digest(data: &[u8]) -> (r: Vec<u8>)
    ensures
        r@ == sha256(data@),
        r@.len() == 32,
{
    sha2::Sha256::digest(data).to_vec()
}

/// Two lower-case hexadecimal digits for each byte.
pub open spec fn hex_text(b: Seq<u8>) -> Seq<char>
    decreases b.len(),
{
    if b.len() == 0 {
        Seq::empty()
    } else {
        hex_text(b.drop_last()) + seq![
            digit_char((b.last() / 16) as nat),
            digit_char((b.last() % 16) as nat),
        ]
    }
}

/// The value of a hexadecimal digit.
pub open spec fn hex_value(c: char) -> Option<int> {
    if '0' <= c <= '9' {
        Some(c as int - 48)
    } else if 'a' <= c <= 'f' {
        Some(c as int - 87)
    } else if 'A' <= c <= 'F' {
        Some(c as int - 55)
    } else {
        None
    }
}

/// The bytes that pairs of hexadecimal digits stand for.
pub open spec fn hex_bytes(s: Seq<char>) -> Option<Seq<u8>>
    decreases s.len(),
{
    if s.len() == 0 {
        Some(Seq::empty())
    } else if s.len() == 1 {
        None
    } else {
        match (
            hex_bytes(s.take(s.len() - 2)),
            hex_value(s[s.len() - 2]),
            hex_value(s[s.len() - 1]),
        ) {
            (Some(b), Some(x), Some(y)) => Some(b.push((16 * x + y) as u8)),
            _ => None,
        }
    }
}

/// `hex::encode`: two lower-case hexadecimal digits for each byte.
#[verifier::external_body]
pub(crate) fn to_hex(b: &[u8]) -> (r: String)
    ensures
        r@ == hex_text(b@),
{
    hex::encode(b)
}

/// `hex::decode`: the bytes, where the text is made of pairs of hexadecimal digits of either
/// case; an error otherwise.
#[verifier::external_body]
pub(crate) fn from_hex(s: &str) -> (r: Option<Vec<u8>>)
    ensures
        match r {
            Some(b) => hex_bytes(s@) == Some(b@),
            None => hex_bytes(s@) is None,
        },
{
    hex::decode(s).ok()
}

/// `reqwest::Url::parse` and `host_str`: the host or the parser's message, a function of the
/// text.
#[verifier::external_body]
pub(crate) fn parse_host(url: &str) -> (r: Result<Option<String>, String>)
    ensures
        match r {
            Ok(Some(h)) => url_host(url@) == Ok::<Option<Seq<char>>, Seq<char>>(Some(h@)),
            Ok(None) => url_host(url@) == Ok::<Option<Seq<char>>, Seq<char>>(None),
            Err(e) => url_host(url@) == Err::<Option<Seq<char>>, Seq<char>>(e@),
        },
{
    reqwest::Url::parse(url).map(|u| u.host_str().map(String::from)).map_err(|e| e.to_string())
}

/// `str::to_uppercase`, a function of the text.
#[verifier::external_body]
pub(crate) fn to_upper(s: &str) -> (r: String)
    ensures
        r@ == uppercase(s@),
{
    s.to_uppercase()
}

/// `str::to_lowercase`, a function of the text.
#[verifier::external_body]
pub(crate) fn to_lower(s: &str) -> (r: String)
    ensures
        r@ == lowercase(s@),
{
    s.to_lowercase()
}

/// `serde_json::from_slice` into a `Value`: the value that the bytes stand for, or the text of the
/// error, a function of the bytes.
#[verifier::external_body]
pub(crate) fn parse_bytes(b: &[u8]) -> (r: Result<Json, String>)
    ensures
        match r {
            Ok(v) => json_bytes(b@) == Ok::<JsonV, Seq<char>>(v@),
            Err(e) => json_bytes(b@) == Err::<JsonV, Seq<char>>(e@),
        },
{
    serde_json::from_slice::<serde_json::Value>(b).map(|v| from_serde(&v)).map_err(|e| e.to_string())
}

/// `str`'s `Debug`: the text in quotes, with escapes, a function of the text.
#[verifier::external_body]
pub(crate) fn debug_str(s: &str) -> (r: String)
    ensures
        r@ == debug_text(s@),
{
    format!("{:?}", s)
}

/// `serde_json::Value`'s `Debug`, a function of the value.
#[verifier::external_body]
pub(crate) fn debug_value(v: &Json) -> (r: String)
    ensures
        r@ == debug_json(v@),
{
    format!("{:?}", to_serde(v))
}

/// `SystemTime::now` as milliseconds since the Unix epoch; `None` for a clock before it. Nothing
/// is promised of what the clock shows.
#[verifier::external_body]
pub(crate) fn clock_ms() -> (r: Option<u64>) {
    std::time::SystemTime::now().duration_since(std::time::UNIX_EPOCH).ok()
        .map(|d| d.as_millis() as u64)
}

} // verus!
