//! What is sent, and what became of it.

use crate::json::{Json, JsonV};
use crate::match_algo::opt_text;
use vstd::prelude::*;

verus! {

/// What is sent of an event, whatever the channel.
#[derive(Debug)]
pub struct EventEnvelope {
    pub event_id: String,
    pub seq: i64,
    pub event_type: String,
    pub dict_code: String,
    pub record_id: i64,
    pub record_code: String,
    pub version: i64,
    pub source: String,
    pub occurred_at: String,
    pub data: Json,
    pub meta: Json,
}

/// What an envelope stands for.
#[verifier::ext_equal]
pub struct EnvelopeV {
    pub event_id: Seq<char>,
    pub seq: i64,
    pub event_type: Seq<char>,
    pub dict_code: Seq<char>,
    pub record_id: i64,
    pub record_code: Seq<char>,
    pub version: i64,
    pub source: Seq<char>,
    pub occurred_at: Seq<char>,
    pub data: JsonV,
    pub meta: JsonV,
}

impl EventEnvelope {
    pub open spec fn view(&self) -> EnvelopeV {
        EnvelopeV {
            event_id: self.event_id@,
            seq: self.seq,
            event_type: self.event_type@,
            dict_code: self.dict_code@,
            record_id: self.record_id,
            record_code: self.record_code@,
            version: self.version,
            source: self.source@,
            occurred_at: self.occurred_at@,
            data: self.data@,
            meta: self.meta@,
        }
    }
}

/// What became of the delivery of one event.
#[derive(Debug)]
pub struct DeliveryResult {
    pub event_id: String,
    pub ok: bool,
    /// Whether a failure may pass.
    pub retryable: bool,
    pub http_status: Option<i64>,
    pub detail: Option<String>,
}

/// What a result stands for.
#[verifier::ext_equal]
pub struct ResultV {
    pub event_id: Seq<char>,
    pub ok: bool,
    pub retryable: bool,
    pub http_status: Option<i64>,
    pub detail: Option<Seq<char>>,
}

/// A failed delivery.
pub open spec fn failed(
    event_id: Seq<char>,
    retryable: bool,
    http_status: Option<i64>,
    detail: Seq<char>,
) -> ResultV {
    ResultV { event_id, ok: false, retryable, http_status, detail: Some(detail) }
}

impl DeliveryResult {
    pub open spec fn view(&self) -> ResultV {
        ResultV {
            event_id: self.event_id@,
            ok: self.ok,
            retryable: self.retryable,
            http_status: self.http_status,
            detail: opt_text(self.detail),
        }
    }

    /// A delivery that succeeded.
    pub fn ok(event_id: &str, http_status: Option<i64>, detail: Option<String>) -> (r: Self)
        ensures
            r@ == (ResultV {
                event_id: event_id@,
                ok: true,
                retryable: true,
                http_status,
                detail: opt_text(detail),
            }),
    {
        DeliveryResult {
            event_id: event_id.to_owned(),
            ok: true,
            retryable: true,
            http_status,
            detail,
        }
    }

    /// A delivery that failed.
    pub fn fail(event_id: &str, retryable: bool, http_status: Option<i64>, detail: &str) -> (r:
        Self)
        ensures
            r@ == failed(event_id@, retryable, http_status, detail@),
    {
        DeliveryResult {
            event_id: event_id.to_owned(),
            ok: false,
            retryable,
            http_status,
            detail: Some(detail.to_owned()),
        }
    }
}

} // verus!
