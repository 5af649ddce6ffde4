//! The settings of the distribution.

use crate::match_algo::opt_text;
use crate::text::{
    eq_ignore_case, parse_i64, parse_u64, parsed_in, same_ascii_case, same_text, trim, trimmed,
};
use vstd::prelude::*;

verus! {

/// The settings of the distribution.
#[derive(Debug, Clone, Copy, PartialEq, Eq, Structural)]
pub struct DistCfg {
    /// Whether events are sent at all.
    pub enabled: bool,
    /// How often the dispatcher looks, in milliseconds.
    pub scan_interval_ms: u64,
    /// How many events one round fans out.
    pub fanout_batch: i64,
    /// How many deliveries one round takes on.
    pub deliver_batch: i64,
    /// How many subscriptions are served at once.
    pub deliver_concurrency: usize,
    /// The first wait before another try, in milliseconds.
    pub backoff_base_ms: u64,
    /// The longest wait before another try, in milliseconds.
    pub backoff_max_ms: u64,
    /// After how many minutes a delivery that was begun is taken up again.
    pub running_reclaim_minutes: i64,
    /// Whether a webhook may call a private address.
    pub allow_private_address: bool,
}

/// The settings where none are given.
pub open spec fn default_cfg() -> DistCfg {
    DistCfg {
        enabled: true,
        scan_interval_ms: 2_000,
        fanout_batch: 500,
        deliver_batch: 100,
        deliver_concurrency: 8,
        backoff_base_ms: 5_000,
        backoff_max_ms: 1_800_000,
        running_reclaim_minutes: 10,
        allow_private_address: true,
    }
}

impl Default for DistCfg {
    fn default() -> (r: Self)
        ensures
            r == default_cfg(),
    {
        DistCfg {
            enabled: true,
            scan_interval_ms: 2_000,
            fanout_batch: 500,
            deliver_batch: 100,
            deliver_concurrency: 8,
            backoff_base_ms: 5_000,
            backoff_max_ms: 1_800_000,
            running_reclaim_minutes: 10,
            allow_private_address: true,
        }
    }
}

/// The settings as they are written; `None` where one is missing.
#[derive(Debug)]
pub struct DistSettings {
    pub enabled: Option<String>,
    pub scan_interval_ms: Option<String>,
    pub fanout_batch: Option<String>,
    pub deliver_batch: Option<String>,
    pub deliver_concurrency: Option<String>,
    pub backoff_base_ms: Option<String>,
    pub backoff_max_ms: Option<String>,
    pub running_reclaim_minutes: Option<String>,
    pub allow_private_address: Option<String>,
}

/// Whether a text switches something on: `true` in any case, or `1`.
pub open spec fn switched_on(s: Seq<char>) -> bool {
    same_ascii_case(trimmed(s), "true"@) || trimmed(s) == "1"@
}

/// A switch, or its default where it is missing.
pub open spec fn switch_or(s: Option<Seq<char>>, default: bool) -> bool {
    match s {
        Some(t) => switched_on(t),
        None => default,
    }
}

/// A positive number up to `max`, or the default where it is missing or anything else.
pub open spec fn positive_or(s: Option<Seq<char>>, signed: bool, max: int, default: int) -> int {
    match s {
        Some(t) => match parsed_in(trimmed(t), signed, 1, max) {
            Some(n) => n,
            None => default,
        },
        None => default,
    }
}

/// A switch, or its default where it is missing.
pub fn read_switch(s: &Option<String>, default: bool) -> (r: bool)
    ensures
        r == switch_or(opt_text(*s), default),
{
    match s {
        Some(t) => {
            let v = trim(t.as_str());
            eq_ignore_case(v.as_str(), "true") || same_text(v.as_str(), "1")
        },
        None => default,
    }
}

fn read_u64(s: &Option<String>, default: u64) -> (r: u64)
    ensures
        r == positive_or(opt_text(*s), false, u64::MAX as int, default as int),
{
    match s {
        Some(t) => match parse_u64(trim(t.as_str()).as_str()) {
            Some(n) => if n > 0 {
                n
            } else {
                default
            },
            None => default,
        },
        None => default,
    }
}

fn read_i64(s: &Option<String>, default: i64) -> (r: i64)
    ensures
        r == positive_or(opt_text(*s), true, i64::MAX as int, default as int),
{
    match s {
        Some(t) => match parse_i64(trim(t.as_str()).as_str()) {
            Some(n) => if n > 0 {
                n
            } else {
                default
            },
            None => default,
        },
        None => default,
    }
}

fn read_usize(s: &Option<String>, default: usize) -> (r: usize)
    ensures
        r == positive_or(opt_text(*s), false, usize::MAX as int, default as int),
{
    match s {
        Some(t) => match parse_u64(trim(t.as_str()).as_str()) {
            Some(n) => if n > 0 && n <= usize::MAX as u64 {
                n as usize
            } else {
                default
            },
            None => default,
        },
        None => default,
    }
}

/// Reads the settings; what is missing or makes no sense is as by default.
pub fn dist_cfg(s: &DistSettings) -> (r: DistCfg)
    ensures
        r.enabled == switch_or(opt_text(s.enabled), true),
        r.scan_interval_ms == positive_or(
            opt_text(s.scan_interval_ms),
            false,
            u64::MAX as int,
            2_000,
        ),
        r.fanout_batch == positive_or(opt_text(s.fanout_batch), true, i64::MAX as int, 500),
        r.deliver_batch == positive_or(opt_text(s.deliver_batch), true, i64::MAX as int, 100),
        r.deliver_concurrency == positive_or(
            opt_text(s.deliver_concurrency),
            false,
            usize::MAX as int,
            8,
        ),
        r.backoff_base_ms == positive_or(
            opt_text(s.backoff_base_ms),
            false,
            u64::MAX as int,
            5_000,
        ),
        r.backoff_max_ms == positive_or(
            opt_text(s.backoff_max_ms),
            false,
            u64::MAX as int,
            1_800_000,
        ),
        r.running_reclaim_minutes == positive_or(
            opt_text(s.running_reclaim_minutes),
            true,
            i64::MAX as int,
            10,
        ),
        r.allow_private_address == switch_or(opt_text(s.allow_private_address), true),
{
    DistCfg {
        enabled: read_switch(&s.enabled, true),
        scan_interval_ms: read_u64(&s.scan_interval_ms, 2_000),
        fanout_batch: read_i64(&s.fanout_batch, 500),
        deliver_batch: read_i64(&s.deliver_batch, 100),
        deliver_concurrency: read_usize(&s.deliver_concurrency, 8),
        backoff_base_ms: read_u64(&s.backoff_base_ms, 5_000),
        backoff_max_ms: read_u64(&s.backoff_max_ms, 1_800_000),
        running_reclaim_minutes: read_i64(&s.running_reclaim_minutes, 10),
        allow_private_address: read_switch(&s.allow_private_address, true),
    }
}

/// How long the dispatcher sleeps between two looks: at least 200 ms.
pub fn scan_pause_ms(cfg: &DistCfg) -> (r: u64)
    ensures
        r == if cfg.scan_interval_ms >= 200 {
            cfg.scan_interval_ms
        } else {
            200
        },
{
    if cfg.scan_interval_ms >= 200 {
        cfg.scan_interval_ms
    } else {
        200
    }
}

} // verus!
