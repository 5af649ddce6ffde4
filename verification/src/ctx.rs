//! Who acts.

use crate::store::query::opt_str;
use crate::text::{parse_i64, parsed_in, trim, trimmed};
use vstd::prelude::*;

verus! {

/// The user behind a request; none where nobody is named.
pub open spec fn user_of(named: Option<Seq<char>>) -> Option<Seq<char>> {
    match named {
        Some(u) => if trimmed(u).len() > 0 {
            Some(trimmed(u))
        } else {
            None
        },
        None => None,
    }
}

/// The user behind a request.
pub fn current_user_id(named: Option<&str>) -> (r: Option<String>)
    ensures
        match r {
            Some(u) => user_of(opt_str(named)) == Some(u@),
            None => user_of(opt_str(named)) is None,
        },
{
    match named {
        Some(u) => {
            let t = trim(u);
            if t.as_str().is_empty() {
                None
            } else {
                Some(t)
            }
        },
        None => None,
    }
}

/// The number of the user behind a request; 0 where nobody is named or the name is no number.
pub open spec fn actor_of(named: Option<Seq<char>>) -> i64 {
    match user_of(named) {
        Some(u) => match parsed_in(u, true, i64::MIN as int, i64::MAX as int) {
            Some(n) => n as i64,
            None => 0,
        },
        None => 0,
    }
}

/// The number of the user behind a request.
pub fn current_actor_id(named: Option<&str>) -> (r: i64)
    ensures
        r == actor_of(opt_str(named)),
{
    match current_user_id(named) {
        Some(u) => match parse_i64(u.as_str()) {
            Some(n) => n,
            None => 0,
        },
        None => 0,
    }
}

} // verus!
