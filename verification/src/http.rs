//! The HTTP client's own rules: error bodies are clipped, and rate limits
//! never drop to zero.

use vstd::prelude::*;
use crate::config::RateLimit;
use crate::error::Error;
use crate::text::{chars_of, string_of};

verus! {

/// How much of an error response's body is kept.
pub const MAX_ERROR_BODY: usize = 300;

/// The most attempts after the first one.
pub const MAX_RETRIES: usize = 3;

/// Seconds a single request may take in all; without a limit a silent peer
/// would hold the task's slot for ever.
pub const REQUEST_TIMEOUT_SECS: u64 = 120;

pub open spec fn truncated(value: Seq<char>, limit: nat) -> Seq<char> {
    if value.len() <= limit {
        value
    } else {
        value.take(limit as int) + "..."@
    }
}

/// At most `limit` characters of `value`, with `...` after them when some
/// were cut.
pub fn truncate(value: &str, limit: usize) -> (r: String)
    ensures
        r@ == truncated(value@, limit as nat),
{
    let mut chars = chars_of(value);
    if chars.len() <= limit {
        return String::from_str(value);
    }
    chars.truncate(limit);
    let s = string_of(&chars);
    s.concat("...")
}

/// The token bucket for a domain: refill per second and burst, each at
/// least one, as the limiter accepts no zero.
pub fn quota(limit: RateLimit) -> (r: (u32, u32))
    ensures
        r.0 == (if limit.refill_rate == 0 { 1 } else { limit.refill_rate }),
        r.1 == (if limit.capacity == 0 { 1 } else { limit.capacity }),
        r.0 >= 1 && r.1 >= 1,
{
    let refill = if limit.refill_rate == 0 { 1 } else { limit.refill_rate };
    let capacity = if limit.capacity == 0 { 1 } else { limit.capacity };
    (refill, capacity)
}

/// The error for a response that is not a success: its status, the
/// method and URL asked, and at most `MAX_ERROR_BODY` characters of its body.
pub fn response_error(status: u16, method: &str, url: &str, body: &str) -> (e: Error)
    ensures
        e matches Error::ResponseCode { status: s, method: m, url: u, body: b } && s == status && m@
            == method@ && u@ == url@ && b@ == truncated(body@, MAX_ERROR_BODY as nat),
{
    Error::ResponseCode {
        status,
        method: String::from_str(method),
        url: String::from_str(url),
        body: truncate(body, MAX_ERROR_BODY),
    }
}

/// The proxy requests go through: the configured one, unless it is empty.
pub fn usable_proxy(proxy: Option<&String>) -> (r: Option<String>)
    ensures
        match proxy {
            Some(p) => if p@.len() > 0 { r matches Some(q) && q@ == p@ } else { r is None },
            None => r is None,
        },
{
    match proxy {
        Some(p) => if p.as_str().unicode_len() > 0 {
            Some(String::from_str(p.as_str()))
        } else {
            None
        },
        None => None,
    }
}

/// A truncated value keeps the start of the value: the whole value when it
/// fits in `limit` characters; otherwise its first `limit` characters and
/// then `...`, so a cut is always visible.
pub proof fn law_truncation_keeps_the_start(value: Seq<char>, limit: nat)
    ensures
        value.len() <= limit ==> truncated(value, limit) == value,
        value.len() > limit ==> {
            &&& truncated(value, limit).len() == limit + 3
            &&& forall|i: int| 0 <= i < limit ==> #[trigger] truncated(value, limit)[i] == value[i]
            &&& truncated(value, limit).skip(limit as int) == "..."@
        },
{
    reveal_strlit("...");
    if value.len() > limit {
        assert(truncated(value, limit).skip(limit as int) =~= "..."@);
    }
}

} // verus!
