//! Decisions around calls to the EVE Swagger Interface (ESI): how a reply
//! is taken by its status, how long to back off, and what is recorded of
//! the rate and error limits a reply reports.

use vstd::prelude::*;
use crate::text::{
    owned, parse_u64, push_decimal, push_str, push_unsigned, spec_decimal, spec_parse_unsigned,
    string_from_chars,
};

verus! {

/// How a reply to an ESI request is taken.
#[derive(Debug, PartialEq, Eq)]
pub enum EsiReply {
    /// 404: the list asked for is empty.
    EmptyList,
    /// 420 or 429: the limit was hit; back off, then fail with the message.
    RateLimited(String),
    /// Any other status outside 2xx: fail with the message.
    Failed(String),
    /// 2xx: read the body.
    Body,
}

/// 420 (ESI's error limit) and 429 (too many requests).
pub open spec fn spec_is_rate_limited(status: int) -> bool {
    status == 420 || status == 429
}

/// A 2xx status.
pub open spec fn spec_is_success(status: int) -> bool {
    200 <= status <= 299
}

pub fn is_rate_limited(status: i64) -> (r: bool)
    ensures
        r == spec_is_rate_limited(status as int),
{
    status == 420 || status == 429
}

/// A 2xx status, as `StatusCode::is_success` tests it.
pub fn is_success(status: u16) -> (r: bool)
    ensures
        r == spec_is_success(status as int),
{
    200 <= status && status <= 299
}

/// `"ESI rate limit <status> for <url>"`.
pub open spec fn rate_limit_message(status: u16, url: Seq<char>) -> Seq<char> {
    "ESI rate limit "@ + spec_decimal(status as int) + " for "@ + url
}

/// `"ESI <status> for <url>"`.
pub open spec fn failure_message(status: u16, url: Seq<char>) -> Seq<char> {
    "ESI "@ + spec_decimal(status as int) + " for "@ + url
}

/// How the reply with this status to a request of `url` is taken.
pub fn esi_reply(status: u16, url: &str) -> (r: EsiReply)
    ensures
        status == 404 ==> r == EsiReply::EmptyList,
        spec_is_rate_limited(status as int) ==> (r matches EsiReply::RateLimited(m) && m@ == rate_limit_message(status, url@)),
        status != 404 && !spec_is_rate_limited(status as int) && !spec_is_success(status as int) ==> (
            r matches EsiReply::Failed(m) && m@ == failure_message(status, url@)),
        status != 404 && spec_is_success(status as int) ==> r == EsiReply::Body,
{
    if status == 404 {
        return EsiReply::EmptyList;
    }
    if status == 420 || status == 429 {
        let mut v: Vec<char> = Vec::new();
        push_str(&mut v, "ESI rate limit ");
        push_decimal(&mut v, status as i64);
        push_str(&mut v, " for ");
        push_str(&mut v, url);
        assert(v@ =~= rate_limit_message(status, url@));
        return EsiReply::RateLimited(string_from_chars(v.as_slice()));
    }
    if status < 200 || status > 299 {
        let mut v: Vec<char> = Vec::new();
        push_str(&mut v, "ESI ");
        push_decimal(&mut v, status as i64);
        push_str(&mut v, " for ");
        push_str(&mut v, url);
        assert(v@ =~= failure_message(status, url@));
        return EsiReply::Failed(string_from_chars(v.as_slice()));
    }
    EsiReply::Body
}

/// A header's value read as an unsigned integer.
pub open spec fn spec_header_u64(value: Option<Seq<char>>) -> Option<u64> {
    match value {
        Some(t) => match spec_parse_unsigned(t) {
            Some(n) => if n <= u64::MAX {
                Some(n as u64)
            } else {
                None
            },
            None => None,
        },
        None => None,
    }
}

/// Reads a header holding an unsigned integer; a missing header or one that
/// is not such a number gives `None`.
pub fn header_u64(value: Option<&str>) -> (r: Option<u64>)
    ensures
        r == spec_header_u64(
            match value {
                Some(t) => Some(t@),
                None => None,
            },
        ),
{
    match value {
        Some(t) => parse_u64(t),
        None => None,
    }
}

/// Seconds to back off: `retry-after`, else the error-limit reset, else the
/// fallback, kept between one second and five minutes.
pub open spec fn spec_wait_seconds(retry_after: Option<u64>, reset: Option<u64>, fallback: u64) -> int {
    let s = match retry_after {
        Some(r) => r as int,
        None => match reset {
            Some(x) => x as int,
            None => fallback as int,
        },
    };
    if s < 1 {
        1
    } else if s > 300 {
        300
    } else {
        s
    }
}

pub fn wait_seconds(retry_after: Option<u64>, reset: Option<u64>, fallback: u64) -> (r: u64)
    ensures
        r == spec_wait_seconds(retry_after, reset, fallback),
        1 <= r <= 300,
{
    let s = match retry_after {
        Some(r) => r,
        None => match reset {
            Some(x) => x,
            None => fallback,
        },
    };
    if s < 1 {
        1
    } else if s > 300 {
        300
    } else {
        s
    }
}

/// Back off before the next call when the remaining error budget is known
/// and at or under the threshold.
pub fn should_wait_for_reset(remain: Option<u64>, threshold: u64) -> (r: bool)
    ensures
        r == (remain matches Some(x) && x <= threshold),
{
    match remain {
        Some(x) => x <= threshold,
        None => false,
    }
}

/// A recorded value: the number's decimal text, or empty when absent.
pub open spec fn optional_text(n: Option<u64>) -> Seq<char> {
    match n {
        Some(x) => spec_decimal(x as int),
        None => Seq::empty(),
    }
}

/// One key and value of the recorded API limit state.
#[derive(Debug)]
pub struct LimitEntry {
    pub key: String,
    pub value: String,
}

/// The keys and values recorded after each ESI reply, in the order they are written.
pub open spec fn spec_limit_entries(
    url: Seq<char>,
    status: i64,
    retry_after: Option<u64>,
    remain: Option<u64>,
    reset: Option<u64>,
    rate_limit_limit: Seq<char>,
    rate_limit_remaining: Option<u64>,
    rate_limit_used: Option<u64>,
    now: Seq<char>,
) -> Seq<(Seq<char>, Seq<char>)> {
    seq![
        ("last_response_at"@, now),
        ("last_status"@, spec_decimal(status as int)),
        ("retry_after"@, optional_text(retry_after)),
        ("error_limit_remain"@, optional_text(remain)),
        ("error_limit_reset"@, optional_text(reset)),
        ("rate_limit_limit"@, rate_limit_limit),
        ("rate_limit_remaining"@, optional_text(rate_limit_remaining)),
        ("rate_limit_used"@, optional_text(rate_limit_used)),
        ("rate_limited"@, if spec_is_rate_limited(status as int) { "TRUE"@ } else { "FALSE"@ }),
        ("last_url"@, url),
    ]
}

pub open spec fn entry_view(e: LimitEntry) -> (Seq<char>, Seq<char>) {
    (e.key@, e.value@)
}

fn entry(key: &str, value: String) -> (e: LimitEntry)
    ensures
        e.key@ == key@,
        e.value == value,
{
    LimitEntry { key: owned(key), value }
}

fn optional_number(n: Option<u64>) -> (s: String)
    ensures
        s@ == optional_text(n),
{
    let mut v: Vec<char> = Vec::new();
    match n {
        Some(x) => push_unsigned(&mut v, x),
        None => {},
    }
    assert(v@ =~= optional_text(n));
    string_from_chars(v.as_slice())
}

/// What is recorded of an ESI reply's status and limit headers.
pub fn limit_entries(
    url: &str,
    status: i64,
    retry_after: Option<u64>,
    remain: Option<u64>,
    reset: Option<u64>,
    rate_limit_limit: &str,
    rate_limit_remaining: Option<u64>,
    rate_limit_used: Option<u64>,
    now: &str,
) -> (r: Vec<LimitEntry>)
    ensures
        r@.map_values(|e: LimitEntry| entry_view(e)) == spec_limit_entries(
            url@,
            status,
            retry_after,
            remain,
            reset,
            rate_limit_limit@,
            rate_limit_remaining,
            rate_limit_used,
            now@,
        ),
{
    let mut out: Vec<LimitEntry> = Vec::new();
    out.push(entry("last_response_at", owned(now)));
    let mut s: Vec<char> = Vec::new();
    push_decimal(&mut s, status);
    out.push(entry("last_status", string_from_chars(s.as_slice())));
    out.push(entry("retry_after", optional_number(retry_after)));
    out.push(entry("error_limit_remain", optional_number(remain)));
    out.push(entry("error_limit_reset", optional_number(reset)));
    out.push(entry("rate_limit_limit", owned(rate_limit_limit)));
    out.push(entry("rate_limit_remaining", optional_number(rate_limit_remaining)));
    out.push(entry("rate_limit_used", optional_number(rate_limit_used)));
    let flag = if is_rate_limited(status) {
        owned("TRUE")
    } else {
        owned("FALSE")
    };
    out.push(entry("rate_limited", flag));
    out.push(entry("last_url", owned(url)));
    assert(out@.map_values(|e: LimitEntry| entry_view(e)) =~= spec_limit_entries(
        url@,
        status,
        retry_after,
        remain,
        reset,
        rate_limit_limit@,
        rate_limit_remaining,
        rate_limit_used,
        now@,
    ));
    out
}

} // verus!
