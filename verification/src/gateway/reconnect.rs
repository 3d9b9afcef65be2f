//! Gateway URLs and the reconnect backoff.

use crate::text::{chars, concat_string, contains_char, has_char, own, strip_trailing, strip_trailing_vec};
use vstd::prelude::*;

verus! {

/// Gateway API version.
pub const GATEWAY_VERSION: u8 = 10;

/// Gateway host used when no resume URL is known.
pub const GATEWAY_HOST: &'static str = "wss://gateway.discord.gg";

/// Longest backoff before jitter, in seconds.
pub const MAX_BACKOFF_SECS: u64 = 90;

/// The query every gateway URL carries.
pub open spec fn gateway_query_spec() -> Seq<char> {
    "v=10&encoding=json&compress=zstd-stream"@
}

/// The URL of a fresh connection.
pub open spec fn gateway_url_spec() -> Seq<char> {
    GATEWAY_HOST@ + "/?"@ + gateway_query_spec()
}

pub fn gateway_query() -> (s: String)
    ensures
        s@ == gateway_query_spec(),
{
    own("v=10&encoding=json&compress=zstd-stream")
}

pub fn gateway_url() -> (s: String)
    ensures
        s@ == gateway_url_spec(),
{
    let host = own(GATEWAY_HOST);
    let s = host.concat("/?");
    s.concat(gateway_query().as_str())
}

/// The resume URL for a base URL: the query appended after `&` when the
/// base already has one, else after `/?` with trailing slashes removed.
pub open spec fn resume_ws_url_spec(base: Seq<char>) -> Seq<char> {
    if contains_char(base, '?') {
        base + "&"@ + gateway_query_spec()
    } else {
        strip_trailing(base, '/') + "/?"@ + gateway_query_spec()
    }
}

pub fn resume_ws_url(base: &str) -> (s: String)
    ensures
        s@ == resume_ws_url_spec(base@),
{
    let v = chars(base);
    if has_char(&v, '?') {
        let s = own(base).concat("&");
        s.concat(gateway_query().as_str())
    } else {
        let trimmed = strip_trailing_vec(&v, '/');
        let s = concat_string(&trimmed, &chars("/?"));
        s.concat(gateway_query().as_str())
    }
}

/// Backoff before jitter: one second doubled per earlier attempt, capped at
/// ninety seconds. `attempt` is 1 on the first reconnect.
pub open spec fn backoff_base_spec(attempt: u32) -> int {
    let exp = if attempt == 0 {
        0
    } else if attempt - 1 > 7 {
        7
    } else {
        attempt - 1
    };
    let secs = vstd::arithmetic::power2::pow2(exp as nat);
    (if secs > MAX_BACKOFF_SECS {
        MAX_BACKOFF_SECS as int
    } else {
        secs as int
    }) * 1000
}

/// The backoff in milliseconds before jitter.
pub fn backoff_base_ms(attempt: u32) -> (ms: u64)
    ensures
        ms == backoff_base_spec(attempt),
        1000 <= ms <= 90_000,
{
    let exp: u32 = if attempt == 0 {
        0
    } else if attempt - 1 > 7 {
        7
    } else {
        attempt - 1
    };
    let secs: u64 = if exp == 0 {
        1
    } else if exp == 1 {
        2
    } else if exp == 2 {
        4
    } else if exp == 3 {
        8
    } else if exp == 4 {
        16
    } else if exp == 5 {
        32
    } else if exp == 6 {
        64
    } else {
        128
    };
    proof {
        vstd::arithmetic::power2::lemma2_to64();
    }
    let capped = if secs > MAX_BACKOFF_SECS {
        MAX_BACKOFF_SECS
    } else {
        secs
    };
    capped * 1000
}

/// The reconnect delay: the base backoff plus a jitter of at most a quarter
/// of it.
pub fn backoff_delay_ms(attempt: u32, jitter_ms: u64) -> (ms: u64)
    requires
        jitter_ms * 4 <= backoff_base_spec(attempt),
    ensures
        ms == backoff_base_spec(attempt) + jitter_ms,
{
    let base = backoff_base_ms(attempt);
    base + jitter_ms
}

/// `rand::random_range(0..bound)`: a number drawn at random below `bound`.
/// Only the range is stated; which number comes out is chance.
#[verifier::external_body]
pub(crate) fn random_below(bound: u64) -> (r: u64)
    requires
        bound > 0,
    ensures
        r < bound,
{
    rand::random_range(0..bound)
}

/// The delay before a reconnect, in milliseconds: the backoff plus a random
/// jitter below a quarter of it.
pub fn backoff_with_jitter(attempt: u32) -> (ms: u64)
    ensures
        backoff_base_spec(attempt) <= ms < backoff_base_spec(attempt) + backoff_base_spec(attempt) / 4,
{
    let base = backoff_base_ms(attempt);
    let jitter = random_below(base / 4);
    backoff_delay_ms(attempt, jitter)
}

/// The backoff grows with the attempt number and never exceeds the cap.
pub proof fn lemma_backoff_monotone(a: u32, b: u32)
    requires
        a <= b,
    ensures
        backoff_base_spec(a) <= backoff_base_spec(b),
        backoff_base_spec(b) <= MAX_BACKOFF_SECS * 1000,
        b >= 8 ==> backoff_base_spec(b) == MAX_BACKOFF_SECS * 1000,
{
    vstd::arithmetic::power2::lemma2_to64();
    let ea: nat = if a == 0 { 0 } else if a - 1 > 7 { 7 } else { (a - 1) as nat };
    let eb: nat = if b == 0 { 0 } else if b - 1 > 7 { 7 } else { (b - 1) as nat };
    assert(ea <= eb);
    if ea < eb {
        vstd::arithmetic::power2::lemma_pow2_strictly_increases(ea, eb);
    }
}

} // verus!
