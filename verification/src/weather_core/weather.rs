//! Fetching and caching the forecast: the request, the cache entry's name
//! and freshness, and the retry schedule.
use vstd::prelude::*;
use crate::format::{chrono_seconds_between, parse_rfc3339, rfc3339_instant, seconds_between, whole_seconds_between};
use crate::text::{owned, push_str};
use crate::weather_core::location::unix_now;

verus! {

broadcast use vstd::string::group_string_axioms;

/// Retries of a failed forecast request.
pub const WEATHER_MAX_RETRIES: u32 = 20;

/// The forecast request for an adm4 code.
pub open spec fn forecast_url_spec(adm4: Seq<char>) -> Seq<char> {
    "https://api.bmkg.go.id/publik/prakiraan-cuaca?adm4="@ + adm4
}

/// The forecast request for an adm4 code.
pub fn forecast_url(adm4: &str) -> (url: String)
    ensures
        url@ == forecast_url_spec(adm4@),
{
    let mut url = owned("https://api.bmkg.go.id/publik/prakiraan-cuaca?adm4=");
    push_str(&mut url, adm4);
    url
}

/// The name of the cache file of an adm4 code's forecast.
pub fn cache_file_name(adm4: &str) -> (name: String)
    ensures
        name@ == "cuaca-"@ + adm4@ + ".json"@,
{
    let mut name = owned("cuaca-");
    push_str(&mut name, adm4);
    push_str(&mut name, ".json");
    name
}

/// Whether a cached forecast is fresh: it was fetched `age_secs` whole
/// seconds ago (`None` when its time stamp does not parse) and that is less
/// than `ttl_secs` taken as a signed number.
pub fn cache_is_fresh(age_secs: Option<i64>, ttl_secs: u64) -> (fresh: bool)
    ensures
        fresh == match age_secs {
            Some(a) => a < (ttl_secs as i64),
            None => false,
        },
{
    match age_secs {
        Some(a) => a < (ttl_secs as i64),
        None => false,
    }
}

/// How many whole seconds before `now` (a Unix timestamp and the
/// nanoseconds past it) a forecast cached at `fetched_at` (an RFC 3339 time)
/// was fetched, as chrono counts them; nothing when `fetched_at` is no such
/// time.
pub fn forecast_cache_age(fetched_at: &str, now: (i64, u32)) -> (age: Option<i64>)
    ensures
        age == match rfc3339_instant(fetched_at@) {
            Some(t) => chrono_seconds_between(now, t),
            None => None,
        },
        match rfc3339_instant(fetched_at@) {
            Some(t) => now.1 < 1_000_000_000 && t.1 < 1_000_000_000 && age is Some ==> age->0
                == whole_seconds_between(now, t),
            None => true,
        },
{
    match parse_rfc3339(fetched_at) {
        Some(t) => seconds_between(now, t),
        None => None,
    }
}

/// Whether the forecast cached at `fetched_at` (an RFC 3339 time) is still
/// fresh now, within `ttl_secs` seconds (see `cache_is_fresh` and
/// `forecast_cache_age`); not fresh when the clock cannot be read. What it
/// returns depends on the clock; it is fresh only when `fetched_at` is a
/// valid time.
pub fn forecast_cache_is_fresh(fetched_at: &str, ttl_secs: u64) -> (fresh: bool)
    ensures
        fresh ==> rfc3339_instant(fetched_at@) is Some,
{
    match unix_now() {
        Some(t) => {
            if t.0 > i64::MAX as u64 {
                return false;
            }
            let age = forecast_cache_age(fetched_at, (t.0 as i64, t.1));
            cache_is_fresh(age, ttl_secs)
        },
        None => false,
    }
}

/// The pause after failure number `failures` (counting from 1), in
/// milliseconds: 500 ms after the first, doubling with every failure.
pub open spec fn retry_pause_ms(failures: nat) -> nat
    decreases failures,
{
    if failures <= 1 {
        500
    } else {
        2 * retry_pause_ms((failures - 1) as nat)
    }
}

proof fn lemma_retry_pause_grows(k: nat, m: nat)
    requires
        k <= m,
    ensures
        retry_pause_ms(k) <= retry_pause_ms(m),
    decreases m - k,
{
    if k < m {
        lemma_retry_pause_grows(k, (m - 1) as nat);
    }
}

/// The wait before the next attempt after failure number `failures`
/// (counting from 1), in milliseconds: exponential back-off from 500 ms,
/// doubling with every failure; none once the retries are used up, so that
/// a request is tried at most 21 times.
pub fn weather_retry_delay(failures: u32) -> (delay: Option<u64>)
    requires
        failures >= 1,
    ensures
        failures > WEATHER_MAX_RETRIES ==> delay is None,
        failures <= WEATHER_MAX_RETRIES ==> delay == Some(retry_pause_ms(failures as nat) as u64),
{
    if failures > WEATHER_MAX_RETRIES {
        return None;
    }
    proof {
        reveal_with_fuel(retry_pause_ms, 21);
        assert(retry_pause_ms(20) == 262_144_000);
    }
    let mut ms: u64 = 500;
    let mut k: u32 = 1;
    while k < failures
        invariant
            1 <= k <= failures <= 20,
            ms == retry_pause_ms(k as nat),
            retry_pause_ms(20) == 262_144_000,
        decreases failures - k,
    {
        proof {
            lemma_retry_pause_grows((k + 1) as nat, 20);
        }
        ms = ms * 2;
        k = k + 1;
    }
    Some(ms)
}

} // verus!
