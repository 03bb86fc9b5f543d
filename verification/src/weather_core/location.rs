//! Resolving the location of the forecast.
use vstd::prelude::*;
use crate::text::{ascii_lower, ascii_lower_chars, chars_of, string_of, trim, trim_bounds};
use crate::weather_core::error::CuacaError;

verus! {

broadcast use vstd::string::group_string_axioms;

/// How long a resolved location stays in the cache, in seconds (24 hours).
pub const CACHE_TTL_SECS: u64 = 86400;

/// The cache key of a village name: trimmed and in ASCII lower case.
pub open spec fn name_key_spec(name: Seq<char>) -> Seq<char> {
    ascii_lower(trim(name))
}

/// The cache key of a village name: trimmed and in ASCII lower case.
pub fn name_key(name: &str) -> (key: String)
    ensures
        key@ == name_key_spec(name@),
{
    let v = chars_of(name);
    let (a, b) = trim_bounds(&v);
    let lowered = ascii_lower_chars(&v, a, b);
    string_of(&lowered)
}

proof fn lemma_trim_start_ascii_lower(s: Seq<char>)
    ensures
        trim(ascii_lower(s)) == ascii_lower(trim(s)),
    decreases s.len(),
{
    lemma_trim_commutes_start(s);
    lemma_trim_commutes_end(crate::text::trim_start(s));
}

proof fn lemma_trim_commutes_start(s: Seq<char>)
    ensures
        crate::text::trim_start(ascii_lower(s)) == ascii_lower(crate::text::trim_start(s)),
    decreases s.len(),
{
    if s.len() > 0 {
        assert(ascii_lower(s).drop_first() =~= ascii_lower(s.drop_first()));
        lemma_trim_commutes_start(s.drop_first());
    }
}

proof fn lemma_trim_commutes_end(s: Seq<char>)
    ensures
        crate::text::trim_end(ascii_lower(s)) == ascii_lower(crate::text::trim_end(s)),
    decreases s.len(),
{
    if s.len() > 0 {
        assert(ascii_lower(s).drop_last() =~= ascii_lower(s.drop_last()));
        lemma_trim_commutes_end(s.drop_last());
    }
}

proof fn lemma_trim_start_idempotent(s: Seq<char>)
    ensures
        crate::text::trim_start(crate::text::trim_start(s)) == crate::text::trim_start(s),
    decreases s.len(),
{
    if s.len() > 0 && crate::text::is_whitespace(s[0]) {
        lemma_trim_start_idempotent(s.drop_first());
    }
}

proof fn lemma_trim_end_keeps_start(s: Seq<char>)
    requires
        s.len() == 0 || !crate::text::is_whitespace(s[0]),
    ensures
        crate::text::trim_end(s).len() == 0 || !crate::text::is_whitespace(crate::text::trim_end(s)[0]),
        crate::text::trim_start(crate::text::trim_end(s)) == crate::text::trim_end(s),
    decreases s.len(),
{
    if s.len() > 0 && crate::text::is_whitespace(s.last()) {
        if s.len() > 1 {
            assert(s.drop_last()[0] == s[0]);
        }
        lemma_trim_end_keeps_start(s.drop_last());
    }
}

proof fn lemma_trim_end_idempotent(s: Seq<char>)
    ensures
        crate::text::trim_end(crate::text::trim_end(s)) == crate::text::trim_end(s),
    decreases s.len(),
{
    if s.len() > 0 && crate::text::is_whitespace(s.last()) {
        lemma_trim_end_idempotent(s.drop_last());
    }
}

proof fn lemma_lower_idempotent(s: Seq<char>)
    ensures
        ascii_lower(ascii_lower(s)) == ascii_lower(s),
{
    assert(ascii_lower(ascii_lower(s)) =~= ascii_lower(s));
}

/// Normalising a key again changes nothing: the same village always gets
/// the same cache entry.
pub proof fn law_name_key_idempotent(name: Seq<char>)
    ensures
        name_key_spec(name_key_spec(name)) == name_key_spec(name),
{
    let t = trim(name);
    lemma_trim_start_ascii_lower(t);
    // trim(trim(name)) == trim(name)
    let ts = crate::text::trim_start(name);
    lemma_trim_start_idempotent(name);
    assert(ts.len() == 0 || !crate::text::is_whitespace(ts[0])) by {
        lemma_trim_start_first(name);
    }
    lemma_trim_end_keeps_start(ts);
    lemma_trim_end_idempotent(ts);
    assert(trim(t) == t);
    lemma_lower_idempotent(t);
}

proof fn lemma_trim_start_first(s: Seq<char>)
    ensures
        crate::text::trim_start(s).len() == 0 || !crate::text::is_whitespace(crate::text::trim_start(s)[0]),
    decreases s.len(),
{
    if s.len() > 0 && crate::text::is_whitespace(s[0]) {
        lemma_trim_start_first(s.drop_first());
    }
}

/// Whether an entry stored at `epoch_secs` is still fresh at `now` (both in
/// seconds since the Unix epoch).
pub open spec fn fresh_at(epoch_secs: u64, now: u64) -> bool {
    now < epoch_secs + CACHE_TTL_SECS
}

/// Whether an entry stored at `epoch_secs` is still fresh at `now`.
pub fn is_fresh_at(epoch_secs: u64, now: u64) -> (fresh: bool)
    requires
        epoch_secs + CACHE_TTL_SECS <= u64::MAX,
    ensures
        fresh == fresh_at(epoch_secs, now),
{
    now < epoch_secs + CACHE_TTL_SECS
}

/// The current time as whole seconds since the Unix epoch and the
/// nanoseconds past them, read from the system clock (std
/// `SystemTime::now().duration_since(UNIX_EPOCH)`); nothing when the clock is
/// before the epoch. What time it returns is not stated; the nanoseconds are
/// below 10^9, as std's `Duration::subsec_nanos` documents.
#[verifier::external_body]
pub(crate) fn unix_now() -> (r: Option<(u64, u32)>)
    ensures
        r matches Some(t) ==> t.1 < 1_000_000_000,
{
    match std::time::SystemTime::now().duration_since(std::time::UNIX_EPOCH) {
        Ok(d) => Some((d.as_secs(), d.subsec_nanos())),
        Err(_) => None,
    }
}

/// Whether an entry stored at `epoch_secs` is still fresh now: `is_fresh_at`
/// at the time the system clock gives, not fresh when the clock cannot be
/// read. What it returns depends on the clock, so nothing is stated of it.
pub fn is_fresh(epoch_secs: u64) -> (fresh: bool)
    requires
        epoch_secs + CACHE_TTL_SECS <= u64::MAX,
{
    match unix_now() {
        Some(now) => is_fresh_at(epoch_secs, now.0),
        None => false,
    }
}

/// Where a location comes from.
#[derive(Debug, Clone, PartialEq, Eq)]
pub enum LocationQuery {
    /// An adm4 code given directly.
    Adm4(String),
    /// GPS coordinates, resolved by the nearest village.
    Gps,
    /// A village name, resolved by search; `key` is its cache key.
    Name { name: String, key: String },
}

/// Chooses how to resolve the location from the command-line options.
pub fn location_query(adm4: Option<&str>, has_lat: bool, has_lon: bool, name: Option<&str>) -> (r: Result<
    LocationQuery,
    CuacaError,
>)
    ensures
        adm4 matches Some(code) ==> (r matches Ok(LocationQuery::Adm4(c)) && c@ == code@),
        adm4 is None && has_lat && !has_lon ==> (r matches Err(CuacaError::Config(m)) && m@
            == "--lat requires --lon"@),
        adm4 is None && has_lon && !has_lat ==> (r matches Err(CuacaError::Config(m)) && m@
            == "--lon requires --lat"@),
        adm4 is None && has_lat && has_lon ==> r matches Ok(LocationQuery::Gps),
        adm4 is None && !has_lat && !has_lon ==> match name {
            Some(n) => (r matches Ok(LocationQuery::Name { name: nm, key: k }) && nm@ == n@ && k@
                == name_key_spec(n@)),
            None => (r matches Err(CuacaError::Location(m)) && m@
                == "provide --adm4, --lat/--lon, or --name"@),
        },
{
    if let Some(code) = adm4 {
        return Ok(LocationQuery::Adm4(String::from_str(code)));
    }
    if has_lat && !has_lon {
        return Err(CuacaError::Config(String::from_str("--lat requires --lon")));
    }
    if has_lon && !has_lat {
        return Err(CuacaError::Config(String::from_str("--lon requires --lat")));
    }
    if has_lat && has_lon {
        return Ok(LocationQuery::Gps);
    }
    match name {
        Some(n) => Ok(LocationQuery::Name { name: String::from_str(n), key: name_key(n) }),
        None => Err(CuacaError::Location(String::from_str("provide --adm4, --lat/--lon, or --name"))),
    }
}

} // verus!
