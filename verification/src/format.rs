//! Formatting of temperatures, times, wind directions, icons and the custom
//! bar indicator.
use vstd::prelude::*;
use chrono::{Datelike, Timelike};
use std::fmt::Write;
use crate::lang::Lang;
use crate::text::{
    chars_of, decimal, int_decimal, int_decimal_chars, pad_left, pad_right, push_char, push_chars,
    push_padded_left, push_str, push_u64,
};
use crate::weather_core::constants::ICON_PLACEHOLDER;

verus! {

broadcast use vstd::string::group_string_axioms;

// ---------------------------------------------------------------------------
// Temperatures

/// A temperature right-aligned in three columns followed by a degree sign.
pub open spec fn temp_text(temp: int) -> Seq<char> {
    pad_left(int_decimal(temp), 3) + seq!['\u{00b0}']
}

/// A temperature from -99 to 999 takes exactly four columns: its digits
/// padded to three, then the degree sign.
pub proof fn law_temp_text_four_columns(temp: int)
    requires
        -99 <= temp <= 999,
    ensures
        temp_text(temp).len() == 4,
        temp_text(temp).last() == '\u{00b0}',
{
    if temp < 0 {
        crate::text::lemma_decimal_len((-temp) as nat);
    } else {
        crate::text::lemma_decimal_len(temp as nat);
    }
}

/// A temperature right-aligned in three columns followed by a degree sign.
pub fn format_temp(temp: i64) -> (r: String)
    ensures
        r@ == temp_text(temp as int),
{
    let digits = int_decimal_chars(temp);
    let mut r = String::new();
    push_padded_left(&mut r, &digits, 3);
    push_char(&mut r, '\u{00b0}');
    r
}

/// Degrees Fahrenheit for `celsius` degrees Celsius, rounded to the nearest
/// degree (`9c/5 + 32` is never halfway between two integers, and
/// `floor((18c + 325) / 10)` is the integer nearest to it), held to the
/// range of `i64` as Rust's `as i64` holds a number.
pub open spec fn fahrenheit(celsius: int) -> int {
    let f = (18 * celsius + 325) / 10;
    if f > i64::MAX {
        i64::MAX as int
    } else if f < i64::MIN {
        i64::MIN as int
    } else {
        f
    }
}

/// Degrees Celsius to degrees Fahrenheit, rounded to the nearest degree.
pub fn celsius_to_fahrenheit(celsius: i64) -> (f: i64)
    ensures
        f == fahrenheit(celsius as int),
{
    let t: i128 = 18 * (celsius as i128) + 325;
    let e: i128 = if t >= 0 {
        t / 10
    } else {
        let q = (-t + 9) / 10;
        assert(-q == t / 10) by (nonlinear_arith)
            requires
                t < 0,
                q == (-t + 9) / 10,
        ;
        -q
    };
    if e > i64::MAX as i128 {
        i64::MAX
    } else if e < i64::MIN as i128 {
        i64::MIN
    } else {
        e as i64
    }
}

// ---------------------------------------------------------------------------
// Wind direction

/// The compass sector (0 = north, then clockwise in steps of 45 degrees) of
/// a wind direction in degrees: the direction modulo 360 divided by 45 and
/// rounded, 8 wrapping to 0; negative directions give 0.
pub open spec fn wind_sector(degrees: int) -> nat {
    if degrees < 0 {
        0
    } else {
        (((2 * (degrees % 360) + 45) / 90) % 8) as nat
    }
}

/// The arrow emoji for a compass sector.
pub open spec fn wind_arrow(sector: nat) -> Seq<char> {
    if sector == 0 {
        "\u{2b06}\u{fe0f}"@
    } else if sector == 1 {
        "\u{2197}\u{fe0f}"@
    } else if sector == 2 {
        "\u{27a1}\u{fe0f}"@
    } else if sector == 3 {
        "\u{2198}\u{fe0f}"@
    } else if sector == 4 {
        "\u{2b07}\u{fe0f}"@
    } else if sector == 5 {
        "\u{2199}\u{fe0f}"@
    } else if sector == 6 {
        "\u{2b05}\u{fe0f}"@
    } else {
        "\u{2196}\u{fe0f}"@
    }
}

/// The nerd-font arrow for a compass sector.
pub open spec fn wind_arrow_nerd(sector: nat) -> Seq<char> {
    if sector == 0 {
        "\u{F0340}"@
    } else if sector == 1 {
        "\u{F0347}"@
    } else if sector == 2 {
        "\u{F0343}"@
    } else if sector == 3 {
        "\u{F0349}"@
    } else if sector == 4 {
        "\u{F0341}"@
    } else if sector == 5 {
        "\u{F0348}"@
    } else if sector == 6 {
        "\u{F0342}"@
    } else {
        "\u{F0346}"@
    }
}

/// The compass sector of a wind direction.
pub fn wind_dir_sector(degrees: i64) -> (s: usize)
    ensures
        s == wind_sector(degrees as int),
        s < 8,
{
    if degrees < 0 {
        0
    } else {
        let r = degrees % 360;
        (((2 * r + 45) / 90) % 8) as usize
    }
}

/// The arrow pointing where the wind blows from `degrees`.
pub fn format_wind_dir_icon(degrees: i64, nerd: bool) -> (icon: &'static str)
    ensures
        icon@ == if nerd {
            wind_arrow_nerd(wind_sector(degrees as int))
        } else {
            wind_arrow(wind_sector(degrees as int))
        },
{
    let dir = wind_dir_sector(degrees);
    if nerd {
        match dir {
            0 => "\u{F0340}",
            1 => "\u{F0347}",
            2 => "\u{F0343}",
            3 => "\u{F0349}",
            4 => "\u{F0341}",
            5 => "\u{F0348}",
            6 => "\u{F0342}",
            _ => "\u{F0346}",
        }
    } else {
        match dir {
            0 => "\u{2b06}\u{fe0f}",
            1 => "\u{2197}\u{fe0f}",
            2 => "\u{27a1}\u{fe0f}",
            3 => "\u{2198}\u{fe0f}",
            4 => "\u{2b07}\u{fe0f}",
            5 => "\u{2199}\u{fe0f}",
            6 => "\u{2b05}\u{fe0f}",
            _ => "\u{2196}\u{fe0f}",
        }
    }
}

/// Every full turn gives the same arrow: directions 360 degrees apart fall in
/// the same sector.
pub proof fn law_wind_sector_periodic(degrees: int)
    requires
        degrees >= 0,
    ensures
        wind_sector(degrees + 360) == wind_sector(degrees),
        wind_sector(degrees) < 8,
{
    assert((degrees + 360) % 360 == degrees % 360) by (nonlinear_arith)
        requires
            degrees >= 0,
    ;
}

/// The eight principal directions map to the eight sectors in order.
pub proof fn law_wind_sector_of_principal_directions(k: int)
    requires
        0 <= k < 8,
    ensures
        wind_sector(45 * k) == k,
{
    assert((2 * ((45 * k) % 360) + 45) / 90 == k) by (nonlinear_arith)
        requires
            0 <= k < 8,
    ;
}

// ---------------------------------------------------------------------------
// Weather icons

/// The emoji for a BMKG weather code; the sun for unknown codes.
pub open spec fn weather_icon(code: u32) -> Seq<char> {
    if code == 0 || code == 1 {
        "\u{2600}\u{fe0f}"@
    } else if code == 2 {
        "\u{26c5}"@
    } else if code == 3 {
        "\u{2601}\u{fe0f}"@
    } else if code == 4 {
        "\u{1f325}\u{fe0f}"@
    } else if code == 5 || code == 10 || code == 45 {
        "\u{1f32b}\u{fe0f}"@
    } else if code == 60 || code == 61 || code == 63 || code == 80 {
        "\u{1f327}\u{fe0f}"@
    } else if code == 95 || code == 97 {
        "\u{26c8}\u{fe0f}"@
    } else {
        "\u{2600}\u{fe0f}"@
    }
}

/// The nerd-font icon for a BMKG weather code; the sun for unknown codes.
pub open spec fn weather_icon_nerd(code: u32) -> Seq<char> {
    if code == 0 || code == 1 {
        "\u{F0319}"@
    } else if code == 2 {
        "\u{F0315}"@
    } else if code == 3 {
        "\u{F0330}"@
    } else if code == 4 {
        "\u{F0310}"@
    } else if code == 5 || code == 10 || code == 45 {
        "\u{F0311}"@
    } else if code == 60 || code == 61 {
        "\u{F0317}"@
    } else if code == 63 || code == 80 {
        "\u{F0316}"@
    } else if code == 95 || code == 97 {
        "\u{F033E}"@
    } else {
        "\u{F0319}"@
    }
}

/// Whether BMKG's forecast uses the weather code.
pub open spec fn is_known_weather_code(code: u32) -> bool {
    code == 0 || code == 1 || code == 2 || code == 3 || code == 4 || code == 5 || code == 10 || code
        == 45 || code == 60 || code == 61 || code == 63 || code == 80 || code == 95 || code == 97
}

/// The icon for a BMKG weather code.
pub fn get_weather_icon(code: u32, nerd: bool) -> (icon: &'static str)
    ensures
        icon@ == if nerd {
            weather_icon_nerd(code)
        } else {
            weather_icon(code)
        },
{
    if nerd {
        match code {
            0 | 1 => "\u{F0319}",
            2 => "\u{F0315}",
            3 => "\u{F0330}",
            4 => "\u{F0310}",
            5 | 10 | 45 => "\u{F0311}",
            60 | 61 => "\u{F0317}",
            63 | 80 => "\u{F0316}",
            95 | 97 => "\u{F033E}",
            _ => crate::constants::FALLBACK_ICON_NERD,
        }
    } else {
        match code {
            0 | 1 => "\u{2600}\u{fe0f}",
            2 => "\u{26c5}",
            3 => "\u{2601}\u{fe0f}",
            4 => "\u{1f325}\u{fe0f}",
            5 | 10 | 45 => "\u{1f32b}\u{fe0f}",
            60 | 61 | 63 | 80 => "\u{1f327}\u{fe0f}",
            95 | 97 => "\u{26c8}\u{fe0f}",
            _ => crate::constants::FALLBACK_ICON,
        }
    }
}

/// Codes the forecast does not use get the fallback icon.
pub proof fn law_unknown_codes_get_fallback_icon(code: u32)
    requires
        !is_known_weather_code(code),
    ensures
        weather_icon(code) == crate::constants::FALLBACK_ICON@,
        weather_icon_nerd(code) == crate::constants::FALLBACK_ICON_NERD@,
{
}

// ---------------------------------------------------------------------------
// Times

/// What chrono's `NaiveDateTime::parse_from_str` gives for the text `s` read
/// in the format `fmt`: the year, month, day, hour and minute, and, taking
/// the time as UTC, its Unix timestamp and the nanoseconds past it; or
/// nothing when the text does not fit the format.
pub uninterp spec fn naive_datetime_fields(s: Seq<char>, fmt: Seq<char>) -> Option<
    (i32, u32, u32, u32, u32, i64, u32),
>;

/// A date and time read with chrono's `NaiveDateTime::parse_from_str`, as
/// its year, month, day, hour and minute, and its Unix timestamp and the
/// nanoseconds past it (`and_utc().timestamp()` and
/// `timestamp_subsec_nanos()`). The contract names the result and
/// states only the ranges that chrono's `Datelike` and `Timelike` document
/// (month 1 to 12, day 1 to 31, hour 0 to 23, minute 0 to 59); which texts
/// parse is not stated.
#[verifier::external_body]
fn parse_naive_datetime(s: &str, fmt: &str) -> (r: Option<(i32, u32, u32, u32, u32, i64, u32)>)
    ensures
        r == naive_datetime_fields(s@, fmt@),
        r matches Some(f) ==> 1 <= f.1 <= 12 && 1 <= f.2 <= 31 && f.3 < 24 && f.4 < 60,
{
    match chrono::NaiveDateTime::parse_from_str(s, fmt) {
        Ok(dt) => Some((
            dt.year(),
            dt.month(),
            dt.day(),
            dt.hour(),
            dt.minute(),
            dt.and_utc().timestamp(),
            dt.and_utc().timestamp_subsec_nanos(),
        )),
        Err(_) => None,
    }
}

/// The hour and minute of a local time in the form `%Y-%m-%d %H:%M:%S`, or
/// nothing when the text is no such time.
pub open spec fn parsed_local_time(s: Seq<char>) -> Option<(u32, u32)> {
    match naive_datetime_fields(s, "%Y-%m-%d %H:%M:%S"@) {
        Some(f) => Some((f.3, f.4)),
        None => None,
    }
}

/// The hour and minute of a local time in the form `%Y-%m-%dT%H:%M:%S`, or
/// nothing when the text is no such time.
pub open spec fn parsed_iso_local_time(s: Seq<char>) -> Option<(u32, u32)> {
    match naive_datetime_fields(s, "%Y-%m-%dT%H:%M:%S"@) {
        Some(f) => Some((f.3, f.4)),
        None => None,
    }
}

/// The date and hour of a local time in the form `%Y-%m-%d %H:%M:%S`, or
/// nothing when the text is no such time.
pub open spec fn parsed_local_date_hour(s: Seq<char>) -> Option<((i32, u32, u32), u32)> {
    match naive_datetime_fields(s, "%Y-%m-%d %H:%M:%S"@) {
        Some(f) => Some(((f.0, f.1, f.2), f.3)),
        None => None,
    }
}

/// The instant of a UTC time in the form `%Y-%m-%d %H:%M:%S` (its Unix
/// timestamp and the nanoseconds past it), or nothing when the text is no
/// such time.
pub open spec fn parsed_utc_instant(s: Seq<char>) -> Option<(i64, u32)> {
    match naive_datetime_fields(s, "%Y-%m-%d %H:%M:%S"@) {
        Some(f) => Some((f.5, f.6)),
        None => None,
    }
}

/// The instant of a UTC time `YYYY-MM-DD HH:MM:SS`.
pub(crate) fn parse_naive_datetime_utc(s: &str) -> (r: Option<(i64, u32)>)
    ensures
        r == parsed_utc_instant(s@),
{
    match parse_naive_datetime(s, "%Y-%m-%d %H:%M:%S") {
        Some(f) => Some((f.5, f.6)),
        None => None,
    }
}

/// The hour and minute of a local time `YYYY-MM-DD HH:MM:SS`.
pub(crate) fn parse_local_hour_minute(s: &str) -> (r: Option<(u32, u32)>)
    ensures
        r == parsed_local_time(s@),
        r matches Some(hm) ==> hm.0 < 24 && hm.1 < 60,
{
    match parse_naive_datetime(s, "%Y-%m-%d %H:%M:%S") {
        Some(f) => Some((f.3, f.4)),
        None => None,
    }
}

/// The hour and minute of a local time `YYYY-MM-DDTHH:MM:SS`.
pub(crate) fn parse_iso_hour_minute(s: &str) -> (r: Option<(u32, u32)>)
    ensures
        r == parsed_iso_local_time(s@),
        r matches Some(hm) ==> hm.0 < 24 && hm.1 < 60,
{
    match parse_naive_datetime(s, "%Y-%m-%dT%H:%M:%S") {
        Some(f) => Some((f.3, f.4)),
        None => None,
    }
}

/// The date (year, month, day) and hour of a local time
/// `YYYY-MM-DD HH:MM:SS`.
pub(crate) fn parse_local_date_hour(s: &str) -> (r: Option<((i32, u32, u32), u32)>)
    ensures
        r == parsed_local_date_hour(s@),
        r matches Some(dh) ==> 1 <= dh.0.1 <= 12 && 1 <= dh.0.2 <= 31 && dh.1 < 24,
{
    match parse_naive_datetime(s, "%Y-%m-%d %H:%M:%S") {
        Some(f) => Some(((f.0, f.1, f.2), f.3)),
        None => None,
    }
}

/// What chrono's `DateTime::parse_from_rfc3339` gives for `s`: the instant
/// as whole seconds since the Unix epoch (`timestamp`) and the nanoseconds
/// past them (`timestamp_subsec_nanos`), or nothing when `s` is no RFC 3339
/// time.
pub uninterp spec fn rfc3339_instant(s: Seq<char>) -> Option<(i64, u32)>;

/// An RFC 3339 time read with chrono's `DateTime::parse_from_rfc3339`, as
/// its Unix timestamp and the nanoseconds past it. The contract names the
/// result; which texts parse is not stated, nor a bound on the nanoseconds
/// (chrono documents that they exceed 999,999,999 within a leap second).
#[verifier::external_body]
pub(crate) fn parse_rfc3339(s: &str) -> (r: Option<(i64, u32)>)
    ensures
        r == rfc3339_instant(s@),
{
    match chrono::DateTime::parse_from_rfc3339(s) {
        Ok(dt) => Some((dt.timestamp(), dt.timestamp_subsec_nanos())),
        Err(_) => None,
    }
}

/// The nanoseconds since the Unix epoch of an RFC 3339 time, or nothing when
/// the text is no such time.
pub open spec fn rfc3339_nanos(s: Seq<char>) -> Option<i128> {
    match rfc3339_instant(s) {
        Some(t) => Some((t.0 * 1_000_000_000 + t.1) as i128),
        None => None,
    }
}

/// The nanoseconds since the Unix epoch of an RFC 3339 time.
pub fn instant_nanos(s: &str) -> (r: Option<i128>)
    ensures
        r == rfc3339_nanos(s@),
{
    match parse_rfc3339(s) {
        Some(t) => Some(t.0 as i128 * 1_000_000_000 + t.1 as i128),
        None => None,
    }
}

/// The whole seconds from the instant `earlier` to the instant `later`, each
/// given as seconds since the Unix epoch and nanoseconds past them: their
/// difference cut towards zero to whole seconds.
pub open spec fn whole_seconds_between(later: (i64, u32), earlier: (i64, u32)) -> int {
    let d = (later.0 * 1_000_000_000 + later.1) - (earlier.0 * 1_000_000_000 + earlier.1);
    if d >= 0 {
        d / 1_000_000_000
    } else {
        -((-d) / 1_000_000_000)
    }
}

/// What chrono gives for the whole seconds from `earlier` to `later` (each
/// a Unix timestamp and the nanoseconds past it): both made instants with
/// `DateTime::from_timestamp`, then `signed_duration_since` and
/// `TimeDelta::num_seconds`; nothing when `from_timestamp` refuses either.
pub uninterp spec fn chrono_seconds_between(later: (i64, u32), earlier: (i64, u32)) -> Option<i64>;

/// The whole seconds from `earlier` to `later`, computed by chrono. The
/// contract names the result and states it where neither instant lies in a
/// leap second (both nanosecond parts below 10^9): the difference cut
/// towards zero, as `TimeDelta::num_seconds` documents. Within a leap second
/// chrono's count depends on the times of day, which is not stated.
#[verifier::external_body]
pub(crate) fn seconds_between(later: (i64, u32), earlier: (i64, u32)) -> (r: Option<i64>)
    ensures
        r == chrono_seconds_between(later, earlier),
        later.1 < 1_000_000_000 && earlier.1 < 1_000_000_000 && r is Some ==> r->0 == whole_seconds_between(
            later,
            earlier,
        ),
{
    let a = chrono::DateTime::from_timestamp(later.0, later.1)?;
    let b = chrono::DateTime::from_timestamp(earlier.0, earlier.1)?;
    Some(a.signed_duration_since(b).num_seconds())
}

/// What chrono writes for the date of a local time `%Y-%m-%d %H:%M:%S` with
/// `NaiveDate::format_localized` in the format `fmt`, in Indonesian or else
/// US English; nothing when the text is no such time or the format cannot be
/// written.
pub uninterp spec fn localized_date(local_datetime: Seq<char>, fmt: Seq<char>, indonesian: bool) -> Option<
    Seq<char>,
>;

/// The date of a local time `YYYY-MM-DD HH:MM:SS`, read with chrono's
/// `NaiveDateTime::parse_from_str` and written with
/// `NaiveDate::format_localized` in the format `fmt` and the locale of
/// `lang` (`id_ID` or `en_US`). The contract names the result: it depends on
/// the text, the format and the language alone. A format that chrono cannot
/// write gives `None`.
#[verifier::external_body]
pub(crate) fn localized_date_label(local_datetime: &str, fmt: &str, lang: Lang) -> (r: Option<String>)
    ensures
        match r {
            Some(s) => localized_date(local_datetime@, fmt@, lang == Lang::ID) == Some(s@),
            None => localized_date(local_datetime@, fmt@, lang == Lang::ID) is None,
        },
{
    let locale = match lang {
        Lang::EN => chrono::Locale::en_US,
        Lang::ID => chrono::Locale::id_ID,
    };
    let date = chrono::NaiveDateTime::parse_from_str(local_datetime, "%Y-%m-%d %H:%M:%S").ok()?.date();
    let mut out = String::new();
    match write!(out, "{}", date.format_localized(fmt, locale)) {
        Ok(()) => Some(out),
        Err(_) => None,
    }
}

/// An optional text by its view.
pub open spec fn opt_text(o: Option<String>) -> Option<Seq<char>> {
    match o {
        Some(s) => Some(s@),
        None => None,
    }
}

/// A number in at least two digits, zero-padded (Rust's `{:02}`).
pub open spec fn two_digits(n: nat) -> Seq<char> {
    if n < 10 {
        seq!['0'] + decimal(n)
    } else {
        decimal(n)
    }
}

/// The clock text for an hour and a minute: `HH:MM`, or in 12-hour form the
/// hour (12 for midnight and noon) with `am`/`pm`, left-aligned in four
/// columns.
pub open spec fn clock_text(hour: nat, minute: nat, ampm: bool) -> Seq<char> {
    if ampm {
        let hour12 = if hour == 0 || hour == 12 {
            12
        } else {
            hour % 12
        };
        let suffix = if hour >= 12 {
            "pm"@
        } else {
            "am"@
        };
        pad_right(decimal(hour12) + suffix, 4)
    } else {
        two_digits(hour) + seq![':'] + two_digits(minute)
    }
}

/// Appends `n` in at least two digits, zero-padded.
pub fn push_two_digits(s: &mut String, n: u32)
    ensures
        final(s)@ == old(s)@ + two_digits(n as nat),
{
    if n < 10 {
        push_char(s, '0');
    }
    push_u64(s, n as u64);
    assert(final(s)@ =~= old(s)@ + two_digits(n as nat));
}

/// The clock text for an hour and a minute.
pub fn format_hour_minute(hour: u32, minute: u32, ampm: bool) -> (r: String)
    ensures
        r@ == clock_text(hour as nat, minute as nat, ampm),
{
    let mut r = String::new();
    if ampm {
        let hour12: u32 = if hour == 0 || hour == 12 {
            12
        } else {
            hour % 12
        };
        let mut t = String::new();
        push_u64(&mut t, hour12 as u64);
        if hour >= 12 {
            push_str(&mut t, "pm");
        } else {
            push_str(&mut t, "am");
        }
        let tv = chars_of(t.as_str());
        crate::text::push_padded_right(&mut r, &tv, 4);
    } else {
        push_two_digits(&mut r, hour);
        push_char(&mut r, ':');
        push_two_digits(&mut r, minute);
    }
    r
}

/// The hour and minute of a local time, midnight when it does not parse.
pub open spec fn local_hour_minute(s: Seq<char>) -> (u32, u32) {
    match parsed_local_time(s) {
        Some(hm) => hm,
        None => (0, 0),
    }
}

/// The clock text of a local time `YYYY-MM-DD HH:MM:SS`.
pub fn format_time(local_datetime: &str, ampm: bool) -> (r: String)
    ensures
        r@ == clock_text(
            local_hour_minute(local_datetime@).0 as nat,
            local_hour_minute(local_datetime@).1 as nat,
            ampm,
        ),
{
    let (hour, minute) = match parse_local_hour_minute(local_datetime) {
        Some(hm) => hm,
        None => (0, 0),
    };
    format_hour_minute(hour, minute, ampm)
}

// ---------------------------------------------------------------------------
// Custom indicator

/// A forecast slot field as the custom indicator prints it.
pub enum FieldValue {
    /// A number, in the forecast's own notation.
    Number(String),
    /// A text.
    Text(String),
    /// Anything else (prints as nothing).
    Other,
}

/// One field of a forecast slot.
pub struct SlotField {
    pub key: String,
    pub value: FieldValue,
}

/// A forecast slot: its fields in the order in which the forecast lists them.
pub struct ForecastSlot {
    pub fields: Vec<SlotField>,
}

/// What a field prints as.
pub open spec fn field_text(v: FieldValue) -> Seq<char> {
    match v {
        FieldValue::Number(s) => s@,
        FieldValue::Text(s) => s@,
        FieldValue::Other => seq![],
    }
}

/// `s` with every occurrence of `p` replaced by `r`, scanning left to right
/// (Rust's `str::replace` for a non-empty pattern).
pub open spec fn replace_all(s: Seq<char>, p: Seq<char>, r: Seq<char>) -> Seq<char>
    decreases s.len(),
{
    if p.len() == 0 || s.len() < p.len() {
        s
    } else if s.take(p.len() as int) == p {
        r + replace_all(s.skip(p.len() as int), p, r)
    } else {
        seq![s[0]] + replace_all(s.drop_first(), p, r)
    }
}

/// The placeholder for a field: its key in braces.
pub open spec fn placeholder(key: Seq<char>) -> Seq<char> {
    seq!['{'] + key + seq!['}']
}

/// `expression` after substituting the first `k` fields, one after the other.
pub open spec fn substitute_fields(fields: Seq<SlotField>, expression: Seq<char>, k: nat) -> Seq<char>
    decreases k,
{
    if k == 0 {
        expression
    } else {
        let f = fields[k - 1];
        replace_all(
            substitute_fields(fields, expression, (k - 1) as nat),
            placeholder(f.key@),
            field_text(f.value),
        )
    }
}

/// The bar text for a custom expression: each field's placeholder replaced by
/// the field, then `{ICON}` by the weather icon; nothing when there is no slot.
pub open spec fn indicator_text(slot: Option<Seq<SlotField>>, expression: Seq<char>, icon: Seq<char>) -> Seq<char> {
    match slot {
        None => seq![],
        Some(fields) => replace_all(
            substitute_fields(fields, expression, fields.len()),
            "{ICON}"@,
            icon,
        ),
    }
}

fn matches_at(v: &Vec<char>, i: usize, p: &Vec<char>) -> (b: bool)
    requires
        i + p.len() <= v.len(),
    ensures
        b == (v@.subrange(i as int, i + p.len()) == p@),
{
    let mut k: usize = 0;
    while k < p.len()
        invariant
            k <= p.len(),
            i + p.len() <= v.len(),
            forall|j: int| 0 <= j < k ==> v@[i + j] == p@[j],
        decreases p.len() - k,
    {
        if v[i + k] != p[k] {
            assert(v@.subrange(i as int, i + p.len())[k as int] != p@[k as int]);
            return false;
        }
        k += 1;
    }
    assert(v@.subrange(i as int, i + p.len()) =~= p@);
    true
}

/// `s` with every occurrence of the non-empty pattern `p` replaced by `r`.
pub fn replace_all_str(s: &str, p: &str, r: &str) -> (out: String)
    ensures
        out@ == replace_all(s@, p@, r@),
{
    let v = chars_of(s);
    let pv = chars_of(p);
    let mut out = String::new();
    if pv.len() == 0 {
        push_chars(&mut out, &v, 0, v.len());
        assert(v@.subrange(0, v.len() as int) =~= v@);
        return out;
    }
    let mut i: usize = 0;
    assert(v@.skip(0) =~= v@);
    while i < v.len()
        invariant
            i <= v.len(),
            pv.len() > 0,
            out@ + replace_all(v@.skip(i as int), pv@, r@) == replace_all(v@, pv@, r@),
        decreases v.len() - i,
    {
        let ghost rest = v@.skip(i as int);
        if pv.len() <= v.len() - i && matches_at(&v, i, &pv) {
            assert(rest.take(pv.len() as int) =~= v@.subrange(i as int, i + pv.len()));
            assert(rest.skip(pv.len() as int) =~= v@.skip(i + pv.len()));
            push_str(&mut out, r);
            i += pv.len();
        } else {
            if pv.len() <= v.len() - i {
                assert(rest.take(pv.len() as int) =~= v@.subrange(i as int, i + pv.len()));
                assert(rest.drop_first() =~= v@.skip(i + 1));
                push_char(&mut out, v[i]);
                i += 1;
            } else {
                push_chars(&mut out, &v, i, v.len());
                assert(v@.subrange(i as int, v.len() as int) =~= rest);
                i = v.len();
                assert(v@.skip(i as int) =~= Seq::<char>::empty());
                assert(replace_all(Seq::<char>::empty(), pv@, r@) =~= Seq::<char>::empty());
                assert(out@ =~= replace_all(v@, pv@, r@));
            }
        }
    }
    assert(v@.skip(v.len() as int) =~= Seq::<char>::empty());
    assert(out@ =~= replace_all(v@, pv@, r@));
    out
}

/// A pattern that does not occur leaves the text as it is.
pub proof fn law_replace_absent_pattern(s: Seq<char>, p: Seq<char>, r: Seq<char>)
    requires
        forall|i: int| 0 <= i <= s.len() - p.len() ==> #[trigger] s.subrange(i, i + p.len()) != p,
    ensures
        replace_all(s, p, r) == s,
    decreases s.len(),
{
    if p.len() > 0 && s.len() >= p.len() {
        assert(s.subrange(0int, 0int + p.len()) != p);
        assert(s.take(p.len() as int) =~= s.subrange(0, p.len() as int));
        let t = s.drop_first();
        assert forall|i: int| 0 <= i <= t.len() - p.len() implies #[trigger] t.subrange(i, i + p.len())
            != p by {
            assert(t.subrange(i, i + p.len()) =~= s.subrange(i + 1, i + 1 + p.len()));
        }
        law_replace_absent_pattern(t, p, r);
        assert(seq![s[0]] + t =~= s);
    }
}

/// The bar text for a custom expression with `{KEY}` placeholders for the
/// slot's fields and `{ICON}` for the weather icon.
pub fn format_indicator(slot: Option<&ForecastSlot>, expression: &str, weather_icon: &str) -> (r: String)
    ensures
        r@ == indicator_text(
            match slot {
                Some(s) => Some(s.fields@),
                None => None,
            },
            expression@,
            weather_icon@,
        ),
{
    let fields = match slot {
        Some(s) => &s.fields,
        None => {
            return String::new();
        },
    };
    let mut result = String::from_str(expression);
    let mut k: usize = 0;
    while k < fields.len()
        invariant
            k <= fields.len(),
            result@ == substitute_fields(fields@, expression@, k as nat),
        decreases fields.len() - k,
    {
        let f = &fields[k];
        let mut ph = String::new();
        push_char(&mut ph, '{');
        push_str(&mut ph, f.key.as_str());
        push_char(&mut ph, '}');
        assert(ph@ =~= placeholder(f.key@));
        let formatted: &str = match &f.value {
            FieldValue::Number(s) => s.as_str(),
            FieldValue::Text(s) => s.as_str(),
            FieldValue::Other => "",
        };
        proof {
            reveal_strlit("");
        }
        assert(formatted@ == field_text(f.value));
        result = replace_all_str(result.as_str(), ph.as_str(), formatted);
        k += 1;
    }
    replace_all_str(result.as_str(), ICON_PLACEHOLDER, weather_icon)
}

} // verus!
