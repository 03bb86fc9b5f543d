//! The text of the terminal report: its head, the current conditions beside
//! the weather art, the hourly tables of the next two days, and its foot.
//! The chart panels between them are drawn by `display::terminal`.
use vstd::prelude::*;
use vstd::utf8::{decode_utf8, encode_utf8, is_ascii_chars, is_char_boundary};
use crate::cli::run::{int_or_zero, shown_temp, temp_unit, text_or};
use crate::color::{
    all_digits, desc_text, digits_value, dim, header, is_digit, paint_if, parse_unsigned, unsigned_digits, warning,
    weather_icon_line, weather_icon_line_spec,
};
use crate::weather_core::constants::ascii::ascii_icon;
use crate::weather_core::constants::get_ascii_icon;
use crate::format::{
    celsius_to_fahrenheit, parse_iso_hour_minute, parse_local_hour_minute, parsed_iso_local_time,
    localized_date, localized_date_label, parsed_local_time, push_two_digits, two_digits, wind_arrow, wind_sector,
};
use crate::lang::{
    day_after_tomorrow_text, source_text, tomorrow_text, weather_report_text, Lang,
};
use crate::text::{
    chars_of, decimal, int_decimal, pad_left, pad_right, push_char, push_chars, push_i64, push_padded_left,
    push_padded_right, push_str, push_u64,
};

verus! {

broadcast use vstd::string::group_string_axioms;

/// What the terminal report reads of one forecast slot, as plain values; a
/// field is `None` when the forecast lacks it. Decimal numbers come as the
/// program prints them.
pub struct ReportSlot {
    /// Local time, `YYYY-MM-DD HH:MM:SS`.
    pub local_datetime: Option<String>,
    /// Temperature in °C.
    pub t: Option<i64>,
    /// Weather description in the display language.
    pub desc: Option<String>,
    /// Direction the wind blows from, as a compass point.
    pub wd: Option<String>,
    /// Wind speed in km/h, rounded to a whole number.
    pub ws_rounded: String,
    /// Cloud cover in percent, rounded to a whole number.
    pub tcc_rounded: String,
    /// Precipitation in mm with one decimal.
    pub tp_one_decimal: String,
    /// Visibility, as text.
    pub vs_text: Option<String>,
}

// ---------------------------------------------------------------------------
// Head

/// The warning lines of the report: one per headline, then a blank line;
/// nothing without warnings.
pub open spec fn warning_lines(headlines: Seq<String>, color: bool, k: nat) -> Seq<char>
    decreases k,
{
    if k == 0 {
        Seq::empty()
    } else {
        warning_lines(headlines, color, (k - 1) as nat) + "     ⚠️  "@ + paint_if(
            color,
            headlines[k - 1]@,
            "\x1b[38;5;226m"@,
        ) + "\n"@
    }
}

/// The date of a local time as the report shows it: weekday, day and month
/// (`%a %d %b`) in the display language, `Unknown` when the text is no
/// valid time.
pub open spec fn report_date(local_datetime: Seq<char>, lang: Lang) -> Seq<char> {
    match localized_date(local_datetime, "%a %d %b"@, lang == Lang::ID) {
        Some(d) => d,
        None => "Unknown"@,
    }
}

/// The date that the report shows for a slot's local time (an absent time
/// counts as empty).
fn report_date_text(local_datetime: &Option<String>, lang: Lang) -> (r: String)
    ensures
        r@ == report_date(text_or(*local_datetime, Seq::empty()), lang),
{
    let time: &str = match local_datetime {
        Some(t) => t.as_str(),
        None => "",
    };
    proof {
        reveal_strlit("");
    }
    assert(time@ == text_or(*local_datetime, Seq::empty()));
    match localized_date_label(time, "%a %d %b", lang) {
        Some(d) => d,
        None => String::from_str("Unknown"),
    }
}

/// The head of the report: the title with the place, the date of the first
/// slot (whose local time is `first_time`), two blank lines, and the
/// warnings.
pub open spec fn report_head_spec(
    lang: Lang,
    location: Seq<char>,
    first_time: Option<String>,
    headlines: Seq<String>,
    color: bool,
) -> Seq<char> {
    "  "@ + paint_if(color, weather_report_text(lang) + ": "@ + location, "\x1b[1;37m"@) + "\n"@ + "  "@
        + report_date(text_or(first_time, Seq::empty()), lang) + "\n"@ + "\n"@ + "\n"@ + if headlines.len() == 0 {
        Seq::empty()
    } else {
        warning_lines(headlines, color, headlines.len()) + "\n"@
    }
}

/// The head of the report, for the first slot's local time `first_time`.
pub fn report_head(
    lang: Lang,
    location: &str,
    first_time: &Option<String>,
    headlines: &Vec<String>,
    color: bool,
) -> (r: String)
    ensures
        r@ == report_head_spec(lang, location@, *first_time, headlines@, color),
{
    let mut title = String::from_str(lang.weather_report());
    push_str(&mut title, ": ");
    push_str(&mut title, location);
    let mut out = String::from_str("  ");
    let h = header(title.as_str(), color);
    push_str(&mut out, h.as_str());
    push_str(&mut out, "\n");
    push_str(&mut out, "  ");
    let first_date = report_date_text(first_time, lang);
    push_str(&mut out, first_date.as_str());
    push_str(&mut out, "\n");
    push_str(&mut out, "\n");
    push_str(&mut out, "\n");
    if headlines.len() > 0 {
        let ghost start = out@;
        let mut k: usize = 0;
        while k < headlines.len()
            invariant
                k <= headlines.len(),
                out@ == start + warning_lines(headlines@, color, k as nat),
            decreases headlines.len() - k,
        {
            push_str(&mut out, "     ⚠️  ");
            let w = warning(headlines[k].as_str(), color);
            push_str(&mut out, w.as_str());
            push_str(&mut out, "\n");
            k += 1;
        }
        push_str(&mut out, "\n");
    }
    out
}

// ---------------------------------------------------------------------------
// Current conditions

/// An integer with its sign always shown (Rust's `{:+}`).
pub open spec fn signed_decimal(i: int) -> Seq<char> {
    if i < 0 {
        int_decimal(i)
    } else {
        "+"@ + decimal(i as nat)
    }
}

/// Line `k` of the weather art for `code`, coloured as the report shows it.
pub open spec fn art_of(code: u32, k: int, color: bool) -> Seq<char> {
    weather_icon_line_spec(ascii_icon(code)@[k]@, code, color)
}

/// The description line of the current conditions.
pub open spec fn desc_line(code: u32, desc: Seq<char>, color: bool) -> Seq<char> {
    "     "@ + art_of(code, 0, color) + "   "@ + weather_icon_line_spec(desc, code, color) + "\n"@
}

/// The temperature line: the temperature with its sign, the day's highest
/// in parentheses, the unit.
pub open spec fn temp_line_spec(code: u32, temp: int, max_temp: int, in_fahrenheit: bool, color: bool) -> Seq<
    char,
> {
    "     "@ + art_of(code, 1, color) + "  "@ + signed_decimal(temp) + "("@ + int_decimal(max_temp) + ") "@
        + temp_unit(in_fahrenheit) + "\n"@
}

/// The wind line: the arrow and the speed.
pub open spec fn wind_line(code: u32, wd_deg: int, ws_whole: int, color: bool) -> Seq<char> {
    "     "@ + art_of(code, 2, color) + "  "@ + wind_arrow(wind_sector(wd_deg)) + " "@ + int_decimal(ws_whole)
        + " "@ + "km/h"@ + "\n"@
}

/// A line of the weather art followed by a value.
pub open spec fn value_line(code: u32, k: int, value: Seq<char>, color: bool) -> Seq<char> {
    "     "@ + art_of(code, k, color) + "  "@ + value + "\n"@
}

/// The current conditions beside the weather art of the first slot:
/// description, temperature with the day's highest in parentheses, wind,
/// visibility and precipitation, then a blank line.
pub open spec fn current_conditions_spec(
    code: u32,
    desc: Seq<char>,
    temp: int,
    max_temp: int,
    in_fahrenheit: bool,
    wd_deg: int,
    ws_whole: int,
    vs_text: Seq<char>,
    tp_one_decimal: Seq<char>,
    color: bool,
) -> Seq<char> {
    desc_line(code, desc, color) + temp_line_spec(code, temp, max_temp, in_fahrenheit, color) + wind_line(
        code,
        wd_deg,
        ws_whole,
        color,
    ) + value_line(code, 3, vs_text, color) + value_line(code, 4, tp_one_decimal + " mm"@, color) + "\n"@
}

fn push_art(out: &mut String, code: u32, k: usize, color: bool)
    requires
        k < 5,
    ensures
        final(out)@ == old(out)@ + "     "@ + art_of(code, k as int, color),
{
    let icon = get_ascii_icon(code);
    push_str(out, "     ");
    let line = weather_icon_line(icon[k], code, color);
    push_str(out, line.as_str());
}

fn push_desc_line(out: &mut String, code: u32, desc: &str, color: bool)
    ensures
        final(out)@ == old(out)@ + desc_line(code, desc@, color),
{
    push_art(out, code, 0, color);
    push_str(out, "   ");
    let d = desc_text(desc, code, color);
    push_str(out, d.as_str());
    push_str(out, "\n");
}

fn push_temp_line(out: &mut String, code: u32, temp: i64, max_temp: i64, in_fahrenheit: bool, color: bool)
    ensures
        final(out)@ == old(out)@ + temp_line_spec(code, temp as int, max_temp as int, in_fahrenheit, color),
{
    push_art(out, code, 1, color);
    push_str(out, "  ");
    let mut t = String::new();
    if temp >= 0 {
        push_str(&mut t, "+");
    }
    push_i64(&mut t, temp);
    assert(t@ =~= signed_decimal(temp as int));
    push_str(out, t.as_str());
    push_str(out, "(");
    push_i64(out, max_temp);
    push_str(out, ") ");
    if in_fahrenheit {
        push_str(out, "°F");
    } else {
        push_str(out, "°C");
    }
    push_str(out, "\n");
}

fn push_wind_line(out: &mut String, code: u32, wd_deg: i64, ws_whole: i64, lang: Lang, color: bool)
    ensures
        final(out)@ == old(out)@ + wind_line(code, wd_deg as int, ws_whole as int, color),
{
    push_art(out, code, 2, color);
    push_str(out, "  ");
    push_str(out, crate::display::terminal::format_wind_dir_icon(wd_deg));
    push_str(out, " ");
    push_i64(out, ws_whole);
    push_str(out, " ");
    push_str(out, lang.wind_unit());
    push_str(out, "\n");
}

fn push_value_line(out: &mut String, code: u32, k: usize, value: &str, color: bool)
    requires
        k < 5,
    ensures
        final(out)@ == old(out)@ + value_line(code, k as int, value@, color),
{
    push_art(out, code, k, color);
    push_str(out, "  ");
    push_str(out, value);
    push_str(out, "\n");
}

/// The current conditions beside the weather art: `temp` and `max_temp`
/// are already in the shown unit, `ws_whole` is the wind speed cut to a
/// whole number.
pub fn current_conditions(
    code: u32,
    desc: &str,
    temp: i64,
    max_temp: i64,
    in_fahrenheit: bool,
    wd_deg: i64,
    ws_whole: i64,
    vs_text: &str,
    tp_one_decimal: &str,
    lang: Lang,
    color: bool,
) -> (r: String)
    ensures
        r@ == current_conditions_spec(
            code,
            desc@,
            temp as int,
            max_temp as int,
            in_fahrenheit,
            wd_deg as int,
            ws_whole as int,
            vs_text@,
            tp_one_decimal@,
            color,
        ),
{
    let mut out = String::new();
    push_desc_line(&mut out, code, desc, color);
    push_temp_line(&mut out, code, temp, max_temp, in_fahrenheit, color);
    push_wind_line(&mut out, code, wd_deg, ws_whole, lang, color);
    push_value_line(&mut out, code, 3, vs_text, color);
    let mut tp = String::from_str(tp_one_decimal);
    push_str(&mut tp, " mm");
    push_value_line(&mut out, code, 4, tp.as_str(), color);
    push_str(&mut out, "\n");
    out
}

// ---------------------------------------------------------------------------
// Hourly tables

/// The clock time `HH:MM` of a slot, `??:??` when its time is not valid.
pub open spec fn table_time(s: ReportSlot) -> Seq<char> {
    match s.local_datetime {
        Some(t) => match parsed_local_time(t@) {
            Some(hm) => two_digits(hm.0 as nat) + ":"@ + two_digits(hm.1 as nat),
            None => "??:??"@,
        },
        None => "??:??"@,
    }
}

// ---------------------------------------------------------------------------
// Chart hours

/// The text of bytes 11 to 13 of the UTF-8 form of `s`: where a time
/// `YYYY-MM-DD HH...` holds its hour.
pub open spec fn hour_field(s: Seq<char>) -> Seq<char> {
    decode_utf8(encode_utf8(s).subrange(11, 13))
}

/// The hour label of a chart slot with the local time `s`: the hour in two
/// digits when `s` is a time `%Y-%m-%d %H:%M:%S` or `%Y-%m-%dT%H:%M:%S`;
/// else, for a text of at least 13 bytes, its bytes 11 to 13 when Rust's
/// `u32` parser reads them, and `??` otherwise. Nothing when those bytes
/// cannot be cut out because byte 11 or byte 13 falls inside a character.
pub open spec fn chart_hour_spec(s: Seq<char>) -> Option<Seq<char>> {
    match parsed_local_time(s) {
        Some(hm) => Some(two_digits(hm.0 as nat)),
        None => match parsed_iso_local_time(s) {
            Some(hm) => Some(two_digits(hm.0 as nat)),
            None => {
                let b = encode_utf8(s);
                if b.len() < 13 {
                    Some("??"@)
                } else if !(is_char_boundary(b, 11) && is_char_boundary(b, 13)) {
                    None
                } else if parse_unsigned(hour_field(s), u32::MAX as nat) is Some {
                    Some(hour_field(s))
                } else {
                    Some("??"@)
                }
            },
        },
    }
}

/// Two ASCII bytes read as text are those two characters.
proof fn lemma_decode_two_ascii(x: u8, y: u8)
    requires
        x < 128,
        y < 128,
    ensures
        decode_utf8(seq![x, y]) == seq![x as char, y as char],
{
    let cs = seq![x as char, y as char];
    assert(is_ascii_chars(cs));
    vstd::utf8::is_ascii_chars_encode_utf8(cs);
    assert(encode_utf8(cs) =~= seq![x, y]);
    vstd::utf8::encode_utf8_decode_utf8(cs);
}

/// Bytes that a `u32` parser reads are ASCII.
proof fn lemma_hour_field_ascii(s: Seq<char>)
    requires
        encode_utf8(s).len() >= 13,
        is_char_boundary(encode_utf8(s), 11),
        is_char_boundary(encode_utf8(s), 13),
        parse_unsigned(hour_field(s), u32::MAX as nat) is Some,
    ensures
        encode_utf8(s)[11] < 128,
        encode_utf8(s)[12] < 128,
{
    let b = encode_utf8(s);
    vstd::utf8::encode_utf8_valid_utf8(s);
    vstd::utf8::valid_utf8_split(b, 11);
    let q = b.subrange(11, b.len() as int);
    if b.len() > 13 {
        vstd::utf8::is_char_boundary_iff_not_is_continuation_byte(b, 13);
        vstd::utf8::is_char_boundary_iff_not_is_continuation_byte(q, 2);
        assert(q[2] == b[13]);
    } else {
        assert(q.len() == 2);
        vstd::utf8::is_char_boundary_start_end_of_seq(q);
    }
    vstd::utf8::valid_utf8_split(q, 2);
    let sub = q.subrange(0, 2);
    assert(sub =~= b.subrange(11, 13));
    let h = decode_utf8(sub);
    vstd::utf8::decode_utf8_encode_utf8(sub);
    let d = unsigned_digits(h);
    assert forall|i: int| 0 <= i < h.len() implies '\0' <= #[trigger] h[i] <= '\u{7f}' by {
        if h.len() > 0 && h[0] == '+' {
            if i > 0 {
                assert(h[i] == d[i - 1]);
                assert(is_digit(d[i - 1]));
            }
        } else {
            assert(h[i] == d[i]);
            assert(is_digit(d[i]));
        }
    }
    assert(is_ascii_chars(h));
    vstd::utf8::is_ascii_chars_encode_utf8(h);
    vstd::utf8::is_ascii_chars_nat_bound(h);
    assert(encode_utf8(h) == sub);
    assert(sub[0] == b[11]);
    assert(sub[1] == b[12]);
    assert(h[0] as u8 == sub[0]);
    assert(h[1] as u8 == sub[1]);
}

fn is_digit_byte(x: u8) -> (r: bool)
    ensures
        r == (48 <= x <= 57),
{
    48 <= x && x <= 57
}

/// The hour label of a chart slot with the local time `local_datetime`;
/// nothing where cutting out its bytes 11 to 13 would fall inside a
/// character.
pub fn chart_hour(local_datetime: &str) -> (r: Option<String>)
    ensures
        match r {
            Some(h) => chart_hour_spec(local_datetime@) == Some(h@),
            None => chart_hour_spec(local_datetime@) is None,
        },
{
    if let Some(hm) = parse_local_hour_minute(local_datetime) {
        let mut h = String::new();
        push_two_digits(&mut h, hm.0);
        return Some(h);
    }
    if let Some(hm) = parse_iso_hour_minute(local_datetime) {
        let mut h = String::new();
        push_two_digits(&mut h, hm.0);
        return Some(h);
    }
    proof {
        reveal_strlit("??");
    }
    let b = local_datetime.as_bytes();
    let n = b.len();
    if n < 13 {
        return Some(String::from_str("??"));
    }
    if !(local_datetime.is_char_boundary(11) && local_datetime.is_char_boundary(13)) {
        return None;
    }
    let x = b[11];
    let y = b[12];
    let ghost s = local_datetime@;
    proof {
        assert(b@ == encode_utf8(s));
        assert(encode_utf8(s).subrange(11, 13) =~= seq![x, y]);
    }
    if x < 128 && y < 128 {
        proof {
            lemma_decode_two_ascii(x, y);
            let h = hour_field(s);
            assert(h == seq![x as char, y as char]);
        }
        if (is_digit_byte(x) || x == 43) && is_digit_byte(y) {
            let mut h = String::new();
            push_char(&mut h, x as char);
            push_char(&mut h, y as char);
            proof {
                let f = hour_field(s);
                let d = unsigned_digits(f);
                assert(h@ =~= f);
                if x == 43 {
                    assert(d =~= seq![y as char]);
                    assert(all_digits(d));
                    reveal_with_fuel(digits_value, 2);
                } else {
                    assert(d =~= f);
                    assert(all_digits(d));
                    reveal_with_fuel(digits_value, 3);
                }
            }
            Some(h)
        } else {
            proof {
                let f = hour_field(s);
                let d = unsigned_digits(f);
                if x == 43 {
                    assert(d =~= seq![y as char]);
                    assert(!is_digit(d[0]));
                } else {
                    assert(d =~= f);
                    assert(!is_digit(d[0]) || !is_digit(d[1]));
                }
            }
            Some(String::from_str("??"))
        }
    } else {
        proof {
            if parse_unsigned(hour_field(s), u32::MAX as nat) is Some {
                lemma_hour_field_ascii(s);
            }
        }
        Some(String::from_str("??"))
    }
}

/// The temperature column of a table row.
pub open spec fn table_temp(s: ReportSlot, in_fahrenheit: bool) -> Seq<char> {
    int_decimal(shown_temp(int_or_zero(s.t), in_fahrenheit)) + temp_unit(in_fahrenheit)
}

/// The wind column of a table row.
pub open spec fn table_wind(s: ReportSlot) -> Seq<char> {
    text_or(s.wd, "?"@) + " "@ + s.ws_rounded@ + " "@ + "km/h"@
}

/// Time and temperature columns of a table row.
pub open spec fn row_start(s: ReportSlot, in_fahrenheit: bool) -> Seq<char> {
    "  "@ + pad_left(table_time(s), 5) + "  "@ + pad_right(table_temp(s, in_fahrenheit), 6)
}

/// Description and wind columns of a table row.
pub open spec fn row_middle(s: ReportSlot) -> Seq<char> {
    "  "@ + pad_right(text_or(s.desc, "?"@), 20) + "  "@ + pad_right(table_wind(s), 15)
}

/// Cloud cover, precipitation and visibility columns of a table row.
pub open spec fn row_end(s: ReportSlot) -> Seq<char> {
    "  "@ + pad_left(s.tcc_rounded@ + "%"@, 5) + "  "@ + pad_left(s.tp_one_decimal@ + " mm"@, 7) + "  "@
        + pad_right(text_or(s.vs_text, "?"@), 8) + "\n"@
}

/// A table row: time, temperature, description, wind, cloud cover,
/// precipitation and visibility in fixed-width columns.
pub open spec fn table_row_spec(s: ReportSlot, in_fahrenheit: bool) -> Seq<char> {
    row_start(s, in_fahrenheit) + row_middle(s) + row_end(s)
}

fn push_padded_str(out: &mut String, s: &str, w: usize, right_aligned: bool)
    ensures
        final(out)@ == old(out)@ + if right_aligned {
            pad_left(s@, w as nat)
        } else {
            pad_right(s@, w as nat)
        },
{
    let v = chars_of(s);
    if right_aligned {
        push_padded_left(out, &v, w);
    } else {
        push_padded_right(out, &v, w);
    }
}

fn table_time_text(s: &ReportSlot) -> (r: String)
    ensures
        r@ == table_time(*s),
{
    match &s.local_datetime {
        Some(t) => match crate::format::parse_local_hour_minute(t.as_str()) {
            Some((h, m)) => {
                let mut r = String::new();
                push_two_digits(&mut r, h);
                push_str(&mut r, ":");
                push_two_digits(&mut r, m);
                r
            },
            None => String::from_str("??:??"),
        },
        None => String::from_str("??:??"),
    }
}

fn opt_text(field: &Option<String>) -> (r: String)
    ensures
        r@ == text_or(*field, "?"@),
{
    match field {
        Some(s) => String::from_str(s.as_str()),
        None => String::from_str("?"),
    }
}

fn push_row_start(out: &mut String, s: &ReportSlot, in_fahrenheit: bool)
    ensures
        final(out)@ == old(out)@ + row_start(*s, in_fahrenheit),
{
    push_str(out, "  ");
    let time = table_time_text(s);
    push_padded_str(out, time.as_str(), 5, true);
    push_str(out, "  ");
    let c = match s.t {
        Some(v) => v,
        None => 0,
    };
    let shown = if in_fahrenheit {
        celsius_to_fahrenheit(c)
    } else {
        c
    };
    let mut temp = String::new();
    push_i64(&mut temp, shown);
    if in_fahrenheit {
        push_str(&mut temp, "°F");
    } else {
        push_str(&mut temp, "°C");
    }
    push_padded_str(out, temp.as_str(), 6, false);
}

fn push_row_middle(out: &mut String, s: &ReportSlot, lang: Lang)
    ensures
        final(out)@ == old(out)@ + row_middle(*s),
{
    push_str(out, "  ");
    let desc = opt_text(&s.desc);
    push_padded_str(out, desc.as_str(), 20, false);
    push_str(out, "  ");
    let mut wind = opt_text(&s.wd);
    push_str(&mut wind, " ");
    push_str(&mut wind, s.ws_rounded.as_str());
    push_str(&mut wind, " ");
    push_str(&mut wind, lang.wind_unit());
    push_padded_str(out, wind.as_str(), 15, false);
}

fn push_row_end(out: &mut String, s: &ReportSlot)
    ensures
        final(out)@ == old(out)@ + row_end(*s),
{
    push_str(out, "  ");
    let mut cloud = String::from_str(s.tcc_rounded.as_str());
    push_str(&mut cloud, "%");
    push_padded_str(out, cloud.as_str(), 5, true);
    push_str(out, "  ");
    let mut precip = String::from_str(s.tp_one_decimal.as_str());
    push_str(&mut precip, " mm");
    push_padded_str(out, precip.as_str(), 7, true);
    push_str(out, "  ");
    let vis = opt_text(&s.vs_text);
    push_padded_str(out, vis.as_str(), 8, false);
    push_str(out, "\n");
}

/// Appends a table row for a slot.
pub fn push_table_row(out: &mut String, s: &ReportSlot, in_fahrenheit: bool, lang: Lang)
    ensures
        final(out)@ == old(out)@ + table_row_spec(*s, in_fahrenheit),
{
    push_row_start(out, s, in_fahrenheit);
    push_row_middle(out, s, lang);
    push_row_end(out, s);
}

/// The column headings of a day's table.
pub open spec fn column_titles() -> Seq<char> {
    pad_left("Time"@, 5) + "  "@ + pad_right("Temp"@, 6) + "  "@ + pad_right("Desc"@, 20) + "  "@ + pad_right(
        "Wind"@,
        15,
    ) + "  "@ + pad_left("Cloud"@, 5) + "  "@ + pad_left("Precip"@, 7) + "  "@ + pad_right("Vis"@, 8)
}

/// The rule under the column headings.
pub open spec fn column_rule() -> Seq<char> {
    "-----  ------  --------------------  ---------------  -----  -------  --------"@
}

/// The heading of a day's table: the day's name and date, then the column
/// headings and the rule, dimmed.
pub open spec fn table_head(day: Seq<char>, date: Seq<char>, color: bool) -> Seq<char> {
    "  "@ + paint_if(color, day + ", "@ + date, "\x1b[1;37m"@) + "\n"@ + "  "@ + paint_if(
        color,
        column_titles(),
        "\x1b[2m"@,
    ) + "\n"@ + "  "@ + paint_if(color, column_rule(), "\x1b[2m"@) + "\n"@
}

/// The rows of the first `k` slots.
pub open spec fn table_rows(slots: Seq<ReportSlot>, in_fahrenheit: bool, k: nat) -> Seq<char>
    decreases k,
{
    if k == 0 {
        Seq::empty()
    } else {
        table_rows(slots, in_fahrenheit, (k - 1) as nat) + table_row_spec(slots[k - 1], in_fahrenheit)
    }
}

/// The table of one day: its heading with the date of its first slot
/// (`Unknown` when that is not a valid time), a row per slot, a blank
/// line; nothing for a day without slots.
pub open spec fn day_table_spec(
    day: Seq<char>,
    slots: Seq<ReportSlot>,
    lang: Lang,
    in_fahrenheit: bool,
    color: bool,
) -> Seq<char> {
    if slots.len() == 0 {
        Seq::empty()
    } else {
        table_head(day, report_date(text_or(slots[0].local_datetime, Seq::empty()), lang), color) + table_rows(
            slots,
            in_fahrenheit,
            slots.len(),
        ) + "\n"@
    }
}

/// The tables of tomorrow and the day after (the second and third forecast
/// groups, where there are such).
pub open spec fn forecast_tables_spec(
    groups: Seq<Seq<ReportSlot>>,
    lang: Lang,
    in_fahrenheit: bool,
    color: bool,
) -> Seq<char> {
    (if groups.len() > 1 {
        day_table_spec(tomorrow_text(lang), groups[1], lang, in_fahrenheit, color)
    } else {
        Seq::empty()
    }) + (if groups.len() > 2 {
        day_table_spec(day_after_tomorrow_text(lang), groups[2], lang, in_fahrenheit, color)
    } else {
        Seq::empty()
    })
}

fn push_table_head(out: &mut String, day: &str, date: &str, color: bool)
    ensures
        final(out)@ == old(out)@ + table_head(day@, date@, color),
{
    let mut title = String::from_str(day);
    push_str(&mut title, ", ");
    push_str(&mut title, date);
    push_str(out, "  ");
    let h = header(title.as_str(), color);
    push_str(out, h.as_str());
    push_str(out, "\n");
    let mut titles = String::new();
    push_padded_str(&mut titles, "Time", 5, true);
    push_str(&mut titles, "  ");
    push_padded_str(&mut titles, "Temp", 6, false);
    push_str(&mut titles, "  ");
    push_padded_str(&mut titles, "Desc", 20, false);
    push_str(&mut titles, "  ");
    push_padded_str(&mut titles, "Wind", 15, false);
    push_str(&mut titles, "  ");
    push_padded_str(&mut titles, "Cloud", 5, true);
    push_str(&mut titles, "  ");
    push_padded_str(&mut titles, "Precip", 7, true);
    push_str(&mut titles, "  ");
    push_padded_str(&mut titles, "Vis", 8, false);
    push_str(out, "  ");
    let t = dim(titles.as_str(), color);
    push_str(out, t.as_str());
    push_str(out, "\n");
    push_str(out, "  ");
    let r = dim("-----  ------  --------------------  ---------------  -----  -------  --------", color);
    push_str(out, r.as_str());
    push_str(out, "\n");
}

fn push_day_table(out: &mut String, day: &str, slots: &Vec<ReportSlot>, in_fahrenheit: bool, lang: Lang, color: bool)
    ensures
        final(out)@ == old(out)@ + day_table_spec(day@, slots@, lang, in_fahrenheit, color),
{
    if slots.len() == 0 {
        return;
    }
    let date = report_date_text(&slots[0].local_datetime, lang);
    push_table_head(out, day, date.as_str(), color);
    let ghost start = out@;
    let mut k: usize = 0;
    while k < slots.len()
        invariant
            k <= slots.len(),
            out@ == start + table_rows(slots@, in_fahrenheit, k as nat),
        decreases slots.len() - k,
    {
        push_table_row(out, &slots[k], in_fahrenheit, lang);
        k += 1;
    }
    push_str(out, "\n");
}

/// The hourly tables of tomorrow and the day after.
pub fn forecast_tables(groups: &Vec<Vec<ReportSlot>>, lang: Lang, in_fahrenheit: bool, color: bool) -> (r:
    String)
    ensures
        r@ == forecast_tables_spec(groups@.map_values(|g: Vec<ReportSlot>| g@), lang, in_fahrenheit, color),
{
    let ghost gv = groups@.map_values(|g: Vec<ReportSlot>| g@);
    let mut out = String::new();
    if groups.len() > 1 {
        assert(gv[1] == groups@[1]@);
        push_day_table(&mut out, lang.tomorrow(), &groups[1], in_fahrenheit, lang, color);
    }
    if groups.len() > 2 {
        assert(gv[2] == groups@[2]@);
        push_day_table(&mut out, lang.day_after_tomorrow(), &groups[2], in_fahrenheit, lang, color);
    }
    out
}

/// The foot of the report: a blank line and the data source, dimmed.
pub open spec fn report_foot_spec(lang: Lang, color: bool) -> Seq<char> {
    "\n"@ + "  "@ + paint_if(color, source_text(lang), "\x1b[2m"@) + "\n"@
}

/// The foot of the report.
pub fn report_foot(lang: Lang, color: bool) -> (r: String)
    ensures
        r@ == report_foot_spec(lang, color),
{
    let mut out = String::from_str("\n");
    push_str(&mut out, "  ");
    let d = dim(lang.source(), color);
    push_str(&mut out, d.as_str());
    push_str(&mut out, "\n");
    out
}

} // verus!
