//! The Waybar output of a run: the bar text, the tooltip and the CSS class,
//! built from the forecast values that the program has read.
use vstd::prelude::*;
use crate::color::{ansi_to_pango, ansi_to_pango_spec, split_chars, split_on, views};
use crate::constants::ascii::ascii_icon;
use crate::constants::{CLOUD_COVER_ICON, PRECIPITATION_ICON, VISIBILITY_ICON};
use crate::constants::get_ascii_icon;
use crate::format::{
    celsius_to_fahrenheit, fahrenheit, format_indicator, format_temp, format_wind_dir_icon,
    get_weather_icon, indicator_text, push_two_digits, temp_text, two_digits, weather_icon,
    weather_icon_nerd, wind_arrow, wind_arrow_nerd, wind_sector, ForecastSlot, localized_date,
    localized_date_label, opt_text,
};
use crate::lang::{
    cloud_cover_text, day_after_tomorrow_text, humidity_text, precipitation_text, source_text, today_text,
    tomorrow_text, visibility_text, weather_report_text, wind_text, Lang,
};
use crate::text::{
    chars_of, int_decimal, push_char, push_chars, push_i64, push_str, string_of, trim, trim_bounds,
};
use crate::sort::{is_stable_order, law_stable_order_unique, stable_order};
use crate::util::{escape_pango, escape_spec};
use crate::weather_core::error::CuacaError;

verus! {

broadcast use vstd::string::group_string_axioms;

/// What the Waybar output reads of one forecast slot, as plain values; a
/// field is `None` when the forecast lacks it. Wind speed and precipitation
/// are decimal numbers and come as the program prints them.
pub struct SlotInfo {
    /// Local time, `YYYY-MM-DD HH:MM:SS`.
    pub local_datetime: Option<String>,
    /// BMKG weather code.
    pub weather: Option<u64>,
    /// Temperature in °C.
    pub t: Option<i64>,
    /// Relative humidity in percent.
    pub hu: Option<i64>,
    /// Cloud cover in percent.
    pub tcc: Option<i64>,
    /// Direction the wind blows from, in degrees.
    pub wd_deg: Option<i64>,
    /// Direction the wind blows from, as a compass point.
    pub wd: Option<String>,
    /// Weather description in the display language.
    pub desc: Option<String>,
    /// Visibility, as text.
    pub vs_text: Option<String>,
    /// Wind speed in km/h, as printed (`0` when the slot has none).
    pub ws: String,
    /// Precipitation in mm, as printed (`0` when the slot has none).
    pub tp: String,
    /// Precipitation in mm with one decimal (`0.0` when the slot has none).
    pub tp_one_decimal: String,
}

/// How the output is shown: the language, nerd-font symbols in place of
/// emoji, 12-hour times, degrees Fahrenheit, and whether the per-slot lines
/// leave out cloud cover, precipitation and visibility.
#[derive(Clone, Copy)]
pub struct BarStyle {
    pub lang: Lang,
    pub nerd: bool,
    pub ampm: bool,
    pub fahrenheit: bool,
    pub hide_details: bool,
}

/// The text of an optional field, `default` when it is absent.
pub open spec fn text_or(field: Option<String>, default: Seq<char>) -> Seq<char> {
    match field {
        Some(s) => s@,
        None => default,
    }
}

/// An optional whole number, 0 when absent.
pub open spec fn int_or_zero(field: Option<i64>) -> int {
    match field {
        Some(v) => v as int,
        None => 0,
    }
}

/// The weather code of a slot: its `weather` number cut to 32 bits, 0 when
/// absent.
pub open spec fn weather_code(s: SlotInfo) -> u32 {
    match s.weather {
        Some(w) => w as u32,
        None => 0,
    }
}

/// The weather icon for a code.
pub open spec fn icon_of(code: u32, nerd: bool) -> Seq<char> {
    if nerd {
        weather_icon_nerd(code)
    } else {
        weather_icon(code)
    }
}

/// The wind arrow for a direction in degrees.
pub open spec fn arrow_of(degrees: int, nerd: bool) -> Seq<char> {
    if nerd {
        wind_arrow_nerd(wind_sector(degrees))
    } else {
        wind_arrow(wind_sector(degrees))
    }
}

/// A temperature in °C as shown: converted to °F when asked.
pub open spec fn shown_temp(celsius: int, in_fahrenheit: bool) -> int {
    if in_fahrenheit {
        fahrenheit(celsius)
    } else {
        celsius
    }
}

/// The unit of shown temperatures.
pub open spec fn temp_unit(in_fahrenheit: bool) -> Seq<char> {
    if in_fahrenheit {
        "°F"@
    } else {
        "°C"@
    }
}

fn weather_code_of(slot: &SlotInfo) -> (code: u32)
    ensures
        code == weather_code(*slot),
{
    match slot.weather {
        Some(w) => w as u32,
        None => 0,
    }
}

fn int_or_zero_of(field: Option<i64>) -> (v: i64)
    ensures
        v == int_or_zero(field),
{
    match field {
        Some(v) => v,
        None => 0,
    }
}

fn push_text_or(out: &mut String, field: &Option<String>, default: &str)
    ensures
        final(out)@ == old(out)@ + text_or(*field, default@),
{
    match field {
        Some(s) => push_str(out, s.as_str()),
        None => push_str(out, default),
    }
}

fn push_escaped_or(out: &mut String, field: &Option<String>, default: &str)
    ensures
        final(out)@ == old(out)@ + escape_spec(text_or(*field, default@)),
{
    let e = match field {
        Some(s) => escape_pango(s.as_str()),
        None => escape_pango(default),
    };
    push_str(out, e.as_str());
}

/// The temperature of a slot as shown.
pub fn shown_temperature(slot: &SlotInfo, in_fahrenheit: bool) -> (t: i64)
    ensures
        t == shown_temp(int_or_zero(slot.t), in_fahrenheit),
{
    let c = int_or_zero_of(slot.t);
    if in_fahrenheit {
        celsius_to_fahrenheit(c)
    } else {
        c
    }
}

// ---------------------------------------------------------------------------
// Bar text

/// The bar text: the weather icon and the temperature, or the custom
/// expression filled in from the first slot; with a warning sign in front
/// when warnings are shown.
pub open spec fn bar_text_spec(
    icon: Seq<char>,
    temp: int,
    custom: Option<Seq<char>>,
    fields: Option<Seq<crate::format::SlotField>>,
    warned: bool,
) -> Seq<char> {
    let text = match custom {
        None => icon + " "@ + temp_text(temp),
        Some(expression) => indicator_text(fields, expression, icon),
    };
    if warned {
        "⚠️ "@ + text
    } else {
        text
    }
}

/// The bar text for the first slot (its weather icon, its shown
/// temperature, and its fields for a custom expression); `warned` when
/// warnings were asked for and there are some.
pub fn bar_text(
    icon: &str,
    temp: i64,
    custom: Option<&str>,
    fields: Option<&ForecastSlot>,
    warned: bool,
) -> (r: String)
    ensures
        r@ == bar_text_spec(
            icon@,
            temp as int,
            match custom {
                Some(e) => Some(e@),
                None => None,
            },
            match fields {
                Some(f) => Some(f.fields@),
                None => None,
            },
            warned,
        ),
{
    let text = match custom {
        None => {
            let mut t = String::from_str(icon);
            push_str(&mut t, " ");
            let ft = format_temp(temp);
            push_str(&mut t, ft.as_str());
            t
        },
        Some(expression) => format_indicator(fields, expression, icon),
    };
    if warned {
        let mut r = String::from_str("⚠️ ");
        push_str(&mut r, text.as_str());
        r
    } else {
        text
    }
}

// ---------------------------------------------------------------------------
// Location

/// The non-empty parts among `parts`, joined by `, `.
pub open spec fn joined_nonempty(parts: Seq<Seq<char>>) -> Seq<char>
    decreases parts.len(),
{
    if parts.len() == 0 {
        Seq::empty()
    } else {
        let rest = joined_nonempty(parts.drop_last());
        let p = parts.last();
        if p.len() == 0 {
            rest
        } else if rest.len() == 0 {
            p
        } else {
            rest + ", "@ + p
        }
    }
}

fn push_part(out: &mut String, part: &str)
    ensures
        final(out)@ == if part@.len() == 0 {
            old(out)@
        } else if old(out)@.len() == 0 {
            part@
        } else {
            old(out)@ + ", "@ + part@
        },
{
    if part.unicode_len() == 0 {
        return;
    }
    if out.unicode_len() > 0 {
        push_str(out, ", ");
    }
    push_str(out, part);
}

/// The place of the forecast: village, district, regency and province,
/// leaving out the empty ones, joined by `, `.
pub fn location_label(desa: &str, kecamatan: &str, kotkab: &str, provinsi: &str) -> (r: String)
    ensures
        r@ == joined_nonempty(seq![desa@, kecamatan@, kotkab@, provinsi@]),
{
    let ghost parts = seq![desa@, kecamatan@, kotkab@, provinsi@];
    let mut out = String::new();
    push_part(&mut out, desa);
    assert(parts.take(1).drop_last() =~= Seq::<Seq<char>>::empty());
    assert(parts.take(1).last() == desa@);
    assert(joined_nonempty(Seq::<Seq<char>>::empty()) == Seq::<char>::empty());
    assert(out@ == joined_nonempty(parts.take(1)));
    push_part(&mut out, kecamatan);
    assert(parts.take(2).drop_last() =~= parts.take(1));
    assert(parts.take(2).last() == kecamatan@);
    assert(out@ == joined_nonempty(parts.take(2)));
    push_part(&mut out, kotkab);
    assert(parts.take(3).drop_last() =~= parts.take(2));
    assert(parts.take(3).last() == kotkab@);
    assert(out@ == joined_nonempty(parts.take(3)));
    push_part(&mut out, provinsi);
    assert(parts.take(4).drop_last() =~= parts.take(3));
    assert(parts.take(4).last() == provinsi@);
    assert(parts.take(4) =~= parts);
    out
}

// ---------------------------------------------------------------------------
// CSS class

/// What Rust's `str::to_lowercase` gives for a text.
pub uninterp spec fn lowercased(s: Seq<char>) -> Seq<char>;

/// The lowercase form of a text (std `str::to_lowercase`, by the Unicode
/// `Lowercase` mapping). The contract names the result and states no more
/// of it.
#[verifier::external_body]
fn to_lowercase(s: &str) -> (r: String)
    ensures
        r@ == lowercased(s@),
{
    s.to_lowercase()
}

/// `s` with every space replaced by an underscore.
pub open spec fn spaces_to_underscores(s: Seq<char>) -> Seq<char> {
    s.map_values(|c: char| if c == ' ' { '_' } else { c })
}

/// The CSS class of the bar: the description in lower case, up to its first
/// comma, trimmed, with spaces turned into underscores; `unknown` when the
/// first slot has no description.
pub open spec fn css_class_spec(desc: Option<String>) -> Seq<char> {
    spaces_to_underscores(trim(split_on(lowercased(text_or(desc, "unknown"@)), ',')[0]))
}

/// A CSS class never holds a space.
pub proof fn law_css_class_has_no_spaces(desc: Option<String>)
    ensures
        forall|i: int| 0 <= i < css_class_spec(desc).len() ==> css_class_spec(desc)[i] != ' ',
{
}

/// The CSS class of the bar for the first slot's description.
pub fn css_class(desc: &Option<String>) -> (r: String)
    ensures
        r@ == css_class_spec(*desc),
{
    let lower = match desc {
        Some(d) => to_lowercase(d.as_str()),
        None => to_lowercase("unknown"),
    };
    let chars = chars_of(lower.as_str());
    let pieces = split_chars(&chars, 0, chars.len(), ',');
    assert(chars@.subrange(0, chars.len() as int) =~= chars@);
    proof {
        crate::color::lemma_split_nonempty(lower@, ',', Seq::empty());
    }
    assert(views(pieces@)[0] == pieces@[0]@);
    let first = &pieces[0];
    let (a, b) = trim_bounds(first);
    let mut out: Vec<char> = Vec::new();
    let mut k = a;
    while k < b
        invariant
            a <= k <= b <= first.len(),
            out@ == spaces_to_underscores(first@.subrange(a as int, k as int)),
        decreases b - k,
    {
        let c = first[k];
        out.push(if c == ' ' { '_' } else { c });
        assert(spaces_to_underscores(first@.subrange(a as int, k + 1)) =~= spaces_to_underscores(
            first@.subrange(a as int, k as int),
        ).push(if c == ' ' { '_' } else { c }));
        k += 1;
    }
    string_of(&out)
}

// ---------------------------------------------------------------------------
// Tooltip lines

/// The five detail lines beside the weather art: humidity, cloud cover,
/// precipitation, wind and visibility of the first slot.
pub open spec fn detail_lines_spec(s: SlotInfo, style: BarStyle) -> Seq<Seq<char>> {
    seq![
        humidity_text(style.lang) + ": "@ + int_decimal(int_or_zero(s.hu)) + "%"@,
        cloud_cover_text(style.lang) + ": "@ + int_decimal(int_or_zero(s.tcc)) + "%"@,
        precipitation_text(style.lang) + ": "@ + s.tp_one_decimal@ + " mm"@,
        wind_text(style.lang) + ": "@ + arrow_of(int_or_zero(s.wd_deg), style.nerd) + " "@ + text_or(
            s.wd,
            "?"@,
        ) + " "@ + s.ws@ + " "@ + "km/h"@,
        visibility_text(style.lang) + ": "@ + escape_spec(text_or(s.vs_text, "?"@)),
    ]
}

/// The detail lines beside the weather art.
pub fn detail_lines(slot: &SlotInfo, style: BarStyle) -> (lines: Vec<String>)
    ensures
        lines.len() == 5,
        lines@.map_values(|l: String| l@) == detail_lines_spec(*slot, style),
{
    let lang = style.lang;
    let mut hu = String::from_str(lang.humidity());
    push_str(&mut hu, ": ");
    push_i64(&mut hu, int_or_zero_of(slot.hu));
    push_str(&mut hu, "%");
    let mut tcc = String::from_str(lang.cloud_cover());
    push_str(&mut tcc, ": ");
    push_i64(&mut tcc, int_or_zero_of(slot.tcc));
    push_str(&mut tcc, "%");
    let mut tp = String::from_str(lang.precipitation());
    push_str(&mut tp, ": ");
    push_str(&mut tp, slot.tp_one_decimal.as_str());
    push_str(&mut tp, " mm");
    let mut wind = String::from_str(lang.wind());
    push_str(&mut wind, ": ");
    push_str(&mut wind, format_wind_dir_icon(int_or_zero_of(slot.wd_deg), style.nerd));
    push_str(&mut wind, " ");
    push_text_or(&mut wind, &slot.wd, "?");
    push_str(&mut wind, " ");
    push_str(&mut wind, slot.ws.as_str());
    push_str(&mut wind, " ");
    push_str(&mut wind, lang.wind_unit());
    let mut vs = String::from_str(lang.visibility());
    push_str(&mut vs, ": ");
    push_escaped_or(&mut vs, &slot.vs_text, "?");
    let lines = vec![hu, tcc, tp, wind, vs];
    assert(lines@.map_values(|l: String| l@) =~= detail_lines_spec(*slot, style));
    lines
}

/// One line of the weather art with its detail: the art (in Pango markup)
/// in a monospace span unless it is empty, a space, the detail.
pub open spec fn art_line(art: Seq<char>, detail: Seq<char>) -> Seq<char> {
    let mono = if art.len() == 0 {
        Seq::empty()
    } else {
        "<span font_family=\"monospace\">"@ + art + "</span>"@
    };
    mono + " "@ + detail + "\n"@
}

/// The first `k` lines of the weather art for `code` beside `details`.
pub open spec fn art_block(code: u32, details: Seq<Seq<char>>, k: nat) -> Seq<char>
    decreases k,
{
    if k == 0 {
        Seq::empty()
    } else {
        art_block(code, details, (k - 1) as nat) + art_line(
            ansi_to_pango_spec(ascii_icon(code)@[k - 1]@),
            details[k - 1],
        )
    }
}

/// Appends the five lines of the weather art for `code` beside `details`.
fn push_art_block(out: &mut String, code: u32, details: &Vec<String>)
    requires
        details.len() == 5,
    ensures
        final(out)@ == old(out)@ + art_block(code, details@.map_values(|l: String| l@), 5),
{
    let icon = get_ascii_icon(code);
    let ghost ds = details@.map_values(|l: String| l@);
    let mut k: usize = 0;
    while k < 5
        invariant
            k <= 5,
            details.len() == 5,
            icon == ascii_icon(code),
            ds == details@.map_values(|l: String| l@),
            out@ == old(out)@ + art_block(code, ds, k as nat),
        decreases 5 - k,
    {
        let art = ansi_to_pango(icon[k]);
        if art.unicode_len() > 0 {
            push_str(out, "<span font_family=\"monospace\">");
            push_str(out, art.as_str());
            push_str(out, "</span>");
        }
        push_str(out, " ");
        push_str(out, details[k].as_str());
        push_str(out, "\n");
        assert(ds[k as int] == details@[k as int]@);
        k += 1;
    }
}

/// The clock text of a slot: its local time, `??:??` when it has none.
pub open spec fn slot_time(s: SlotInfo, ampm: bool) -> Seq<char> {
    let hm = crate::format::local_hour_minute(text_or(s.local_datetime, "??:??"@));
    crate::format::clock_text(hm.0 as nat, hm.1 as nat, ampm)
}

/// The cloud, rain and eye symbols of the per-slot details.
pub open spec fn detail_icons(nerd: bool) -> (Seq<char>, Seq<char>, Seq<char>) {
    if nerd {
        ("\u{f0330}"@, "\u{f0317}"@, "\u{f02fd}"@)
    } else {
        (CLOUD_COVER_ICON@, PRECIPITATION_ICON@, VISIBILITY_ICON@)
    }
}

/// The start of a slot's tooltip line: time, weather icon, temperature,
/// description and wind.
pub open spec fn slot_base_spec(s: SlotInfo, style: BarStyle) -> Seq<char> {
    slot_time(s, style.ampm) + "  "@ + icon_of(weather_code(s), style.nerd) + "  "@ + temp_text(
        shown_temp(int_or_zero(s.t), style.fahrenheit),
    ) + "  "@ + escape_spec(text_or(s.desc, "?"@)) + "  "@ + arrow_of(int_or_zero(s.wd_deg), style.nerd)
        + " "@ + s.ws@ + " "@ + "km/h"@
}

/// The details of a slot's tooltip line: cloud cover, precipitation and
/// visibility, or nothing when details are hidden.
pub open spec fn slot_details_spec(s: SlotInfo, style: BarStyle) -> Seq<char> {
    let icons = detail_icons(style.nerd);
    if style.hide_details {
        Seq::empty()
    } else {
        "  "@ + icons.0 + " "@ + int_decimal(int_or_zero(s.tcc)) + "%  "@ + icons.1 + " "@ + s.tp@
            + " mm  "@ + icons.2 + " "@ + escape_spec(text_or(s.vs_text, "?"@))
    }
}

/// The tooltip line of one slot: time, weather icon, temperature,
/// description, wind; then cloud cover, precipitation and visibility unless
/// details are hidden.
pub open spec fn slot_line_spec(s: SlotInfo, style: BarStyle) -> Seq<char> {
    slot_base_spec(s, style) + slot_details_spec(s, style) + "\n"@
}

fn push_slot_base(out: &mut String, slot: &SlotInfo, style: BarStyle)
    ensures
        final(out)@ == old(out)@ + slot_base_spec(*slot, style),
{
    let time = match &slot.local_datetime {
        Some(t) => crate::format::format_time(t.as_str(), style.ampm),
        None => crate::format::format_time("??:??", style.ampm),
    };
    push_str(out, time.as_str());
    push_str(out, "  ");
    push_str(out, get_weather_icon(weather_code_of(slot), style.nerd));
    push_str(out, "  ");
    let temp = format_temp(shown_temperature(slot, style.fahrenheit));
    push_str(out, temp.as_str());
    push_str(out, "  ");
    push_escaped_or(out, &slot.desc, "?");
    push_str(out, "  ");
    push_str(out, format_wind_dir_icon(int_or_zero_of(slot.wd_deg), style.nerd));
    push_str(out, " ");
    push_str(out, slot.ws.as_str());
    push_str(out, " ");
    push_str(out, style.lang.wind_unit());
}

fn push_slot_details(out: &mut String, slot: &SlotInfo, style: BarStyle)
    ensures
        final(out)@ == old(out)@ + slot_details_spec(*slot, style),
{
    if !style.hide_details {
        let (cloud, rain, eye) = if style.nerd {
            ("\u{f0330}", "\u{f0317}", "\u{f02fd}")
        } else {
            (CLOUD_COVER_ICON, PRECIPITATION_ICON, VISIBILITY_ICON)
        };
        push_str(out, "  ");
        push_str(out, cloud);
        push_str(out, " ");
        push_i64(out, int_or_zero_of(slot.tcc));
        push_str(out, "%  ");
        push_str(out, rain);
        push_str(out, " ");
        push_str(out, slot.tp.as_str());
        push_str(out, " mm  ");
        push_str(out, eye);
        push_str(out, " ");
        push_escaped_or(out, &slot.vs_text, "?");
    } else {
        assert(slot_details_spec(*slot, style) =~= Seq::<char>::empty());
    }
}

/// Appends the tooltip line of one slot.
pub fn push_slot_line(out: &mut String, slot: &SlotInfo, style: BarStyle)
    ensures
        final(out)@ == old(out)@ + slot_line_spec(*slot, style),
{
    push_slot_base(out, slot, style);
    push_slot_details(out, slot, style);
    push_str(out, "\n");
}

/// The name of the day of forecast group `group` with a comma, for the
/// first three groups.
pub open spec fn day_name(lang: Lang, group: nat) -> Seq<char> {
    if group == 0 {
        today_text(lang) + ", "@
    } else if group == 1 {
        tomorrow_text(lang) + ", "@
    } else if group == 2 {
        day_after_tomorrow_text(lang) + ", "@
    } else {
        Seq::empty()
    }
}

/// The heading that opens the slots of forecast group `group`: bold, after
/// a blank line unless it is the first group; the day's name and the date
/// `date_label` when there is one.
pub open spec fn day_heading_spec(lang: Lang, group: nat, date_label: Option<Seq<char>>) -> Seq<char> {
    let open = if group == 0 {
        "<b>"@
    } else {
        "\n<b>"@
    };
    open + match date_label {
        Some(d) => day_name(lang, group) + d + "</b>\n"@,
        None => Seq::empty(),
    }
}

/// The headings of the first three forecast groups name their days in
/// order: today, tomorrow and the day after tomorrow (in English
/// `Day After Tomorrow`, in Indonesian `Lusa`), each followed by `, ` and
/// the date; so the three days get three different headings.
pub proof fn law_day_headings_name_their_days(lang: Lang, d: Seq<char>)
    ensures
        day_heading_spec(lang, 0, Some(d)) == "<b>"@ + today_text(lang) + ", "@ + d + "</b>\n"@,
        day_heading_spec(lang, 1, Some(d)) == "\n<b>"@ + tomorrow_text(lang) + ", "@ + d + "</b>\n"@,
        day_heading_spec(lang, 2, Some(d)) == "\n<b>"@ + day_after_tomorrow_text(lang) + ", "@ + d
            + "</b>\n"@,
        day_heading_spec(Lang::EN, 2, Some(d)) == "\n<b>Day After Tomorrow, "@ + d + "</b>\n"@,
        day_heading_spec(Lang::ID, 2, Some(d)) == "\n<b>Lusa, "@ + d + "</b>\n"@,
        day_heading_spec(lang, 0, Some(d)) != day_heading_spec(lang, 1, Some(d)),
        day_heading_spec(lang, 1, Some(d)) != day_heading_spec(lang, 2, Some(d)),
        day_heading_spec(lang, 0, Some(d)) != day_heading_spec(lang, 2, Some(d)),
{
    reveal_strlit("<b>");
    reveal_strlit("\n<b>");
    reveal_strlit(", ");
    reveal_strlit("</b>\n");
    reveal_strlit("Today");
    reveal_strlit("Tomorrow");
    reveal_strlit("Day After Tomorrow");
    reveal_strlit("Hari Ini");
    reveal_strlit("Besok");
    reveal_strlit("Lusa");
    reveal_strlit("\n<b>Day After Tomorrow, ");
    reveal_strlit("\n<b>Lusa, ");
    let h0 = day_heading_spec(lang, 0, Some(d));
    let h1 = day_heading_spec(lang, 1, Some(d));
    let h2 = day_heading_spec(lang, 2, Some(d));
    assert(h0 =~= "<b>"@ + today_text(lang) + ", "@ + d + "</b>\n"@);
    assert(h1 =~= "\n<b>"@ + tomorrow_text(lang) + ", "@ + d + "</b>\n"@);
    assert(h2 =~= "\n<b>"@ + day_after_tomorrow_text(lang) + ", "@ + d + "</b>\n"@);
    assert(day_heading_spec(Lang::EN, 2, Some(d)) =~= "\n<b>Day After Tomorrow, "@ + d + "</b>\n"@);
    assert(day_heading_spec(Lang::ID, 2, Some(d)) =~= "\n<b>Lusa, "@ + d + "</b>\n"@);
    // The first heading opens without a blank line, the others with one.
    assert(h0[0] == '<' && h1[0] == '\n' && h2[0] == '\n');
    // Tomorrow and the day after differ in the first letter of their names.
    assert(h1[4] != h2[4]);
}

/// Appends the heading of forecast group `group`.
pub fn push_day_heading(out: &mut String, lang: Lang, group: usize, date_label: &Option<String>)
    ensures
        final(out)@ == old(out)@ + day_heading_spec(lang, group as nat, opt_text(*date_label)),
{
    if group == 0 {
        push_str(out, "<b>");
    } else {
        push_str(out, "\n<b>");
    }
    if let Some(d) = date_label {
        if group == 0 {
            push_str(out, lang.today());
            push_str(out, ", ");
        } else if group == 1 {
            push_str(out, lang.tomorrow());
            push_str(out, ", ");
        } else if group == 2 {
            push_str(out, lang.day_after_tomorrow());
            push_str(out, ", ");
        }
        push_str(out, d.as_str());
        push_str(out, "</b>\n");
    }
}

// ---------------------------------------------------------------------------
// Warnings

/// What the tooltip shows of a weather warning: its headline, its validity
/// window in nanoseconds since the Unix epoch, and the link to its
/// infographic.
pub struct WarningNote {
    pub headline: String,
    pub effective: Option<i128>,
    pub expires: Option<i128>,
    pub web: Option<String>,
}

/// Nanoseconds in a day.
pub open spec fn nanos_per_day() -> int {
    86_400_000_000_000
}

/// The UTC wall-clock time `HH:MM` of an instant given in nanoseconds since
/// the Unix epoch (chrono's `%H:%M` on a UTC time).
pub open spec fn utc_clock(ns: int) -> Seq<char> {
    let of_day = ns % nanos_per_day();
    two_digits((of_day / 3_600_000_000_000) as nat) + ":"@ + two_digits(
        ((of_day % 3_600_000_000_000) / 60_000_000_000) as nat,
    )
}

/// Appends the UTC wall-clock time of an instant.
fn push_utc_clock(out: &mut String, ns: i128)
    ensures
        final(out)@ == old(out)@ + utc_clock(ns as int),
{
    let of_day = ns.checked_rem_euclid(86_400_000_000_000i128).unwrap();
    let of_day = of_day as u64;
    let hour = (of_day / 3_600_000_000_000) as u32;
    let minute = ((of_day % 3_600_000_000_000) / 60_000_000_000) as u32;
    push_two_digits(out, hour);
    push_str(out, ":");
    push_two_digits(out, minute);
}

/// The tooltip entry of a warning: a bullet with the headline in bold, the
/// validity window when both ends are known, and the infographic link when
/// there is one.
pub open spec fn warning_entry_spec(w: WarningNote) -> Seq<char> {
    let times = match (w.effective, w.expires) {
        (Some(e), Some(x)) => "Valid: "@ + utc_clock(e as int) + "–"@ + utc_clock(x as int) + "\n"@,
        _ => Seq::empty(),
    };
    let link = match w.web {
        Some(u) => "<a href=\""@ + escape_spec(u@) + "\">Infographic</a>"@,
        None => Seq::empty(),
    };
    "• <b>"@ + escape_spec(w.headline@) + "<br/>"@ + times + link + "</br>\n"@
}

/// Appends the tooltip entry of a warning.
pub fn push_warning_entry(out: &mut String, w: &WarningNote)
    ensures
        final(out)@ == old(out)@ + warning_entry_spec(*w),
{
    push_str(out, "• <b>");
    let h = escape_pango(w.headline.as_str());
    push_str(out, h.as_str());
    push_str(out, "<br/>");
    match (w.effective, w.expires) {
        (Some(e), Some(x)) => {
            push_str(out, "Valid: ");
            push_utc_clock(out, e);
            push_str(out, "–");
            push_utc_clock(out, x);
            push_str(out, "\n");
        },
        _ => {},
    }
    if let Some(u) = &w.web {
        push_str(out, "<a href=\"");
        let e = escape_pango(u.as_str());
        push_str(out, e.as_str());
        push_str(out, "\">Infographic</a>");
    }
    push_str(out, "</br>\n");
}

// ---------------------------------------------------------------------------
// The tooltip

/// The slots of each forecast group.
pub open spec fn group_views(groups: Seq<Vec<SlotInfo>>) -> Seq<Seq<SlotInfo>> {
    groups.map_values(|g: Vec<SlotInfo>| g@)
}

/// All forecast slots, group after group, each with its group's position.
pub open spec fn flat_slots(groups: Seq<Seq<SlotInfo>>) -> Seq<(SlotInfo, nat)>
    decreases groups.len(),
{
    if groups.len() == 0 {
        Seq::empty()
    } else {
        let g = (groups.len() - 1) as nat;
        flat_slots(groups.drop_last()) + groups.last().map_values(|s: SlotInfo| (s, g))
    }
}

/// The sort key of a slot: its local time, empty when it has none.
pub open spec fn time_keys(flat: Seq<(SlotInfo, nat)>) -> Seq<Seq<char>> {
    flat.map_values(|e: (SlotInfo, nat)| text_or(e.0.local_datetime, Seq::empty()))
}

/// The order of the slots in the tooltip: stably sorted by local time (a
/// stable sort has one result, see `law_stable_order_unique`).
pub open spec fn tooltip_order(flat: Seq<(SlotInfo, nat)>) -> Seq<usize> {
    choose|order: Seq<usize>| is_stable_order(order, time_keys(flat))
}

/// The entries of `flat` in `order`.
pub open spec fn in_order(flat: Seq<(SlotInfo, nat)>, order: Seq<usize>) -> Seq<(SlotInfo, nat)> {
    order.map_values(|i: usize| flat[i as int])
}

/// The date of a slot as its day's heading shows it: its local time written
/// in the format `fmt` and the style's language.
pub open spec fn slot_date_label(slot: SlotInfo, style: BarStyle, fmt: Seq<char>) -> Option<Seq<char>> {
    localized_date(text_or(slot.local_datetime, Seq::empty()), fmt, style.lang == Lang::ID)
}

/// The tooltip lines of the first `k` entries of `sorted`, each group of
/// consecutive entries from one forecast group opened by its heading, whose
/// date is written in the format `fmt`.
pub open spec fn day_sections(sorted: Seq<(SlotInfo, nat)>, style: BarStyle, fmt: Seq<char>, k: nat) -> Seq<char>
    decreases k,
{
    if k == 0 {
        Seq::empty()
    } else {
        let e = sorted[k - 1];
        let heading = if k == 1 || sorted[k - 2].1 != e.1 {
            day_heading_spec(style.lang, e.1, slot_date_label(e.0, style, fmt))
        } else {
            Seq::empty()
        };
        day_sections(sorted, style, fmt, (k - 1) as nat) + heading + slot_line_spec(e.0, style)
    }
}

/// The entries of the first `k` warnings.
pub open spec fn warning_entries(warnings: Seq<WarningNote>, k: nat) -> Seq<char>
    decreases k,
{
    if k == 0 {
        Seq::empty()
    } else {
        warning_entries(warnings, (k - 1) as nat) + warning_entry_spec(warnings[k - 1])
    }
}

/// The warnings part of the tooltip: nothing without warnings.
pub open spec fn warnings_block(warnings: Seq<WarningNote>) -> Seq<char> {
    if warnings.len() == 0 {
        Seq::empty()
    } else {
        "<b>Weather Warnings:</b>\n"@ + warning_entries(warnings, warnings.len()) + "\n"@
    }
}

/// The title line of the tooltip with the place, and a blank line.
pub open spec fn tooltip_title(style: BarStyle, location: Seq<char>) -> Seq<char> {
    "<b>"@ + weather_report_text(style.lang) + ":</b> "@ + escape_spec(location) + "\n"@ + "\n"@
}

/// The tooltip line with the first slot's description and temperature.
pub open spec fn current_line(style: BarStyle, first: SlotInfo) -> Seq<char> {
    "<b>"@ + escape_spec(text_or(first.desc, "?"@)) + "</b> "@ + int_decimal(
        shown_temp(int_or_zero(first.t), style.fahrenheit),
    ) + " "@ + temp_unit(style.fahrenheit) + "\n"@
}

/// The head of the tooltip: the title with the place, a blank line, and the
/// first slot's description and temperature.
pub open spec fn tooltip_head(style: BarStyle, location: Seq<char>, first: SlotInfo) -> Seq<char> {
    tooltip_title(style, location) + current_line(style, first)
}

/// The tooltip: its head, the weather art of the first slot beside its
/// details, a blank line, every slot by time under the heading of its day
/// (dated in the format `fmt`), the warnings, and the data source.
pub open spec fn tooltip_spec(
    style: BarStyle,
    fmt: Seq<char>,
    location: Seq<char>,
    groups: Seq<Seq<SlotInfo>>,
    warnings: Seq<WarningNote>,
) -> Seq<char> {
    let flat = flat_slots(groups);
    let first = flat[0].0;
    let sorted = in_order(flat, tooltip_order(flat));
    tooltip_head(style, location, first) + art_block(weather_code(first), detail_lines_spec(first, style), 5)
        + "\n"@ + day_sections(sorted, style, fmt, sorted.len()) + warnings_block(warnings) + "\n<small>"@
        + source_text(style.lang) + "</small>"@
}

proof fn lemma_flat_slots_step(groups: Seq<Seq<SlotInfo>>, g: int)
    requires
        0 <= g < groups.len(),
    ensures
        flat_slots(groups.take(g + 1)) == flat_slots(groups.take(g)) + groups[g].map_values(
            |s: SlotInfo| (s, g as nat),
        ),
{
    assert(groups.take(g + 1).drop_last() =~= groups.take(g));
    assert(groups.take(g + 1).last() == groups[g]);
}

/// Positions `(group, slot)` of all slots, group after group.
fn flat_positions(groups: &Vec<Vec<SlotInfo>>) -> (pos: Vec<(usize, usize)>)
    ensures
        pos.len() == flat_slots(group_views(groups@)).len(),
        forall|k: int|
            0 <= k < pos.len() ==> {
                let p = #[trigger] pos@[k];
                let e = flat_slots(group_views(groups@))[k];
                &&& p.0 < groups.len()
                &&& p.1 < groups@[p.0 as int].len()
                &&& groups@[p.0 as int]@[p.1 as int] == e.0
                &&& p.0 as nat == e.1
            },
{
    let ghost gv = group_views(groups@);
    let mut pos: Vec<(usize, usize)> = Vec::new();
    let mut g: usize = 0;
    assert(gv.take(0) =~= Seq::<Seq<SlotInfo>>::empty());
    while g < groups.len()
        invariant
            g <= groups.len(),
            gv == group_views(groups@),
            pos.len() == flat_slots(gv.take(g as int)).len(),
            forall|k: int|
                0 <= k < pos.len() ==> {
                    let p = #[trigger] pos@[k];
                    let e = flat_slots(gv.take(g as int))[k];
                    &&& p.0 < groups.len()
                    &&& p.1 < groups@[p.0 as int].len()
                    &&& groups@[p.0 as int]@[p.1 as int] == e.0
                    &&& p.0 as nat == e.1
                },
        decreases groups.len() - g,
    {
        proof {
            lemma_flat_slots_step(gv, g as int);
        }
        let ghost before = flat_slots(gv.take(g as int));
        let ghost whole = flat_slots(gv.take(g + 1));
        assert(gv[g as int] == groups@[g as int]@);
        let mut j: usize = 0;
        while j < groups[g].len()
            invariant
                g < groups.len(),
                j <= groups@[g as int].len(),
                gv == group_views(groups@),
                gv[g as int] == groups@[g as int]@,
                whole == before + gv[g as int].map_values(|s: SlotInfo| (s, g as nat)),
                pos.len() == before.len() + j,
                forall|k: int|
                    0 <= k < pos.len() ==> {
                        let p = #[trigger] pos@[k];
                        let e = whole[k];
                        &&& p.0 < groups.len()
                        &&& p.1 < groups@[p.0 as int].len()
                        &&& groups@[p.0 as int]@[p.1 as int] == e.0
                        &&& p.0 as nat == e.1
                    },
            decreases groups@[g as int].len() - j,
        {
            pos.push((g, j));
            assert(whole[before.len() + j] == (gv[g as int][j as int], g as nat));
            j += 1;
        }
        g += 1;
    }
    assert(gv.take(groups.len() as int) =~= gv);
    pos
}

fn push_tooltip_title(out: &mut String, style: BarStyle, location: &str)
    ensures
        final(out)@ == old(out)@ + tooltip_title(style, location@),
{
    push_str(out, "<b>");
    push_str(out, style.lang.weather_report());
    push_str(out, ":</b> ");
    let loc = escape_pango(location);
    push_str(out, loc.as_str());
    push_str(out, "\n");
    push_str(out, "\n");
}

fn push_current_line(out: &mut String, style: BarStyle, first: &SlotInfo)
    ensures
        final(out)@ == old(out)@ + current_line(style, *first),
{
    push_str(out, "<b>");
    push_escaped_or(out, &first.desc, "?");
    push_str(out, "</b> ");
    push_i64(out, shown_temperature(first, style.fahrenheit));
    push_str(out, " ");
    if style.fahrenheit {
        push_str(out, "°F");
    } else {
        push_str(out, "°C");
    }
    push_str(out, "\n");
}

/// Appends the tooltip head.
fn push_tooltip_head(out: &mut String, style: BarStyle, location: &str, first: &SlotInfo)
    ensures
        final(out)@ == old(out)@ + tooltip_head(style, location@, *first),
{
    push_tooltip_title(out, style, location);
    push_current_line(out, style, first);
}

/// Appends the warnings part of the tooltip.
fn push_warnings_block(out: &mut String, warnings: &Vec<WarningNote>)
    ensures
        final(out)@ == old(out)@ + warnings_block(warnings@),
{
    if warnings.len() == 0 {
        return;
    }
    push_str(out, "<b>Weather Warnings:</b>\n");
    let ghost start = out@;
    let mut k: usize = 0;
    while k < warnings.len()
        invariant
            k <= warnings.len(),
            out@ == start + warning_entries(warnings@, k as nat),
        decreases warnings.len() - k,
    {
        push_warning_entry(out, &warnings[k]);
        k += 1;
    }
    push_str(out, "\n");
}

/// Appends the heading of forecast group `group`, dated as `slot`.
fn push_slot_heading(out: &mut String, slot: &SlotInfo, style: BarStyle, date_format: &str, group: usize)
    ensures
        final(out)@ == old(out)@ + day_heading_spec(
            style.lang,
            group as nat,
            slot_date_label(*slot, style, date_format@),
        ),
{
    let time: &str = match &slot.local_datetime {
        Some(t) => t.as_str(),
        None => "",
    };
    proof {
        reveal_strlit("");
    }
    assert(time@ == text_or(slot.local_datetime, Seq::empty()));
    let label = localized_date_label(time, date_format, style.lang);
    assert(opt_text(label) == slot_date_label(*slot, style, date_format@));
    push_day_heading(out, style.lang, group, &label);
}

proof fn lemma_day_sections_step(sorted: Seq<(SlotInfo, nat)>, style: BarStyle, fmt: Seq<char>, k: nat)
    requires
        k < sorted.len(),
    ensures
        day_sections(sorted, style, fmt, k + 1) == day_sections(sorted, style, fmt, k) + (if k == 0 || sorted[k
            - 1].1 != sorted[k as int].1 {
            day_heading_spec(style.lang, sorted[k as int].1, slot_date_label(sorted[k as int].0, style, fmt))
        } else {
            Seq::empty()
        }) + slot_line_spec(sorted[k as int].0, style),
{
}

/// Appends every slot of `sorted` under the heading of its day, where
/// `at[k]` locates entry `k` of `sorted` in `groups`.
fn push_day_sections(
    out: &mut String,
    groups: &Vec<Vec<SlotInfo>>,
    at: &Vec<(usize, usize)>,
    style: BarStyle,
    date_format: &str,
    Ghost(sorted): Ghost<Seq<(SlotInfo, nat)>>,
)
    requires
        at.len() == sorted.len(),
        forall|k: int|
            0 <= k < at.len() ==> {
                let p = #[trigger] at@[k];
                &&& p.0 < groups.len()
                &&& p.1 < groups@[p.0 as int].len()
                &&& groups@[p.0 as int]@[p.1 as int] == sorted[k].0
                &&& p.0 as nat == sorted[k].1
            },
    ensures
        final(out)@ == old(out)@ + day_sections(sorted, style, date_format@, sorted.len()),
{
    let mut k: usize = 0;
    while k < at.len()
        invariant
            k <= at.len(),
            at.len() == sorted.len(),
            forall|q: int|
                0 <= q < at.len() ==> {
                    let p = #[trigger] at@[q];
                    &&& p.0 < groups.len()
                    &&& p.1 < groups@[p.0 as int].len()
                    &&& groups@[p.0 as int]@[p.1 as int] == sorted[q].0
                    &&& p.0 as nat == sorted[q].1
                },
            out@ == old(out)@ + day_sections(sorted, style, date_format@, k as nat),
        decreases at.len() - k,
    {
        proof {
            lemma_day_sections_step(sorted, style, date_format@, k as nat);
        }
        let (g, j) = at[k];
        let slot = &groups[g][j];
        let new_group = if k == 0 {
            true
        } else {
            let (pg, _) = at[k - 1];
            assert(at@[k - 1].0 as nat == sorted[k - 1].1);
            pg != g
        };
        if new_group {
            push_slot_heading(out, slot, style, date_format, g);
        }
        push_slot_line(out, slot, style);
        k += 1;
    }
}

/// The locations in `groups` of the entries of `flat` in `order`.
fn ordered_positions(
    pos: &Vec<(usize, usize)>,
    order: &Vec<usize>,
    Ghost(groups): Ghost<Seq<Vec<SlotInfo>>>,
    Ghost(flat): Ghost<Seq<(SlotInfo, nat)>>,
) -> (at: Vec<(usize, usize)>)
    requires
        pos.len() == flat.len(),
        forall|k: int|
            0 <= k < pos.len() ==> {
                let p = #[trigger] pos@[k];
                &&& p.0 < groups.len()
                &&& p.1 < groups[p.0 as int].len()
                &&& groups[p.0 as int]@[p.1 as int] == flat[k].0
                &&& p.0 as nat == flat[k].1
            },
        forall|k: int| 0 <= k < order.len() ==> #[trigger] order@[k] < flat.len(),
    ensures
        at.len() == order.len(),
        forall|k: int|
            0 <= k < at.len() ==> {
                let p = #[trigger] at@[k];
                &&& p.0 < groups.len()
                &&& p.1 < groups[p.0 as int].len()
                &&& groups[p.0 as int]@[p.1 as int] == in_order(flat, order@)[k].0
                &&& p.0 as nat == in_order(flat, order@)[k].1
            },
{
    let mut at: Vec<(usize, usize)> = Vec::new();
    let mut k: usize = 0;
    while k < order.len()
        invariant
            k <= order.len(),
            at.len() == k,
            pos.len() == flat.len(),
            forall|q: int|
                0 <= q < pos.len() ==> {
                    let p = #[trigger] pos@[q];
                    &&& p.0 < groups.len()
                    &&& p.1 < groups[p.0 as int].len()
                    &&& groups[p.0 as int]@[p.1 as int] == flat[q].0
                    &&& p.0 as nat == flat[q].1
                },
            forall|q: int| 0 <= q < order.len() ==> #[trigger] order@[q] < flat.len(),
            forall|q: int|
                0 <= q < at.len() ==> {
                    let p = #[trigger] at@[q];
                    &&& p.0 < groups.len()
                    &&& p.1 < groups[p.0 as int].len()
                    &&& groups[p.0 as int]@[p.1 as int] == in_order(flat, order@)[q].0
                    &&& p.0 as nat == in_order(flat, order@)[q].1
                },
        decreases order.len() - k,
    {
        let p = pos[order[k]];
        assert(in_order(flat, order@)[k as int] == flat[order@[k as int] as int]);
        assert(pos@[order@[k as int] as int] == p);
        at.push(p);
        k += 1;
    }
    at
}

/// The tooltip of the Waybar output for the slots of `groups` (one group
/// per forecast day), the place `location` and the warnings to show, with
/// the days' dates written in the format `date_format`.
pub fn tooltip(
    style: BarStyle,
    date_format: &str,
    location: &str,
    groups: &Vec<Vec<SlotInfo>>,
    warnings: &Vec<WarningNote>,
) -> (r: String)
    requires
        flat_slots(group_views(groups@)).len() > 0,
    ensures
        r@ == tooltip_spec(style, date_format@, location@, group_views(groups@), warnings@),
{
    let ghost flat = flat_slots(group_views(groups@));
    let pos = flat_positions(groups);
    let mut keys: Vec<Vec<char>> = Vec::new();
    let mut k: usize = 0;
    while k < pos.len()
        invariant
            k <= pos.len(),
            pos.len() == flat.len(),
            flat == flat_slots(group_views(groups@)),
            forall|q: int|
                0 <= q < pos.len() ==> {
                    let p = #[trigger] pos@[q];
                    let e = flat[q];
                    &&& p.0 < groups.len()
                    &&& p.1 < groups@[p.0 as int].len()
                    &&& groups@[p.0 as int]@[p.1 as int] == e.0
                    &&& p.0 as nat == e.1
                },
            keys@.map_values(|c: Vec<char>| c@) == time_keys(flat).take(k as int),
        decreases pos.len() - k,
    {
        let (g, j) = pos[k];
        let key = match &groups[g][j].local_datetime {
            Some(t) => chars_of(t.as_str()),
            None => Vec::new(),
        };
        assert(key@ == text_or(flat[k as int].0.local_datetime, Seq::empty()));
        assert(time_keys(flat)[k as int] == text_or(flat[k as int].0.local_datetime, Seq::empty()));
        let ghost before = keys@;
        keys.push(key);
        assert(keys@.map_values(|c: Vec<char>| c@) =~= before.map_values(|c: Vec<char>| c@).push(key@));
        assert(keys@.map_values(|c: Vec<char>| c@) =~= time_keys(flat).take(k + 1));
        k += 1;
    }
    assert(time_keys(flat).take(pos.len() as int) =~= time_keys(flat));
    let order = stable_order(&keys);
    proof {
        law_stable_order_unique(order@, tooltip_order(flat), time_keys(flat));
    }
    let (g0, j0) = pos[0];
    let first = &groups[g0][j0];
    let mut out = String::new();
    push_tooltip_head(&mut out, style, location, first);
    let details = detail_lines(first, style);
    push_art_block(&mut out, weather_code_of(first), &details);
    push_str(&mut out, "\n");
    let at = ordered_positions(&pos, &order, Ghost(groups@), Ghost(flat));
    push_day_sections(&mut out, groups, &at, style, date_format, Ghost(in_order(flat, order@)));
    push_warnings_block(&mut out, warnings);
    push_str(&mut out, "\n<small>");
    push_str(&mut out, style.lang.source());
    push_str(&mut out, "</small>");
    out
}

// ---------------------------------------------------------------------------
// The shape of the forecast

/// Whether forecast groups of the sizes `sizes` hold any slot.
pub open spec fn any_slots(sizes: Seq<usize>) -> bool {
    exists|i: int| 0 <= i < sizes.len() && sizes[i] > 0
}

/// Whether forecast groups of the sizes `sizes` hold any slot.
pub fn has_slots(sizes: &Vec<usize>) -> (r: bool)
    ensures
        r == any_slots(sizes@),
{
    let mut i: usize = 0;
    while i < sizes.len()
        invariant
            i <= sizes.len(),
            forall|j: int| 0 <= j < i ==> sizes@[j] == 0,
        decreases sizes.len() - i,
    {
        if sizes[i] > 0 {
            return true;
        }
        i += 1;
    }
    false
}

/// Whether a forecast can be shown, from the sizes of its groups of slots
/// (`None` when the answer has no groups): an error when it has no groups
/// or no slot at all.
pub fn check_forecast(sizes: Option<&Vec<usize>>) -> (r: Result<(), CuacaError>)
    ensures
        match sizes {
            None => r matches Err(CuacaError::Data(m)) && m@ == "invalid BMKG data structure"@,
            Some(v) => if any_slots(v@) {
                r is Ok
            } else {
                r matches Err(CuacaError::Data(m)) && m@ == "no forecast data available"@
            },
        },
{
    match sizes {
        None => Err(CuacaError::Data(String::from_str("invalid BMKG data structure"))),
        Some(v) => if has_slots(v) {
            Ok(())
        } else {
            Err(CuacaError::Data(String::from_str("no forecast data available")))
        },
    }
}

// ---------------------------------------------------------------------------
// The whole output

/// The fields of the Waybar output.
pub struct WaybarOutput {
    /// Text shown in the bar.
    pub text: String,
    /// Tooltip, in Pango markup.
    pub tooltip: String,
    /// CSS class of the bar.
    pub class: String,
}

/// The Waybar output for the slots of `groups` (one group per forecast day)
/// at `location` with `warnings` shown: the bar text of the first slot (its
/// custom expression filled in from `first_fields`, the first slot's fields,
/// when one is given), the tooltip, and the class of the first slot's
/// description. The tooltip writes the days' dates in the format
/// `date_format`.
pub fn waybar_output(
    style: BarStyle,
    date_format: &str,
    custom: Option<&str>,
    first_fields: Option<&ForecastSlot>,
    location: &str,
    groups: &Vec<Vec<SlotInfo>>,
    warnings: &Vec<WarningNote>,
) -> (r: WaybarOutput)
    requires
        flat_slots(group_views(groups@)).len() > 0,
    ensures
        ({
            let first = flat_slots(group_views(groups@))[0].0;
            &&& r.text@ == bar_text_spec(
                icon_of(weather_code(first), style.nerd),
                shown_temp(int_or_zero(first.t), style.fahrenheit),
                match custom {
                    Some(e) => Some(e@),
                    None => None,
                },
                match first_fields {
                    Some(f) => Some(f.fields@),
                    None => None,
                },
                warnings@.len() > 0,
            )
            &&& r.tooltip@ == tooltip_spec(style, date_format@, location@, group_views(groups@), warnings@)
            &&& r.class@ == css_class_spec(first.desc)
        }),
{
    let pos = flat_positions(groups);
    let (g0, j0) = pos[0];
    let first = &groups[g0][j0];
    let icon = get_weather_icon(weather_code_of(first), style.nerd);
    let temp = shown_temperature(first, style.fahrenheit);
    let text = bar_text(icon, temp, custom, first_fields, warnings.len() > 0);
    let tip = tooltip(style, date_format, location, groups, warnings);
    let class = css_class(&first.desc);
    WaybarOutput { text, tooltip: tip, class }
}

} // verus!
