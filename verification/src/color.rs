//! ANSI colouring of terminal output and conversion of ANSI colour
//! sequences to Pango markup.
//!
//! Whether colour is on is decided once per run (see [`color_enabled`]) and
//! handed to every painting function as the `color` flag.
use vstd::prelude::*;
use crate::cli::ColorMode;
use crate::text::{chars_of, has_char, owned, push_char, push_str};

verus! {

broadcast use vstd::string::group_string_axioms;

/// The escape character that starts every ANSI sequence.
pub open spec fn esc() -> char {
    '\x1b'
}

/// The ANSI sequence that resets all attributes.
pub open spec fn reset_code() -> Seq<char> {
    "\x1b[0m"@
}

/// `text` wrapped in the colour `code` and a reset.
pub open spec fn painted(text: Seq<char>, code: Seq<char>) -> Seq<char> {
    code + text + reset_code()
}

/// What a painting function yields: the painted text when colour is on,
/// the text itself otherwise.
pub open spec fn paint_if(color: bool, text: Seq<char>, code: Seq<char>) -> Seq<char> {
    if color {
        painted(text, code)
    } else {
        text
    }
}

/// Whether colour output is on for the given mode. `no_color` is the value
/// of the `NO_COLOR` environment variable, if set; `stdout_is_terminal`
/// whether standard output is a terminal.
pub fn color_enabled(mode: ColorMode, no_color: Option<&str>, stdout_is_terminal: bool) -> (on: bool)
    ensures
        on == match mode {
            ColorMode::Always => true,
            ColorMode::Never => false,
            ColorMode::Auto => match no_color {
                Some(v) => v@.len() == 0 && stdout_is_terminal,
                None => stdout_is_terminal,
            },
        },
{
    match mode {
        ColorMode::Always => true,
        ColorMode::Never => false,
        ColorMode::Auto => {
            let set = match no_color {
                Some(v) => !v.is_empty(),
                None => false,
            };
            if set {
                false
            } else {
                stdout_is_terminal
            }
        },
    }
}

fn paint(text: &str, code: &str, color: bool) -> (r: String)
    ensures
        r@ == paint_if(color, text@, code@),
{
    if !color {
        return owned(text);
    }
    let mut r = owned(code);
    push_str(&mut r, text);
    push_str(&mut r, "\x1b[0m");
    r
}

/// The colour code for a temperature in degrees Celsius.
pub open spec fn temp_code(temp: int) -> Seq<char> {
    if temp <= 10 {
        "\x1b[38;5;33m"@
    } else if temp <= 20 {
        "\x1b[38;5;51m"@
    } else if temp <= 25 {
        "\x1b[38;5;49m"@
    } else if temp <= 28 {
        "\x1b[38;5;226m"@
    } else if temp <= 32 {
        "\x1b[38;5;214m"@
    } else {
        "\x1b[38;5;196m"@
    }
}

/// A line coloured by the temperature it stands for.
pub fn temp_line(text: &str, temp: i64, color: bool) -> (r: String)
    ensures
        r@ == paint_if(color, text@, temp_code(temp as int)),
{
    let code = if temp <= 10 {
        "\x1b[38;5;33m"
    } else if temp <= 20 {
        "\x1b[38;5;51m"
    } else if temp <= 25 {
        "\x1b[38;5;49m"
    } else if temp <= 28 {
        "\x1b[38;5;226m"
    } else if temp <= 32 {
        "\x1b[38;5;214m"
    } else {
        "\x1b[38;5;196m"
    };
    paint(text, code, color)
}

/// Rainfall bars (blue).
pub fn rain_bar(text: &str, color: bool) -> (r: String)
    ensures
        r@ == paint_if(color, text@, "\x1b[38;5;27m"@),
{
    paint(text, "\x1b[38;5;27m", color)
}

/// Cloud-cover bars (grey).
pub fn cloud_bar(text: &str, color: bool) -> (r: String)
    ensures
        r@ == paint_if(color, text@, "\x1b[38;5;244m"@),
{
    paint(text, "\x1b[38;5;244m", color)
}

/// Humidity chart (purple).
pub fn humid_spark(text: &str, color: bool) -> (r: String)
    ensures
        r@ == paint_if(color, text@, "\x1b[38;5;129m"@),
{
    paint(text, "\x1b[38;5;129m", color)
}

/// Wind chart (green).
pub fn wind_spark(text: &str, color: bool) -> (r: String)
    ensures
        r@ == paint_if(color, text@, "\x1b[38;5;46m"@),
{
    paint(text, "\x1b[38;5;46m", color)
}

/// Visibility chart (cyan).
pub fn vis_spark(text: &str, color: bool) -> (r: String)
    ensures
        r@ == paint_if(color, text@, "\x1b[38;5;51m"@),
{
    paint(text, "\x1b[38;5;51m", color)
}

/// Bold white header text.
pub fn header(text: &str, color: bool) -> (r: String)
    ensures
        r@ == paint_if(color, text@, "\x1b[1;37m"@),
{
    paint(text, "\x1b[1;37m", color)
}

/// Dimmed text.
pub fn dim(text: &str, color: bool) -> (r: String)
    ensures
        r@ == paint_if(color, text@, "\x1b[2m"@),
{
    paint(text, "\x1b[2m", color)
}

/// Warning text (bright yellow).
pub fn warning(text: &str, color: bool) -> (r: String)
    ensures
        r@ == paint_if(color, text@, "\x1b[38;5;226m"@),
{
    if !color {
        return owned(text);
    }
    paint(text, "\x1b[38;5;226m", color)
}

// ---------------------------------------------------------------------------
// Removing ANSI sequences

/// `s` with every ANSI sequence removed. A sequence runs from an escape
/// character up to and including the next `m` (or to the end of the text).
/// `in_seq` says whether the text starts inside such a sequence.
pub open spec fn strip_ansi_from(s: Seq<char>, in_seq: bool) -> Seq<char>
    decreases s.len(),
{
    if s.len() == 0 {
        seq![]
    } else if in_seq {
        strip_ansi_from(s.drop_first(), s[0] != 'm')
    } else if s[0] == esc() {
        strip_ansi_from(s.drop_first(), true)
    } else {
        seq![s[0]] + strip_ansi_from(s.drop_first(), false)
    }
}

/// `s` with every ANSI sequence removed.
pub open spec fn strip_ansi_spec(s: Seq<char>) -> Seq<char> {
    strip_ansi_from(s, false)
}

/// `s` with every ANSI escape sequence removed.
pub fn strip_ansi(s: &str) -> (r: String)
    ensures
        r@ == strip_ansi_spec(s@),
{
    let v = chars_of(s);
    let mut r = String::new();
    let mut in_seq = false;
    let mut i: usize = 0;
    assert(v@.skip(0) =~= v@);
    while i < v.len()
        invariant
            i <= v.len(),
            r@ + strip_ansi_from(v@.skip(i as int), in_seq) == strip_ansi_spec(v@),
        decreases v.len() - i,
    {
        let c = v[i];
        assert(v@.skip(i as int).drop_first() =~= v@.skip(i + 1));
        if in_seq {
            in_seq = c != 'm';
        } else if c == '\x1b' {
            in_seq = true;
        } else {
            push_char(&mut r, c);
        }
        i += 1;
    }
    assert(v@.skip(v.len() as int).len() == 0);
    assert(r@ =~= strip_ansi_spec(v@));
    r
}

pub proof fn lemma_strip_ansi_no_esc(s: Seq<char>, in_seq: bool)
    ensures
        !has_char(strip_ansi_from(s, in_seq), esc()),
    decreases s.len(),
{
    if s.len() > 0 {
        lemma_strip_ansi_no_esc(s.drop_first(), s[0] != 'm');
        lemma_strip_ansi_no_esc(s.drop_first(), true);
        lemma_strip_ansi_no_esc(s.drop_first(), false);
        let rest = strip_ansi_from(s.drop_first(), false);
        if !in_seq && s[0] != esc() {
            assert forall|i: int| 0 <= i < (seq![s[0]] + rest).len() implies (seq![s[0]]
                + rest)[i] != esc() by {
                if i > 0 {
                    assert((seq![s[0]] + rest)[i] == rest[i - 1]);
                }
            }
        }
    }
}

/// Stripping leaves no escape character behind.
pub proof fn law_strip_ansi_leaves_no_escape(s: Seq<char>)
    ensures
        !has_char(strip_ansi_spec(s), esc()),
{
    lemma_strip_ansi_no_esc(s, false);
}

// ---------------------------------------------------------------------------
// Weather icon lines

/// The colour of the ASCII art for a weather code.
pub open spec fn weather_code_color(code: u32) -> Seq<char> {
    if code == 0 || code == 1 {
        "\x1b[38;5;226m"@
    } else if code == 2 {
        "\x1b[38;5;220m"@
    } else if code == 3 || code == 4 || code == 5 || code == 10 || code == 45 {
        "\x1b[38;5;248m"@
    } else if code == 60 || code == 61 {
        "\x1b[38;5;51m"@
    } else if code == 63 || code == 80 {
        "\x1b[38;5;27m"@
    } else if code == 95 || code == 97 {
        "\x1b[38;5;201m"@
    } else {
        "\x1b[38;5;250m"@
    }
}

/// What [`weather_icon_line`] yields: without colour the line with its ANSI
/// sequences removed; with colour a line that already holds an escape is kept
/// as it is, any other line is painted in the colour of the weather code.
pub open spec fn weather_icon_line_spec(line: Seq<char>, code: u32, color: bool) -> Seq<char> {
    if !color {
        strip_ansi_spec(line)
    } else if has_char(line, esc()) {
        line
    } else {
        painted(line, weather_code_color(code))
    }
}

fn contains_esc(v: &Vec<char>) -> (b: bool)
    ensures
        b == has_char(v@, esc()),
{
    let mut i: usize = 0;
    while i < v.len()
        invariant
            i <= v.len(),
            forall|j: int| 0 <= j < i ==> v@[j] != esc(),
        decreases v.len() - i,
    {
        if v[i] == '\x1b' {
            return true;
        }
        i += 1;
    }
    false
}

/// One line of weather ASCII art, coloured by the weather code.
pub fn weather_icon_line(line: &str, code: u32, color: bool) -> (r: String)
    ensures
        r@ == weather_icon_line_spec(line@, code, color),
{
    if !color {
        return strip_ansi(line);
    }
    let v = chars_of(line);
    if contains_esc(&v) {
        return owned(line);
    }
    let color_code = if code == 0 || code == 1 {
        "\x1b[38;5;226m"
    } else if code == 2 {
        "\x1b[38;5;220m"
    } else if code == 3 || code == 4 || code == 5 || code == 10 || code == 45 {
        "\x1b[38;5;248m"
    } else if code == 60 || code == 61 {
        "\x1b[38;5;51m"
    } else if code == 63 || code == 80 {
        "\x1b[38;5;27m"
    } else if code == 95 || code == 97 {
        "\x1b[38;5;201m"
    } else {
        "\x1b[38;5;250m"
    };
    paint(line, color_code, true)
}

/// A weather description, coloured like the weather's ASCII art.
pub fn desc_text(text: &str, code: u32, color: bool) -> (r: String)
    ensures
        r@ == weather_icon_line_spec(text@, code, color),
{
    weather_icon_line(text, code, color)
}

// ---------------------------------------------------------------------------
// ANSI 256-colour palette

/// Lower-case hexadecimal digit for `d < 16`.
pub open spec fn hex_digit(d: nat) -> char {
    if d < 10 {
        ('0' as u32 + d) as char
    } else {
        ('a' as u32 + (d - 10)) as char
    }
}

/// Two lower-case hexadecimal digits for `v < 256` (Rust's `{:02x}`).
pub open spec fn hex2(v: nat) -> Seq<char> {
    seq![hex_digit(v / 16), hex_digit(v % 16)]
}

/// The sixteen standard colours.
pub open spec fn basic_color(n: u8) -> Seq<char> {
    if n == 0 {
        "#000000"@
    } else if n == 1 {
        "#800000"@
    } else if n == 2 {
        "#008000"@
    } else if n == 3 {
        "#808000"@
    } else if n == 4 {
        "#000080"@
    } else if n == 5 {
        "#800080"@
    } else if n == 6 {
        "#008080"@
    } else if n == 7 {
        "#c0c0c0"@
    } else if n == 8 {
        "#808080"@
    } else if n == 9 {
        "#ff0000"@
    } else if n == 10 {
        "#00ff00"@
    } else if n == 11 {
        "#ffff00"@
    } else if n == 12 {
        "#0000ff"@
    } else if n == 13 {
        "#ff00ff"@
    } else if n == 14 {
        "#00ffff"@
    } else {
        "#ffffff"@
    }
}

/// Channel intensity of the colour cube for level `k < 6`.
pub open spec fn cube_level(k: nat) -> nat {
    if k == 0 {
        0
    } else {
        55 + 40 * k
    }
}

/// `#rrggbb` for an ANSI 256-colour index: the sixteen standard colours,
/// the 6x6x6 colour cube for 16..=231 and the grey ramp for 232..=255.
pub open spec fn hex_color(n: u8) -> Seq<char> {
    if n < 16 {
        basic_color(n)
    } else if n < 232 {
        let idx = (n - 16) as nat;
        seq!['#'] + hex2(cube_level(idx / 36)) + hex2(cube_level((idx % 36) / 6)) + hex2(
            cube_level(idx % 6),
        )
    } else {
        let shade = ((n - 232) * 10 + 8) as nat;
        seq!['#'] + hex2(shade) + hex2(shade) + hex2(shade)
    }
}

fn hex_digit_char(d: usize) -> (c: char)
    requires
        d < 16,
    ensures
        c == hex_digit(d as nat),
{
    let c = match d {
        0 => '0',
        1 => '1',
        2 => '2',
        3 => '3',
        4 => '4',
        5 => '5',
        6 => '6',
        7 => '7',
        8 => '8',
        9 => '9',
        10 => 'a',
        11 => 'b',
        12 => 'c',
        13 => 'd',
        14 => 'e',
        _ => 'f',
    };
    c
}

fn push_hex2(s: &mut String, v: usize)
    requires
        v < 256,
    ensures
        final(s)@ == old(s)@ + hex2(v as nat),
{
    push_char(s, hex_digit_char(v / 16));
    push_char(s, hex_digit_char(v % 16));
    assert(final(s)@ =~= old(s)@ + hex2(v as nat));
}

fn cube_value(k: usize) -> (v: usize)
    requires
        k < 6,
    ensures
        v == cube_level(k as nat),
        v < 256,
{
    let vals: [usize; 6] = [0, 95, 135, 175, 215, 255];
    vals[k]
}

/// Compute hex color for ANSI 256-color index.
pub fn ansi256_to_hex(n: u8) -> (r: String)
    ensures
        r@ == hex_color(n),
{
    if n < 16 {
        let basic = match n {
            0 => "#000000",
            1 => "#800000",
            2 => "#008000",
            3 => "#808000",
            4 => "#000080",
            5 => "#800080",
            6 => "#008080",
            7 => "#c0c0c0",
            8 => "#808080",
            9 => "#ff0000",
            10 => "#00ff00",
            11 => "#ffff00",
            12 => "#0000ff",
            13 => "#ff00ff",
            14 => "#00ffff",
            _ => "#ffffff",
        };
        return owned(basic);
    }
    let mut r = String::new();
    push_char(&mut r, '#');
    if n < 232 {
        let idx = n as usize - 16;
        push_hex2(&mut r, cube_value(idx / 36));
        push_hex2(&mut r, cube_value((idx % 36) / 6));
        push_hex2(&mut r, cube_value(idx % 6));
    } else {
        let shade = (n as usize - 232) * 10 + 8;
        push_hex2(&mut r, shade);
        push_hex2(&mut r, shade);
        push_hex2(&mut r, shade);
    }
    assert(r@ =~= hex_color(n));
    r
}

// ---------------------------------------------------------------------------
// ANSI to Pango

/// Number of characters of an escape sequence after its escape character:
/// up to and including the first `m`, or all that is left.
pub open spec fn csi_len(t: Seq<char>) -> nat
    decreases t.len(),
{
    if t.len() == 0 {
        0
    } else if t[0] == 'm' {
        1
    } else {
        1 + csi_len(t.drop_first())
    }
}

pub proof fn lemma_csi_len_bound(t: Seq<char>)
    ensures
        csi_len(t) <= t.len(),
    decreases t.len(),
{
    if t.len() > 0 && t[0] != 'm' {
        lemma_csi_len_bound(t.drop_first());
    }
}

/// `t` without its trailing `m` characters.
pub open spec fn trim_trailing_m(t: Seq<char>) -> Seq<char>
    decreases t.len(),
{
    if t.len() > 0 && t.last() == 'm' {
        trim_trailing_m(t.drop_last())
    } else {
        t
    }
}

/// Whether `c` is an ASCII decimal digit.
pub open spec fn is_digit(c: char) -> bool {
    '0' <= c && c <= '9'
}

/// Value of a string of decimal digits.
pub open spec fn digits_value(d: Seq<char>) -> nat
    decreases d.len(),
{
    if d.len() == 0 {
        0
    } else {
        digits_value(d.drop_last()) * 10 + (d.last() as nat - '0' as nat) as nat
    }
}

/// Whether every character of `d` is an ASCII decimal digit.
pub open spec fn all_digits(d: Seq<char>) -> bool {
    forall|i: int| 0 <= i < d.len() ==> is_digit(#[trigger] d[i])
}

/// The digits part of an unsigned number: `p` without one leading `+`.
pub open spec fn unsigned_digits(p: Seq<char>) -> Seq<char> {
    if p.len() > 0 && p[0] == '+' {
        p.drop_first()
    } else {
        p
    }
}

/// What Rust's `str::parse` gives for an unsigned integer type whose largest
/// value is `max`: an optional `+`, then one or more ASCII digits whose value
/// is at most `max`.
pub open spec fn parse_unsigned(p: Seq<char>, max: nat) -> Option<nat> {
    let d = unsigned_digits(p);
    if d.len() > 0 && all_digits(d) && digits_value(d) <= max {
        Some(digits_value(d))
    } else {
        None
    }
}

proof fn lemma_decimal_digits(n: nat)
    ensures
        crate::text::decimal(n).len() > 0,
        all_digits(crate::text::decimal(n)),
        digits_value(crate::text::decimal(n)) == n,
    decreases n,
{
    let d = crate::text::decimal(n);
    assert((crate::text::digit_char((n % 10) as nat) as nat - '0' as nat) == n % 10);
    assert(d.last() == crate::text::digit_char((n % 10) as nat));
    if n < 10 {
        assert(d.drop_last() =~= Seq::<char>::empty());
        assert(digits_value(d) == digits_value(d.drop_last()) * 10 + (d.last() as nat - '0' as nat) as nat);
    }
    if n >= 10 {
        lemma_decimal_digits(n / 10);
        assert(n == (n / 10) * 10 + n % 10);
        let p = crate::text::decimal(n / 10);
        assert(d.drop_last() =~= p);
        assert(digits_value(d) == digits_value(p) * 10 + (d.last() as nat - '0' as nat) as nat);
        assert(digits_value(d) == (n / 10) * 10 + n % 10);
        assert forall|i: int| 0 <= i < d.len() implies is_digit(#[trigger] d[i]) by {
            if i < p.len() {
                assert(d[i] == p[i]);
            }
        }
    }
}

/// Parsing the decimal notation of a number gives the number back.
pub proof fn law_parse_decimal(n: nat, max: nat)
    requires
        n <= max,
    ensures
        parse_unsigned(crate::text::decimal(n), max) == Some(n),
{
    lemma_decimal_digits(n);
    let d = crate::text::decimal(n);
    assert(d[0] != '+') by {
        assert(is_digit(d[0]));
    }
}

/// What `str::parse::<u8>` gives.
pub open spec fn parse_u8(p: Seq<char>) -> Option<u8> {
    match parse_unsigned(p, 255) {
        Some(v) => Some(v as u8),
        None => None,
    }
}

/// Splitting `t` at every `sep` (Rust's `str::split` with a character),
/// where `cur` is the piece gathered so far.
pub open spec fn split_from(t: Seq<char>, sep: char, cur: Seq<char>) -> Seq<Seq<char>>
    decreases t.len(),
{
    if t.len() == 0 {
        seq![cur]
    } else if t[0] == sep {
        seq![cur] + split_from(t.drop_first(), sep, seq![])
    } else {
        split_from(t.drop_first(), sep, cur.push(t[0]))
    }
}

/// The pieces of `t` between occurrences of `sep` (Rust's `str::split`).
pub open spec fn split_on(t: Seq<char>, sep: char) -> Seq<Seq<char>> {
    split_from(t, sep, seq![])
}

/// `</span>` when a colour span is open, nothing otherwise.
pub open spec fn close_span(fg: Option<u8>) -> Seq<char> {
    if fg is Some {
        "</span>"@
    } else {
        seq![]
    }
}

/// The opening tag of a span in the palette colour `n`.
pub open spec fn span_open(n: u8) -> Seq<char> {
    "<span foreground=\""@ + hex_color(n) + "\">"@
}

/// Where the parameters after a truecolour colour `38;2;r;g;b` or
/// `48;2;r;g;b` starting at `i` go on: past its five parameters, or to the
/// end of the list when it is cut short.
pub open spec fn truecolor_end(len: int, i: int) -> int {
    if i + 5 <= len {
        i + 5
    } else {
        len
    }
}

/// Effect of the SGR parameters `parts[i..]` on the output and on the open
/// colour: `0` closes the open span, `38;5;N` opens a span in colour `N`
/// (closing a different open one first), `48` skips the two parameters that
/// follow it when there are two, anything else is ignored.
pub open spec fn sgr_effect(parts: Seq<Option<u8>>, i: int, fg: Option<u8>) -> (Seq<char>, Option<u8>)
    decreases parts.len() - i,
{
    if i < 0 || i >= parts.len() {
        (seq![], fg)
    } else if parts[i] == Some(0u8) {
        let r = sgr_effect(parts, i + 1, None);
        (close_span(fg) + r.0, r.1)
    } else if parts[i] == Some(38u8) {
        if i + 2 < parts.len() && parts[i + 1] == Some(5u8) && parts[i + 2] is Some {
            let n = parts[i + 2]->0;
            let opened = if fg == Some(n) {
                Seq::<char>::empty()
            } else {
                close_span(fg) + span_open(n)
            };
            let r = sgr_effect(parts, i + 3, Some(n));
            (opened + r.0, r.1)
        } else if i + 1 < parts.len() && parts[i + 1] == Some(2u8) {
            sgr_effect(parts, truecolor_end(parts.len() as int, i), fg)
        } else {
            sgr_effect(parts, i + 1, fg)
        }
    } else if parts[i] == Some(48u8) {
        if i + 1 < parts.len() && parts[i + 1] == Some(2u8) {
            sgr_effect(parts, truecolor_end(parts.len() as int, i), fg)
        } else if parts.len() - i > 2 {
            sgr_effect(parts, i + 3, fg)
        } else {
            sgr_effect(parts, i + 1, fg)
        }
    } else {
        sgr_effect(parts, i + 1, fg)
    }
}

/// Effect of one escape sequence (the characters after the escape, `m`
/// included when present) on the output and on the open colour. Only
/// sequences that start with `[` are read; an empty parameter list or `0`
/// resets.
pub open spec fn csi_effect(seq: Seq<char>, fg: Option<u8>) -> (Seq<char>, Option<u8>) {
    if seq.len() > 0 && seq[0] == '[' {
        let inner = trim_trailing_m(seq.drop_first());
        if inner.len() == 0 || inner == seq!['0'] {
            (close_span(fg), None)
        } else {
            sgr_effect(split_on(inner, ';').map_values(|p: Seq<char>| parse_u8(p)), 0, fg)
        }
    } else {
        (seq![], fg)
    }
}

/// Pango markup for `s` when the colour `fg` is open: plain characters are
/// copied, each escape sequence has its effect, and an open span is closed at
/// the end.
pub open spec fn pango_from(s: Seq<char>, fg: Option<u8>) -> Seq<char>
    decreases s.len(),
{
    if s.len() == 0 {
        close_span(fg)
    } else if s[0] == esc() {
        let t = s.drop_first();
        let k = csi_len(t);
        proof {
            lemma_csi_len_bound(t);
        }
        let e = csi_effect(t.take(k as int), fg);
        e.0 + pango_from(t.skip(k as int), e.1)
    } else {
        seq![s[0]] + pango_from(s.drop_first(), fg)
    }
}

/// Pango markup for a text with ANSI colour sequences.
pub open spec fn ansi_to_pango_spec(s: Seq<char>) -> Seq<char> {
    pango_from(s, None)
}

pub proof fn lemma_digits_value_prefix(d: Seq<char>, k: int)
    requires
        0 <= k <= d.len(),
        all_digits(d),
    ensures
        digits_value(d.take(k)) <= digits_value(d),
    decreases d.len(),
{
    if k < d.len() {
        assert(d.drop_last().take(k) =~= d.take(k));
        lemma_digits_value_prefix(d.drop_last(), k);
    } else {
        assert(d.take(k) =~= d);
    }
}

/// `str::parse` of the characters `p` as an unsigned number no larger than `max`.
pub fn parse_unsigned_chars(p: &Vec<char>, max: u32) -> (r: Option<u32>)
    ensures
        match parse_unsigned(p@, max as nat) {
            Some(v) => r == Some(v as u32),
            None => r is None,
        },
{
    let start: usize = if p.len() > 0 && p[0] == '+' {
        1
    } else {
        0
    };
    let ghost d = unsigned_digits(p@);
    assert(d =~= p@.skip(start as int));
    if start >= p.len() {
        return None;
    }
    let mut acc: u64 = 0;
    let mut i = start;
    while i < p.len()
        invariant
            start <= i <= p.len(),
            start < p.len(),
            d == p@.skip(start as int),
            d == unsigned_digits(p@),
            acc == digits_value(p@.subrange(start as int, i as int)),
            acc <= max,
            forall|j: int| start <= j < i ==> is_digit(p@[j]),
        decreases p.len() - i,
    {
        let c = p[i];
        if !(c >= '0' && c <= '9') {
            assert(d[i - start] == c);
            assert(!is_digit(d[i - start]));
            assert(!all_digits(d)) by {
                assert(0 <= i - start < d.len());
            }
            assert(parse_unsigned(p@, max as nat) is None);
            return None;
        }
        let dv: u64 = (c as u32 - '0' as u32) as u64;
        let next = acc * 10 + dv;
        assert(p@.subrange(start as int, i + 1).drop_last() =~= p@.subrange(start as int, i as int));
        assert(digits_value(p@.subrange(start as int, i + 1)) == next);
        if next > max as u64 {
            assert(parse_unsigned(p@, max as nat) is None) by {
                if all_digits(d) {
                    assert(d.take(i + 1 - start) =~= p@.subrange(start as int, i + 1));
                    lemma_digits_value_prefix(d, i + 1 - start);
                    assert(digits_value(d) > max);
                }
            }
            return None;
        }
        acc = next;
        i += 1;
    }
    assert(p@.subrange(start as int, p.len() as int) =~= d);
    Some(acc as u32)
}

fn parse_u8_chars(p: &Vec<char>) -> (r: Option<u8>)
    ensures
        r == parse_u8(p@),
{
    match parse_unsigned_chars(p, 255) {
        Some(v) => Some(v as u8),
        None => None,
    }
}

/// Splitting gives at least one piece.
pub proof fn lemma_split_nonempty(t: Seq<char>, sep: char, cur: Seq<char>)
    ensures
        split_from(t, sep, cur).len() >= 1,
    decreases t.len(),
{
    if t.len() > 0 {
        if t[0] == sep {
            lemma_split_nonempty(t.drop_first(), sep, seq![]);
        } else {
            lemma_split_nonempty(t.drop_first(), sep, cur.push(t[0]));
        }
    }
}

/// The views of a vector of character vectors.
pub open spec fn views(v: Seq<Vec<char>>) -> Seq<Seq<char>> {
    v.map_values(|x: Vec<char>| x@)
}

/// `t[from..to]` split at every `sep`.
pub fn split_chars(t: &Vec<char>, from: usize, to: usize, sep: char) -> (pieces: Vec<Vec<char>>)
    requires
        from <= to <= t.len(),
    ensures
        views(pieces@) == split_on(t@.subrange(from as int, to as int), sep),
{
    let ghost whole = t@.subrange(from as int, to as int);
    let mut pieces: Vec<Vec<char>> = Vec::new();
    let mut cur: Vec<char> = Vec::new();
    let mut i = from;
    assert(t@.subrange(from as int, from as int) =~= Seq::<char>::empty());
    while i < to
        invariant
            from <= i <= to <= t.len(),
            whole == t@.subrange(from as int, to as int),
            views(pieces@) + split_from(t@.subrange(i as int, to as int), sep, cur@) == split_on(
                whole,
                sep,
            ),
        decreases to - i,
    {
        let c = t[i];
        let ghost rest = t@.subrange(i as int, to as int);
        assert(rest.drop_first() =~= t@.subrange(i + 1, to as int));
        if c == sep {
            let ghost old_pieces = views(pieces@);
            let ghost old_cur = cur@;
            pieces.push(cur);
            cur = Vec::new();
            assert(views(pieces@) =~= old_pieces.push(old_cur));
            assert(old_pieces + (seq![old_cur] + split_from(t@.subrange(i + 1, to as int), sep, seq![]))
                =~= old_pieces.push(old_cur) + split_from(t@.subrange(i + 1, to as int), sep, seq![]));
            assert(cur@ =~= Seq::<char>::empty());
        } else {
            cur.push(c);
        }
        i += 1;
    }
    let ghost old_pieces = views(pieces@);
    let ghost old_cur = cur@;
    assert(t@.subrange(to as int, to as int) =~= Seq::<char>::empty());
    pieces.push(cur);
    assert(views(pieces@) =~= old_pieces.push(old_cur));
    assert(views(pieces@) =~= split_on(whole, sep));
    pieces
}

fn same_color(fg: Option<u8>, n: u8) -> (b: bool)
    ensures
        b == (fg == Some(n)),
{
    match fg {
        Some(f) => f == n,
        None => false,
    }
}

fn push_close_span(out: &mut String, fg: Option<u8>)
    ensures
        final(out)@ == old(out)@ + close_span(fg),
{
    if fg.is_some() {
        push_str(out, "</span>");
    } else {
        assert(old(out)@ + close_span(fg) =~= old(out)@);
    }
}

fn push_span_open(out: &mut String, n: u8)
    ensures
        final(out)@ == old(out)@ + span_open(n),
{
    push_str(out, "<span foreground=\"");
    let hex = ansi256_to_hex(n);
    push_str(out, hex.as_str());
    push_str(out, "\">");
    assert(final(out)@ =~= old(out)@ + span_open(n));
}

fn skip_truecolor(len: usize, i: usize) -> (j: usize)
    requires
        i < len,
    ensures
        j == truecolor_end(len as int, i as int),
        i < j <= len,
{
    if len - i >= 5 {
        i + 5
    } else {
        len
    }
}

fn apply_sgr(parts: &Vec<Option<u8>>, fg0: Option<u8>, out: &mut String) -> (fg: Option<u8>)
    ensures
        final(out)@ == old(out)@ + sgr_effect(parts@, 0, fg0).0,
        fg == sgr_effect(parts@, 0, fg0).1,
{
    let ghost total = sgr_effect(parts@, 0, fg0);
    let mut i: usize = 0;
    let mut fg = fg0;
    while i < parts.len()
        invariant
            i <= parts.len(),
            total == sgr_effect(parts@, 0, fg0),
            out@ + sgr_effect(parts@, i as int, fg).0 == old(out)@ + total.0,
            sgr_effect(parts@, i as int, fg).1 == total.1,
        decreases parts.len() - i,
    {
        let ghost before = out@;
        let ghost fg_before = fg;
        match parts[i] {
            Some(0) => {
                push_close_span(out, fg);
                fg = None;
                i += 1;
                assert(before + sgr_effect(parts@, i - 1, fg_before).0 =~= out@ + sgr_effect(
                    parts@,
                    i as int,
                    fg,
                ).0);
            },
            Some(38) => {
                let mut opened = false;
                if parts.len() - i > 2 {
                    match parts[i + 1] {
                        Some(5) => {
                            match parts[i + 2] {
                                Some(n) => {
                                    if !same_color(fg, n) {
                                        push_close_span(out, fg);
                                        push_span_open(out, n);
                                    }
                                    fg = Some(n);
                                    i += 3;
                                    opened = true;
                                    assert(before + sgr_effect(parts@, i - 3, fg_before).0
                                        =~= out@ + sgr_effect(parts@, i as int, fg).0);
                                },
                                None => {},
                            }
                        },
                        _ => {},
                    }
                }
                if !opened {
                    if parts.len() - i > 1 && parts[i + 1] == Some(2u8) {
                        i = skip_truecolor(parts.len(), i);
                    } else {
                        i += 1;
                    }
                }
            },
            Some(48) => {
                if parts.len() - i > 1 && parts[i + 1] == Some(2u8) {
                    i = skip_truecolor(parts.len(), i);
                } else if parts.len() - i > 2 {
                    i += 3;
                } else {
                    i += 1;
                }
            },
            _ => {
                i += 1;
            },
        }
    }
    assert(out@ =~= old(out)@ + total.0);
    fg
}

fn apply_csi(seq: &Vec<char>, fg: Option<u8>, out: &mut String) -> (fg2: Option<u8>)
    ensures
        final(out)@ == old(out)@ + csi_effect(seq@, fg).0,
        fg2 == csi_effect(seq@, fg).1,
{
    if seq.len() == 0 || seq[0] != '[' {
        assert(old(out)@ + csi_effect(seq@, fg).0 =~= old(out)@);
        return fg;
    }
    let mut end = seq.len();
    assert(seq@.subrange(1, end as int) =~= seq@.drop_first());
    while end > 1 && seq[end - 1] == 'm'
        invariant
            1 <= end <= seq.len(),
            trim_trailing_m(seq@.subrange(1, end as int)) == trim_trailing_m(seq@.drop_first()),
        decreases end,
    {
        assert(seq@.subrange(1, end as int).drop_last() =~= seq@.subrange(1, end - 1));
        end -= 1;
    }
    let ghost inner = trim_trailing_m(seq@.drop_first());
    assert(inner == seq@.subrange(1, end as int));
    if end == 1 || (end == 2 && seq[1] == '0') {
        if end == 2 {
            assert(inner =~= seq!['0']);
        }
        push_close_span(out, fg);
        return None;
    }
    assert(inner != seq!['0']) by {
        if inner == seq!['0'] {
            assert(inner.len() == 1);
            assert(inner[0] == seq@[1]);
        }
    }
    let pieces = split_chars(seq, 1, end, ';');
    let mut params: Vec<Option<u8>> = Vec::new();
    let mut k: usize = 0;
    while k < pieces.len()
        invariant
            k <= pieces.len(),
            params@.len() == k,
            forall|j: int| 0 <= j < k ==> params@[j] == parse_u8(#[trigger] pieces@[j]@),
        decreases pieces.len() - k,
    {
        let p = parse_u8_chars(&pieces[k]);
        params.push(p);
        k += 1;
    }
    assert(params@ =~= split_on(inner, ';').map_values(|p: Seq<char>| parse_u8(p)));
    apply_sgr(&params, fg, out)
}

pub proof fn lemma_csi_len_scan(t: Seq<char>, k: int)
    requires
        0 <= k <= t.len(),
        forall|x: int| 0 <= x < k ==> t[x] != 'm',
    ensures
        k < t.len() && t[k] == 'm' ==> csi_len(t) == k + 1,
        k == t.len() ==> csi_len(t) == t.len(),
    decreases k,
{
    if k > 0 {
        lemma_csi_len_scan(t.drop_first(), k - 1);
    }
}

/// Convert ANSI escape sequences (basic 256-color) to Pango markup.
/// Supports: reset (0), foreground 256-color (38;5;N). Ignores unsupported codes,
/// truecolour `38;2;r;g;b` and `48;2;r;g;b` with all their components.
pub fn ansi_to_pango(s: &str) -> (r: String)
    ensures
        r@ == ansi_to_pango_spec(s@),
{
    let v = chars_of(s);
    let mut result = String::new();
    let mut fg: Option<u8> = None;
    let mut i: usize = 0;
    assert(v@.skip(0) =~= v@);
    while i < v.len()
        invariant
            i <= v.len(),
            result@ + pango_from(v@.skip(i as int), fg) == pango_from(v@, None),
        decreases v.len() - i,
    {
        let c = v[i];
        let ghost s_i = v@.skip(i as int);
        if c == '\x1b' {
            let ghost t = s_i.drop_first();
            assert(t =~= v@.skip(i + 1));
            let mut seq: Vec<char> = Vec::new();
            let mut j = i + 1;
            let mut done = false;
            while j < v.len() && !done
                invariant
                    i + 1 <= j <= v.len(),
                    seq@ == v@.subrange(i + 1, j as int),
                    done ==> j > i + 1 && v@[j - 1] == 'm',
                    forall|x: int| i + 1 <= x < j && !(done && x == j - 1) ==> v@[x] != 'm',
                decreases v.len() - j,
            {
                let c2 = v[j];
                seq.push(c2);
                j += 1;
                if c2 == 'm' {
                    done = true;
                }
                assert(seq@ =~= v@.subrange(i + 1, j as int));
            }
            proof {
                let k = j - (i + 1);
                if done {
                    lemma_csi_len_scan(t, k - 1);
                } else {
                    lemma_csi_len_scan(t, k);
                }
                assert(csi_len(t) == k);
                assert(t.take(k) =~= seq@);
                assert(t.skip(k) =~= v@.skip(j as int));
            }
            let ghost before = result@;
            let ghost fg_before = fg;
            fg = apply_csi(&seq, fg, &mut result);
            i = j;
            assert(before + pango_from(s_i, fg_before) =~= result@ + pango_from(v@.skip(i as int), fg));
        } else {
            assert(s_i.drop_first() =~= v@.skip(i + 1));
            push_char(&mut result, c);
            i += 1;
        }
    }
    assert(v@.skip(v.len() as int).len() == 0);
    push_close_span(&mut result, fg);
    assert(result@ =~= ansi_to_pango_spec(s@));
    result
}

// ---------------------------------------------------------------------------
// Laws of the Pango conversion

proof fn lemma_no_esc_concat(a: Seq<char>, b: Seq<char>)
    requires
        !has_char(a, esc()),
        !has_char(b, esc()),
    ensures
        !has_char(a + b, esc()),
{
    assert forall|i: int| 0 <= i < (a + b).len() implies (a + b)[i] != esc() by {
        if i < a.len() {
            assert((a + b)[i] == a[i]);
        } else {
            assert((a + b)[i] == b[i - a.len()]);
        }
    }
}

proof fn lemma_hex_color_no_esc(n: u8)
    ensures
        !has_char(hex_color(n), esc()),
{
    reveal_strlit("#000000");
    reveal_strlit("#800000");
    reveal_strlit("#008000");
    reveal_strlit("#808000");
    reveal_strlit("#000080");
    reveal_strlit("#800080");
    reveal_strlit("#008080");
    reveal_strlit("#c0c0c0");
    reveal_strlit("#808080");
    reveal_strlit("#ff0000");
    reveal_strlit("#00ff00");
    reveal_strlit("#ffff00");
    reveal_strlit("#0000ff");
    reveal_strlit("#ff00ff");
    reveal_strlit("#00ffff");
    reveal_strlit("#ffffff");
    let h = hex_color(n);
    assert forall|i: int| 0 <= i < h.len() implies h[i] != esc() by {
        if n >= 16 {
            assert(h[i] == '#' || ('0' <= h[i] && h[i] <= '9') || ('a' <= h[i] && h[i] <= 'f'));
        }
    }
}

proof fn lemma_tags_no_esc(fg: Option<u8>, n: u8)
    ensures
        !has_char(close_span(fg), esc()),
        !has_char(span_open(n), esc()),
{
    reveal_strlit("</span>");
    reveal_strlit("<span foreground=\"");
    reveal_strlit("\">");
    lemma_hex_color_no_esc(n);
    lemma_no_esc_concat("<span foreground=\""@, hex_color(n));
    lemma_no_esc_concat("<span foreground=\""@ + hex_color(n), "\">"@);
}

proof fn lemma_sgr_no_esc(parts: Seq<Option<u8>>, i: int, fg: Option<u8>)
    ensures
        !has_char(sgr_effect(parts, i, fg).0, esc()),
    decreases parts.len() - i,
{
    if 0 <= i < parts.len() {
        lemma_sgr_no_esc(parts, i + 1, None);
        lemma_sgr_no_esc(parts, i + 1, fg);
        lemma_sgr_no_esc(parts, truecolor_end(parts.len() as int, i), fg);
        if i + 2 < parts.len() {
            lemma_sgr_no_esc(parts, i + 3, fg);
        }
        if i + 2 < parts.len() && parts[i + 2] is Some {
            let n = parts[i + 2]->0;
            lemma_sgr_no_esc(parts, i + 3, Some(n));
            lemma_tags_no_esc(fg, n);
            lemma_no_esc_concat(close_span(fg), span_open(n));
            lemma_no_esc_concat(close_span(fg) + span_open(n), sgr_effect(parts, i + 3, Some(n)).0);
            lemma_no_esc_concat(Seq::<char>::empty(), sgr_effect(parts, i + 3, Some(n)).0);
        }
        lemma_tags_no_esc(fg, 0);
        lemma_no_esc_concat(close_span(fg), sgr_effect(parts, i + 1, None).0);
    }
}

proof fn lemma_pango_no_esc(s: Seq<char>, fg: Option<u8>)
    ensures
        !has_char(pango_from(s, fg), esc()),
    decreases s.len(),
{
    lemma_tags_no_esc(fg, 0);
    if s.len() > 0 {
        if s[0] == esc() {
            let t = s.drop_first();
            let k = csi_len(t);
            lemma_csi_len_bound(t);
            let seq = t.take(k as int);
            let e = csi_effect(seq, fg);
            lemma_pango_no_esc(t.skip(k as int), e.1);
            if seq.len() > 0 && seq[0] == '[' {
                let inner = trim_trailing_m(seq.drop_first());
                lemma_sgr_no_esc(split_on(inner, ';').map_values(|p: Seq<char>| parse_u8(p)), 0, fg);
            }
            lemma_no_esc_concat(e.0, pango_from(t.skip(k as int), e.1));
        } else {
            lemma_pango_no_esc(s.drop_first(), fg);
            lemma_no_esc_concat(seq![s[0]], pango_from(s.drop_first(), fg));
        }
    }
}

/// Pango markup holds no escape character: every ANSI sequence is consumed.
pub proof fn law_pango_has_no_escape(s: Seq<char>)
    ensures
        !has_char(ansi_to_pango_spec(s), esc()),
{
    lemma_pango_no_esc(s, None);
}

/// A text without escape sequences converts to itself.
pub proof fn law_pango_keeps_plain_text(s: Seq<char>)
    requires
        !has_char(s, esc()),
    ensures
        ansi_to_pango_spec(s) == s,
    decreases s.len(),
{
    if s.len() > 0 {
        assert(!has_char(s.drop_first(), esc())) by {
            assert forall|i: int| 0 <= i < s.drop_first().len() implies s.drop_first()[i] != esc() by {
                assert(s.drop_first()[i] == s[i + 1]);
            }
        }
        law_pango_keeps_plain_text(s.drop_first());
        assert(s[0] != esc());
        assert(seq![s[0]] + s.drop_first() =~= s);
    }
}


/// Whether `h` is a colour `#rrggbb` in lower-case hexadecimal digits.
pub open spec fn is_hex_color(h: Seq<char>) -> bool {
    &&& h.len() == 7
    &&& h[0] == '#'
    &&& forall|i: int| 1 <= i < 7 ==> ('0' <= #[trigger] h[i] <= '9') || ('a' <= h[i] <= 'f')
}

/// Reads markup `x` tag by tag, starting with a colour span open (`open`)
/// or not: the state at the end, or `None` when some `<` begins neither a
/// `</span>` that closes the open span nor a `<span foreground="#rrggbb">`
/// that opens one while none is open.
pub open spec fn span_state(x: Seq<char>, open: bool) -> Option<bool>
    decreases x.len(),
{
    if x.len() == 0 {
        Some(open)
    } else if x[0] != '<' {
        span_state(x.drop_first(), open)
    } else if open && x.len() >= 7 && x.take(7) == "</span>"@ {
        span_state(x.skip(7), false)
    } else if !open && x.len() >= 27 && x.take(18) == "<span foreground=\""@ && is_hex_color(
        x.subrange(18, 25),
    ) && x.subrange(25, 27) == "\">"@ {
        span_state(x.skip(27), true)
    } else {
        None
    }
}

proof fn lemma_span_state_concat(a: Seq<char>, b: Seq<char>, open: bool)
    requires
        span_state(a, open) is Some,
    ensures
        span_state(a + b, open) == span_state(b, span_state(a, open)->0),
    decreases a.len(),
{
    reveal_strlit("</span>");
    reveal_strlit("<span foreground=\"");
    reveal_strlit("\">");
    if a.len() == 0 {
        assert(a + b =~= b);
    } else if a[0] != '<' {
        assert((a + b).drop_first() =~= a.drop_first() + b);
        lemma_span_state_concat(a.drop_first(), b, open);
    } else if open && a.len() >= 7 && a.take(7) == "</span>"@ {
        assert((a + b).take(7) =~= a.take(7));
        assert((a + b).skip(7) =~= a.skip(7) + b);
        lemma_span_state_concat(a.skip(7), b, false);
    } else {
        assert((a + b).take(18) =~= a.take(18));
        assert((a + b).subrange(18, 25) =~= a.subrange(18, 25));
        assert((a + b).subrange(25, 27) =~= a.subrange(25, 27));
        assert((a + b).skip(27) =~= a.skip(27) + b);
        if open {
            assert((a + b).take(7) =~= a.take(7));
        }
        lemma_span_state_concat(a.skip(27), b, true);
    }
}

proof fn lemma_hex_color_shape(n: u8)
    ensures
        is_hex_color(hex_color(n)),
{
    reveal_strlit("#000000");
    reveal_strlit("#800000");
    reveal_strlit("#008000");
    reveal_strlit("#808000");
    reveal_strlit("#000080");
    reveal_strlit("#800080");
    reveal_strlit("#008080");
    reveal_strlit("#c0c0c0");
    reveal_strlit("#808080");
    reveal_strlit("#ff0000");
    reveal_strlit("#00ff00");
    reveal_strlit("#ffff00");
    reveal_strlit("#0000ff");
    reveal_strlit("#ff00ff");
    reveal_strlit("#00ffff");
    reveal_strlit("#ffffff");
    let h = hex_color(n);
    assert forall|i: int| 1 <= i < 7 implies ('0' <= #[trigger] h[i] <= '9') || ('a' <= h[i] <= 'f') by {
        if n >= 16 {
            assert(h[i] == '#' || ('0' <= h[i] && h[i] <= '9') || ('a' <= h[i] && h[i] <= 'f'));
        }
    }
}

proof fn lemma_tags_state(fg: Option<u8>, n: u8)
    ensures
        span_state(close_span(fg), fg is Some) == Some(false),
        span_state(span_open(n), false) == Some(true),
{
    reveal_strlit("</span>");
    reveal_strlit("<span foreground=\"");
    reveal_strlit("\">");
    let c = close_span(fg);
    if fg is Some {
        assert(c.take(7) =~= c);
        assert(c.skip(7) =~= Seq::<char>::empty());
        assert(c[0] == '<');
        assert(span_state(c.skip(7), false) == Some(false));
    } else {
        assert(c.len() == 0);
    }
    lemma_hex_color_shape(n);
    let o = span_open(n);
    assert(o.len() == 27);
    assert(o.take(18) =~= "<span foreground=\""@);
    assert(o.subrange(18, 25) =~= hex_color(n));
    assert(o.subrange(25, 27) =~= "\">"@);
    assert(o.skip(27) =~= Seq::<char>::empty());
    assert(o[0] == '<');
    assert(!(false && o.len() >= 7 && o.take(7) == "</span>"@));
    assert(span_state(o.skip(27), true) == Some(true));
}

proof fn lemma_sgr_state(parts: Seq<Option<u8>>, i: int, fg: Option<u8>)
    ensures
        span_state(sgr_effect(parts, i, fg).0, fg is Some) == Some(sgr_effect(parts, i, fg).1 is Some),
    decreases parts.len() - i,
{
    if 0 <= i < parts.len() {
        lemma_tags_state(fg, 0);
        if parts[i] == Some(0u8) {
            lemma_sgr_state(parts, i + 1, None);
            lemma_span_state_concat(close_span(fg), sgr_effect(parts, i + 1, None).0, fg is Some);
        } else if parts[i] == Some(38u8) {
            if i + 2 < parts.len() && parts[i + 1] == Some(5u8) && parts[i + 2] is Some {
                let n = parts[i + 2]->0;
                let r = sgr_effect(parts, i + 3, Some(n));
                lemma_sgr_state(parts, i + 3, Some(n));
                if fg == Some(n) {
                    assert(Seq::<char>::empty() + r.0 =~= r.0);
                } else {
                    lemma_tags_state(fg, n);
                    lemma_span_state_concat(close_span(fg), span_open(n), fg is Some);
                    lemma_span_state_concat(close_span(fg) + span_open(n), r.0, fg is Some);
                }
            } else if i + 1 < parts.len() && parts[i + 1] == Some(2u8) {
                lemma_sgr_state(parts, truecolor_end(parts.len() as int, i), fg);
            } else {
                lemma_sgr_state(parts, i + 1, fg);
            }
        } else if parts[i] == Some(48u8) {
            if i + 1 < parts.len() && parts[i + 1] == Some(2u8) {
                lemma_sgr_state(parts, truecolor_end(parts.len() as int, i), fg);
            } else if parts.len() - i > 2 {
                lemma_sgr_state(parts, i + 3, fg);
            } else {
                lemma_sgr_state(parts, i + 1, fg);
            }
        } else {
            lemma_sgr_state(parts, i + 1, fg);
        }
    }
}

proof fn lemma_pango_state(s: Seq<char>, fg: Option<u8>)
    requires
        !has_char(s, '<'),
    ensures
        span_state(pango_from(s, fg), fg is Some) == Some(false),
    decreases s.len(),
{
    lemma_tags_state(fg, 0);
    if s.len() > 0 {
        if s[0] == esc() {
            let t = s.drop_first();
            let k = csi_len(t);
            lemma_csi_len_bound(t);
            let seq = t.take(k as int);
            let e = csi_effect(seq, fg);
            assert(!has_char(t.skip(k as int), '<')) by {
                assert forall|j: int| 0 <= j < t.skip(k as int).len() implies t.skip(k as int)[j] != '<' by {
                    assert(t.skip(k as int)[j] == s[j + k + 1]);
                }
            }
            lemma_pango_state(t.skip(k as int), e.1);
            if seq.len() > 0 && seq[0] == '[' {
                let inner = trim_trailing_m(seq.drop_first());
                if !(inner.len() == 0 || inner == seq!['0']) {
                    lemma_sgr_state(split_on(inner, ';').map_values(|p: Seq<char>| parse_u8(p)), 0, fg);
                }
            } else {
                assert(span_state(e.0, fg is Some) == Some(fg is Some));
            }
            lemma_span_state_concat(e.0, pango_from(t.skip(k as int), e.1), fg is Some);
        } else {
            assert(!has_char(s.drop_first(), '<')) by {
                assert forall|j: int| 0 <= j < s.drop_first().len() implies s.drop_first()[j] != '<' by {
                    assert(s.drop_first()[j] == s[j + 1]);
                }
            }
            lemma_pango_state(s.drop_first(), fg);
            assert(s[0] != '<');
            let a = seq![s[0]];
            assert(span_state(a.drop_first(), fg is Some) == Some(fg is Some));
            lemma_span_state_concat(a, pango_from(s.drop_first(), fg), fg is Some);
        }
    }
}

/// For a text without `<`, the colour spans of the Pango markup are
/// balanced: every `<` in it begins either a `<span foreground="#rrggbb">`
/// while no span is open or a `</span>` that closes the open one, and no
/// span is left open at the end.
pub proof fn law_pango_spans_balanced(s: Seq<char>)
    requires
        !has_char(s, '<'),
    ensures
        span_state(ansi_to_pango_spec(s), false) == Some(false),
{
    lemma_pango_state(s, None);
}

proof fn lemma_pango_plain_prefix(p: Seq<char>, r: Seq<char>, fg: Option<u8>)
    requires
        !has_char(p, esc()),
    ensures
        pango_from(p + r, fg) == p + pango_from(r, fg),
    decreases p.len(),
{
    if p.len() == 0 {
        assert(p + r =~= r);
        assert(p + pango_from(r, fg) =~= pango_from(r, fg));
    } else {
        let t = p.drop_first();
        assert(!has_char(t, esc())) by {
            assert forall|i: int| 0 <= i < t.len() implies t[i] != esc() by {
                assert(t[i] == p[i + 1]);
            }
        }
        lemma_pango_plain_prefix(t, r, fg);
        assert((p + r)[0] == p[0]);
        assert(p[0] != esc());
        assert((p + r).drop_first() =~= t + r);
        assert(p + pango_from(r, fg) =~= seq![p[0]] + (t + pango_from(r, fg)));
    }
}

proof fn lemma_reset_sequence(code: Seq<char>, q: Seq<char>, fg: Option<u8>)
    requires
        code == "[m"@ || code == "[0m"@,
    ensures
        pango_from(seq![esc()] + code + q, fg) == close_span(fg) + pango_from(q, None),
{
    reveal_strlit("[m");
    reveal_strlit("[0m");
    let s = seq![esc()] + code + q;
    let t = s.drop_first();
    assert(t =~= code + q);
    let k = code.len() as int;
    assert forall|x: int| 0 <= x < k - 1 implies t[x] != 'm' by {}
    lemma_csi_len_scan(t, k - 1);
    assert(csi_len(t) == k);
    assert(t.take(k) =~= code);
    assert(t.skip(k) =~= q);
    reveal_with_fuel(trim_trailing_m, 3);
    let inner = trim_trailing_m(code.drop_first());
    if code == "[m"@ {
        assert(code.drop_first() =~= seq!['m']);
        assert(seq!['m'].drop_last() =~= Seq::<char>::empty());
        assert(inner =~= Seq::<char>::empty());
    } else {
        assert(code.drop_first() =~= seq!['0', 'm']);
        assert(seq!['0', 'm'].drop_last() =~= seq!['0']);
        assert(inner =~= seq!['0']);
    }
}

/// An escape sequence with no parameters, `ESC[m`, resets exactly like
/// `ESC[0m`: after any plain text `p`, with any colour open, the markup is
/// `p`, the closing of the open span, and the rest converted with no span
/// open; so text after either reset is outside every span.
pub proof fn law_empty_sequence_resets(p: Seq<char>, q: Seq<char>, fg: Option<u8>)
    requires
        !has_char(p, esc()),
    ensures
        pango_from(p + seq![esc(), '[', 'm'] + q, fg) == p + close_span(fg) + pango_from(q, None),
        pango_from(p + seq![esc(), '[', '0', 'm'] + q, fg) == p + close_span(fg) + pango_from(q, None),
        pango_from(p + seq![esc(), '[', 'm'] + q, fg) == pango_from(p + seq![esc(), '[', '0', 'm'] + q, fg),
{
    reveal_strlit("[m");
    reveal_strlit("[0m");
    let a = seq![esc()] + "[m"@ + q;
    let b = seq![esc()] + "[0m"@ + q;
    assert(p + seq![esc(), '[', 'm'] + q =~= p + a);
    assert(p + seq![esc(), '[', '0', 'm'] + q =~= p + b);
    lemma_pango_plain_prefix(p, a, fg);
    lemma_pango_plain_prefix(p, b, fg);
    lemma_reset_sequence("[m"@, q, fg);
    lemma_reset_sequence("[0m"@, q, fg);
    assert(p + (close_span(fg) + pango_from(q, None)) =~= p + close_span(fg) + pango_from(q, None));
}

} // verus!
