//! ASCII weather art without colours; colour is added per weather code.
use vstd::prelude::*;

verus! {

/// Five lines of ASCII art for a weather condition.
pub type AsciiIcon = [&'static str; 5];

pub const CODE_CLOUDY: AsciiIcon = [
    "             ",
    "     .--.    ",
    "  .-(    ).  ",
    " (___.__)__) ",
    "             ",
];

pub const CODE_FOG: AsciiIcon = [
    "             ",
    " _ - _ - _ - ",
    "  _ - _ - _  ",
    " _ - _ - _ - ",
    "             ",
];

pub const CODE_HEAVY_RAIN: AsciiIcon = [
    "     .-.     ",
    "    (   ).   ",
    "   (___(__)  ",
    "  ‚ʻ‚ʻ‚ʻ‚ʻ   ",
    "  ‚ʻ‚ʻ‚ʻ‚ʻ   ",
];

pub const CODE_LIGHT_RAIN: AsciiIcon = [
    "     .-.     ",
    "    (   ).   ",
    "   (___(__)  ",
    "    ʻ ʻ ʻ ʻ  ",
    "   ʻ ʻ ʻ ʻ   ",
];

pub const CODE_PARTLY_CLOUDY: AsciiIcon = [
    "   \\__/      ",
    " __/  .-.    ",
    "   \\_(   ).  ",
    "   /(___(__) ",
    "             ",
];

pub const CODE_SUNNY: AsciiIcon = [
    "    \\ . /    ",
    "   - .-. -   ",
    "  ‒ (   ) ‒  ",
    "   . `-᾿ .   ",
    "    / ' \\    ",
];

pub const CODE_THUNDERY_HEAVY_RAIN: AsciiIcon = [
    "     .-.     ",
    "    (   ).   ",
    "   (___(__)  ",
    "  ‚ʻ⚡ʻ‚⚡‚ʻ   ",
    "  ‚ʻ‚ʻ⚡ʻ‚ʻ   ",
];

pub const CODE_UNKNOWN: AsciiIcon = [
    "    .-.      ",
    "     __)     ",
    "    (        ",
    "     `-᾿     ",
    "      •      ",
];

pub const CODE_VERY_CLOUDY: AsciiIcon = [
    "             ",
    "     .--.    ",
    "  .-(    ).  ",
    " (___.__)__) ",
    "             ",
];

/// The art for a BMKG weather code.
pub open spec fn ascii_icon(code: u32) -> AsciiIcon {
    if code == 0 || code == 1 {
        CODE_SUNNY
    } else if code == 2 {
        CODE_PARTLY_CLOUDY
    } else if code == 3 {
        CODE_CLOUDY
    } else if code == 4 {
        CODE_VERY_CLOUDY
    } else if code == 5 || code == 10 || code == 45 {
        CODE_FOG
    } else if code == 60 || code == 61 {
        CODE_LIGHT_RAIN
    } else if code == 63 || code == 80 {
        CODE_HEAVY_RAIN
    } else if code == 95 || code == 97 {
        CODE_THUNDERY_HEAVY_RAIN
    } else {
        CODE_UNKNOWN
    }
}

/// The ASCII art for a BMKG weather code; unknown codes get a question mark.
pub fn get_ascii_icon(code: u32) -> (icon: AsciiIcon)
    ensures
        icon == ascii_icon(code),
{
    match code {
        0 | 1 => CODE_SUNNY,
        2 => CODE_PARTLY_CLOUDY,
        3 => CODE_CLOUDY,
        4 => CODE_VERY_CLOUDY,
        5 | 10 | 45 => CODE_FOG,
        60 | 61 => CODE_LIGHT_RAIN,
        63 | 80 => CODE_HEAVY_RAIN,
        95 | 97 => CODE_THUNDERY_HEAVY_RAIN,
        _ => CODE_UNKNOWN,
    }
}

} // verus!
