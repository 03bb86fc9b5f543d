use cuaca::cli::ColorMode;
use cuaca::color::{
    ansi256_to_hex, ansi_to_pango, cloud_bar, color_enabled, desc_text, dim, header, humid_spark,
    rain_bar, strip_ansi, temp_line, vis_spark, warning, weather_icon_line, wind_spark,
};

#[test]
fn test_ansi_to_pango_256_color() {
    let hex = ansi256_to_hex(226);
    let input = "\x1b[38;5;226mHello\x1b[0m";
    let output = ansi_to_pango(input);
    assert!(output.contains(&format!("foreground=\"{}\"", hex)));
    assert!(output.contains("Hello"));
    assert!(!output.contains('\x1b'));
}

#[test]
fn test_ansi_to_pango_reset() {
    let input = "\x1b[0mNormal";
    let output = ansi_to_pango(input);
    assert_eq!(output, "Normal");
}

#[test]
fn test_ansi_to_pango_multiple_colors() {
    let hex1 = ansi256_to_hex(226);
    let hex2 = ansi256_to_hex(51);
    let input = "\x1b[38;5;226mRedish\x1b[38;5;51mBlueish\x1b[0mEnd";
    let output = ansi_to_pango(input);
    assert!(output.contains(&format!("foreground=\"{}\"", hex1)));
    assert!(output.contains(&format!("foreground=\"{}\"", hex2)));
    assert!(output.contains("Redish"));
    assert!(output.contains("Blueish"));
    assert!(output.contains("End"));
}

#[test]
fn test_ansi_to_pango_ignore_unsupported() {
    let input = "\x1b[38;2;255;0;0mTrueColor\x1b[0m";
    let output = ansi_to_pango(input);
    assert_eq!(output, "TrueColor");
}

#[test]
fn ansi_to_pango_exact_span() {
    assert_eq!(
        ansi_to_pango("\x1b[38;5;226mHello\x1b[0m"),
        "<span foreground=\"#ffff00\">Hello</span>"
    );
    assert_eq!(
        ansi_to_pango("\x1b[38;5;33;1mA\x1b[38;5;51mB\x1b[0mC"),
        "<span foreground=\"#0087ff\">A</span><span foreground=\"#00ffff\">B</span>C"
    );
    // A colour that is still open at the end is closed.
    assert_eq!(ansi_to_pango("\x1b[38;5;9mX"), "<span foreground=\"#ff0000\">X</span>");
    // Plain text passes through unchanged.
    assert_eq!(ansi_to_pango("plain text"), "plain text");
}

#[test]
fn ansi256_to_hex_ranges() {
    assert_eq!(ansi256_to_hex(0), "#000000");
    assert_eq!(ansi256_to_hex(9), "#ff0000");
    assert_eq!(ansi256_to_hex(15), "#ffffff");
    assert_eq!(ansi256_to_hex(16), "#000000");
    assert_eq!(ansi256_to_hex(51), "#00ffff");
    assert_eq!(ansi256_to_hex(196), "#ff0000");
    assert_eq!(ansi256_to_hex(226), "#ffff00");
    assert_eq!(ansi256_to_hex(231), "#ffffff");
    assert_eq!(ansi256_to_hex(232), "#080808");
    assert_eq!(ansi256_to_hex(244), "#808080");
    assert_eq!(ansi256_to_hex(255), "#eeeeee");
}

#[test]
fn strip_ansi_removes_sequences() {
    assert_eq!(strip_ansi("\x1b[38;5;250m  .--.  \x1b[0m"), "  .--.  ");
    assert_eq!(strip_ansi("a\x1b[1mb\x1b[0mc"), "abc");
    assert_eq!(strip_ansi("no codes"), "no codes");
}

#[test]
fn color_mode_decision() {
    assert!(color_enabled(ColorMode::Always, None, false));
    assert!(!color_enabled(ColorMode::Never, None, true));
    assert!(color_enabled(ColorMode::Auto, None, true));
    assert!(!color_enabled(ColorMode::Auto, None, false));
    assert!(!color_enabled(ColorMode::Auto, Some("1"), true));
    // An empty NO_COLOR does not switch colour off.
    assert!(color_enabled(ColorMode::Auto, Some(""), true));
}

#[test]
fn painting_functions() {
    assert_eq!(rain_bar("x", true), "\x1b[38;5;27mx\x1b[0m");
    assert_eq!(rain_bar("x", false), "x");
    assert_eq!(cloud_bar("x", true), "\x1b[38;5;244mx\x1b[0m");
    assert_eq!(header("T", true), "\x1b[1;37mT\x1b[0m");
    assert_eq!(dim("d", true), "\x1b[2md\x1b[0m");
    assert_eq!(warning("w", true), "\x1b[38;5;226mw\x1b[0m");
    assert_eq!(warning("w", false), "w");
    assert_eq!(humid_spark("h", false), "h");
    assert_eq!(wind_spark("w", false), "w");
    assert_eq!(vis_spark("v", false), "v");
}

#[test]
fn temp_line_bands() {
    assert_eq!(temp_line("t", 10, true), "\x1b[38;5;33mt\x1b[0m");
    assert_eq!(temp_line("t", 11, true), "\x1b[38;5;51mt\x1b[0m");
    assert_eq!(temp_line("t", 25, true), "\x1b[38;5;49mt\x1b[0m");
    assert_eq!(temp_line("t", 28, true), "\x1b[38;5;226mt\x1b[0m");
    assert_eq!(temp_line("t", 32, true), "\x1b[38;5;214mt\x1b[0m");
    assert_eq!(temp_line("t", 33, true), "\x1b[38;5;196mt\x1b[0m");
    assert_eq!(temp_line("t", 40, false), "t");
}

#[test]
fn weather_icon_line_colours() {
    assert_eq!(weather_icon_line("  .-.  ", 0, true), "\x1b[38;5;226m  .-.  \x1b[0m");
    assert_eq!(weather_icon_line("rain", 63, true), "\x1b[38;5;27mrain\x1b[0m");
    assert_eq!(weather_icon_line("x", 99, true), "\x1b[38;5;250mx\x1b[0m");
    // Pre-coloured lines are left as they are.
    assert_eq!(weather_icon_line("\x1b[1mA\x1b[0m", 0, true), "\x1b[1mA\x1b[0m");
    // Without colour, sequences are stripped.
    assert_eq!(weather_icon_line("\x1b[1mA\x1b[0m", 0, false), "A");
    assert_eq!(desc_text("Sunny", 1, true), "\x1b[38;5;226mSunny\x1b[0m");
}

#[test]
fn truecolor_sequences_are_ignored_whole() {
    assert_eq!(
        ansi_to_pango("\x1b[38;5;226mA\x1b[38;2;0;0;0mB"),
        "<span foreground=\"#ffff00\">AB</span>"
    );
    assert_eq!(
        ansi_to_pango("\x1b[38;5;226mA\x1b[48;2;0;0;0mB"),
        "<span foreground=\"#ffff00\">AB</span>"
    );
    // A reset after the truecolour components still resets.
    assert_eq!(
        ansi_to_pango("\x1b[38;5;226mA\x1b[38;2;1;2;3;0mB"),
        "<span foreground=\"#ffff00\">A</span>B"
    );
}
