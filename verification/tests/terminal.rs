use cuaca::display::terminal::colorize::SparkColor;
use cuaca::display::terminal::{colorize_spark_panel, format_wind_dir_icon, render_row};

#[test]
fn test_render_row() {
    let title1 = "Temp";
    let title2 = "Rain";
    let title3 = "Wind";
    let panel1 = vec![" 25°C".to_string()];
    let panel2 = vec!["0.0 mm".to_string()];
    let panel3 = vec!["5 km/h".to_string()];
    let mut out = String::new();
    render_row(&mut out, title1, &panel1, title2, &panel2, title3, &panel3);
    assert!(out.contains(title1));
    assert!(out.contains(title2));
    assert!(out.contains(title3));
}

#[test]
fn render_row_layout() {
    let mut out = String::from(">");
    let p1 = vec!["a".to_string(), "b".to_string()];
    let p2: Vec<String> = vec![];
    let p3 = vec!["c".to_string()];
    render_row(&mut out, "Temp", &p1, "Rain", &p2, "Wind", &p3);
    let lines: Vec<&str> = out.split('\n').collect();
    // The title line, one line per row of the tallest panel, then the end.
    assert_eq!(lines.len(), 4);
    let title_field = format!("{}Temp{}", " ".repeat(16), " ".repeat(10));
    assert_eq!(lines[0], format!(">{}  {}  {}", title_field, title_field.replace("Temp", "Rain"), title_field.replace("Temp", "Wind")));
    assert_eq!(lines[1], format!("{:<30}  {:<30}  {:<30}", "a", "", "c"));
    assert_eq!(lines[2], format!("{:<30}  {:<30}  {:<30}", "b", "", ""));
    assert_eq!(lines[3], "");
}

#[test]
fn render_row_truncates_long_titles() {
    let mut out = String::new();
    let long = "ABCDEFGHIJKLMNOPQRSTUVWXYZ";
    render_row(&mut out, long, &[], "x", &[], "y", &[]);
    let first = out.lines().next().unwrap();
    assert!(first.starts_with("      ABCDEFGHIJKLMNOPQRSTUVWX  "));
    assert!(!first.contains("YZ"));
}

#[test]
fn colorize_spark_panel_paints_every_row() {
    let mut rows = vec!["▁▂".to_string(), "▃".to_string()];
    colorize_spark_panel(&mut rows, SparkColor::Rain, true);
    assert_eq!(rows, vec!["\x1b[38;5;27m▁▂\x1b[0m".to_string(), "\x1b[38;5;27m▃\x1b[0m".to_string()]);
    let mut plain = vec!["x".to_string()];
    colorize_spark_panel(&mut plain, SparkColor::Wind, false);
    assert_eq!(plain, vec!["x".to_string()]);
}

#[test]
fn terminal_wind_icon_uses_emoji() {
    assert_eq!(format_wind_dir_icon(0), "\u{2b06}\u{fe0f}");
    assert_eq!(format_wind_dir_icon(100), "\u{27a1}\u{fe0f}");
}
