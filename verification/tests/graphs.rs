use cuaca::graphs::{braille_curve, sparkline_from_levels, stretch_to_width, time_axis, PANEL_GRAPH_W};

#[test]
fn time_axis_shows_all_labels() {
    let times: Vec<String> = vec!["07", "10", "13", "16", "19", "22"]
        .into_iter()
        .map(String::from)
        .collect();
    let axis = time_axis(&times, 24);
    for hour in &times {
        assert!(axis.contains(hour), "Missing hour {} in axis: {}", hour, axis);
    }
}

#[test]
fn stretch_to_width_repeats_characters() {
    assert_eq!(stretch_to_width("ab", 4), "aabb");
    assert_eq!(stretch_to_width("abc", 3), "abc");
    assert_eq!(stretch_to_width("", 5), "     ");
    let s = stretch_to_width("▁▂▃", PANEL_GRAPH_W);
    assert_eq!(s.chars().count(), PANEL_GRAPH_W);
}

#[test]
fn sparkline_from_levels_maps_to_blocks() {
    assert_eq!(sparkline_from_levels(&vec![0, 1, 2, 3, 4, 5, 6, 7]), "▁▂▃▄▅▆▇█");
    assert_eq!(sparkline_from_levels(&vec![7, 7, 7]), "███");
    assert_eq!(sparkline_from_levels(&vec![]), "");
}

#[test]
fn braille_curve_draws_rising_line() {
    let flat = braille_curve(&vec![0, 0]);
    assert_eq!(flat.chars().count(), 2);
    let rising = braille_curve(&vec![0, 1, 2, 3]);
    assert_eq!(rising.chars().count(), 4);
    for c in rising.chars() {
        assert!(('\u{2800}'..='\u{28ff}').contains(&c));
    }
    assert_ne!(rising, braille_curve(&vec![3, 2, 1, 0]));
}
