use cuaca::weather_core::graphs::{column_chart_rows, generate_time_labels, slot_index, time_axis};

#[test]
fn time_axis_generates_eight_labels() {
    let labels = generate_time_labels(9);
    assert_eq!(labels.len(), 8);
    assert_eq!(labels[0], "9");
    assert_eq!(labels[1], "12");
    assert_eq!(labels[2], "15");
    assert_eq!(labels[3], "18");
    assert_eq!(labels[4], "21");
    assert_eq!(labels[5], "0");
    assert_eq!(labels[6], "3");
    assert_eq!(labels[7], "6");
}

#[test]
fn time_axis_generates_eight_labels_from_18() {
    let labels = generate_time_labels(18);
    assert_eq!(labels[0], "18");
    assert_eq!(labels[1], "21");
    assert_eq!(labels[2], "0");
    assert_eq!(labels[3], "3");
    assert_eq!(labels[4], "6");
    assert_eq!(labels[5], "9");
    assert_eq!(labels[6], "12");
    assert_eq!(labels[7], "15");
}

#[test]
fn time_axis_places_vertical_spine_at_midnight() {
    let labels = generate_time_labels(18);
    let axis = time_axis(&labels, 24, 3);
    let spine_pos = 6;
    assert_eq!(axis.chars().nth(spine_pos), Some('│'));
}

#[test]
fn time_axis_centers_labels() {
    let labels = generate_time_labels(0);
    let axis = time_axis(&labels, 24, 3);
    assert!(axis.contains('0'));
    let first_slot: String = axis.chars().take(3).collect();
    assert!(first_slot.contains('0'));
}

#[test]
fn slot_index_computes_correctly() {
    assert_eq!(slot_index(9, 9), 0);
    assert_eq!(slot_index(9, 12), 1);
    assert_eq!(slot_index(9, 15), 2);
    assert_eq!(slot_index(9, 18), 3);
    assert_eq!(slot_index(9, 21), 4);
    assert_eq!(slot_index(9, 0), 5);
    assert_eq!(slot_index(9, 3), 6);
    assert_eq!(slot_index(9, 6), 7);
    assert_eq!(slot_index(0, 0), 0);
    assert_eq!(slot_index(0, 21), 7);
    assert_eq!(slot_index(18, 18), 0);
    assert_eq!(slot_index(18, 21), 1);
    assert_eq!(slot_index(18, 0), 2);
}

#[test]
fn time_labels_wrap_past_midnight() {
    let labels = generate_time_labels(23);
    assert_eq!(labels, vec!["23", "2", "5", "8", "11", "14", "17", "20"]);
}

#[test]
fn time_axis_has_requested_width() {
    let labels = generate_time_labels(6);
    let axis = time_axis(&labels, 24, 3);
    assert_eq!(axis.chars().count(), 24);
    let empty: Vec<String> = Vec::new();
    assert_eq!(time_axis(&empty, 5, 3), "     ");
}

#[test]
fn column_chart_rows_draws_bars_and_axis() {
    let ticks: Vec<String> = vec!["30".into(), "10".into()];
    let times: Vec<String> = vec!["9".into(), "12".into()];
    let bars: Vec<usize> = vec![0, 1];
    let rows = column_chart_rows(&ticks, &times, &bars);
    // One row per tick, then the time axis.
    assert_eq!(rows.len(), 3);
    assert!(rows[0].trim_start().starts_with("30"));
    assert!(rows[1].trim_start().starts_with("10"));
    assert!(rows[1].contains('█'));
    assert!(rows[2].contains('9'));
}
