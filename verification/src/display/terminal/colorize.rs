//! Colouring of chart panels.
use vstd::prelude::*;
use crate::color::{cloud_bar, humid_spark, paint_if, rain_bar, vis_spark, wind_spark};

verus! {

/// The colour scheme of a chart panel.
#[derive(Debug, Clone, Copy, PartialEq, Eq, Structural)]
pub enum SparkColor {
    Rain,
    Cloud,
    Humidity,
    Wind,
    Visibility,
}

/// The ANSI colour code of a panel's colour scheme.
pub open spec fn spark_code(kind: SparkColor) -> Seq<char> {
    match kind {
        SparkColor::Rain => "\x1b[38;5;27m"@,
        SparkColor::Cloud => "\x1b[38;5;244m"@,
        SparkColor::Humidity => "\x1b[38;5;129m"@,
        SparkColor::Wind => "\x1b[38;5;46m"@,
        SparkColor::Visibility => "\x1b[38;5;51m"@,
    }
}

/// Paints every row of a chart panel in the panel's colour.
pub fn colorize_spark_panel(rows: &mut Vec<String>, kind: SparkColor, color: bool)
    ensures
        final(rows)@.len() == old(rows)@.len(),
        forall|i: int|
            0 <= i < old(rows)@.len() ==> #[trigger] final(rows)@[i]@ == paint_if(
                color,
                old(rows)@[i]@,
                spark_code(kind),
            ),
{
    let mut i: usize = 0;
    while i < rows.len()
        invariant
            i <= rows.len(),
            rows@.len() == old(rows)@.len(),
            forall|j: int| i <= j < rows@.len() ==> #[trigger] rows@[j] == old(rows)@[j],
            forall|j: int|
                0 <= j < i ==> #[trigger] rows@[j]@ == paint_if(color, old(rows)@[j]@, spark_code(kind)),
        decreases rows.len() - i,
    {
        let painted = match kind {
            SparkColor::Rain => rain_bar(rows[i].as_str(), color),
            SparkColor::Cloud => cloud_bar(rows[i].as_str(), color),
            SparkColor::Humidity => humid_spark(rows[i].as_str(), color),
            SparkColor::Wind => wind_spark(rows[i].as_str(), color),
            SparkColor::Visibility => vis_spark(rows[i].as_str(), color),
        };
        rows.set(i, painted);
        i += 1;
    }
}

} // verus!
