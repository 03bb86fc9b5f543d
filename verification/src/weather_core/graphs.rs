//! Column charts with a fixed eight-slot, three-hour time axis.
use vstd::prelude::*;
use crate::color::{parse_unsigned, parse_unsigned_chars};
use crate::text::{
    chars_of, decimal, pad_left, push_char, push_chars, push_padded_left, push_str, push_u64, spaces,
    string_of, trim, trim_bounds,
};

verus! {

broadcast use vstd::string::group_string_axioms;

/// Number of three-hour slots on the time axis.
pub const TIME_SLOTS: usize = 8;

/// Width of the graph area in columns.
pub const PANEL_GRAPH_W: usize = 24;

/// The hour shown by the `i`-th time label when the first label shows `first`:
/// three hours per slot, wrapping at 24.
pub open spec fn label_hour(first: nat, i: nat) -> nat {
    if i == 0 {
        first
    } else {
        ((first + 3 * i) % 24) as nat
    }
}

/// Generate exactly 8 fixed time labels starting from the first hour (no rounding),
/// incrementing by 3 hours, wrapping at 24. Labels are simple numbers (e.g., "9", "12")
pub fn generate_time_labels(first_hour: u32) -> (labels: Vec<String>)
    requires
        first_hour + 3 <= u32::MAX,
    ensures
        labels.len() == TIME_SLOTS,
        forall|i: int| 0 <= i < TIME_SLOTS ==> #[trigger] labels@[i]@ == decimal(label_hour(first_hour as nat, i as nat)),
{
    let mut labels: Vec<String> = Vec::new();
    let mut h = first_hour;
    let mut k: usize = 0;
    while k < TIME_SLOTS
        invariant
            k <= TIME_SLOTS,
            first_hour + 3 <= u32::MAX,
            labels.len() == k,
            h == label_hour(first_hour as nat, k as nat),
            k > 0 ==> h < 24,
            forall|i: int| 0 <= i < k ==> #[trigger] labels@[i]@ == decimal(label_hour(first_hour as nat, i as nat)),
        decreases TIME_SLOTS - k,
    {
        let mut s = String::new();
        push_u64(&mut s, h as u64);
        labels.push(s);
        proof {
            if k > 0 {
                assert((first_hour + 3 * k) % 24 == h);
                assert(((h + 3) % 24) as nat == ((first_hour + 3 * (k + 1)) % 24) as nat) by (nonlinear_arith)
                    requires
                        (first_hour + 3 * k) % 24 == h,
                ;
            }
        }
        h = (h + 3) % 24;
        k += 1;
    }
    labels
}

/// Consecutive time labels are three hours apart on a 24-hour clock.
pub proof fn law_time_labels_step_three_hours(first: nat, i: nat)
    requires
        first < 24,
    ensures
        label_hour(first, i + 1) == (label_hour(first, i) + 3) % 24,
{
    assert((first + 3 * (i + 1)) % 24 == (((first + 3 * i) % 24) + 3) % 24) by (nonlinear_arith);
}

/// The value of `x` read as a signed 32-bit number (Rust's `x as i32`).
pub open spec fn as_i32(x: u32) -> int {
    if x <= 0x7fff_ffff {
        x as int
    } else {
        x as int - 0x1_0000_0000
    }
}

/// Whether `hour as i32 - base as i32` stays within `i32`.
pub open spec fn slot_diff_fits(base: u32, hour: u32) -> bool {
    i32::MIN <= as_i32(hour) - as_i32(base) <= i32::MAX
}

/// The slot of `hour` on an axis whose first slot starts at `base`.
pub open spec fn slot_of(base: u32, hour: u32) -> int {
    ((as_i32(hour) - as_i32(base)) % 24) / 3
}

fn signed_value(x: u32) -> (v: i64)
    ensures
        v == as_i32(x),
{
    if x <= 0x7fff_ffff {
        x as i64
    } else {
        x as i64 - 0x1_0000_0000
    }
}

/// Computes the slot index (0..TIME_SLOTS) for a data point's hour relative to base.
/// base_hour: hour from first data point
/// hour: hour from current data point
pub fn slot_index(base_hour: u32, hour: u32) -> (slot: usize)
    requires
        slot_diff_fits(base_hour, hour),
    ensures
        slot == slot_of(base_hour, hour),
        slot < TIME_SLOTS,
{
    let diff: i64 = signed_value(hour) - signed_value(base_hour);
    let m: i64 = if diff >= 0 {
        diff % 24
    } else {
        let r = (-diff) % 24;
        let m2: i64 = if r == 0 {
            0
        } else {
            24 - r
        };
        assert(m2 == diff % 24) by (nonlinear_arith)
            requires
                diff < 0,
                r == (-diff) % 24,
                r == 0 ==> m2 == 0,
                r != 0 ==> m2 == 24 - r,
        ;
        m2
    };
    (m / 3) as usize
}

/// A data point `3 * k` hours after the base falls in slot `k`.
pub proof fn law_slot_of_label_hour(base: u32, k: nat)
    requires
        base < 24,
        k < 8,
    ensures
        slot_of(base, label_hour(base as nat, k) as u32) == k,
{
    let h = label_hour(base as nat, k);
    assert(h == (base + 3 * k) % 24);
    assert(((h - base) % 24) / 3 == k) by (nonlinear_arith)
        requires
            h == (base + 3 * k) % 24,
            base < 24,
            k < 8,
    ;
}

// ---------------------------------------------------------------------------
// Time axis

/// Where a label of `byte_len` bytes starts when centred under slot `i`.
pub open spec fn label_start(i: int, slot_width: int, byte_len: int) -> int {
    let center = i * slot_width + slot_width / 2;
    if center >= byte_len / 2 {
        center - byte_len / 2
    } else {
        0
    }
}

/// `axis` with `label` written from position `start` on (characters beyond
/// the end of the axis are dropped).
pub open spec fn overlay(axis: Seq<char>, start: int, label: Seq<char>) -> Seq<char> {
    Seq::new(
        axis.len(),
        |p: int|
            if start <= p && p < start + label.len() {
                label[p - start]
            } else {
                axis[p]
            },
    )
}

/// Byte length of a text in UTF-8, as Rust's `str::len` reports it.
pub open spec fn byte_len(s: Seq<char>) -> nat {
    (vstd::utf8::encode_utf8(s).len() as usize) as nat
}

/// A blank axis of `width` columns with the first `n` labels centred under
/// their slots, later labels written over earlier ones.
pub open spec fn labels_overlay(labels: Seq<Seq<char>>, n: nat, width: nat, slot_width: nat) -> Seq<char>
    decreases n,
{
    if n == 0 {
        spaces(width)
    } else {
        let i = (n - 1) as nat;
        overlay(
            labels_overlay(labels, i, width, slot_width),
            label_start(i as int, slot_width as int, byte_len(labels[i as int]) as int),
            labels[i as int],
        )
    }
}

/// Whether midnight falls between slot `i - 1` and slot `i` of an axis whose
/// first slot starts at `base`.
pub open spec fn is_midnight_boundary(base: nat, i: nat) -> bool {
    let prev = (base + (i - 1) * 3) % 24;
    let curr = (base + i * 3) % 24;
    prev >= 21 && curr < prev
}

/// `axis` with a vertical spine at the start of each slot `i` in `1..k` that
/// begins just after midnight (when that position lies inside the axis).
pub open spec fn spines(axis: Seq<char>, base: nat, slot_width: nat, k: nat) -> Seq<char>
    decreases k,
{
    if k <= 1 {
        axis
    } else {
        let i = (k - 1) as nat;
        let prev = spines(axis, base, slot_width, i);
        let pos = i * slot_width;
        if is_midnight_boundary(base, i) && 0 < pos && pos < axis.len() {
            prev.update(pos as int, '│')
        } else {
            prev
        }
    }
}

/// The hour in a label: its number when it parses as `u32`, 0 otherwise.
pub open spec fn label_base(label: Seq<char>) -> nat {
    match parse_unsigned(label, u32::MAX as nat) {
        Some(v) => v,
        None => 0,
    }
}

/// The time axis: the labels centred under their slots and a spine at each
/// midnight boundary, or a blank line when there is nothing to show.
pub open spec fn time_axis_spec(labels: Seq<Seq<char>>, width: nat, slot_width: nat) -> Seq<char> {
    if labels.len() == 0 || width == 0 {
        spaces(width)
    } else {
        spines(
            labels_overlay(labels, labels.len(), width, slot_width),
            label_base(labels[0]),
            slot_width,
            TIME_SLOTS as nat,
        )
    }
}

/// The views of a vector of strings.
pub open spec fn string_views(v: Seq<String>) -> Seq<Seq<char>> {
    v.map_values(|s: String| s@)
}

proof fn lemma_spines_len(axis: Seq<char>, base: nat, slot_width: nat, k: nat)
    ensures
        spines(axis, base, slot_width, k).len() == axis.len(),
    decreases k,
{
    if k > 1 {
        lemma_spines_len(axis, base, slot_width, (k - 1) as nat);
    }
}

proof fn lemma_labels_overlay_len(labels: Seq<Seq<char>>, n: nat, width: nat, slot_width: nat)
    ensures
        labels_overlay(labels, n, width, slot_width).len() == width,
    decreases n,
{
    if n > 0 {
        lemma_labels_overlay_len(labels, (n - 1) as nat, width, slot_width);
    }
}

proof fn lemma_spine_at(axis: Seq<char>, base: nat, slot_width: nat, k: nat, i: nat)
    requires
        1 <= i < k,
        slot_width > 0,
        is_midnight_boundary(base, i),
        0 < i * slot_width < axis.len(),
    ensures
        spines(axis, base, slot_width, k)[(i * slot_width) as int] == '│',
    decreases k,
{
    let j = (k - 1) as nat;
    lemma_spines_len(axis, base, slot_width, j);
    if j > i {
        lemma_spine_at(axis, base, slot_width, j, i);
        assert(j * slot_width != i * slot_width) by (nonlinear_arith)
            requires
                j > i,
                slot_width > 0,
        ;
    }
}

/// The time axis shows a spine `│` at the start of every slot that begins
/// just after midnight, where that position lies inside the axis.
pub proof fn law_time_axis_spine_at_midnight(labels: Seq<Seq<char>>, width: nat, slot_width: nat, i: nat)
    requires
        labels.len() > 0,
        slot_width > 0,
        1 <= i < TIME_SLOTS,
        is_midnight_boundary(label_base(labels[0]), i),
        0 < i * slot_width < width,
    ensures
        time_axis_spec(labels, width, slot_width)[(i * slot_width) as int] == '│',
{
    lemma_labels_overlay_len(labels, labels.len(), width, slot_width);
    lemma_spine_at(
        labels_overlay(labels, labels.len(), width, slot_width),
        label_base(labels[0]),
        slot_width,
        TIME_SLOTS as nat,
        i,
    );
}

/// The time axis is exactly as wide as asked.
pub proof fn law_time_axis_width(labels: Seq<Seq<char>>, width: nat, slot_width: nat)
    ensures
        time_axis_spec(labels, width, slot_width).len() == width,
{
    if labels.len() > 0 && width > 0 {
        lemma_labels_overlay_len(labels, labels.len(), width, slot_width);
        lemma_spines_len(
            labels_overlay(labels, labels.len(), width, slot_width),
            label_base(labels[0]),
            slot_width,
            TIME_SLOTS as nat,
        );
    }
}

/// Writes `label` into `axis` from position `start` on.
pub fn write_label(axis: &mut Vec<char>, start: usize, label: &Vec<char>)
    ensures
        final(axis)@ == overlay(old(axis)@, start as int, label@),
{
    let width = axis.len();
    let mut j: usize = 0;
    while j < label.len()
        invariant
            j <= label.len(),
            axis.len() == width,
            width == old(axis).len(),
            axis@ == overlay(old(axis)@, start as int, label@.take(j as int)),
        decreases label.len() - j,
    {
        if j < width && start < width - j {
            axis.set(start + j, label[j]);
        }
        assert(axis@ =~= overlay(old(axis)@, start as int, label@.take(j + 1)));
        j += 1;
    }
    assert(label@.take(label.len() as int) =~= label@);
}

/// Draws the time axis with centered labels and a vertical spine at midnight wrap boundaries.
/// - labels: TIME_SLOTS labels showing 3-hour increments (simple numbers)
/// - width: total width of graph area (PANEL_GRAPH_W)
/// - slot_width: width of each time slot in columns (typically width / TIME_SLOTS)
pub fn time_axis(labels: &Vec<String>, width: usize, slot_width: usize) -> (axis: String)
    requires
        (labels.len() + TIME_SLOTS) * slot_width <= usize::MAX,
        labels.len() > 0 ==> label_base(labels@[0]@) + 21 <= u32::MAX,
    ensures
        axis@ == time_axis_spec(string_views(labels@), width as nat, slot_width as nat),
{
    let ghost ls = string_views(labels@);
    if labels.len() == 0 || width == 0 {
        let mut r = String::new();
        crate::text::push_repeat(&mut r, ' ', width);
        assert(r@ =~= spaces(width as nat));
        return r;
    }
    let mut axis: Vec<char> = Vec::new();
    let mut w: usize = 0;
    while w < width
        invariant
            w <= width,
            axis@ == spaces(w as nat),
        decreases width - w,
    {
        axis.push(' ');
        assert(axis@ =~= spaces((w + 1) as nat));
        w += 1;
    }
    let mut i: usize = 0;
    while i < labels.len()
        invariant
            i <= labels.len(),
            ls == string_views(labels@),
            (labels.len() + TIME_SLOTS) * slot_width <= usize::MAX,
            axis@ == labels_overlay(ls, i as nat, width as nat, slot_width as nat),
        decreases labels.len() - i,
    {
        assert(i * slot_width + slot_width / 2 <= (labels.len() + TIME_SLOTS) * slot_width) by (nonlinear_arith)
            requires
                i < labels.len(),
        ;
        let center = i * slot_width + slot_width / 2;
        let half = labels[i].as_str().len() / 2;
        let start = if center >= half {
            center - half
        } else {
            0
        };
        let v = chars_of(labels[i].as_str());
        assert(ls[i as int] == labels@[i as int]@);
        assert(v@ == ls[i as int]);
        assert(half == byte_len(ls[i as int]) / 2);
        assert(start == label_start(i as int, slot_width as int, byte_len(ls[i as int]) as int));
        write_label(&mut axis, start, &v);
        i += 1;
    }
    let first = chars_of(labels[0].as_str());
    let base = match parse_unsigned_chars(&first, u32::MAX) {
        Some(b) => b,
        None => 0,
    };
    assert(base == label_base(ls[0]));
    let ghost labelled = axis@;
    assert(TIME_SLOTS * slot_width <= (labels.len() + TIME_SLOTS) * slot_width) by (nonlinear_arith);
    proof {
        lemma_labels_overlay_len(ls, labels.len() as nat, width as nat, slot_width as nat);
    }
    let mut k: usize = 1;
    while k < TIME_SLOTS
        invariant
            1 <= k <= TIME_SLOTS,
            base + 21 <= u32::MAX,
            TIME_SLOTS * slot_width <= usize::MAX,
            axis.len() == width,
            labelled.len() == width,
            axis@ == spines(labelled, base as nat, slot_width as nat, k as nat),
        decreases TIME_SLOTS - k,
    {
        let prev_hour = (base + ((k - 1) as u32) * 3) % 24;
        let curr_hour = (base + (k as u32) * 3) % 24;
        assert(k * slot_width <= TIME_SLOTS * slot_width) by (nonlinear_arith)
            requires
                k < TIME_SLOTS,
        ;
        let pos = k * slot_width;
        if prev_hour >= 21 && curr_hour < prev_hour {
            if pos > 0 && pos < width {
                axis.set(pos, '│');
            }
        }
        proof {
            lemma_spines_len(labelled, base as nat, slot_width as nat, k as nat);
        }
        k += 1;
    }
    string_of(&axis)
}

// ---------------------------------------------------------------------------
// Column chart

/// The hour of the first data point: the first time string, trimmed and
/// parsed as a number, or 0.
pub open spec fn first_hour(times: Seq<Seq<char>>) -> nat {
    if times.len() == 0 {
        0
    } else {
        label_base(trim(times[0]))
    }
}

/// The hour of data point `i`: its time string parsed as a number, or the
/// base hour when it does not parse.
pub open spec fn point_hour(times: Seq<Seq<char>>, i: int, base: nat) -> nat {
    match parse_unsigned(times[i], u32::MAX as nat) {
        Some(v) => v,
        None => base,
    }
}

/// The slot of data point `i`.
pub open spec fn point_slot(times: Seq<Seq<char>>, i: int, base: nat) -> int {
    slot_of(base as u32, point_hour(times, i, base) as u32)
}

/// Whether grid cell (`r`, `c`) is covered by the bar of one of the first
/// `k` data points: a bar fills its slot's three columns from its top row
/// down to the bottom.
pub open spec fn cell_filled(
    times: Seq<Seq<char>>,
    bar_rows: Seq<usize>,
    base: nat,
    k: int,
    r: int,
    c: int,
) -> bool {
    exists|i: int|
        #![trigger bar_rows[i]]
        0 <= i < k && bar_rows[i] <= r && point_slot(times, i, base) * 3 <= c < point_slot(
            times,
            i,
            base,
        ) * 3 + 3
}

/// Row `r` of the chart grid, 24 columns wide.
pub open spec fn grid_row(times: Seq<Seq<char>>, bar_rows: Seq<usize>, base: nat, k: int, r: int) -> Seq<
    char,
> {
    Seq::new(
        PANEL_GRAPH_W as nat,
        |c: int|
            if cell_filled(times, bar_rows, base, k, r, c) {
                '█'
            } else {
                ' '
            },
    )
}

/// Number of data points that are drawn: those that have a time.
pub open spec fn drawn_points(times: Seq<Seq<char>>, bar_rows: Seq<usize>) -> int {
    if bar_rows.len() < times.len() {
        bar_rows.len() as int
    } else {
        times.len() as int
    }
}

/// The eight time labels of an axis starting at `base`.
pub open spec fn axis_labels(base: nat) -> Seq<Seq<char>> {
    Seq::new(TIME_SLOTS as nat, |i: int| decimal(label_hour(base, i as nat)))
}

/// Whether the chart can be drawn within the machine's integer types.
pub open spec fn chart_fits(times: Seq<Seq<char>>, bar_rows: Seq<usize>) -> bool {
    let base = first_hour(times);
    &&& base + 21 <= u32::MAX
    &&& forall|i: int|
        0 <= i < drawn_points(times, bar_rows) ==> slot_diff_fits(
            base as u32,
            #[trigger] point_hour(times, i, base) as u32,
        )
}

/// The grid cell in row `r`, column `c` of a grid stored row after row.
pub open spec fn cell(grid: Seq<char>, r: int, c: int) -> char {
    grid[r * 24 + c]
}

/// The rows of a column chart whose data points have already been placed on
/// rows: `tick_labels[r]` labels row `r` (top first), `bar_rows[i]` is the
/// top row of data point `i`'s bar, and `times[i]` its hour. Each row is the
/// label right-aligned in five columns, a space and the grid row; the last
/// row holds the time axis.
pub fn column_chart_rows(tick_labels: &Vec<String>, times: &Vec<String>, bar_rows: &Vec<usize>) -> (rows:
    Vec<String>)
    requires
        2 <= tick_labels.len(),
        tick_labels.len() * 24 <= usize::MAX,
        forall|i: int| 0 <= i < bar_rows.len() ==> #[trigger] bar_rows@[i] < tick_labels.len(),
        chart_fits(string_views(times@), bar_rows@),
    ensures
        rows.len() == tick_labels.len() + 1,
        forall|r: int|
            0 <= r < tick_labels.len() ==> #[trigger] rows@[r]@ == pad_left(tick_labels@[r]@, 5) + seq![' ']
                + grid_row(
                string_views(times@),
                bar_rows@,
                first_hour(string_views(times@)),
                drawn_points(string_views(times@), bar_rows@),
                r,
            ),
        rows@[tick_labels.len() as int]@ == "     "@ + seq![' '] + time_axis_spec(
            axis_labels(first_hour(string_views(times@))),
            PANEL_GRAPH_W as nat,
            3,
        ),
{
    let ghost ts = string_views(times@);
    let height = tick_labels.len();
    let base: u32 = if times.len() == 0 {
        0
    } else {
        let v = chars_of(times[0].as_str());
        let (a, b) = trim_bounds(&v);
        let mut t: Vec<char> = Vec::new();
        let mut q = a;
        while q < b
            invariant
                a <= q <= b <= v.len(),
                t@ == v@.subrange(a as int, q as int),
            decreases b - q,
        {
            t.push(v[q]);
            assert(t@ =~= v@.subrange(a as int, q + 1));
            q += 1;
        }
        assert(ts[0] == times@[0]@);
        match parse_unsigned_chars(&t, u32::MAX) {
            Some(h) => h,
            None => 0,
        }
    };
    assert(base == first_hour(ts));
    let n = if bar_rows.len() < times.len() {
        bar_rows.len()
    } else {
        times.len()
    };
    // The grid, row after row, 24 cells per row.
    let mut grid: Vec<char> = Vec::new();
    let mut g: usize = 0;
    while g < height * PANEL_GRAPH_W
        invariant
            g <= height * PANEL_GRAPH_W,
            height * 24 <= usize::MAX,
            grid.len() == g,
            forall|x: int| 0 <= x < g ==> grid@[x] == ' ',
        decreases height * PANEL_GRAPH_W - g,
    {
        grid.push(' ');
        g += 1;
    }
    let mut i: usize = 0;
    while i < n
        invariant
            i <= n,
            n == drawn_points(ts, bar_rows@),
            n <= bar_rows.len(),
            n <= times.len(),
            ts == string_views(times@),
            height == tick_labels.len(),
            height * 24 <= usize::MAX,
            grid.len() == height * PANEL_GRAPH_W,
            base == first_hour(ts),
            chart_fits(ts, bar_rows@),
            forall|j: int| 0 <= j < bar_rows.len() ==> #[trigger] bar_rows@[j] < height,
            forall|r: int, c: int|
                0 <= r < height && 0 <= c < PANEL_GRAPH_W ==> cell(grid@, r, c) == if cell_filled(
                    ts,
                    bar_rows@,
                    base as nat,
                    i as int,
                    r,
                    c,
                ) {
                    '█'
                } else {
                    ' '
                },
        decreases n - i,
    {
        let tv = chars_of(times[i].as_str());
        assert(ts[i as int] == times@[i as int]@);
        let hour = match parse_unsigned_chars(&tv, u32::MAX) {
            Some(h) => h,
            None => base,
        };
        assert(hour == point_hour(ts, i as int, base as nat));
        assert(slot_diff_fits(base, point_hour(ts, i as int, base as nat) as u32));
        let slot = slot_index(base, hour);
        let row = bar_rows[i];
        let col_start = slot * 3;
        let ghost before = grid@;
        let mut r = row;
        while r < height
            invariant
                row <= r <= height,
                row == bar_rows@[i as int],
                height * 24 <= usize::MAX,
                col_start <= 21,
                grid.len() == height * PANEL_GRAPH_W,
                before.len() == grid.len(),
                forall|rr: int, c: int|
                    0 <= rr < height && 0 <= c < PANEL_GRAPH_W ==> cell(grid@, rr, c) == if row <= rr < r
                        && col_start <= c < col_start + 3 {
                        '█'
                    } else {
                        cell(before, rr, c)
                    },
            decreases height - r,
        {
            let mut c = col_start;
            while c < col_start + 3
                invariant
                    col_start <= c <= col_start + 3,
                    row <= r < height,
                    height * 24 <= usize::MAX,
                    col_start <= 21,
                    grid.len() == height * PANEL_GRAPH_W,
                    before.len() == grid.len(),
                    forall|rr: int, cc: int|
                        0 <= rr < height && 0 <= cc < PANEL_GRAPH_W ==> cell(grid@, rr, cc) == if (row
                            <= rr < r && col_start <= cc < col_start + 3) || (rr == r && col_start <= cc
                            < c) {
                            '█'
                        } else {
                            cell(before, rr, cc)
                        },
                decreases col_start + 3 - c,
            {
                let ghost g0 = grid@;
                grid.set(r * 24 + c, '█');
                proof {
                    assert forall|rr: int, cc: int|
                        0 <= rr < height && 0 <= cc < PANEL_GRAPH_W implies cell(grid@, rr, cc) == if (
                        row <= rr < r && col_start <= cc < col_start + 3) || (rr == r && col_start
                            <= cc < c + 1) {
                            '█'
                        } else {
                            cell(before, rr, cc)
                        } by {
                        if rr == r && cc == c {
                        } else {
                            assert(rr * 24 + cc != r * 24 + c);
                            assert(cell(grid@, rr, cc) == cell(g0, rr, cc));
                        }
                    }
                }
                c += 1;
            }
            r += 1;
        }
        proof {
            assert forall|rr: int, cc: int|
                0 <= rr < height && 0 <= cc < PANEL_GRAPH_W implies cell(grid@, rr, cc) == if cell_filled(
                ts,
                bar_rows@,
                base as nat,
                i + 1,
                rr,
                cc,
            ) {
                '█'
            } else {
                ' '
            } by {
                let here = bar_rows@[i as int] <= rr && point_slot(ts, i as int, base as nat) * 3 <= cc
                    < point_slot(ts, i as int, base as nat) * 3 + 3;
                if here {
                    assert(cell_filled(ts, bar_rows@, base as nat, i + 1, rr, cc));
                } else if cell_filled(ts, bar_rows@, base as nat, i as int, rr, cc) {
                    let w = choose|j: int|
                        #![trigger bar_rows@[j]]
                        0 <= j < i && bar_rows@[j] <= rr && point_slot(ts, j, base as nat) * 3 <= cc
                            < point_slot(ts, j, base as nat) * 3 + 3;
                    assert(cell_filled(ts, bar_rows@, base as nat, i + 1, rr, cc));
                } else {
                    assert(!cell_filled(ts, bar_rows@, base as nat, i + 1, rr, cc)) by {
                        if cell_filled(ts, bar_rows@, base as nat, i + 1, rr, cc) {
                            let w = choose|j: int|
                                #![trigger bar_rows@[j]]
                                0 <= j < i + 1 && bar_rows@[j] <= rr && point_slot(ts, j, base as nat)
                                    * 3 <= cc < point_slot(ts, j, base as nat) * 3 + 3;
                            if w < i {
                                assert(cell_filled(ts, bar_rows@, base as nat, i as int, rr, cc));
                            }
                        }
                    }
                }
            }
        }
        i += 1;
    }
    // Assemble the rows.
    let mut rows: Vec<String> = Vec::new();
    let mut r: usize = 0;
    while r < height
        invariant
            r <= height,
            height == tick_labels.len(),
            height * 24 <= usize::MAX,
            grid.len() == height * PANEL_GRAPH_W,
            rows.len() == r,
            forall|rr: int, c: int|
                0 <= rr < height && 0 <= c < PANEL_GRAPH_W ==> cell(grid@, rr, c) == if cell_filled(
                    ts,
                    bar_rows@,
                    base as nat,
                    n as int,
                    rr,
                    c,
                ) {
                    '█'
                } else {
                    ' '
                },
            forall|rr: int|
                0 <= rr < r ==> #[trigger] rows@[rr]@ == pad_left(tick_labels@[rr]@, 5) + seq![' ']
                    + grid_row(ts, bar_rows@, base as nat, n as int, rr),
        decreases height - r,
    {
        let mut line = String::new();
        let lv = chars_of(tick_labels[r].as_str());
        push_padded_left(&mut line, &lv, 5);
        push_char(&mut line, ' ');
        push_chars(&mut line, &grid, r * 24, r * 24 + 24);
        assert forall|c: int| 0 <= c < 24 implies #[trigger] grid@.subrange(r * 24, r * 24 + 24)[c]
            == grid_row(ts, bar_rows@, base as nat, n as int, r as int)[c] by {
            assert(grid@.subrange(r * 24, r * 24 + 24)[c] == cell(grid@, r as int, c));
        }
        assert(grid@.subrange(r * 24, r * 24 + 24) =~= grid_row(ts, bar_rows@, base as nat, n as int, r as int));
        rows.push(line);
        r += 1;
    }
    let labels = generate_time_labels(base);
    proof {
        assert(labels@[0]@ == decimal(base as nat));
        crate::color::law_parse_decimal(base as nat, u32::MAX as nat);
        assert(string_views(labels@) =~= axis_labels(base as nat));
    }
    let axis = time_axis(&labels, PANEL_GRAPH_W, 3);
    let mut time_row = String::new();
    push_str(&mut time_row, "     ");
    push_char(&mut time_row, ' ');
    push_str(&mut time_row, axis.as_str());
    rows.push(time_row);
    rows
}

} // verus!
