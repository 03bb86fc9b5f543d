//! Character-cell charts: sparklines, braille curves and hour axes.
use vstd::prelude::*;
use crate::color::{parse_unsigned, parse_unsigned_chars};
use crate::text::{char_from_u32, chars_of, push_char, push_repeat, repeat_char, spaces, string_of};
use crate::weather_core::graphs::{overlay, write_label};

verus! {

broadcast use vstd::string::group_string_axioms;

/// Width of a chart panel's graph area in columns.
pub const PANEL_GRAPH_W: usize = 24;

// ---------------------------------------------------------------------------
// Stretching

/// The characters of `s` from index `i` on, each repeated `base` times and
/// the first `extra` of the whole text once more.
pub open spec fn stretch_from(s: Seq<char>, i: int, base: nat, extra: nat) -> Seq<char>
    decreases s.len() - i,
{
    if i < 0 || i >= s.len() {
        seq![]
    } else {
        repeat_char(s[i], base + if i < extra {
            1nat
        } else {
            0nat
        }) + stretch_from(s, i + 1, base, extra)
    }
}

/// `s` stretched to `w` characters: each character repeated evenly, the
/// first ones once more to make up the remainder; a blank field when `s` is
/// empty.
pub open spec fn stretched(s: Seq<char>, w: nat) -> Seq<char> {
    if s.len() == 0 {
        spaces(w)
    } else if s.len() == w {
        s
    } else {
        stretch_from(s, 0, w / s.len(), w % s.len())
    }
}

proof fn lemma_stretch_from_len(s: Seq<char>, i: int, base: nat, extra: nat)
    requires
        0 <= i <= s.len(),
        extra <= s.len(),
    ensures
        stretch_from(s, i, base, extra).len() == (s.len() - i) * base + if i < extra {
            extra - i
        } else {
            0
        },
    decreases s.len() - i,
{
    if i < s.len() {
        lemma_stretch_from_len(s, i + 1, base, extra);
        let k = base + if i < extra {
            1nat
        } else {
            0nat
        };
        assert(repeat_char(s[i], k).len() == k);
        assert(stretch_from(s, i, base, extra) == repeat_char(s[i], k) + stretch_from(s, i + 1, base, extra));
        assert(stretch_from(s, i, base, extra).len() == k + stretch_from(s, i + 1, base, extra).len());
        assert((s.len() - i) * base == base + (s.len() - (i + 1)) * base) by (nonlinear_arith)
            requires
                i < s.len(),
        ;
    } else {
        assert((s.len() - i) * base == 0) by (nonlinear_arith)
            requires
                i == s.len(),
        ;
    }
}

/// Stretching gives exactly the asked width.
pub proof fn law_stretched_width(s: Seq<char>, w: nat)
    ensures
        stretched(s, w).len() == w,
{
    if s.len() > 0 && s.len() != w {
        lemma_stretch_from_len(s, 0, w / s.len(), w % s.len());
        assert(s.len() * (w / s.len()) + w % s.len() == w) by (nonlinear_arith)
            requires
                s.len() > 0,
        ;
    }
}

/// `s` stretched to `target_w` characters.
pub fn stretch_to_width(s: &str, target_w: usize) -> (r: String)
    ensures
        r@ == stretched(s@, target_w as nat),
{
    let v = chars_of(s);
    let mut out = String::new();
    if v.len() == 0 {
        push_repeat(&mut out, ' ', target_w);
        assert(out@ =~= spaces(target_w as nat));
        return out;
    }
    let n = v.len();
    if n == target_w {
        return string_of(&v);
    }
    let base = target_w / n;
    let extra = target_w % n;
    let mut i: usize = 0;
    while i < n
        invariant
            i <= n,
            n == v.len(),
            n > 0,
            base == target_w / n,
            extra == target_w % n,
            out@ + stretch_from(v@, i as int, base as nat, extra as nat) == stretch_from(
                v@,
                0,
                base as nat,
                extra as nat,
            ),
        decreases n - i,
    {
        if i < extra {
            assert(base < usize::MAX) by (nonlinear_arith)
                requires
                    n > 1,
                    base == target_w / n,
            ;
        }
        let k = if i < extra {
            base + 1
        } else {
            base
        };
        assert(k <= target_w) by (nonlinear_arith)
            requires
                n > 0,
                base == target_w / n,
                extra == target_w % n,
                k == base + 1 ==> i < extra,
                k == base + 1 || k == base,
        ;
        let ghost before = out@;
        push_repeat(&mut out, v[i], k);
        assert(before + stretch_from(v@, i as int, base as nat, extra as nat) =~= out@ + stretch_from(
            v@,
            i + 1,
            base as nat,
            extra as nat,
        ));
        i += 1;
    }
    assert(out@ =~= stretched(v@, target_w as nat));
    out
}

// ---------------------------------------------------------------------------
// Sparklines

/// The eight bar heights of a sparkline, lowest first.
pub open spec fn spark_char(level: nat) -> char {
    if level == 0 {
        '▁'
    } else if level == 1 {
        '▂'
    } else if level == 2 {
        '▃'
    } else if level == 3 {
        '▄'
    } else if level == 4 {
        '▅'
    } else if level == 5 {
        '▆'
    } else if level == 6 {
        '▇'
    } else {
        '█'
    }
}

/// A sparkline for the first `PANEL_GRAPH_W` levels (levels above 7 draw as 7).
pub open spec fn sparkline_spec(levels: Seq<usize>) -> Seq<char> {
    let n = if levels.len() < PANEL_GRAPH_W {
        levels.len()
    } else {
        PANEL_GRAPH_W as nat
    };
    Seq::new(n, |i: int| spark_char(levels[i] as nat))
}

/// A sparkline whose values are already scaled to levels `0..=7`.
pub fn sparkline_from_levels(levels: &Vec<usize>) -> (r: String)
    ensures
        r@ == sparkline_spec(levels@),
{
    let chars: [char; 8] = ['▁', '▂', '▃', '▄', '▅', '▆', '▇', '█'];
    let mut out = String::new();
    let mut i: usize = 0;
    while i < levels.len() && i < PANEL_GRAPH_W
        invariant
            i <= levels.len(),
            i <= PANEL_GRAPH_W,
            chars@ == seq!['▁', '▂', '▃', '▄', '▅', '▆', '▇', '█'],
            out@ == Seq::new(i as nat, |k: int| spark_char(levels@[k] as nat)),
        decreases levels.len() - i,
    {
        let level = if levels[i] > 7 {
            7
        } else {
            levels[i]
        };
        push_char(&mut out, chars[level]);
        assert(out@ =~= Seq::new((i + 1) as nat, |k: int| spark_char(levels@[k] as nat)));
        i += 1;
    }
    assert(out@ =~= sparkline_spec(levels@));
    out
}

// ---------------------------------------------------------------------------
// Braille curves

/// The row between two neighbouring points: their midpoint when they are
/// more than one row apart, otherwise the second point's row.
pub open spec fn between(a: int, b: int) -> int {
    if a - b > 1 || b - a > 1 {
        (a + b) / 2
    } else {
        b
    }
}

/// The dot rows of a curve: each point followed, when a next point exists,
/// by the row [`between`] it and the next point.
pub open spec fn filled_points(m: Seq<usize>) -> Seq<int> {
    Seq::new(
        if m.len() == 0 {
            0
        } else {
            (2 * m.len() - 1) as nat
        },
        |j: int|
            if j % 2 == 0 {
                m[j / 2] as int
            } else {
                between(m[j / 2] as int, m[j / 2 + 1] as int)
            },
    )
}

/// The dots of one braille cell whose left column has a dot in row `l` and
/// right column in row `r` (rows 0 to 3, top first), as the cell's bit mask.
pub open spec fn braille_bits(l: int, r: int) -> nat {
    (if l == 0 {
        1nat
    } else {
        0
    }) + (if l == 1 {
        2nat
    } else {
        0
    }) + (if l == 2 {
        4nat
    } else {
        0
    }) + (if r == 0 {
        8nat
    } else {
        0
    }) + (if r == 1 {
        16nat
    } else {
        0
    }) + (if r == 2 {
        32nat
    } else {
        0
    }) + (if l == 3 {
        64nat
    } else {
        0
    }) + (if r == 3 {
        128nat
    } else {
        0
    })
}

/// The braille cells for the dot rows `f`, two columns per cell; an odd last
/// column is doubled.
pub open spec fn braille_cells(f: Seq<int>) -> Seq<nat> {
    Seq::new(
        ((f.len() + 1) / 2) as nat,
        |k: int|
            braille_bits(
                f[2 * k],
                if 2 * k + 1 < f.len() {
                    f[2 * k + 1]
                } else {
                    f[2 * k]
                },
            ),
    )
}

/// The code points of a braille curve through the rows `m` (each below 4,
/// top first).
pub open spec fn braille_curve_spec(m: Seq<usize>) -> Seq<nat> {
    let cells = braille_cells(filled_points(m));
    Seq::new(cells.len(), |k: int| 0x2800 + cells[k])
}

/// `2^n`.
pub open spec fn two_to(n: nat) -> nat
    decreases n,
{
    if n == 0 {
        1
    } else {
        2 * two_to((n - 1) as nat)
    }
}

/// The number of the braille dot in dot row `row` (0 to 3, top first) of
/// the left or right column, as Unicode numbers them: dots 1, 2, 3 and 7 down
/// the left column, 4, 5, 6 and 8 down the right.
pub open spec fn braille_dot(row: int, right: bool) -> nat {
    if row < 3 {
        (row + 1 + if right {
            3int
        } else {
            0
        }) as nat
    } else if right {
        8
    } else {
        7
    }
}

/// Whether braille dot `n` is raised in a cell with the bit mask `bits`
/// (Unicode gives dot `n` the bit `2^(n-1)`).
pub open spec fn dot_raised(bits: nat, n: nat) -> bool {
    (bits / two_to((n - 1) as nat)) % 2 == 1
}

/// A braille cell raises exactly the dot of each column's point: the dot in
/// the point's row of the left column and of the right column, and no other
/// of its eight dots (row 0 is the top row, row 3 the bottom one).
pub proof fn law_braille_cell_raises_the_points_dots(l: int, r: int, row: int)
    requires
        0 <= l < 4,
        0 <= r < 4,
        0 <= row < 4,
    ensures
        braille_bits(l, r) < 256,
        dot_raised(braille_bits(l, r), braille_dot(row, false)) <==> l == row,
        dot_raised(braille_bits(l, r), braille_dot(row, true)) <==> r == row,
{
    reveal_with_fuel(two_to, 8);
    assert(two_to(0) == 1 && two_to(1) == 2 && two_to(2) == 4 && two_to(3) == 8);
    assert(two_to(4) == 16 && two_to(5) == 32 && two_to(6) == 64 && two_to(7) == 128);
    let wl = two_to((braille_dot(row, false) - 1) as nat);
    let wr = two_to((braille_dot(row, true) - 1) as nat);
    if row == 0 {
        assert(wl == 1 && wr == 8);
    }
    if row == 1 {
        assert(wl == 2 && wr == 16);
    }
    if row == 2 {
        assert(wl == 4 && wr == 32);
    }
    if row == 3 {
        assert(wl == 64 && wr == 128);
    }
}

proof fn lemma_filled_points_rows(m: Seq<usize>)
    requires
        forall|i: int| 0 <= i < m.len() ==> m[i] < 4,
    ensures
        forall|j: int| 0 <= j < filled_points(m).len() ==> 0 <= #[trigger] filled_points(m)[j] < 4,
{
    assert forall|j: int| 0 <= j < filled_points(m).len() implies 0 <= #[trigger] filled_points(m)[j] < 4 by {
        if j % 2 == 0 {
            assert(m[j / 2] < 4);
        } else {
            assert(m[j / 2] < 4);
            assert(m[j / 2 + 1] < 4);
        }
    }
}

/// In a braille curve, each character raises the dot of the row of the
/// point in its left column and of the point in its right column.
pub proof fn law_braille_curve_raises_the_points_dots(m: Seq<usize>, k: int, row: int)
    requires
        forall|i: int| 0 <= i < m.len() ==> m[i] < 4,
        0 <= k < braille_curve_spec(m).len(),
        0 <= row < 4,
    ensures
        ({
            let f = filled_points(m);
            let bits = (braille_curve_spec(m)[k] - 0x2800) as nat;
            let right_point = if 2 * k + 1 < f.len() {
                f[2 * k + 1]
            } else {
                f[2 * k]
            };
            &&& 0 <= bits < 256
            &&& dot_raised(bits, braille_dot(row, false)) <==> f[2 * k] == row
            &&& dot_raised(bits, braille_dot(row, true)) <==> right_point == row
        }),
{
    let f = filled_points(m);
    lemma_filled_points_rows(m);
    let right_point = if 2 * k + 1 < f.len() {
        f[2 * k + 1]
    } else {
        f[2 * k]
    };
    law_braille_cell_raises_the_points_dots(f[2 * k], right_point, row);
}

fn bit(b: bool, v: u32) -> (r: u32)
    ensures
        r == if b {
            v
        } else {
            0
        },
{
    if b {
        v
    } else {
        0
    }
}

/// A braille curve through points given by their dot row (0 to 3, top
/// first), two points per character.
pub fn braille_curve(mapped: &Vec<usize>) -> (r: String)
    requires
        mapped.len() * 2 <= usize::MAX,
        forall|i: int| 0 <= i < mapped.len() ==> mapped@[i] < 4,
    ensures
        r@.len() == braille_curve_spec(mapped@).len(),
        forall|k: int| 0 <= k < r@.len() ==> r@[k] as u32 == #[trigger] braille_curve_spec(mapped@)[k],
{
    let ghost f = filled_points(mapped@);
    let mut filled: Vec<usize> = Vec::new();
    let mut i: usize = 0;
    while i < mapped.len()
        invariant
            i <= mapped.len(),
            mapped.len() * 2 <= usize::MAX,
            f == filled_points(mapped@),
            forall|x: int| 0 <= x < mapped.len() ==> mapped@[x] < 4,
            filled.len() == if i == 0 {
                0
            } else {
                2 * i - 1
            },
            forall|j: int| 0 <= j < filled.len() ==> #[trigger] filled@[j] as int == f[j],
            forall|j: int| 0 <= j < filled.len() ==> #[trigger] filled@[j] < 4,
        decreases mapped.len() - i,
    {
        if i > 0 {
            let a = mapped[i - 1];
            let b = mapped[i];
            let mid = if a > b + 1 || b > a + 1 {
                (a + b) / 2
            } else {
                b
            };
            assert(mid as int == between(a as int, b as int));
            filled.push(mid);
            assert(filled@[2 * i - 1] as int == f[2 * i - 1]);
        }
        filled.push(mapped[i]);
        assert(filled@[2 * i] as int == f[2 * i]);
        i += 1;
    }
    assert(filled@.len() == f.len());
    let ghost cells = braille_cells(f);
    let mut out = String::new();
    let mut k: usize = 0;
    while k < filled.len()
        invariant
            k % 2 == 0,
            k <= filled.len() + 1,
            filled@.len() == f.len(),
            filled.len() < usize::MAX,
            cells == braille_cells(f),
            forall|j: int| 0 <= j < filled.len() ==> #[trigger] filled@[j] as int == f[j],
            forall|j: int| 0 <= j < filled.len() ==> #[trigger] filled@[j] < 4,
            out@.len() == k / 2,
            forall|c: int| 0 <= c < out@.len() ==> out@[c] as u32 == 0x2800 + #[trigger] cells[c],
        decreases filled.len() + 1 - k,
    {
        let l = filled[k];
        let r = if k + 1 < filled.len() {
            filled[k + 1]
        } else {
            filled[k]
        };
        let bits: u32 = bit(l == 0, 1) + bit(l == 1, 2) + bit(l == 2, 4) + bit(r == 0, 8) + bit(
            r == 1,
            16,
        ) + bit(r == 2, 32) + bit(l == 3, 64) + bit(r == 3, 128);
        assert(bits == cells[(k / 2) as int]);
        let ch = match char_from_u32(0x2800 + bits) {
            Some(c) => c,
            None => ' ',
        };
        assert(ch as u32 == 0x2800 + cells[(k / 2) as int]);
        push_char(&mut out, ch);
        k += 2;
    }
    out
}

// ---------------------------------------------------------------------------
// Hour axis

/// The hour a label stands for: its number when it parses as `u32`, 0
/// otherwise.
pub open spec fn hour_or_zero(t: Seq<char>) -> nat {
    match parse_unsigned(t, u32::MAX as nat) {
        Some(v) => v,
        None => 0,
    }
}

/// A blank axis of `width` columns with the first `k` of `n` labels written
/// at evenly spaced positions `i * width / n`.
pub open spec fn spaced_labels(times: Seq<Seq<char>>, k: nat, width: nat, n: nat) -> Seq<char>
    decreases k,
{
    if k == 0 {
        spaces(width)
    } else {
        let i = (k - 1) as nat;
        overlay(spaced_labels(times, i, width, n), (i * width / n) as int, times[i as int])
    }
}

/// `axis` with a vertical mark at the position of each label `i` in `1..k`
/// whose hour is not after the previous label's hour while that one is 18 or
/// later: the day changed in between.
pub open spec fn day_breaks(axis: Seq<char>, times: Seq<Seq<char>>, width: nat, n: nat, k: nat) -> Seq<char>
    decreases k,
{
    if k <= 1 {
        axis
    } else {
        let i = (k - 1) as nat;
        let prev = day_breaks(axis, times, width, n, i);
        let pos = i * width / n;
        let before = hour_or_zero(times[i - 1]);
        let now = hour_or_zero(times[i as int]);
        if now <= before && before >= 18 && 0 < pos && pos < width {
            prev.update(pos as int, '│')
        } else {
            prev
        }
    }
}

/// The hour axis: a single label is centred, several are spaced evenly with a
/// mark where the day changes; no labels give a blank line.
pub open spec fn hour_axis_spec(times: Seq<Seq<char>>, width: nat) -> Seq<char> {
    let n = times.len();
    if n == 0 {
        spaces(width)
    } else if n == 1 {
        overlay(spaces(width), (width / 2) as int, times[0])
    } else {
        day_breaks(spaced_labels(times, n, width, n), times, width, n, n)
    }
}

proof fn lemma_spaced_labels_len(times: Seq<Seq<char>>, k: nat, width: nat, n: nat)
    ensures
        spaced_labels(times, k, width, n).len() == width,
    decreases k,
{
    if k > 0 {
        lemma_spaced_labels_len(times, (k - 1) as nat, width, n);
    }
}

proof fn lemma_day_breaks_len(axis: Seq<char>, times: Seq<Seq<char>>, width: nat, n: nat, k: nat)
    requires
        axis.len() == width,
    ensures
        day_breaks(axis, times, width, n, k).len() == axis.len(),
    decreases k,
{
    if k > 1 {
        lemma_day_breaks_len(axis, times, width, n, (k - 1) as nat);
    }
}

fn blank_axis(width: usize) -> (axis: Vec<char>)
    ensures
        axis@ == spaces(width as nat),
{
    let mut axis: Vec<char> = Vec::new();
    let mut w: usize = 0;
    while w < width
        invariant
            w <= width,
            axis@ == spaces(w as nat),
        decreases width - w,
    {
        axis.push(' ');
        assert(axis@ =~= spaces((w + 1) as nat));
        w += 1;
    }
    axis
}

fn hour_of(t: &String) -> (h: u32)
    ensures
        h == hour_or_zero(t@),
{
    let v = chars_of(t.as_str());
    match parse_unsigned_chars(&v, u32::MAX) {
        Some(h) => h,
        None => 0,
    }
}

/// The hour axis under a chart: `times` are the hours of the data points.
pub fn time_axis(times: &[String], width: usize) -> (axis: String)
    requires
        times@.len() * width <= usize::MAX,
    ensures
        axis@ == hour_axis_spec(times@.map_values(|t: String| t@), width as nat),
{
    let ghost ts = times@.map_values(|t: String| t@);
    let n = times.len();
    if n == 0 {
        let mut r = String::new();
        push_repeat(&mut r, ' ', width);
        assert(r@ =~= spaces(width as nat));
        return r;
    }
    let mut axis = blank_axis(width);
    if n == 1 {
        let v = chars_of(times[0].as_str());
        assert(v@ == ts[0]);
        write_label(&mut axis, width / 2, &v);
        return string_of(&axis);
    }
    let mut i: usize = 0;
    while i < n
        invariant
            i <= n,
            n == times@.len(),
            n >= 2,
            n * width <= usize::MAX,
            ts == times@.map_values(|t: String| t@),
            axis@ == spaced_labels(ts, i as nat, width as nat, n as nat),
        decreases n - i,
    {
        assert(i * width <= n * width) by (nonlinear_arith)
            requires
                i < n,
        ;
        let pos = i * width / n;
        let v = chars_of(times[i].as_str());
        assert(v@ == ts[i as int]);
        write_label(&mut axis, pos, &v);
        i += 1;
    }
    let ghost labelled = axis@;
    proof {
        lemma_spaced_labels_len(ts, n as nat, width as nat, n as nat);
    }
    let mut k: usize = 1;
    while k < n
        invariant
            1 <= k <= n,
            n == times@.len(),
            n * width <= usize::MAX,
            ts == times@.map_values(|t: String| t@),
            labelled.len() == width,
            axis.len() == width,
            axis@ == day_breaks(labelled, ts, width as nat, n as nat, k as nat),
        decreases n - k,
    {
        let prev = hour_of(&times[k - 1]);
        let curr = hour_of(&times[k]);
        assert(k * width <= n * width) by (nonlinear_arith)
            requires
                k < n,
        ;
        let pos = k * width / n;
        if curr <= prev && prev >= 18 {
            if pos > 0 && pos < width {
                axis.set(pos, '│');
            }
        }
        proof {
            lemma_day_breaks_len(labelled, ts, width as nat, n as nat, k as nat);
        }
        k += 1;
    }
    string_of(&axis)
}

} // verus!
