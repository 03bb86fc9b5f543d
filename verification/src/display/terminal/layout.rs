//! Three chart panels side by side.
use vstd::prelude::*;
use crate::graphs::PANEL_GRAPH_W;
use crate::text::{chars_of, pad_right, push_chars, push_padded_right, push_repeat, push_str, spaces};
use crate::weather_core::graphs::byte_len;

verus! {

broadcast use vstd::string::group_string_axioms;

/// A title cut to its first 24 characters.
pub open spec fn truncated_title(t: Seq<char>) -> Seq<char> {
    if t.len() > 24 {
        t.take(24)
    } else {
        t
    }
}

/// Left margin of a panel title, in columns.
pub open spec fn title_pad(t: Seq<char>) -> nat {
    let len = byte_len(truncated_title(t));
    if len >= 24 {
        6
    } else {
        (6 + (24 - len) / 2) as nat
    }
}

/// A panel title centred over the 24 graph columns after a 6-column margin,
/// filled to 30 columns (widths counted in bytes).
pub open spec fn title_field(t: Seq<char>) -> Seq<char> {
    let tt = truncated_title(t);
    spaces(title_pad(t)) + tt + spaces((30 - (title_pad(t) + byte_len(tt))) as nat)
}

/// Whether a title fits its field: its first 24 characters take at most 24
/// bytes when they fill the graph width.
pub open spec fn title_fits(t: Seq<char>) -> bool {
    byte_len(truncated_title(t)) <= 24
}

/// Row `r` of a panel, filled to 30 columns; a blank field past its end.
pub open spec fn panel_cell(panel: Seq<String>, r: int) -> Seq<char> {
    if r < panel.len() {
        pad_right(panel[r]@, 30)
    } else {
        spaces(30)
    }
}

/// The first `k` lines of three panels side by side.
pub open spec fn panel_lines(p1: Seq<String>, p2: Seq<String>, p3: Seq<String>, k: nat) -> Seq<char>
    decreases k,
{
    if k == 0 {
        seq![]
    } else {
        let r = (k - 1) as int;
        panel_lines(p1, p2, p3, (k - 1) as nat) + panel_cell(p1, r) + "  "@ + panel_cell(p2, r) + "  "@
            + panel_cell(p3, r) + seq!['\n']
    }
}

/// The number of lines of the tallest of three panels.
pub open spec fn tallest(a: nat, b: nat, c: nat) -> nat {
    let ab = if a >= b {
        a
    } else {
        b
    };
    if ab >= c {
        ab
    } else {
        c
    }
}

/// Three titled panels side by side: a title line, then one line per row of
/// the tallest panel.
pub open spec fn row_block(
    t1: Seq<char>,
    p1: Seq<String>,
    t2: Seq<char>,
    p2: Seq<String>,
    t3: Seq<char>,
    p3: Seq<String>,
) -> Seq<char> {
    title_field(t1) + "  "@ + title_field(t2) + "  "@ + title_field(t3) + seq!['\n'] + panel_lines(
        p1,
        p2,
        p3,
        tallest(p1.len(), p2.len(), p3.len()),
    )
}

fn push_title_field(out: &mut String, t: &str)
    requires
        title_fits(t@),
    ensures
        final(out)@ == old(out)@ + title_field(t@),
{
    let v = chars_of(t);
    let n = if v.len() > 24 {
        24
    } else {
        v.len()
    };
    let mut tt = String::new();
    push_chars(&mut tt, &v, 0, n);
    assert(tt@ == truncated_title(t@));
    let len = tt.as_str().len();
    assert(len == byte_len(tt@));
    let pad: usize = if len >= 24 {
        6
    } else {
        6 + (24 - len) / 2
    };
    push_repeat(out, ' ', pad);
    push_str(out, tt.as_str());
    push_repeat(out, ' ', 30 - (pad + len));
}

fn push_panel_cell(out: &mut String, panel: &[String], r: usize)
    ensures
        final(out)@ == old(out)@ + panel_cell(panel@, r as int),
{
    if r < panel.len() {
        let v = chars_of(panel[r].as_str());
        push_padded_right(out, &v, 30);
    } else {
        push_repeat(out, ' ', 30);
    }
}

/// Appends three titled panels side by side to `out`.
pub fn render_row(
    out: &mut String,
    title1: &str,
    panel1: &[String],
    title2: &str,
    panel2: &[String],
    title3: &str,
    panel3: &[String],
)
    requires
        title_fits(title1@),
        title_fits(title2@),
        title_fits(title3@),
    ensures
        final(out)@ == old(out)@ + row_block(title1@, panel1@, title2@, panel2@, title3@, panel3@),
{
    push_title_field(out, title1);
    push_str(out, "  ");
    push_title_field(out, title2);
    push_str(out, "  ");
    push_title_field(out, title3);
    crate::text::push_char(out, '\n');
    let ghost head = out@;
    let a = panel1.len();
    let b = panel2.len();
    let c = panel3.len();
    let ab = if a >= b {
        a
    } else {
        b
    };
    let max_h = if ab >= c {
        ab
    } else {
        c
    };
    let mut r: usize = 0;
    while r < max_h
        invariant
            r <= max_h,
            out@ == head + panel_lines(panel1@, panel2@, panel3@, r as nat),
        decreases max_h - r,
    {
        push_panel_cell(out, panel1, r);
        push_str(out, "  ");
        push_panel_cell(out, panel2, r);
        push_str(out, "  ");
        push_panel_cell(out, panel3, r);
        crate::text::push_char(out, '\n');
        r += 1;
    }
    assert(out@ =~= old(out)@ + row_block(title1@, panel1@, title2@, panel2@, title3@, panel3@));
}

} // verus!
