//! Statistics over the forecast archive: which archived slots are counted
//! and how they group by date and hour, and the statistics table.
use vstd::prelude::*;
use crate::color::{split_chars, split_on, views};
use crate::format::{
    chrono_seconds_between, parse_local_date_hour, parse_naive_datetime_utc, parse_rfc3339,
    parsed_local_date_hour, parsed_utc_instant, rfc3339_instant, seconds_between, whole_seconds_between,
};
use crate::text::{
    string_of, chars_of, int_decimal, pad_right, push_chars, push_i64, push_padded_right, push_repeat, push_str,
    repeat_char,
};

verus! {

/// Column header of one variable: the five forecast keys get a label with
/// their unit, any other name stands as written.
pub open spec fn var_header(v: Seq<char>) -> Seq<char> {
    if v == "t"@ {
        "Temp(°C)"@
    } else if v == "hu"@ {
        "Hum(%)"@
    } else if v == "tp"@ {
        "Precip(mm)"@
    } else if v == "ws"@ {
        "Wind(km/h)"@
    } else if v == "tcc"@ {
        "Cloud(%)"@
    } else {
        v
    }
}

/// The column headers of `names`, separated by two spaces.
pub open spec fn joined_headers(names: Seq<Seq<char>>) -> Seq<char>
    decreases names.len(),
{
    if names.len() == 0 {
        Seq::empty()
    } else if names.len() == 1 {
        var_header(names[0])
    } else {
        joined_headers(names.drop_last()) + "  "@ + var_header(names.last())
    }
}

/// Header line of the statistics table for a comma-separated variable list.
pub open spec fn vars_header_spec(vars: Seq<char>) -> Seq<char> {
    joined_headers(split_on(vars, ','))
}

/// Whether `piece` spells exactly `key`.
fn spells(piece: &Vec<char>, key: &str) -> (b: bool)
    ensures
        b == (piece@ == key@),
{
    let k = chars_of(key);
    if piece.len() != k.len() {
        return false;
    }
    let mut i: usize = 0;
    while i < k.len()
        invariant
            piece.len() == k.len(),
            i <= k.len(),
            k@ == key@,
            forall|j: int| 0 <= j < i ==> piece@[j] == k@[j],
        decreases k.len() - i,
    {
        if piece[i] != k[i] {
            return false;
        }
        i += 1;
    }
    assert(piece@ =~= key@);
    true
}

/// Appends the column header of `piece` to `out`.
fn push_header(out: &mut String, piece: &Vec<char>)
    ensures
        final(out)@ == old(out)@ + var_header(piece@),
{
    if spells(piece, "t") {
        push_str(out, "Temp(°C)");
    } else if spells(piece, "hu") {
        push_str(out, "Hum(%)");
    } else if spells(piece, "tp") {
        push_str(out, "Precip(mm)");
    } else if spells(piece, "ws") {
        push_str(out, "Wind(km/h)");
    } else if spells(piece, "tcc") {
        push_str(out, "Cloud(%)");
    } else {
        push_chars(out, piece, 0, piece.len());
        assert(piece@.subrange(0, piece.len() as int) =~= piece@);
    }
}

/// The header line of the statistics table: every comma-separated name in
/// `vars_str` (empty names included) becomes its column header, and the
/// headers are joined by two spaces.
pub fn vars_header(vars_str: &str) -> (r: String)
    ensures
        r@ == vars_header_spec(vars_str@),
{
    let chars = chars_of(vars_str);
    let pieces = split_chars(&chars, 0, chars.len(), ',');
    assert(chars@.subrange(0, chars.len() as int) =~= vars_str@);
    let ghost names = views(pieces@);
    let mut out = String::new();
    let mut i: usize = 0;
    while i < pieces.len()
        invariant
            i <= pieces.len(),
            names == views(pieces@),
            out@ == joined_headers(names.take(i as int)),
        decreases pieces.len() - i,
    {
        let ghost before = out@;
        assert(names.take(i + 1).drop_last() =~= names.take(i as int));
        if i > 0 {
            push_str(&mut out, "  ");
        }
        push_header(&mut out, &pieces[i]);
        assert(names.take(i + 1).last() == pieces@[i as int]@);
        i += 1;
    }
    assert(names.take(pieces.len() as int) =~= names);
    out
}

// ---------------------------------------------------------------------------
// Table rows

/// What a row of the statistics table shows of one variable: its name, and
/// its mean and standard deviation as printed.
pub struct VarSummary {
    pub name: String,
    pub mean: String,
    pub stddev: String,
}

/// The summary of the variable `name` among `summaries`: the first with
/// that name.
pub open spec fn find_summary(summaries: Seq<VarSummary>, name: Seq<char>) -> Option<VarSummary>
    decreases summaries.len(),
{
    if summaries.len() == 0 {
        None
    } else if summaries[0].name@ == name {
        Some(summaries[0])
    } else {
        find_summary(summaries.drop_first(), name)
    }
}

/// The cell of a variable in a row: its name with mean ± deviation, or
/// `N/A` when the row has no values of it.
pub open spec fn var_cell(summaries: Seq<VarSummary>, name: Seq<char>) -> Seq<char> {
    match find_summary(summaries, name) {
        Some(v) => name + " "@ + v.mean@ + "±"@ + v.stddev@,
        None => name + " N/A"@,
    }
}

/// The cells of the variables `names`, separated by two spaces.
pub open spec fn joined_cells(summaries: Seq<VarSummary>, names: Seq<Seq<char>>) -> Seq<char>
    decreases names.len(),
{
    if names.len() == 0 {
        Seq::empty()
    } else if names.len() == 1 {
        var_cell(summaries, names[0])
    } else {
        joined_cells(summaries, names.drop_last()) + "  "@ + var_cell(summaries, names.last())
    }
}

/// A row of the statistics table: date, hour and mean lead time in columns
/// of 12, 6 and 8 characters, then the cells of the variables listed in
/// `vars`.
pub open spec fn stats_row_spec(
    date: Seq<char>,
    hour: int,
    lead: Seq<char>,
    vars: Seq<char>,
    summaries: Seq<VarSummary>,
) -> Seq<char> {
    pad_right(date, 12) + " "@ + pad_right(int_decimal(hour), 6) + " "@ + pad_right(lead, 8) + " "@
        + joined_cells(summaries, split_on(vars, ','))
}

/// The header line of the statistics table.
pub open spec fn stats_header_spec(vars: Seq<char>) -> Seq<char> {
    pad_right("Date"@, 12) + " "@ + pad_right("Hour"@, 6) + " "@ + pad_right("Lead(h)"@, 8) + " "@
        + vars_header_spec(vars)
}

fn push_padded_str(out: &mut String, s: &str, w: usize)
    ensures
        final(out)@ == old(out)@ + pad_right(s@, w as nat),
{
    let v = chars_of(s);
    push_padded_right(out, &v, w);
}

fn find_summary_index(summaries: &Vec<VarSummary>, name: &Vec<char>) -> (r: Option<usize>)
    ensures
        match r {
            Some(i) => i < summaries.len() && find_summary(summaries@, name@) == Some(summaries@[i as int]),
            None => find_summary(summaries@, name@) is None,
        },
{
    let mut i: usize = 0;
    assert(summaries@.skip(0) =~= summaries@);
    while i < summaries.len()
        invariant
            i <= summaries.len(),
            find_summary(summaries@, name@) == find_summary(summaries@.skip(i as int), name@),
        decreases summaries.len() - i,
    {
        let k = chars_of(summaries[i].name.as_str());
        let ghost rest = summaries@.skip(i as int);
        assert(rest[0] == summaries@[i as int]);
        if same_chars(&k, name) {
            return Some(i);
        }
        assert(rest.drop_first() =~= summaries@.skip(i + 1));
        i += 1;
    }
    None
}

fn same_chars(a: &Vec<char>, b: &Vec<char>) -> (r: bool)
    ensures
        r == (a@ == b@),
{
    if a.len() != b.len() {
        return false;
    }
    let mut i: usize = 0;
    while i < a.len()
        invariant
            a.len() == b.len(),
            i <= a.len(),
            forall|j: int| 0 <= j < i ==> a@[j] == b@[j],
        decreases a.len() - i,
    {
        if a[i] != b[i] {
            return false;
        }
        i += 1;
    }
    assert(a@ =~= b@);
    true
}

fn push_var_cell(out: &mut String, summaries: &Vec<VarSummary>, name: &Vec<char>)
    ensures
        final(out)@ == old(out)@ + var_cell(summaries@, name@),
{
    push_chars(out, name, 0, name.len());
    assert(name@.subrange(0, name.len() as int) =~= name@);
    match find_summary_index(summaries, name) {
        Some(i) => {
            push_str(out, " ");
            push_str(out, summaries[i].mean.as_str());
            push_str(out, "±");
            push_str(out, summaries[i].stddev.as_str());
        },
        None => {
            push_str(out, " N/A");
        },
    }
}

/// A row of the statistics table; `lead` is the mean lead time as printed.
pub fn stats_row(date: &str, hour: i32, lead: &str, vars_str: &str, summaries: &Vec<VarSummary>) -> (r: String)
    ensures
        r@ == stats_row_spec(date@, hour as int, lead@, vars_str@, summaries@),
{
    let mut out = String::new();
    push_padded_str(&mut out, date, 12);
    push_str(&mut out, " ");
    let mut h = String::new();
    push_i64(&mut h, hour as i64);
    push_padded_str(&mut out, h.as_str(), 6);
    push_str(&mut out, " ");
    push_padded_str(&mut out, lead, 8);
    push_str(&mut out, " ");
    let chars = chars_of(vars_str);
    let names = split_chars(&chars, 0, chars.len(), ',');
    assert(chars@.subrange(0, chars.len() as int) =~= vars_str@);
    let ghost ns = views(names@);
    let ghost start = out@;
    let mut i: usize = 0;
    while i < names.len()
        invariant
            i <= names.len(),
            ns == views(names@),
            out@ == start + joined_cells(summaries@, ns.take(i as int)),
        decreases names.len() - i,
    {
        assert(ns.take(i + 1).drop_last() =~= ns.take(i as int));
        assert(ns.take(i + 1).last() == names@[i as int]@);
        if i > 0 {
            push_str(&mut out, "  ");
        }
        push_var_cell(&mut out, summaries, &names[i]);
        i += 1;
    }
    assert(ns.take(names.len() as int) =~= ns);
    out
}

/// The header line of the statistics table.
pub fn stats_header(vars_str: &str) -> (r: String)
    ensures
        r@ == stats_header_spec(vars_str@),
{
    let mut out = String::new();
    push_padded_str(&mut out, "Date", 12);
    push_str(&mut out, " ");
    push_padded_str(&mut out, "Hour", 6);
    push_str(&mut out, " ");
    push_padded_str(&mut out, "Lead(h)", 8);
    push_str(&mut out, " ");
    let h = vars_header(vars_str);
    push_str(&mut out, h.as_str());
    out
}

/// The rule under the header: as many dashes as the date, hour and lead
/// columns with their separators and 50 more.
pub fn stats_rule() -> (r: String)
    ensures
        r@ == repeat_char('-', 79),
{
    let mut out = String::new();
    let width: usize = 12 + 1 + 6 + 1 + 8 + 1 + 50;
    push_repeat(&mut out, '-', width);
    assert(out@ =~= repeat_char('-', 79));
    out
}

// ---------------------------------------------------------------------------
// Selecting and grouping archived slots

/// What the statistics read of one archived forecast slot: the adm4 code of
/// its forecast, and its local date and hour.
pub struct ArchivedSlot {
    pub adm4: String,
    pub date: (i32, u32, u32),
    pub hour: u32,
}

/// The archived slot of a forecast for `adm4` at the local time
/// `local_datetime` (`YYYY-MM-DD HH:MM:SS`), read with chrono; nothing when
/// the text is no such time.
pub fn archived_slot(adm4: &str, local_datetime: &str) -> (r: Option<ArchivedSlot>)
    ensures
        (r is Some) == (parsed_local_date_hour(local_datetime@) is Some),
        r matches Some(a) ==> a.adm4@ == adm4@ && (a.date, a.hour) == parsed_local_date_hour(
            local_datetime@,
        )->0,
{
    match parse_local_date_hour(local_datetime) {
        Some(dh) => Some(ArchivedSlot { adm4: String::from_str(adm4), date: dh.0, hour: dh.1 }),
        None => None,
    }
}

/// The instant of an RFC 3339 time (its Unix timestamp and the nanoseconds
/// past it), read with chrono; nothing when the text is no such time.
pub fn rfc3339_time(s: &str) -> (r: Option<(i64, u32)>)
    ensures
        r == rfc3339_instant(s@),
{
    parse_rfc3339(s)
}

/// How many whole seconds after the slot time `utc_datetime` (UTC,
/// `YYYY-MM-DD HH:MM:SS`) a forecast was fetched at `fetched_at`, as chrono
/// counts them; nothing when the slot time is no such time.
pub fn lead_seconds(fetched_at: (i64, u32), utc_datetime: &str) -> (r: Option<i64>)
    ensures
        r == match parsed_utc_instant(utc_datetime@) {
            Some(t) => chrono_seconds_between(fetched_at, t),
            None => None,
        },
        match parsed_utc_instant(utc_datetime@) {
            Some(t) => fetched_at.1 < 1_000_000_000 && t.1 < 1_000_000_000 && r is Some ==> r->0
                == whole_seconds_between(fetched_at, t),
            None => true,
        },
{
    match parse_naive_datetime_utc(utc_datetime) {
        Some(t) => seconds_between(fetched_at, t),
        None => None,
    }
}

/// Whether date `a` comes before date `b`.
pub open spec fn date_before(a: (i32, u32, u32), b: (i32, u32, u32)) -> bool {
    a.0 < b.0 || (a.0 == b.0 && (a.1 < b.1 || (a.1 == b.1 && a.2 < b.2)))
}

/// Whether (date, hour) `a` comes before `b`.
pub open spec fn key_before(a: ((i32, u32, u32), u32), b: ((i32, u32, u32), u32)) -> bool {
    date_before(a.0, b.0) || (a.0 == b.0 && a.1 < b.1)
}

/// Whether a slot is counted: its forecast is for the adm4 code asked for
/// (any when none is), and its date is neither before `start` nor after
/// `end` (when given).
pub open spec fn slot_selected(
    s: ArchivedSlot,
    adm4: Option<Seq<char>>,
    start: Option<(i32, u32, u32)>,
    end: Option<(i32, u32, u32)>,
) -> bool {
    &&& match adm4 {
        Some(a) => s.adm4@ == a,
        None => true,
    }
    &&& match start {
        Some(d) => !date_before(s.date, d),
        None => true,
    }
    &&& match end {
        Some(d) => !date_before(d, s.date),
        None => true,
    }
}

/// The (date, hour) of a slot.
pub open spec fn slot_key(s: ArchivedSlot) -> ((i32, u32, u32), u32) {
    (s.date, s.hour)
}

/// Whether `groups` groups exactly the counted slots among the first `k` by
/// (date, hour): keys strictly ascending, each group's positions strictly
/// ascending and all of slots with that key, and every counted slot in one.
pub open spec fn groups_slots(
    groups: Seq<((i32, u32, u32), u32, Vec<usize>)>,
    slots: Seq<ArchivedSlot>,
    adm4: Option<Seq<char>>,
    start: Option<(i32, u32, u32)>,
    end: Option<(i32, u32, u32)>,
    k: int,
) -> bool {
    &&& forall|a: int, b: int|
        0 <= a < b < groups.len() ==> key_before(
            (#[trigger] groups[a].0, groups[a].1),
            (#[trigger] groups[b].0, groups[b].1),
        )
    &&& forall|g: int| 0 <= g < groups.len() ==> #[trigger] groups[g].2@.len() > 0
    &&& forall|g: int, a: int, b: int|
        0 <= g < groups.len() && 0 <= a < b < groups[g].2@.len() ==> #[trigger] groups[g].2@[a]
            < #[trigger] groups[g].2@[b]
    &&& forall|g: int, t: int|
        0 <= g < groups.len() && 0 <= t < groups[g].2@.len() ==> {
            let j = #[trigger] groups[g].2@[t] as int;
            &&& 0 <= j < k
            &&& slot_selected(slots[j], adm4, start, end)
            &&& slot_key(slots[j]) == (groups[g].0, groups[g].1)
        }
    &&& forall|j: int|
        0 <= j < k && slot_selected(#[trigger] slots[j], adm4, start, end) ==> exists|g: int, t: int|
            0 <= g < groups.len() && 0 <= t < groups[g].2@.len() && #[trigger] groups[g].2@[t] == j
}

fn date_before_exec(a: (i32, u32, u32), b: (i32, u32, u32)) -> (r: bool)
    ensures
        r == date_before(a, b),
{
    a.0 < b.0 || (a.0 == b.0 && (a.1 < b.1 || (a.1 == b.1 && a.2 < b.2)))
}

fn same_date(a: (i32, u32, u32), b: (i32, u32, u32)) -> (r: bool)
    ensures
        r == (a == b),
{
    a.0 == b.0 && a.1 == b.1 && a.2 == b.2
}

fn same_text(a: &str, b: &str) -> (r: bool)
    ensures
        r == (a@ == b@),
{
    let x = chars_of(a);
    let y = chars_of(b);
    same_chars(&x, &y)
}

/// Whether a forecast for `adm4` is counted: always when no code is asked
/// for, else when it is that code.
pub fn adm4_selected(adm4: &str, wanted: Option<&str>) -> (r: bool)
    ensures
        r == match wanted {
            Some(a) => adm4@ == a@,
            None => true,
        },
{
    match wanted {
        Some(a) => same_text(adm4, a),
        None => true,
    }
}

fn selected_exec(
    s: &ArchivedSlot,
    adm4: Option<&str>,
    start: Option<(i32, u32, u32)>,
    end: Option<(i32, u32, u32)>,
) -> (r: bool)
    ensures
        r == slot_selected(
            *s,
            match adm4 {
                Some(a) => Some(a@),
                None => None,
            },
            start,
            end,
        ),
{
    let place = adm4_selected(s.adm4.as_str(), adm4);
    let after_start = match start {
        Some(d) => !date_before_exec(s.date, d),
        None => true,
    };
    let before_end = match end {
        Some(d) => !date_before_exec(d, s.date),
        None => true,
    };
    place && after_start && before_end
}

/// The counted archived slots grouped by (date, hour), in ascending order:
/// each group holds the positions of its slots in `slots`, ascending. A
/// slot is counted when its forecast is for `adm4` (when given) and its
/// date lies from `start` to `end` (each when given).
pub fn stats_groups(
    slots: &Vec<ArchivedSlot>,
    adm4: Option<&str>,
    start: Option<(i32, u32, u32)>,
    end: Option<(i32, u32, u32)>,
) -> (groups: Vec<((i32, u32, u32), u32, Vec<usize>)>)
    ensures
        groups_slots(
            groups@,
            slots@,
            match adm4 {
                Some(a) => Some(a@),
                None => None,
            },
            start,
            end,
            slots.len() as int,
        ),
{
    let ghost place = match adm4 {
        Some(a) => Some(a@),
        None => None,
    };
    let mut groups: Vec<((i32, u32, u32), u32, Vec<usize>)> = Vec::new();
    let mut k: usize = 0;
    while k < slots.len()
        invariant
            k <= slots.len(),
            place == match adm4 {
                Some(a) => Some(a@),
                None => None::<Seq<char>>,
            },
            groups_slots(groups@, slots@, place, start, end, k as int),
        decreases slots.len() - k,
    {
        let s = &slots[k];
        if selected_exec(s, adm4, start, end) {
            let key = (s.date, s.hour);
            // the first group whose key is not before the slot's
            let mut p: usize = 0;
            while p < groups.len() && (date_before_exec(groups[p].0, key.0) || (same_date(
                groups[p].0,
                key.0,
            ) && groups[p].1 < key.1))
                invariant
                    p <= groups.len(),
                    forall|q: int| 0 <= q < p ==> key_before((#[trigger] groups@[q].0, groups@[q].1), key),
                decreases groups.len() - p,
            {
                p += 1;
            }
            let ghost old_groups = groups@;
            proof {
                assert forall|q: int| p <= q < old_groups.len() implies !key_before(
                    (#[trigger] old_groups[q].0, old_groups[q].1),
                    key,
                ) by {
                    if q > p {
                        assert(key_before((old_groups[p as int].0, old_groups[p as int].1), (old_groups[q].0, old_groups[q].1)));
                    }
                }
            }
            if p < groups.len() && same_date(groups[p].0, key.0) && groups[p].1 == key.1 {
                let mut g = groups.remove(p);
                let ghost old_list = g.2@;
                g.2.push(k);
                groups.insert(p, g);
                proof {
                    assert(groups@ =~= old_groups.update(p as int, groups@[p as int]));
                    assert forall|j: int|
                        0 <= j < k + 1 && slot_selected(#[trigger] slots@[j], place, start, end) implies exists|
                        g: int,
                        t: int,
                    | 0 <= g < groups@.len() && 0 <= t < groups@[g].2@.len() && #[trigger] groups@[g].2@[t] == j by {
                        if j == k {
                            assert(groups@[p as int].2@[old_list.len() as int] == j);
                        } else {
                            let (g0, t0) = choose|g: int, t: int|
                                0 <= g < old_groups.len() && 0 <= t < old_groups[g].2@.len()
                                    && #[trigger] old_groups[g].2@[t] == j;
                            if g0 == p {
                                assert(groups@[g0].2@[t0] == j);
                            } else {
                                assert(groups@[g0] == old_groups[g0]);
                            }
                        }
                    }
                    assert forall|g: int, a: int, b: int|
                        0 <= g < groups@.len() && 0 <= a < b < groups@[g].2@.len() implies #[trigger] groups@[g].2@[a]
                        < #[trigger] groups@[g].2@[b] by {
                        if g == p {
                            if b == old_list.len() {
                                assert(old_list[a] < k);
                            } else {
                                assert(old_list[a] < old_list[b]);
                            }
                        } else {
                            assert(groups@[g] == old_groups[g]);
                        }
                    }
                    assert forall|g: int, t: int|
                        0 <= g < groups@.len() && 0 <= t < groups@[g].2@.len() implies {
                        let j = #[trigger] groups@[g].2@[t] as int;
                        &&& 0 <= j < k + 1
                        &&& slot_selected(slots@[j], place, start, end)
                        &&& slot_key(slots@[j]) == (groups@[g].0, groups@[g].1)
                    } by {
                        if g == p {
                            if t < old_list.len() {
                                assert(groups@[g].2@[t] == old_list[t]);
                            }
                        } else {
                            assert(groups@[g] == old_groups[g]);
                        }
                    }
                }
            } else {
                let mut list: Vec<usize> = Vec::new();
                list.push(k);
                groups.insert(p, (key.0, key.1, list));
                proof {
                    assert forall|q: int| 0 <= q < groups@.len() implies (#[trigger] groups@[q]) == if q < p {
                        old_groups[q]
                    } else if q == p {
                        (key.0, key.1, list)
                    } else {
                        old_groups[q - 1]
                    } by {}
                    assert forall|j: int|
                        0 <= j < k + 1 && slot_selected(#[trigger] slots@[j], place, start, end) implies exists|
                        g: int,
                        t: int,
                    | 0 <= g < groups@.len() && 0 <= t < groups@[g].2@.len() && #[trigger] groups@[g].2@[t] == j by {
                        if j == k {
                            assert(groups@[p as int].2@[0] == j);
                        } else {
                            let (g0, t0) = choose|g: int, t: int|
                                0 <= g < old_groups.len() && 0 <= t < old_groups[g].2@.len()
                                    && #[trigger] old_groups[g].2@[t] == j;
                            if g0 < p {
                                assert(groups@[g0].2@[t0] == j);
                            } else {
                                assert(groups@[g0 + 1].2@[t0] == j);
                            }
                        }
                    }
                    assert forall|a: int, b: int| 0 <= a < b < groups@.len() implies key_before(
                        (#[trigger] groups@[a].0, groups@[a].1),
                        (#[trigger] groups@[b].0, groups@[b].1),
                    ) by {
                        if b < p {
                        } else if b == p {
                        } else if a < p {
                            assert(key_before((old_groups[a].0, old_groups[a].1), (old_groups[b - 1].0, old_groups[b - 1].1)));
                        } else if a == p {
                            assert(!key_before((old_groups[b - 1].0, old_groups[b - 1].1), key));
                        } else {
                            assert(key_before((old_groups[a - 1].0, old_groups[a - 1].1), (old_groups[b - 1].0, old_groups[b - 1].1)));
                        }
                    }
                    assert forall|g: int, a: int, b: int|
                        0 <= g < groups@.len() && 0 <= a < b < groups@[g].2@.len() implies #[trigger] groups@[g].2@[a]
                        < #[trigger] groups@[g].2@[b] by {
                        if g < p {
                        } else if g > p {
                            assert(groups@[g] == old_groups[g - 1]);
                        }
                    }
                    assert forall|g: int, t: int|
                        0 <= g < groups@.len() && 0 <= t < groups@[g].2@.len() implies {
                        let j = #[trigger] groups@[g].2@[t] as int;
                        &&& 0 <= j < k + 1
                        &&& slot_selected(slots@[j], place, start, end)
                        &&& slot_key(slots@[j]) == (groups@[g].0, groups@[g].1)
                    } by {
                        if g < p {
                        } else if g > p {
                            assert(groups@[g] == old_groups[g - 1]);
                        }
                    }
                }
            }
        } else {
            proof {
                assert forall|j: int|
                    0 <= j < k + 1 && slot_selected(#[trigger] slots@[j], place, start, end) implies exists|
                    g: int,
                    t: int,
                | 0 <= g < groups@.len() && 0 <= t < groups@[g].2@.len() && #[trigger] groups@[g].2@[t] == j by {
                    assert(j < k);
                }
            }
        }
        k += 1;
    }
    groups
}

/// In a grouping of the counted slots each slot stands once: in one group,
/// at one place.
pub proof fn law_grouped_slots_stand_once(
    groups: Seq<((i32, u32, u32), u32, Vec<usize>)>,
    slots: Seq<ArchivedSlot>,
    adm4: Option<Seq<char>>,
    start: Option<(i32, u32, u32)>,
    end: Option<(i32, u32, u32)>,
    g1: int,
    t1: int,
    g2: int,
    t2: int,
)
    requires
        groups_slots(groups, slots, adm4, start, end, slots.len() as int),
        0 <= g1 < groups.len(),
        0 <= t1 < groups[g1].2@.len(),
        0 <= g2 < groups.len(),
        0 <= t2 < groups[g2].2@.len(),
        groups[g1].2@[t1] == groups[g2].2@[t2],
    ensures
        g1 == g2,
        t1 == t2,
{
    let j = groups[g1].2@[t1] as int;
    assert(slot_key(slots[j]) == (groups[g1].0, groups[g1].1));
    assert(slot_key(slots[j]) == (groups[g2].0, groups[g2].1));
    if g1 < g2 {
        assert(key_before((groups[g1].0, groups[g1].1), (groups[g2].0, groups[g2].1)));
    } else if g2 < g1 {
        assert(key_before((groups[g2].0, groups[g2].1), (groups[g1].0, groups[g1].1)));
    }
    if t1 < t2 {
        assert(groups[g1].2@[t1] < groups[g1].2@[t2]);
    } else if t2 < t1 {
        assert(groups[g1].2@[t2] < groups[g1].2@[t1]);
    }
}

/// Whether `d` is a date with a month from 1 to 12 and a day from 1 to 31.
pub open spec fn plain_date(d: (i32, u32, u32)) -> bool {
    1 <= d.1 <= 12 && 1 <= d.2 <= 31
}

/// A number for a date that grows with the calendar: 372 per year (12
/// months of at most 31 days), 31 per month, 1 per day.
pub open spec fn calendar_number(d: (i32, u32, u32)) -> int {
    d.0 * 372 + (d.1 - 1) * 31 + (d.2 - 1)
}

/// Dates are ordered as the calendar orders them: a date comes before
/// another exactly when it lies earlier in the calendar, whatever its day
/// of the month (30 April comes before 1 May).
pub proof fn law_date_order_is_calendar_order(a: (i32, u32, u32), b: (i32, u32, u32))
    requires
        plain_date(a),
        plain_date(b),
    ensures
        date_before(a, b) <==> calendar_number(a) < calendar_number(b),
        !date_before(a, b) && !date_before(b, a) <==> a == b,
{
    assert(calendar_number(a) >= a.0 * 372 && calendar_number(a) <= a.0 * 372 + 371);
    assert(calendar_number(b) >= b.0 * 372 && calendar_number(b) <= b.0 * 372 + 371);
}

/// A slot is counted from the start date on and up to the end date, in
/// calendar order (for a forecast of any place when none is asked for).
pub proof fn law_date_range_selects_in_calendar_order(
    s: ArchivedSlot,
    start: (i32, u32, u32),
    end: (i32, u32, u32),
)
    requires
        plain_date(s.date),
        plain_date(start),
        plain_date(end),
    ensures
        slot_selected(s, None, Some(start), Some(end)) <==> calendar_number(start) <= calendar_number(s.date)
            <= calendar_number(end),
        slot_selected(s, None, Some(start), None) <==> calendar_number(start) <= calendar_number(s.date),
        slot_selected(s, None, None, Some(end)) <==> calendar_number(s.date) <= calendar_number(end),
{
    law_date_order_is_calendar_order(s.date, start);
    law_date_order_is_calendar_order(end, s.date);
}

/// The groups of counted slots come in calendar order of their dates, and
/// by hour within a date.
pub proof fn law_groups_in_calendar_order(
    groups: Seq<((i32, u32, u32), u32, Vec<usize>)>,
    slots: Seq<ArchivedSlot>,
    adm4: Option<Seq<char>>,
    start: Option<(i32, u32, u32)>,
    end: Option<(i32, u32, u32)>,
    a: int,
    b: int,
)
    requires
        groups_slots(groups, slots, adm4, start, end, slots.len() as int),
        forall|j: int| 0 <= j < slots.len() ==> plain_date(#[trigger] slots[j].date),
        0 <= a < b < groups.len(),
    ensures
        calendar_number(groups[a].0) < calendar_number(groups[b].0) || (groups[a].0 == groups[b].0
            && groups[a].1 < groups[b].1),
{
    assert(key_before((groups[a].0, groups[a].1), (groups[b].0, groups[b].1)));
    assert(groups[a].2@.len() > 0);
    assert(groups[b].2@.len() > 0);
    let ja = groups[a].2@[0] as int;
    let jb = groups[b].2@[0] as int;
    assert(slot_key(slots[ja]) == (groups[a].0, groups[a].1));
    assert(slot_key(slots[jb]) == (groups[b].0, groups[b].1));
    assert(plain_date(slots[ja].date));
    assert(plain_date(slots[jb].date));
    law_date_order_is_calendar_order(groups[a].0, groups[b].0);
}

/// The variable names listed in `vars`, split at every comma.
pub fn selected_variables(vars: &str) -> (v: Vec<String>)
    ensures
        v@.map_values(|s: String| s@) == split_on(vars@, ','),
{
    let chars = chars_of(vars);
    let pieces = split_chars(&chars, 0, chars.len(), ',');
    assert(chars@.subrange(0, chars.len() as int) =~= vars@);
    let mut v: Vec<String> = Vec::new();
    let mut i: usize = 0;
    while i < pieces.len()
        invariant
            i <= pieces.len(),
            v@.map_values(|s: String| s@) == views(pieces@).take(i as int),
        decreases pieces.len() - i,
    {
        let ghost before = v@;
        v.push(string_of(&pieces[i]));
        assert(v@.map_values(|s: String| s@) =~= before.map_values(|s: String| s@).push(pieces@[i as int]@));
        assert(views(pieces@).take(i + 1) =~= views(pieces@).take(i as int).push(pieces@[i as int]@));
        i += 1;
    }
    assert(views(pieces@).take(pieces.len() as int) =~= views(pieces@));
    v
}

} // verus!
