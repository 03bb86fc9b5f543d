//! Alert identifiers and the area and time filter of warnings.
use vstd::prelude::*;
use crate::color::{split_chars, split_on, views};
use crate::format::{instant_nanos, rfc3339_nanos};
use crate::lang::{by_lang, Lang};
use crate::text::{ascii_lower, ascii_lower_chars, chars_of, contains_chars, contains_seq, owned, string_of};

verus! {

broadcast use vstd::string::group_string_axioms;

/// The last path component among `pieces`, skipping empty and `.` pieces.
pub open spec fn last_component(pieces: Seq<Seq<char>>) -> Option<Seq<char>>
    decreases pieces.len(),
{
    if pieces.len() == 0 {
        None
    } else {
        let p = pieces.last();
        if p.len() == 0 || p == seq!['.'] {
            last_component(pieces.drop_last())
        } else {
            Some(p)
        }
    }
}

/// The final component of a `/`-separated path (Rust's `Path::file_name` on
/// Unix): none when the path has no component or ends in `..`.
pub open spec fn file_name(path: Seq<char>) -> Option<Seq<char>> {
    match last_component(split_on(path, '/')) {
        Some(p) => if p == seq!['.', '.'] {
            None
        } else {
            Some(p)
        },
        None => None,
    }
}

/// `s` with every trailing repetition of `suffix` removed (Rust's
/// `str::trim_end_matches` with a non-empty pattern).
pub open spec fn trim_suffix_all(s: Seq<char>, suffix: Seq<char>) -> Seq<char>
    decreases s.len(),
{
    if suffix.len() > 0 && s.len() >= suffix.len() && s.skip(s.len() - suffix.len()) == suffix {
        trim_suffix_all(s.take(s.len() - suffix.len()), suffix)
    } else {
        s
    }
}

/// Whether `s` ends with `suffix`.
pub open spec fn ends_with(s: Seq<char>, suffix: Seq<char>) -> bool {
    s.len() >= suffix.len() && s.skip(s.len() - suffix.len()) == suffix
}

/// The text before the last `.` of `s`, if `s` has one.
pub open spec fn before_last_dot(s: Seq<char>) -> Option<Seq<char>>
    decreases s.len(),
{
    if s.len() == 0 {
        None
    } else if s.last() == '.' {
        Some(s.drop_last())
    } else {
        before_last_dot(s.drop_last())
    }
}

/// The identifier of an alert from its CAP link: the file name without
/// `_alert.xml` (or else without its extension); the link itself when it has
/// no file name.
pub open spec fn cap_id(link: Seq<char>) -> Seq<char> {
    match file_name(link) {
        None => link,
        Some(f) => if ends_with(f, "_alert.xml"@) {
            trim_suffix_all(f, "_alert.xml"@)
        } else {
            match before_last_dot(f) {
                Some(stem) => stem,
                None => f,
            }
        },
    }
}

fn file_name_of(v: &Vec<char>) -> (r: Option<Vec<char>>)
    ensures
        match file_name(v@) {
            Some(f) => (r matches Some(x) && x@ == f),
            None => r is None,
        },
{
    let pieces = split_chars(v, 0, v.len(), '/');
    assert(v@.subrange(0, v.len() as int) =~= v@);
    let ghost ps = views(pieces@);
    let mut k = pieces.len();
    assert(ps.take(k as int) =~= ps);
    while k > 0 && (pieces[k - 1].len() == 0 || (pieces[k - 1].len() == 1 && pieces[k - 1][0] == '.'))
        invariant
            k <= pieces.len(),
            ps == views(pieces@),
            last_component(ps.take(k as int)) == last_component(ps),
        decreases k,
    {
        proof {
            let p = ps.take(k as int).last();
            assert(p == pieces@[k - 1]@);
            if pieces@[k - 1]@.len() == 1 {
                assert(p =~= seq!['.']);
            }
            assert(ps.take(k as int).drop_last() =~= ps.take(k - 1));
        }
        k -= 1;
    }
    if k == 0 {
        return None;
    }
    proof {
        let p = ps.take(k as int).last();
        assert(p == pieces@[k - 1]@);
        assert(p.len() != 0);
        assert(p != seq!['.']) by {
            if p == seq!['.'] {
                assert(p.len() == 1 && p[0] == '.');
            }
        }
    }
    let last = &pieces[k - 1];
    if last.len() == 2 && last[0] == '.' && last[1] == '.' {
        assert(last@ =~= seq!['.', '.']);
        return None;
    }
    assert(last@ != seq!['.', '.']) by {
        if last@ == seq!['.', '.'] {
            assert(last@.len() == 2 && last@[0] == '.' && last@[1] == '.');
        }
    }
    let mut out: Vec<char> = Vec::new();
    let mut i: usize = 0;
    while i < last.len()
        invariant
            i <= last.len(),
            out@ == last@.take(i as int),
        decreases last.len() - i,
    {
        out.push(last[i]);
        assert(out@ =~= last@.take(i + 1));
        i += 1;
    }
    assert(out@ =~= last@);
    Some(out)
}

fn ends_with_at(v: &Vec<char>, end: usize, suffix: &Vec<char>) -> (b: bool)
    requires
        end <= v.len(),
    ensures
        b == ends_with(v@.take(end as int), suffix@),
{
    if suffix.len() > end {
        return false;
    }
    let start = end - suffix.len();
    let mut k: usize = 0;
    while k < suffix.len()
        invariant
            k <= suffix.len(),
            start + suffix.len() == end,
            end <= v.len(),
            forall|j: int| 0 <= j < k ==> v@[start + j] == suffix@[j],
        decreases suffix.len() - k,
    {
        if v[start + k] != suffix[k] {
            assert(v@.take(end as int).skip(start as int)[k as int] != suffix@[k as int]);
            return false;
        }
        k += 1;
    }
    assert(v@.take(end as int).skip(start as int) =~= suffix@);
    true
}

/// The identifier of an alert from its CAP link.
pub fn cap_id_from_link(link: &str) -> (id: String)
    ensures
        id@ == cap_id(link@),
{
    let v = chars_of(link);
    let fname = match file_name_of(&v) {
        Some(f) => f,
        None => {
            return owned(link);
        },
    };
    let suffix = chars_of("_alert.xml");
    if ends_with_at(&fname, fname.len(), &suffix) {
        assert(fname@.take(fname.len() as int) =~= fname@);
        let mut end = fname.len();
        assert(fname@.take(end as int) =~= fname@);
        while ends_with_at(&fname, end, &suffix)
            invariant
                end <= fname.len(),
                suffix@ == "_alert.xml"@,
                trim_suffix_all(fname@.take(end as int), suffix@) == trim_suffix_all(fname@, suffix@),
            decreases end,
        {
            proof {
                reveal_strlit("_alert.xml");
                assert(fname@.take(end as int).take(end - suffix.len()) =~= fname@.take(end - suffix.len()));
            }
            end -= suffix.len();
        }
        let mut out: Vec<char> = Vec::new();
        let mut i: usize = 0;
        while i < end
            invariant
                i <= end <= fname.len(),
                out@ == fname@.take(i as int),
            decreases end - i,
        {
            out.push(fname[i]);
            assert(out@ =~= fname@.take(i + 1));
            i += 1;
        }
        proof {
            reveal_strlit("_alert.xml");
        }
        return string_of(&out);
    }
    assert(fname@.take(fname.len() as int) =~= fname@);
    let mut d = fname.len();
    while d > 0 && fname[d - 1] != '.'
        invariant
            d <= fname.len(),
            before_last_dot(fname@.take(d as int)) == before_last_dot(fname@),
        decreases d,
    {
        assert(fname@.take(d as int).drop_last() =~= fname@.take(d - 1));
        d -= 1;
    }
    if d == 0 {
        assert(fname@.take(0) =~= Seq::<char>::empty());
        return string_of(&fname);
    }
    let mut out: Vec<char> = Vec::new();
    let mut i: usize = 0;
    while i < d - 1
        invariant
            i <= d - 1,
            d <= fname.len(),
            out@ == fname@.take(i as int),
        decreases d - 1 - i,
    {
        out.push(fname[i]);
        assert(out@ =~= fname@.take(i + 1));
        i += 1;
    }
    assert(fname@.take(d as int).drop_last() =~= fname@.take(d - 1));
    string_of(&out)
}

// ---------------------------------------------------------------------------
// Filtering by area and time

/// What the area and time filter reads of a warning: the area it names and
/// its validity window, as nanoseconds since the Unix epoch.
pub struct WarningWindow {
    pub area_desc: String,
    pub effective: Option<i128>,
    pub expires: Option<i128>,
}

/// The nanoseconds since the Unix epoch of an optional RFC 3339 time:
/// nothing when it is absent or no such time.
pub open spec fn opt_rfc3339_nanos(t: Option<Seq<char>>) -> Option<i128> {
    match t {
        Some(s) => rfc3339_nanos(s),
        None => None,
    }
}

/// The window of a warning for the area `area_desc`, valid from `effective`
/// to `expires` (RFC 3339 times, read with chrono; a time that is absent or
/// does not parse leaves that end open).
pub fn warning_window(area_desc: &str, effective: Option<&str>, expires: Option<&str>) -> (w: WarningWindow)
    ensures
        w.area_desc@ == area_desc@,
        w.effective == opt_rfc3339_nanos(
            match effective {
                Some(e) => Some(e@),
                None => None,
            },
        ),
        w.expires == opt_rfc3339_nanos(
            match expires {
                Some(e) => Some(e@),
                None => None,
            },
        ),
{
    let effective = match effective {
        Some(e) => instant_nanos(e),
        None => None,
    };
    let expires = match expires {
        Some(e) => instant_nanos(e),
        None => None,
    };
    WarningWindow { area_desc: owned(area_desc), effective, expires }
}

/// A day in nanoseconds.
pub open spec fn day_nanos() -> int {
    86_400_000_000_000
}

/// Whether a warning concerns `province` at `now`: its area names the
/// province (ignoring ASCII case), and `now` lies in its validity window; a
/// missing start counts as now, a missing end as a day from now.
pub open spec fn concerns(w: WarningWindow, province: Seq<char>, now: i128) -> bool {
    let eff = match w.effective {
        Some(t) => t as int,
        None => now as int,
    };
    let exp = match w.expires {
        Some(t) => t as int,
        None => now + day_nanos(),
    };
    contains_seq(ascii_lower(w.area_desc@), ascii_lower(province)) && eff <= now && now < exp
}

/// The positions of the warnings that concern `province` at `now`, in order.
pub fn filter_by_province(alerts: &Vec<WarningWindow>, province: &str, now: i128) -> (kept: Vec<usize>)
    requires
        now + day_nanos() <= i128::MAX,
    ensures
        forall|a: int, b: int| 0 <= a < b < kept.len() ==> kept@[a] < kept@[b],
        forall|a: int| 0 <= a < kept.len() ==> #[trigger] kept@[a] < alerts.len(),
        forall|a: int| 0 <= a < kept.len() ==> concerns(alerts@[#[trigger] kept@[a] as int], province@, now),
        forall|i: int|
            0 <= i < alerts.len() && concerns(#[trigger] alerts@[i], province@, now) ==> kept@.contains(
                i as usize,
            ),
{
    let pv = chars_of(province);
    let pl = ascii_lower_chars(&pv, 0, pv.len());
    assert(pv@.subrange(0, pv.len() as int) =~= pv@);
    let mut kept: Vec<usize> = Vec::new();
    let mut i: usize = 0;
    while i < alerts.len()
        invariant
            i <= alerts.len(),
            now + day_nanos() <= i128::MAX,
            pl@ == ascii_lower(province@),
            forall|a: int, b: int| 0 <= a < b < kept.len() ==> kept@[a] < kept@[b],
            forall|a: int| 0 <= a < kept.len() ==> #[trigger] kept@[a] < i,
            forall|a: int| 0 <= a < kept.len() ==> concerns(alerts@[#[trigger] kept@[a] as int], province@, now),
            forall|j: int| 0 <= j < i && concerns(#[trigger] alerts@[j], province@, now) ==> kept@.contains(
                j as usize,
            ),
        decreases alerts.len() - i,
    {
        let w = &alerts[i];
        let av = chars_of(w.area_desc.as_str());
        let al = ascii_lower_chars(&av, 0, av.len());
        assert(av@.subrange(0, av.len() as int) =~= av@);
        let eff = match w.effective {
            Some(t) => t,
            None => now,
        };
        let exp = match w.expires {
            Some(t) => t,
            None => now + 86_400_000_000_000,
        };
        if contains_chars(&al, &pl) && eff <= now && now < exp {
            let ghost old_kept = kept@;
            kept.push(i);
            assert forall|j: int| 0 <= j < i + 1 && concerns(#[trigger] alerts@[j], province@, now) implies kept@.contains(
                j as usize,
            ) by {
                if j < i {
                    let x = choose|x: int| 0 <= x < old_kept.len() && old_kept[x] == j as usize;
                    assert(kept@[x] == j as usize);
                } else {
                    assert(kept@[old_kept.len() as int] == i);
                }
            }
        }
        i += 1;
    }
    kept
}

/// Whether warning `w` concerns `province` at `now`, where `pl` is the
/// province in ASCII lower case.
fn concerns_exec(w: &WarningWindow, pl: &Vec<char>, now: i128, Ghost(province): Ghost<Seq<char>>) -> (b: bool)
    requires
        pl@ == ascii_lower(province),
        now + day_nanos() <= i128::MAX,
    ensures
        b == concerns(*w, province, now),
{
    let av = chars_of(w.area_desc.as_str());
    let al = ascii_lower_chars(&av, 0, av.len());
    assert(av@.subrange(0, av.len() as int) =~= av@);
    let eff = match w.effective {
        Some(t) => t,
        None => now,
    };
    let exp = match w.expires {
        Some(t) => t,
        None => now + 86_400_000_000_000,
    };
    contains_chars(&al, pl) && eff <= now && now < exp
}

/// Whether a warning is shown for a place: a warning with area polygons
/// when one of them holds the place (`hit` is `Some(inside)`); a warning
/// without polygons when it concerns the province at `now`.
pub open spec fn shown(w: WarningWindow, hit: Option<bool>, province: Seq<char>, now: i128) -> bool {
    match hit {
        Some(inside) => inside,
        None => concerns(w, province, now),
    }
}

/// The positions among the first `k` warnings that are shown, in order.
pub open spec fn shown_positions(
    alerts: Seq<WarningWindow>,
    hits: Seq<Option<bool>>,
    province: Seq<char>,
    now: i128,
    k: nat,
) -> Seq<usize>
    decreases k,
{
    if k == 0 {
        Seq::empty()
    } else {
        shown_positions(alerts, hits, province, now, (k - 1) as nat) + if shown(
            alerts[k - 1],
            hits[k - 1],
            province,
            now,
        ) {
            seq![(k - 1) as usize]
        } else {
            Seq::empty()
        }
    }
}

/// The positions of the warnings to show, in order. `polygon_hit[i]` is
/// `None` when warning `i` has no area polygon, and otherwise tells whether
/// one of its polygons holds the place: a warning with polygons is shown
/// when the place lies in one; a warning without is shown when its area
/// names the province and `now` lies in its validity window.
pub fn select_warnings(alerts: &Vec<WarningWindow>, polygon_hit: &Vec<Option<bool>>, province: &str, now: i128) -> (kept:
    Vec<usize>)
    requires
        polygon_hit.len() == alerts.len(),
        now + day_nanos() <= i128::MAX,
    ensures
        kept@ == shown_positions(alerts@, polygon_hit@, province@, now, alerts.len() as nat),
{
    let pv = chars_of(province);
    let pl = ascii_lower_chars(&pv, 0, pv.len());
    assert(pv@.subrange(0, pv.len() as int) =~= pv@);
    let mut kept: Vec<usize> = Vec::new();
    let mut i: usize = 0;
    while i < alerts.len()
        invariant
            i <= alerts.len(),
            polygon_hit.len() == alerts.len(),
            now + day_nanos() <= i128::MAX,
            pl@ == ascii_lower(province@),
            kept@ == shown_positions(alerts@, polygon_hit@, province@, now, i as nat),
        decreases alerts.len() - i,
    {
        let show = match polygon_hit[i] {
            Some(inside) => inside,
            None => concerns_exec(&alerts[i], &pl, now, Ghost(province@)),
        };
        if show {
            kept.push(i);
        }
        i += 1;
    }
    kept
}

/// The feed of nowcast warnings in a language.
pub fn rss_url(lang: Lang) -> (url: &'static str)
    ensures
        url@ == by_lang(
            lang,
            "https://www.bmkg.go.id/alerts/nowcast/en"@,
            "https://www.bmkg.go.id/alerts/nowcast/id"@,
        ),
{
    match lang {
        Lang::EN => "https://www.bmkg.go.id/alerts/nowcast/en",
        Lang::ID => "https://www.bmkg.go.id/alerts/nowcast/id",
    }
}

/// Nanoseconds in `minutes` minutes.
pub open spec fn minutes_nanos(minutes: int) -> int {
    minutes * 60_000_000_000
}

/// The largest time to live, in minutes, that a time span can hold.
pub open spec fn ttl_fits(ttl_minutes: u64) -> bool {
    ttl_minutes * 60 <= i64::MAX / 1000
}

/// Whether a cache file of age `age` (in nanoseconds) is within a time to
/// live of `ttl_minutes`.
pub fn within_ttl(age: i128, ttl_minutes: u64) -> (fresh: bool)
    requires
        ttl_fits(ttl_minutes),
    ensures
        fresh == (age < minutes_nanos(ttl_minutes as int)),
{
    age < (ttl_minutes as i128) * 60_000_000_000
}

/// Whether a cached alert can be shown at `now`: one with an end until it
/// ends; one without, while its cache file (of age `file_age`, when known)
/// is within the time to live.
pub fn cached_alert_usable(expires: Option<i128>, now: i128, file_age: Option<i128>, ttl_minutes: u64) -> (usable:
    bool)
    requires
        ttl_fits(ttl_minutes),
    ensures
        usable == match expires {
            Some(e) => now < e,
            None => match file_age {
                Some(a) => a < minutes_nanos(ttl_minutes as int),
                None => false,
            },
        },
{
    match expires {
        Some(e) => now < e,
        None => match file_age {
            Some(a) => within_ttl(a, ttl_minutes),
            None => false,
        },
    }
}

} // verus!
