//! Character-level string helpers shared by the formatting modules.
//!
//! Every text in this crate is reasoned about as its sequence of characters
//! (`String` and `&str` are viewed as `Seq<char>`).
use vstd::prelude::*;

verus! {

broadcast use vstd::string::group_string_axioms;

/// `n` copies of the character `c`.
pub open spec fn repeat_char(c: char, n: nat) -> Seq<char> {
    Seq::new(n, |i: int| c)
}

/// `n` spaces.
pub open spec fn spaces(n: nat) -> Seq<char> {
    repeat_char(' ', n)
}

/// `s` right-aligned in a field of `w` characters (Rust's `{:>w}`).
pub open spec fn pad_left(s: Seq<char>, w: nat) -> Seq<char> {
    if s.len() < w {
        spaces((w - s.len()) as nat) + s
    } else {
        s
    }
}

/// `s` left-aligned in a field of `w` characters (Rust's `{:<w}`).
pub open spec fn pad_right(s: Seq<char>, w: nat) -> Seq<char> {
    if s.len() < w {
        s + spaces((w - s.len()) as nat)
    } else {
        s
    }
}

/// The decimal digit character for `d < 10`.
pub open spec fn digit_char(d: nat) -> char {
    ('0' as u32 + d) as char
}

/// Decimal notation of a natural number, without leading zeros.
pub open spec fn decimal(n: nat) -> Seq<char>
    decreases n,
{
    if n < 10 {
        seq![digit_char(n)]
    } else {
        decimal(n / 10).push(digit_char(n % 10))
    }
}

/// Decimal notation of an integer, with a leading `-` for negative values.
pub open spec fn int_decimal(i: int) -> Seq<char> {
    if i < 0 {
        seq!['-'] + decimal((-i) as nat)
    } else {
        decimal(i as nat)
    }
}

/// Whether `c` occurs in `s`.
pub open spec fn has_char(s: Seq<char>, c: char) -> bool {
    exists|i: int| 0 <= i < s.len() && s[i] == c
}

pub proof fn lemma_decimal_len(n: nat)
    ensures
        1 <= decimal(n).len(),
        n < 10 <==> decimal(n).len() == 1,
        n < 100 ==> decimal(n).len() <= 2,
        n < 1000 ==> decimal(n).len() <= 3,
    decreases n,
{
    if n >= 10 {
        lemma_decimal_len(n / 10);
    }
}

/// Appends one character to a `String` (std `String::push`).
#[verifier::external_body]
pub(crate) fn push_char(s: &mut String, c: char)
    ensures
        final(s)@ == old(s)@.push(c),
{
    s.push(c);
}

/// Appends a string slice to a `String`.
pub fn push_str(s: &mut String, t: &str)
    ensures
        final(s)@ == old(s)@ + t@,
{
    s.append(t);
}

/// An owned copy of a string slice.
pub fn owned(t: &str) -> (s: String)
    ensures
        s@ == t@,
{
    String::from_str(t)
}

/// The characters of `s`, in order.
pub fn chars_of(s: &str) -> (v: Vec<char>)
    ensures
        v@ == s@,
{
    let mut v: Vec<char> = Vec::new();
    for c in it: s.chars()
        invariant
            v@ == it.seq().take(it.index() as int),
    {
        v.push(c);
    }
    assert(v@ =~= s@);
    v
}

/// Appends the characters `v[from..to]` to `s`.
pub fn push_chars(s: &mut String, v: &Vec<char>, from: usize, to: usize)
    requires
        from <= to <= v.len(),
    ensures
        final(s)@ == old(s)@ + v@.subrange(from as int, to as int),
{
    let mut i = from;
    while i < to
        invariant
            from <= i <= to <= v.len(),
            s@ == old(s)@ + v@.subrange(from as int, i as int),
        decreases to - i,
    {
        push_char(s, v[i]);
        assert(v@.subrange(from as int, i + 1) =~= v@.subrange(from as int, i as int).push(v[i as int]));
        i += 1;
    }
}

/// A `String` holding exactly the characters of `v`.
pub fn string_of(v: &Vec<char>) -> (s: String)
    ensures
        s@ == v@,
{
    let mut s = String::new();
    push_chars(&mut s, v, 0, v.len());
    assert(v@.subrange(0, v.len() as int) =~= v@);
    s
}

/// Appends `n` copies of `c` to `s`.
pub fn push_repeat(s: &mut String, c: char, n: usize)
    ensures
        final(s)@ == old(s)@ + repeat_char(c, n as nat),
{
    let mut i: usize = 0;
    while i < n
        invariant
            i <= n,
            s@ == old(s)@ + repeat_char(c, i as nat),
        decreases n - i,
    {
        push_char(s, c);
        assert(repeat_char(c, (i + 1) as nat) =~= repeat_char(c, i as nat).push(c));
        i += 1;
    }
}

/// Decimal notation of `n` as a character vector.
pub fn decimal_chars(n: u64) -> (v: Vec<char>)
    ensures
        v@ == decimal(n as nat),
{
    let mut rev: Vec<char> = Vec::new();
    let mut m = n;
    // `rev` holds the low digits of `n`, least significant first.
    while m >= 10
        invariant
            decimal(n as nat) == decimal(m as nat) + rev@.reverse(),
        decreases m,
    {
        let d = m % 10;
        let c = char_of_digit(d);
        proof {
            assert(decimal(m as nat) == decimal((m / 10) as nat).push(digit_char((m % 10) as nat)));
            assert(rev@.push(c).reverse() =~= seq![c] + rev@.reverse());
        }
        rev.push(c);
        m = m / 10;
    }
    let c0 = char_of_digit(m);
    let mut out: Vec<char> = Vec::new();
    out.push(c0);
    let mut j = rev.len();
    while j > 0
        invariant
            j <= rev.len(),
            out@ + rev@.subrange(0, j as int).reverse() == decimal(n as nat),
        decreases j,
    {
        j -= 1;
        proof {
            assert(rev@.subrange(0, j + 1).reverse() =~= seq![rev@[j as int]] + rev@.subrange(0, j as int).reverse());
        }
        out.push(rev[j]);
        assert(out@ + rev@.subrange(0, j as int).reverse() =~= decimal(n as nat));
    }
    assert(rev@.subrange(0, 0).reverse() =~= Seq::<char>::empty());
    assert(out@ =~= decimal(n as nat));
    out
}

fn char_of_digit(d: u64) -> (c: char)
    requires
        d < 10,
    ensures
        c == digit_char(d as nat),
{
    let c = match d {
        0 => '0',
        1 => '1',
        2 => '2',
        3 => '3',
        4 => '4',
        5 => '5',
        6 => '6',
        7 => '7',
        8 => '8',
        _ => '9',
    };
    c
}

/// Appends the decimal notation of `n` to `s`.
pub fn push_u64(s: &mut String, n: u64)
    ensures
        final(s)@ == old(s)@ + decimal(n as nat),
{
    let v = decimal_chars(n);
    push_chars(s, &v, 0, v.len());
    assert(v@.subrange(0, v.len() as int) =~= v@);
}

/// Appends the decimal notation of `i` (with a leading `-` when negative) to `s`.
pub fn push_i64(s: &mut String, i: i64)
    ensures
        final(s)@ == old(s)@ + int_decimal(i as int),
{
    let v = int_decimal_chars(i);
    push_chars(s, &v, 0, v.len());
    assert(v@.subrange(0, v.len() as int) =~= v@);
}

/// The magnitude of `i` as an unsigned number.
pub fn magnitude(i: i64) -> (m: u64)
    ensures
        m as int == if i < 0 { -i } else { i as int },
{
    if i < 0 {
        ((-(i + 1)) as u64) + 1
    } else {
        i as u64
    }
}

/// Decimal notation of `i` (with a leading `-` when negative) as a character vector.
pub fn int_decimal_chars(i: i64) -> (v: Vec<char>)
    ensures
        v@ == int_decimal(i as int),
{
    let digits = decimal_chars(magnitude(i));
    if i < 0 {
        let mut v: Vec<char> = Vec::new();
        v.push('-');
        let mut k: usize = 0;
        while k < digits.len()
            invariant
                k <= digits.len(),
                v@ == seq!['-'] + digits@.subrange(0, k as int),
            decreases digits.len() - k,
        {
            v.push(digits[k]);
            assert(seq!['-'] + digits@.subrange(0, k + 1) =~= (seq!['-'] + digits@.subrange(0, k as int)).push(digits@[k as int]));
            k += 1;
        }
        assert(digits@.subrange(0, digits.len() as int) =~= digits@);
        v
    } else {
        digits
    }
}

/// Appends `v` right-aligned in a field of `w` characters.
pub fn push_padded_left(s: &mut String, v: &Vec<char>, w: usize)
    ensures
        final(s)@ == old(s)@ + pad_left(v@, w as nat),
{
    if v.len() < w {
        push_repeat(s, ' ', w - v.len());
    }
    push_chars(s, v, 0, v.len());
    assert(v@.subrange(0, v.len() as int) =~= v@);
}

/// Appends `v` left-aligned in a field of `w` characters.
pub fn push_padded_right(s: &mut String, v: &Vec<char>, w: usize)
    ensures
        final(s)@ == old(s)@ + pad_right(v@, w as nat),
{
    push_chars(s, v, 0, v.len());
    assert(v@.subrange(0, v.len() as int) =~= v@);
    if v.len() < w {
        push_repeat(s, ' ', w - v.len());
    }
}

} // verus!

verus! {

/// Whether `c` has the Unicode `White_Space` property (Rust's
/// `char::is_whitespace`).
pub open spec fn is_whitespace(c: char) -> bool {
    let u = c as u32;
    (0x09 <= u && u <= 0x0d) || u == 0x20 || u == 0x85 || u == 0xa0 || u == 0x1680 || (0x2000 <= u
        && u <= 0x200a) || u == 0x2028 || u == 0x2029 || u == 0x202f || u == 0x205f || u == 0x3000
}

/// `s` without leading whitespace.
pub open spec fn trim_start(s: Seq<char>) -> Seq<char>
    decreases s.len(),
{
    if s.len() > 0 && is_whitespace(s[0]) {
        trim_start(s.drop_first())
    } else {
        s
    }
}

/// `s` without trailing whitespace.
pub open spec fn trim_end(s: Seq<char>) -> Seq<char>
    decreases s.len(),
{
    if s.len() > 0 && is_whitespace(s.last()) {
        trim_end(s.drop_last())
    } else {
        s
    }
}

/// `s` without leading and trailing whitespace (Rust's `str::trim`).
pub open spec fn trim(s: Seq<char>) -> Seq<char> {
    trim_end(trim_start(s))
}

/// Rust's `char::is_whitespace`.
pub fn char_is_whitespace(c: char) -> (b: bool)
    ensures
        b == is_whitespace(c),
{
    let u = c as u32;
    (0x09 <= u && u <= 0x0d) || u == 0x20 || u == 0x85 || u == 0xa0 || u == 0x1680 || (0x2000 <= u
        && u <= 0x200a) || u == 0x2028 || u == 0x2029 || u == 0x202f || u == 0x205f || u == 0x3000
}

/// The bounds `(start, end)` of `v` with surrounding whitespace removed.
pub fn trim_bounds(v: &Vec<char>) -> (r: (usize, usize))
    ensures
        r.0 <= r.1 <= v.len(),
        v@.subrange(r.0 as int, r.1 as int) == trim(v@),
{
    let mut start: usize = 0;
    assert(v@.subrange(0, v.len() as int) =~= v@);
    while start < v.len() && char_is_whitespace(v[start])
        invariant
            start <= v.len(),
            trim_start(v@.subrange(start as int, v.len() as int)) == trim_start(v@),
        decreases v.len() - start,
    {
        assert(v@.subrange(start as int, v.len() as int).drop_first() =~= v@.subrange(start + 1, v.len() as int));
        start += 1;
    }
    let mut end = v.len();
    assert(trim_start(v@) == v@.subrange(start as int, end as int));
    while end > start && char_is_whitespace(v[end - 1])
        invariant
            start <= end <= v.len(),
            trim_end(v@.subrange(start as int, end as int)) == trim(v@),
        decreases end,
    {
        assert(v@.subrange(start as int, end as int).drop_last() =~= v@.subrange(start as int, end - 1));
        end -= 1;
    }
    (start, end)
}

} // verus!

verus! {

/// Rust's `char::from_u32`: the character whose code point is `u`, when `u`
/// is a Unicode scalar value (not a surrogate, at most `0x10FFFF`).
#[verifier::external_body]
pub(crate) fn char_from_u32(u: u32) -> (r: Option<char>)
    ensures
        r matches Some(c) ==> c as u32 == u,
        (u < 0xD800 || (0xDFFF < u && u <= 0x10FFFF)) ==> r is Some,
{
    char::from_u32(u)
}

} // verus!

verus! {

/// ASCII upper-case letters lowered, every other character kept (Rust's
/// `char::to_ascii_lowercase`).
pub open spec fn ascii_lower_char(c: char) -> char {
    if 'A' <= c && c <= 'Z' {
        (((c as u32) + 32) as u32) as char
    } else {
        c
    }
}

/// `s` with ASCII letters lowered (Rust's `str::to_ascii_lowercase`).
pub open spec fn ascii_lower(s: Seq<char>) -> Seq<char> {
    Seq::new(s.len(), |i: int| ascii_lower_char(s[i]))
}

/// Rust's `char::to_ascii_lowercase`.
pub fn lower_ascii_char(c: char) -> (r: char)
    ensures
        r == ascii_lower_char(c),
{
    if c >= 'A' && c <= 'Z' {
        let u: u32 = c as u32 + 32;
        match char_from_u32(u) {
            Some(l) => {
                proof {
                    vstd::utf8::char_u32_cast(l, u);
                }
                l
            },
            None => c,
        }
    } else {
        c
    }
}

/// `v[from..to]` with ASCII letters lowered.
pub fn ascii_lower_chars(v: &Vec<char>, from: usize, to: usize) -> (r: Vec<char>)
    requires
        from <= to <= v.len(),
    ensures
        r@ == ascii_lower(v@.subrange(from as int, to as int)),
{
    let mut r: Vec<char> = Vec::new();
    let mut i = from;
    while i < to
        invariant
            from <= i <= to <= v.len(),
            r@ == ascii_lower(v@.subrange(from as int, i as int)),
        decreases to - i,
    {
        r.push(lower_ascii_char(v[i]));
        assert(r@ =~= ascii_lower(v@.subrange(from as int, i + 1)));
        i += 1;
    }
    r
}

/// Whether `p` occurs in `s` as a contiguous piece (Rust's `str::contains`).
pub open spec fn contains_seq(s: Seq<char>, p: Seq<char>) -> bool {
    exists|i: int| 0 <= i && i + p.len() <= s.len() && #[trigger] s.subrange(i, i + p.len()) == p
}

/// Whether `p` occurs in `s`.
pub fn contains_chars(s: &Vec<char>, p: &Vec<char>) -> (b: bool)
    ensures
        b == contains_seq(s@, p@),
{
    if p.len() > s.len() {
        return false;
    }
    let mut i: usize = 0;
    while i <= s.len() - p.len()
        invariant
            p.len() <= s.len(),
            i <= s.len() - p.len() + 1,
            forall|j: int| 0 <= j < i ==> #[trigger] s@.subrange(j, j + p.len()) != p@,
        decreases s.len() - p.len() + 1 - i,
    {
        let mut k: usize = 0;
        let mut same = true;
        while k < p.len()
            invariant
                k <= p.len(),
                i + p.len() <= s.len(),
                same == (forall|x: int| 0 <= x < k ==> s@[i + x] == p@[x]),
            decreases p.len() - k,
        {
            if s[i + k] != p[k] {
                same = false;
            }
            k += 1;
        }
        if same {
            assert(s@.subrange(i as int, i + p.len()) =~= p@);
            return true;
        }
        assert(s@.subrange(i as int, i + p.len()) != p@) by {
            let w = choose|x: int| 0 <= x < p.len() && s@[i + x] != p@[x];
            assert(s@.subrange(i as int, i + p.len())[w] != p@[w]);
        }
        i += 1;
    }
    false
}

} // verus!
