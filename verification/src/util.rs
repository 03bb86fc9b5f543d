//! Escaping text for Pango markup.
use vstd::prelude::*;
use crate::text::{chars_of, has_char, push_char, push_str};

verus! {

broadcast use vstd::string::group_string_axioms;

/// The markup for one character: `&`, `<` and `>` become entities, every
/// other character stands for itself.
pub open spec fn escape_char(c: char) -> Seq<char> {
    if c == '&' {
        "&amp;"@
    } else if c == '<' {
        "&lt;"@
    } else if c == '>' {
        "&gt;"@
    } else {
        seq![c]
    }
}

/// `s` with each character replaced by its markup.
pub open spec fn escape_spec(s: Seq<char>) -> Seq<char>
    decreases s.len(),
{
    if s.len() == 0 {
        seq![]
    } else {
        escape_char(s[0]) + escape_spec(s.drop_first())
    }
}

/// Escape Pango/XML/HTML special characters in a string.
/// Converts &, <, > to their entity equivalents.
pub fn escape_pango(s: &str) -> (r: String)
    ensures
        r@ == escape_spec(s@),
{
    let v = chars_of(s);
    let mut r = String::new();
    let mut i: usize = 0;
    assert(v@.skip(0) =~= v@);
    while i < v.len()
        invariant
            i <= v.len(),
            r@ + escape_spec(v@.skip(i as int)) == escape_spec(v@),
        decreases v.len() - i,
    {
        let c = v[i];
        assert(v@.skip(i as int).drop_first() =~= v@.skip(i + 1));
        if c == '&' {
            push_str(&mut r, "&amp;");
        } else if c == '<' {
            push_str(&mut r, "&lt;");
        } else if c == '>' {
            push_str(&mut r, "&gt;");
        } else {
            push_char(&mut r, c);
        }
        assert(r@ + escape_spec(v@.skip(i + 1)) =~= escape_spec(v@));
        i += 1;
    }
    assert(v@.skip(v.len() as int) =~= Seq::<char>::empty());
    assert(r@ =~= escape_spec(v@));
    r
}

proof fn lemma_escape_no_angle(s: Seq<char>)
    ensures
        !has_char(escape_spec(s), '<'),
        !has_char(escape_spec(s), '>'),
    decreases s.len(),
{
    reveal_strlit("&amp;");
    reveal_strlit("&lt;");
    reveal_strlit("&gt;");
    if s.len() > 0 {
        lemma_escape_no_angle(s.drop_first());
        let a = escape_char(s[0]);
        let b = escape_spec(s.drop_first());
        assert forall|i: int| 0 <= i < (a + b).len() implies (a + b)[i] != '<' && (a + b)[i]
            != '>' by {
            if i < a.len() {
                assert((a + b)[i] == a[i]);
            } else {
                assert((a + b)[i] == b[i - a.len()]);
            }
        }
    }
}

/// Escaped text holds no `<` and no `>`, so it cannot open or close a tag.
pub proof fn law_escaped_has_no_tags(s: Seq<char>)
    ensures
        !has_char(escape_spec(s), '<'),
        !has_char(escape_spec(s), '>'),
{
    lemma_escape_no_angle(s);
}

/// Text without `&`, `<` and `>` is left as it is.
pub proof fn law_escape_keeps_plain_text(s: Seq<char>)
    requires
        !has_char(s, '&'),
        !has_char(s, '<'),
        !has_char(s, '>'),
    ensures
        escape_spec(s) == s,
    decreases s.len(),
{
    if s.len() > 0 {
        let t = s.drop_first();
        assert(!has_char(t, '&') && !has_char(t, '<') && !has_char(t, '>')) by {
            assert forall|i: int| 0 <= i < t.len() implies t[i] != '&' && t[i] != '<' && t[i] != '>' by {
                assert(t[i] == s[i + 1]);
            }
        }
        law_escape_keeps_plain_text(t);
        assert(s[0] != '&' && s[0] != '<' && s[0] != '>');
        assert(seq![s[0]] + t =~= s);
    }
}

/// Markup read back as text: `&amp;`, `&lt;` and `&gt;` become `&`, `<` and
/// `>`; every other character stands for itself.
pub open spec fn unescape_spec(s: Seq<char>) -> Seq<char>
    decreases s.len(),
{
    if s.len() == 0 {
        seq![]
    } else if s.len() >= 5 && s.take(5) == "&amp;"@ {
        seq!['&'] + unescape_spec(s.skip(5))
    } else if s.len() >= 4 && s.take(4) == "&lt;"@ {
        seq!['<'] + unescape_spec(s.skip(4))
    } else if s.len() >= 4 && s.take(4) == "&gt;"@ {
        seq!['>'] + unescape_spec(s.skip(4))
    } else {
        seq![s[0]] + unescape_spec(s.drop_first())
    }
}

/// Escaping loses nothing: reading the markup back gives the text again, so
/// two different texts never escape to the same markup.
pub proof fn law_unescape_undoes_escape(s: Seq<char>)
    ensures
        unescape_spec(escape_spec(s)) == s,
    decreases s.len(),
{
    reveal_strlit("&amp;");
    reveal_strlit("&lt;");
    reveal_strlit("&gt;");
    if s.len() > 0 {
        let rest = escape_spec(s.drop_first());
        law_unescape_undoes_escape(s.drop_first());
        let a = escape_char(s[0]);
        let e = a + rest;
        assert(escape_spec(s) == e);
        if s[0] == '&' {
            assert(e.take(5) =~= "&amp;"@);
            assert(e.skip(5) =~= rest);
        } else if s[0] == '<' {
            assert(e.len() >= 5 ==> e.take(5) != "&amp;"@) by {
                if e.len() >= 5 {
                    assert(e.take(5)[1] == e[1]);
                    assert(e[1] == 'l');
                }
            }
            assert(e.take(4) =~= "&lt;"@);
            assert(e.skip(4) =~= rest);
        } else if s[0] == '>' {
            assert(e.len() >= 5 ==> e.take(5) != "&amp;"@) by {
                if e.len() >= 5 {
                    assert(e.take(5)[1] == e[1]);
                    assert(e[1] == 'g');
                }
            }
            assert(e.take(4) != "&lt;"@) by {
                assert(e.take(4)[1] == 'g');
            }
            assert(e.take(4) =~= "&gt;"@);
            assert(e.skip(4) =~= rest);
        } else {
            assert(e[0] == s[0]);
            assert(e.len() >= 5 ==> e.take(5) != "&amp;"@) by {
                if e.len() >= 5 {
                    assert(e.take(5)[0] == s[0]);
                }
            }
            assert(e.len() >= 4 ==> e.take(4) != "&lt;"@ && e.take(4) != "&gt;"@) by {
                if e.len() >= 4 {
                    assert(e.take(4)[0] == s[0]);
                }
            }
            assert(e.drop_first() =~= rest);
        }
        assert(seq![s[0]] + s.drop_first() =~= s);
    }
}

} // verus!
