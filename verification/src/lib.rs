//! Parsing and change tracking for the FAA Releasable Aircraft database.

pub mod dates;
pub mod db;
pub mod model;
pub mod parse;
pub mod text;

use vstd::prelude::*;

use crate::text::{
    all_ascii, ascii_lower_text, ascii_upper, ascii_upper_text, chars_of, is_ascii_char,
    is_ascii_hex_digit, is_white, remove_chars, text_of, to_lower, to_upper, trim_end, trim_start,
    trim_vec, trim_white, unicode_lower_text, unicode_upper_text, CharClass,
};

pub use dates::{faa_date, is_utc_date, is_utc_instant, require_utc_date, require_utc_instant};

verus! {

/// The characters that `canonical_n_number` drops.
pub open spec fn n_number_separators() -> Seq<char> {
    seq!['-', ' ', '.']
}

/// An uppercased N-number without `-`, space or `.`, with a leading `N` added when missing.
pub open spec fn n_number_from_upper(upper: Seq<char>) -> Seq<char> {
    let s = remove_chars(upper, n_number_separators());
    if s.len() == 0 || s[0] == 'N' {
        s
    } else {
        seq!['N'] + s
    }
}

/// Trimmed, uppercased, without `-`, space or `.`; a leading `N` added when missing.
pub open spec fn canonical_n_number_spec(raw: Seq<char>) -> Seq<char> {
    n_number_from_upper(unicode_upper_text(trim_white(raw)))
}

fn drop_separators(v: &[char]) -> (r: Vec<char>)
    ensures
        r@ == remove_chars(v@, n_number_separators()),
{
    let n = v.len();
    let mut out: Vec<char> = Vec::new();
    let mut i: usize = 0;
    while i < n
        invariant
            i <= n == v@.len(),
            out@ == remove_chars(v@.subrange(0, i as int), n_number_separators()),
        decreases n - i,
    {
        let c = v[i];
        assert(v@.subrange(0, i + 1).drop_last() =~= v@.subrange(0, i as int));
        assert(n_number_separators().contains(c) <==> (c == '-' || c == ' ' || c == '.')) by {
            if c == '-' {
                assert(n_number_separators()[0] == c);
            }
            if c == ' ' {
                assert(n_number_separators()[1] == c);
            }
            if c == '.' {
                assert(n_number_separators()[2] == c);
            }
        }
        if !(c == '-' || c == ' ' || c == '.') {
            out.push(c);
        }
        i = i + 1;
    }
    assert(v@.subrange(0, n as int) =~= v@);
    out
}

/// Uppercase, strip spaces/dashes/dots, ensure a leading `N`.
pub fn canonical_n_number(raw: &str) -> (r: String)
    ensures
        r@ == canonical_n_number_spec(raw@),
        all_ascii(trim_white(raw@)) ==> r@ == n_number_from_upper(
            ascii_upper_text(trim_white(raw@)),
        ),
        ascii_spaced(raw@) ==> r@ == n_number_from_upper(ascii_upper_text(raw@)),
{
    proof {
        if ascii_spaced(raw@) {
            lemma_canonical_untrimmed(raw@);
        }
    }
    let cs = chars_of(raw);
    let t = trim_vec(cs.as_slice(), CharClass::White);
    let trimmed = text_of(t.as_slice());
    let up = to_upper(trimmed.as_str());
    let ucs = chars_of(up.as_str());
    let s = drop_separators(ucs.as_slice());
    if s.len() == 0 || s[0] == 'N' {
        text_of(s.as_slice())
    } else {
        let mut out: Vec<char> = Vec::new();
        out.push('N');
        crate::text::push_all(&mut out, s.as_slice());
        assert(out@ =~= seq!['N'] + s@);
        text_of(out.as_slice())
    }
}

proof fn lemma_remove_chars_excludes(s: Seq<char>, drop: Seq<char>)
    ensures
        forall|i: int|
            0 <= i < remove_chars(s, drop).len() ==> !drop.contains(
                #[trigger] remove_chars(s, drop)[i],
            ),
    decreases s.len(),
{
    if s.len() > 0 {
        let prev = remove_chars(s.drop_last(), drop);
        lemma_remove_chars_excludes(s.drop_last(), drop);
        let r = remove_chars(s, drop);
        assert forall|i: int| 0 <= i < r.len() implies !drop.contains(#[trigger] r[i]) by {
            if i < prev.len() {
                assert(r[i] == prev[i]);
            }
        }
    }
}

/// A canonical N-number is empty or starts with `N`, and holds no `-`, space or `.`
/// after that leading `N`.
pub proof fn lemma_canonical_n_number_shape(raw: Seq<char>)
    ensures
        ({
            let c = canonical_n_number_spec(raw);
            c.len() == 0 || (c[0] == 'N' && forall|i: int|
                1 <= i < c.len() ==> #[trigger] c[i] != '-' && c[i] != ' ' && c[i] != '.')
        }),
{
    let s = remove_chars(unicode_upper_text(trim_white(raw)), n_number_separators());
    lemma_remove_chars_excludes(unicode_upper_text(trim_white(raw)), n_number_separators());
    let c = canonical_n_number_spec(raw);
    assert forall|i: int| 1 <= i < c.len() implies #[trigger] c[i] != '-' && c[i] != ' ' && c[i]
        != '.' by {
        let j = if s.len() > 0 && s[0] == 'N' {
            i
        } else {
            i - 1
        };
        assert(c[i] == s[j]);
        assert(!n_number_separators().contains(s[j]));
        assert(n_number_separators()[0] == '-');
        assert(n_number_separators()[1] == ' ');
        assert(n_number_separators()[2] == '.');
    }
}

/// A character that a canonical ASCII N-number keeps as it is: ASCII, not
/// whitespace, already uppercase, and not a separator.
pub open spec fn settled_n_char(c: char) -> bool {
    &&& is_ascii_char(c)
    &&& !is_white(c)
    &&& ascii_upper(c) == c
    &&& !n_number_separators().contains(c)
}

proof fn lemma_remove_chars_keeps(s: Seq<char>, drop: Seq<char>, p: spec_fn(char) -> bool)
    requires
        forall|i: int| 0 <= i < s.len() ==> p(#[trigger] s[i]) || drop.contains(s[i]),
    ensures
        forall|i: int|
            0 <= i < remove_chars(s, drop).len() ==> p(#[trigger] remove_chars(s, drop)[i]),
    decreases s.len(),
{
    if s.len() > 0 {
        let prev = s.drop_last();
        assert forall|i: int| 0 <= i < prev.len() implies p(#[trigger] prev[i]) || drop.contains(
            prev[i],
        ) by {
            assert(prev[i] == s[i]);
        }
        lemma_remove_chars_keeps(prev, drop, p);
        let r = remove_chars(s, drop);
        let pr = remove_chars(prev, drop);
        assert forall|i: int| 0 <= i < r.len() implies p(#[trigger] r[i]) by {
            if i < pr.len() {
                assert(r[i] == pr[i]);
            }
        }
    }
}

proof fn lemma_remove_chars_none(s: Seq<char>, drop: Seq<char>)
    requires
        forall|i: int| 0 <= i < s.len() ==> !drop.contains(#[trigger] s[i]),
    ensures
        remove_chars(s, drop) == s,
    decreases s.len(),
{
    if s.len() > 0 {
        let prev = s.drop_last();
        assert forall|i: int| 0 <= i < prev.len() implies !drop.contains(#[trigger] prev[i]) by {
            assert(prev[i] == s[i]);
        }
        lemma_remove_chars_none(prev, drop);
        assert(prev.push(s.last()) =~= s);
    }
}

/// A canonical N-number holds only ASCII characters that are not whitespace,
/// lowercase letters or separators; canonicalising it again gives it back
/// unchanged, and it is never taken for a Mode S code: looking up a stored
/// N-number looks up that N-number. Stated for ASCII input whose only whitespace
/// inside is spaces (a tab inside would end up at an end of the result, and a
/// second pass would trim it).
pub proof fn lemma_canonical_n_number_stable(raw: Seq<char>)
    requires
        all_ascii(trim_white(raw)),
        forall|i: int|
            0 <= i < trim_white(raw).len() && is_white(#[trigger] trim_white(raw)[i])
                ==> trim_white(raw)[i] == ' ',
    ensures
        ({
            let c = n_number_from_upper(ascii_upper_text(trim_white(raw)));
            &&& forall|i: int| 0 <= i < c.len() ==> settled_n_char(#[trigger] c[i])
            &&& all_ascii(trim_white(c))
            &&& n_number_from_upper(ascii_upper_text(trim_white(c))) == c
            &&& !is_mode_s_hex(c)
        }),
{
    let t = trim_white(raw);
    let u = ascii_upper_text(t);
    let seps = n_number_separators();
    let s = remove_chars(u, seps);
    let c = n_number_from_upper(u);
    assert(seps[0] == '-' && seps[1] == ' ' && seps[2] == '.');
    assert forall|i: int| 0 <= i < u.len() implies settled_n_char(#[trigger] u[i])
        || seps.contains(u[i]) by {
        let x = t[i];
        assert(u[i] == ascii_upper(x));
        assert(is_ascii_char(x));
        if is_white(x) {
            assert(x == ' ');
            assert(seps.contains(u[i]));
        }
    }
    let p = |ch: char| settled_n_char(ch);
    lemma_remove_chars_keeps(u, seps, p);
    assert(settled_n_char('N'));
    assert forall|i: int| 0 <= i < c.len() implies settled_n_char(#[trigger] c[i]) by {
        if !(s.len() == 0 || s[0] == 'N') {
            if i > 0 {
                assert(c[i] == s[i - 1]);
                assert(p(s[i - 1]));
            }
        } else {
            assert(p(s[i]));
        }
    }
    // no whitespace at either end: trimming keeps `c`
    if c.len() > 0 {
        assert(!is_white(c[0]));
        assert(!is_white(c.last()));
        assert(trim_start(c, CharClass::White) == c);
        assert(trim_end(c, CharClass::White) == c);
    }
    assert(trim_white(c) == c);
    assert(ascii_upper_text(c) =~= c);
    lemma_remove_chars_none(c, seps);
    if c.len() > 0 {
        assert(c[0] == 'N');
    }
}

/// ASCII text whose only whitespace characters are spaces.
pub open spec fn ascii_spaced(s: Seq<char>) -> bool {
    &&& all_ascii(s)
    &&& forall|i: int| 0 <= i < s.len() && is_white(#[trigger] s[i]) ==> s[i] == ' '
}

proof fn lemma_remove_chars_prepend(c: char, t: Seq<char>, drop: Seq<char>)
    requires
        drop.contains(c),
    ensures
        remove_chars(seq![c] + t, drop) == remove_chars(t, drop),
    decreases t.len(),
{
    let q = seq![c] + t;
    if t.len() == 0 {
        assert(q.drop_last() =~= Seq::<char>::empty());
        assert(q.last() == c);
        assert(remove_chars(q, drop) == remove_chars(q.drop_last(), drop));
        assert(remove_chars(Seq::<char>::empty(), drop) =~= Seq::<char>::empty());
    } else {
        lemma_remove_chars_prepend(c, t.drop_last(), drop);
        assert(q.drop_last() =~= seq![c] + t.drop_last());
        assert(q.last() == t.last());
    }
}

/// Trimming leading spaces does not change what is left once separators are dropped.
proof fn lemma_trim_start_spaces(s: Seq<char>)
    requires
        ascii_spaced(s),
    ensures
        ascii_spaced(trim_start(s, CharClass::White)),
        remove_chars(ascii_upper_text(trim_start(s, CharClass::White)), n_number_separators())
            == remove_chars(ascii_upper_text(s), n_number_separators()),
    decreases s.len(),
{
    if s.len() > 0 && is_white(s[0]) {
        let t = s.drop_first();
        assert forall|i: int| 0 <= i < t.len() implies is_ascii_char(#[trigger] t[i]) by {
            assert(t[i] == s[i + 1]);
        }
        assert forall|i: int| 0 <= i < t.len() && is_white(#[trigger] t[i]) implies t[i] == ' ' by {
            assert(t[i] == s[i + 1]);
        }
        lemma_trim_start_spaces(t);
        assert(s[0] == ' ');
        assert(ascii_upper_text(s) =~= seq![' '] + ascii_upper_text(t));
        assert(n_number_separators()[1] == ' ');
        lemma_remove_chars_prepend(' ', ascii_upper_text(t), n_number_separators());
    }
}

/// Trimming trailing spaces does not change what is left once separators are dropped.
proof fn lemma_trim_end_spaces(s: Seq<char>)
    requires
        ascii_spaced(s),
    ensures
        ascii_spaced(trim_end(s, CharClass::White)),
        remove_chars(ascii_upper_text(trim_end(s, CharClass::White)), n_number_separators())
            == remove_chars(ascii_upper_text(s), n_number_separators()),
    decreases s.len(),
{
    if s.len() > 0 && is_white(s.last()) {
        let t = s.drop_last();
        assert forall|i: int| 0 <= i < t.len() implies is_ascii_char(#[trigger] t[i]) by {
            assert(t[i] == s[i]);
        }
        assert forall|i: int| 0 <= i < t.len() && is_white(#[trigger] t[i]) implies t[i] == ' ' by {
            assert(t[i] == s[i]);
        }
        lemma_trim_end_spaces(t);
        assert(s[s.len() - 1] == ' ');
        let u = ascii_upper_text(s);
        assert(u.drop_last() =~= ascii_upper_text(t));
        assert(u.last() == ' ');
        assert(n_number_separators()[1] == ' ');
    }
}

/// On ASCII input whose only whitespace is spaces, trimming first changes nothing:
/// the canonical N-number is the uppercased input with separators dropped and an
/// `N` added when missing.
proof fn lemma_canonical_untrimmed(raw: Seq<char>)
    requires
        ascii_spaced(raw),
    ensures
        all_ascii(trim_white(raw)),
        n_number_from_upper(ascii_upper_text(trim_white(raw))) == n_number_from_upper(
            ascii_upper_text(raw),
        ),
{
    lemma_trim_start_spaces(raw);
    lemma_trim_end_spaces(trim_start(raw, CharClass::White));
}

/// On ASCII input whose only whitespace is spaces: with `s` the uppercased input
/// without `-`, space or `.`, the canonical N-number is `s` when `s` is empty or
/// starts with `N`, and `N` followed by `s` otherwise; it holds only settled
/// characters (no lowercase, whitespace or separator), and canonicalising it again
/// gives it back unchanged.
pub proof fn lemma_canonical_n_number_ascii(raw: Seq<char>)
    requires
        ascii_spaced(raw),
    ensures
        ({
            let s = remove_chars(ascii_upper_text(raw), n_number_separators());
            let c = n_number_from_upper(ascii_upper_text(raw));
            &&& (s.len() == 0 || s[0] == 'N') ==> c == s
            &&& !(s.len() == 0 || s[0] == 'N') ==> c == seq!['N'] + s
            &&& c.len() == 0 || c[0] == 'N'
            &&& forall|i: int| 0 <= i < c.len() ==> settled_n_char(#[trigger] c[i])
            &&& ascii_spaced(c)
            &&& n_number_from_upper(ascii_upper_text(c)) == c
        }),
{
    lemma_canonical_untrimmed(raw);
    lemma_trim_start_spaces(raw);
    lemma_trim_end_spaces(trim_start(raw, CharClass::White));
    lemma_canonical_n_number_stable(raw);
    let c = n_number_from_upper(ascii_upper_text(raw));
    assert forall|i: int| 0 <= i < c.len() && is_white(#[trigger] c[i]) implies c[i] == ' ' by {
        assert(settled_n_char(c[i]));
    }
    assert(ascii_spaced(c));
    lemma_canonical_untrimmed(c);
}

/// Lowercase Mode S hex for joins. Empty if the dump hex is empty.
pub fn canonical_icao24(raw: &str) -> (r: String)
    ensures
        r@ == unicode_lower_text(trim_white(raw@)),
        all_ascii(trim_white(raw@)) ==> r@ == ascii_lower_text(trim_white(raw@)),
{
    let cs = chars_of(raw);
    let t = trim_vec(cs.as_slice(), CharClass::White);
    let trimmed = text_of(t.as_slice());
    to_lower(trimmed.as_str())
}

/// Six ASCII hex digits once trimmed (an `N`, not being a hex digit, never qualifies).
pub open spec fn is_mode_s_hex(raw: Seq<char>) -> bool {
    let t = trim_white(raw);
    t.len() == 6 && forall|i: int| 0 <= i < 6 ==> is_ascii_hex_digit(#[trigger] t[i])
}

/// True when `raw` is a 6-char Mode S hex (no leading `N`).
pub fn looks_like_mode_s_hex(raw: &str) -> (b: bool)
    ensures
        b == is_mode_s_hex(raw@),
{
    let cs = chars_of(raw);
    let t = trim_vec(cs.as_slice(), CharClass::White);
    if t.len() != 6 {
        return false;
    }
    let mut i: usize = 0;
    while i < 6
        invariant
            i <= 6 == t@.len(),
            t@ == trim_white(raw@),
            forall|j: int| 0 <= j < i ==> is_ascii_hex_digit(#[trigger] t@[j]),
        decreases 6 - i,
    {
        let c = t[i];
        if !(('0' <= c && c <= '9') || ('a' <= c && c <= 'f') || ('A' <= c && c <= 'F')) {
            assert(!is_ascii_hex_digit(trim_white(raw@)[i as int]));
            return false;
        }
        i = i + 1;
    }
    true
}

} // verus!
