//! Character-level text model shared by the parsers: whitespace and comma
//! trimming, ASCII case mapping, decimal rendering, and the conversions
//! between `&str` / `String` and character vectors.

use vstd::prelude::*;
use vstd::slice::slice_to_vec;

verus! {

/// Rust's `char::is_whitespace`: the Unicode `White_Space` property.
pub open spec fn is_white(c: char) -> bool {
    let u = c as u32;
    ||| (0x09 <= u && u <= 0x0D)
    ||| u == 0x20
    ||| u == 0x85
    ||| u == 0xA0
    ||| u == 0x1680
    ||| (0x2000 <= u && u <= 0x200A)
    ||| u == 0x2028
    ||| u == 0x2029
    ||| u == 0x202F
    ||| u == 0x205F
    ||| u == 0x3000
}

/// Which characters a trim removes from both ends of a text.
#[derive(Clone, Copy, PartialEq, Eq, Debug)]
pub enum CharClass {
    /// Unicode whitespace, as `str::trim` removes it.
    White,
    /// One given character, as `str::trim_matches(c)` removes it.
    Is(char),
}

pub open spec fn in_class(c: char, cls: CharClass) -> bool {
    match cls {
        CharClass::White => is_white(c),
        CharClass::Is(d) => c == d,
    }
}

/// `s` without its leading characters of class `cls`.
pub open spec fn trim_start(s: Seq<char>, cls: CharClass) -> Seq<char>
    decreases s.len(),
{
    if s.len() > 0 && in_class(s[0], cls) {
        trim_start(s.drop_first(), cls)
    } else {
        s
    }
}

/// `s` without its trailing characters of class `cls`.
pub open spec fn trim_end(s: Seq<char>, cls: CharClass) -> Seq<char>
    decreases s.len(),
{
    if s.len() > 0 && in_class(s.last(), cls) {
        trim_end(s.drop_last(), cls)
    } else {
        s
    }
}

/// `s` without leading and trailing characters of class `cls`.
pub open spec fn trim(s: Seq<char>, cls: CharClass) -> Seq<char> {
    trim_end(trim_start(s, cls), cls)
}

/// `str::trim`.
pub open spec fn trim_white(s: Seq<char>) -> Seq<char> {
    trim(s, CharClass::White)
}

pub open spec fn is_ascii_char(c: char) -> bool {
    (c as u32) < 0x80
}

pub open spec fn all_ascii(s: Seq<char>) -> bool {
    forall|i: int| 0 <= i < s.len() ==> is_ascii_char(#[trigger] s[i])
}

pub open spec fn ascii_upper(c: char) -> char {
    if 'a' <= c && c <= 'z' {
        ((c as u32) - 32) as char
    } else {
        c
    }
}

pub open spec fn ascii_lower(c: char) -> char {
    if 'A' <= c && c <= 'Z' {
        ((c as u32) + 32) as char
    } else {
        c
    }
}

/// `str::to_ascii_uppercase`.
pub open spec fn ascii_upper_text(s: Seq<char>) -> Seq<char> {
    s.map_values(|c: char| ascii_upper(c))
}

/// `str::to_ascii_lowercase`.
pub open spec fn ascii_lower_text(s: Seq<char>) -> Seq<char> {
    s.map_values(|c: char| ascii_lower(c))
}

pub open spec fn is_ascii_digit(c: char) -> bool {
    '0' <= c && c <= '9'
}

pub open spec fn is_ascii_hex_digit(c: char) -> bool {
    ||| ('0' <= c && c <= '9')
    ||| ('a' <= c && c <= 'f')
    ||| ('A' <= c && c <= 'F')
}

pub open spec fn digit_char(d: nat) -> char {
    (48 + d) as char
}

/// Decimal rendering of a natural number, as `{}` formats an unsigned integer.
pub open spec fn decimal(n: nat) -> Seq<char>
    decreases n,
{
    if n < 10 {
        seq![digit_char(n)]
    } else {
        decimal(n / 10) + seq![digit_char(n % 10)]
    }
}

/// Decimal rendering of an integer, as `{}` formats a signed integer.
pub open spec fn signed_decimal(n: int) -> Seq<char> {
    if n < 0 {
        seq!['-'] + decimal((-n) as nat)
    } else {
        decimal(n as nat)
    }
}

/// `s` with every occurrence of the characters in `drop` removed.
pub open spec fn remove_chars(s: Seq<char>, drop: Seq<char>) -> Seq<char>
    decreases s.len(),
{
    if s.len() == 0 {
        s
    } else if drop.contains(s.last()) {
        remove_chars(s.drop_last(), drop)
    } else {
        remove_chars(s.drop_last(), drop).push(s.last())
    }
}

/// `needle` is a prefix of `s` (`str::starts_with`).
pub open spec fn starts_with(s: Seq<char>, needle: Seq<char>) -> bool {
    needle.len() <= s.len() && s.subrange(0, needle.len() as int) == needle
}

pub fn char_is_white(c: char) -> (b: bool)
    ensures
        b == is_white(c),
{
    let u = c as u32;
    (0x09 <= u && u <= 0x0D) || u == 0x20 || u == 0x85 || u == 0xA0 || u == 0x1680 || (0x2000
        <= u && u <= 0x200A) || u == 0x2028 || u == 0x2029 || u == 0x202F || u == 0x205F || u
        == 0x3000
}

pub fn char_in_class(c: char, cls: CharClass) -> (b: bool)
    ensures
        b == in_class(c, cls),
{
    match cls {
        CharClass::White => char_is_white(c),
        CharClass::Is(d) => c == d,
    }
}

pub fn upper_char(c: char) -> (r: char)
    ensures
        r == ascii_upper(c),
{
    if 'a' <= c && c <= 'z' {
        let b = (c as u32 - 32) as u8;
        b as char
    } else {
        c
    }
}

pub fn lower_char(c: char) -> (r: char)
    ensures
        r == ascii_lower(c),
{
    if 'A' <= c && c <= 'Z' {
        let b = (c as u32 + 32) as u8;
        b as char
    } else {
        c
    }
}

proof fn lemma_trim_start_suffix(s: Seq<char>, i: int, cls: CharClass)
    requires
        0 <= i < s.len(),
        in_class(s[i], cls),
    ensures
        trim_start(s.subrange(i, s.len() as int), cls) == trim_start(
            s.subrange(i + 1, s.len() as int),
            cls,
        ),
{
    assert(s.subrange(i, s.len() as int).drop_first() =~= s.subrange(i + 1, s.len() as int));
}

proof fn lemma_trim_end_prefix(s: Seq<char>, a: int, j: int, cls: CharClass)
    requires
        0 <= a < j <= s.len(),
        in_class(s[j - 1], cls),
    ensures
        trim_end(s.subrange(a, j), cls) == trim_end(s.subrange(a, j - 1), cls),
{
    assert(s.subrange(a, j).drop_last() =~= s.subrange(a, j - 1));
}

/// Bounds `(a, b)` such that `v[a..b]` is `v` trimmed of class `cls` at both ends.
pub fn trim_bounds(v: &[char], cls: CharClass) -> (r: (usize, usize))
    ensures
        r.0 <= r.1 <= v@.len(),
        v@.subrange(r.0 as int, r.1 as int) == trim(v@, cls),
{
    let n = v.len();
    let mut a: usize = 0;
    assert(v@.subrange(0, n as int) =~= v@);
    while a < n && char_in_class(v[a], cls)
        invariant
            a <= n == v@.len(),
            trim_start(v@.subrange(a as int, n as int), cls) == trim_start(v@, cls),
        decreases n - a,
    {
        proof {
            lemma_trim_start_suffix(v@, a as int, cls);
        }
        a = a + 1;
    }
    let ghost start = trim_start(v@, cls);
    assert(start == v@.subrange(a as int, n as int));
    let mut b: usize = n;
    assert(v@.subrange(a as int, n as int) == start);
    while b > a && char_in_class(v[b - 1], cls)
        invariant
            a <= b <= n == v@.len(),
            start == v@.subrange(a as int, n as int),
            trim_end(v@.subrange(a as int, b as int), cls) == trim_end(start, cls),
        decreases b - a,
    {
        proof {
            lemma_trim_end_prefix(v@, a as int, b as int, cls);
        }
        b = b - 1;
    }
    assert(v@.subrange(a as int, b as int).len() == 0 || !in_class(
        v@.subrange(a as int, b as int).last(),
        cls,
    ));
    (a, b)
}

/// `v` trimmed of class `cls` at both ends.
pub fn trim_vec(v: &[char], cls: CharClass) -> (r: Vec<char>)
    ensures
        r@ == trim(v@, cls),
{
    let (a, b) = trim_bounds(v, cls);
    let part = &v[a..b];
    slice_to_vec(part)
}

/// Appends the decimal digits of `n` to `out`.
pub fn push_decimal(out: &mut Vec<char>, n: u64)
    ensures
        final(out)@ == old(out)@ + decimal(n as nat),
    decreases n,
{
    if n >= 10 {
        push_decimal(out, n / 10);
    }
    let d = (n % 10) as u8;
    let c = (48u8 + d) as char;
    assert(c == digit_char((n % 10) as nat));
    out.push(c);
    proof {
        if n >= 10 {
            assert(decimal(n as nat) == decimal((n / 10) as nat) + seq![digit_char((n % 10) as nat)]);
        }
    }
    assert(final(out)@ =~= old(out)@ + decimal(n as nat)) by {
        if n < 10 {
            assert(decimal(n as nat) == seq![digit_char(n as nat)]);
        }
    }
}

/// Appends the decimal rendering of the signed integer `n` to `out`.
pub fn push_signed_decimal(out: &mut Vec<char>, n: i64)
    ensures
        final(out)@ == old(out)@ + signed_decimal(n as int),
{
    if n < 0 {
        out.push('-');
        let m: u64 = if n == i64::MIN {
            9223372036854775808u64
        } else {
            (-n) as u64
        };
        push_decimal(out, m);
        assert(final(out)@ =~= old(out)@ + signed_decimal(n as int));
    } else {
        push_decimal(out, n as u64);
    }
}

/// Appends every character of `s` to `out`.
pub fn push_all(out: &mut Vec<char>, s: &[char])
    ensures
        final(out)@ == old(out)@ + s@,
{
    let n = s.len();
    let mut i: usize = 0;
    while i < n
        invariant
            i <= n == s@.len(),
            out@ == old(out)@ + s@.subrange(0, i as int),
        decreases n - i,
    {
        out.push(s[i]);
        assert(s@.subrange(0, i + 1) =~= s@.subrange(0, i as int).push(s@[i as int]));
        i = i + 1;
    }
    assert(s@.subrange(0, n as int) =~= s@);
}

/// Appends every character of `s` to `out`.
pub fn push_str(out: &mut Vec<char>, s: &str)
    ensures
        final(out)@ == old(out)@ + s@,
{
    let cs = chars_of(s);
    push_all(out, cs.as_slice());
}

/// The characters of `s`, in order.
pub fn chars_of(s: &str) -> (r: Vec<char>)
    ensures
        r@ == s@,
{
    broadcast use vstd::string::group_string_axioms;

    let mut out: Vec<char> = Vec::new();
    for c in it: s.chars()
        invariant
            out@ == it.history(),
    {
        out.push(c);
    }
    assert(out@ =~= s@);
    out
}

/// `String::push`: appends `c` to the end of `s`.
#[verifier::external_body]
fn push_char(s: &mut String, c: char)
    ensures
        final(s)@ == old(s)@.push(c),
{
    s.push(c)
}

/// The string made of the characters `cs`, in order.
pub fn text_of(cs: &[char]) -> (r: String)
    ensures
        r@ == cs@,
{
    let mut out = String::new();
    let n = cs.len();
    let mut i: usize = 0;
    while i < n
        invariant
            i <= n == cs@.len(),
            out@ == cs@.subrange(0, i as int),
        decreases n - i,
    {
        push_char(&mut out, cs[i]);
        assert(cs@.subrange(0, i + 1) =~= cs@.subrange(0, i as int).push(cs@[i as int]));
        i = i + 1;
    }
    assert(cs@.subrange(0, n as int) =~= cs@);
    out
}

/// `s1@ == s2@`, comparing character by character.
pub fn same_text(s1: &str, s2: &str) -> (b: bool)
    ensures
        b == (s1@ == s2@),
{
    let a = chars_of(s1);
    let b = chars_of(s2);
    if a.len() != b.len() {
        return false;
    }
    let n = a.len();
    let mut i: usize = 0;
    while i < n
        invariant
            i <= n == a@.len() == b@.len(),
            a@ == s1@,
            b@ == s2@,
            forall|j: int| 0 <= j < i ==> a@[j] == b@[j],
        decreases n - i,
    {
        if a[i] != b[i] {
            return false;
        }
        i = i + 1;
    }
    assert(a@ =~= b@);
    true
}

/// `str::to_ascii_uppercase` on a character vector.
pub fn upper_ascii_vec(v: &[char]) -> (r: Vec<char>)
    ensures
        r@ == ascii_upper_text(v@),
{
    let n = v.len();
    let mut out: Vec<char> = Vec::new();
    let mut i: usize = 0;
    while i < n
        invariant
            i <= n == v@.len(),
            out@ =~= ascii_upper_text(v@.subrange(0, i as int)),
        decreases n - i,
    {
        out.push(upper_char(v[i]));
        i = i + 1;
        assert(out@ =~= ascii_upper_text(v@.subrange(0, i as int)));
    }
    assert(v@.subrange(0, n as int) =~= v@);
    out
}

/// `str::to_ascii_lowercase` on a character vector.
pub fn lower_ascii_vec(v: &[char]) -> (r: Vec<char>)
    ensures
        r@ == ascii_lower_text(v@),
{
    let n = v.len();
    let mut out: Vec<char> = Vec::new();
    let mut i: usize = 0;
    while i < n
        invariant
            i <= n == v@.len(),
            out@ =~= ascii_lower_text(v@.subrange(0, i as int)),
        decreases n - i,
    {
        out.push(lower_char(v[i]));
        i = i + 1;
        assert(out@ =~= ascii_lower_text(v@.subrange(0, i as int)));
    }
    assert(v@.subrange(0, n as int) =~= v@);
    out
}

/// What `str::to_uppercase` returns for `s` (full Unicode case mapping).
pub uninterp spec fn unicode_upper_text(s: Seq<char>) -> Seq<char>;

/// What `str::to_lowercase` returns for `s` (full Unicode case mapping).
pub uninterp spec fn unicode_lower_text(s: Seq<char>) -> Seq<char>;

/// `str::to_uppercase`.
///
/// Trusted: the text is named `unicode_upper_text(s)`; on ASCII text the Unicode
/// mapping maps `a`..=`z` to `A`..=`Z` and keeps every other character.
#[verifier::external_body]
pub(crate) fn to_upper(s: &str) -> (r: String)
    ensures
        r@ == unicode_upper_text(s@),
        all_ascii(s@) ==> r@ == ascii_upper_text(s@),
{
    s.to_uppercase()
}

/// `str::to_lowercase`.
///
/// Trusted: the text is named `unicode_lower_text(s)`; on ASCII text the Unicode
/// mapping maps `A`..=`Z` to `a`..=`z` and keeps every other character.
#[verifier::external_body]
pub(crate) fn to_lower(s: &str) -> (r: String)
    ensures
        r@ == unicode_lower_text(s@),
        all_ascii(s@) ==> r@ == ascii_lower_text(s@),
{
    s.to_lowercase()
}

/// What `format!("{:?}", s)` renders for a `&str` (quoted, with escapes).
pub uninterp spec fn debug_str_text(s: Seq<char>) -> Seq<char>;

/// Printable ASCII with nothing that `str`'s `Debug` escapes.
pub open spec fn is_plain_ascii(s: Seq<char>) -> bool {
    forall|i: int|
        0 <= i < s.len() ==> {
            let u = #[trigger] s[i] as u32;
            0x20 <= u && u <= 0x7E && s[i] != '"' && s[i] != '\\'
        }
}

/// `format!("{:?}", s)`: the `Debug` rendering of a string slice.
///
/// Trusted: the text is named `debug_str_text(s)`; for printable ASCII without
/// `"` or `\\`, std's `str` Debug escapes nothing, so the text is `s` in double quotes.
#[verifier::external_body]
pub(crate) fn debug_text(s: &str) -> (r: String)
    ensures
        r@ == debug_str_text(s@),
        is_plain_ascii(s@) ==> r@ == seq!['"'] + s@ + seq!['"'],
{
    format!("{:?}", s)
}

} // verus!
