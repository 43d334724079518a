//! UTC calendar days (`YYYY-MM-DD`) and instants (`YYYY-MM-DDTHH:MM:SSZ`).

use vstd::prelude::*;

use crate::text::{
    chars_of, debug_str_text, debug_text, is_ascii_digit, push_all, push_str, starts_with,
    text_of, trim_vec, trim_white, CharClass,
};

verus! {

/// What chrono gives for `s` as a calendar day: `NaiveDate::parse_from_str(s, "%Y-%m-%d")`
/// formatted back with `"%Y-%m-%d"`, or `None` when chrono does not parse it.
pub uninterp spec fn chrono_day_text(s: Seq<char>) -> Option<Seq<char>>;

/// What chrono gives for `s` as a naive date-time: `NaiveDateTime::parse_from_str(s,
/// "%Y-%m-%dT%H:%M:%S")` formatted back with the same format, or `None` when chrono
/// does not parse it.
pub uninterp spec fn chrono_date_time_text(s: Seq<char>) -> Option<Seq<char>>;

/// `chrono::NaiveDate::parse_from_str(s, "%Y-%m-%d")`, formatted back with `"%Y-%m-%d"`.
///
/// Trusted: the result is named `chrono_day_text(s)`; nothing more is stated of
/// chrono's parser and formatter.
#[verifier::external_body]
fn reformat_day(s: &str) -> (r: Option<String>)
    ensures
        r matches Some(t) ==> chrono_day_text(s@) == Some(t@),
        r is None ==> chrono_day_text(s@) is None,
{
    match chrono::NaiveDate::parse_from_str(s, "%Y-%m-%d") {
        Ok(d) => Some(d.format("%Y-%m-%d").to_string()),
        Err(_) => None,
    }
}

/// `chrono::NaiveDateTime::parse_from_str(s, "%Y-%m-%dT%H:%M:%S")`, formatted back
/// with the same format.
///
/// Trusted: the result is named `chrono_date_time_text(s)`; nothing more is stated
/// of chrono's parser and formatter.
#[verifier::external_body]
fn reformat_date_time(s: &str) -> (r: Option<String>)
    ensures
        r matches Some(t) ==> chrono_date_time_text(s@) == Some(t@),
        r is None ==> chrono_date_time_text(s@) is None,
{
    match chrono::NaiveDateTime::parse_from_str(s, "%Y-%m-%dT%H:%M:%S") {
        Ok(dt) => Some(dt.format("%Y-%m-%dT%H:%M:%S").to_string()),
        Err(_) => None,
    }
}

/// A UTC calendar day: chrono reads it as `%Y-%m-%d` and writes it back unchanged.
pub open spec fn is_utc_date_spec(s: Seq<char>) -> bool {
    chrono_day_text(s) == Some(s)
}

/// A UTC instant: `s` is a naive date-time followed by `Z`, which chrono reads as
/// `%Y-%m-%dT%H:%M:%S` and writes back unchanged.
pub open spec fn is_utc_instant_spec(s: Seq<char>) -> bool {
    s.len() > 0 && s.last() == 'Z' && chrono_date_time_text(s.drop_last()) == Some(s.drop_last())
}

/// Whether chrono's reformatting `formatted` of `s` gives `s` back.
pub fn round_trips(s: &str, formatted: Option<String>) -> (b: bool)
    ensures
        b == (formatted matches Some(t) && t@ == s@),
{
    match formatted {
        Some(t) => crate::text::same_text(t.as_str(), s),
        None => false,
    }
}

pub fn is_utc_date(s: &str) -> (b: bool)
    ensures
        b == is_utc_date_spec(s@),
{
    let f = reformat_day(s);
    round_trips(s, f)
}

pub fn is_utc_instant(s: &str) -> (b: bool)
    ensures
        b == is_utc_instant_spec(s@),
{
    let cs = chars_of(s);
    let n = cs.len();
    if n == 0 || cs[n - 1] != 'Z' {
        return false;
    }
    let body = text_of(&cs.as_slice()[0..n - 1]);
    assert(body@ =~= s@.drop_last());
    let f = reformat_date_time(body.as_str());
    round_trips(body.as_str(), f)
}

pub open spec fn date_error(s: Seq<char>, what: Seq<char>) -> Seq<char> {
    what + " must be UTC calendar day YYYY-MM-DD, got "@ + debug_str_text(s)
}

pub open spec fn instant_error(s: Seq<char>, what: Seq<char>) -> Seq<char> {
    what + " must be UTC instant YYYY-MM-DDTHH:MM:SSZ, got "@ + debug_str_text(s)
}

/// `Ok` exactly when `s` is a UTC calendar day; the error names `what` and shows `s`.
pub fn require_utc_date(s: &str, what: &str) -> (r: Result<(), String>)
    ensures
        r is Ok <==> is_utc_date_spec(s@),
        r matches Err(e) ==> e@ == date_error(s@, what@),
{
    if is_utc_date(s) {
        Ok(())
    } else {
        let mut msg: Vec<char> = Vec::new();
        push_str(&mut msg, what);
        push_str(&mut msg, " must be UTC calendar day YYYY-MM-DD, got ");
        let shown = debug_text(s);
        push_str(&mut msg, shown.as_str());
        Err(text_of(msg.as_slice()))
    }
}

/// `Ok` exactly when `s` is a UTC instant; the error names `what` and shows `s`.
pub fn require_utc_instant(s: &str, what: &str) -> (r: Result<(), String>)
    ensures
        r is Ok <==> is_utc_instant_spec(s@),
        r matches Err(e) ==> e@ == instant_error(s@, what@),
{
    if is_utc_instant(s) {
        Ok(())
    } else {
        let mut msg: Vec<char> = Vec::new();
        push_str(&mut msg, what);
        push_str(&mut msg, " must be UTC instant YYYY-MM-DDTHH:MM:SSZ, got ");
        let shown = debug_text(s);
        push_str(&mut msg, shown.as_str());
        Err(text_of(msg.as_slice()))
    }
}

/// Eight ASCII digits (`YYYYMMDD`).
pub open spec fn is_eight_digits(s: Seq<char>) -> bool {
    s.len() == 8 && forall|i: int| 0 <= i < 8 ==> is_ascii_digit(#[trigger] s[i])
}

/// `YYYYMMDD` rewritten as `YYYY-MM-DD`.
pub open spec fn dashed_day(s: Seq<char>) -> Seq<char> {
    s.subrange(0, 4) + seq!['-'] + s.subrange(4, 6) + seq!['-'] + s.subrange(6, 8)
}

/// FAA dump dates: trimmed empty stays empty; eight digits that form a UTC calendar
/// day become `YYYY-MM-DD`; anything else is an error naming the trimmed text.
pub open spec fn faa_date_spec(raw: Seq<char>) -> Result<Seq<char>, Seq<char>> {
    let s = trim_white(raw);
    if s.len() == 0 {
        Ok(Seq::empty())
    } else if is_eight_digits(s) && is_utc_date_spec(dashed_day(s)) {
        Ok(dashed_day(s))
    } else {
        Err("invalid FAA date "@ + debug_str_text(s))
    }
}

/// FAA dump dates are `YYYYMMDD`. Empty stays empty. Garbage is an error
/// (caller quarantines the row).
pub fn faa_date(raw: &str) -> (r: Result<String, String>)
    ensures
        r matches Ok(t) ==> faa_date_spec(raw@) == Ok::<Seq<char>, Seq<char>>(t@),
        r matches Err(e) ==> faa_date_spec(raw@) == Err::<Seq<char>, Seq<char>>(e@),
        r is Ok <==> (trim_white(raw@).len() == 0 || (is_eight_digits(trim_white(raw@))
            && is_utc_date_spec(dashed_day(trim_white(raw@))))),
        r matches Ok(t) ==> (trim_white(raw@).len() == 0 && t@.len() == 0) || t@ == dashed_day(
            trim_white(raw@),
        ),
        r matches Err(e) ==> starts_with(e@, "invalid FAA date "@),
{
    let r = faa_date_inner(raw);
    proof {
        if r is Err {
            let e = r->Err_0;
            let p = "invalid FAA date "@;
            assert(e@.subrange(0, p.len() as int) =~= p);
        }
    }
    r
}

fn faa_date_inner(raw: &str) -> (r: Result<String, String>)
    ensures
        r matches Ok(t) ==> faa_date_spec(raw@) == Ok::<Seq<char>, Seq<char>>(t@),
        r matches Err(e) ==> faa_date_spec(raw@) == Err::<Seq<char>, Seq<char>>(e@),
{
    let cs = chars_of(raw);
    let s = trim_vec(cs.as_slice(), CharClass::White);
    if s.len() == 0 {
        return Ok(String::new());
    }
    let mut digits = s.len() == 8;
    let mut i: usize = 0;
    while digits && i < 8
        invariant
            i <= 8,
            digits ==> s@.len() == 8,
            digits ==> forall|j: int| 0 <= j < i ==> is_ascii_digit(#[trigger] s@[j]),
            !digits ==> !is_eight_digits(s@),
        decreases 8 - i,
    {
        if !('0' <= s[i] && s[i] <= '9') {
            digits = false;
        }
        i = i + 1;
    }
    if digits {
        let mut iso: Vec<char> = Vec::new();
        push_all(&mut iso, &s.as_slice()[0..4]);
        iso.push('-');
        push_all(&mut iso, &s.as_slice()[4..6]);
        iso.push('-');
        push_all(&mut iso, &s.as_slice()[6..8]);
        assert(iso@ =~= dashed_day(s@));
        let iso_text = text_of(iso.as_slice());
        if is_utc_date(iso_text.as_str()) {
            return Ok(iso_text);
        }
    }
    let st = text_of(s.as_slice());
    let mut msg: Vec<char> = Vec::new();
    push_str(&mut msg, "invalid FAA date ");
    let shown = debug_text(st.as_str());
    push_str(&mut msg, shown.as_str());
    Err(text_of(msg.as_slice()))
}

/// A successful normalization is empty or has the `YYYY-MM-DD` shape: four
/// digits, a dash, two digits, a dash, two digits.
pub proof fn lemma_faa_date_shape(raw: Seq<char>)
    ensures
        faa_date_spec(raw) matches Ok(t) ==> t.len() == 0 || {
            &&& t.len() == 10
            &&& t[4] == '-' && t[7] == '-'
            &&& forall|i: int|
                0 <= i < 10 && i != 4 && i != 7 ==> is_ascii_digit(#[trigger] t[i])
        },
{
    let s = trim_white(raw);
    if s.len() != 0 && is_eight_digits(s) && is_utc_date_spec(dashed_day(s)) {
        let t = dashed_day(s);
        assert forall|i: int| 0 <= i < 10 && i != 4 && i != 7 implies is_ascii_digit(
            #[trigger] t[i],
        ) by {
            if i < 4 {
                assert(t[i] == s[i]);
            } else if i < 7 {
                assert(t[i] == s[i - 1]);
            } else {
                assert(t[i] == s[i - 2]);
            }
        }
    }
}

/// A normalized FAA date keeps the dump's digits in place: empty input gives the
/// empty text; otherwise the trimmed input has eight characters, and the result is
/// its year (characters 1-4), a dash, its month (5-6), a dash and its day (7-8).
pub proof fn lemma_faa_date_keeps_digits(raw: Seq<char>)
    ensures
        faa_date_spec(raw) matches Ok(t) ==> {
            let s = trim_white(raw);
            ||| s.len() == 0 && t.len() == 0
            ||| {
                &&& s.len() == 8 && t.len() == 10
                &&& t.subrange(0, 4) == s.subrange(0, 4)
                &&& t[4] == '-'
                &&& t.subrange(5, 7) == s.subrange(4, 6)
                &&& t[7] == '-'
                &&& t.subrange(8, 10) == s.subrange(6, 8)
            }
        },
        faa_date_spec(raw) is Err ==> trim_white(raw).len() > 0,
{
    let s = trim_white(raw);
    if s.len() != 0 && is_eight_digits(s) && is_utc_date_spec(dashed_day(s)) {
        let t = dashed_day(s);
        assert(t.subrange(0, 4) =~= s.subrange(0, 4));
        assert(t.subrange(5, 7) =~= s.subrange(4, 6));
        assert(t.subrange(8, 10) =~= s.subrange(6, 8));
    }
}

} // verus!
