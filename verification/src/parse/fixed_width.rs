//! The fixed-width dump format: byte-range fields decoded as Windows-1252,
//! the per-file line loop (BOM, blank lines, header row, quarantined rows),
//! and the helpers that build space-padded records.

use vstd::prelude::*;
use vstd::slice::slice_to_vec;
use vstd::string::StringSliceAdditionalSpecFns;

use crate::model::{ParseError, ParseErrorView, ParsedFile, ParsedFileView};
use crate::text::{
    all_ascii, ascii_upper_text, chars_of, push_all, starts_with, text_of, trim, trim_vec,
    trim_white, upper_ascii_vec, CharClass,
};

verus! {

/// Longest input that the decoding step accepts: beyond it, encoding_rs's
/// output-size computation overflows `usize` and panics.
pub open spec fn max_input_len() -> nat {
    (usize::MAX / 4) as nat
}

/// What `encoding_rs::WINDOWS_1252.decode` returns for `bytes` (its first component).
pub uninterp spec fn windows_1252_text(bytes: Seq<u8>) -> Seq<char>;

/// `bytes` starts with a byte-order mark that encoding_rs's `decode` sniffs
/// (UTF-8, UTF-16LE or UTF-16BE), which switches the decoder away from Windows-1252.
pub open spec fn starts_with_sniffed_bom(bytes: Seq<u8>) -> bool {
    ||| (bytes.len() >= 3 && bytes[0] == 0xEF && bytes[1] == 0xBB && bytes[2] == 0xBF)
    ||| (bytes.len() >= 2 && bytes[0] == 0xFF && bytes[1] == 0xFE)
    ||| (bytes.len() >= 2 && bytes[0] == 0xFE && bytes[1] == 0xFF)
}

/// `encoding_rs::WINDOWS_1252.decode(bytes).0`, owned.
///
/// Trusted: the text is named `windows_1252_text(bytes)`. Without a sniffed BOM,
/// Windows-1252 is a single-byte encoding: one character per byte, ASCII bytes and
/// bytes 0xA0..=0xFF decode to the code point of the same value, and bytes
/// 0x80..=0x9F decode to code points of at least 0x80 (encoding_rs's
/// `windows_1252` table). The table's individual entries are not stated.
#[verifier::external_body]
fn decode_windows_1252(bytes: &[u8]) -> (r: String)
    requires
        bytes@.len() <= max_input_len(),
    ensures
        r@ == windows_1252_text(bytes@),
        !starts_with_sniffed_bom(bytes@) ==> r@.len() == bytes@.len(),
        !starts_with_sniffed_bom(bytes@) ==> forall|i: int|
            0 <= i < bytes@.len() && (bytes@[i] < 0x80 || bytes@[i] >= 0xA0) ==> #[trigger] r@[i]
                == (bytes@[i] as char),
        !starts_with_sniffed_bom(bytes@) ==> forall|i: int|
            0 <= i < bytes@.len() && 0x80 <= bytes@[i] < 0xA0 ==> (#[trigger] r@[i] as u32)
                >= 0x80,
{
    encoding_rs::WINDOWS_1252.decode(bytes).0.into_owned()
}

/// Every byte is ASCII.
pub open spec fn ascii_bytes(bytes: Seq<u8>) -> bool {
    forall|i: int| 0 <= i < bytes.len() ==> #[trigger] bytes[i] < 0x80
}

/// Each byte as the character of the same value.
pub open spec fn latin_text(bytes: Seq<u8>) -> Seq<char> {
    bytes.map_values(|b: u8| b as char)
}

/// The Windows-1252 text of `bytes`: on ASCII bytes, each byte as its own
/// character; otherwise what encoding_rs decodes.
pub open spec fn decoded_text(bytes: Seq<u8>) -> Seq<char> {
    if ascii_bytes(bytes) {
        latin_text(bytes)
    } else {
        windows_1252_text(bytes)
    }
}

/// `bytes` decoded as Windows-1252.
fn decode_text(bytes: &[u8]) -> (r: String)
    requires
        bytes@.len() <= max_input_len(),
    ensures
        r@ == decoded_text(bytes@),
{
    let decoded = decode_windows_1252(bytes);
    proof {
        if ascii_bytes(bytes@) {
            if bytes@.len() >= 2 {
                assert(bytes@[0] < 0x80 && bytes@[1] < 0x80);
            }
            assert(decoded@ =~= latin_text(bytes@));
        }
    }
    decoded
}

/// 0-based start of a 1-indexed position (`usize::saturating_sub(1)`).
pub open spec fn start_of(start_1: usize) -> int {
    if start_1 == 0 {
        0
    } else {
        start_1 - 1
    }
}

/// A field range that `field` can slice: it is empty past the end of the line,
/// or its end is not before its start.
pub open spec fn field_range_ok(len: nat, start_1: usize, end_1: usize) -> bool {
    start_of(start_1) >= len || start_of(start_1) <= end_1
}

/// The 1-indexed inclusive byte range `start_1..=end_1` of `line`, decoded as
/// Windows-1252, trimmed of whitespace and then of commas.
pub open spec fn field_text(line: Seq<u8>, start_1: usize, end_1: usize) -> Seq<char> {
    let start = start_of(start_1);
    if start >= line.len() {
        Seq::empty()
    } else {
        let end = if end_1 < line.len() {
            end_1 as int
        } else {
            line.len() as int
        };
        trim(trim_white(decoded_text(line.subrange(start, end))), CharClass::Is(','))
    }
}

/// The bytes of the 1-indexed inclusive range `start_1..=end_1` that lie in `line`.
pub open spec fn field_bytes(line: Seq<u8>, start_1: usize, end_1: usize) -> Seq<u8> {
    let start = start_of(start_1);
    if start >= line.len() {
        Seq::empty()
    } else if end_1 < line.len() {
        line.subrange(start, end_1 as int)
    } else {
        line.subrange(start, line.len() as int)
    }
}

/// 1-indexed inclusive byte range, decoded as Windows-1252 and trimmed.
pub fn field(line: &[u8], start_1: usize, end_1: usize) -> (r: String)
    requires
        line@.len() <= max_input_len(),
        field_range_ok(line@.len(), start_1, end_1),
    ensures
        r@ == field_text(line@, start_1, end_1),
{
    let start = start_1.saturating_sub(1);
    if start >= line.len() {
        return String::new();
    }
    let end = if end_1 < line.len() {
        end_1
    } else {
        line.len()
    };
    let raw = &line[start..end];
    let decoded = decode_text(raw);
    let cs = chars_of(decoded.as_str());
    let t = trim_vec(cs.as_slice(), CharClass::White);
    let t2 = trim_vec(t.as_slice(), CharClass::Is(','));
    text_of(t2.as_slice())
}

pub open spec fn strip_bom_spec(bytes: Seq<u8>) -> Seq<u8> {
    if bytes.len() >= 3 && bytes[0] == 0xEF && bytes[1] == 0xBB && bytes[2] == 0xBF {
        bytes.subrange(3, bytes.len() as int)
    } else {
        bytes
    }
}

/// `bytes` without a leading UTF-8 byte-order mark.
pub fn strip_bom(bytes: &[u8]) -> (r: &[u8])
    ensures
        r@ == strip_bom_spec(bytes@),
{
    if bytes.len() >= 3 && bytes[0] == 0xEF && bytes[1] == 0xBB && bytes[2] == 0xBF {
        &bytes[3..bytes.len()]
    } else {
        bytes
    }
}

pub open spec fn strip_line_ending_spec(line: Seq<u8>) -> Seq<u8> {
    let a = if line.len() > 0 && line.last() == 10 {
        line.drop_last()
    } else {
        line
    };
    if a.len() > 0 && a.last() == 13 {
        a.drop_last()
    } else {
        a
    }
}

/// Length of `line` once a trailing `\n` and then a trailing `\r` are dropped.
fn line_ending_cut(line: &[u8]) -> (n: usize)
    ensures
        n <= line@.len(),
        line@.subrange(0, n as int) == strip_line_ending_spec(line@),
{
    let mut n = line.len();
    if n > 0 && line[n - 1] == 10 {
        n = n - 1;
    }
    if n > 0 && line[n - 1] == 13 {
        n = n - 1;
    }
    assert(line@.subrange(0, n as int) =~= strip_line_ending_spec(line@));
    n
}

/// `line` without a trailing `\n`, then without a trailing `\r`.
pub fn strip_line_ending(line: &[u8]) -> (r: &[u8])
    ensures
        r@ == strip_line_ending_spec(line@),
{
    let n = line_ending_cut(line);
    &line[0..n]
}

/// `u8::is_ascii_whitespace`.
pub open spec fn is_ascii_white_byte(b: u8) -> bool {
    b == 0x20 || b == 0x09 || b == 0x0A || b == 0x0C || b == 0x0D
}

/// Every byte of `line` is ASCII whitespace (an empty line included).
pub open spec fn is_blank(line: Seq<u8>) -> bool {
    forall|i: int| 0 <= i < line.len() ==> is_ascii_white_byte(#[trigger] line[i])
}

fn blank_line(line: &[u8]) -> (b: bool)
    ensures
        b == is_blank(line@),
{
    let n = line.len();
    let mut i: usize = 0;
    while i < n
        invariant
            i <= n == line@.len(),
            forall|j: int| 0 <= j < i ==> is_ascii_white_byte(#[trigger] line@[j]),
        decreases n - i,
    {
        let b = line[i];
        if !(b == 0x20 || b == 0x09 || b == 0x0A || b == 0x0C || b == 0x0D) {
            return false;
        }
        i = i + 1;
    }
    true
}

/// The views of header markers.
pub open spec fn marker_texts(markers: Seq<&str>) -> Seq<Seq<char>> {
    markers.map_values(|m: &str| m@)
}

/// The line's decoded, ASCII-uppercased, trimmed text starts with one of the
/// ASCII-uppercased markers.
pub open spec fn is_header(line: Seq<u8>, markers: Seq<Seq<char>>) -> bool {
    let t = trim_white(ascii_upper_text(decoded_text(strip_bom_spec(line))));
    exists|i: int| 0 <= i < markers.len() && starts_with(t, ascii_upper_text(#[trigger] markers[i]))
}

fn has_prefix(s: &[char], p: &[char]) -> (b: bool)
    ensures
        b == starts_with(s@, p@),
{
    if p.len() > s.len() {
        return false;
    }
    let n = p.len();
    let mut i: usize = 0;
    while i < n
        invariant
            i <= n == p@.len() <= s@.len(),
            forall|j: int| 0 <= j < i ==> s@[j] == p@[j],
        decreases n - i,
    {
        if s[i] != p[i] {
            assert(s@.subrange(0, n as int)[i as int] != p@[i as int]);
            return false;
        }
        i = i + 1;
    }
    assert(s@.subrange(0, n as int) =~= p@);
    true
}

/// Whether `line` (BOM stripped) reads as a header row starting with one of `markers`.
pub fn looks_like_header(line: &[u8], markers: &[&str]) -> (b: bool)
    requires
        line@.len() <= max_input_len(),
    ensures
        b == is_header(line@, marker_texts(markers@)),
{
    let body = strip_bom(line);
    let decoded = decode_text(body);
    let cs = chars_of(decoded.as_str());
    let up = upper_ascii_vec(cs.as_slice());
    let t = trim_vec(up.as_slice(), CharClass::White);
    let ghost texts = marker_texts(markers@);
    let n = markers.len();
    let mut i: usize = 0;
    while i < n
        invariant
            i <= n == markers@.len() == texts.len(),
            texts == marker_texts(markers@),
            body@ == strip_bom_spec(line@),
            t@ == trim_white(ascii_upper_text(decoded_text(body@))),
            forall|j: int| 0 <= j < i ==> !starts_with(t@, ascii_upper_text(#[trigger] texts[j])),
        decreases n - i,
    {
        let m = chars_of(markers[i]);
        let mu = upper_ascii_vec(m.as_slice());
        if has_prefix(t.as_slice(), mu.as_slice()) {
            assert(texts[i as int] == markers@[i as int]@);
            assert(m@ == texts[i as int]);
            assert(starts_with(t@, ascii_upper_text(texts[i as int])));
            return true;
        }
        i = i + 1;
    }
    false
}

/// Index of the first `\n` at or after `i` (the length when there is none).
pub open spec fn next_newline(s: Seq<u8>, i: int) -> int
    decreases s.len() - i,
{
    if i < 0 || i >= s.len() {
        s.len() as int
    } else if s[i] == 10 {
        i
    } else {
        next_newline(s, i + 1)
    }
}

/// The pieces of `s[start..]` between `\n` bytes (`<[u8]>::split`).
pub open spec fn split_from(s: Seq<u8>, start: int) -> Seq<Seq<u8>>
    decreases s.len() - start,
{
    let k = next_newline(s, start);
    if start < 0 || k >= s.len() || k < start {
        seq![s.subrange(start, s.len() as int)]
    } else {
        seq![s.subrange(start, k)] + split_from(s, k + 1)
    }
}

/// The `\n`-separated pieces of a whole file, after the UTF-8 BOM is stripped.
pub open spec fn file_pieces(bytes: Seq<u8>) -> Seq<Seq<u8>> {
    split_from(strip_bom_spec(bytes), 0)
}

/// Data lines among `pieces`, each with its 1-based line number: line endings
/// stripped, blank lines and a header on the first line skipped.
pub open spec fn data_lines_of(pieces: Seq<Seq<u8>>, markers: Seq<Seq<char>>) -> Seq<
    (int, Seq<u8>),
>
    decreases pieces.len(),
{
    if pieces.len() == 0 {
        Seq::empty()
    } else {
        let prev = data_lines_of(pieces.drop_last(), markers);
        let idx = pieces.len() - 1;
        let line = strip_line_ending_spec(pieces.last());
        if is_blank(line) || (idx == 0 && is_header(line, markers)) {
            prev
        } else {
            prev.push((idx + 1, line))
        }
    }
}

/// The data lines of a dump file.
pub open spec fn file_data_lines(bytes: Seq<u8>, markers: Seq<Seq<char>>) -> Seq<(int, Seq<u8>)> {
    data_lines_of(file_pieces(bytes), markers)
}

proof fn lemma_next_newline_bounds(s: Seq<u8>, i: int)
    requires
        0 <= i,
    ensures
        i <= next_newline(s, i) || i > s.len(),
        next_newline(s, i) <= s.len(),
        next_newline(s, i) < s.len() ==> s[next_newline(s, i)] == 10,
    decreases s.len() - i,
{
    if i < s.len() && s[i] != 10 {
        lemma_next_newline_bounds(s, i + 1);
    }
}

fn find_newline(s: &[u8], start: usize) -> (k: usize)
    requires
        start <= s@.len(),
    ensures
        k == next_newline(s@, start as int),
        start <= k <= s@.len(),
{
    let n = s.len();
    let mut i = start;
    while i < n && s[i] != 10
        invariant
            start <= i <= n == s@.len(),
            next_newline(s@, start as int) == next_newline(s@, i as int),
        decreases n - i,
    {
        i = i + 1;
    }
    i
}

/// One data line: its 1-based number and its byte range in the BOM-stripped file.
pub struct LineSpan {
    pub number: usize,
    pub start: usize,
    pub end: usize,
}

/// The data lines of `body` (already BOM-stripped), as spans into `body`.
pub(crate) fn data_line_spans(body: &[u8], markers: &[&str]) -> (r: Vec<LineSpan>)
    requires
        body@.len() <= max_input_len(),
    ensures
        r@.len() == data_lines_of(split_from(body@, 0), marker_texts(markers@)).len(),
        forall|k: int|
            0 <= k < r@.len() ==> {
                let d = data_lines_of(split_from(body@, 0), marker_texts(markers@))[k];
                &&& (#[trigger] r@[k]).start <= r@[k].end <= body@.len()
                &&& r@[k].number == d.0
                &&& body@.subrange(r@[k].start as int, r@[k].end as int) == d.1
            },
{
    let ghost mk = marker_texts(markers@);
    let n = body.len();
    let mut out: Vec<LineSpan> = Vec::new();
    let mut start: usize = 0;
    let mut idx: usize = 0;
    let ghost mut done: Seq<Seq<u8>> = Seq::empty();
    loop
        invariant
            start <= n == body@.len() <= max_input_len(),
            idx == done.len(),
            idx <= start,
            mk == marker_texts(markers@),
            split_from(body@, 0) == done + split_from(body@, start as int),
            out@.len() == data_lines_of(done, mk).len(),
            forall|k: int|
                0 <= k < out@.len() ==> {
                    let d = data_lines_of(done, mk)[k];
                    &&& (#[trigger] out@[k]).start <= out@[k].end <= body@.len()
                    &&& out@[k].number == d.0
                    &&& body@.subrange(out@[k].start as int, out@[k].end as int) == d.1
                },
        decreases n - start,
    {
        let k = find_newline(body, start);
        proof {
            lemma_next_newline_bounds(body@, start as int);
        }
        let piece = &body[start..k];
        let cut = line_ending_cut(piece);
        let line = &piece[0..cut];
        assert(body@.subrange(start as int, start + cut) =~= line@);
        let ghost prev = data_lines_of(done, mk);
        let ghost next_done = done.push(piece@);
        assert(next_done.drop_last() =~= done);
        let skip = if blank_line(line) {
            true
        } else if idx == 0 {
            looks_like_header(line, markers)
        } else {
            false
        };
        if !skip {
            out.push(LineSpan { number: idx + 1, start: start, end: start + cut });
        }
        assert(data_lines_of(next_done, mk) == if skip {
            prev
        } else {
            prev.push(((idx + 1) as int, line@))
        });
        assert forall|j: int| 0 <= j < out@.len() implies {
            let d = data_lines_of(next_done, mk)[j];
            &&& (#[trigger] out@[j]).start <= out@[j].end <= body@.len()
            &&& out@[j].number == d.0
            &&& body@.subrange(out@[j].start as int, out@[j].end as int) == d.1
        } by {
            if j < prev.len() {
                assert(data_lines_of(next_done, mk)[j] == prev[j]);
            }
        }
        if k == n {
            assert(split_from(body@, start as int) == seq![piece@]);
            assert(split_from(body@, 0) =~= next_done);
            return out;
        }
        assert(split_from(body@, start as int) == seq![piece@] + split_from(body@, k + 1));
        assert(split_from(body@, 0) =~= next_done + split_from(body@, k + 1));
        proof {
            done = next_done;
        }
        start = k + 1;
        idx = idx + 1;
    }
}

/// One dump file's records and quarantined rows, as `parse_row` gives them.
pub open spec fn ok_items<T>(outs: Seq<Result<T, String>>) -> Seq<T>
    decreases outs.len(),
{
    if outs.len() == 0 {
        Seq::empty()
    } else {
        let prev = ok_items(outs.drop_last());
        match outs.last() {
            Ok(t) => prev.push(t),
            Err(_) => prev,
        }
    }
}

/// The quarantined rows among `outs`, paired position by position with `lines`.
pub open spec fn err_items<T>(
    file_name: Seq<char>,
    lines: Seq<(int, Seq<u8>)>,
    outs: Seq<Result<T, String>>,
) -> Seq<ParseErrorView>
    decreases outs.len(),
{
    if outs.len() == 0 {
        Seq::empty()
    } else {
        let prev = err_items(file_name, lines.drop_last(), outs.drop_last());
        match outs.last() {
            Ok(_) => prev,
            Err(e) => prev.push(
                ParseErrorView {
                    file_name,
                    line_number: lines.last().0,
                    raw_line: lines.last().1,
                    error: e@,
                },
            ),
        }
    }
}

/// `outs[k]` is what `f` gave for `args[k]`, a slice holding data line `k`.
pub open spec fn row_outcomes<T, F: Fn(&[u8]) -> Result<T, String>>(
    f: F,
    lines: Seq<(int, Seq<u8>)>,
    args: Seq<&[u8]>,
    outs: Seq<Result<T, String>>,
) -> bool {
    &&& outs.len() == lines.len()
    &&& args.len() == lines.len()
    &&& forall|k: int|
        #![trigger outs[k]]
        0 <= k < outs.len() ==> (*args[k])@ == lines[k].1 && call_ensures(f, (args[k],), outs[k])
}

proof fn lemma_outcomes_push<T, F: Fn(&[u8]) -> Result<T, String>>(
    f: F,
    lines: Seq<(int, Seq<u8>)>,
    args: Seq<&[u8]>,
    outs: Seq<Result<T, String>>,
    d: (int, Seq<u8>),
    a: &[u8],
    o: Result<T, String>,
)
    requires
        row_outcomes(f, lines, args, outs),
        a@ == d.1,
        call_ensures(f, (a,), o),
    ensures
        row_outcomes(f, lines.push(d), args.push(a), outs.push(o)),
{
    let args2 = args.push(a);
    let lines2 = lines.push(d);
    let outs2 = outs.push(o);
    assert forall|k: int| 0 <= k < outs2.len() implies (*args2[k])@ == lines2[k].1 by {
        if k < outs.len() {
            assert(outs2[k] == outs[k]);
            assert(args2[k] == args[k]);
            assert(lines2[k] == lines[k]);
        }
    }
    assert forall|k: int| 0 <= k < outs2.len() implies call_ensures(
        f,
        (args2[k],),
        #[trigger] outs2[k],
    ) by {
        if k < outs.len() {
            assert(outs2[k] == outs[k]);
            assert(args2[k] == args[k]);
        }
    }
}

proof fn lemma_items_push<T>(
    file_name: Seq<char>,
    lines: Seq<(int, Seq<u8>)>,
    outs: Seq<Result<T, String>>,
    d: (int, Seq<u8>),
    o: Result<T, String>,
)
    requires
        lines.len() == outs.len(),
    ensures
        ok_items(outs.push(o)) == match o {
            Ok(t) => ok_items(outs).push(t),
            Err(_) => ok_items(outs),
        },
        err_items(file_name, lines.push(d), outs.push(o)) == match o {
            Ok(_) => err_items(file_name, lines, outs),
            Err(e) => err_items(file_name, lines, outs).push(
                ParseErrorView { file_name, line_number: d.0, raw_line: d.1, error: e@ },
            ),
        },
{
    assert(outs.push(o).drop_last() =~= outs);
    assert(lines.push(d).drop_last() =~= lines);
}

/// One BOM / blank / header / row loop for every dump file. Field maps stay per file.
///
/// Every data line goes to `parse_row` once, in file order; its `Ok` values
/// become the records and its `Err` messages the quarantined rows, with the
/// file name, the 1-based line number and the line's bytes.
pub fn parse_lines<T, F: Fn(&[u8]) -> Result<T, String>>(
    bytes: &[u8],
    file_name: &str,
    header_markers: &[&str],
    parse_row: F,
) -> (out: ParsedFile<T>)
    requires
        bytes@.len() <= max_input_len(),
        forall|l: &[u8]| l@.len() <= bytes@.len() ==> call_requires(parse_row, (l,)),
    ensures
        exists|args: Seq<&[u8]>, outs: Seq<Result<T, String>>|
            #![trigger row_outcomes(parse_row, file_data_lines(bytes@, marker_texts(header_markers@)), args, outs)]
            {
                let lines = file_data_lines(bytes@, marker_texts(header_markers@));
                &&& row_outcomes(parse_row, lines, args, outs)
                &&& out.records@ == ok_items(outs)
                &&& out.errors@.map_values(|e: ParseError| e@) == err_items(
                    file_name@,
                    lines,
                    outs,
                )
            },
{
    let body = strip_bom(bytes);
    let spans = data_line_spans(body, header_markers);
    let ghost lines = file_data_lines(bytes@, marker_texts(header_markers@));
    let mut out: ParsedFile<T> = ParsedFile { records: Vec::new(), errors: Vec::new() };
    let ghost mut outs: Seq<Result<T, String>> = Seq::empty();
    let ghost mut args: Seq<&[u8]> = Seq::empty();
    let n = spans.len();
    let mut i: usize = 0;
    while i < n
        invariant
            i <= n == spans@.len() == lines.len(),
            body@ == strip_bom_spec(bytes@),
            bytes@.len() <= max_input_len(),
            lines == file_data_lines(bytes@, marker_texts(header_markers@)),
            forall|l: &[u8]| l@.len() <= bytes@.len() ==> call_requires(parse_row, (l,)),
            forall|k: int|
                0 <= k < spans@.len() ==> {
                    &&& (#[trigger] spans@[k]).start <= spans@[k].end <= body@.len()
                    &&& spans@[k].number == lines[k].0
                    &&& body@.subrange(spans@[k].start as int, spans@[k].end as int)
                        == lines[k].1
                },
            row_outcomes(parse_row, lines.subrange(0, i as int), args, outs),
            out.records@ == ok_items(outs),
            out.errors@.map_values(|e: ParseError| e@) == err_items(
                file_name@,
                lines.subrange(0, i as int),
                outs,
            ),
        decreases n - i,
    {
        let s = &spans[i];
        let line = &body[s.start..s.end];
        let r = parse_row(line);
        assert(call_ensures(parse_row, (line,), r));
        let ghost old_errors = out.errors@;
        let ghost o = r;
        proof {
            lemma_items_push(file_name@, lines.subrange(0, i as int), outs, lines[i as int], o);
            assert(lines.subrange(0, i + 1) =~= lines.subrange(0, i as int).push(lines[i as int]));
        }
        match r {
            Ok(rec) => {
                out.records.push(rec);
            },
            Err(error) => {
                let e = ParseError {
                    file_name: text_of(chars_of(file_name).as_slice()),
                    line_number: s.number,
                    raw_line: slice_to_vec(line),
                    error,
                };
                out.errors.push(e);
            },
        }
        proof {
            assert(out.errors@.map_values(|e: ParseError| e@) =~= err_items(
                file_name@,
                lines.subrange(0, i + 1),
                outs.push(o),
            ));
            assert(lines.subrange(0, i + 1) =~= lines.subrange(0, i as int).push(lines[i as int]));
            lemma_outcomes_push(
                parse_row,
                lines.subrange(0, i as int),
                args,
                outs,
                lines[i as int],
                line,
                o,
            );
            args = args.push(line);
            outs = outs.push(o);
        }
        i = i + 1;
    }
    assert(lines.subrange(0, n as int) =~= lines);
    out
}

/// A row result, by the views of its record or error message.
pub open spec fn result_view<T: View>(r: Result<T, String>) -> Result<T::V, Seq<char>> {
    match r {
        Ok(t) => Ok(t@),
        Err(e) => Err(e@),
    }
}

/// The records that `row` gives for `lines`, in order.
pub open spec fn spec_records<V>(
    lines: Seq<(int, Seq<u8>)>,
    row: spec_fn(Seq<u8>) -> Result<V, Seq<char>>,
) -> Seq<V>
    decreases lines.len(),
{
    if lines.len() == 0 {
        Seq::empty()
    } else {
        let prev = spec_records(lines.drop_last(), row);
        match row(lines.last().1) {
            Ok(v) => prev.push(v),
            Err(_) => prev,
        }
    }
}

/// The quarantined rows that `row` gives for `lines`, in order.
pub open spec fn spec_errors<V>(
    file_name: Seq<char>,
    lines: Seq<(int, Seq<u8>)>,
    row: spec_fn(Seq<u8>) -> Result<V, Seq<char>>,
) -> Seq<ParseErrorView>
    decreases lines.len(),
{
    if lines.len() == 0 {
        Seq::empty()
    } else {
        let prev = spec_errors(file_name, lines.drop_last(), row);
        match row(lines.last().1) {
            Ok(_) => prev,
            Err(e) => prev.push(
                ParseErrorView {
                    file_name,
                    line_number: lines.last().0,
                    raw_line: lines.last().1,
                    error: e,
                },
            ),
        }
    }
}

/// A dump file parsed with the row map `row`: each data line's record, or its
/// quarantine entry with the file name, the 1-based line number and the line's bytes.
pub open spec fn parsed_file<V>(
    bytes: Seq<u8>,
    file_name: Seq<char>,
    markers: Seq<Seq<char>>,
    row: spec_fn(Seq<u8>) -> Result<V, Seq<char>>,
) -> ParsedFileView<V> {
    let lines = file_data_lines(bytes, markers);
    ParsedFileView { records: spec_records(lines, row), errors: spec_errors(file_name, lines, row) }
}

/// `parse_lines` follows a row map: when each result of the row parser is the row
/// map `row` of its line, the records and quarantined rows that `parse_lines`
/// collects are those that `row` gives, line by line.
pub proof fn lemma_outcomes_follow_row<T: View, F: Fn(&[u8]) -> Result<T, String>>(
    f: F,
    file_name: Seq<char>,
    lines: Seq<(int, Seq<u8>)>,
    args: Seq<&[u8]>,
    outs: Seq<Result<T, String>>,
    row: spec_fn(Seq<u8>) -> Result<T::V, Seq<char>>,
)
    requires
        row_outcomes(f, lines, args, outs),
        forall|l: &[u8], r: Result<T, String>|
            #[trigger] call_ensures(f, (l,), r) ==> result_view(r) == row(l@),
    ensures
        ok_items(outs).map_values(|t: T| t@) == spec_records(lines, row),
        err_items(file_name, lines, outs) == spec_errors(file_name, lines, row),
    decreases lines.len(),
{
    if lines.len() > 0 {
        let l0 = lines.drop_last();
        let a0 = args.drop_last();
        let o0 = outs.drop_last();
        assert(o0.len() == l0.len());
        assert(a0.len() == l0.len());
        assert forall|k: int| 0 <= k < o0.len() implies (*a0[k])@ == l0[k].1 by {
            assert(o0[k] == outs[k]);
            assert(a0[k] == args[k]);
            assert(l0[k] == lines[k]);
        }
        assert forall|k: int| 0 <= k < o0.len() implies call_ensures(
            f,
            (a0[k],),
            #[trigger] o0[k],
        ) by {
            assert(o0[k] == outs[k]);
            assert(a0[k] == args[k]);
        }
        assert(row_outcomes(f, l0, a0, o0));
        lemma_outcomes_follow_row(f, file_name, l0, a0, o0, row);
        let last = outs.len() - 1;
        assert(call_ensures(f, (args[last],), outs[last]));
        assert(result_view(outs.last()) == row(lines.last().1));
        assert(ok_items(outs).map_values(|t: T| t@) =~= match outs.last() {
            Ok(t) => ok_items(o0).map_values(|t: T| t@).push(t@),
            Err(_) => ok_items(o0).map_values(|t: T| t@),
        });
    }
}

/// The per-file loop for a row parser whose result is the row map `row`:
/// `parse_lines` with that parser.
pub(crate) fn parse_rows<T: View, F: Fn(&[u8]) -> Result<T, String>>(
    bytes: &[u8],
    file_name: &str,
    header_markers: &[&str],
    parse_row: F,
    Ghost(row): Ghost<spec_fn(Seq<u8>) -> Result<T::V, Seq<char>>>,
) -> (out: ParsedFile<T>)
    requires
        bytes@.len() <= max_input_len(),
        forall|l: &[u8]| l@.len() <= max_input_len() ==> call_requires(parse_row, (l,)),
        forall|l: &[u8], r: Result<T, String>|
            #[trigger] call_ensures(parse_row, (l,), r) ==> result_view(r) == row(l@),
    ensures
        out@ == parsed_file(bytes@, file_name@, marker_texts(header_markers@), row),
{
    let out = parse_lines(bytes, file_name, header_markers, parse_row);
    proof {
        let lines = file_data_lines(bytes@, marker_texts(header_markers@));
        let (args, outs) = choose|args: Seq<&[u8]>, outs: Seq<Result<T, String>>|
            {
                &&& row_outcomes(parse_row, lines, args, outs)
                &&& out.records@ == ok_items(outs)
                &&& out.errors@.map_values(|e: ParseError| e@) == err_items(
                    file_name@,
                    lines,
                    outs,
                )
            };
        lemma_outcomes_follow_row(parse_row, file_name@, lines, args, outs, row);
    }
    out
}

/// The error for a row shorter than its file's minimum.
pub open spec fn too_short_message(len: nat) -> Seq<char> {
    "row too short ("@ + crate::text::decimal(len) + " bytes)"@
}

pub fn too_short(len: usize) -> (r: String)
    ensures
        r@ == too_short_message(len as nat),
{
    let mut msg: Vec<char> = Vec::new();
    crate::text::push_str(&mut msg, "row too short (");
    crate::text::push_decimal(&mut msg, len as u64);
    crate::text::push_str(&mut msg, " bytes)");
    text_of(msg.as_slice())
}

proof fn lemma_outcomes_count<V>(
    file_name: Seq<char>,
    lines: Seq<(int, Seq<u8>)>,
    row: spec_fn(Seq<u8>) -> Result<V, Seq<char>>,
)
    ensures
        spec_records(lines, row).len() + spec_errors(file_name, lines, row).len() == lines.len(),
    decreases lines.len(),
{
    if lines.len() > 0 {
        lemma_outcomes_count(file_name, lines.drop_last(), row);
    }
}

/// Every data line of a dump file ends up either as a record or as a quarantined
/// row, never both and never neither: bad rows do not abort the file.
pub proof fn lemma_every_data_line_accounted<V>(
    bytes: Seq<u8>,
    file_name: Seq<char>,
    markers: Seq<Seq<char>>,
    row: spec_fn(Seq<u8>) -> Result<V, Seq<char>>,
)
    ensures
        parsed_file(bytes, file_name, markers, row).records.len() + parsed_file(
            bytes,
            file_name,
            markers,
            row,
        ).errors.len() == file_data_lines(bytes, markers).len(),
{
    lemma_outcomes_count(file_name, file_data_lines(bytes, markers), row);
}

/// Piece `k` of a file is a data line: once its line ending is stripped it is not
/// blank, and it is not a header on the first line.
pub open spec fn kept_piece(pieces: Seq<Seq<u8>>, markers: Seq<Seq<char>>, k: int) -> bool {
    let line = strip_line_ending_spec(pieces[k]);
    !is_blank(line) && !(k == 0 && is_header(line, markers))
}

/// The data lines are exactly the kept pieces, in file order: each is a kept piece
/// `k` with its line ending stripped, numbered `k + 1`; every kept piece is one of
/// them; their numbers strictly increase.
pub proof fn lemma_data_lines_are_kept_pieces(pieces: Seq<Seq<u8>>, markers: Seq<Seq<char>>)
    ensures
        forall|j: int|
            0 <= j < data_lines_of(pieces, markers).len() ==> {
                let k = (#[trigger] data_lines_of(pieces, markers)[j]).0 - 1;
                &&& 0 <= k < pieces.len()
                &&& kept_piece(pieces, markers, k)
                &&& data_lines_of(pieces, markers)[j].1 == strip_line_ending_spec(pieces[k])
            },
        forall|k: int|
            0 <= k < pieces.len() && #[trigger] kept_piece(pieces, markers, k) ==> exists|j: int|
                0 <= j < data_lines_of(pieces, markers).len() && #[trigger] data_lines_of(
                    pieces,
                    markers,
                )[j].0 == k + 1,
        forall|i: int, j: int|
            0 <= i < j < data_lines_of(pieces, markers).len() ==> #[trigger] data_lines_of(
                pieces,
                markers,
            )[i].0 < #[trigger] data_lines_of(pieces, markers)[j].0,
    decreases pieces.len(),
{
    if pieces.len() > 0 {
        let p0 = pieces.drop_last();
        lemma_data_lines_are_kept_pieces(p0, markers);
        let d0 = data_lines_of(p0, markers);
        let d = data_lines_of(pieces, markers);
        let idx = pieces.len() - 1;
        assert forall|k: int| 0 <= k < p0.len() implies kept_piece(p0, markers, k) == kept_piece(
            pieces,
            markers,
            k,
        ) && p0[k] == pieces[k] by {
            assert(p0[k] == pieces[k]);
        }
        assert forall|j: int| 0 <= j < d.len() implies {
            let k = (#[trigger] d[j]).0 - 1;
            &&& 0 <= k < pieces.len()
            &&& kept_piece(pieces, markers, k)
            &&& d[j].1 == strip_line_ending_spec(pieces[k])
        } by {
            if j < d0.len() {
                assert(d[j] == d0[j]);
                let k = d0[j].0 - 1;
                assert(kept_piece(p0, markers, k) == kept_piece(pieces, markers, k));
            }
        }
        assert forall|k: int| 0 <= k < pieces.len() && #[trigger] kept_piece(
            pieces,
            markers,
            k,
        ) implies exists|j: int| 0 <= j < d.len() && #[trigger] d[j].0 == k + 1 by {
            if k < idx {
                assert(kept_piece(p0, markers, k) == kept_piece(pieces, markers, k));
                let j = choose|j: int| 0 <= j < d0.len() && #[trigger] d0[j].0 == k + 1;
                assert(d[j] == d0[j]);
            } else {
                assert(d[d.len() - 1].0 == k + 1);
            }
        }
        assert forall|i: int, j: int| 0 <= i < j < d.len() implies #[trigger] d[i].0
            < #[trigger] d[j].0 by {
            if j < d0.len() {
                assert(d[i] == d0[i] && d[j] == d0[j]);
            } else {
                assert(d[i] == d0[i]);
                let k = d0[i].0 - 1;
                assert(k < p0.len());
            }
        }
    }
}

/// A field depends only on the bytes of its own range: two lines that agree on
/// bytes `start_1..=end_1` (and are both long enough) give the same field, whatever
/// the other bytes hold (commas included).
pub proof fn lemma_field_is_local(l1: Seq<u8>, l2: Seq<u8>, start_1: usize, end_1: usize)
    requires
        1 <= start_1 <= end_1,
        end_1 <= l1.len(),
        end_1 <= l2.len(),
        l1.subrange(start_1 - 1, end_1 as int) == l2.subrange(start_1 - 1, end_1 as int),
    ensures
        field_text(l1, start_1, end_1) == field_text(l2, start_1, end_1),
{
}

/// A field reads back what was written at its position: when the bytes
/// `start_1..` of `line` are the ASCII bytes `value` (as `write_field` leaves
/// them), the field over exactly that range is `value`'s text, trimmed of
/// whitespace and then of commas.
pub proof fn lemma_field_reads_back_written(line: Seq<u8>, start_1: usize, value: Seq<u8>)
    requires
        1 <= start_1,
        value.len() >= 1,
        start_1 - 1 + value.len() <= line.len(),
        start_1 - 1 + value.len() <= usize::MAX,
        line.subrange(start_1 - 1, start_1 - 1 + value.len()) == value,
        ascii_bytes(value),
    ensures
        field_text(line, start_1, (start_1 - 1 + value.len()) as usize) == trim(
            trim_white(latin_text(value)),
            CharClass::Is(','),
        ),
{
    let end_1 = (start_1 - 1 + value.len()) as usize;
    assert(field_bytes(line, start_1, end_1) =~= value);
    assert(line.subrange(start_1 - 1, end_1 as int) =~= value);
}

/// Writes `value` into a space-padded buffer at a 1-indexed inclusive start.
/// Used to build fixture records that match FAA byte positions.
pub fn write_field(buf: &mut [u8], start_1: usize, value: &str)
    ensures
        final(buf)@.len() == old(buf)@.len(),
        forall|i: int|
            0 <= i < final(buf)@.len() ==> #[trigger] final(buf)@[i] == if start_of(start_1) <= i
                < start_of(start_1) + value.spec_bytes().len() {
                value.spec_bytes()[i - start_of(start_1)]
            } else {
                old(buf)@[i]
            },
{
    let start = start_1.saturating_sub(1);
    let bytes = value.as_bytes();
    if start >= buf.len() {
        return;
    }
    let end = if bytes.len() >= buf.len() - start {
        buf.len()
    } else {
        start + bytes.len()
    };
    let mut i = start;
    while i < end
        invariant
            start <= i <= end <= buf@.len(),
            buf@.len() == old(buf)@.len(),
            end == buf@.len() || end == start + bytes@.len(),
            end - start <= bytes@.len(),
            bytes@ == value.spec_bytes(),
            forall|j: int|
                0 <= j < buf@.len() ==> #[trigger] buf@[j] == if start <= j < i {
                    bytes@[j - start]
                } else {
                    old(buf)@[j]
                },
        decreases end - i,
    {
        buf[i] = bytes[i - start];
        i = i + 1;
    }
}

/// A record of `len` spaces.
pub fn padded_record(len: usize) -> (r: Vec<u8>)
    ensures
        r@ == Seq::new(len as nat, |i: int| 0x20u8),
{
    let mut v: Vec<u8> = Vec::new();
    let mut i: usize = 0;
    while i < len
        invariant
            i <= len,
            v@ =~= Seq::new(i as nat, |j: int| 0x20u8),
        decreases len - i,
    {
        v.push(0x20);
        i = i + 1;
    }
    v
}

} // verus!
