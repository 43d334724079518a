//! `MASTER.txt`: registered aircraft and their current owners.

use vstd::prelude::*;

use crate::dates::{faa_date, faa_date_spec};
use vstd::hash_set::StringHashSet;
use vstd::slice::slice_to_vec;

use crate::model::{
    join_other_names, joined_names, MasterRecord, MasterRecordView, ParseError, ParseErrorView,
    ParsedFile, ParsedFileView,
};
use crate::parse::fixed_width::{
    data_line_spans, field, field_text, file_data_lines, marker_texts, max_input_len,
    result_view, strip_bom, strip_bom_spec, too_short, too_short_message,
};
use crate::text::{chars_of, push_str, text_of};
use crate::{canonical_n_number, canonical_n_number_spec};

verus! {

/// `MASTER.txt`: shorter rows are quarantined.
pub open spec fn master_min_len() -> nat {
    57
}

/// The header markers of `MASTER.txt`.
pub open spec fn master_markers() -> Seq<Seq<char>> {
    seq!["N-NUMBER"@, "N-NUM"@]
}

/// One `MASTER.txt` row: its record, or why it is quarantined.
pub open spec fn master_row(line: Seq<u8>) -> Result<MasterRecordView, Seq<char>> {
    if line.len() < master_min_len() {
        Err(too_short_message(line.len()))
    } else {
        let n_number = canonical_n_number_spec(field_text(line, 1, 5));
        if n_number.len() == 0 {
            Err("missing N-number"@)
        } else {
            let other_names = joined_names(seq![
                field_text(line, 277, 326),
                field_text(line, 328, 377),
                field_text(line, 379, 428),
                field_text(line, 430, 479),
                field_text(line, 481, 530),
            ]);
            match faa_date_spec(field_text(line, 220, 227)) {
                Err(e) => Err(e),
                Ok(last_action_date) => 
                match faa_date_spec(field_text(line, 229, 236)) {
                    Err(e) => Err(e),
                    Ok(cert_issue_date) => 
                    match faa_date_spec(field_text(line, 268, 275)) {
                        Err(e) => Err(e),
                        Ok(air_worth_date) => 
                        match faa_date_spec(field_text(line, 532, 539)) {
                            Err(e) => Err(e),
                            Ok(expiration_date) => 
                            Ok(MasterRecordView {
                                n_number,
                                serial_number: field_text(line, 7, 36),
                                mfr_mdl_code: field_text(line, 38, 44),
                                eng_mfr_mdl: field_text(line, 46, 50),
                                year_mfr: field_text(line, 52, 55),
                                type_registrant: field_text(line, 57, 57),
                                owner_name: field_text(line, 59, 108),
                                street: field_text(line, 110, 142),
                                street2: field_text(line, 144, 176),
                                city: field_text(line, 178, 195),
                                state: field_text(line, 197, 198),
                                zip_code: field_text(line, 200, 209),
                                region: field_text(line, 211, 211),
                                county: field_text(line, 213, 215),
                                country: field_text(line, 217, 218),
                                last_action_date: last_action_date,
                                cert_issue_date: cert_issue_date,
                                certification: field_text(line, 238, 247),
                                type_aircraft: field_text(line, 249, 249),
                                type_engine: field_text(line, 251, 252),
                                status_code: field_text(line, 254, 255),
                                mode_s_code: field_text(line, 257, 264),
                                fractional_owner: field_text(line, 266, 266),
                                air_worth_date: air_worth_date,
                                other_names: other_names,
                                expiration_date: expiration_date,
                                unique_id: field_text(line, 541, 548),
                                kit_mfr: field_text(line, 550, 579),
                                kit_model: field_text(line, 581, 600),
                                mode_s_hex: field_text(line, 602, 611),
                            })
                        }
                    }
                }
            }
        }
    }
}

pub open spec fn master_row_fn() -> spec_fn(Seq<u8>) -> Result<MasterRecordView, Seq<char>> {
    |line: Seq<u8>| master_row(line)
}

fn parse_row(line: &[u8]) -> (r: Result<MasterRecord, String>)
    requires
        line@.len() <= max_input_len(),
    ensures
        result_view(r) == master_row(line@),
{
    if line.len() < 57 {
        return Err(too_short(line.len()));
    }
    let n_number = canonical_n_number(field(line, 1, 5).as_str());
    if n_number.as_str().is_empty() {
        return Err(text_of(chars_of("missing N-number").as_slice()));
    }
    let mut names: Vec<String> = Vec::new();
    names.push(field(line, 277, 326));
    names.push(field(line, 328, 377));
    names.push(field(line, 379, 428));
    names.push(field(line, 430, 479));
    names.push(field(line, 481, 530));
    assert(names@.map_values(|s: String| s@) =~= seq![
        field_text(line@, 277, 326),
        field_text(line@, 328, 377),
        field_text(line@, 379, 428),
        field_text(line@, 430, 479),
        field_text(line@, 481, 530),
    ]);
    let other_names = join_other_names(names.as_slice());
    let last_action_date = match faa_date(field(line, 220, 227).as_str()) {
        Ok(d) => d,
        Err(e) => return Err(e),
    };
    let cert_issue_date = match faa_date(field(line, 229, 236).as_str()) {
        Ok(d) => d,
        Err(e) => return Err(e),
    };
    let air_worth_date = match faa_date(field(line, 268, 275).as_str()) {
        Ok(d) => d,
        Err(e) => return Err(e),
    };
    let expiration_date = match faa_date(field(line, 532, 539).as_str()) {
        Ok(d) => d,
        Err(e) => return Err(e),
    };
    Ok(MasterRecord {
        n_number,
        serial_number: field(line, 7, 36),
        mfr_mdl_code: field(line, 38, 44),
        eng_mfr_mdl: field(line, 46, 50),
        year_mfr: field(line, 52, 55),
        type_registrant: field(line, 57, 57),
        owner_name: field(line, 59, 108),
        street: field(line, 110, 142),
        street2: field(line, 144, 176),
        city: field(line, 178, 195),
        state: field(line, 197, 198),
        zip_code: field(line, 200, 209),
        region: field(line, 211, 211),
        county: field(line, 213, 215),
        country: field(line, 217, 218),
        last_action_date,
        cert_issue_date,
        certification: field(line, 238, 247),
        type_aircraft: field(line, 249, 249),
        type_engine: field(line, 251, 252),
        status_code: field(line, 254, 255),
        mode_s_code: field(line, 257, 264),
        fractional_owner: field(line, 266, 266),
        air_worth_date,
        other_names,
        expiration_date,
        unique_id: field(line, 541, 548),
        kit_mfr: field(line, 550, 579),
        kit_model: field(line, 581, 600),
        mode_s_hex: field(line, 602, 611),
    })
}

/// The quarantine message for a later row that repeats an N-number.
pub open spec fn duplicate_message(n_number: Seq<char>) -> Seq<char> {
    "duplicate N-number "@ + n_number
}

/// `MASTER.txt` parsed row by row: the first row of each N-number is a record; a later
/// row with the same N-number is quarantined as a duplicate, as is any row that does
/// not parse. The third component is the set of N-numbers recorded so far.
pub open spec fn master_fold(lines: Seq<(int, Seq<u8>)>) -> (
    Seq<MasterRecordView>,
    Seq<ParseErrorView>,
    Set<Seq<char>>,
)
    decreases lines.len(),
{
    if lines.len() == 0 {
        (Seq::empty(), Seq::empty(), Set::empty())
    } else {
        let prev = master_fold(lines.drop_last());
        let d = lines.last();
        let quarantine = |e: Seq<char>|
            ParseErrorView { file_name: "MASTER.txt"@, line_number: d.0, raw_line: d.1, error: e };
        match master_row(d.1) {
            Err(e) => (prev.0, prev.1.push(quarantine(e)), prev.2),
            Ok(v) => if prev.2.contains(v.n_number) {
                (prev.0, prev.1.push(quarantine(duplicate_message(v.n_number))), prev.2)
            } else {
                (prev.0.push(v), prev.1, prev.2.insert(v.n_number))
            },
        }
    }
}

/// What `parse_master` gives for a whole `MASTER.txt`.
pub open spec fn master_file(bytes: Seq<u8>) -> ParsedFileView<MasterRecordView> {
    let f = master_fold(file_data_lines(bytes, master_markers()));
    ParsedFileView { records: f.0, errors: f.1 }
}

proof fn lemma_master_fold_keys(lines: Seq<(int, Seq<u8>)>)
    ensures
        forall|n: Seq<char>|
            master_fold(lines).2.contains(n) <==> exists|i: int|
                0 <= i < master_fold(lines).0.len() && #[trigger] master_fold(lines).0[i].n_number
                    == n,
        forall|i: int, j: int|
            0 <= i < j < master_fold(lines).0.len() ==> #[trigger] master_fold(lines).0[i].n_number
                != #[trigger] master_fold(lines).0[j].n_number,
    decreases lines.len(),
{
    if lines.len() > 0 {
        let prev = lines.drop_last();
        lemma_master_fold_keys(prev);
        let p = master_fold(prev);
        let f = master_fold(lines);
        assert forall|n: Seq<char>| f.2.contains(n) <==> exists|i: int|
            0 <= i < f.0.len() && #[trigger] f.0[i].n_number == n by {
            if f.2.contains(n) && !p.2.contains(n) {
                assert(f.0[f.0.len() - 1].n_number == n);
            }
            if p.2.contains(n) {
                let i = choose|i: int| 0 <= i < p.0.len() && #[trigger] p.0[i].n_number == n;
                assert(f.0[i].n_number == n);
            }
            if exists|i: int| 0 <= i < f.0.len() && #[trigger] f.0[i].n_number == n {
                let i = choose|i: int| 0 <= i < f.0.len() && #[trigger] f.0[i].n_number == n;
                if i < p.0.len() {
                    assert(p.0[i].n_number == n);
                }
            }
        }
        assert forall|i: int, j: int| 0 <= i < j < f.0.len() implies #[trigger] f.0[i].n_number
            != #[trigger] f.0[j].n_number by {
            if j == p.0.len() && f.0.len() > p.0.len() {
                assert(p.0[i].n_number == f.0[i].n_number);
            } else {
                assert(p.0[i] == f.0[i] && p.0[j] == f.0[j]);
            }
        }
    }
}

/// No two records of a parsed `MASTER.txt` share an N-number.
pub proof fn lemma_master_n_numbers_distinct(bytes: Seq<u8>)
    ensures
        forall|i: int, j: int|
            0 <= i < j < master_file(bytes).records.len() ==> #[trigger] master_file(
                bytes,
            ).records[i].n_number != #[trigger] master_file(bytes).records[j].n_number,
{
    lemma_master_fold_keys(file_data_lines(bytes, master_markers()));
}

proof fn lemma_master_fold_rows(lines: Seq<(int, Seq<u8>)>)
    ensures
        master_fold(lines).0.len() + master_fold(lines).1.len() == lines.len(),
        forall|i: int|
            0 <= i < master_fold(lines).0.len() ==> (#[trigger] master_fold(lines).0[i]).n_number.len()
                > 0 && master_fold(lines).0[i].n_number[0] == 'N',
    decreases lines.len(),
{
    if lines.len() > 0 {
        let prev = lines.drop_last();
        lemma_master_fold_rows(prev);
        let p = master_fold(prev);
        let f = master_fold(lines);
        let line = lines.last().1;
        crate::lemma_canonical_n_number_shape(field_text(line, 1, 5));
        assert forall|i: int| 0 <= i < f.0.len() implies (#[trigger] f.0[i]).n_number.len() > 0
            && f.0[i].n_number[0] == 'N' by {
            if i < p.0.len() {
                assert(f.0[i] == p.0[i]);
            }
        }
    }
}

/// Every data row of `MASTER.txt` ends up once, as a record or as a quarantined row,
/// and every record's N-number is non-empty and starts with `N`.
pub proof fn lemma_master_rows_accounted(bytes: Seq<u8>)
    ensures
        master_file(bytes).records.len() + master_file(bytes).errors.len() == file_data_lines(
            bytes,
            master_markers(),
        ).len(),
        forall|i: int|
            0 <= i < master_file(bytes).records.len() ==> (#[trigger] master_file(
                bytes,
            ).records[i]).n_number.len() > 0 && master_file(bytes).records[i].n_number[0] == 'N',
{
    lemma_master_fold_rows(file_data_lines(bytes, master_markers()));
}

fn quarantine(line: &[u8], number: usize, error: String) -> (e: ParseError)
    ensures
        e@ == (ParseErrorView {
            file_name: "MASTER.txt"@,
            line_number: number as int,
            raw_line: line@,
            error: error@,
        }),
{
    ParseError {
        file_name: text_of(chars_of("MASTER.txt").as_slice()),
        line_number: number,
        raw_line: slice_to_vec(line),
        error,
    }
}

pub fn parse_master(bytes: &[u8]) -> (r: ParsedFile<MasterRecord>)
    requires
        bytes@.len() <= max_input_len(),
    ensures
        r@ == master_file(bytes@),
{
    let mut markers: Vec<&str> = Vec::new();
    markers.push("N-NUMBER");
    markers.push("N-NUM");
    assert(marker_texts(markers@) =~= master_markers());
    let body = strip_bom(bytes);
    let spans = data_line_spans(body, markers.as_slice());
    let ghost lines = file_data_lines(bytes@, master_markers());
    let mut out: ParsedFile<MasterRecord> = ParsedFile { records: Vec::new(), errors: Vec::new() };
    let mut seen = StringHashSet::new();
    let n = spans.len();
    let mut i: usize = 0;
    while i < n
        invariant
            i <= n == spans@.len() == lines.len(),
            body@ == strip_bom_spec(bytes@),
            bytes@.len() <= max_input_len(),
            lines == file_data_lines(bytes@, master_markers()),
            forall|k: int|
                0 <= k < spans@.len() ==> {
                    &&& (#[trigger] spans@[k]).start <= spans@[k].end <= body@.len()
                    &&& spans@[k].number == lines[k].0
                    &&& body@.subrange(spans@[k].start as int, spans@[k].end as int)
                        == lines[k].1
                },
            out@.records == master_fold(lines.subrange(0, i as int)).0,
            out@.errors == master_fold(lines.subrange(0, i as int)).1,
            seen@ == master_fold(lines.subrange(0, i as int)).2,
        decreases n - i,
    {
        let s = &spans[i];
        let line = &body[s.start..s.end];
        let ghost prefix = lines.subrange(0, i + 1);
        assert(prefix.drop_last() =~= lines.subrange(0, i as int));
        assert(prefix.last().1 == line@);
        let ghost old_records = out.records@;
        let ghost old_errors = out.errors@;
        match parse_row(line) {
            Ok(rec) => {
                if seen.contains(rec.n_number.as_str()) {
                    let mut msg: Vec<char> = Vec::new();
                    push_str(&mut msg, "duplicate N-number ");
                    push_str(&mut msg, rec.n_number.as_str());
                    let e = quarantine(line, s.number, text_of(msg.as_slice()));
                    out.errors.push(e);
                    assert(out.errors@.map_values(|e: ParseError| e@) =~= old_errors.map_values(
                        |e: ParseError| e@,
                    ).push(e@));
                } else {
                    seen.insert(rec.n_number.clone());
                    let ghost rv = rec@;
                    out.records.push(rec);
                    assert(out.records@.map_values(|t: MasterRecord| t@) =~= old_records.map_values(
                        |t: MasterRecord| t@,
                    ).push(rv));
                }
            },
            Err(error) => {
                let e = quarantine(line, s.number, error);
                out.errors.push(e);
                assert(out.errors@.map_values(|e: ParseError| e@) =~= old_errors.map_values(
                    |e: ParseError| e@,
                ).push(e@));
            },
        }
        i = i + 1;
    }
    assert(lines.subrange(0, n as int) =~= lines);
    out
}

/// The columns of a `MASTER.txt` row, by their byte positions: a row parses exactly
/// when it is long enough, its key is present and its dates are valid; each column
/// of the record is the field at its own positions.
pub proof fn lemma_master_row_columns(line: Seq<u8>)
    ensures
        master_row(line) is Ok <==> {
            &&& line.len() >= 57
            &&& canonical_n_number_spec(field_text(line, 1, 5)).len() > 0
            &&& faa_date_spec(field_text(line, 220, 227)) is Ok
            &&& faa_date_spec(field_text(line, 229, 236)) is Ok
            &&& faa_date_spec(field_text(line, 268, 275)) is Ok
            &&& faa_date_spec(field_text(line, 532, 539)) is Ok
        },
        master_row(line) matches Ok(v) ==> {
            &&& v.n_number == canonical_n_number_spec(field_text(line, 1, 5))
            &&& v.serial_number == field_text(line, 7, 36)
            &&& v.mfr_mdl_code == field_text(line, 38, 44)
            &&& v.eng_mfr_mdl == field_text(line, 46, 50)
            &&& v.year_mfr == field_text(line, 52, 55)
            &&& v.type_registrant == field_text(line, 57, 57)
            &&& v.owner_name == field_text(line, 59, 108)
            &&& v.street == field_text(line, 110, 142)
            &&& v.street2 == field_text(line, 144, 176)
            &&& v.city == field_text(line, 178, 195)
            &&& v.state == field_text(line, 197, 198)
            &&& v.zip_code == field_text(line, 200, 209)
            &&& v.region == field_text(line, 211, 211)
            &&& v.county == field_text(line, 213, 215)
            &&& v.country == field_text(line, 217, 218)
            &&& v.certification == field_text(line, 238, 247)
            &&& v.type_aircraft == field_text(line, 249, 249)
            &&& v.type_engine == field_text(line, 251, 252)
            &&& v.status_code == field_text(line, 254, 255)
            &&& v.mode_s_code == field_text(line, 257, 264)
            &&& v.fractional_owner == field_text(line, 266, 266)
            &&& v.unique_id == field_text(line, 541, 548)
            &&& v.kit_mfr == field_text(line, 550, 579)
            &&& v.kit_model == field_text(line, 581, 600)
            &&& v.mode_s_hex == field_text(line, 602, 611)
            &&& faa_date_spec(field_text(line, 220, 227)) == Ok::<Seq<char>, Seq<char>>(
                v.last_action_date,
            )
            &&& faa_date_spec(field_text(line, 229, 236)) == Ok::<Seq<char>, Seq<char>>(
                v.cert_issue_date,
            )
            &&& faa_date_spec(field_text(line, 268, 275)) == Ok::<Seq<char>, Seq<char>>(
                v.air_worth_date,
            )
            &&& faa_date_spec(field_text(line, 532, 539)) == Ok::<Seq<char>, Seq<char>>(
                v.expiration_date,
            )
            &&& v.other_names == joined_names(
                seq![
                    field_text(line, 277, 326),
                    field_text(line, 328, 377),
                    field_text(line, 379, 428),
                    field_text(line, 430, 479),
                    field_text(line, 481, 530),
                ],
            )
        },
{
}

} // verus!
