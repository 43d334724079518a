//! `ACFTREF.txt`: aircraft make/model dictionary.

use vstd::prelude::*;

use crate::dates::{faa_date, faa_date_spec};
use crate::model::{ParsedFile, AircraftRef, AircraftRefView};
use crate::parse::fixed_width::{
    field, field_text, marker_texts, max_input_len, parse_rows, parsed_file, result_view,
    too_short, too_short_message,
};
use crate::text::{chars_of, text_of};
use crate::{canonical_n_number, canonical_n_number_spec};

verus! {

/// `ACFTREF.txt`: shorter rows are quarantined.
pub open spec fn acftref_min_len() -> nat {
    7
}

/// The header markers of `ACFTREF.txt`.
pub open spec fn acftref_markers() -> Seq<Seq<char>> {
    seq!["CODE"@, "MFR"@]
}

/// One `ACFTREF.txt` row: its record, or why it is quarantined.
pub open spec fn acftref_row(line: Seq<u8>) -> Result<AircraftRefView, Seq<char>> {
    if line.len() < acftref_min_len() {
        Err(too_short_message(line.len()))
    } else {
        let code = field_text(line, 1, 7);
        if code.len() == 0 {
            Err("missing manufacturer/model code"@)
        } else {
            Ok(AircraftRefView {
                code,
                mfr: field_text(line, 9, 38),
                model: field_text(line, 40, 59),
                type_aircraft: field_text(line, 61, 61),
                type_engine: field_text(line, 63, 64),
                category: field_text(line, 66, 66),
                builder_cert: field_text(line, 68, 68),
                no_eng: field_text(line, 70, 71),
                no_seats: field_text(line, 73, 75),
                ac_weight: field_text(line, 77, 83),
                speed: field_text(line, 85, 88),
                tc_data_sheet: field_text(line, 90, 105),
                tc_data_holder: field_text(line, 107, 157),
            })
        }
    }
}

pub open spec fn acftref_row_fn() -> spec_fn(Seq<u8>) -> Result<AircraftRefView, Seq<char>> {
    |line: Seq<u8>| acftref_row(line)
}

fn parse_row(line: &[u8]) -> (r: Result<AircraftRef, String>)
    requires
        line@.len() <= max_input_len(),
    ensures
        result_view(r) == acftref_row(line@),
{
    if line.len() < 7 {
        return Err(too_short(line.len()));
    }
    let code = field(line, 1, 7);
    if code.as_str().is_empty() {
        return Err(text_of(chars_of("missing manufacturer/model code").as_slice()));
    }
    Ok(AircraftRef {
        code,
        mfr: field(line, 9, 38),
        model: field(line, 40, 59),
        type_aircraft: field(line, 61, 61),
        type_engine: field(line, 63, 64),
        category: field(line, 66, 66),
        builder_cert: field(line, 68, 68),
        no_eng: field(line, 70, 71),
        no_seats: field(line, 73, 75),
        ac_weight: field(line, 77, 83),
        speed: field(line, 85, 88),
        tc_data_sheet: field(line, 90, 105),
        tc_data_holder: field(line, 107, 157),
    })
}

pub fn parse_acftref(bytes: &[u8]) -> (r: ParsedFile<AircraftRef>)
    requires
        bytes@.len() <= max_input_len(),
    ensures
        r@ == parsed_file(bytes@, "ACFTREF.txt"@, acftref_markers(), acftref_row_fn()),
{
    let mut markers: Vec<&str> = Vec::new();
    markers.push("CODE");
    markers.push("MFR");
    assert(marker_texts(markers@) =~= acftref_markers());
    parse_rows(bytes, "ACFTREF.txt", markers.as_slice(), parse_row, Ghost(acftref_row_fn()))
}

/// The columns of a `ACFTREF.txt` row, by their byte positions: a row parses exactly
/// when it is long enough, its key is present and its dates are valid; each column
/// of the record is the field at its own positions.
pub proof fn lemma_acftref_row_columns(line: Seq<u8>)
    ensures
        acftref_row(line) is Ok <==> {
            &&& line.len() >= 7
            &&& field_text(line, 1, 7).len() > 0
        },
        acftref_row(line) matches Ok(v) ==> {
            &&& v.code == field_text(line, 1, 7)
            &&& v.mfr == field_text(line, 9, 38)
            &&& v.model == field_text(line, 40, 59)
            &&& v.type_aircraft == field_text(line, 61, 61)
            &&& v.type_engine == field_text(line, 63, 64)
            &&& v.category == field_text(line, 66, 66)
            &&& v.builder_cert == field_text(line, 68, 68)
            &&& v.no_eng == field_text(line, 70, 71)
            &&& v.no_seats == field_text(line, 73, 75)
            &&& v.ac_weight == field_text(line, 77, 83)
            &&& v.speed == field_text(line, 85, 88)
            &&& v.tc_data_sheet == field_text(line, 90, 105)
            &&& v.tc_data_holder == field_text(line, 107, 157)
        },
{
}

} // verus!
