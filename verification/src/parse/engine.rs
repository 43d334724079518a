//! `ENGINE.txt`: engine make/model dictionary.

use vstd::prelude::*;

use crate::dates::{faa_date, faa_date_spec};
use crate::model::{ParsedFile, EngineRef, EngineRefView};
use crate::parse::fixed_width::{
    field, field_text, marker_texts, max_input_len, parse_rows, parsed_file, result_view,
    too_short, too_short_message,
};
use crate::text::{chars_of, text_of};
use crate::{canonical_n_number, canonical_n_number_spec};

verus! {

/// `ENGINE.txt`: shorter rows are quarantined.
pub open spec fn engine_min_len() -> nat {
    5
}

/// The header markers of `ENGINE.txt`.
pub open spec fn engine_markers() -> Seq<Seq<char>> {
    seq!["CODE"@]
}

/// One `ENGINE.txt` row: its record, or why it is quarantined.
pub open spec fn engine_row(line: Seq<u8>) -> Result<EngineRefView, Seq<char>> {
    if line.len() < engine_min_len() {
        Err(too_short_message(line.len()))
    } else {
        let code = field_text(line, 1, 5);
        if code.len() == 0 {
            Err("missing engine code"@)
        } else {
            Ok(EngineRefView {
                code,
                mfr: field_text(line, 7, 16),
                model: field_text(line, 18, 30),
                type_engine: field_text(line, 32, 33),
                horsepower: field_text(line, 35, 39),
                thrust: field_text(line, 41, 46),
            })
        }
    }
}

pub open spec fn engine_row_fn() -> spec_fn(Seq<u8>) -> Result<EngineRefView, Seq<char>> {
    |line: Seq<u8>| engine_row(line)
}

fn parse_row(line: &[u8]) -> (r: Result<EngineRef, String>)
    requires
        line@.len() <= max_input_len(),
    ensures
        result_view(r) == engine_row(line@),
{
    if line.len() < 5 {
        return Err(too_short(line.len()));
    }
    let code = field(line, 1, 5);
    if code.as_str().is_empty() {
        return Err(text_of(chars_of("missing engine code").as_slice()));
    }
    Ok(EngineRef {
        code,
        mfr: field(line, 7, 16),
        model: field(line, 18, 30),
        type_engine: field(line, 32, 33),
        horsepower: field(line, 35, 39),
        thrust: field(line, 41, 46),
    })
}

pub fn parse_engine(bytes: &[u8]) -> (r: ParsedFile<EngineRef>)
    requires
        bytes@.len() <= max_input_len(),
    ensures
        r@ == parsed_file(bytes@, "ENGINE.txt"@, engine_markers(), engine_row_fn()),
{
    let mut markers: Vec<&str> = Vec::new();
    markers.push("CODE");
    assert(marker_texts(markers@) =~= engine_markers());
    parse_rows(bytes, "ENGINE.txt", markers.as_slice(), parse_row, Ghost(engine_row_fn()))
}

/// The columns of a `ENGINE.txt` row, by their byte positions: a row parses exactly
/// when it is long enough, its key is present and its dates are valid; each column
/// of the record is the field at its own positions.
pub proof fn lemma_engine_row_columns(line: Seq<u8>)
    ensures
        engine_row(line) is Ok <==> {
            &&& line.len() >= 5
            &&& field_text(line, 1, 5).len() > 0
        },
        engine_row(line) matches Ok(v) ==> {
            &&& v.code == field_text(line, 1, 5)
            &&& v.mfr == field_text(line, 7, 16)
            &&& v.model == field_text(line, 18, 30)
            &&& v.type_engine == field_text(line, 32, 33)
            &&& v.horsepower == field_text(line, 35, 39)
            &&& v.thrust == field_text(line, 41, 46)
        },
{
}

} // verus!
