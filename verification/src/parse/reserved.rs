//! `RESERVED.txt`: reserved N-numbers.

use vstd::prelude::*;

use crate::dates::{faa_date, faa_date_spec};
use crate::model::{ParsedFile, ReservedRecord, ReservedRecordView};
use crate::parse::fixed_width::{
    field, field_text, marker_texts, max_input_len, parse_rows, parsed_file, result_view,
    too_short, too_short_message,
};
use crate::text::{chars_of, text_of};
use crate::{canonical_n_number, canonical_n_number_spec};

verus! {

/// `RESERVED.txt`: shorter rows are quarantined.
pub open spec fn reserved_min_len() -> nat {
    5
}

/// The header markers of `RESERVED.txt`.
pub open spec fn reserved_markers() -> Seq<Seq<char>> {
    seq!["N-NUMBER"@, "N-NUM"@]
}

/// One `RESERVED.txt` row: its record, or why it is quarantined.
pub open spec fn reserved_row(line: Seq<u8>) -> Result<ReservedRecordView, Seq<char>> {
    if line.len() < reserved_min_len() {
        Err(too_short_message(line.len()))
    } else {
        let n_number = canonical_n_number_spec(field_text(line, 1, 5));
        if n_number.len() == 0 {
            Err("missing N-number"@)
        } else {
            let change = field_text(line, 180, 184);
            let n_number_for_change = if change.len() == 0 {
                Seq::empty()
            } else {
                canonical_n_number_spec(change)
            };
            match faa_date_spec(field_text(line, 159, 166)) {
                Err(e) => Err(e),
                Ok(reserve_date) => 
                match faa_date_spec(field_text(line, 171, 178)) {
                    Err(e) => Err(e),
                    Ok(expiration_notice_date) => 
                    match faa_date_spec(field_text(line, 186, 193)) {
                        Err(e) => Err(e),
                        Ok(purge_date) => 
                        Ok(ReservedRecordView {
                            n_number,
                            registrant: field_text(line, 7, 56),
                            street: field_text(line, 58, 90),
                            street2: field_text(line, 92, 124),
                            city: field_text(line, 126, 143),
                            state: field_text(line, 145, 146),
                            zip_code: field_text(line, 148, 157),
                            reserve_date: reserve_date,
                            type_reservation: field_text(line, 168, 169),
                            expiration_notice_date: expiration_notice_date,
                            n_number_for_change: n_number_for_change,
                            purge_date: purge_date,
                        })
                    }
                }
            }
        }
    }
}

pub open spec fn reserved_row_fn() -> spec_fn(Seq<u8>) -> Result<ReservedRecordView, Seq<char>> {
    |line: Seq<u8>| reserved_row(line)
}

fn parse_row(line: &[u8]) -> (r: Result<ReservedRecord, String>)
    requires
        line@.len() <= max_input_len(),
    ensures
        result_view(r) == reserved_row(line@),
{
    if line.len() < 5 {
        return Err(too_short(line.len()));
    }
    let n_number = canonical_n_number(field(line, 1, 5).as_str());
    if n_number.as_str().is_empty() {
        return Err(text_of(chars_of("missing N-number").as_slice()));
    }
    let change = field(line, 180, 184);
    let n_number_for_change = if change.as_str().is_empty() {
        String::new()
    } else {
        canonical_n_number(change.as_str())
    };
    let reserve_date = match faa_date(field(line, 159, 166).as_str()) {
        Ok(d) => d,
        Err(e) => return Err(e),
    };
    let expiration_notice_date = match faa_date(field(line, 171, 178).as_str()) {
        Ok(d) => d,
        Err(e) => return Err(e),
    };
    let purge_date = match faa_date(field(line, 186, 193).as_str()) {
        Ok(d) => d,
        Err(e) => return Err(e),
    };
    Ok(ReservedRecord {
        n_number,
        registrant: field(line, 7, 56),
        street: field(line, 58, 90),
        street2: field(line, 92, 124),
        city: field(line, 126, 143),
        state: field(line, 145, 146),
        zip_code: field(line, 148, 157),
        reserve_date,
        type_reservation: field(line, 168, 169),
        expiration_notice_date,
        n_number_for_change,
        purge_date,
    })
}

pub fn parse_reserved(bytes: &[u8]) -> (r: ParsedFile<ReservedRecord>)
    requires
        bytes@.len() <= max_input_len(),
    ensures
        r@ == parsed_file(bytes@, "RESERVED.txt"@, reserved_markers(), reserved_row_fn()),
{
    let mut markers: Vec<&str> = Vec::new();
    markers.push("N-NUMBER");
    markers.push("N-NUM");
    assert(marker_texts(markers@) =~= reserved_markers());
    parse_rows(bytes, "RESERVED.txt", markers.as_slice(), parse_row, Ghost(reserved_row_fn()))
}

/// The columns of a `RESERVED.txt` row, by their byte positions: a row parses exactly
/// when it is long enough, its key is present and its dates are valid; each column
/// of the record is the field at its own positions.
pub proof fn lemma_reserved_row_columns(line: Seq<u8>)
    ensures
        reserved_row(line) is Ok <==> {
            &&& line.len() >= 5
            &&& canonical_n_number_spec(field_text(line, 1, 5)).len() > 0
            &&& faa_date_spec(field_text(line, 159, 166)) is Ok
            &&& faa_date_spec(field_text(line, 171, 178)) is Ok
            &&& faa_date_spec(field_text(line, 186, 193)) is Ok
        },
        reserved_row(line) matches Ok(v) ==> {
            &&& v.n_number == canonical_n_number_spec(field_text(line, 1, 5))
            &&& v.registrant == field_text(line, 7, 56)
            &&& v.street == field_text(line, 58, 90)
            &&& v.street2 == field_text(line, 92, 124)
            &&& v.city == field_text(line, 126, 143)
            &&& v.state == field_text(line, 145, 146)
            &&& v.zip_code == field_text(line, 148, 157)
            &&& v.type_reservation == field_text(line, 168, 169)
            &&& faa_date_spec(field_text(line, 159, 166)) == Ok::<Seq<char>, Seq<char>>(
                v.reserve_date,
            )
            &&& faa_date_spec(field_text(line, 171, 178)) == Ok::<Seq<char>, Seq<char>>(
                v.expiration_notice_date,
            )
            &&& faa_date_spec(field_text(line, 186, 193)) == Ok::<Seq<char>, Seq<char>>(
                v.purge_date,
            )
            &&& v.n_number_for_change == (if field_text(line, 180, 184).len() == 0 {
                Seq::<char>::empty()
            } else {
                canonical_n_number_spec(field_text(line, 180, 184))
            })
        },
{
}

} // verus!
