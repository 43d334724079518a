//! `DEALER.txt`: dealer certificates.

use vstd::prelude::*;

use crate::dates::{faa_date, faa_date_spec};
use crate::model::{join_other_names, joined_names, ParsedFile, DealerRecord, DealerRecordView};
use crate::parse::fixed_width::{
    field, field_text, marker_texts, max_input_len, parse_rows, parsed_file, result_view,
    too_short, too_short_message,
};
use crate::text::{chars_of, text_of};
use crate::{canonical_n_number, canonical_n_number_spec};

verus! {

/// The 25 co-owner name fields of a `DEALER.txt` row, at 191..=240, 242..=291, and so on.
pub open spec fn dealer_name_fields(line: Seq<u8>) -> Seq<Seq<char>> {
    Seq::new(25, |i: int| field_text(line, (191 + 51 * i) as usize, (240 + 51 * i) as usize))
}

pub open spec fn dealer_other_names(line: Seq<u8>) -> Seq<char> {
    joined_names(dealer_name_fields(line))
}

fn dealer_names(line: &[u8]) -> (r: String)
    requires
        line@.len() <= max_input_len(),
    ensures
        r@ == dealer_other_names(line@),
{
    let mut names: Vec<String> = Vec::with_capacity(25);
    let mut i: usize = 0;
    while i < 25
        invariant
            i <= 25,
            line@.len() <= max_input_len(),
            names@.map_values(|s: String| s@) =~= dealer_name_fields(line@).subrange(0, i as int),
        decreases 25 - i,
    {
        let start = 191 + i * 51;
        let ghost old_names = names@;
        let name = field(line, start, start + 50 - 1);
        assert(name@ == dealer_name_fields(line@)[i as int]);
        names.push(name);
        assert(names@.map_values(|s: String| s@) =~= old_names.map_values(|s: String| s@).push(
            name@,
        ));
        assert(dealer_name_fields(line@).subrange(0, i + 1) =~= dealer_name_fields(line@).subrange(
            0,
            i as int,
        ).push(name@));
        i = i + 1;
    }
    assert(dealer_name_fields(line@).subrange(0, 25) =~= dealer_name_fields(line@));
    join_other_names(names.as_slice())
}

/// `DEALER.txt`: shorter rows are quarantined.
pub open spec fn dealer_min_len() -> nat {
    7
}

/// The header markers of `DEALER.txt`.
pub open spec fn dealer_markers() -> Seq<Seq<char>> {
    seq!["CERTIFICATE"@, "CERT"@]
}

/// One `DEALER.txt` row: its record, or why it is quarantined.
pub open spec fn dealer_row(line: Seq<u8>) -> Result<DealerRecordView, Seq<char>> {
    if line.len() < dealer_min_len() {
        Err(too_short_message(line.len()))
    } else {
        let certificate_number = field_text(line, 1, 7);
        if certificate_number.len() == 0 {
            Err("missing certificate number"@)
        } else {
            match faa_date_spec(field_text(line, 11, 18)) {
                Err(e) => Err(e),
                Ok(certificate_issue_date) => 
                match faa_date_spec(field_text(line, 20, 27)) {
                    Err(e) => Err(e),
                    Ok(expiration_date) => 
                    Ok(DealerRecordView {
                        certificate_number,
                        ownership: field_text(line, 9, 9),
                        certificate_issue_date: certificate_issue_date,
                        expiration_date: expiration_date,
                        expiration_flag: field_text(line, 29, 29),
                        cumulative_issue_count: field_text(line, 31, 34),
                        name: field_text(line, 36, 85),
                        street: field_text(line, 87, 119),
                        street2: field_text(line, 121, 153),
                        city: field_text(line, 155, 172),
                        state: field_text(line, 174, 175),
                        zip_code: field_text(line, 177, 186),
                        other_names: dealer_other_names(line),
                    })
                }
            }
        }
    }
}

pub open spec fn dealer_row_fn() -> spec_fn(Seq<u8>) -> Result<DealerRecordView, Seq<char>> {
    |line: Seq<u8>| dealer_row(line)
}

fn parse_row(line: &[u8]) -> (r: Result<DealerRecord, String>)
    requires
        line@.len() <= max_input_len(),
    ensures
        result_view(r) == dealer_row(line@),
{
    if line.len() < 7 {
        return Err(too_short(line.len()));
    }
    let certificate_number = field(line, 1, 7);
    if certificate_number.as_str().is_empty() {
        return Err(text_of(chars_of("missing certificate number").as_slice()));
    }
    let other_names = dealer_names(line);
    let certificate_issue_date = match faa_date(field(line, 11, 18).as_str()) {
        Ok(d) => d,
        Err(e) => return Err(e),
    };
    let expiration_date = match faa_date(field(line, 20, 27).as_str()) {
        Ok(d) => d,
        Err(e) => return Err(e),
    };
    Ok(DealerRecord {
        certificate_number,
        ownership: field(line, 9, 9),
        certificate_issue_date,
        expiration_date,
        expiration_flag: field(line, 29, 29),
        cumulative_issue_count: field(line, 31, 34),
        name: field(line, 36, 85),
        street: field(line, 87, 119),
        street2: field(line, 121, 153),
        city: field(line, 155, 172),
        state: field(line, 174, 175),
        zip_code: field(line, 177, 186),
        other_names,
    })
}

pub fn parse_dealer(bytes: &[u8]) -> (r: ParsedFile<DealerRecord>)
    requires
        bytes@.len() <= max_input_len(),
    ensures
        r@ == parsed_file(bytes@, "DEALER.txt"@, dealer_markers(), dealer_row_fn()),
{
    let mut markers: Vec<&str> = Vec::new();
    markers.push("CERTIFICATE");
    markers.push("CERT");
    assert(marker_texts(markers@) =~= dealer_markers());
    parse_rows(bytes, "DEALER.txt", markers.as_slice(), parse_row, Ghost(dealer_row_fn()))
}

/// The columns of a `DEALER.txt` row, by their byte positions: a row parses exactly
/// when it is long enough, its key is present and its dates are valid; each column
/// of the record is the field at its own positions.
pub proof fn lemma_dealer_row_columns(line: Seq<u8>)
    ensures
        dealer_row(line) is Ok <==> {
            &&& line.len() >= 7
            &&& field_text(line, 1, 7).len() > 0
            &&& faa_date_spec(field_text(line, 11, 18)) is Ok
            &&& faa_date_spec(field_text(line, 20, 27)) is Ok
        },
        dealer_row(line) matches Ok(v) ==> {
            &&& v.certificate_number == field_text(line, 1, 7)
            &&& v.ownership == field_text(line, 9, 9)
            &&& v.expiration_flag == field_text(line, 29, 29)
            &&& v.cumulative_issue_count == field_text(line, 31, 34)
            &&& v.name == field_text(line, 36, 85)
            &&& v.street == field_text(line, 87, 119)
            &&& v.street2 == field_text(line, 121, 153)
            &&& v.city == field_text(line, 155, 172)
            &&& v.state == field_text(line, 174, 175)
            &&& v.zip_code == field_text(line, 177, 186)
            &&& faa_date_spec(field_text(line, 11, 18)) == Ok::<Seq<char>, Seq<char>>(
                v.certificate_issue_date,
            )
            &&& faa_date_spec(field_text(line, 20, 27)) == Ok::<Seq<char>, Seq<char>>(
                v.expiration_date,
            )
            &&& v.other_names == joined_names(
                Seq::new(
                    25,
                    |i: int| field_text(line, (191 + 51 * i) as usize, (240 + 51 * i) as usize),
                ),
            )
        },
{
}

} // verus!
