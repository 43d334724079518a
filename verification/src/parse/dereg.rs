//! `DEREG.txt`: deregistered aircraft.

use vstd::prelude::*;

use crate::dates::{faa_date, faa_date_spec};
use crate::model::{join_other_names, joined_names, ParsedFile, DeregRecord, DeregRecordView};
use crate::parse::fixed_width::{
    field, field_text, marker_texts, max_input_len, parse_rows, parsed_file, result_view,
    too_short, too_short_message,
};
use crate::text::{chars_of, text_of};
use crate::{canonical_n_number, canonical_n_number_spec};

verus! {

/// `DEREG.txt`: shorter rows are quarantined.
pub open spec fn dereg_min_len() -> nat {
    48
}

/// The header markers of `DEREG.txt`.
pub open spec fn dereg_markers() -> Seq<Seq<char>> {
    seq!["N-NUMBER"@, "N-NUM"@]
}

/// One `DEREG.txt` row: its record, or why it is quarantined.
pub open spec fn dereg_row(line: Seq<u8>) -> Result<DeregRecordView, Seq<char>> {
    if line.len() < dereg_min_len() {
        Err(too_short_message(line.len()))
    } else {
        let n_number = canonical_n_number_spec(field_text(line, 1, 5));
        if n_number.len() == 0 {
            Err("missing N-number"@)
        } else {
            let other_names = joined_names(seq![
                field_text(line, 406, 455),
                field_text(line, 457, 506),
                field_text(line, 508, 557),
                field_text(line, 559, 608),
                field_text(line, 610, 659),
            ]);
            match faa_date_spec(field_text(line, 232, 239)) {
                Err(e) => Err(e),
                Ok(air_worth_date) => 
                match faa_date_spec(field_text(line, 241, 248)) {
                    Err(e) => Err(e),
                    Ok(cancel_date) => 
                    match faa_date_spec(field_text(line, 280, 287)) {
                        Err(e) => Err(e),
                        Ok(last_action_date) => 
                        match faa_date_spec(field_text(line, 289, 296)) {
                            Err(e) => Err(e),
                            Ok(cert_issue_date) => 
                            Ok(DeregRecordView {
                                n_number,
                                serial_number: field_text(line, 7, 36),
                                mfr_mdl_code: field_text(line, 38, 44),
                                status_code: field_text(line, 46, 47),
                                owner_name: field_text(line, 49, 98),
                                street: field_text(line, 100, 132),
                                street2: field_text(line, 134, 166),
                                city: field_text(line, 168, 185),
                                state: field_text(line, 187, 188),
                                zip_code: field_text(line, 190, 199),
                                eng_mfr_mdl: field_text(line, 201, 205),
                                year_mfr: field_text(line, 207, 210),
                                certification: field_text(line, 212, 221),
                                region: field_text(line, 223, 223),
                                county: field_text(line, 225, 227),
                                country: field_text(line, 229, 230),
                                air_worth_date: air_worth_date,
                                cancel_date: cancel_date,
                                mode_s_code: field_text(line, 250, 257),
                                type_registrant: field_text(line, 259, 259),
                                export_country: field_text(line, 261, 278),
                                last_action_date: last_action_date,
                                cert_issue_date: cert_issue_date,
                                physical_street: field_text(line, 298, 330),
                                physical_street2: field_text(line, 332, 364),
                                physical_city: field_text(line, 366, 383),
                                physical_state: field_text(line, 385, 386),
                                physical_zip: field_text(line, 388, 397),
                                physical_county: field_text(line, 399, 401),
                                physical_country: field_text(line, 403, 404),
                                other_names: other_names,
                                kit_mfr: field_text(line, 661, 690),
                                kit_model: field_text(line, 692, 711),
                                mode_s_hex: field_text(line, 712, 721),
                            })
                        }
                    }
                }
            }
        }
    }
}

pub open spec fn dereg_row_fn() -> spec_fn(Seq<u8>) -> Result<DeregRecordView, Seq<char>> {
    |line: Seq<u8>| dereg_row(line)
}

fn parse_row(line: &[u8]) -> (r: Result<DeregRecord, String>)
    requires
        line@.len() <= max_input_len(),
    ensures
        result_view(r) == dereg_row(line@),
{
    if line.len() < 48 {
        return Err(too_short(line.len()));
    }
    let n_number = canonical_n_number(field(line, 1, 5).as_str());
    if n_number.as_str().is_empty() {
        return Err(text_of(chars_of("missing N-number").as_slice()));
    }
    let mut names: Vec<String> = Vec::new();
    names.push(field(line, 406, 455));
    names.push(field(line, 457, 506));
    names.push(field(line, 508, 557));
    names.push(field(line, 559, 608));
    names.push(field(line, 610, 659));
    assert(names@.map_values(|s: String| s@) =~= seq![
        field_text(line@, 406, 455),
        field_text(line@, 457, 506),
        field_text(line@, 508, 557),
        field_text(line@, 559, 608),
        field_text(line@, 610, 659),
    ]);
    let other_names = join_other_names(names.as_slice());
    let air_worth_date = match faa_date(field(line, 232, 239).as_str()) {
        Ok(d) => d,
        Err(e) => return Err(e),
    };
    let cancel_date = match faa_date(field(line, 241, 248).as_str()) {
        Ok(d) => d,
        Err(e) => return Err(e),
    };
    let last_action_date = match faa_date(field(line, 280, 287).as_str()) {
        Ok(d) => d,
        Err(e) => return Err(e),
    };
    let cert_issue_date = match faa_date(field(line, 289, 296).as_str()) {
        Ok(d) => d,
        Err(e) => return Err(e),
    };
    Ok(DeregRecord {
        n_number,
        serial_number: field(line, 7, 36),
        mfr_mdl_code: field(line, 38, 44),
        status_code: field(line, 46, 47),
        owner_name: field(line, 49, 98),
        street: field(line, 100, 132),
        street2: field(line, 134, 166),
        city: field(line, 168, 185),
        state: field(line, 187, 188),
        zip_code: field(line, 190, 199),
        eng_mfr_mdl: field(line, 201, 205),
        year_mfr: field(line, 207, 210),
        certification: field(line, 212, 221),
        region: field(line, 223, 223),
        county: field(line, 225, 227),
        country: field(line, 229, 230),
        air_worth_date,
        cancel_date,
        mode_s_code: field(line, 250, 257),
        type_registrant: field(line, 259, 259),
        export_country: field(line, 261, 278),
        last_action_date,
        cert_issue_date,
        physical_street: field(line, 298, 330),
        physical_street2: field(line, 332, 364),
        physical_city: field(line, 366, 383),
        physical_state: field(line, 385, 386),
        physical_zip: field(line, 388, 397),
        physical_county: field(line, 399, 401),
        physical_country: field(line, 403, 404),
        other_names,
        kit_mfr: field(line, 661, 690),
        kit_model: field(line, 692, 711),
        mode_s_hex: field(line, 712, 721),
    })
}

pub fn parse_dereg(bytes: &[u8]) -> (r: ParsedFile<DeregRecord>)
    requires
        bytes@.len() <= max_input_len(),
    ensures
        r@ == parsed_file(bytes@, "DEREG.txt"@, dereg_markers(), dereg_row_fn()),
{
    let mut markers: Vec<&str> = Vec::new();
    markers.push("N-NUMBER");
    markers.push("N-NUM");
    assert(marker_texts(markers@) =~= dereg_markers());
    parse_rows(bytes, "DEREG.txt", markers.as_slice(), parse_row, Ghost(dereg_row_fn()))
}

/// The columns of a `DEREG.txt` row, by their byte positions: a row parses exactly
/// when it is long enough, its key is present and its dates are valid; each column
/// of the record is the field at its own positions.
pub proof fn lemma_dereg_row_columns(line: Seq<u8>)
    ensures
        dereg_row(line) is Ok <==> {
            &&& line.len() >= 48
            &&& canonical_n_number_spec(field_text(line, 1, 5)).len() > 0
            &&& faa_date_spec(field_text(line, 232, 239)) is Ok
            &&& faa_date_spec(field_text(line, 241, 248)) is Ok
            &&& faa_date_spec(field_text(line, 280, 287)) is Ok
            &&& faa_date_spec(field_text(line, 289, 296)) is Ok
        },
        dereg_row(line) matches Ok(v) ==> {
            &&& v.n_number == canonical_n_number_spec(field_text(line, 1, 5))
            &&& v.serial_number == field_text(line, 7, 36)
            &&& v.mfr_mdl_code == field_text(line, 38, 44)
            &&& v.status_code == field_text(line, 46, 47)
            &&& v.owner_name == field_text(line, 49, 98)
            &&& v.street == field_text(line, 100, 132)
            &&& v.street2 == field_text(line, 134, 166)
            &&& v.city == field_text(line, 168, 185)
            &&& v.state == field_text(line, 187, 188)
            &&& v.zip_code == field_text(line, 190, 199)
            &&& v.eng_mfr_mdl == field_text(line, 201, 205)
            &&& v.year_mfr == field_text(line, 207, 210)
            &&& v.certification == field_text(line, 212, 221)
            &&& v.region == field_text(line, 223, 223)
            &&& v.county == field_text(line, 225, 227)
            &&& v.country == field_text(line, 229, 230)
            &&& v.mode_s_code == field_text(line, 250, 257)
            &&& v.type_registrant == field_text(line, 259, 259)
            &&& v.export_country == field_text(line, 261, 278)
            &&& v.physical_street == field_text(line, 298, 330)
            &&& v.physical_street2 == field_text(line, 332, 364)
            &&& v.physical_city == field_text(line, 366, 383)
            &&& v.physical_state == field_text(line, 385, 386)
            &&& v.physical_zip == field_text(line, 388, 397)
            &&& v.physical_county == field_text(line, 399, 401)
            &&& v.physical_country == field_text(line, 403, 404)
            &&& v.kit_mfr == field_text(line, 661, 690)
            &&& v.kit_model == field_text(line, 692, 711)
            &&& v.mode_s_hex == field_text(line, 712, 721)
            &&& faa_date_spec(field_text(line, 232, 239)) == Ok::<Seq<char>, Seq<char>>(
                v.air_worth_date,
            )
            &&& faa_date_spec(field_text(line, 241, 248)) == Ok::<Seq<char>, Seq<char>>(
                v.cancel_date,
            )
            &&& faa_date_spec(field_text(line, 280, 287)) == Ok::<Seq<char>, Seq<char>>(
                v.last_action_date,
            )
            &&& faa_date_spec(field_text(line, 289, 296)) == Ok::<Seq<char>, Seq<char>>(
                v.cert_issue_date,
            )
            &&& v.other_names == joined_names(
                seq![
                    field_text(line, 406, 455),
                    field_text(line, 457, 506),
                    field_text(line, 508, 557),
                    field_text(line, 559, 608),
                    field_text(line, 610, 659),
                ],
            )
        },
{
}

} // verus!
