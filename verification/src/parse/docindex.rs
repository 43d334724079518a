//! `DOCINDEX.txt`: recorded documents (liens, bills of sale, ...).

use vstd::prelude::*;

use crate::dates::{faa_date, faa_date_spec};
use crate::model::{collateral_n_number, ParsedFile, DocumentRecord, DocumentRecordView};
use crate::parse::fixed_width::{
    field, field_text, marker_texts, max_input_len, parse_rows, parsed_file, result_view,
    too_short, too_short_message,
};
use crate::text::{chars_of, text_of};
use crate::{canonical_n_number, canonical_n_number_spec};

verus! {

/// `DOCINDEX.txt`: shorter rows are quarantined.
pub open spec fn docindex_min_len() -> nat {
    90
}

/// The header markers of `DOCINDEX.txt`.
pub open spec fn docindex_markers() -> Seq<Seq<char>> {
    seq!["TYPE"@, "COLLATERAL"@]
}

/// One `DOCINDEX.txt` row: its record, or why it is quarantined.
pub open spec fn docindex_row(line: Seq<u8>) -> Result<DocumentRecordView, Seq<char>> {
    if line.len() < docindex_min_len() {
        Err(too_short_message(line.len()))
    } else {
        let type_collateral = field_text(line, 1, 1);
        let collateral = field_text(line, 3, 39);
        if type_collateral.len() == 0 {
            Err("missing collateral type"@)
        } else {
            let doc_type = if line.len() > 164 {
                field_text(line, 165, line.len() as usize)
            } else {
                Seq::empty()
            };
            match faa_date_spec(field_text(line, 105, 112)) {
                Err(e) => Err(e),
                Ok(receipt_date) => 
                match faa_date_spec(field_text(line, 114, 121)) {
                    Err(e) => Err(e),
                    Ok(processing_date) => 
                    match faa_date_spec(field_text(line, 123, 130)) {
                        Err(e) => Err(e),
                        Ok(correction_date) => 
                        Ok(DocumentRecordView {
                            type_collateral,
                            collateral,
                            n_number: collateral_n_number(type_collateral, collateral),
                            party_name: field_text(line, 41, 90),
                            document_id: field_text(line, 92, 103),
                            receipt_date: receipt_date,
                            processing_date: processing_date,
                            correction_date: correction_date,
                            correction_id: field_text(line, 132, 132),
                            serial_id: field_text(line, 134, 163),
                            doc_type: doc_type,
                        })
                    }
                }
            }
        }
    }
}

pub open spec fn docindex_row_fn() -> spec_fn(Seq<u8>) -> Result<DocumentRecordView, Seq<char>> {
    |line: Seq<u8>| docindex_row(line)
}

fn parse_row(line: &[u8]) -> (r: Result<DocumentRecord, String>)
    requires
        line@.len() <= max_input_len(),
    ensures
        result_view(r) == docindex_row(line@),
{
    if line.len() < 90 {
        return Err(too_short(line.len()));
    }
    let type_collateral = field(line, 1, 1);
    let collateral = field(line, 3, 39);
    if type_collateral.as_str().is_empty() {
        return Err(text_of(chars_of("missing collateral type").as_slice()));
    }
    let n_number = DocumentRecord::n_number_from_collateral(
        type_collateral.as_str(),
        collateral.as_str(),
    );
    let doc_type = if line.len() > 164 {
        field(line, 165, line.len())
    } else {
        String::new()
    };
    let receipt_date = match faa_date(field(line, 105, 112).as_str()) {
        Ok(d) => d,
        Err(e) => return Err(e),
    };
    let processing_date = match faa_date(field(line, 114, 121).as_str()) {
        Ok(d) => d,
        Err(e) => return Err(e),
    };
    let correction_date = match faa_date(field(line, 123, 130).as_str()) {
        Ok(d) => d,
        Err(e) => return Err(e),
    };
    Ok(DocumentRecord {
        type_collateral,
        collateral,
        n_number,
        party_name: field(line, 41, 90),
        document_id: field(line, 92, 103),
        receipt_date,
        processing_date,
        correction_date,
        correction_id: field(line, 132, 132),
        serial_id: field(line, 134, 163),
        doc_type,
    })
}

pub fn parse_docindex(bytes: &[u8]) -> (r: ParsedFile<DocumentRecord>)
    requires
        bytes@.len() <= max_input_len(),
    ensures
        r@ == parsed_file(bytes@, "DOCINDEX.txt"@, docindex_markers(), docindex_row_fn()),
{
    let mut markers: Vec<&str> = Vec::new();
    markers.push("TYPE");
    markers.push("COLLATERAL");
    assert(marker_texts(markers@) =~= docindex_markers());
    parse_rows(bytes, "DOCINDEX.txt", markers.as_slice(), parse_row, Ghost(docindex_row_fn()))
}

/// The columns of a `DOCINDEX.txt` row, by their byte positions: a row parses exactly
/// when it is long enough, its key is present and its dates are valid; each column
/// of the record is the field at its own positions.
pub proof fn lemma_docindex_row_columns(line: Seq<u8>)
    ensures
        docindex_row(line) is Ok <==> {
            &&& line.len() >= 90
            &&& field_text(line, 1, 1).len() > 0
            &&& faa_date_spec(field_text(line, 105, 112)) is Ok
            &&& faa_date_spec(field_text(line, 114, 121)) is Ok
            &&& faa_date_spec(field_text(line, 123, 130)) is Ok
        },
        docindex_row(line) matches Ok(v) ==> {
            &&& v.type_collateral == field_text(line, 1, 1)
            &&& v.collateral == field_text(line, 3, 39)
            &&& v.party_name == field_text(line, 41, 90)
            &&& v.document_id == field_text(line, 92, 103)
            &&& v.correction_id == field_text(line, 132, 132)
            &&& v.serial_id == field_text(line, 134, 163)
            &&& faa_date_spec(field_text(line, 105, 112)) == Ok::<Seq<char>, Seq<char>>(
                v.receipt_date,
            )
            &&& faa_date_spec(field_text(line, 114, 121)) == Ok::<Seq<char>, Seq<char>>(
                v.processing_date,
            )
            &&& faa_date_spec(field_text(line, 123, 130)) == Ok::<Seq<char>, Seq<char>>(
                v.correction_date,
            )
            &&& v.doc_type == (if line.len() > 164 {
                field_text(line, 165, line.len() as usize)
            } else {
                Seq::<char>::empty()
            })
            &&& v.n_number == collateral_n_number(field_text(line, 1, 1), field_text(line, 3, 39))
        },
{
}

} // verus!
