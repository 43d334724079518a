use faa_registry_mirror::parse::fixed_width::{padded_record, write_field};
use faa_registry_mirror::parse::{
    parse_acftref, parse_dealer, parse_dereg, parse_docindex, parse_engine, parse_master,
    parse_reserved,
};

fn fixture_master(n: &str, owner: &str, serial: &str, state: &str) -> Vec<u8> {
    let mut buf = padded_record(612);
    write_field(&mut buf, 1, n);
    write_field(&mut buf, 7, serial);
    write_field(&mut buf, 38, "2072703");
    write_field(&mut buf, 46, "41530");
    write_field(&mut buf, 52, "1998");
    write_field(&mut buf, 57, "3");
    write_field(&mut buf, 59, owner);
    write_field(&mut buf, 110, "123 MAIN ST");
    write_field(&mut buf, 178, "DENVER");
    write_field(&mut buf, 197, state);
    write_field(&mut buf, 200, "80202");
    write_field(&mut buf, 217, "US");
    write_field(&mut buf, 249, "4");
    write_field(&mut buf, 251, "1");
    write_field(&mut buf, 254, "V");
    write_field(&mut buf, 602, "A00B1C");
    buf
}

fn fixture_acftref(code: &str, mfr: &str, model: &str) -> Vec<u8> {
    let mut buf = padded_record(158);
    write_field(&mut buf, 1, code);
    write_field(&mut buf, 9, mfr);
    write_field(&mut buf, 40, model);
    write_field(&mut buf, 61, "4");
    write_field(&mut buf, 63, "1");
    write_field(&mut buf, 73, "4");
    buf
}

fn fixture_engine(code: &str, mfr: &str, model: &str) -> Vec<u8> {
    let mut buf = padded_record(47);
    write_field(&mut buf, 1, code);
    write_field(&mut buf, 7, mfr);
    write_field(&mut buf, 18, model);
    write_field(&mut buf, 32, "1");
    write_field(&mut buf, 35, "180");
    buf
}

fn fixture_dereg(n: &str, owner: &str, cancel: &str) -> Vec<u8> {
    let mut buf = padded_record(723);
    write_field(&mut buf, 1, n);
    write_field(&mut buf, 7, "SN-DREG");
    write_field(&mut buf, 38, "2072703");
    write_field(&mut buf, 46, "6");
    write_field(&mut buf, 49, owner);
    write_field(&mut buf, 241, cancel);
    write_field(&mut buf, 261, "CANADA");
    write_field(&mut buf, 712, "A0DEAD");
    buf
}

fn fixture_dealer(cert: &str, name: &str, other: &str) -> Vec<u8> {
    let mut buf = padded_record(1465);
    write_field(&mut buf, 1, cert);
    write_field(&mut buf, 9, "7");
    write_field(&mut buf, 11, "20230101");
    write_field(&mut buf, 20, "20251231");
    write_field(&mut buf, 31, "0003");
    write_field(&mut buf, 36, name);
    write_field(&mut buf, 87, "100 DEALER RD");
    write_field(&mut buf, 155, "WICHITA");
    write_field(&mut buf, 174, "KS");
    write_field(&mut buf, 177, "67210");
    write_field(&mut buf, 191, other);
    buf
}

fn fixture_docindex(n: &str, party: &str, doc_id: &str, doc_type: &str) -> Vec<u8> {
    let mut buf = padded_record(180);
    write_field(&mut buf, 1, "1");
    write_field(&mut buf, 3, n);
    write_field(&mut buf, 41, party);
    write_field(&mut buf, 92, doc_id);
    write_field(&mut buf, 105, "20240601");
    write_field(&mut buf, 165, doc_type);
    buf
}

fn fixture_reserved(n: &str, registrant: &str, kind: &str) -> Vec<u8> {
    let mut buf = padded_record(194);
    write_field(&mut buf, 1, n);
    write_field(&mut buf, 7, registrant);
    write_field(&mut buf, 58, "1 META WAY");
    write_field(&mut buf, 126, "MENLO PARK");
    write_field(&mut buf, 145, "CA");
    write_field(&mut buf, 148, "94025");
    write_field(&mut buf, 159, "20240115");
    write_field(&mut buf, 168, kind);
    write_field(&mut buf, 171, "20260115");
    write_field(&mut buf, 180, "99ABC");
    write_field(&mut buf, 186, "20270305");
    buf
}

#[test]
fn parses_owner_and_n_number() {
    let line = fixture_master("12345", "BANK OF UTAH TRUSTEE", "17281234", "CO");
    let parsed = parse_master(&line);
    assert!(parsed.errors.is_empty());
    assert_eq!(parsed.records.len(), 1);
    let rec = &parsed.records[0];
    assert_eq!(rec.n_number, "N12345");
    assert_eq!(rec.owner_name, "BANK OF UTAH TRUSTEE");
    assert_eq!(rec.serial_number, "17281234");
    assert_eq!(rec.state, "CO");
    assert_eq!(rec.mfr_mdl_code, "2072703");
    assert_eq!(rec.status_code, "V");
    assert_eq!(rec.mode_s_hex, "A00B1C");
}

#[test]
fn master_skips_header_and_quarantines_short_rows() {
    let mut data = b"N-NUMBER,SERIAL NUMBER,MFR\n".to_vec();
    data.extend(fixture_master("99ABC", "SMITH JOHN", "SN1", "TX"));
    data.push(b'\n');
    data.extend(b"xx\n");
    let parsed = parse_master(&data);
    assert_eq!(parsed.records.len(), 1);
    assert_eq!(parsed.records[0].n_number, "N99ABC");
    assert_eq!(parsed.errors.len(), 1);
    assert!(parsed.errors[0].error.contains("too short"));
}

#[test]
fn skips_utf8_bom_and_header() {
    let mut data = b"\xef\xbb\xbfN-NUMBER,SERIAL NUMBER,MFR\n".to_vec();
    data.extend(fixture_master("100", "BENE MARY D", "5334", "OK"));
    data.push(b'\n');
    let parsed = parse_master(&data);
    assert_eq!(parsed.records.len(), 1);
    assert_eq!(parsed.records[0].n_number, "N100");
    assert_eq!(parsed.records[0].owner_name, "BENE MARY D");
}

#[test]
fn garbage_date_quarantines_row() {
    let mut buf = fixture_master("12345", "BANK OF UTAH TRUSTEE", "SN1", "CO");
    write_field(&mut buf, 229, "XXXXXXXX");
    let parsed = parse_master(&buf);
    assert!(parsed.records.is_empty());
    assert_eq!(parsed.errors.len(), 1);
    assert!(parsed.errors[0].error.contains("invalid FAA date"));
}

#[test]
fn owner_comma_does_not_shift_fields() {
    let line = fixture_master("4411", "SMITH, JOHN A", "SN9", "FL");
    let rec = &parse_master(&line).records[0];
    assert_eq!(rec.owner_name, "SMITH, JOHN A");
    assert_eq!(rec.city, "DENVER");
    assert_eq!(rec.state, "FL");
}

#[test]
fn master_missing_n_number_and_other_names() {
    let mut buf = fixture_master("     ", "X", "SN1", "CO");
    let parsed = parse_master(&buf);
    assert_eq!(parsed.errors.len(), 1);
    assert_eq!(parsed.errors[0].error, "missing N-number");
    assert_eq!(parsed.errors[0].line_number, 1);
    buf = fixture_master("12345", "X", "SN1", "CO");
    write_field(&mut buf, 277, "  CO OWNER ONE");
    write_field(&mut buf, 379, "CO OWNER TWO");
    write_field(&mut buf, 220, "20230718");
    let rec = &parse_master(&buf).records[0];
    assert_eq!(rec.other_names, "CO OWNER ONE|CO OWNER TWO");
    assert_eq!(rec.last_action_date, "2023-07-18");
    assert_eq!(rec.cert_issue_date, "");
}

#[test]
fn parses_make_model() {
    let parsed = parse_acftref(&fixture_acftref("2072703", "CESSNA", "172S"));
    assert_eq!(parsed.records.len(), 1);
    assert_eq!(parsed.records[0].mfr, "CESSNA");
    assert_eq!(parsed.records[0].model, "172S");
    assert_eq!(parsed.records[0].type_aircraft, "4");
}

#[test]
fn acftref_header_and_missing_code() {
    let mut data = b"CODE,MFR,MODEL\n".to_vec();
    data.extend(fixture_acftref("       ", "CESSNA", "172S"));
    let parsed = parse_acftref(&data);
    assert!(parsed.records.is_empty());
    assert_eq!(parsed.errors[0].error, "missing manufacturer/model code");
    assert_eq!(parsed.errors[0].line_number, 2);
    assert_eq!(parsed.errors[0].file_name, "ACFTREF.txt");
}

#[test]
fn parses_certificate_and_other_names() {
    let parsed = parse_dealer(&fixture_dealer("26-0001", "CESSNA AIRCRAFT CO", "TEXTRON AVIATION"));
    assert!(parsed.errors.is_empty());
    let rec = &parsed.records[0];
    assert_eq!(rec.certificate_number, "26-0001");
    assert_eq!(rec.ownership, "7");
    assert_eq!(rec.certificate_issue_date, "2023-01-01");
    assert_eq!(rec.expiration_date, "2025-12-31");
    assert_eq!(rec.name, "CESSNA AIRCRAFT CO");
    assert_eq!(rec.city, "WICHITA");
    assert_eq!(rec.other_names, "TEXTRON AVIATION");
}

#[test]
fn name_comma_does_not_shift_fields() {
    let parsed = parse_dealer(&fixture_dealer("26-0002", "SMITH, JANE LLC", ""));
    let rec = &parsed.records[0];
    assert_eq!(rec.name, "SMITH, JANE LLC");
    assert_eq!(rec.state, "KS");
}

#[test]
fn dealer_joins_later_other_names() {
    let mut buf = fixture_dealer("26-0003", "DEALER", "FIRST");
    write_field(&mut buf, 191 + 51 * 24, "LAST");
    let rec = &parse_dealer(&buf).records[0];
    assert_eq!(rec.other_names, "FIRST|LAST");
}

#[test]
fn parses_cancel_and_export() {
    let parsed = parse_dereg(&fixture_dereg("55555", "OLD OWNER LLC", "20240115"));
    assert_eq!(parsed.records.len(), 1);
    let rec = &parsed.records[0];
    assert_eq!(rec.n_number, "N55555");
    assert_eq!(rec.owner_name, "OLD OWNER LLC");
    assert_eq!(rec.cancel_date, "2024-01-15");
    assert_eq!(rec.export_country, "CANADA");
    assert_eq!(rec.status_code, "6");
}

#[test]
fn extracts_n_number_and_trailing_doc_type() {
    let parsed = parse_docindex(&fixture_docindex(
        "12345",
        "BANK, N.A.",
        "DOC000111222",
        "SECURITY",
    ));
    assert_eq!(parsed.records.len(), 1);
    let rec = &parsed.records[0];
    assert_eq!(rec.n_number, "N12345");
    assert_eq!(rec.party_name, "BANK, N.A.");
    assert_eq!(rec.document_id, "DOC000111222");
    assert_eq!(rec.doc_type, "SECURITY");
    assert_eq!(rec.receipt_date, "2024-06-01");
}

#[test]
fn engine_lien_has_empty_n_number() {
    let mut buf = padded_record(164);
    write_field(&mut buf, 1, "2");
    write_field(&mut buf, 3, "LYCOMING IO-360 SN99");
    write_field(&mut buf, 41, "LIENHOLDER INC");
    write_field(&mut buf, 92, "DOC999");
    let rec = &parse_docindex(&buf).records[0];
    assert!(rec.n_number.is_empty());
    assert_eq!(rec.collateral, "LYCOMING IO-360 SN99");
}

#[test]
fn parses_engine_with_internal_comma() {
    let parsed = parse_engine(&fixture_engine("41530", "LYCOMING", "IO-360-L2A,A"));
    assert_eq!(parsed.records.len(), 1);
    assert_eq!(parsed.records[0].mfr, "LYCOMING");
    assert_eq!(parsed.records[0].model, "IO-360-L2A,A");
    assert_eq!(parsed.records[0].horsepower, "180");
}

#[test]
fn parses_reservation_and_canonical_n() {
    let parsed = parse_reserved(&fixture_reserved("1WM", "META PLATFORMS INC", "FP"));
    assert!(parsed.errors.is_empty());
    let rec = &parsed.records[0];
    assert_eq!(rec.n_number, "N1WM");
    assert_eq!(rec.registrant, "META PLATFORMS INC");
    assert_eq!(rec.city, "MENLO PARK");
    assert_eq!(rec.state, "CA");
    assert_eq!(rec.reserve_date, "2024-01-15");
    assert_eq!(rec.type_reservation, "FP");
    assert_eq!(rec.expiration_notice_date, "2026-01-15");
    assert_eq!(rec.n_number_for_change, "N99ABC");
    assert_eq!(rec.purge_date, "2027-03-05");
}

#[test]
fn reserved_skips_header_and_quarantines_short_rows() {
    let mut data = b"N-NUMBER,REGISTRANT\n".to_vec();
    data.extend(fixture_reserved("66CL", "HOLDING LLC", "AA"));
    data.push(b'\n');
    data.extend(b"xx\n");
    let parsed = parse_reserved(&data);
    assert_eq!(parsed.records.len(), 1);
    assert_eq!(parsed.records[0].n_number, "N66CL");
    assert_eq!(parsed.errors.len(), 1);
}

#[test]
fn reserved_without_change_keeps_it_empty() {
    let mut buf = fixture_reserved("1WM", "META", "FP");
    write_field(&mut buf, 180, "     ");
    let rec = &parse_reserved(&buf).records[0];
    assert_eq!(rec.n_number_for_change, "");
}
