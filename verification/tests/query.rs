use faa_registry_mirror::db::query::{
    assemble_lookup, format_lookup, format_owner_hits, format_status, fts_query, lookup_key,
    resolve_n_number, AircraftVersion, DeregVersion, DocumentHit, IngestStatus, LookupKey,
    LookupResult, OwnerHit,
};

fn version(n: &str, owner: &str, current: bool, valid_from: &str, valid_to: Option<&str>) -> AircraftVersion {
    AircraftVersion {
        n_number: n.into(),
        serial_number: "SN1".into(),
        mfr_mdl_code: "2072703".into(),
        eng_mfr_mdl: "41530".into(),
        year_mfr: "1998".into(),
        type_registrant: "3".into(),
        owner_name: owner.into(),
        street: "123 MAIN ST".into(),
        street2: String::new(),
        city: "DENVER".into(),
        state: "CO".into(),
        zip_code: "80202".into(),
        country: "US".into(),
        status_code: "V".into(),
        mode_s_hex: "A00B1C".into(),
        icao24: "a00b1c".into(),
        other_names: String::new(),
        cert_issue_date: "2019-02-13".into(),
        expiration_date: "2029-02-28".into(),
        type_aircraft: "4".into(),
        type_engine: "1".into(),
        valid_from: valid_from.into(),
        valid_to: valid_to.map(|s| s.to_string()),
        is_current: current,
        aircraft_mfr: Some("CESSNA".into()),
        aircraft_model: Some("172S".into()),
        engine_mfr: None,
        engine_model: None,
    }
}

#[test]
fn formats_lookup_with_history_dereg_and_documents() {
    let result = LookupResult {
        n_number: "N12345".into(),
        current: Some(version("N12345", "NEW OWNER LLC", true, "2026-09-02", None)),
        history: vec![version("N12345", "BANK OF UTAH TRUSTEE", false, "2026-09-01", Some("2026-09-02"))],
        deregistered: vec![DeregVersion {
            n_number: "N12345".into(),
            owner_name: String::new(),
            cancel_date: "2024-01-15".into(),
            export_country: "CANADA".into(),
            status_code: "6".into(),
            serial_number: "SN".into(),
            valid_from: "2026-09-01".into(),
            valid_to: None,
            is_current: true,
        }],
        documents: vec![DocumentHit {
            document_id: "DOC1".into(),
            type_collateral: "1".into(),
            collateral: "12345".into(),
            party_name: "BANK, N.A.".into(),
            receipt_date: "2024-06-01".into(),
            doc_type: String::new(),
            serial_id: String::new(),
        }],
    };
    let expected = "N12345\n\nCurrent registration\n  Owner:      NEW OWNER LLC (Corporation)\n  Address:    123 MAIN ST, DENVER, CO 80202\n  Country:    US\n  Aircraft:   CESSNA 172S (Fixed wing single engine)\n  Engine:     code 41530 (Reciprocating)\n  Year:       1998\n  Serial:     SN1\n  Status:     V (Valid Registration)\n  Mode S hex: A00B1C\n  icao24:     a00b1c\n  Co-owners:  -\n  Cert issue: 2019-02-13\n  Expires:    2029-02-28\n  Valid from: 2026-09-02\n\nOwnership history\n  2026-09-01 .. 2026-09-02  BANK OF UTAH TRUSTEE  (DENVER)\n\nDeregistration\n  [current] cancel 2024-01-15  owner -  export CANADA  status 6\n\nDocuments\n  2024-06-01  DOC1  party=BANK, N.A.  type=-\n";
    assert_eq!(format_lookup(&result), expected);
}

#[test]
fn formats_lookup_without_current_row() {
    let result = LookupResult {
        n_number: "N99ABC".into(),
        current: None,
        history: vec![version("N99ABC", "SMITH JOHN", false, "2026-09-01", None)],
        deregistered: vec![],
        documents: vec![],
    };
    assert_eq!(
        format_lookup(&result),
        "N99ABC\n\nNo current MASTER registration.\n\nOwnership history\n  2026-09-01 .. open  SMITH JOHN  (DENVER)\n"
    );
}

#[test]
fn formats_owner_hits_in_columns() {
    assert_eq!(format_owner_hits(&[]), "No matching current owners.\n");
    let hits = vec![OwnerHit {
        n_number: "N12345".into(),
        owner_name: "NEW OWNER LLC".into(),
        city: "DENVER".into(),
        state: "CO".into(),
        mfr: Some("CESSNA".into()),
        model: Some("172S".into()),
        status_code: "V".into(),
    }];
    let expected = format!(
        "{:<8}  {:<40}  {}, {}  {}  status {}\n",
        "N12345", "NEW OWNER LLC", "DENVER", "CO", "CESSNA 172S", "V"
    );
    assert_eq!(format_owner_hits(&hits), expected);
    assert_eq!(
        format_owner_hits(&hits),
        "N12345    NEW OWNER LLC                             DENVER, CO  CESSNA 172S  status V\n"
    );
}

#[test]
fn owner_hit_without_make_leaves_plane_blank() {
    let hits = vec![OwnerHit {
        n_number: "N1".into(),
        owner_name: "X".into(),
        city: "C".into(),
        state: "S".into(),
        mfr: Some(String::new()),
        model: Some("M".into()),
        status_code: "V".into(),
    }];
    assert_eq!(
        format_owner_hits(&hits),
        format!("{:<8}  {:<40}  C, S    status V\n", "N1", "X")
    );
}

#[test]
fn formats_status_with_dashes_for_missing_values() {
    let status = IngestStatus {
        id: 3,
        as_of_date: Some("2026-09-01".into()),
        started_at: "2026-09-01T05:45:00Z".into(),
        finished_at: None,
        source: "file:dump.zip".into(),
        zip_hash: None,
        master_rows: Some(2),
        new_rows: Some(0),
        changed_rows: Some(1),
        closed_rows: Some(0),
        unchanged_rows: Some(1),
        skipped_rows: None,
        dereg_new: Some(0),
        dereg_changed: Some(0),
        dereg_closed: Some(-1),
        documents_inserted: Some(12345),
        dealer_rows: Some(1),
        reserved_rows: Some(1),
        status: "ok".into(),
        error: None,
    };
    let expected = "Ingest #3\n  status:     ok\n  as_of:      2026-09-01\n  started:    2026-09-01T05:45:00Z\n  finished:   -\n  source:     file:dump.zip\n  zip hash:   -\n  master:     2\n  new/changed/closed/unchanged: 0 / 1 / 0 / 1\n  skipped:    -\n  dereg new/changed/closed: 0 / 0 / -1\n  documents:  12345\n  dealers:    1\n  reserved:   1\n  error:      -\n";
    assert_eq!(format_status(&status), expected);
}

#[test]
fn fts_query_keeps_alphanumerics_as_prefixes() {
    assert_eq!(fts_query("NEW OWNER"), "NEW* AND OWNER*");
    assert_eq!(fts_query("  bank, n.a.  "), "bank* AND na*");
    assert_eq!(fts_query(" -- "), "");
    assert_eq!(fts_query(""), "");
    assert_eq!(fts_query("O'BRIEN"), "OBRIEN*");
}

#[test]
fn lookup_key_by_hex_or_n_number() {
    match lookup_key(" A00B1C ") {
        LookupKey::ModeSHex(h) => assert_eq!(h, "a00b1c"),
        LookupKey::NNumber(_) => panic!("hex expected"),
    }
    match lookup_key("12345") {
        LookupKey::NNumber(n) => assert_eq!(n, "N12345"),
        LookupKey::ModeSHex(_) => panic!("N-number expected"),
    }
}

#[test]
fn resolves_hex_lookup_to_current_then_latest() {
    let old = version("N1", "A", false, "2026-09-01", Some("2026-09-02"));
    let cur = version("N2", "B", true, "2026-09-02", None);
    assert_eq!(resolve_n_number("a00b1c", &[old.clone(), cur.clone()]), "N2");
    assert_eq!(resolve_n_number("a00b1c", &[old.clone()]), "N1");
    assert_eq!(resolve_n_number("a00b1c", &[]), "a00b1c");
}

#[test]
fn assembles_current_out_of_versions() {
    let a = version("N1", "NEWER", false, "2026-09-03", Some("2026-09-04"));
    let b = version("N1", "CURRENT", true, "2026-09-02", None);
    let c = version("N1", "OLDEST", false, "2026-09-01", Some("2026-09-02"));
    let r = assemble_lookup("N1".into(), vec![a, b, c], vec![], vec![]);
    assert_eq!(r.current.unwrap().owner_name, "CURRENT");
    let owners: Vec<String> = r.history.iter().map(|v| v.owner_name.clone()).collect();
    assert_eq!(owners, vec!["NEWER".to_string(), "OLDEST".to_string()]);
    let none = assemble_lookup("N2".into(), vec![], vec![], vec![]);
    assert!(none.current.is_none());
    assert!(none.history.is_empty());
}

#[test]
fn fts_query_drops_match_syntax() {
    let q = fts_query("\"O'BRIEN\" -(x:y) NEAR/2");
    assert_eq!(q, "OBRIEN* AND xy* AND NEAR2*");
    assert!(q.chars().all(|c| c.is_ascii_alphanumeric() || c == '*' || c == ' '));
}

#[test]
fn fts_query_keeps_unicode_letters_only() {
    assert_eq!(fts_query("\u{C9}cole \u{AB}X\u{BB}"), "\u{C9}cole* AND X*");
}
