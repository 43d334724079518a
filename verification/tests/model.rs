use faa_registry_mirror::model::{
    decode_status_code, decode_type_aircraft, decode_type_engine, decode_type_registrant,
    join_other_names, DeregRecord, DocumentRecord, MasterRecord,
};

fn master(owner: &str) -> MasterRecord {
    MasterRecord {
        n_number: "N1WM".into(),
        serial_number: "1".into(),
        mfr_mdl_code: "M".into(),
        eng_mfr_mdl: "E".into(),
        year_mfr: "1998".into(),
        type_registrant: "3".into(),
        owner_name: owner.into(),
        street: "S".into(),
        street2: String::new(),
        city: "DENVER".into(),
        state: "CO".into(),
        zip_code: "80202".into(),
        region: "C".into(),
        county: "001".into(),
        country: "US".into(),
        last_action_date: "2023-07-18".into(),
        cert_issue_date: "2019-02-13".into(),
        certification: String::new(),
        type_aircraft: "4".into(),
        type_engine: "1".into(),
        status_code: "V".into(),
        mode_s_code: String::new(),
        fractional_owner: "N".into(),
        air_worth_date: "1998-04-30".into(),
        other_names: String::new(),
        expiration_date: "2029-02-28".into(),
        unique_id: "U".into(),
        kit_mfr: String::new(),
        kit_model: String::new(),
        mode_s_hex: "A00B1C".into(),
    }
}

#[test]
fn decodes_codes() {
    assert_eq!(decode_type_registrant("7"), "LLC");
    assert_eq!(decode_type_registrant("6"), "Unknown");
    assert_eq!(decode_type_aircraft("H"), "Hybrid Lift");
    assert_eq!(decode_type_aircraft(" 4"), "Unknown");
    assert_eq!(decode_type_engine(" 10 "), "Electric");
    assert_eq!(decode_type_engine("12"), "Unknown");
    assert_eq!(decode_status_code("V "), "Valid Registration");
    assert_eq!(decode_status_code("16"), "Registration expired – pending cancellation");
    assert_eq!(decode_status_code("Q"), "See FAA status code");
}

#[test]
fn joins_trimmed_nonempty_names() {
    let names = vec![" A ".to_string(), "".to_string(), "  ".to_string(), "B".to_string()];
    assert_eq!(join_other_names(&names), "A|B");
    assert_eq!(join_other_names(&[]), "");
}

#[test]
fn state_hash_ignores_n_number_and_tracks_owner() {
    let a = master("BANK OF UTAH TRUSTEE");
    let mut b = a.clone();
    b.n_number = "N999".into();
    assert_eq!(a.state_hash(), b.state_hash());
    let c = master("NEW OWNER LLC");
    assert_ne!(a.state_hash(), c.state_hash());
    assert_eq!(a.state_hash().len(), 64);
}

#[test]
fn state_hash_separates_columns() {
    let mut a = master("AB");
    a.street = "C".into();
    let mut b = master("A");
    b.street = "BC".into();
    assert_ne!(a.state_hash(), b.state_hash());
}

#[test]
fn dereg_state_hash_is_hex() {
    let d = DeregRecord {
        n_number: "N1".into(),
        serial_number: "S".into(),
        mfr_mdl_code: String::new(),
        status_code: "6".into(),
        owner_name: "OLD".into(),
        street: String::new(),
        street2: String::new(),
        city: String::new(),
        state: String::new(),
        zip_code: String::new(),
        eng_mfr_mdl: String::new(),
        year_mfr: String::new(),
        certification: String::new(),
        region: String::new(),
        county: String::new(),
        country: String::new(),
        air_worth_date: String::new(),
        cancel_date: "1939-09-01".into(),
        mode_s_code: String::new(),
        type_registrant: String::new(),
        export_country: String::new(),
        last_action_date: String::new(),
        cert_issue_date: String::new(),
        physical_street: String::new(),
        physical_street2: String::new(),
        physical_city: String::new(),
        physical_state: String::new(),
        physical_zip: String::new(),
        physical_county: String::new(),
        physical_country: String::new(),
        other_names: String::new(),
        kit_mfr: String::new(),
        kit_model: String::new(),
        mode_s_hex: String::new(),
    };
    let h = d.state_hash();
    assert_eq!(h.len(), 64);
    assert!(h.chars().all(|c| c.is_ascii_hexdigit() && !c.is_ascii_uppercase()));
}

#[test]
fn collateral_n_number_only_for_aircraft() {
    assert_eq!(DocumentRecord::n_number_from_collateral("1", "12345"), "N12345");
    assert_eq!(DocumentRecord::n_number_from_collateral("2", "12345"), "");
    assert_eq!(DocumentRecord::n_number_from_collateral(" 1", "12345"), "");
}

#[test]
fn zip_hash_is_blake3_hex_of_the_bytes() {
    let h = faa_registry_mirror::model::zip_hash(b"abc");
    assert_eq!(h, "6437b3ac38465133ffb63b75273a8db548c558465d79db03fd359c6cd5bd9d85");
    assert_ne!(h, faa_registry_mirror::model::zip_hash(b"abd"));
}
