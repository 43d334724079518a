use faa_registry_mirror::{canonical_icao24, canonical_n_number, looks_like_mode_s_hex};

#[test]
fn canonical_n_keeps_leading_n() {
    assert_eq!(canonical_n_number("1WM"), "N1WM");
    assert_eq!(canonical_n_number("n12345"), "N12345");
    assert_eq!(canonical_n_number("  Nabc  "), "NABC");
    assert_eq!(canonical_n_number("98765"), "N98765");
    assert_eq!(canonical_n_number("N-66-CL"), "N66CL");
}

#[test]
fn icao24_is_lowercase() {
    assert_eq!(canonical_icao24("A00B1C"), "a00b1c");
    assert_eq!(canonical_icao24("  "), "");
    assert_eq!(canonical_icao24(""), "");
}

#[test]
fn mode_s_hex_detection() {
    assert!(looks_like_mode_s_hex("A00B1C"));
    assert!(looks_like_mode_s_hex("a8b21d"));
    assert!(!looks_like_mode_s_hex("N66CL"));
    assert!(!looks_like_mode_s_hex("66CL"));
    assert!(!looks_like_mode_s_hex("12345"));
}

#[test]
fn canonical_n_number_is_idempotent_on_examples() {
    for raw in ["1WM", " n-66.cl ", "N12345", "", "   ", "98765", "a00b1c"] {
        let once = canonical_n_number(raw);
        assert_eq!(canonical_n_number(&once), once);
        assert!(!looks_like_mode_s_hex(&once));
    }
}

#[test]
fn canonical_n_number_of_blank_is_empty() {
    assert_eq!(canonical_n_number(" - . "), "");
}

#[test]
fn mode_s_hex_is_trimmed_first() {
    assert!(looks_like_mode_s_hex("  A00B1C  "));
    assert!(!looks_like_mode_s_hex("A00B1G"));
    assert!(!looks_like_mode_s_hex("A00B1C7"));
}
