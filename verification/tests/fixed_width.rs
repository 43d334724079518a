use faa_registry_mirror::parse::fixed_width::{
    field, looks_like_header, padded_record, parse_lines, strip_bom, strip_line_ending,
    too_short, write_field,
};

#[test]
fn slices_and_trims() {
    let mut buf = padded_record(20);
    write_field(&mut buf, 1, "ABC  ");
    write_field(&mut buf, 7, "XYZ");
    assert_eq!(field(&buf, 1, 5), "ABC");
    assert_eq!(field(&buf, 7, 9), "XYZ");
}

#[test]
fn short_line_returns_partial() {
    assert_eq!(field(b"AB", 1, 5), "AB");
    assert_eq!(field(b"AB", 7, 10), "");
}

#[test]
fn detects_header() {
    assert!(looks_like_header(b"N-NUMBER,SERIAL NUMBER", &["N-NUMBER"]));
    assert!(!looks_like_header(b"12345,172S", &["N-NUMBER"]));
}

#[test]
fn parse_lines_skips_header_and_quarantines_bad_rows() {
    let mut good = padded_record(20);
    write_field(&mut good, 1, "ABC");
    let mut body = b"N-NUMBER\n".to_vec();
    body.extend_from_slice(&good);
    body.push(b'\n');
    body.extend_from_slice(b"\n");
    let parsed = parse_lines(&body, "X.txt", &["N-NUMBER"], |line| {
        let v = field(line, 1, 3);
        if v == "ABC" {
            Ok(v)
        } else {
            Err("nope".into())
        }
    });
    assert_eq!(parsed.records, vec!["ABC".to_string()]);
    assert!(parsed.errors.is_empty());
}

#[test]
fn parse_lines_numbers_quarantined_rows_from_one() {
    let body = b"\xef\xbb\xbfHDR\r\nok\r\n\r\nbad\nok".to_vec();
    let parsed = parse_lines(&body, "Y.txt", &["hdr"], |line| {
        if line == b"ok" {
            Ok(line.len())
        } else {
            Err(format!("bad row of {} bytes", line.len()))
        }
    });
    assert_eq!(parsed.records, vec![2, 2]);
    assert_eq!(parsed.errors.len(), 1);
    assert_eq!(parsed.errors[0].file_name, "Y.txt");
    assert_eq!(parsed.errors[0].line_number, 4);
    assert_eq!(parsed.errors[0].raw_line, b"bad".to_vec());
    assert_eq!(parsed.errors[0].error, "bad row of 3 bytes");
}

#[test]
fn header_only_counts_on_the_first_line() {
    let body = b"12345\nN-NUMBER\n".to_vec();
    let parsed = parse_lines(&body, "Z.txt", &["N-NUMBER"], |line| {
        Ok::<Vec<u8>, String>(line.to_vec())
    });
    assert_eq!(parsed.records.len(), 2);
}

#[test]
fn field_trims_whitespace_then_commas() {
    assert_eq!(field(b" ,A B, ", 1, 7), "A B");
    assert_eq!(field(b"A ,", 1, 3), "A ");
    assert_eq!(field(b"\xa0X\xe9\xa0", 1, 4), "X\u{e9}");
    assert_eq!(field(b"ABCDEF", 0, 2), "AB");
}

#[test]
fn strips_bom_and_line_endings() {
    assert_eq!(strip_bom(b"\xef\xbb\xbfabc"), b"abc");
    assert_eq!(strip_bom(b"\xef\xbbabc"), b"\xef\xbbabc");
    assert_eq!(strip_line_ending(b"abc\r\n"), b"abc");
    assert_eq!(strip_line_ending(b"abc\n"), b"abc");
    assert_eq!(strip_line_ending(b"abc\r"), b"abc");
    assert_eq!(strip_line_ending(b"abc\n\r"), b"abc\n");
}

#[test]
fn write_field_clips_at_the_end() {
    let mut buf = padded_record(5);
    write_field(&mut buf, 4, "XYZ");
    assert_eq!(buf, b"   XY".to_vec());
    write_field(&mut buf, 9, "Q");
    assert_eq!(buf, b"   XY".to_vec());
}

#[test]
fn too_short_names_the_length() {
    assert_eq!(too_short(2), "row too short (2 bytes)");
    assert_eq!(too_short(0), "row too short (0 bytes)");
    assert_eq!(too_short(123), "row too short (123 bytes)");
}

#[test]
fn field_decodes_windows_1252() {
    assert_eq!(field(b" CAF\xC9,", 1, 6), "CAF\u{C9}");
    assert_eq!(field(b"CAF\xC9 ,", 1, 6), "CAF\u{C9} ");
    assert_eq!(field(b"O\x92BRIEN", 1, 7), "O\u{2019}BRIEN");
}
