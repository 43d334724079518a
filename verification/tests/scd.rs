use faa_registry_mirror::db::ingest::{
    append_errors, check_master_floor, count_plan, master_incoming, skips_same_zip,
    IngestOptions, IngestStats, DEFAULT_MIN_MASTER_ROWS, DEFAULT_ZIP_URL,
};
use faa_registry_mirror::db::scd::{plan_scd, CurrentVersion, IncomingVersion, ScdAction};
use faa_registry_mirror::db::{
    add_column_statement, close_row_statement, has_column, load_current_statement,
    table_info_statement, vacuum_into_statement,
};
use faa_registry_mirror::model::ParseError;
use faa_registry_mirror::parse::fixed_width::{padded_record, write_field};
use faa_registry_mirror::parse::parse_master;

fn cur(n: &str, id: i64, h: &str) -> CurrentVersion {
    CurrentVersion { n_number: n.into(), id, state_hash: h.into() }
}

fn inc(n: &str, h: &str) -> IncomingVersion {
    IncomingVersion { n_number: n.into(), state_hash: h.into() }
}

#[test]
fn first_pass_inserts_everything() {
    let plan = plan_scd(&[], &[inc("N12345", "a"), inc("N99ABC", "b")]);
    assert_eq!(plan.actions, vec![ScdAction::New, ScdAction::New]);
    assert!(plan.closes.is_empty());
    let c = count_plan(&plan);
    assert_eq!((c.new_rows, c.changed_rows, c.unchanged_rows, c.closed_rows), (2, 0, 0, 0));
}

#[test]
fn rerun_of_same_dump_is_unchanged() {
    let current = [cur("N12345", 1, "a"), cur("N99ABC", 2, "b")];
    let plan = plan_scd(&current, &[inc("N12345", "a"), inc("N99ABC", "b")]);
    assert_eq!(plan.actions, vec![ScdAction::Unchanged, ScdAction::Unchanged]);
    assert!(plan.closes.is_empty());
    let c = count_plan(&plan);
    assert_eq!((c.new_rows, c.changed_rows, c.unchanged_rows), (0, 0, 2));
}

#[test]
fn owner_change_closes_the_old_version() {
    let current = [cur("N12345", 1, "a"), cur("N99ABC", 2, "b")];
    let plan = plan_scd(&current, &[inc("N12345", "a2"), inc("N99ABC", "b")]);
    assert_eq!(plan.actions, vec![ScdAction::Changed { close_id: 1 }, ScdAction::Unchanged]);
    let c = count_plan(&plan);
    assert_eq!((c.changed_rows, c.unchanged_rows, c.closed_rows), (1, 1, 0));
}

#[test]
fn n_number_leaving_the_dump_is_closed() {
    let current = [cur("N12345", 3, "a"), cur("N99ABC", 2, "b")];
    let plan = plan_scd(&current, &[inc("N12345", "a")]);
    assert_eq!(plan.actions, vec![ScdAction::Unchanged]);
    assert_eq!(plan.closes, vec![2]);
    assert_eq!(count_plan(&plan).closed_rows, 1);
}

#[test]
fn later_rows_of_an_n_number_are_duplicates() {
    let plan = plan_scd(&[cur("N1", 7, "x")], &[inc("N1", "y"), inc("N1", "x"), inc("N2", "z")]);
    assert_eq!(
        plan.actions,
        vec![ScdAction::Changed { close_id: 7 }, ScdAction::Duplicate, ScdAction::New]
    );
    assert!(plan.closes.is_empty());
}

#[test]
fn every_current_row_is_counted_once() {
    let current = [cur("N1", 1, "a"), cur("N2", 2, "b"), cur("N3", 3, "c"), cur("N4", 4, "d")];
    let plan = plan_scd(
        &current,
        &[inc("N2", "b"), inc("N1", "z"), inc("N5", "e"), inc("N1", "a"), inc("N2", "q")],
    );
    let c = count_plan(&plan);
    assert_eq!((c.new_rows, c.changed_rows, c.unchanged_rows, c.closed_rows), (1, 1, 1, 2));
    assert_eq!(c.changed_rows + c.unchanged_rows + c.closed_rows, current.len());
}

#[test]
fn skip_only_when_hash_repeats_and_not_forced() {
    assert!(skips_same_zip(false, Some("abc"), "abc"));
    assert!(!skips_same_zip(true, Some("abc"), "abc"));
    assert!(!skips_same_zip(false, Some("abd"), "abc"));
    assert!(!skips_same_zip(false, None, "abc"));
}

#[test]
fn truncated_master_is_refused() {
    assert!(check_master_floor(300_000, 300_000).is_ok());
    let t = check_master_floor(0, 300_000).unwrap_err();
    assert_eq!(t.run_error, "MASTER.txt has 0 data rows; refusing ingest below floor of 300000");
    assert_eq!(t.message, "MASTER.txt has 0 data rows; expected at least 300000 (truncated dump?)");
    assert!(t.message.contains("expected at least"));
}

#[test]
fn append_errors_keeps_order() {
    let e = |n: usize| ParseError {
        file_name: "X.txt".into(),
        line_number: n,
        raw_line: vec![],
        error: "e".into(),
    };
    let mut all = vec![e(1)];
    append_errors(&mut all, vec![e(2), e(3)]);
    let lines: Vec<usize> = all.iter().map(|x| x.line_number).collect();
    assert_eq!(lines, vec![1, 2, 3]);
}

fn master_line(n: &str, owner: &str) -> Vec<u8> {
    let mut buf = padded_record(612);
    write_field(&mut buf, 1, n);
    write_field(&mut buf, 7, "SN1");
    write_field(&mut buf, 59, owner);
    buf
}

#[test]
fn duplicate_master_n_number_is_quarantined() {
    let mut data = master_line("12345", "BANK OF UTAH TRUSTEE");
    data.push(b'\n');
    data.extend(master_line("12345", "OTHER OWNER"));
    data.push(b'\n');
    let parsed = parse_master(&data);
    assert_eq!(parsed.records.len(), 1);
    assert_eq!(parsed.records[0].owner_name, "BANK OF UTAH TRUSTEE");
    assert_eq!(parsed.errors.len(), 1);
    assert_eq!(parsed.errors[0].file_name, "MASTER.txt");
    assert_eq!(parsed.errors[0].line_number, 2);
    assert!(parsed.errors[0].error.contains("duplicate N-number"));
}

#[test]
fn changed_owner_changes_the_plan() {
    let first = parse_master(&master_line("12345", "BANK OF UTAH TRUSTEE")).records;
    let second = parse_master(&master_line("12345", "NEW OWNER LLC")).records;
    let a = master_incoming(&first);
    let b = master_incoming(&second);
    assert_eq!(a[0].n_number, "N12345");
    let current = [cur("N12345", 1, &a[0].state_hash)];
    assert_eq!(plan_scd(&current, &a).actions, vec![ScdAction::Unchanged]);
    assert_eq!(plan_scd(&current, &b).actions, vec![ScdAction::Changed { close_id: 1 }]);
}

#[test]
fn builds_statements() {
    assert_eq!(vacuum_into_statement("/tmp/x.sqlite").unwrap(), "VACUUM INTO '/tmp/x.sqlite'");
    assert_eq!(
        vacuum_into_statement("/tmp/o'x.sqlite").unwrap_err(),
        "VACUUM INTO destination must not contain a single quote"
    );
    assert_eq!(table_info_statement("ingest_runs"), "PRAGMA table_info(ingest_runs)");
    assert_eq!(
        add_column_statement("ingest_runs", "dealer_rows", "INTEGER"),
        "ALTER TABLE ingest_runs ADD COLUMN dealer_rows INTEGER"
    );
    assert!(has_column(&["id".to_string(), "dealer_rows".to_string()], "dealer_rows"));
    assert!(!has_column(&["id".to_string()], "dealer_rows"));
    assert_eq!(
        load_current_statement("aircraft"),
        "SELECT n_number, id, state_hash FROM aircraft WHERE is_current = 1"
    );
    assert_eq!(
        close_row_statement("deregistered"),
        "UPDATE deregistered SET is_current = 0, valid_to = ?1 WHERE id = ?2"
    );
}

#[test]
fn ingest_defaults() {
    let opts = IngestOptions::default();
    assert_eq!(opts.db_path, std::path::PathBuf::from("data/faa-registry.sqlite"));
    assert_eq!(opts.zip_url, DEFAULT_ZIP_URL);
    assert_eq!(opts.min_master_rows, DEFAULT_MIN_MASTER_ROWS);
    assert_eq!(opts.min_master_rows, 300000);
    assert!(opts.zip_path.is_none() && opts.cache_dir.is_none() && !opts.force);
    let stats = IngestStats::default();
    assert!(!stats.skipped_same_zip);
    assert_eq!(stats.master_rows + stats.new_rows + stats.closed_rows, 0);
}
