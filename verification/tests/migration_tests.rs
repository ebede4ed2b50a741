use arqen::migration::{
    apply_import_counts, base_url, copies_named, count_snapshot, endpoint, events_done, snapshot_path, summary_line,
    take_lines, thingd_error, valid_snapshot_header, validate_options, DestinationScan, MigrationError,
    MigrationReport, ThingdMigrationOptions,
};

#[test]
fn migration_options_defaults() {
    let o = ThingdMigrationOptions::default();
    assert_eq!(o.batch_size, 100);
    assert!(!o.dry_run && !o.resume && !o.include_replication);
    assert!(o.snapshot_path.is_none());
}

#[test]
fn options_are_validated() {
    let mut o = ThingdMigrationOptions::default();
    o.source_path = "/data/store".to_string();
    assert!(matches!(validate_options(&o, false), Err(MigrationError::MissingSource(p)) if p == "/data/store"));
    assert!(matches!(validate_options(&o, true), Err(MigrationError::MissingDestination)));
    o.destination_url = "  ".to_string();
    assert!(matches!(validate_options(&o, true), Err(MigrationError::MissingDestination)));
    o.destination_url = "http://thingd:8080".to_string();
    o.batch_size = 0;
    let checked = validate_options(&o, true).unwrap();
    assert_eq!(checked.batch_size, 1);
    assert_eq!(checked.destination_url, "http://thingd:8080");
}

#[test]
fn snapshot_spool_sits_beside_the_source() {
    let mut o = ThingdMigrationOptions::default();
    o.source_path = "/data/store".to_string();
    assert_eq!(snapshot_path(&o), "/data/store.arqen-migration.jsonl");
    o.source_path = "/data/store.db".to_string();
    assert_eq!(snapshot_path(&o), "/data/store.arqen-migration.jsonl");
    o.snapshot_path = Some("/tmp/spool.jsonl".to_string());
    assert_eq!(snapshot_path(&o), "/tmp/spool.jsonl");
}

#[test]
fn destination_urls_lose_trailing_slashes_and_versions() {
    assert_eq!(base_url("http://thingd:8080/"), "http://thingd:8080");
    assert_eq!(base_url("http://thingd:8080/v1/"), "http://thingd:8080");
    assert_eq!(base_url("http://thingd:8080/v1/v1"), "http://thingd:8080");
    assert_eq!(base_url("http://thingd:8080//v1"), "http://thingd:8080/");
    assert_eq!(base_url("http://thingd:8080/api"), "http://thingd:8080/api");
    assert_eq!(endpoint("http://thingd/v1", "/v1/snapshot"), "http://thingd/v1/snapshot");
}

#[test]
fn spool_records_are_counted() {
    let lines: Vec<String> = vec![
        r#"{"type":"thingd.snapshot","version":"2.0.0","format":"jsonl"}"#,
        r#"{"type":"object","object":{}}"#,
        "   ",
        r#"{"type":"event","event":{}}"#,
        r#"{"type":"queue","job":{}}"#,
        r#"{"type":"queue","job":{}}"#,
    ]
    .into_iter()
    .map(String::from)
    .collect();
    let report = count_snapshot(&lines).unwrap();
    assert_eq!((report.objects, report.events, report.jobs, report.records), (1, 1, 2, 4));
}

#[test]
fn malformed_spool_lines_are_reported_by_index() {
    let unknown: Vec<String> = vec![r#"{"type":"object"}"#.to_string(), r#"{"type":"blob"}"#.to_string()];
    match count_snapshot(&unknown) {
        Err(MigrationError::MalformedRecord { record, message }) => {
            assert_eq!(record, 1);
            assert_eq!(message, "unsupported snapshot record type 'blob'");
        },
        _ => panic!("expected a malformed record"),
    }
    let untyped: Vec<String> = vec![r#"{"kind":"object"}"#.to_string()];
    match count_snapshot(&untyped) {
        Err(MigrationError::MalformedRecord { record, message }) => {
            assert_eq!(record, 0);
            assert_eq!(message, "missing record type");
        },
        _ => panic!("expected a malformed record"),
    }
    assert!(matches!(count_snapshot(&vec!["{".to_string()]), Err(MigrationError::MalformedRecord { record: 0, .. })));
}

#[test]
fn spool_headers_are_recognised() {
    assert!(valid_snapshot_header(r#"{"type":"thingd.snapshot","version":"2.0.0"}"#).unwrap());
    assert!(!valid_snapshot_header(r#"{"type":"thingd.snapshot","version":"1.0.0"}"#).unwrap());
    assert!(!valid_snapshot_header(r#"{"type":"object"}"#).unwrap());
    assert!(matches!(valid_snapshot_header(""), Err(MigrationError::MalformedRecord { record: 0, .. })));
}

#[test]
fn destination_stream_must_be_empty() {
    let mut scan = DestinationScan::new();
    assert!(scan.on_line(b"  \n").is_ok());
    assert!(scan.on_line(br#"{"type":"thingd.snapshot","version":"2.0.0"}"#).is_ok());
    assert!(scan.on_line(br#"{"type":"error","message":"x"}"#).is_ok());
    assert!(matches!(scan.on_line(br#"{"type":"object"}"#), Err(MigrationError::NonEmptyDestination)));
    assert!(scan.finish().is_ok());
    let mut wrong = DestinationScan::new();
    match wrong.on_line(br#"{"type":"thingd.snapshot","version":"1.0.0"}"#) {
        Err(MigrationError::InvalidSource(m)) => assert_eq!(m, "destination does not support Thingd snapshot 2.0.0"),
        _ => panic!("expected an unsupported destination"),
    }
    match DestinationScan::new().finish() {
        Err(MigrationError::InvalidSource(m)) => assert_eq!(m, "destination snapshot is missing its header"),
        _ => panic!("expected a missing header"),
    }
}

#[test]
fn stream_chunks_split_into_lines() {
    let mut pending = Vec::new();
    let lines = take_lines(&mut pending, b"ab\ncd");
    assert_eq!(lines, vec![b"ab\n".to_vec()]);
    assert_eq!(pending, b"cd".to_vec());
    let lines = take_lines(&mut pending, b"e\n\nf");
    assert_eq!(lines, vec![b"cde\n".to_vec(), b"\n".to_vec()]);
    assert_eq!(pending, b"f".to_vec());
}

#[test]
fn import_counts_replace_local_ones() {
    let mut report = MigrationReport::default();
    report.objects = 5;
    report.events = 6;
    apply_import_counts(&mut report, Some(10), None, Some(2), Some(3));
    assert_eq!((report.records, report.objects, report.events, report.jobs), (10, 5, 2, 3));
}

#[test]
fn replication_collections_are_skipped_unless_asked_for() {
    assert!(copies_named(false, "users"));
    assert!(!copies_named(false, "__thingd_replication"));
    assert!(copies_named(true, "__thingd_replication"));
    assert!(events_done(3, 100, 10, 0));
    assert!(events_done(100, 100, 10, 10));
    assert!(!events_done(100, 100, 11, 10));
}

#[test]
fn summaries_and_errors_display() {
    let mut report = MigrationReport::default();
    report.objects = 1;
    report.events = 2;
    report.jobs = 3;
    report.indexes = 4;
    assert_eq!(summary_line(&report, false), "Thingd migration complete: 1 objects, 2 events, 3 jobs, 4 indexes");
    report.snapshot_path = Some("/s.jsonl".to_string());
    assert_eq!(
        summary_line(&report, true),
        "Thingd migration checked: 1 objects, 2 events, 3 jobs, 4 indexes (snapshot: /s.jsonl)"
    );
    assert_eq!(
        MigrationError::MalformedRecord { record: 7, message: "bad".to_string() }.message(),
        "malformed migration record 7: bad"
    );
    assert_eq!(thingd_error("objects", "boom").message(), "Thingd migration failed for objects objects: boom");
    assert_eq!(MigrationError::MissingDestination.message(), "destination URL is required");
}
