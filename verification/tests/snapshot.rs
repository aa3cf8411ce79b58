use std::io::Cursor;

use actual_mcp::actual::error::ActualError;
use actual_mcp::actual::model::Metadata;
use actual_mcp::actual::snapshot::parse;

/// Reads what the file says the way a JSON reader with these fields would.
fn metadata(raw: &str) -> Result<Metadata, String> {
    let v: serde_json::Value = serde_json::from_str(raw).map_err(|e| e.to_string())?;
    let text = |key: &str| -> Result<String, String> {
        v[key].as_str().map(String::from).ok_or(format!("missing field `{key}`"))
    };
    Ok(Metadata {
        id: text("id")?,
        budget_name: text("budgetName")?,
        cloud_file_id: text("cloudFileId")?,
        group_id: v["groupId"].as_str().map(String::from),
        last_synced_timestamp: v["lastSyncedTimestamp"].as_str().map(String::from),
        reset_clock: v["resetClock"].as_bool().unwrap_or(false),
    })
}

use std::io::Write;

const SQLITE_HEADER: &[u8] = b"SQLite format 3\0";

/// Matches the shape of the real metadata.json, including the nulls that
/// a reset-clock upload produces.
const METADATA: &str = r#"{
    "id": "Test-Budget-0000000",
    "budgetName": "Test Budget",
    "cloudFileId": "11111111-1111-1111-1111-111111111111",
    "groupId": null,
    "lastSyncedTimestamp": null,
    "resetClock": true
}"#;

fn make_zip(entries: &[(&str, &[u8])]) -> Vec<u8> {
    let mut buf = Vec::new();
    {
        let mut w = zip::ZipWriter::new(Cursor::new(&mut buf));
        // Stored keeps this independent of which compression features are on
        let opts = zip::write::SimpleFileOptions::default()
            .compression_method(zip::CompressionMethod::Stored);
        for (name, data) in entries {
            w.start_file(*name, opts).expect("start_file");
            w.write_all(data).expect("write_all");
        }
        w.finish().expect("finish");
    }
    buf
}

fn fake_db() -> Vec<u8> {
    let mut v = SQLITE_HEADER.to_vec();
    v.extend_from_slice(b"the rest of a database");
    v
}

/// Unwrap a BadSnapshot reason so tests can assert *which* failure it was,
/// not merely that something failed.
fn reason(err: ActualError) -> String {
    match err {
        ActualError::BadSnapshot { reason } => reason,
        other => panic!("expected BadSnapshot, got {other:?}"),
    }
}

#[test]
fn parses_a_valid_snapshot() {
    let db = fake_db();
    let zip = make_zip(&[("db.sqlite", &db), ("metadata.json", METADATA.as_bytes())]);

    let snap = parse(&zip, &metadata).expect("should parse");

    assert_eq!(snap.metadata.budget_name, "Test Budget");
    assert_eq!(
        snap.metadata.cloud_file_id,
        "11111111-1111-1111-1111-111111111111"
    );
    assert!(snap.metadata.group_id.is_none());
    assert!(snap.metadata.last_synced_timestamp.is_none());
    assert!(snap.metadata.reset_clock);
    assert_eq!(snap.db_bytes, db);
}

/// Zip entry order is not guaranteed, so lookups must be by name.
#[test]
fn entry_order_does_not_matter() {
    let db = fake_db();
    let zip = make_zip(&[("metadata.json", METADATA.as_bytes()), ("db.sqlite", &db)]);
    assert!(parse(&zip, &metadata).is_ok());
}

#[test]
fn not_a_zip_is_rejected() {
    let err = parse(b"definitely not a zip", &metadata).unwrap_err();
    assert!(reason(err).contains("not a valid zip"));
}

#[test]
fn missing_db_is_rejected() {
    let zip = make_zip(&[("metadata.json", METADATA.as_bytes())]);
    let err = parse(&zip, &metadata).unwrap_err();
    assert!(reason(err).contains("db.sqlite"));
}

#[test]
fn missing_metadata_is_rejected() {
    let db = fake_db();
    let zip = make_zip(&[("db.sqlite", &db)]);
    let err = parse(&zip, &metadata).unwrap_err();
    assert!(reason(err).contains("metadata.json"));
}

#[test]
fn malformed_metadata_is_rejected() {
    let db = fake_db();
    let zip = make_zip(&[("db.sqlite", &db), ("metadata.json", b"{ not json")]);
    let err = parse(&zip, &metadata).unwrap_err();
    assert!(reason(err).contains("metadata.json"));
}

/// Guards the magic-header check: a truncated or misrouted download must
/// fail here rather than as a confusing rusqlite error much later.
#[test]
fn non_sqlite_db_is_rejected() {
    let zip = make_zip(&[
        ("db.sqlite", b"PK\x03\x04 not a database"),
        ("metadata.json", METADATA.as_bytes()),
    ]);
    let err = parse(&zip, &metadata).unwrap_err();
    assert!(reason(err).contains("not a SQLite database"));
}

#[test]
fn the_reason_says_which_entry_failed_and_how() {
    let db = fake_db();
    let gone = make_zip(&[("db.sqlite", &db)]);
    assert_eq!(
        reason(parse(&gone, &metadata).unwrap_err()),
        "metadata.json: specified file not found in archive"
    );
    let latin = make_zip(&[("db.sqlite", &db), ("metadata.json", &[0xff, 0xfe])]);
    let why = reason(parse(&latin, &metadata).unwrap_err());
    assert!(why.starts_with("reading metadata.json: "), "got {why}");
}

#[test]
fn a_damaged_entry_cannot_be_read() {
    let db = fake_db();
    let mut zip = make_zip(&[("db.sqlite", &db), ("metadata.json", METADATA.as_bytes())]);
    // Flip a byte of the stored database: its checksum no longer fits.
    let at = zip.windows(6).position(|w| w == b"SQLite").unwrap() + 20;
    zip[at] ^= 0xff;
    let why = reason(parse(&zip, &metadata).unwrap_err());
    assert!(why.starts_with("reading db.sqlite: "), "got {why}");
}

#[test]
fn bad_metadata_is_reported_before_a_bad_database() {
    let zip = make_zip(&[("db.sqlite", b"nothing"), ("metadata.json", b"{}")]);
    let err = parse(&zip, &metadata).unwrap_err();
    assert_eq!(
        err.message(),
        "could not read the budget snapshot: metadata.json: missing field `id`"
    );
    let header_only = make_zip(&[
        ("db.sqlite", SQLITE_HEADER),
        ("metadata.json", METADATA.as_bytes()),
    ]);
    assert_eq!(parse(&header_only, &metadata).unwrap().db_bytes, SQLITE_HEADER);
}

#[test]
fn metadata_is_read_only_where_all_before_it_is_there() {
    let never = |raw: &str| -> Result<Metadata, String> { panic!("asked for {raw}") };
    assert!(reason(parse(b"not a zip", &never).unwrap_err()).starts_with("not a valid zip"));
    let no_db = make_zip(&[("metadata.json", METADATA.as_bytes())]);
    assert!(reason(parse(&no_db, &never).unwrap_err()).starts_with("db.sqlite: "));
    let no_metadata = make_zip(&[("db.sqlite", &fake_db())]);
    assert!(reason(parse(&no_metadata, &never).unwrap_err()).starts_with("metadata.json: "));
}
