use actual_mcp::actual::messages::{CrdtValue, SyncMessage, ZERO_CLOCK};
use actual_mcp::actual::model::{Metadata, Snapshot};
use actual_mcp::actual::number::Number;
use actual_mcp::store::error::StoreError;
use actual_mcp::store::freshness::Timestamp;
use actual_mcp::store::replica::Replica;
use actual_mcp::store::sql::QueryError;
use rusqlite::types::Value;
use rusqlite::{Connection, OpenFlags};

const T1: &str = "2026-09-06T20:00:00.000Z-0001-aaaaaaaaaaaaaaaa";
const CLOCK_A: &str = "2026-09-06T21:00:00.000Z-0000-aaaaaaaaaaaaaaaa";
const CLOCK_B: &str = "2026-09-06T22:00:00.000Z-0000-aaaaaaaaaaaaaaaa";

fn as_real(bits: u64) -> Value {
    Value::Real(f64::from_bits(bits))
}

fn num(n: f64) -> CrdtValue {
    CrdtValue::Num(Number::from_bits(n.to_bits()))
}

/// A minimal but real database, the way a snapshot holds one. Two connections
/// of one name see the same data while either is open.
fn db(name: &str) -> Connection {
    let flags = OpenFlags::SQLITE_OPEN_READ_WRITE
        | OpenFlags::SQLITE_OPEN_CREATE
        | OpenFlags::SQLITE_OPEN_URI;
    Connection::open_with_flags(format!("file:{name}?mode=memory&cache=shared"), flags)
        .expect("open")
}

fn seeded(name: &str) -> Connection {
    let conn = db(name);
    conn.execute_batch(
        "CREATE TABLE transactions (
             id TEXT PRIMARY KEY,
             amount INTEGER,
             date INTEGER,
             tombstone INTEGER DEFAULT 0
         );
         INSERT INTO transactions (id, amount, date) VALUES ('t0', 100, 20260101);",
    )
    .expect("seed schema");
    conn
}

fn snapshot(clock: Option<&str>) -> Snapshot {
    Snapshot {
        db_bytes: b"SQLite format 3\0".to_vec(),
        metadata: Metadata {
            id: "Test-Budget-0000000".to_string(),
            budget_name: "Test Budget".to_string(),
            cloud_file_id: "11111111-1111-1111-1111-111111111111".to_string(),
            group_id: None,
            last_synced_timestamp: clock.map(String::from),
            reset_clock: true,
        },
    }
}

fn install(name: &str, clock: Option<&str>) -> Replica {
    Replica::install(seeded(name), Replica::file_name("g-1"), &snapshot(clock)).unwrap()
}

fn msg(ts: &str, column: &str, value: CrdtValue) -> SyncMessage {
    SyncMessage {
        timestamp: ts.to_string(),
        dataset: "transactions".to_string(),
        row: "t0".to_string(),
        column: column.to_string(),
        value,
    }
}

fn now() -> Timestamp {
    Timestamp::at(1_800_000_000)
}

#[test]
fn install_without_a_snapshot_clock_starts_at_epoch_zero() {
    let replica = install("epoch_zero", None);
    assert_eq!(replica.clock().unwrap(), ZERO_CLOCK);
}

#[test]
fn install_uses_the_snapshot_clock_when_present() {
    let replica = install("own_clock", Some(CLOCK_A));
    assert_eq!(replica.clock().unwrap(), CLOCK_A);
}

#[test]
fn open_finds_an_installed_replica_and_its_clock() {
    let _installed = install("reopened", Some(CLOCK_A));

    let reopened = Replica::open(db("reopened"), Replica::file_name("g-1"))
        .unwrap()
        .expect("should exist");
    assert_eq!(reopened.clock().unwrap(), CLOCK_A);
}

/// A bare SQLite file we did not install has no `mcp_state`, so we cannot
/// know its clock. Report it absent so the caller re-installs.
#[test]
fn open_ignores_a_file_without_our_state_table() {
    let found = Replica::open(seeded("bare"), Replica::file_name("g-1")).unwrap();
    assert!(found.is_none());
}

#[test]
fn apply_advances_the_clock_and_the_data() {
    let mut replica = install("advances", Some(CLOCK_A));

    let applied = replica
        .apply(&[msg(T1, "amount", num(-94300.0))], CLOCK_B, now(), &as_real)
        .unwrap();

    assert_eq!(applied, 1);
    assert_eq!(replica.clock().unwrap(), CLOCK_B);

    let amount: i64 = replica
        .connection()
        .query_row("SELECT amount FROM transactions WHERE id = 't0'", [], |r| r.get(0))
        .unwrap();
    assert_eq!(amount, -94300);
}

/// The invariant that makes a failed refresh recoverable: if the batch
/// rolls back, the clock must not move. Otherwise the server would never
/// send those messages again and the edits would be lost for good.
#[test]
fn a_failed_apply_leaves_the_clock_untouched() {
    let mut replica = install("untouched", Some(CLOCK_A));

    let result = replica.apply(
        &[
            msg(T1, "amount", num(-94300.0)),
            msg(T1, "no_such_column", CrdtValue::Null),
        ],
        CLOCK_B,
        now(),
        &as_real,
    );

    assert!(result.is_err());
    assert_eq!(replica.clock().unwrap(), CLOCK_A, "clock must not advance");

    let amount: i64 = replica
        .connection()
        .query_row("SELECT amount FROM transactions WHERE id = 't0'", [], |r| r.get(0))
        .unwrap();
    assert_eq!(amount, 100, "data must be unchanged too");
}

#[test]
fn freshness_reports_the_newest_transaction_and_last_retrieval() {
    let mut replica = install("freshness", Some(CLOCK_A));

    // Before any apply there has been no retrieval.
    let before = replica.freshness().unwrap();
    assert_eq!(before.last_retrieval, None);
    assert_eq!(before.newest_transaction, Some(20260101));

    replica
        .apply(&[msg(T1, "date", num(20260903.0))], CLOCK_B, now(), &as_real)
        .unwrap();

    let after = replica.freshness().unwrap();
    assert_eq!(after.last_retrieval, Some(now()));
    assert_eq!(after.newest_transaction, Some(20260903));
}

#[test]
fn an_empty_batch_moves_the_retrieval_but_not_the_clock() {
    let mut replica = install("empty_batch", Some(CLOCK_A));
    assert_eq!(replica.apply(&[], CLOCK_A, now(), &as_real).unwrap(), 0);
    assert_eq!(replica.clock().unwrap(), CLOCK_A);
    assert_eq!(replica.freshness().unwrap().last_retrieval, Some(now()));
}

#[test]
fn a_replica_without_a_clock_says_so() {
    let replica = install("clockless", Some(CLOCK_A));
    replica.connection().execute("DELETE FROM mcp_state", []).unwrap();
    assert!(matches!(replica.clock(), Err(StoreError::NoClock)));
}

#[test]
fn an_empty_budget_has_no_newest_transaction() {
    let replica = install("no_transactions", Some(CLOCK_A));
    replica.connection().execute("DELETE FROM transactions", []).unwrap();
    assert_eq!(replica.freshness().unwrap().newest_transaction, None);
}

#[test]
fn a_stored_time_that_is_no_number_counts_as_never() {
    let replica = install("no_number", Some(CLOCK_A));
    replica
        .connection()
        .execute("INSERT INTO mcp_state (key, value) VALUES ('last_retrieval', 'yesterday')", [])
        .unwrap();
    assert_eq!(replica.freshness().unwrap().last_retrieval, None);
}

#[test]
fn a_stored_time_beyond_all_timestamps_is_an_error() {
    let replica = install("far_future", Some(CLOCK_A));
    replica
        .connection()
        .execute(
            "INSERT INTO mcp_state (key, value) VALUES ('last_retrieval', '18446744073709551615')",
            [],
        )
        .unwrap();
    assert!(matches!(
        replica.freshness(),
        Err(StoreError::Sqlite(QueryError::Overflow))
    ));
}

#[test]
fn a_date_that_is_no_date_is_an_error() {
    let replica = install("bad_date", Some(CLOCK_A));
    replica
        .connection()
        .execute("UPDATE transactions SET date = 'soon'", [])
        .unwrap();
    assert!(matches!(
        replica.freshness(),
        Err(StoreError::Sqlite(QueryError::Cell { column: 0 }))
    ));
}

#[test]
fn a_statement_that_sqlite_refuses_is_an_error() {
    let replica = install("refused", Some(CLOCK_A));
    replica.connection().execute("DROP TABLE mcp_state", []).unwrap();
    assert!(matches!(
        replica.clock(),
        Err(StoreError::Sqlite(QueryError::Sqlite(_)))
    ));
}

#[test]
fn a_failed_clock_write_takes_the_batch_with_it() {
    let mut replica = install("clock_write", Some(CLOCK_A));
    replica
        .connection()
        .execute_batch(
            "CREATE TRIGGER stuck BEFORE UPDATE ON mcp_state
             BEGIN SELECT RAISE(ABORT, 'stuck'); END;",
        )
        .unwrap();

    let result = replica.apply(&[msg(T1, "amount", num(7.0))], CLOCK_B, now(), &as_real);
    assert!(matches!(result, Err(StoreError::Sqlite(QueryError::Sqlite(_)))));

    let amount: i64 = replica
        .connection()
        .query_row("SELECT amount FROM transactions WHERE id = 't0'", [], |r| r.get(0))
        .unwrap();
    assert_eq!(amount, 100);
    assert_eq!(replica.clock().unwrap(), CLOCK_A);
}

#[test]
fn a_replica_knows_its_path() {
    let replica = install("path", None);
    assert_eq!(replica.path(), "replica-g-1.sqlite");
}

#[test]
fn an_install_inside_a_transaction_is_refused() {
    let conn = seeded("install_in_tx");
    conn.execute_batch("BEGIN").unwrap();
    let r = Replica::install(conn, "replica".to_string(), &snapshot(None));
    assert!(matches!(r, Err(StoreError::Sqlite(QueryError::Sqlite(_)))));
}

#[test]
fn a_retrieval_reads_back_to_the_second() {
    let mut replica = install("read_back", Some(CLOCK_A));
    let times = [
        (Timestamp::new(1_800_000_000, 999_999_999).unwrap(), 1_800_000_000),
        (Timestamp::at(0), 0),
        (Timestamp::at(-5), 0),
        (Timestamp::at(i64::MAX), i64::MAX),
    ];
    for (time, seconds) in times {
        replica.apply(&[], CLOCK_A, time, &as_real).unwrap();
        let read = replica.freshness().unwrap().last_retrieval;
        assert_eq!(read, Some(Timestamp::at(seconds)));
    }
}

#[test]
fn a_stored_value_that_is_no_text_is_an_error() {
    let replica = install("no_text", Some(CLOCK_A));
    for value in ["x'00'", "CAST(x'ff' AS TEXT)"] {
        replica
            .connection()
            .execute(&format!("UPDATE mcp_state SET value = {value} WHERE key = 'clock'"), [])
            .unwrap();
        assert!(matches!(
            replica.clock(),
            Err(StoreError::Sqlite(QueryError::Cell { column: 0 }))
        ));
    }
}
