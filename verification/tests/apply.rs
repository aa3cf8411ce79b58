use std::cell::Cell;

use actual_mcp::actual::messages::{CrdtValue, SyncMessage};
use actual_mcp::actual::number::Number;
use actual_mcp::store::apply::{apply_batch, Schema, Table};
use actual_mcp::store::error::StoreError;
use actual_mcp::store::sql::QueryError;
use rusqlite::types::Value;
use rusqlite::Connection;

fn as_real(bits: u64) -> Value {
    Value::Real(f64::from_bits(bits))
}

fn text(s: &str) -> CrdtValue {
    CrdtValue::Str(s.to_string())
}

fn num(n: f64) -> CrdtValue {
    CrdtValue::Num(Number::from_bits(n.to_bits()))
}

const T1: &str = "2026-09-06T20:00:00.000Z-0001-aaaaaaaaaaaaaaaa";
const T2: &str = "2026-09-06T20:00:00.000Z-0002-aaaaaaaaaaaaaaaa";
const T3: &str = "2026-09-06T20:00:00.000Z-0003-aaaaaaaaaaaaaaaa";

fn db() -> Connection {
    let c = Connection::open_in_memory().expect("in-memory db");
    c.execute_batch(
        "CREATE TABLE transactions (
             id TEXT PRIMARY KEY,
             amount INTEGER,
             notes TEXT,
             tombstone INTEGER DEFAULT 0
         );
         CREATE TABLE accounts (id TEXT PRIMARY KEY, name TEXT);",
    )
    .expect("schema");
    c
}

fn msg(ts: &str, dataset: &str, row: &str, column: &str, value: CrdtValue) -> SyncMessage {
    SyncMessage {
        timestamp: ts.to_string(),
        dataset: dataset.to_string(),
        row: row.to_string(),
        column: column.to_string(),
        value,
    }
}

/// Apply and commit, returning how many were applied.
fn run(conn: &mut Connection, messages: &[SyncMessage]) -> Result<usize, StoreError> {
    apply_batch(conn, messages, &as_real)
}

#[test]
fn inserts_a_missing_row() {
    let mut c = db();
    run(
        &mut c,
        &[msg(
            T1,
            "transactions",
            "t1",
            "amount",
            num(-94300.0),
        )],
    )
    .unwrap();

    let amount: i64 = c
        .query_row("SELECT amount FROM transactions WHERE id = 't1'", [], |r| {
            r.get(0)
        })
        .unwrap();
    assert_eq!(amount, -94300);
}

#[test]
fn updates_an_existing_row() {
    let mut c = db();
    c.execute(
        "INSERT INTO transactions (id, amount) VALUES ('t1', 100)",
        [],
    )
    .unwrap();

    run(
        &mut c,
        &[msg(
            T1,
            "transactions",
            "t1",
            "amount",
            num(-94300.0),
        )],
    )
    .unwrap();

    let amount: i64 = c
        .query_row("SELECT amount FROM transactions WHERE id = 't1'", [], |r| {
            r.get(0)
        })
        .unwrap();
    assert_eq!(amount, -94300, "upsert should update, not duplicate");

    let rows: i64 = c
        .query_row("SELECT count(*) FROM transactions", [], |r| r.get(0))
        .unwrap();
    assert_eq!(rows, 1);
}

/// Money is cents in an INTEGER column. A whole number must not land as REAL.
#[test]
fn whole_numbers_are_stored_as_integers() {
    let mut c = db();
    run(
        &mut c,
        &[msg(
            T1,
            "transactions",
            "t1",
            "amount",
            num(-94300.0),
        )],
    )
    .unwrap();

    let kind: String = c
        .query_row(
            "SELECT typeof(amount) FROM transactions WHERE id = 't1'",
            [],
            |r| r.get(0),
        )
        .unwrap();
    assert_eq!(kind, "integer");
}

#[test]
fn null_values_are_stored_as_null() {
    let mut c = db();
    run(
        &mut c,
        &[msg(T1, "transactions", "t1", "notes", CrdtValue::Null)],
    )
    .unwrap();

    let kind: String = c
        .query_row(
            "SELECT typeof(notes) FROM transactions WHERE id = 't1'",
            [],
            |r| r.get(0),
        )
        .unwrap();
    assert_eq!(kind, "null");
}

/// Last write wins comes from ordering, so out-of-order input must be sorted.
#[test]
fn applies_in_timestamp_order() {
    let mut c = db();
    run(
        &mut c,
        &[
            msg(
                T3,
                "transactions",
                "t1",
                "notes",
                CrdtValue::Str("last".into()),
            ),
            msg(
                T1,
                "transactions",
                "t1",
                "notes",
                CrdtValue::Str("first".into()),
            ),
            msg(
                T2,
                "transactions",
                "t1",
                "notes",
                CrdtValue::Str("middle".into()),
            ),
        ],
    )
    .unwrap();

    let notes: String = c
        .query_row("SELECT notes FROM transactions WHERE id = 't1'", [], |r| {
            r.get(0)
        })
        .unwrap();
    assert_eq!(notes, "last");
}

/// Actual's own apply has this guard: `prefs` has no table behind it.
#[test]
fn prefs_dataset_is_skipped() {
    let mut c = db();
    let applied = run(
        &mut c,
        &[msg(
            T1,
            "prefs",
            "theme",
            "value",
            CrdtValue::Str("dark".into()),
        )],
    )
    .expect("prefs must not be an error");
    assert_eq!(applied, 0);
}

#[test]
fn unknown_table_is_rejected() {
    let mut c = db();
    let err = run(&mut c, &[msg(T1, "not_a_table", "x", "y", CrdtValue::Null)]).unwrap_err();
    assert!(
        matches!(err, StoreError::UnknownTable { .. }),
        "got {err:?}"
    );
}

#[test]
fn unknown_column_is_rejected() {
    let mut c = db();
    let err = run(
        &mut c,
        &[msg(T1, "transactions", "t1", "nope", CrdtValue::Null)],
    )
    .unwrap_err();
    assert!(
        matches!(err, StoreError::UnknownColumn { .. }),
        "got {err:?}"
    );
}

/// Identifiers cannot be bound as parameters, so a hostile or drifted
/// column name must be rejected rather than formatted into SQL.
#[test]
fn sql_injection_in_column_is_rejected() {
    let mut c = db();
    let err = run(
        &mut c,
        &[msg(
            T1,
            "transactions",
            "t1",
            r#"amount"; DROP TABLE accounts; --"#,
            CrdtValue::Null,
        )],
    )
    .unwrap_err();
    assert!(
        matches!(err, StoreError::UnknownColumn { .. }),
        "got {err:?}"
    );

    let still_there: i64 = c
        .query_row(
            "SELECT count(*) FROM sqlite_master WHERE name = 'accounts'",
            [],
            |r| r.get(0),
        )
        .unwrap();
    assert_eq!(still_there, 1, "accounts table should be untouched");
}

#[test]
fn rewriting_the_primary_key_is_rejected() {
    let mut c = db();
    let err = run(
        &mut c,
        &[msg(
            T1,
            "transactions",
            "t1",
            "id",
            CrdtValue::Str("t2".into()),
        )],
    )
    .unwrap_err();
    assert!(
        matches!(err, StoreError::RewritesPrimaryKey { .. }),
        "got {err:?}"
    );
}

/// A failure anywhere must leave the database exactly as it was.
#[test]
fn a_bad_message_rolls_back_the_whole_batch() {
    let mut c = db();
    let result = run(
        &mut c,
        &[
            msg(T1, "transactions", "t1", "amount", num(1.0)),
            msg(T2, "transactions", "t2", "nope", CrdtValue::Null),
        ],
    );
    assert!(result.is_err());

    let rows: i64 = c
        .query_row("SELECT count(*) FROM transactions", [], |r| r.get(0))
        .unwrap();
    assert_eq!(rows, 0, "the good message must not survive a failed batch");
}

fn one<T: rusqlite::types::FromSql>(c: &Connection, sql: &str) -> T {
    c.query_row(sql, [], |r| r.get(0)).unwrap()
}

#[test]
fn fractions_are_stored_as_reals() {
    let mut c = db();
    run(&mut c, &[msg(T1, "transactions", "t1", "notes", num(0.5))]).unwrap();
    // A text column keeps what a real reads as.
    assert_eq!(one::<String>(&c, "SELECT notes FROM transactions"), "0.5");
    run(&mut c, &[msg(T1, "transactions", "t1", "amount", num(0.25))]).unwrap();
    assert_eq!(one::<f64>(&c, "SELECT amount FROM transactions"), 0.25);
}

#[test]
fn numbers_that_are_not_finite_are_rejected() {
    let mut c = db();
    let err = run(&mut c, &[msg(T1, "transactions", "t1", "amount", num(f64::NAN))]).unwrap_err();
    assert_eq!(
        err.message(),
        format!("sync message {T1} carries a number that cannot be stored: NaN")
    );
    assert_eq!(one::<i64>(&c, "SELECT count(*) FROM transactions"), 0);
}

#[test]
fn refusals_say_what_was_aimed_at() {
    let mut c = db();
    let mut refusal = |dataset: &str, column: &str| {
        run(&mut c, &[msg(T1, dataset, "x", column, CrdtValue::Null)]).unwrap_err().message()
    };
    assert_eq!(
        refusal("nowhere", "y"),
        format!("sync message {T1} targets unknown table \"nowhere\"")
    );
    assert_eq!(
        refusal("accounts", "y"),
        format!("sync message {T1} targets unknown column \"y\" on table accounts")
    );
    assert_eq!(
        refusal("accounts", "id"),
        format!("sync message {T1} tries to rewrite the primary key of accounts")
    );
}

#[test]
fn the_earliest_bad_message_is_the_one_that_is_refused() {
    let mut c = db();
    let err = run(
        &mut c,
        &[
            msg(T3, "nowhere", "x", "y", CrdtValue::Null),
            msg(T2, "accounts", "x", "y", CrdtValue::Null),
        ],
    )
    .unwrap_err();
    assert!(matches!(err, StoreError::UnknownColumn { timestamp, .. } if timestamp == T2));
}

#[test]
fn edits_of_one_timestamp_apply_as_they_came() {
    let mut c = db();
    let text = |s: &str| CrdtValue::Str(s.to_string());
    run(
        &mut c,
        &[
            msg(T2, "transactions", "t1", "notes", text("first")),
            msg(T2, "transactions", "t1", "notes", text("second")),
            msg(T1, "transactions", "t1", "notes", text("oldest")),
        ],
    )
    .unwrap();
    assert_eq!(one::<String>(&c, "SELECT notes FROM transactions"), "second");
}

#[test]
fn the_order_of_arrival_makes_no_difference() {
    let text = |s: &str| CrdtValue::Str(s.to_string());
    let batch = |order: [usize; 3]| {
        let mut c = db();
        let stamps = [T1, T2, T3];
        let messages: Vec<SyncMessage> = order
            .iter()
            .map(|i| msg(stamps[*i], "transactions", "t1", "notes", text(stamps[*i])))
            .collect();
        run(&mut c, &messages).unwrap();
        one::<String>(&c, "SELECT notes FROM transactions")
    };
    for order in [[0, 1, 2], [2, 1, 0], [1, 2, 0], [2, 0, 1]] {
        assert_eq!(batch(order), T3);
    }
}

#[test]
fn a_schema_knows_its_tables_and_columns() {
    let columns = vec!["id".to_string(), "amount".to_string()];
    let schema = Schema { tables: vec![Table { name: "transactions".to_string(), columns }] };
    assert_eq!(schema.knows("transactions", "amount"), (true, true));
    assert_eq!(schema.knows("transactions", "name"), (true, false));
    assert_eq!(schema.knows("prefs", "id"), (false, false));
}

/// Only the names of the columns are read: what else the schema holds does not
/// have to be readable text.
#[test]
fn odd_column_types_do_not_matter() {
    let mut c = db();
    c.execute_batch("CREATE TABLE odd (id TEXT PRIMARY KEY, v BLOB DEFAULT x'ff')").unwrap();
    assert_eq!(run(&mut c, &[msg(T1, "odd", "r", "v", text("x"))]).unwrap(), 1);
    assert_eq!(one::<String>(&c, "SELECT v FROM odd"), "x");
}

#[test]
fn a_batch_counts_its_edits_and_leaves_preferences_out() {
    let mut c = db();
    let batch = [
        msg(T3, "transactions", "t1", "notes", text("last")),
        msg(T1, "prefs", "p", "value", text("x")),
        msg(T1, "transactions", "t1", "notes", text("first")),
        msg(T2, "accounts", "a1", "name", text("Cash")),
    ];
    assert_eq!(run(&mut c, &batch).unwrap(), 3);
    assert_eq!(one::<String>(&c, "SELECT notes FROM transactions"), "last");
    assert_eq!(one::<String>(&c, "SELECT name FROM accounts"), "Cash");
    assert_eq!(one::<i64>(&c, "SELECT count(*) FROM transactions"), 1);
}

#[test]
fn a_batch_needs_a_transaction_of_its_own() {
    let mut c = db();
    c.execute_batch("BEGIN").unwrap();
    let r = run(&mut c, &[msg(T1, "accounts", "a1", "name", text("Cash"))]);
    assert!(matches!(r, Err(StoreError::Sqlite(QueryError::Sqlite(_)))));
    c.execute_batch("ROLLBACK").unwrap();
    assert_eq!(one::<i64>(&c, "SELECT count(*) FROM accounts"), 0);
}

#[test]
fn messages_can_be_copied() {
    let m = msg(T1, "accounts", "a1", "name", text("Cash"));
    assert_eq!(m.clone(), m);
}

#[test]
fn each_fraction_is_stored_as_it_is_answered() {
    let asked = Cell::new(0);
    let count = |_: u64| {
        asked.set(asked.get() + 1);
        Value::Integer(asked.get())
    };
    let mut c = db();
    let batch = [
        msg(T1, "transactions", "t1", "amount", num(0.5)),
        msg(T2, "transactions", "t2", "amount", num(30.0)),
        msg(T3, "transactions", "t3", "amount", num(0.5)),
    ];
    assert_eq!(apply_batch(&mut c, &batch, &count).unwrap(), 3);
    let amounts = "SELECT group_concat(amount) FROM (SELECT amount FROM transactions ORDER BY id)";
    assert_eq!(one::<String>(&c, amounts), "1,30,2");
}

#[test]
fn every_number_that_is_not_finite_is_named() {
    for (n, name) in [(f64::NAN, "NaN"), (f64::INFINITY, "inf"), (f64::NEG_INFINITY, "-inf")] {
        let err = run(&mut db(), &[msg(T1, "accounts", "a1", "name", num(n))]).unwrap_err();
        assert!(err.message().ends_with(&format!(" cannot be stored: {name}")));
    }
}
