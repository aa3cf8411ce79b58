//! SQLite, as far as this library uses it: statements with parameters go in,
//! rows of cells come out.
use rusqlite::types::Value;
use rusqlite::{Connection, Transaction};
use vstd::prelude::*;

use crate::queries::budget::flows_sql;
use crate::queries::scope::Scope;
use crate::queries::transactions::{count_sql, page_sql, spending_sql, Condition};
use crate::store::apply::{table_info_sql, upsert_sql, TABLES};
use crate::store::replica::{CREATE_STATE, FIND_STATE, GET_STATE, NEWEST, SET_STATE};

verus! {

// -------------------------------------------------------- outside types -----
/// A connection to a SQLite database.
#[verifier::external_type_specification]
#[verifier::external_body]
pub struct ExConnection(Connection);

/// A transaction open on a connection.
#[verifier::external_type_specification]
#[verifier::external_body]
pub struct ExTransaction<'conn>(Transaction<'conn>);

/// What SQLite, or the layer over it, reports on failure.
#[verifier::external_type_specification]
#[verifier::external_body]
pub struct ExError(rusqlite::Error);

/// A value of one of SQLite's storage classes.
#[verifier::external_type_specification]
#[verifier::external_body]
pub struct ExValue(Value);

// ---------------------------------------------------------------- cells -----
/// A value that is bound to a statement.
#[derive(Debug)]
pub enum SqlValue {
    Null,
    Integer(i64),
    Text(String),
    /// A real number or a blob. A batch may store one.
    Other(Value),
}

/// A cell of an answer.
#[derive(Debug)]
pub enum SqlCell {
    Null,
    Integer(i64),
    Text(String),
    /// A real number or a blob. No query reads one.
    Other(Value),
    /// A cell that cannot be had as a value, such as a text that is no UTF-8.
    Unreadable,
}

/// The contents of a [`SqlValue`] or a [`SqlCell`].
pub enum Cell {
    Null,
    Integer(int),
    Text(Seq<char>),
    Other(Value),
    Unreadable,
}

impl View for SqlValue {
    type V = Cell;

    open spec fn view(&self) -> Cell {
        match self {
            SqlValue::Null => Cell::Null,
            SqlValue::Integer(n) => Cell::Integer(*n as int),
            SqlValue::Text(text) => Cell::Text(text@),
            SqlValue::Other(value) => Cell::Other(*value),
        }
    }
}

impl View for SqlCell {
    type V = Cell;

    open spec fn view(&self) -> Cell {
        match self {
            SqlCell::Null => Cell::Null,
            SqlCell::Integer(n) => Cell::Integer(*n as int),
            SqlCell::Text(text) => Cell::Text(text@),
            SqlCell::Other(value) => Cell::Other(*value),
            SqlCell::Unreadable => Cell::Unreadable,
        }
    }
}

/// The contents of a row, or of the values bound to a statement.
pub open spec fn cells<T: View<V = Cell>>(row: Seq<T>) -> Seq<Cell> {
    row.map_values(|value: T| value@)
}

/// The contents of a list of rows.
pub open spec fn table(rows: Seq<Vec<SqlCell>>) -> Seq<Seq<Cell>> {
    rows.map_values(|row: Vec<SqlCell>| cells(row@))
}

/// The contents of the cell that was looked up, where there was a row.
pub open spec fn cell_if_any(found: Option<SqlCell>) -> Option<Cell> {
    match found {
        Some(cell) => Some(cell@),
        None => None,
    }
}

/// A statement with the values bound to it.
pub struct Statement {
    pub sql: Seq<char>,
    pub params: Seq<Cell>,
}

// --------------------------------------------------------------- reading -----
/// A statement of the library that reads a list of rows of which this many
/// cells are wanted: as many as it selects, and for the columns of a table those
/// up to the name. None of them writes, and none begins or ends a transaction.
pub open spec fn own_read(sql: Seq<char>, width: nat) -> bool {
    ||| width == 1 && sql == TABLES@
    ||| width == 2 && {
        ||| sql == crate::queries::resolve::ACCOUNTS@
        ||| sql == crate::queries::resolve::CATEGORIES@
        ||| sql == crate::queries::resolve::PAYEES@
        ||| exists|name: Seq<char>| sql == #[trigger] table_info_sql(name)
    }
    ||| width == 3 && exists|scope: Scope| sql == #[trigger] flows_sql(scope)
    ||| width == 4 && {
        ||| sql == crate::queries::categories::LIST@
        ||| sql == crate::queries::budget::CATEGORIES@
        ||| sql == crate::queries::budget::BUDGETS@
        ||| exists|scope: Scope| sql == #[trigger] spending_sql(scope)
    }
    ||| width == 5 && sql == crate::queries::accounts::LIST@
    ||| width == 8 && exists|wanted: Seq<Condition>, scope: Scope, limit: nat|
        sql == #[trigger] page_sql(wanted, scope, limit)
}

/// A statement of the library that looks up one cell. None of them writes, and
/// none begins or ends a transaction.
pub open spec fn own_lookup(sql: Seq<char>) -> bool {
    ||| sql == FIND_STATE@ || sql == GET_STATE@ || sql == NEWEST@
    ||| sql == crate::queries::budget::TRACKING@
    ||| exists|wanted: Seq<Condition>, scope: Scope| sql == #[trigger] count_sql(wanted, scope)
}

/// SQLite has answered the statement, put to this connection with these
/// parameters, with these rows, of which each is given by its leading cells.
/// Nothing is said of which rows those are, nor that asking again brings the
/// same.
pub uninterp spec fn answered(
    conn: &Connection,
    sql: Seq<char>,
    params: Seq<Cell>,
    rows: Seq<Seq<Cell>>,
) -> bool;

/// SQLite has answered the statement, put to this connection with these
/// parameters, with a first row whose first cell is this one, or with no row.
/// Nothing is said of which cell that is, nor that asking again brings the same.
pub uninterp spec fn looked_up(
    conn: &Connection,
    sql: Seq<char>,
    params: Seq<Cell>,
    found: Option<Cell>,
) -> bool;

/// SQLite, or the layer over it, has refused the statement, put to this
/// connection with these parameters, with this error. Nothing is said of when
/// that happens, nor that asking again is refused too.
pub uninterp spec fn refused(
    conn: &Connection,
    sql: Seq<char>,
    params: Seq<Cell>,
    e: rusqlite::Error,
) -> bool;

/// `Connection::prepare` and `Statement::query_map`: puts a statement to the
/// database and collects the first `width` cells of every row of the answer. A
/// cell that cannot be had as a value is handed out as such.
#[verifier::external_body]
pub(crate) fn query(conn: &Connection, sql: &str, params: &Vec<SqlValue>, width: usize) -> (r:
    Result<Vec<Vec<SqlCell>>, rusqlite::Error>)
    requires
        own_read(sql@, width as nat),
    ensures
        match r {
            Ok(rows) => {
                &&& answered(conn, sql@, cells(params@), table(rows@))
                &&& forall|i: int| 0 <= i < rows@.len() ==> (#[trigger] rows@[i])@.len() == width
            },
            Err(e) => refused(conn, sql@, cells(params@), e),
        },
{
    let mut stmt = conn.prepare(sql)?;
    let given = params.iter().map(|p| match p {
        SqlValue::Null => Value::Null,
        SqlValue::Integer(n) => Value::Integer(*n),
        SqlValue::Text(s) => Value::Text(s.clone()),
        SqlValue::Other(v) => v.clone(),
    });
    let rows = stmt.query_map(rusqlite::params_from_iter(given), |row| {
        Ok((0..width).map(|i| row.get(i).map_or(SqlCell::Unreadable, |v| match v {
            Value::Null => SqlCell::Null, Value::Integer(n) => SqlCell::Integer(n),
            Value::Text(s) => SqlCell::Text(s), other => SqlCell::Other(other),
        })).collect()) })?;
    rows.collect()
}

/// `Connection::query_row` and `OptionalExtension::optional`: puts a statement to
/// the database and reads the first cell of the first row of the answer, where
/// there is a row. Later rows are not looked at. A cell that cannot be had as a
/// value is handed out as such.
#[verifier::external_body]
pub(crate) fn lookup(conn: &Connection, sql: &str, params: &Vec<SqlValue>) -> (r: Result<
    Option<SqlCell>,
    rusqlite::Error,
>)
    requires
        own_lookup(sql@),
    ensures
        match r {
            Ok(found) => looked_up(conn, sql@, cells(params@), cell_if_any(found)),
            Err(e) => refused(conn, sql@, cells(params@), e),
        },
{
    let given = params.iter().map(|p| match p {
        SqlValue::Null => Value::Null,
        SqlValue::Integer(n) => Value::Integer(*n),
        SqlValue::Text(s) => Value::Text(s.clone()),
        SqlValue::Other(v) => v.clone(),
    });
    let found = conn.query_row(sql, rusqlite::params_from_iter(given), |row| {
        Ok(row.get(0).map_or(SqlCell::Unreadable, |v| match v {
            Value::Null => SqlCell::Null, Value::Integer(n) => SqlCell::Integer(n),
            Value::Text(s) => SqlCell::Text(s), other => SqlCell::Other(other),
        })) });
    rusqlite::OptionalExtension::optional(found)
}

// --------------------------------------------------------------- writing -----
/// A statement of the library that writes: one that makes the replica's state
/// table, one that keeps a value in it, or one that writes a cell. None of them
/// begins or ends a transaction.
pub open spec fn own_write(sql: Seq<char>) -> bool {
    ||| sql == CREATE_STATE@
    ||| sql == SET_STATE@
    ||| exists|name: Seq<char>, column: Seq<char>| sql == #[trigger] upsert_sql(name, column)
}

/// The writes that took effect through a connection: one list of statements for
/// each transaction, the oldest first.
pub uninterp spec fn written(conn: &Connection) -> Seq<Seq<Statement>>;

/// The connection a transaction was begun on.
pub uninterp spec fn base(tx: &Transaction<'_>) -> Connection;

/// The statements that a transaction holds so far.
pub uninterp spec fn pending(tx: &Transaction<'_>) -> Seq<Statement>;

/// The transaction is rolled back when it is dropped.
pub uninterp spec fn undone_on_drop(tx: &Transaction<'_>) -> bool;

/// What becomes of a transaction in the end: the statements it commits, as a
/// list of one list, or nothing.
pub uninterp spec fn outcome(tx: &Transaction<'_>) -> Seq<Seq<Statement>>;

/// Opening a transaction on this connection was refused with this error.
pub uninterp spec fn unopened(conn: &Connection, e: rusqlite::Error) -> bool;

/// Committing a transaction on this connection was refused with this error.
pub uninterp spec fn uncommitted(conn: &Connection, e: rusqlite::Error) -> bool;

/// `Connection::transaction`: opens a transaction that holds nothing yet, and
/// that is rolled back when it is dropped. On a connection that is already in a
/// transaction it fails. What the connection will have written
/// once the transaction is gone is what it had written before and what becomes
/// of the transaction.
#[verifier::external_body]
pub(crate) fn begin(conn: &mut Connection) -> (r: Result<Transaction<'_>, rusqlite::Error>)
    ensures
        match r {
            Ok(tx) => {
                &&& base(&tx) == *old(conn)
                &&& pending(&tx).len() == 0
                &&& undone_on_drop(&tx)
                &&& written(final(conn)) == written(old(conn)) + outcome(&tx)
            },
            Err(e) => unopened(old(conn), e) && written(final(conn)) == written(old(conn)),
        },
{
    conn.transaction()
}

/// `Connection::prepare` and `Statement::query_map` inside a transaction: puts a
/// statement without parameters to the database and collects the first `width`
/// cells of every row of the answer. A cell that cannot be had as a value is
/// handed out as such. Reading adds nothing to what the transaction holds. On
/// failure, after which SQLite may have ended the transaction, it is
/// dropped, which rolls back what is left of it.
#[verifier::external_body]
pub(crate) fn query_in<'c>(tx: Transaction<'c>, sql: &str, width: usize) -> (r: Result<
    (Transaction<'c>, Vec<Vec<SqlCell>>),
    rusqlite::Error,
>)
    requires
        own_read(sql@, width as nat),
        undone_on_drop(&tx),
    ensures
        match r {
            Ok((after, rows)) => {
                &&& base(&after) == base(&tx)
                &&& undone_on_drop(&after)
                &&& pending(&after) == pending(&tx)
                &&& outcome(&after) == outcome(&tx)
                &&& answered(&base(&tx), sql@, Seq::empty(), table(rows@))
                &&& forall|i: int| 0 <= i < rows@.len() ==> (#[trigger] rows@[i])@.len() == width
            },
            Err(e) => outcome(&tx).len() == 0 && refused(&base(&tx), sql@, Seq::empty(), e),
        },
{
    let mut stmt = tx.prepare(sql)?;
    let rows = stmt.query_map([], |row| {
        Ok((0..width).map(|i| row.get(i).map_or(SqlCell::Unreadable, |v| match v {
            Value::Null => SqlCell::Null,
            Value::Integer(n) => SqlCell::Integer(n),
            Value::Text(s) => SqlCell::Text(s),
            other => SqlCell::Other(other),
        })).collect())
    })?.collect::<Result<_, _>>()?;
    drop(stmt);
    Ok((tx, rows))
}

/// `Connection::execute` inside a transaction: a statement that succeeds is
/// added to what the transaction holds. On failure the transaction is dropped,
/// which rolls it back.
#[verifier::external_body]
pub(crate) fn execute<'c>(tx: Transaction<'c>, sql: &str, params: &Vec<SqlValue>) -> (r: Result<
    Transaction<'c>,
    rusqlite::Error,
>)
    requires
        own_write(sql@),
        undone_on_drop(&tx),
    ensures
        match r {
            Ok(after) => {
                &&& base(&after) == base(&tx)
                &&& undone_on_drop(&after)
                &&& pending(&after) == pending(&tx).push(
                    Statement { sql: sql@, params: cells(params@) },
                )
                &&& outcome(&after) == outcome(&tx)
            },
            Err(e) => outcome(&tx).len() == 0 && refused(
                &base(&tx),
                sql@,
                cells(params@),
                e,
            ),
        },
{
    let given = params.iter().map(|p| match p {
        SqlValue::Null => Value::Null,
        SqlValue::Integer(n) => Value::Integer(*n),
        SqlValue::Text(s) => Value::Text(s.clone()),
        SqlValue::Other(v) => v.clone(),
    });
    tx.execute(sql, rusqlite::params_from_iter(given))?;
    Ok(tx)
}

/// `Transaction::commit`: commits what the transaction holds. A commit that
/// fails leaves the transaction open, and dropping it then rolls it back.
#[verifier::external_body]
pub(crate) fn commit(tx: Transaction<'_>) -> (r: Result<(), rusqlite::Error>)
    requires
        undone_on_drop(&tx),
    ensures
        match r {
            Ok(_) => outcome(&tx) == seq![pending(&tx)],
            Err(e) => outcome(&tx).len() == 0 && uncommitted(&base(&tx), e),
        },
{
    tx.commit()
}

/// `Transaction::rollback`: nothing that the transaction holds is committed,
/// whether or not SQLite had anything left to undo.
#[verifier::external_body]
pub(crate) fn roll_back(tx: Transaction<'_>) -> (r: Result<(), rusqlite::Error>)
    requires
        undone_on_drop(&tx),
    ensures
        match r {
            Ok(_) => outcome(&tx).len() == 0,
            Err(_) => outcome(&tx).len() == 0,
        },
{
    tx.rollback()
}

// -------------------------------------------------------------- decoding -----
/// Why a query has no answer.
#[derive(Debug)]
pub enum QueryError {
    /// SQLite refused the statement or failed to run it.
    Sqlite(rusqlite::Error),
    /// The cell in this column does not hold what belongs there.
    Cell { column: usize },
    /// The statement was to bring a row and brought none.
    NoRow,
    /// A sum of amounts leaves the range of an `i64`.
    Overflow,
}

/// The integer in a column.
pub open spec fn integer_in(row: Seq<Cell>, column: int) -> Option<int> {
    if 0 <= column < row.len() {
        match row[column] {
            Cell::Integer(n) => Some(n),
            _ => None,
        }
    } else {
        None
    }
}

/// The integer in a column, where a `u32` holds it.
pub open spec fn small_in(row: Seq<Cell>, column: int) -> Option<int> {
    match integer_in(row, column) {
        Some(n) => if 0 <= n <= u32::MAX {
            Some(n)
        } else {
            None
        },
        None => None,
    }
}

/// The text in a column.
pub open spec fn text_in(row: Seq<Cell>, column: int) -> Option<Seq<char>> {
    if 0 <= column < row.len() {
        match row[column] {
            Cell::Text(text) => Some(text),
            _ => None,
        }
    } else {
        None
    }
}

/// The text in a column that may be null.
pub open spec fn text_or_null_in(row: Seq<Cell>, column: int) -> Option<Option<Seq<char>>> {
    if 0 <= column < row.len() {
        match row[column] {
            Cell::Text(text) => Some(Some(text)),
            Cell::Null => Some(None),
            _ => None,
        }
    } else {
        None
    }
}

/// An optional text by its contents.
pub open spec fn text_if_any(text: Option<String>) -> Option<Seq<char>> {
    match text {
        Some(s) => Some(s@),
        None => None,
    }
}

pub(crate) fn get_integer(row: &Vec<SqlCell>, column: usize) -> (r: Result<i64, QueryError>)
    ensures
        match r {
            Ok(n) => integer_in(cells(row@), column as int) == Some(n as int),
            Err(e) => integer_in(cells(row@), column as int) is None && e == (QueryError::Cell {
                column,
            }),
        },
{
    if column < row.len() {
        assert(cells(row@)[column as int] == row@[column as int]@);
        if let SqlCell::Integer(n) = &row[column] {
            return Ok(*n);
        }
    }
    Err(QueryError::Cell { column })
}

pub(crate) fn get_small(row: &Vec<SqlCell>, column: usize) -> (r: Result<u32, QueryError>)
    ensures
        match r {
            Ok(n) => small_in(cells(row@), column as int) == Some(n as int),
            Err(e) => small_in(cells(row@), column as int) is None && e == (QueryError::Cell {
                column,
            }),
        },
{
    match get_integer(row, column) {
        Ok(n) => if 0 <= n && n <= u32::MAX as i64 {
            Ok(n as u32)
        } else {
            Err(QueryError::Cell { column })
        },
        Err(e) => Err(e),
    }
}

pub(crate) fn get_text(row: &Vec<SqlCell>, column: usize) -> (r: Result<String, QueryError>)
    ensures
        match r {
            Ok(s) => text_in(cells(row@), column as int) == Some(s@),
            Err(e) => text_in(cells(row@), column as int) is None && e == (QueryError::Cell {
                column,
            }),
        },
{
    if column < row.len() {
        assert(cells(row@)[column as int] == row@[column as int]@);
        if let SqlCell::Text(s) = &row[column] {
            return Ok(s.clone());
        }
    }
    Err(QueryError::Cell { column })
}

pub(crate) fn get_text_or_null(row: &Vec<SqlCell>, column: usize) -> (r: Result<
    Option<String>,
    QueryError,
>)
    ensures
        match r {
            Ok(s) => text_or_null_in(cells(row@), column as int) == Some(text_if_any(s)),
            Err(e) => text_or_null_in(cells(row@), column as int) is None && e == (
            QueryError::Cell { column }),
        },
{
    if column < row.len() {
        assert(cells(row@)[column as int] == row@[column as int]@);
        match &row[column] {
            SqlCell::Text(s) => {
                return Ok(Some(s.clone()));
            },
            SqlCell::Null => {
                return Ok(None);
            },
            _ => {},
        }
    }
    Err(QueryError::Cell { column })
}

/// What a list of rows stands for, given what one row stands for or which of
/// its columns is unusable. The first unusable cell decides.
pub open spec fn decoded<V>(
    rows: Seq<Seq<Cell>>,
    one: spec_fn(Seq<Cell>) -> Result<V, nat>,
) -> Result<Seq<V>, nat>
    decreases rows.len(),
{
    if rows.len() == 0 {
        Ok(Seq::empty())
    } else {
        match decoded(rows.drop_last(), one) {
            Err(column) => Err(column),
            Ok(earlier) => match one(rows.last()) {
                Err(column) => Err(column),
                Ok(v) => Ok(earlier.push(v)),
            },
        }
    }
}

/// A result of decoding is the one that the cells call for.
pub open spec fn agrees<T: View>(r: Result<T, QueryError>, wanted: Result<T::V, nat>) -> bool {
    match (r, wanted) {
        (Ok(t), Ok(v)) => t@ == v,
        (Err(QueryError::Cell { column }), Err(c)) => column == c,
        _ => false,
    }
}

/// The contents of a list.
pub open spec fn views<T: View>(items: Seq<T>) -> Seq<T::V> {
    items.map_values(|item: T| item@)
}

/// A list that was decoded is the one that the cells call for.
pub open spec fn agree<T: View>(r: Result<Vec<T>, QueryError>, wanted: Result<Seq<T::V>, nat>) -> bool {
    match (r, wanted) {
        (Ok(items), Ok(vs)) => views(items@) == vs,
        (Err(QueryError::Cell { column }), Err(c)) => column == c,
        _ => false,
    }
}

/// Decodes row after row until one is unusable.
pub(crate) fn decode_rows<T: View, F: Fn(&Vec<SqlCell>) -> Result<T, QueryError>>(
    rows: &Vec<Vec<SqlCell>>,
    one: F,
    Ghost(wanted): Ghost<spec_fn(Seq<Cell>) -> Result<T::V, nat>>,
) -> (r: Result<Vec<T>, QueryError>)
    requires
        forall|row: &Vec<SqlCell>| call_requires(one, (row,)),
        forall|row: &Vec<SqlCell>, item: Result<T, QueryError>| #[trigger]
            call_ensures(one, (row,), item) ==> agrees(item, wanted(cells(row@))),
    ensures
        agree(r, decoded(table(rows@), wanted)),
{
    let mut out: Vec<T> = Vec::new();
    let mut i: usize = 0;
    assert(table(rows@).take(0) =~= Seq::empty());
    assert(views(out@) =~= Seq::empty());
    while i < rows.len()
        invariant
            i <= rows@.len(),
            forall|row: &Vec<SqlCell>| call_requires(one, (row,)),
            forall|row: &Vec<SqlCell>, item: Result<T, QueryError>| #[trigger]
                call_ensures(one, (row,), item) ==> agrees(item, wanted(cells(row@))),
            decoded(table(rows@).take(i as int), wanted) == Ok::<Seq<T::V>, nat>(views(out@)),
        decreases rows@.len() - i,
    {
        let ghost upto = table(rows@).take(i + 1);
        assert(upto.drop_last() =~= table(rows@).take(i as int));
        assert(upto.last() == cells(rows@[i as int]@));
        let row = &rows[i];
        match one(row) {
            Ok(item) => {
                let ghost before = views(out@);
                let ghost v = item@;
                out.push(item);
                assert(views(out@) =~= before.push(v));
            },
            Err(e) => {
                proof {
                    first_failure_decides(table(rows@), i as int, wanted);
                }
                return Err(e);
            },
        }
        i += 1;
    }
    assert(table(rows@).take(i as int) =~= table(rows@));
    Ok(out)
}

/// Rows after an unusable one do not matter.
proof fn first_failure_decides<V>(
    rows: Seq<Seq<Cell>>,
    i: int,
    one: spec_fn(Seq<Cell>) -> Result<V, nat>,
)
    requires
        0 <= i < rows.len(),
        decoded(rows.take(i), one) is Ok,
        one(rows[i]) is Err,
    ensures
        decoded(rows, one) == Err::<Seq<V>, nat>(one(rows[i])->Err_0),
    decreases rows.len(),
{
    if i == rows.len() - 1 {
        assert(rows.drop_last() =~= rows.take(i));
    } else {
        assert(rows.drop_last().take(i) =~= rows.take(i));
        first_failure_decides(rows.drop_last(), i, one);
    }
}

} // verus!
