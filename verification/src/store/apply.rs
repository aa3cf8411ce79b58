//! Applying edits to the local copy.
use rusqlite::types::Value;
use rusqlite::{Connection, Transaction};
use vstd::prelude::*;

use crate::actual::messages::{CrdtValue, Datum, Edit, SyncMessage};
use crate::actual::number::{as_stored, finite, odd, whole};
use crate::ordering::{
    a_stable_order_exists, positions, ranks, sorted_positions, stable_order, Rank, SortKey,
};
use crate::queries::reading::every_row_is_read;
use crate::queries::statements::{tables_select, what_is_kept_is_found_by_its_key};
use crate::store::error::StoreError;
use crate::store::language::{Contents, Defaults, Term, Upsert};
use crate::store::sql::{
    agree, agrees, answered, base, begin, cells, commit, decode_rows, decoded, execute, get_text,
    outcome, own_read, own_write, pending, query_in, refused, roll_back, table, text_in,
    uncommitted, undone_on_drop, unopened, views, written, Cell, QueryError, SqlCell, SqlValue,
    Statement,
};
use crate::text::{decimal, same_text, text_less, text_order_is_total};

verus! {

/// A dataset that carries no table behind it. Actual's own `apply` has the same
/// guard: "Do nothing, it doesn't exist in the db".
pub const PSEUDO_DATASET: &'static str = "prefs";

/// The primary key of every table that receives edits.
pub const PRIMARY_KEY: &'static str = "id";

// ---------------------------------------------------------------- schema -----
/// A table and its columns.
pub struct Table {
    pub name: String,
    pub columns: Vec<String>,
}

/// The contents of a [`Table`].
pub struct Shape {
    pub name: Seq<char>,
    pub columns: Seq<Seq<char>>,
}

impl View for Table {
    type V = Shape;

    open spec fn view(&self) -> Shape {
        Shape { name: self.name@, columns: views(self.columns@) }
    }
}

/// The replica's table and column names, read once per batch.
///
/// `dataset` and `column` arrive from the server and are interpolated into SQL
/// as *identifiers* (`?` placeholders only bind values, never identifiers), so
/// both must be checked against the real schema before use.
pub struct Schema {
    pub tables: Vec<Table>,
}

impl View for Schema {
    type V = Seq<Shape>;

    open spec fn view(&self) -> Seq<Shape> {
        views(self.tables@)
    }
}

/// The statement that lists the tables.
pub const TABLES: &'static str = "SELECT name FROM sqlite_master WHERE type = 'table'";

/// The statement that lists the columns of a table.
pub open spec fn table_info_sql(name: Seq<char>) -> Seq<char> {
    "PRAGMA table_info(\""@ + name + "\")"@
}

/// The text in a column of a row.
pub open spec fn text_at(row: Seq<Cell>, column: int) -> Result<Seq<char>, nat> {
    match text_in(row, column) {
        Some(text) => Ok(text),
        None => Err(column as nat),
    }
}

/// The texts in a column of an answer.
pub open spec fn texts_at(rows: Seq<Seq<Cell>>, column: int) -> Result<Seq<Seq<char>>, nat> {
    decoded(rows, |row: Seq<Cell>| text_at(row, column))
}

/// The database has listed tables of these names.
pub open spec fn has_names(conn: &Connection, names: Seq<Seq<char>>) -> bool {
    exists|rows: Seq<Seq<Cell>>| #[trigger]
        answered(conn, TABLES@, Seq::empty(), rows) && texts_at(rows, 0) == Ok::<
            Seq<Seq<char>>,
            nat,
        >(names)
}

/// The database has listed this table's columns.
pub open spec fn has_shape(conn: &Connection, shape: Shape) -> bool {
    exists|rows: Seq<Seq<Cell>>| #[trigger]
        answered(conn, table_info_sql(shape.name), Seq::empty(), rows) && texts_at(rows, 1) == Ok::<
            Seq<Seq<char>>,
            nat,
        >(shape.columns)
}

/// The database has listed these tables, and the columns of each.
pub open spec fn has_tables(conn: &Connection, tables: Seq<Shape>) -> bool {
    &&& has_names(conn, tables.map_values(|shape: Shape| shape.name))
    &&& forall|i: int| 0 <= i < tables.len() ==> has_shape(conn, #[trigger] tables[i])
}

/// The question for the columns of one of these tables was refused, or answered
/// with a cell that is no text.
pub open spec fn columns_failed(
    conn: &Connection,
    names: Seq<Seq<char>>,
    i: int,
    cause: QueryError,
) -> bool {
    0 <= i < names.len() && match cause {
        QueryError::Sqlite(e) => refused(conn, table_info_sql(names[i]), Seq::empty(), e),
        QueryError::Cell { column } => exists|rows: Seq<Seq<Cell>>| #[trigger]
            answered(conn, table_info_sql(names[i]), Seq::empty(), rows) && texts_at(rows, 1)
                == Err::<Seq<Seq<char>>, nat>(column as nat),
        _ => false,
    }
}

/// Reading the schema failed for this cause: the question for the tables was
/// refused or answered with a cell that is no text, or the one for the columns
/// of a table was.
pub open spec fn schema_failed(conn: &Connection, cause: QueryError) -> bool {
    ||| match cause {
        QueryError::Sqlite(e) => refused(conn, TABLES@, Seq::empty(), e),
        QueryError::Cell { column } => exists|rows: Seq<Seq<Cell>>| #[trigger]
            answered(conn, TABLES@, Seq::empty(), rows) && texts_at(rows, 0) == Err::<
                Seq<Seq<char>>,
                nat,
            >(column as nat),
        _ => false,
    }
    ||| exists|names: Seq<Seq<char>>, i: int|
        has_names(conn, names) && #[trigger] columns_failed(conn, names, i, cause)
}

/// The columns of a table, where it is known. Of two tables of one name the
/// later counts.
pub open spec fn columns_of(tables: Seq<Shape>, name: Seq<char>) -> Option<Seq<Seq<char>>>
    decreases tables.len(),
{
    if tables.len() == 0 {
        None
    } else if tables.last().name == name {
        Some(tables.last().columns)
    } else {
        columns_of(tables.drop_last(), name)
    }
}

/// Reads the texts in a column out of the rows of an answer.
pub fn read_texts(rows: &Vec<Vec<SqlCell>>, column: usize) -> (r: Result<Vec<String>, QueryError>)
    ensures
        agree(r, texts_at(table(rows@), column as int)),
{
    let one = |row: &Vec<SqlCell>| -> (r: Result<String, QueryError>)
        ensures
            agrees(r, text_at(cells(row@), column as int)),
        { get_text(row, column) };
    decode_rows(rows, one, Ghost(|row: Seq<Cell>| text_at(row, column as int)))
}

/// The outcome of asking for the texts in a column is this.
spec fn listed(
    conn: &Connection,
    sql: Seq<char>,
    column: int,
    r: Result<Seq<Seq<char>>, QueryError>,
) -> bool {
    match r {
        Ok(found) => exists|rows: Seq<Seq<Cell>>| #[trigger]
            answered(conn, sql, Seq::empty(), rows) && texts_at(rows, column) == Ok::<
                Seq<Seq<char>>,
                nat,
            >(found),
        Err(QueryError::Sqlite(e)) => refused(conn, sql, Seq::empty(), e),
        Err(QueryError::Cell { column: c }) => exists|rows: Seq<Seq<Cell>>| #[trigger]
            answered(conn, sql, Seq::empty(), rows) && texts_at(rows, column) == Err::<
                Seq<Seq<char>>,
                nat,
            >(c as nat),
        Err(_) => false,
    }
}

fn list_texts<'c>(tx: Transaction<'c>, sql: &str, column: usize) -> (r: Result<
    (Transaction<'c>, Vec<String>),
    QueryError,
>)
    requires
        own_read(sql@, (column + 1) as nat),
        undone_on_drop(&tx),
        column < 100,
    ensures
        match r {
            Ok((after, found)) => {
                &&& base(&after) == base(&tx)
                &&& undone_on_drop(&after)
                &&& pending(&after) == pending(&tx)
                &&& outcome(&after) == outcome(&tx)
                &&& listed(&base(&tx), sql@, column as int, Ok(views(found@)))
            },
            Err(e) => outcome(&tx).len() == 0 && listed(&base(&tx), sql@, column as int, Err(e)),
        },
{
    match query_in(tx, sql, column + 1) {
        Err(e) => Err(QueryError::Sqlite(e)),
        Ok((after, rows)) => match read_texts(&rows, column) {
            Ok(found) => Ok((after, found)),
            Err(e) => {
                let _ = roll_back(after);
                Err(e)
            },
        },
    }
}

impl Schema {
    /// Reads the schema of a database inside a transaction. On failure the
    /// transaction is rolled back.
    pub(crate) fn load<'c>(tx: Transaction<'c>) -> (r: Result<(Transaction<'c>, Self), StoreError>)
        requires
            undone_on_drop(&tx),
        ensures
            match r {
                Ok((after, schema)) => {
                    &&& base(&after) == base(&tx)
                    &&& undone_on_drop(&after)
                    &&& pending(&after) == pending(&tx)
                    &&& outcome(&after) == outcome(&tx)
                    &&& has_tables(&base(&tx), schema@)
                },
                Err(e) => outcome(&tx).len() == 0 && (e matches StoreError::Sqlite(cause)
                    && schema_failed(&base(&tx), cause)),
            },
    {
        let ghost (at, held, fate) = (base(&tx), pending(&tx), outcome(&tx));
        let (mut open, names) = match list_texts(tx, TABLES, 0) {
            Ok(found) => found,
            Err(e) => {
                return Err(StoreError::Sqlite(e));
            },
        };
        let ghost all = views(names@);
        assert(has_names(&at, all));
        let mut tables: Vec<Table> = Vec::new();
        let mut i: usize = 0;
        while i < names.len()
            invariant
                i <= names@.len(),
                all == views(names@),
                has_names(&at, all),
                at == base(&tx),
                fate == outcome(&tx),
                base(&open) == at,
                undone_on_drop(&open),
                pending(&open) == held,
                outcome(&open) == fate,
                tables@.len() == i,
                forall|k: int|
                    0 <= k < i ==> (#[trigger] views(tables@)[k]).name == all[k] && has_shape(
                        &at,
                        views(tables@)[k],
                    ),
            decreases names@.len() - i,
        {
            let ghost name = names@[i as int]@;
            let mut sql = String::new();
            sql.append("PRAGMA table_info(\"");
            sql.append(names[i].as_str());
            sql.append("\")");
            assert(sql@ =~= table_info_sql(name));
            open = match list_texts(open, sql.as_str(), 1) {
                Ok((after, columns)) => {
                    let one = Table { name: names[i].clone(), columns };
                    let ghost (earlier, v) = (views(tables@), one@);
                    assert(v.name == name);
                    assert(has_shape(&at, v));
                    tables.push(one);
                    assert(views(tables@) =~= earlier.push(v));
                    after
                },
                Err(e) => {
                    assert(all[i as int] == name);
                    assert(columns_failed(&at, all, i as int, e));
                    return Err(StoreError::Sqlite(e));
                },
            };
            i += 1;
        }
        assert(views(tables@).map_values(|shape: Shape| shape.name) =~= all);
        Ok((open, Schema { tables }))
    }

    /// Whether the schema knows a table, and whether that table has a column.
    pub fn knows(&self, name: &str, column: &str) -> (r: (bool, bool))
        ensures
            r.0 == (columns_of(self@, name@) is Some),
            r.1 == (columns_of(self@, name@) matches Some(columns) && columns.contains(column@)),
    {
        let mut i: usize = self.tables.len();
        let ghost all = self@;
        assert(all.take(i as int) =~= all);
        while i > 0
            invariant
                i <= self.tables@.len(),
                all == self@,
                columns_of(all, name@) == columns_of(all.take(i as int), name@),
            decreases i,
        {
            assert(all.take(i as int).drop_last() =~= all.take(i - 1));
            assert(all.take(i as int).last() == self.tables@[i - 1]@);
            i -= 1;
            if same_text(self.tables[i].name.as_str(), name) {
                return (true, contains(&self.tables[i].columns, column));
            }
        }
        (false, false)
    }
}

fn contains(list: &Vec<String>, wanted: &str) -> (r: bool)
    ensures
        r == views(list@).contains(wanted@),
{
    let mut i: usize = 0;
    while i < list.len()
        invariant
            i <= list@.len(),
            forall|k: int| 0 <= k < i ==> #[trigger] views(list@)[k] != wanted@,
        decreases list@.len() - i,
    {
        if same_text(list[i].as_str(), wanted) {
            assert(views(list@)[i as int] == wanted@);
            return true;
        }
        i += 1;
    }
    false
}

// ----------------------------------------------------------------- steps -----
/// How a number that is no integer is stored, by its bits.
pub type Reals = spec_fn(u64) -> Value;

/// `as_real` stores numbers the way `reals` says.
pub open spec fn stores<R: Fn(u64) -> Value>(as_real: R, reals: Reals) -> bool {
    forall|bits: u64, value: Value| #[trigger]
        call_ensures(as_real, (bits,), value) ==> value == reals(bits)
}

/// `as_real` was asked how this value is stored, and answered as `reals` says,
/// where that has to be asked: of a finite number that is no integer.
pub open spec fn gave<R: Fn(u64) -> Value>(as_real: R, reals: Reals, value: Datum) -> bool {
    match value {
        Datum::Num(bits) => finite(bits) && as_stored(bits) is None ==> call_ensures(
            as_real,
            (bits,),
            reals(bits),
        ),
        _ => true,
    }
}

/// Why an edit cannot be applied.
pub enum Refusal {
    UnknownTable,
    UnknownColumn,
    RewritesPrimaryKey,
    UnrepresentableNumber,
}

/// What is to be done about an edit.
pub enum Step {
    Skip,
    Run(Statement),
    Refuse(Refusal),
}

/// The cell that a value makes, where it can be stored. Money is cents in an
/// INTEGER column: whole numbers are bound as integers rather than leaning on
/// SQLite's type affinity to round-trip a REAL correctly.
pub open spec fn stored(value: Datum, reals: Reals) -> Option<Cell> {
    match value {
        Datum::Str(s) => Some(Cell::Text(s)),
        Datum::Null => Some(Cell::Null),
        Datum::Num(bits) => if !finite(bits) {
            None
        } else {
            match as_stored(bits) {
                Some(n) => Some(Cell::Integer(n)),
                None => Some(Cell::Other(reals(bits))),
            }
        },
    }
}

/// The statement that writes a cell. Every table that receives edits has `id`
/// as its sole primary key, so one upsert covers both the insert and the update.
pub open spec fn upsert_sql(name: Seq<char>, column: Seq<char>) -> Seq<char> {
    "INSERT INTO \""@ + name + "\" (id, \""@ + column
        + "\") VALUES (?1, ?2) ON CONFLICT(id) DO UPDATE SET \""@ + column + "\" = ?2"@
}

/// An edit that has a table behind it.
pub open spec fn has_table(m: Edit) -> bool {
    m.dataset != PSEUDO_DATASET@
}

/// What is to be done about an edit, given the tables there are.
pub open spec fn step(tables: Seq<Shape>, m: Edit, reals: Reals) -> Step {
    if !has_table(m) {
        Step::Skip
    } else {
        match columns_of(tables, m.dataset) {
            None => Step::Refuse(Refusal::UnknownTable),
            Some(columns) => if !columns.contains(m.column) {
                Step::Refuse(Refusal::UnknownColumn)
            } else if m.column == PRIMARY_KEY@ {
                Step::Refuse(Refusal::RewritesPrimaryKey)
            } else {
                match stored(m.value, reals) {
                    None => Step::Refuse(Refusal::UnrepresentableNumber),
                    Some(cell) => Step::Run(
                        Statement {
                            sql: upsert_sql(m.dataset, m.column),
                            params: seq![Cell::Text(m.row), cell],
                        },
                    ),
                }
            },
        }
    }
}

/// This is the statement for an edit, given the tables there are and what
/// `as_real` answered.
pub open spec fn runs<R: Fn(u64) -> Value>(
    tables: Seq<Shape>,
    m: Edit,
    as_real: R,
    statement: Statement,
) -> bool {
    exists|reals: Reals| #[trigger]
        gave(as_real, reals, m.value) && step(tables, m, reals) == Step::Run(statement)
}

/// The error says why this edit cannot be applied.
pub open spec fn tells(e: StoreError, m: Edit, why: Refusal) -> bool {
    match why {
        Refusal::UnknownTable => e matches StoreError::UnknownTable { timestamp, dataset }
            && timestamp@ == m.timestamp && dataset@ == m.dataset,
        Refusal::UnknownColumn => e matches StoreError::UnknownColumn {
            timestamp,
            dataset,
            column,
        } && timestamp@ == m.timestamp && dataset@ == m.dataset && column@ == m.column,
        Refusal::RewritesPrimaryKey => e matches StoreError::RewritesPrimaryKey {
            timestamp,
            dataset,
        } && timestamp@ == m.timestamp && dataset@ == m.dataset,
        Refusal::UnrepresentableNumber => e matches StoreError::UnrepresentableNumber {
            timestamp,
            value,
        } && timestamp@ == m.timestamp && (m.value matches Datum::Num(bits) && odd(bits) == Some(
            value,
        )),
    }
}

/// The value bound for an edit.
fn to_sql<R: Fn(u64) -> Value>(msg: &SyncMessage, as_real: &R) -> (r: Result<SqlValue, StoreError>)
    requires
        forall|bits: u64| call_requires(*as_real, (bits,)),
    ensures
        match r {
            Ok(value) => exists|reals: Reals| #[trigger]
                gave(*as_real, reals, msg@.value) && stored(msg@.value, reals) == Some(value@),
            Err(e) => tells(e, msg@, Refusal::UnrepresentableNumber) && forall|reals: Reals|
                #[trigger] stored(msg@.value, reals) is None,
        },
{
    let ghost any: Reals = |bits: u64| arbitrary();
    match &msg.value {
        CrdtValue::Str(s) => {
            assert(gave(*as_real, any, msg@.value));
            Ok(SqlValue::Text(s.clone()))
        },
        CrdtValue::Null => {
            assert(gave(*as_real, any, msg@.value));
            Ok(SqlValue::Null)
        },
        CrdtValue::Num(n) => {
            if let Some(value) = n.oddity() {
                return Err(
                    StoreError::UnrepresentableNumber { timestamp: msg.timestamp.clone(), value },
                );
            }
            match n.stored_integer() {
                Some(whole) => {
                    assert(gave(*as_real, any, msg@.value));
                    Ok(SqlValue::Integer(whole))
                },
                None => {
                    let value = as_real(n.bits);
                    let ghost answer: Reals = |bits: u64| value;
                    assert(gave(*as_real, answer, msg@.value));
                    Ok(SqlValue::Other(value))
                },
            }
        },
    }
}

/// The statement for an edit and the values bound to it, or nothing where there
/// is nothing to do.
pub fn prepare<R: Fn(u64) -> Value>(schema: &Schema, msg: &SyncMessage, as_real: &R) -> (r: Result<
    Option<(String, Vec<SqlValue>)>,
    StoreError,
>)
    requires
        forall|bits: u64| call_requires(*as_real, (bits,)),
    ensures
        match r {
            Ok(None) => !has_table(msg@),
            Ok(Some((sql, params))) => runs(
                schema@,
                msg@,
                *as_real,
                Statement { sql: sql@, params: cells(params@) },
            ) && sql@ == upsert_sql(msg@.dataset, msg@.column),
            Err(e) => !(e is Sqlite) && forall|reals: Reals|
                #[trigger]
                step(schema@, msg@, reals) matches Step::Refuse(why) && tells(e, msg@, why),
        },
{
    if same_text(msg.dataset.as_str(), PSEUDO_DATASET) {
        return Ok(None);
    }
    let (table_known, column_known) = schema.knows(msg.dataset.as_str(), msg.column.as_str());
    if !table_known {
        return Err(
            StoreError::UnknownTable {
                timestamp: msg.timestamp.clone(),
                dataset: msg.dataset.clone(),
            },
        );
    }
    if !column_known {
        return Err(
            StoreError::UnknownColumn {
                timestamp: msg.timestamp.clone(),
                dataset: msg.dataset.clone(),
                column: msg.column.clone(),
            },
        );
    }
    if same_text(msg.column.as_str(), PRIMARY_KEY) {
        return Err(
            StoreError::RewritesPrimaryKey {
                timestamp: msg.timestamp.clone(),
                dataset: msg.dataset.clone(),
            },
        );
    }
    let mut sql = String::new();
    sql.append("INSERT INTO \"");
    sql.append(msg.dataset.as_str());
    sql.append("\" (id, \"");
    sql.append(msg.column.as_str());
    sql.append("\") VALUES (?1, ?2) ON CONFLICT(id) DO UPDATE SET \"");
    sql.append(msg.column.as_str());
    sql.append("\" = ?2");
    assert(sql@ =~= upsert_sql(msg@.dataset, msg@.column));
    match to_sql(msg, as_real) {
        Ok(value) => {
            let ghost cell = value@;
            let mut params: Vec<SqlValue> = Vec::new();
            params.push(SqlValue::Text(msg.row.clone()));
            params.push(value);
            assert(cells(params@) =~= seq![Cell::Text(msg@.row), cell]);
            Ok(Some((sql, params)))
        },
        Err(e) => Err(e),
    }
}

// --------------------------------------------------------------- batches -----
/// What edits are sorted by: their timestamps.
pub open spec fn by_timestamp(messages: Seq<Edit>) -> Seq<Rank> {
    messages.map_values(|m: Edit| Rank { rank: 0, major: m.timestamp, minor: Seq::empty() })
}

/// A batch in the order of its timestamps. Last write wins falls out of that
/// order. The server already sorts, but a batch must not depend on that.
pub open spec fn in_order(messages: Seq<Edit>) -> Seq<Edit> {
    stable_order(by_timestamp(messages)).map_values(|p: int| messages[p])
}

/// The statements for edits that are in order, or the first edit that cannot be
/// applied, and why.
pub open spec fn plan(tables: Seq<Shape>, messages: Seq<Edit>, reals: Reals) -> Result<
    Seq<Statement>,
    (Edit, Refusal),
>
    decreases messages.len(),
{
    if messages.len() == 0 {
        Ok(Seq::empty())
    } else {
        match plan(tables, messages.drop_last(), reals) {
            Err(e) => Err(e),
            Ok(earlier) => match step(tables, messages.last(), reals) {
                Step::Skip => Ok(earlier),
                Step::Run(statement) => Ok(earlier.push(statement)),
                Step::Refuse(why) => Err((messages.last(), why)),
            },
        }
    }
}

/// These are the statements for edits that are in order, given the tables there
/// are and what `as_real` answered.
pub open spec fn planned<R: Fn(u64) -> Value>(
    tables: Seq<Shape>,
    messages: Seq<Edit>,
    as_real: R,
    statements: Seq<Statement>,
) -> bool
    decreases messages.len(),
{
    if messages.len() == 0 {
        statements.len() == 0
    } else if !has_table(messages.last()) {
        planned(tables, messages.drop_last(), as_real, statements)
    } else {
        &&& statements.len() > 0
        &&& planned(tables, messages.drop_last(), as_real, statements.drop_last())
        &&& runs(tables, messages.last(), as_real, statements.last())
    }
}

/// None of the edits, which are in order, has to be refused.
pub open spec fn all_planned(tables: Seq<Shape>, messages: Seq<Edit>) -> bool {
    forall|reals: Reals| #[trigger] plan(tables, messages, reals) is Ok
}

/// Every edit of a batch can be applied, given the tables that the database has
/// listed.
pub open spec fn plannable(conn: &Connection, messages: Seq<Edit>) -> bool {
    exists|tables: Seq<Shape>| #[trigger]
        has_tables(conn, tables) && all_planned(tables, in_order(messages))
}

/// The edits before one were planned, and the statement for that one was
/// refused.
pub open spec fn stumbles<R: Fn(u64) -> Value>(
    conn: &Connection,
    tables: Seq<Shape>,
    ordered: Seq<Edit>,
    i: int,
    as_real: R,
    e: rusqlite::Error,
) -> bool {
    &&& has_tables(conn, tables)
    &&& 0 <= i < ordered.len()
    &&& all_planned(tables, ordered.take(i))
    &&& exists|statement: Statement| #[trigger]
        runs(tables, ordered[i], as_real, statement) && refused(
            conn,
            statement.sql,
            statement.params,
            e,
        )
}

/// A batch failed for this reason: the schema could not be read, the database
/// refused the statement for one of the edits, or one of them cannot be applied.
pub open spec fn batch_failed<R: Fn(u64) -> Value>(
    conn: &Connection,
    messages: Seq<Edit>,
    as_real: R,
    e: StoreError,
) -> bool {
    match e {
        StoreError::Sqlite(cause) => {
            ||| schema_failed(conn, cause)
            ||| cause matches QueryError::Sqlite(why) && exists|tables: Seq<Shape>, i: int|
                #[trigger]
                stumbles(conn, tables, in_order(messages), i, as_real, why)
        },
        _ => exists|tables: Seq<Shape>| #[trigger]
            has_tables(conn, tables) && refuses(tables, in_order(messages), e),
    }
}

/// One of the edits, which are in order, cannot be applied, and the error says
/// so of the first of them.
pub open spec fn refuses(tables: Seq<Shape>, messages: Seq<Edit>, e: StoreError) -> bool {
    forall|reals: Reals|
        match #[trigger] plan(tables, messages, reals) {
            Ok(_) => false,
            Err((m, why)) => tells(e, m, why),
        }
}

fn sort_batch(messages: &[SyncMessage]) -> (r: Vec<usize>)
    ensures
        positions(r@) == stable_order(by_timestamp(views(messages@))),
        forall|k: int| 0 <= k < r@.len() ==> (#[trigger] r@[k]) < messages@.len(),
{
    let mut keys: Vec<SortKey> = Vec::new();
    let ghost vs = views(messages@);
    let ghost wanted = by_timestamp(vs);
    let mut i: usize = 0;
    while i < messages.len()
        invariant
            i <= messages@.len(),
            vs == views(messages@),
            wanted == by_timestamp(vs),
            ranks(keys@) == wanted.take(i as int),
        decreases messages@.len() - i,
    {
        let key = SortKey { rank: 0, major: messages[i].timestamp.clone(), minor: String::new() };
        assert(key.minor@ =~= Seq::empty());
        let ghost (earlier, k) = (ranks(keys@), key@);
        keys.push(key);
        assert(ranks(keys@) =~= earlier.push(k));
        i += 1;
        assert(ranks(keys@) =~= wanted.take(i as int));
    }
    assert(ranks(keys@) =~= wanted);
    assert(keys@.len() == messages@.len());
    let order = sorted_positions(&keys);
    assert forall|k: int| 0 <= k < order@.len() implies (#[trigger] order@[k]) < messages@.len() by {
        assert(positions(order@)[k] == order@[k]);
    }
    order
}

/// Apply a batch of edits as upserts.
///
/// Caller supplies the transaction: the clock must advance in the same one, so
/// a partial apply can never be committed with a clock that claims it finished.
/// On failure the transaction is rolled back.
pub(crate) fn apply_messages<'c, R: Fn(u64) -> Value>(
    tx: Transaction<'c>,
    messages: &[SyncMessage],
    as_real: &R,
) -> (r: Result<(Transaction<'c>, usize), StoreError>)
    requires
        forall|bits: u64| call_requires(*as_real, (bits,)),
        undone_on_drop(&tx),
    ensures
        match r {
            Ok((after, applied)) => {
                &&& base(&after) == base(&tx)
                &&& undone_on_drop(&after)
                &&& outcome(&after) == outcome(&tx)
                &&& exists|tables: Seq<Shape>, statements: Seq<Statement>|
                    has_tables(&base(&tx), tables) && #[trigger] planned(
                        tables,
                        in_order(views(messages@)),
                        *as_real,
                        statements,
                    ) && pending(&after) == pending(&tx) + statements && applied
                        == statements.len()
            },
            Err(e) => outcome(&tx).len() == 0 && batch_failed(
                &base(&tx),
                views(messages@),
                *as_real,
                e,
            ),
        },
{
    let ghost (at, start, fate) = (base(&tx), pending(&tx), outcome(&tx));
    let (mut open, schema) = match Schema::load(tx) {
        Ok(loaded) => loaded,
        Err(e) => {
            return Err(e);
        },
    };
    let order = sort_batch(messages);
    let ghost ordered = in_order(views(messages@));
    assert(has_tables(&at, schema@));
    let mut applied: usize = 0;
    let mut i: usize = 0;
    let ghost mut held: Seq<Statement> = Seq::empty();
    assert(pending(&open) =~= start + held);
    while i < order.len()
        invariant
            i <= order@.len(),
            applied <= i,
            positions(order@) == stable_order(by_timestamp(views(messages@))),
            forall|k: int| 0 <= k < order@.len() ==> (#[trigger] order@[k]) < messages@.len(),
            ordered == in_order(views(messages@)),
            ordered.len() == order@.len(),
            forall|bits: u64| call_requires(*as_real, (bits,)),
            at == base(&tx),
            start == pending(&tx),
            fate == outcome(&tx),
            base(&open) == at,
            undone_on_drop(&open),
            outcome(&open) == fate,
            has_tables(&at, schema@),
            planned(schema@, ordered.take(i as int), *as_real, held),
            pending(&open) == start + held,
            applied == held.len(),
        decreases order@.len() - i,
    {
        let ghost upto = ordered.take(i + 1);
        let msg = &messages[order[i]];
        proof {
            assert(upto.drop_last() =~= ordered.take(i as int));
            assert(positions(order@)[i as int] == order@[i as int]);
            assert(upto.last() == msg@);
        }
        match prepare(&schema, msg, as_real) {
            Err(e) => {
                proof {
                    what_is_planned_is_not_refused(schema@, ordered.take(i as int), *as_real, held);
                    assert forall|reals: Reals|
                        match #[trigger] plan(schema@, ordered, reals) {
                            Ok(_) => false,
                            Err((m, why)) => tells(e, m, why),
                        } by {
                        assert(plan(schema@, ordered.take(i as int), reals) is Ok);
                        assert(step(schema@, ordered[i as int], reals) is Refuse);
                        a_refusal_decides(schema@, ordered, i as int, reals);
                    }
                    assert(refuses(schema@, ordered, e));
                }
                let _ = roll_back(open);
                return Err(e);
            },
            Ok(None) => {},
            Ok(Some((sql, params))) => {
                let ghost one = Statement { sql: sql@, params: cells(params@) };
                assert(own_write(sql@));
                open = match execute(open, sql.as_str(), &params) {
                    Ok(after) => after,
                    Err(e) => {
                        assert(ordered[i as int] == msg@);
                        proof {
                            what_is_planned_is_not_refused(
                                schema@,
                                ordered.take(i as int),
                                *as_real,
                                held,
                            );
                        }
                        assert(runs(schema@, ordered[i as int], *as_real, one));
                        assert(stumbles(&at, schema@, ordered, i as int, *as_real, e));
                        return Err(StoreError::Sqlite(QueryError::Sqlite(e)));
                    },
                };
                applied += 1;
                proof {
                    let earlier = held;
                    held = held.push(one);
                    assert(held.drop_last() =~= earlier);
                    assert(pending(&open) =~= start + held);
                }
            },
        }
        i += 1;
    }
    assert(ordered.take(i as int) =~= ordered);
    Ok((open, applied))
}

/// Applies a batch in a transaction of its own: all of it, or nothing.
pub fn apply_batch<R: Fn(u64) -> Value>(
    conn: &mut Connection,
    messages: &[SyncMessage],
    as_real: &R,
) -> (r: Result<usize, StoreError>)
    requires
        forall|bits: u64| call_requires(*as_real, (bits,)),
    ensures
        match r {
            Ok(applied) => exists|tables: Seq<Shape>, statements: Seq<Statement>|
                has_tables(old(conn), tables) && #[trigger] planned(
                    tables,
                    in_order(views(messages@)),
                    *as_real,
                    statements,
                ) && applied == statements.len() && written(final(conn)) == written(
                    old(conn),
                ).push(statements),
            Err(e) => {
                &&& written(final(conn)) == written(old(conn))
                &&& {
                    ||| batch_failed(old(conn), views(messages@), *as_real, e)
                    ||| e matches StoreError::Sqlite(QueryError::Sqlite(why)) && (unopened(
                        old(conn),
                        why,
                    ) || plannable(old(conn), views(messages@)) && uncommitted(old(conn), why))
                }
            },
        },
{
    let tx = match begin(conn) {
        Ok(tx) => tx,
        Err(e) => {
            return Err(StoreError::Sqlite(QueryError::Sqlite(e)));
        },
    };
    let ghost start = pending(&tx);
    let (tx, applied) = match apply_messages(tx, messages, as_real) {
        Ok(done) => done,
        Err(e) => {
            return Err(e);
        },
    };
    let ghost all = pending(&tx);
    proof {
        let at = *old(conn);
        let ordered = in_order(views(messages@));
        let (tables, statements) = choose|tables: Seq<Shape>, statements: Seq<Statement>|
            has_tables(&at, tables) && #[trigger] planned(tables, ordered, *as_real, statements)
                && all == start + statements && applied == statements.len();
        assert(all =~= statements);
        what_is_planned_is_not_refused(tables, ordered, *as_real, statements);
        assert(plannable(&at, views(messages@)));
    }
    match commit(tx) {
        Ok(_) => {
            assert(written(conn) =~= written(old(conn)).push(all));
            Ok(applied)
        },
        Err(e) => Err(StoreError::Sqlite(QueryError::Sqlite(e))),
    }
}

/// Edits after one that cannot be applied do not matter.
proof fn a_refusal_decides(tables: Seq<Shape>, messages: Seq<Edit>, i: int, reals: Reals)
    requires
        0 <= i < messages.len(),
        plan(tables, messages.take(i), reals) is Ok,
        step(tables, messages[i], reals) is Refuse,
    ensures
        plan(tables, messages, reals) == Err::<Seq<Statement>, (Edit, Refusal)>(
            (messages[i], step(tables, messages[i], reals)->Refuse_0),
        ),
    decreases messages.len(),
{
    if i == messages.len() - 1 {
        assert(messages.drop_last() =~= messages.take(i));
    } else {
        assert(messages.drop_last().take(i) =~= messages.take(i));
        a_refusal_decides(tables, messages.drop_last(), i, reals);
    }
}

/// Where there are statements for all edits, none has to be refused.
pub(crate) proof fn what_is_planned_is_not_refused<R: Fn(u64) -> Value>(
    tables: Seq<Shape>,
    messages: Seq<Edit>,
    as_real: R,
    statements: Seq<Statement>,
)
    requires
        planned(tables, messages, as_real, statements),
    ensures
        all_planned(tables, messages),
    decreases messages.len(),
{
    if messages.len() > 0 {
        let last = messages.last();
        let earlier = if has_table(last) {
            statements.drop_last()
        } else {
            statements
        };
        what_is_planned_is_not_refused(tables, messages.drop_last(), as_real, earlier);
        assert forall|reals: Reals| #[trigger] plan(tables, messages, reals) is Ok by {
            assert(plan(tables, messages.drop_last(), reals) is Ok);
        }
    }
}

// ----------------------------------------------------------------- laws -----
/// Where `as_real` is a function of its argument, the statements of a batch are
/// the ones that are planned with it.
pub proof fn the_statements_are_the_planned_ones<R: Fn(u64) -> Value>(
    tables: Seq<Shape>,
    messages: Seq<Edit>,
    as_real: R,
    reals: Reals,
    statements: Seq<Statement>,
)
    requires
        stores(as_real, reals),
        planned(tables, messages, as_real, statements),
    ensures
        plan(tables, messages, reals) == Ok::<Seq<Statement>, (Edit, Refusal)>(statements),
    decreases messages.len(),
{
    if messages.len() == 0 {
        assert(statements =~= Seq::empty());
    } else if !has_table(messages.last()) {
        the_statements_are_the_planned_ones(
            tables,
            messages.drop_last(),
            as_real,
            reals,
            statements,
        );
    } else {
        let earlier = statements.drop_last();
        the_statements_are_the_planned_ones(tables, messages.drop_last(), as_real, reals, earlier);
        let m = messages.last();
        let answer = choose|answer: Reals| #[trigger]
            gave(as_real, answer, m.value) && step(tables, m, answer) == Step::Run(
                statements.last(),
            );
        assert(stored(m.value, answer) == stored(m.value, reals));
        assert(earlier.push(statements.last()) =~= statements);
    }
}

/// A statement writes a column that the schema knows, of a table that the
/// schema knows, and never a primary key.
pub open spec fn writes_known_column(tables: Seq<Shape>, statement: Statement) -> bool {
    exists|name: Seq<char>, column: Seq<char>|
        statement.sql == #[trigger] upsert_sql(name, column) && column != PRIMARY_KEY@ && (
        columns_of(tables, name) matches Some(columns) && columns.contains(column))
}

/// Identifiers never reach a statement but by way of the schema: whatever the
/// edits say, every statement writes a column that is known.
pub proof fn identifiers_come_from_the_schema(
    tables: Seq<Shape>,
    messages: Seq<Edit>,
    reals: Reals,
    i: int,
)
    requires
        plan(tables, messages, reals) matches Ok(statements) && 0 <= i < statements.len(),
    ensures
        writes_known_column(tables, plan(tables, messages, reals)->Ok_0[i]),
    decreases messages.len(),
{
    if messages.len() > 0 {
        let earlier = plan(tables, messages.drop_last(), reals)->Ok_0;
        let m = messages.last();
        if i < earlier.len() {
            identifiers_come_from_the_schema(tables, messages.drop_last(), reals, i);
        } else {
            let statement = plan(tables, messages, reals)->Ok_0[i];
            assert(statement.sql == upsert_sql(m.dataset, m.column));
        }
    }
}

/// One edit that cannot be applied refuses the batch, wherever it stands.
pub proof fn a_bad_message_refuses_the_batch(
    tables: Seq<Shape>,
    messages: Seq<Edit>,
    reals: Reals,
    i: int,
)
    requires
        0 <= i < messages.len(),
        step(tables, messages[i], reals) is Refuse,
    ensures
        plan(tables, messages, reals) is Err,
    decreases messages.len(),
{
    if i < messages.len() - 1 {
        a_bad_message_refuses_the_batch(tables, messages.drop_last(), reals, i);
    }
}

/// Two edits are of the same cell.
pub open spec fn same_cell(a: Edit, b: Edit) -> bool {
    a.dataset == b.dataset && a.row == b.row && a.column == b.column
}

/// Last write wins: of the edits of one cell, the one with the latest timestamp
/// is applied last, in whatever order they came. Of edits of one timestamp the
/// last to come counts.
pub proof fn last_write_wins(messages: Seq<Edit>, winner: int)
    requires
        0 <= winner < messages.len(),
        forall|j: int|
            0 <= j < messages.len() && j != winner && same_cell(
                #[trigger] messages[j],
                messages[winner],
            ) ==> text_less(messages[j].timestamp, messages[winner].timestamp) || (
            messages[j].timestamp == messages[winner].timestamp && j < winner),
    ensures
        exists|k: int|
            0 <= k < in_order(messages).len() && #[trigger] in_order(messages)[k]
                == messages[winner] && forall|l: int|
                k < l < in_order(messages).len() ==> !same_cell(
                    #[trigger] in_order(messages)[l],
                    messages[winner],
                ),
{
    let keys = by_timestamp(messages);
    let order = stable_order(keys);
    a_stable_order_exists(keys);
    assert(order.contains(winner));
    let k = choose|k: int| 0 <= k < order.len() && order[k] == winner;
    let done = in_order(messages);
    assert(done[k] == messages[winner]);
    assert forall|l: int| k < l < done.len() implies !same_cell(
        #[trigger] done[l],
        messages[winner],
    ) by {
        let j = order[l];
        assert(0 <= j < messages.len());
        assert(done[l] == messages[j]);
        text_order_is_total(messages[j].timestamp, messages[winner].timestamp);
        assert(crate::ordering::precedes(keys, order[k], order[l]));
    }
}

/// No two edits of a batch have one timestamp.
pub open spec fn distinct_timestamps(messages: Seq<Edit>) -> bool {
    forall|i: int, j: int|
        0 <= i < j < messages.len() ==> (#[trigger] messages[i]).timestamp != (
        #[trigger] messages[j]).timestamp
}

/// A batch does not depend on the order in which its edits come.
pub proof fn the_order_of_arrival_does_not_matter(a: Seq<Edit>, b: Seq<Edit>)
    requires
        distinct_timestamps(a),
        distinct_timestamps(b),
        forall|m: Edit| #[trigger] a.contains(m) <==> b.contains(m),
    ensures
        in_order(a) == in_order(b),
{
    let (x, y) = (in_order(a), in_order(b));
    in_order_sorts(a);
    in_order_sorts(b);
    assert forall|m: Edit| #[trigger] x.contains(m) <==> y.contains(m) by {
        assert(a.contains(m) <==> b.contains(m));
    }
    assert forall|i: int| 0 <= i < x.len() && i < y.len() implies x[i] == y[i] by {
        agree_up_to(x, y, i);
    }
    if x.len() < y.len() {
        assert(x.contains(y[x.len() as int]));
        let k = choose|k: int| 0 <= k < x.len() && x[k] == y[x.len() as int];
        assert(y[k] == x[k]);
        text_order_is_total(y[k].timestamp, y[k].timestamp);
    } else if y.len() < x.len() {
        assert(x.contains(x[y.len() as int]));
        let k = choose|k: int| 0 <= k < y.len() && y[k] == x[y.len() as int];
        assert(x[k] == y[k]);
        text_order_is_total(x[k].timestamp, x[k].timestamp);
    }
    assert(x =~= y);
}

/// Timestamps rise from each edit to all later ones.
spec fn rises(messages: Seq<Edit>) -> bool {
    forall|i: int, j: int|
        0 <= i < j < messages.len() ==> text_less(
            (#[trigger] messages[i]).timestamp,
            (#[trigger] messages[j]).timestamp,
        )
}

proof fn in_order_sorts(messages: Seq<Edit>)
    requires
        distinct_timestamps(messages),
    ensures
        rises(in_order(messages)),
        forall|m: Edit| #[trigger] in_order(messages).contains(m) <==> messages.contains(m),
{
    let keys = by_timestamp(messages);
    let order = stable_order(keys);
    a_stable_order_exists(keys);
    let done = in_order(messages);
    assert forall|i: int, j: int| 0 <= i < j < done.len() implies text_less(
        (#[trigger] done[i]).timestamp,
        (#[trigger] done[j]).timestamp,
    ) by {
        let (p, q) = (order[i], order[j]);
        assert(crate::ordering::precedes(keys, order[i], order[j]));
        assert(done[i] == messages[p] && done[j] == messages[q]);
    }
    assert forall|m: Edit| #[trigger] done.contains(m) <==> messages.contains(m) by {
        if done.contains(m) {
            let i = choose|i: int| 0 <= i < done.len() && done[i] == m;
            assert(0 <= order[i] < messages.len());
            assert(messages[order[i]] == m);
        }
        if messages.contains(m) {
            let p = choose|p: int| 0 <= p < messages.len() && messages[p] == m;
            assert(order.contains(p));
            let i = choose|i: int| 0 <= i < order.len() && order[i] == p;
            assert(done[i] == m);
        }
    }
}

proof fn agree_up_to(x: Seq<Edit>, y: Seq<Edit>, i: int)
    requires
        rises(x),
        rises(y),
        forall|m: Edit| #[trigger] x.contains(m) <==> y.contains(m),
        0 <= i < x.len(),
        i < y.len(),
    ensures
        x[i] == y[i],
    decreases i,
{
    assert forall|k: int| 0 <= k < i implies x[k] == y[k] by {
        agree_up_to(x, y, k);
    }
    assert(x.contains(x[i]));
    assert(x.contains(y[i]));
    let j = choose|j: int| 0 <= j < y.len() && y[j] == x[i];
    let l = choose|l: int| 0 <= l < x.len() && x[l] == y[i];
    text_order_is_total(x[i].timestamp, y[i].timestamp);
    text_order_is_total(x[i].timestamp, x[i].timestamp);
    text_order_is_total(y[i].timestamp, y[i].timestamp);
    if j < i {
        assert(x[j] == x[i]);
    }
    if l < i {
        assert(y[l] == y[i]);
    }
}

/// The order of arrival makes no difference to the statements either, nor to
/// what is refused.
pub proof fn the_order_of_arrival_changes_no_statement(
    tables: Seq<Shape>,
    a: Seq<Edit>,
    b: Seq<Edit>,
    reals: Reals,
)
    requires
        distinct_timestamps(a),
        distinct_timestamps(b),
        forall|m: Edit| #[trigger] a.contains(m) <==> b.contains(m),
    ensures
        plan(tables, in_order(a), reals) == plan(tables, in_order(b), reals),
{
    the_order_of_arrival_does_not_matter(a, b);
}

/// The edits of a batch that have a table behind them.
pub open spec fn with_tables(messages: Seq<Edit>) -> Seq<Edit> {
    messages.filter(|m: Edit| has_table(m))
}

/// The statement for an edit that can be applied.
pub open spec fn statement_for(tables: Seq<Shape>, m: Edit, reals: Reals) -> Statement {
    step(tables, m, reals)->Run_0
}

/// A batch of which no edit has to be refused is planned whole: there is one
/// statement for each edit with a table behind it, in the order of timestamps,
/// and as many of them as the batch holds such edits.
pub proof fn a_good_batch_is_planned_whole(tables: Seq<Shape>, messages: Seq<Edit>, reals: Reals)
    requires
        forall|i: int|
            0 <= i < messages.len() ==> !(step(tables, #[trigger] messages[i], reals) is Refuse),
    ensures
        plan(tables, in_order(messages), reals) == Ok::<Seq<Statement>, (Edit, Refusal)>(
            with_tables(in_order(messages)).map_values(
                |m: Edit| statement_for(tables, m, reals),
            ),
        ),
        with_tables(in_order(messages)).len() == with_tables(messages).len(),
{
    let keys = by_timestamp(messages);
    let order = stable_order(keys);
    a_stable_order_exists(keys);
    let done = in_order(messages);
    assert forall|i: int| 0 <= i < done.len() implies !(step(
        tables,
        #[trigger] done[i],
        reals,
    ) is Refuse) by {
        assert(0 <= order[i] < messages.len());
        assert(done[i] == messages[order[i]]);
    }
    good_edits_are_planned(tables, done, reals);
    assert forall|i: int, j: int| 0 <= i < j < order.len() implies #[trigger] order[i]
        != #[trigger] order[j] by {
        let k = keys[order[i]];
        text_order_is_total(k.major, k.major);
        text_order_is_total(k.minor, k.minor);
        assert(crate::ordering::precedes(keys, order[i], order[j]));
    }
    reordering_keeps_the_count(messages, order);
}

proof fn good_edits_are_planned(tables: Seq<Shape>, messages: Seq<Edit>, reals: Reals)
    requires
        forall|i: int|
            0 <= i < messages.len() ==> !(step(tables, #[trigger] messages[i], reals) is Refuse),
    ensures
        plan(tables, messages, reals) == Ok::<Seq<Statement>, (Edit, Refusal)>(
            with_tables(messages).map_values(|m: Edit| statement_for(tables, m, reals)),
        ),
    decreases messages.len(),
{
    reveal(Seq::filter);
    let one = |m: Edit| statement_for(tables, m, reals);
    if messages.len() == 0 {
        assert(with_tables(messages).map_values(one) =~= Seq::empty());
    } else {
        let before = messages.drop_last();
        assert forall|i: int| 0 <= i < before.len() implies !(step(
            tables,
            #[trigger] before[i],
            reals,
        ) is Refuse) by {
            assert(before[i] == messages[i]);
        }
        good_edits_are_planned(tables, before, reals);
        let last = messages.last();
        assert(!(step(tables, messages[messages.len() - 1], reals) is Refuse));
        if has_table(last) {
            assert(with_tables(messages) == with_tables(before).push(last));
            assert(with_tables(messages).map_values(one) =~= with_tables(before).map_values(
                one,
            ).push(one(last)));
        } else {
            assert(with_tables(messages) == with_tables(before));
        }
    }
}

proof fn reordering_keeps_the_count(messages: Seq<Edit>, order: Seq<int>)
    requires
        order.len() == messages.len(),
        forall|i: int| 0 <= i < order.len() ==> 0 <= #[trigger] order[i] < messages.len(),
        forall|p: int| 0 <= p < messages.len() ==> #[trigger] order.contains(p),
        forall|i: int, j: int|
            0 <= i < j < order.len() ==> #[trigger] order[i] != #[trigger] order[j],
    ensures
        with_tables(order.map_values(|p: int| messages[p])).len() == with_tables(messages).len(),
    decreases messages.len(),
{
    reveal(Seq::filter);
    let kept = |m: Edit| has_table(m);
    let placed = order.map_values(|p: int| messages[p]);
    if messages.len() == 0 {
        assert(placed =~= messages);
    } else {
        let last = messages.len() - 1;
        assert(order.contains(last));
        let k = choose|k: int| 0 <= k < order.len() && order[k] == last;
        let fewer = messages.drop_last();
        let rest = order.remove(k);
        assert forall|i: int| 0 <= i < rest.len() implies 0 <= #[trigger] rest[i] < fewer.len() by {
            let j = if i < k {
                i
            } else {
                i + 1
            };
            assert(rest[i] == order[j]);
            assert(order[j] != order[k]);
        }
        assert forall|p: int| 0 <= p < fewer.len() implies #[trigger] rest.contains(p) by {
            assert(order.contains(p));
            let j = choose|j: int| 0 <= j < order.len() && order[j] == p;
            let i = if j < k {
                j
            } else {
                j - 1
            };
            assert(rest[i] == p);
        }
        assert forall|i: int, j: int| 0 <= i < j < rest.len() implies #[trigger] rest[i]
            != #[trigger] rest[j] by {
            let a = if i < k {
                i
            } else {
                i + 1
            };
            let b = if j < k {
                j
            } else {
                j + 1
            };
            assert(rest[i] == order[a] && rest[j] == order[b]);
        }
        reordering_keeps_the_count(fewer, rest);
        let others = rest.map_values(|p: int| fewer[p]);
        let (front, back) = (placed.take(k), placed.skip(k + 1));
        let middle = seq![messages.last()];
        assert(placed =~= front + middle + back);
        assert(others =~= front + back);
        Seq::filter_distributes_over_add(front, middle, kept);
        Seq::filter_distributes_over_add(front + middle, back, kept);
        Seq::filter_distributes_over_add(front, back, kept);
        assert(fewer + middle =~= messages);
        Seq::filter_distributes_over_add(fewer, middle, kept);
    }
}

/// Last write wins among the statements: of the statements for one cell, the one
/// for the edit with the latest timestamp is run last, in whatever order the
/// edits came. Of edits of one timestamp the last to come counts.
pub proof fn the_last_statement_of_a_cell_wins(
    tables: Seq<Shape>,
    messages: Seq<Edit>,
    reals: Reals,
    winner: int,
)
    requires
        forall|i: int|
            0 <= i < messages.len() ==> !(step(tables, #[trigger] messages[i], reals) is Refuse),
        0 <= winner < messages.len(),
        has_table(messages[winner]),
        forall|j: int|
            0 <= j < messages.len() && j != winner && same_cell(
                #[trigger] messages[j],
                messages[winner],
            ) ==> text_less(messages[j].timestamp, messages[winner].timestamp) || (
            messages[j].timestamp == messages[winner].timestamp && j < winner),
    ensures
        plan(tables, in_order(messages), reals) matches Ok(statements) && exists|k: int|
            0 <= k < statements.len() && #[trigger] statements[k] == statement_for(
                tables,
                messages[winner],
                reals,
            ) && with_tables(in_order(messages))[k] == messages[winner] && forall|l: int|
                k < l < statements.len() ==> #[trigger] statements[l] == statement_for(
                    tables,
                    with_tables(in_order(messages))[l],
                    reals,
                ) && !same_cell(with_tables(in_order(messages))[l], messages[winner]),
{
    a_good_batch_is_planned_whole(tables, messages, reals);
    last_write_wins(messages, winner);
    let done = in_order(messages);
    let at = choose|k: int|
        0 <= k < done.len() && #[trigger] done[k] == messages[winner] && forall|l: int|
            k < l < done.len() ==> !same_cell(#[trigger] done[l], messages[winner]);
    let k = the_last_stays_last(done, messages[winner], at);
    let kept = with_tables(done);
    let statements = plan(tables, done, reals)->Ok_0;
    assert(statements[k] == statement_for(tables, kept[k], reals));
    assert forall|l: int| k < l < statements.len() implies #[trigger] statements[l]
        == statement_for(tables, kept[l], reals) && !same_cell(kept[l], messages[winner]) by {
        assert(statements[l] == statement_for(tables, kept[l], reals));
    }
}

proof fn the_last_stays_last(done: Seq<Edit>, winner: Edit, at: int) -> (k: int)
    requires
        0 <= at < done.len(),
        done[at] == winner,
        has_table(winner),
        forall|l: int| at < l < done.len() ==> !same_cell(#[trigger] done[l], winner),
    ensures
        0 <= k < with_tables(done).len(),
        with_tables(done)[k] == winner,
        forall|l: int|
            k < l < with_tables(done).len() ==> !same_cell(#[trigger] with_tables(done)[l], winner),
    decreases done.len(),
{
    reveal(Seq::filter);
    let before = done.drop_last();
    if at == done.len() - 1 {
        with_tables(done).len() - 1
    } else {
        assert forall|l: int| at < l < before.len() implies !same_cell(
            #[trigger] before[l],
            winner,
        ) by {
            assert(before[l] == done[l]);
        }
        assert(!same_cell(done[done.len() - 1], winner));
        the_last_stays_last(before, winner, at)
    }
}

/// What the tables hold in a cell, where there is a row for it.
pub open spec fn cell_at(
    contents: Contents,
    dataset: Seq<char>,
    row: Seq<char>,
    column: Seq<char>,
) -> Option<Cell> {
    match contents(dataset, row) {
        Some(cells) => Some(cells(column)),
        None => None,
    }
}

/// The cell holds this value: a text or null as it is, and a whole number that
/// an integer column can hold as that integer.
pub open spec fn is_value(cell: Cell, value: Datum, reals: Reals) -> bool {
    match value {
        Datum::Str(text) => cell == Cell::Text(text),
        Datum::Null => cell is Null,
        Datum::Num(bits) => match whole(bits) {
            Some(n) => if i64::MIN <= n <= i64::MAX {
                cell == Cell::Integer(n)
            } else {
                cell == Cell::Integer(i64::MAX as int) && n == i64::MAX + 1 || cell == Cell::Other(
                    reals(bits),
                )
            },
            None => cell == Cell::Other(reals(bits)),
        },
    }
}

/// Whatever the tables held before, after the statement has run the cell of
/// this edit holds the edit's value, and every other cell of a row that was
/// there holds what it held.
pub open spec fn sets_only_its_cell(
    upsert: Upsert,
    params: Seq<Cell>,
    m: Edit,
    reals: Reals,
) -> bool {
    forall|before: Contents, defaults: Defaults, dataset: Seq<char>, row: Seq<char>, column: Seq<char>|
        {
            let after = #[trigger] cell_at(
                upsert.leaves(before, params, defaults),
                dataset,
                row,
                column,
            );
            if dataset == m.dataset && row == m.row && column == m.column {
                after matches Some(cell) && is_value(cell, m.value, reals)
            } else {
                cell_at(before, dataset, row, column) matches Some(held) ==> after == Some(held)
            }
        }
}

/// An edit sets its cell: whatever the cell held, and whether or not its row was
/// there, it then holds the value of the edit, null among them. No other cell of
/// a row that was there changes.
pub proof fn an_edit_sets_its_cell_and_no_other(tables: Seq<Shape>, m: Edit, reals: Reals)
    ensures
        step(tables, m, reals) matches Step::Run(statement) ==> exists|upsert: Upsert|
            statement.sql == upsert.text() && #[trigger] sets_only_its_cell(
                upsert,
                statement.params,
                m,
                reals,
            ),
{
    if let Step::Run(statement) = step(tables, m, reals) {
        let upsert = upsert_for(m);
        upserts_are_written_out(m);
        let params = statement.params;
        assert forall|
            before: Contents,
            defaults: Defaults,
            dataset: Seq<char>,
            row: Seq<char>,
            column: Seq<char>,
        | {
            let after = #[trigger] cell_at(
                upsert.leaves(before, params, defaults),
                dataset,
                row,
                column,
            );
            if dataset == m.dataset && row == m.row && column == m.column {
                after matches Some(cell) && is_value(cell, m.value, reals)
            } else {
                cell_at(before, dataset, row, column) matches Some(held) ==> after == Some(held)
            }
        } by {}
        assert(sets_only_its_cell(upsert, params, m, reals));
    }
}

/// The write of an edit.
spec fn upsert_for(m: Edit) -> Upsert {
    Upsert { table: m.dataset, column: m.column, value: Term::Param(2) }
}

proof fn upserts_are_written_out(m: Edit)
    ensures
        upsert_for(m).text() == upsert_sql(m.dataset, m.column),
{
    reveal_strlit("?");
    reveal_strlit("\" = ");
    reveal_strlit("\" = ?2");
    assert(decimal(2) =~= seq!['2']) by {
        reveal_with_fuel(decimal, 2);
    }
    assert("\" = "@ + ("?"@ + decimal(2)) =~= "\" = ?2"@);
    let u = upsert_for(m);
    assert(u.value.text() == "?"@ + decimal(2));
    assert(u.text() =~= upsert_sql(m.dataset, m.column));
}

/// What the tables hold once these writes have run, one after the other.
pub open spec fn after_all(
    upserts: Seq<Upsert>,
    statements: Seq<Statement>,
    before: Contents,
    defaults: Defaults,
) -> Contents
    decreases statements.len(),
{
    if statements.len() == 0 {
        before
    } else {
        upserts.last().leaves(
            after_all(upserts.drop_last(), statements.drop_last(), before, defaults),
            statements.last().params,
            defaults,
        )
    }
}

/// The statements are these writes.
pub open spec fn are_upserts(statements: Seq<Statement>, upserts: Seq<Upsert>) -> bool {
    &&& upserts.len() == statements.len()
    &&& forall|i: int|
        0 <= i < statements.len() ==> (#[trigger] statements[i]).sql == upserts[i].text()
}

/// Once the writes have run, the cell of an edit holds its value, whatever the
/// tables held before.
pub open spec fn ends_with(
    upserts: Seq<Upsert>,
    statements: Seq<Statement>,
    m: Edit,
    reals: Reals,
) -> bool {
    forall|before: Contents, defaults: Defaults|
        #[trigger] cell_at(
            after_all(upserts, statements, before, defaults),
            m.dataset,
            m.row,
            m.column,
        ) matches Some(cell) && is_value(cell, m.value, reals)
}

/// Once the writes have run, a cell of a row that was there, and that none of
/// these edits is of, holds what it held.
pub open spec fn leaves_the_rest(
    upserts: Seq<Upsert>,
    statements: Seq<Statement>,
    messages: Seq<Edit>,
) -> bool {
    forall|before: Contents, defaults: Defaults, other: Edit|
        (forall|i: int| 0 <= i < messages.len() ==> !same_cell(#[trigger] messages[i], other))
            && cell_at(before, other.dataset, other.row, other.column) is Some
            ==> #[trigger] cell_at(
            after_all(upserts, statements, before, defaults),
            other.dataset,
            other.row,
            other.column,
        ) == cell_at(before, other.dataset, other.row, other.column)
}

/// After a batch has run, a cell holds the value of the edit of it with the
/// latest timestamp, in whatever order the edits came and whatever the tables
/// held before. Of edits of one timestamp the last to come counts. A cell of a
/// row that was there, and that the batch does not edit, holds what it held.
pub proof fn a_batch_leaves_the_latest_values(
    tables: Seq<Shape>,
    messages: Seq<Edit>,
    reals: Reals,
    winner: int,
)
    requires
        forall|i: int|
            0 <= i < messages.len() ==> !(step(tables, #[trigger] messages[i], reals) is Refuse),
        0 <= winner < messages.len(),
        messages[winner].dataset != "prefs"@,
        forall|j: int|
            0 <= j < messages.len() && j != winner && same_cell(
                #[trigger] messages[j],
                messages[winner],
            ) ==> text_less(messages[j].timestamp, messages[winner].timestamp) || (
            messages[j].timestamp == messages[winner].timestamp && j < winner),
    ensures
        plan(tables, in_order(messages), reals) matches Ok(statements) && exists|
            upserts: Seq<Upsert>,
        |
            #[trigger] are_upserts(statements, upserts) && ends_with(
                upserts,
                statements,
                messages[winner],
                reals,
            ) && leaves_the_rest(upserts, statements, messages),
{
    a_good_batch_is_planned_whole(tables, messages, reals);
    let done = in_order(messages);
    let statements = plan(tables, done, reals)->Ok_0;
    let upserts = writes_of(messages);
    a_batch_runs_as_its_edits(tables, messages, reals);
    assert(are_upserts(statements, upserts)) by {
        assert forall|i: int| 0 <= i < statements.len() implies (#[trigger] statements[i]).sql
            == upserts[i].text() by {}
    }
    the_winner_stays(tables, messages, reals, winner);
    the_rest_stays(tables, messages, reals);
}

/// The writes of the edits of a batch that have a table behind them.
spec fn writes_of(messages: Seq<Edit>) -> Seq<Upsert> {
    with_tables(in_order(messages)).map_values(|m: Edit| upsert_for(m))
}

proof fn a_batch_runs_as_its_edits(tables: Seq<Shape>, messages: Seq<Edit>, reals: Reals)
    requires
        forall|i: int|
            0 <= i < messages.len() ==> !(step(tables, #[trigger] messages[i], reals) is Refuse),
    ensures
        run_as(
            tables,
            with_tables(in_order(messages)),
            reals,
            plan(tables, in_order(messages), reals)->Ok_0,
            writes_of(messages),
        ),
{
    a_good_batch_is_planned_whole(tables, messages, reals);
    let kept = with_tables(in_order(messages));
    let statements = plan(tables, in_order(messages), reals)->Ok_0;
    let upserts = writes_of(messages);
    edits_with_tables_run(tables, messages, reals);
    assert forall|i: int| 0 <= i < statements.len() implies (#[trigger] statements[i]).sql
        == upserts[i].text() && upserts[i] == upsert_for(kept[i]) && step(tables, kept[i], reals)
        == Step::Run(statements[i]) by {
        upserts_are_written_out(kept[i]);
        assert(step(tables, kept[i], reals) is Run);
        assert(statements[i] == statement_for(tables, kept[i], reals));
    }
}

proof fn the_winner_stays(
    tables: Seq<Shape>,
    messages: Seq<Edit>,
    reals: Reals,
    winner: int,
)
    requires
        forall|i: int|
            0 <= i < messages.len() ==> !(step(tables, #[trigger] messages[i], reals) is Refuse),
        0 <= winner < messages.len(),
        has_table(messages[winner]),
        forall|j: int|
            0 <= j < messages.len() && j != winner && same_cell(
                #[trigger] messages[j],
                messages[winner],
            ) ==> text_less(messages[j].timestamp, messages[winner].timestamp) || (
            messages[j].timestamp == messages[winner].timestamp && j < winner),
    ensures
        ends_with(
            writes_of(messages),
            plan(tables, in_order(messages), reals)->Ok_0,
            messages[winner],
            reals,
        ),
{
    last_write_wins(messages, winner);
    let done = in_order(messages);
    let m = messages[winner];
    let at = choose|k: int|
        0 <= k < done.len() && #[trigger] done[k] == m && forall|l: int|
            k < l < done.len() ==> !same_cell(#[trigger] done[l], m);
    let k = the_last_stays_last(done, m, at);
    let kept = with_tables(done);
    let statements = plan(tables, done, reals)->Ok_0;
    let upserts = writes_of(messages);
    a_batch_runs_as_its_edits(tables, messages, reals);
    assert forall|before: Contents, defaults: Defaults|
        #[trigger] cell_at(
            after_all(upserts, statements, before, defaults),
            m.dataset,
            m.row,
            m.column,
        ) matches Some(cell) && is_value(cell, m.value, reals) by {
        the_last_write_stays(tables, kept, reals, statements, upserts, k, before, defaults);
    }
}

proof fn the_rest_stays(tables: Seq<Shape>, messages: Seq<Edit>, reals: Reals)
    requires
        forall|i: int|
            0 <= i < messages.len() ==> !(step(tables, #[trigger] messages[i], reals) is Refuse),
    ensures
        leaves_the_rest(
            writes_of(messages),
            plan(tables, in_order(messages), reals)->Ok_0,
            messages,
        ),
{
    let kept = with_tables(in_order(messages));
    let statements = plan(tables, in_order(messages), reals)->Ok_0;
    let upserts = writes_of(messages);
    a_batch_runs_as_its_edits(tables, messages, reals);
    assert forall|before: Contents, defaults: Defaults, other: Edit|
        (forall|i: int| 0 <= i < messages.len() ==> !same_cell(#[trigger] messages[i], other))
            && cell_at(before, other.dataset, other.row, other.column)
            is Some implies #[trigger] cell_at(
        after_all(upserts, statements, before, defaults),
        other.dataset,
        other.row,
        other.column,
    ) == cell_at(before, other.dataset, other.row, other.column) by {
        assert forall|i: int| 0 <= i < kept.len() implies !same_cell(#[trigger] kept[i], other) by {
            kept_edits_come_from_the_batch(messages, i);
            let p = choose|p: int| 0 <= p < messages.len() && messages[p] == kept[i];
            assert(!same_cell(messages[p], other));
        }
        what_is_not_edited_stays(
            tables,
            kept,
            reals,
            statements,
            upserts,
            before,
            defaults,
            other,
        );
    }
}

/// Each statement is the one for the edit in its place, and the write of it.
spec fn run_as(
    tables: Seq<Shape>,
    edits: Seq<Edit>,
    reals: Reals,
    statements: Seq<Statement>,
    upserts: Seq<Upsert>,
) -> bool {
    &&& statements.len() == edits.len()
    &&& upserts.len() == edits.len()
    &&& forall|i: int|
        0 <= i < statements.len() ==> (#[trigger] statements[i]).sql == upserts[i].text()
            && upserts[i] == upsert_for(edits[i]) && step(tables, edits[i], reals) == Step::Run(
            statements[i],
        )
}

proof fn shorter_run(
    tables: Seq<Shape>,
    edits: Seq<Edit>,
    reals: Reals,
    statements: Seq<Statement>,
    upserts: Seq<Upsert>,
)
    requires
        run_as(tables, edits, reals, statements, upserts),
        statements.len() > 0,
    ensures
        run_as(
            tables,
            edits.drop_last(),
            reals,
            statements.drop_last(),
            upserts.drop_last(),
        ),
        upserts.last() == upsert_for(edits.last()),
        step(tables, edits.last(), reals) == Step::Run(statements.last()),
{
    let last = statements.len() - 1;
    assert(statements[last].sql == upserts[last].text());
    assert forall|i: int| 0 <= i < last implies (#[trigger] statements.drop_last()[i]).sql
        == upserts.drop_last()[i].text() && upserts.drop_last()[i] == upsert_for(
        edits.drop_last()[i],
    ) && step(tables, edits.drop_last()[i], reals) == Step::Run(statements.drop_last()[i]) by {
        assert(statements[i].sql == upserts[i].text());
    }
}

proof fn the_last_write_stays(
    tables: Seq<Shape>,
    edits: Seq<Edit>,
    reals: Reals,
    statements: Seq<Statement>,
    upserts: Seq<Upsert>,
    k: int,
    before: Contents,
    defaults: Defaults,
)
    requires
        run_as(tables, edits, reals, statements, upserts),
        0 <= k < edits.len(),
        forall|l: int| k < l < edits.len() ==> !same_cell(#[trigger] edits[l], edits[k]),
    ensures
        cell_at(
            after_all(upserts, statements, before, defaults),
            edits[k].dataset,
            edits[k].row,
            edits[k].column,
        ) matches Some(cell) && is_value(cell, edits[k].value, reals),
    decreases edits.len(),
{
    shorter_run(tables, edits, reals, statements, upserts);
    let m = edits[k];
    if k < edits.len() - 1 {
        assert(!same_cell(edits[edits.len() - 1], m));
        assert(edits.drop_last()[k] == m);
        assert forall|l: int| k < l < edits.drop_last().len() implies !same_cell(
            #[trigger] edits.drop_last()[l],
            m,
        ) by {
            assert(edits.drop_last()[l] == edits[l]);
        }
        the_last_write_stays(
            tables,
            edits.drop_last(),
            reals,
            statements.drop_last(),
            upserts.drop_last(),
            k,
            before,
            defaults,
        );
    }
}

proof fn what_is_not_edited_stays(
    tables: Seq<Shape>,
    edits: Seq<Edit>,
    reals: Reals,
    statements: Seq<Statement>,
    upserts: Seq<Upsert>,
    before: Contents,
    defaults: Defaults,
    other: Edit,
)
    requires
        run_as(tables, edits, reals, statements, upserts),
        forall|i: int| 0 <= i < edits.len() ==> !same_cell(#[trigger] edits[i], other),
        cell_at(before, other.dataset, other.row, other.column) is Some,
    ensures
        cell_at(
            after_all(upserts, statements, before, defaults),
            other.dataset,
            other.row,
            other.column,
        ) == cell_at(before, other.dataset, other.row, other.column),
    decreases edits.len(),
{
    if edits.len() > 0 {
        shorter_run(tables, edits, reals, statements, upserts);
        assert(!same_cell(edits[edits.len() - 1], other));
        assert forall|i: int| 0 <= i < edits.drop_last().len() implies !same_cell(
            #[trigger] edits.drop_last()[i],
            other,
        ) by {
            assert(edits.drop_last()[i] == edits[i]);
        }
        what_is_not_edited_stays(
            tables,
            edits.drop_last(),
            reals,
            statements.drop_last(),
            upserts.drop_last(),
            before,
            defaults,
            other,
        );
    }
}

proof fn kept_edits_come_from_the_batch(messages: Seq<Edit>, i: int)
    requires
        0 <= i < with_tables(in_order(messages)).len(),
    ensures
        messages.contains(with_tables(in_order(messages))[i]),
        has_table(with_tables(in_order(messages))[i]),
{
    broadcast use {Seq::lemma_filter_contains_rev, Seq::lemma_filter_pred};

    let done = in_order(messages);
    let kept = with_tables(done);
    let pred = |m: Edit| has_table(m);
    assert(done.filter(pred).contains(kept[i]));
    assert(done.contains(kept[i]));
    assert(pred(done.filter(pred)[i]));
    let order = stable_order(by_timestamp(messages));
    a_stable_order_exists(by_timestamp(messages));
    let p = choose|p: int| 0 <= p < done.len() && done[p] == kept[i];
    assert(0 <= order[p] < messages.len());
    assert(messages[order[p]] == kept[i]);
}

proof fn edits_with_tables_run(tables: Seq<Shape>, messages: Seq<Edit>, reals: Reals)
    requires
        forall|i: int|
            0 <= i < messages.len() ==> !(step(tables, #[trigger] messages[i], reals) is Refuse),
    ensures
        forall|i: int|
            0 <= i < with_tables(in_order(messages)).len() ==> step(
                tables,
                #[trigger] with_tables(in_order(messages))[i],
                reals,
            ) is Run,
{
    assert forall|i: int| 0 <= i < with_tables(in_order(messages)).len() implies step(
        tables,
        #[trigger] with_tables(in_order(messages))[i],
        reals,
    ) is Run by {
        kept_edits_come_from_the_batch(messages, i);
        let m = with_tables(in_order(messages))[i];
        let p = choose|p: int| 0 <= p < messages.len() && messages[p] == m;
        assert(!(step(tables, messages[p], reals) is Refuse));
    }
}

/// A table of this name is among the tables, and of those of the name the last
/// has this column.
pub open spec fn has_column(tables: Seq<Shape>, name: Seq<char>, column: Seq<char>) -> bool {
    exists|i: int|
        0 <= i < tables.len() && (#[trigger] tables[i]).name == name && tables[i].columns.contains(
            column,
        ) && forall|j: int| i < j < tables.len() ==> (#[trigger] tables[j]).name != name
}

/// What becomes of an edit: preferences are passed over; an edit of a table or
/// a column that is not there, of the primary key, or to a number that is not
/// finite is refused; every other edit is run.
pub proof fn only_sound_edits_are_run(tables: Seq<Shape>, m: Edit, reals: Reals)
    ensures
        step(tables, m, reals) is Skip <==> m.dataset == "prefs"@,
        step(tables, m, reals) is Run <==> m.dataset != "prefs"@ && has_column(
            tables,
            m.dataset,
            m.column,
        ) && m.column != "id"@ && (m.value matches Datum::Num(bits) ==> odd(bits) is None),
        step(tables, m, reals) == Step::Refuse(Refusal::UnknownTable) <==> m.dataset != "prefs"@
            && forall|i: int| 0 <= i < tables.len() ==> (#[trigger] tables[i]).name != m.dataset,
{
    the_last_table_counts(tables, m.dataset);
}

proof fn the_last_table_counts(tables: Seq<Shape>, name: Seq<char>)
    ensures
        columns_of(tables, name) is None <==> forall|i: int|
            0 <= i < tables.len() ==> (#[trigger] tables[i]).name != name,
        forall|column: Seq<char>|
            #[trigger] has_column(tables, name, column) <==> (columns_of(tables, name) matches Some(
                columns,
            ) && columns.contains(column)),
    decreases tables.len(),
{
    if tables.len() > 0 {
        let before = tables.drop_last();
        let last = tables.len() - 1;
        the_last_table_counts(before, name);
        assert forall|column: Seq<char>|
            #[trigger] has_column(tables, name, column) <==> (columns_of(tables, name) matches Some(
                columns,
            ) && columns.contains(column)) by {
            if tables[last].name == name {
                if has_column(tables, name, column) {
                    let i = choose|i: int|
                        0 <= i < tables.len() && (#[trigger] tables[i]).name == name
                            && tables[i].columns.contains(column) && forall|j: int|
                            i < j < tables.len() ==> (#[trigger] tables[j]).name != name;
                    assert(i == last);
                }
            } else {
                if has_column(tables, name, column) {
                    let i = choose|i: int|
                        0 <= i < tables.len() && (#[trigger] tables[i]).name == name
                            && tables[i].columns.contains(column) && forall|j: int|
                            i < j < tables.len() ==> (#[trigger] tables[j]).name != name;
                    assert(before[i] == tables[i]);
                    assert forall|j: int| i < j < before.len() implies (#[trigger] before[j]).name
                        != name by {
                        assert(before[j] == tables[j]);
                    }
                    assert(has_column(before, name, column));
                }
                if has_column(before, name, column) {
                    let i = choose|i: int|
                        0 <= i < before.len() && (#[trigger] before[i]).name == name
                            && before[i].columns.contains(column) && forall|j: int|
                            i < j < before.len() ==> (#[trigger] before[j]).name != name;
                    assert(tables[i] == before[i]);
                    assert forall|j: int| i < j < tables.len() implies (#[trigger] tables[j]).name
                        != name by {
                        if j < last {
                            assert(before[j] == tables[j]);
                        }
                    }
                    assert(has_column(tables, name, column));
                }
            }
        }
        assert(columns_of(tables, name) is None <==> forall|i: int|
            0 <= i < tables.len() ==> (#[trigger] tables[i]).name != name) by {
            if forall|i: int| 0 <= i < tables.len() ==> (#[trigger] tables[i]).name != name {
                assert forall|i: int| 0 <= i < before.len() implies (#[trigger] before[i]).name
                    != name by {
                    assert(before[i] == tables[i]);
                }
                assert(tables[last].name != name);
            }
            if columns_of(tables, name) is None {
                assert forall|i: int| 0 <= i < tables.len() implies (#[trigger] tables[i]).name
                    != name by {
                    if i < last {
                        assert(before[i] == tables[i]);
                    }
                }
            }
        }
    }
}

/// What is known of the schema is what the database lists: every table, and of
/// each every column, by name.
pub proof fn the_schema_is_what_the_database_lists(conn: &Connection, tables: Seq<Shape>)
    requires
        has_tables(conn, tables),
    ensures
        exists|none: Seq<Cell>, rows: Seq<Seq<Cell>>| #[trigger]
            answered(conn, tables_select().text(), none, rows) && none.len() == 0 && rows.len()
                == tables.len() && forall|i: int|
                0 <= i < tables.len() ==> (#[trigger] rows[i]).len() > 0 && rows[i][0] == Cell::Text(
                    tables[i].name,
                ),
        forall|i: int| 0 <= i < tables.len() ==> columns_listed(conn, #[trigger] tables[i]),
{
    what_is_kept_is_found_by_its_key(|column: Seq<char>| Cell::Null, Seq::empty());
    let names = tables.map_values(|shape: Shape| shape.name);
    let none = Seq::<Cell>::empty();
    let rows = choose|rows: Seq<Seq<Cell>>| #[trigger]
        answered(conn, TABLES@, none, rows) && texts_at(rows, 0) == Ok::<Seq<Seq<char>>, nat>(
            names,
        );
    every_row_is_read(rows, |row: Seq<Cell>| text_at(row, 0));
    assert forall|i: int| 0 <= i < tables.len() implies (#[trigger] rows[i]).len() > 0
        && rows[i][0] == Cell::Text(tables[i].name) by {
        assert(text_at(rows[i], 0) == Ok::<Seq<char>, nat>(names[i]));
    }
    assert(answered(conn, tables_select().text(), none, rows));
    assert forall|i: int| 0 <= i < tables.len() implies columns_listed(
        conn,
        #[trigger] tables[i],
    ) by {
        let shape = tables[i];
        assert(has_shape(conn, shape));
        let info = choose|rows: Seq<Seq<Cell>>| #[trigger]
            answered(conn, table_info_sql(shape.name), none, rows) && texts_at(rows, 1) == Ok::<
                Seq<Seq<char>>,
                nat,
            >(shape.columns);
        every_row_is_read(info, |row: Seq<Cell>| text_at(row, 1));
        assert forall|j: int| 0 <= j < shape.columns.len() implies (#[trigger] info[j]).len() > 1
            && info[j][1] == Cell::Text(shape.columns[j]) by {
            assert(text_at(info[j], 1) == Ok::<Seq<char>, nat>(shape.columns[j]));
        }
        assert(lists_columns(info, shape.columns));
        assert(answered(conn, "PRAGMA table_info(\""@ + shape.name + "\")"@, none, info));
    }
}

/// The database answers the question for the columns of a table with these.
pub open spec fn columns_listed(conn: &Connection, shape: Shape) -> bool {
    exists|none: Seq<Cell>, rows: Seq<Seq<Cell>>| #[trigger]
        answered(conn, "PRAGMA table_info(\""@ + shape.name + "\")"@, none, rows) && none.len() == 0
            && lists_columns(rows, shape.columns)
}

/// The second cell of each row is the name of a column, and there is a row for
/// each.
pub open spec fn lists_columns(rows: Seq<Seq<Cell>>, columns: Seq<Seq<char>>) -> bool {
    rows.len() == columns.len() && forall|j: int|
        0 <= j < columns.len() ==> (#[trigger] rows[j]).len() > 1 && rows[j][1] == Cell::Text(
            columns[j],
        )
}

} // verus!
