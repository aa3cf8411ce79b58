//! The local copy of the budget and its clock.
use rusqlite::types::Value;
use rusqlite::Connection;
use vstd::prelude::*;

use crate::actual::messages::{Edit, SyncMessage, ZERO_CLOCK};
use crate::actual::model::Snapshot;
use crate::ordering::{a_stable_order_exists, stable_order};
use crate::queries::transactions::{count_of, first_number};
use crate::store::apply::{
    a_bad_message_refuses_the_batch, a_good_batch_is_planned_whole, apply_messages, batch_failed,
    by_timestamp, has_tables, in_order, plannable, planned, step, stores,
    the_statements_are_the_planned_ones, what_is_planned_is_not_refused, with_tables, Reals, Shape,
};
use crate::store::error::StoreError;
use crate::store::freshness::{
    epoch_seconds, moment, whole_seconds_fit, Freshness, Timestamp, NANOS,
};
use crate::store::sql::{
    begin, cell_if_any, cells, commit, execute, looked_up, lookup, own_write, pending, refused,
    text_if_any, uncommitted, unopened, views, written, Cell, QueryError, SqlCell, SqlValue,
    Statement,
};
use crate::text::{a_decimal_reads_back, decimal, decimal_text, parse_u64, unsigned};

verus! {

pub const CLOCK_KEY: &'static str = "clock";

pub const LAST_RETRIEVAL_KEY: &'static str = "last_retrieval";

/// The statement that makes the table in which the replica keeps its state.
pub const CREATE_STATE: &'static str = "CREATE TABLE IF NOT EXISTS mcp_state (key TEXT PRIMARY KEY, value TEXT NOT NULL)";

/// The statement that looks for that table.
pub const FIND_STATE: &'static str = "SELECT count(*) FROM sqlite_master WHERE type = 'table' AND name = 'mcp_state'";

/// The statement that keeps a value under a key.
pub const SET_STATE: &'static str = "INSERT INTO mcp_state (key, value) VALUES (?1, ?2) ON CONFLICT(key) DO UPDATE SET value = ?2";

/// The statement that looks a value up.
pub const GET_STATE: &'static str = "SELECT value FROM mcp_state WHERE key = ?1";

/// The statement that finds the newest transaction.
pub const NEWEST: &'static str = "SELECT max(date) FROM transactions WHERE tombstone = 0";

// ----------------------------------------------------------------- state -----
/// A key as the only value bound to a statement.
pub open spec fn keyed(key: Seq<char>) -> Seq<Cell> {
    seq![Cell::Text(key)]
}

/// Keeps a value under a key.
pub open spec fn set_state(key: Seq<char>, value: Seq<char>) -> Statement {
    Statement { sql: SET_STATE@, params: seq![Cell::Text(key), Cell::Text(value)] }
}

/// The value that a lookup found, where it found one.
pub open spec fn state_in(cell: Option<Cell>) -> Result<Option<Seq<char>>, nat> {
    match cell {
        None => Ok(None),
        Some(Cell::Text(value)) => Ok(Some(value)),
        Some(_) => Err(0),
    }
}

/// Reads a value out of what a lookup found.
pub fn read_state(cell: &Option<SqlCell>) -> (r: Result<Option<String>, QueryError>)
    ensures
        match r {
            Ok(value) => state_in(cell_if_any(*cell)) == Ok::<Option<Seq<char>>, nat>(
                text_if_any(value),
            ),
            Err(e) => state_in(cell_if_any(*cell)) == Err::<Option<Seq<char>>, nat>(0) && e == (
            QueryError::Cell { column: 0 }),
        },
{
    match cell {
        None => Ok(None),
        Some(SqlCell::Text(value)) => Ok(Some(value.clone())),
        Some(_) => Err(QueryError::Cell { column: 0 }),
    }
}

fn get_state(conn: &Connection, key: &str) -> (r: Result<Option<String>, QueryError>)
    ensures
        match r {
            Err(QueryError::Sqlite(e)) => refused(conn, GET_STATE@, keyed(key@), e),
            Err(e) => e == (QueryError::Cell { column: 0 }) && exists|cell: Option<Cell>|
                #[trigger]
                looked_up(conn, GET_STATE@, keyed(key@), cell) && state_in(cell) is Err,
            Ok(value) => exists|cell: Option<Cell>| #[trigger]
                looked_up(conn, GET_STATE@, keyed(key@), cell) && state_in(cell) == Ok::<
                    Option<Seq<char>>,
                    nat,
                >(text_if_any(value)),
        },
{
    let mut params: Vec<SqlValue> = Vec::new();
    params.push(SqlValue::Text(key.to_owned()));
    assert(cells(params@) =~= keyed(key@));
    match lookup(conn, GET_STATE, &params) {
        Err(e) => Err(QueryError::Sqlite(e)),
        Ok(cell) => read_state(&cell),
    }
}

fn state_params(key: &str, value: &str) -> (r: Vec<SqlValue>)
    ensures
        cells(r@) == set_state(key@, value@).params,
{
    let mut params: Vec<SqlValue> = Vec::new();
    params.push(SqlValue::Text(key.to_owned()));
    params.push(SqlValue::Text(value.to_owned()));
    assert(cells(params@) =~= set_state(key@, value@).params);
    params
}

// ------------------------------------------------------------- freshness -----
/// The time of the last retrieval that a stored number of seconds says. What is
/// no number says nothing.
pub open spec fn retrieved(stored: Option<Seq<char>>) -> Option<int> {
    match stored {
        Some(raw) => match unsigned(raw) {
            Some(n) => if n <= u64::MAX {
                Some(n * NANOS)
            } else {
                None
            },
            None => None,
        },
        None => None,
    }
}

/// Reads the time of the last retrieval. `None` where the number of seconds is
/// beyond what a timestamp can say.
pub fn read_retrieval(stored: Option<String>) -> (r: Option<Option<Timestamp>>)
    ensures
        match r {
            Some(t) => moment(t) == retrieved(text_if_any(stored)),
            None => retrieved(text_if_any(stored)) matches Some(t) && t > i64::MAX * NANOS,
        },
{
    match stored {
        Some(raw) => match parse_u64(raw.as_str()) {
            Ok(secs) => if secs <= i64::MAX as u64 {
                Some(Some(Timestamp::at(secs as i64)))
            } else {
                None
            },
            Err(_) => Some(None),
        },
        None => Some(None),
    }
}

/// The newest date that a lookup found, where there is one.
pub open spec fn newest_in(cell: Option<Cell>) -> Result<Option<int>, nat> {
    match cell {
        Some(Cell::Null) => Ok(None),
        Some(Cell::Integer(date)) => if 0 <= date <= u32::MAX {
            Ok(Some(date))
        } else {
            Err(0)
        },
        _ => Err(0),
    }
}

/// An optional date as an integer.
pub open spec fn date_if_any(date: Option<u32>) -> Option<int> {
    match date {
        Some(n) => Some(n as int),
        None => None,
    }
}

/// Reads the newest date out of what a lookup found.
pub fn read_newest(cell: &Option<SqlCell>) -> (r: Result<Option<u32>, QueryError>)
    ensures
        match r {
            Ok(date) => newest_in(cell_if_any(*cell)) == Ok::<Option<int>, nat>(date_if_any(date)),
            Err(QueryError::NoRow) => cell is None,
            Err(e) => cell is Some && newest_in(cell_if_any(*cell)) is Err && e == (
            QueryError::Cell { column: 0 }),
        },
{
    match cell {
        None => Err(QueryError::NoRow),
        Some(SqlCell::Null) => Ok(None),
        Some(SqlCell::Integer(date)) => if 0 <= *date && *date <= u32::MAX as i64 {
            Ok(Some(*date as u32))
        } else {
            Err(QueryError::Cell { column: 0 })
        },
        Some(_) => Err(QueryError::Cell { column: 0 }),
    }
}

// --------------------------------------------------------------- replica -----
/// A local, materialised copy of the budget.
///
/// This is **cache, not state**: everything in it is derived from the Actual
/// server and can be rebuilt by deleting the file. Nothing user-meaningful
/// lives only here.
pub struct Replica {
    conn: Connection,
    path: String,
}

/// The name of the file of a budget.
pub open spec fn replica_file(group_id: Seq<char>) -> Seq<char> {
    "replica-"@ + group_id + ".sqlite"@
}

/// The clock that a snapshot starts at. A reset-clock upload carries no
/// timestamp; epoch zero asks for everything.
pub open spec fn first_clock(snapshot: Snapshot) -> Seq<char> {
    match snapshot.metadata.last_synced_timestamp {
        Some(clock) => clock@,
        None => ZERO_CLOCK@,
    }
}

/// What a batch commits: its statements, and then the clock and the time of the
/// retrieval.
pub open spec fn batch(statements: Seq<Statement>, clock: Seq<char>, now: int) -> Seq<Statement> {
    statements.push(set_state(CLOCK_KEY@, clock)).push(
        set_state(LAST_RETRIEVAL_KEY@, decimal(epoch_seconds(now) as nat)),
    )
}

/// The result is what the database answers to the question for the clock.
pub open spec fn clock_found(conn: &Connection, r: Result<String, StoreError>) -> bool {
    match r {
        Ok(clock) => exists|cell: Option<Cell>| #[trigger]
            looked_up(conn, GET_STATE@, keyed(CLOCK_KEY@), cell) && state_in(
                cell,
            ) == Ok::<Option<Seq<char>>, nat>(Some(clock@)),
        Err(StoreError::NoClock) => exists|cell: Option<Cell>| #[trigger]
            looked_up(conn, GET_STATE@, keyed(CLOCK_KEY@), cell) && state_in(
                cell,
            ) == Ok::<Option<Seq<char>>, nat>(None),
        Err(StoreError::Sqlite(QueryError::Sqlite(e))) => refused(
            conn,
            GET_STATE@,
            keyed(CLOCK_KEY@),
            e,
        ),
        Err(StoreError::Sqlite(QueryError::Cell { column })) => column == 0 && exists|
            cell: Option<Cell>,
        | #[trigger]
            looked_up(conn, GET_STATE@, keyed(CLOCK_KEY@), cell) && state_in(
                cell,
            ) is Err,
        Err(_) => false,
    }
}

/// The result is what the database answers to the questions for freshness.
pub open spec fn freshness_found(conn: &Connection, r: Result<Freshness, StoreError>) -> bool {
    match r {
        Ok(found) => {
            &&& exists|cell: Option<Cell>| #[trigger]
                looked_up(conn, GET_STATE@, keyed(LAST_RETRIEVAL_KEY@), cell)
                    && match state_in(cell) {
                    Ok(stored) => moment(found.last_retrieval) == retrieved(stored),
                    Err(_) => false,
                }
            &&& exists|cell: Option<Cell>| #[trigger]
                looked_up(conn, NEWEST@, Seq::empty(), cell) && newest_in(cell) == Ok::<Option<int>, nat>(
                    date_if_any(found.newest_transaction),
                )
        },
        Err(StoreError::Sqlite(QueryError::Sqlite(e))) => {
            ||| refused(conn, GET_STATE@, keyed(LAST_RETRIEVAL_KEY@), e)
            ||| refused(conn, NEWEST@, Seq::empty(), e)
        },
        Err(StoreError::Sqlite(QueryError::NoRow)) => looked_up(
            conn,
            NEWEST@,
            Seq::empty(),
            None,
        ),
        Err(StoreError::Sqlite(QueryError::Overflow)) => exists|cell: Option<Cell>|
            #[trigger]
            looked_up(conn, GET_STATE@, keyed(LAST_RETRIEVAL_KEY@), cell)
                && match state_in(cell) {
                Ok(stored) => retrieved(stored) matches Some(t) && t > i64::MAX * NANOS,
                Err(_) => false,
            },
        Err(StoreError::Sqlite(QueryError::Cell { column })) => column == 0 && {
            ||| exists|cell: Option<Cell>| #[trigger]
                looked_up(conn, GET_STATE@, keyed(LAST_RETRIEVAL_KEY@), cell)
                    && state_in(cell) is Err
            ||| exists|cell: Option<Cell>| #[trigger]
                looked_up(conn, NEWEST@, Seq::empty(), cell) && cell is Some
                    && newest_in(cell) is Err
        },
        Err(_) => false,
    }
}

/// The result of applying a batch: either everything is committed, in one
/// transaction, or nothing is.
pub open spec fn applied<R: Fn(u64) -> Value>(
    before: Replica,
    after: Replica,
    messages: Seq<Edit>,
    clock: Seq<char>,
    now: int,
    as_real: R,
    r: Result<usize, StoreError>,
) -> bool {
    match r {
        Ok(applied) => exists|tables: Seq<Shape>, statements: Seq<Statement>|
            has_tables(&before.database(), tables) && #[trigger] planned(
                tables,
                in_order(messages),
                as_real,
                statements,
            ) && applied == statements.len() && after.history() == before.history().push(
                batch(statements, clock, now),
            ),
        Err(e) => {
            &&& after.history() == before.history()
            &&& {
                ||| batch_failed(&before.database(), messages, as_real, e)
                ||| e matches StoreError::Sqlite(QueryError::Sqlite(why)) && (unopened(
                    &before.database(),
                    why,
                ) || plannable(&before.database(), messages) && unfinished(
                    &before.database(),
                    clock,
                    now,
                    why,
                ))
            }
        },
    }
}

/// Recording the clock or the time of the retrieval was refused, or committing
/// the batch was.
pub open spec fn unfinished(
    conn: &Connection,
    clock: Seq<char>,
    now: int,
    e: rusqlite::Error,
) -> bool {
    ||| refused(conn, SET_STATE@, set_state(CLOCK_KEY@, clock).params, e)
    ||| refused(
        conn,
        SET_STATE@,
        set_state(LAST_RETRIEVAL_KEY@, decimal(epoch_seconds(now) as nat)).params,
        e,
    )
    ||| uncommitted(conn, e)
}

/// The statement that makes the table of the replica's state.
pub open spec fn create_state() -> Statement {
    Statement { sql: CREATE_STATE@, params: Seq::empty() }
}

/// Writing a statement in a transaction of its own was refused.
pub open spec fn unwritten(conn: &Connection, statement: Statement, e: rusqlite::Error) -> bool {
    ||| unopened(conn, e)
    ||| refused(conn, statement.sql, statement.params, e)
    ||| uncommitted(conn, e)
}

/// Writes a statement in a transaction of its own.
fn write_alone(conn: &mut Connection, sql: &str, params: &Vec<SqlValue>) -> (r: Result<
    (),
    rusqlite::Error,
>)
    requires
        own_write(sql@),
    ensures
        match r {
            Ok(_) => written(final(conn)) == written(old(conn)).push(
                seq![Statement { sql: sql@, params: cells(params@) }],
            ),
            Err(e) => written(final(conn)) == written(old(conn)) && unwritten(
                old(conn),
                Statement { sql: sql@, params: cells(params@) },
                e,
            ),
        },
{
    let tx = match begin(conn) {
        Ok(tx) => tx,
        Err(e) => {
            return Err(e);
        },
    };
    let ghost one = Statement { sql: sql@, params: cells(params@) };
    let ghost start = pending(&tx);
    let tx = match execute(tx, sql, params) {
        Ok(tx) => tx,
        Err(e) => {
            return Err(e);
        },
    };
    assert(start.push(one) =~= seq![one]);
    match commit(tx) {
        Ok(_) => {
            assert(written(conn) =~= written(old(conn)).push(seq![one]));
            Ok(())
        },
        Err(e) => Err(e),
    }
}

impl Replica {
    /// What was written through this replica, transaction by transaction.
    pub closed spec fn history(&self) -> Seq<Seq<Statement>> {
        written(&self.conn)
    }

    /// The connection to the database.
    pub closed spec fn database(&self) -> Connection {
        self.conn
    }

    /// Where the file lies.
    pub closed spec fn location(&self) -> Seq<char> {
        self.path@
    }

    /// The name of the file of a budget.
    pub fn file_name(group_id: &str) -> (r: String)
        ensures
            r@ == replica_file(group_id@),
    {
        let mut out = String::new();
        out.append("replica-");
        out.append(group_id);
        out.append(".sqlite");
        assert(out@ =~= replica_file(group_id@));
        out
    }

    pub fn path(&self) -> (r: &str)
        ensures
            r@ == self.location(),
    {
        self.path.as_str()
    }

    /// The connection, for reading.
    pub fn connection(&self) -> (r: &Connection)
        ensures
            *r == self.database(),
    {
        &self.conn
    }

    /// Makes a replica of a freshly written snapshot, given a connection to its
    /// file.
    ///
    /// Separate from [`Replica::open`] because installing *replaces the file*,
    /// which cannot be done underneath a live connection.
    pub fn install(conn: Connection, path: String, snapshot: &Snapshot) -> (r: Result<
        Self,
        StoreError,
    >)
        ensures
            match r {
                Ok(replica) => {
                    &&& replica.location() == path@
                    &&& replica.history() == written(&conn).push(seq![create_state()]).push(
                        seq![set_state(CLOCK_KEY@, first_clock(*snapshot))],
                    )
                },
                Err(e) => e matches StoreError::Sqlite(QueryError::Sqlite(why)) && {
                    ||| unwritten(&conn, create_state(), why)
                    ||| exists|between: Connection| #[trigger]
                        written(&between) == written(&conn).push(seq![create_state()])
                            && unwritten(
                            &between,
                            set_state(CLOCK_KEY@, first_clock(*snapshot)),
                            why,
                        )
                },
            },
    {
        let mut conn = conn;
        let none: Vec<SqlValue> = Vec::new();
        assert(cells(none@) =~= Seq::empty());
        match write_alone(&mut conn, CREATE_STATE, &none) {
            Ok(_) => {},
            Err(e) => {
                return Err(StoreError::Sqlite(QueryError::Sqlite(e)));
            },
        }
        let params = match &snapshot.metadata.last_synced_timestamp {
            Some(clock) => state_params(CLOCK_KEY, clock.as_str()),
            None => state_params(CLOCK_KEY, ZERO_CLOCK),
        };
        match write_alone(&mut conn, SET_STATE, &params) {
            Ok(_) => {},
            Err(e) => {
                return Err(StoreError::Sqlite(QueryError::Sqlite(e)));
            },
        }
        Ok(Replica { conn, path })
    }

    /// Makes a replica of an existing file, given a connection to it, or `None`
    /// if it isn't a usable one.
    ///
    /// A file without our state table was not installed by us, or was installed
    /// by a version that predates it. It is treated as absent, and the caller
    /// re-installs rather than guessing at its contents.
    pub fn open(conn: Connection, path: String) -> (r: Result<Option<Self>, StoreError>)
        ensures
            match r {
                Ok(found) => {
                    &&& exists|cell: Option<Cell>| #[trigger]
                        looked_up(&conn, FIND_STATE@, Seq::empty(), cell) && match first_number(
                            cell,
                        ) {
                            Some(n) => (found is Some) == (n != 0),
                            None => false,
                        }
                    &&& found matches Some(replica) ==> replica.database() == conn
                        && replica.location() == path@
                },
                Err(StoreError::Sqlite(QueryError::Sqlite(e))) => refused(
                    &conn,
                    FIND_STATE@,
                    Seq::empty(),
                    e,
                ),
                Err(StoreError::Sqlite(QueryError::NoRow)) => looked_up(
                    &conn,
                    FIND_STATE@,
                    Seq::empty(),
                    None,
                ),
                Err(StoreError::Sqlite(QueryError::Cell { column })) => column == 0 && exists|
                    cell: Option<Cell>,
                | #[trigger]
                    looked_up(&conn, FIND_STATE@, Seq::empty(), cell) && cell is Some
                        && first_number(cell) is None,
                Err(_) => false,
            },
    {
        let none: Vec<SqlValue> = Vec::new();
        assert(cells(none@) =~= Seq::empty());
        let initialised: i64 = match lookup(&conn, FIND_STATE, &none) {
            Err(e) => {
                return Err(StoreError::Sqlite(QueryError::Sqlite(e)));
            },
            Ok(cell) => match count_of(&cell) {
                Err(e) => {
                    return Err(StoreError::Sqlite(e));
                },
                Ok(n) => n,
            },
        };
        if initialised == 0 {
            return Ok(None);
        }
        Ok(Some(Replica { conn, path }))
    }

    /// The clock to pass as `since` on the next fetch.
    pub fn clock(&self) -> (r: Result<String, StoreError>)
        ensures
            clock_found(&self.database(), r),
    {
        assert(self.database() == self.conn);
        match get_state(&self.conn, CLOCK_KEY) {
            Ok(Some(clock)) => Ok(clock),
            Ok(None) => Err(StoreError::NoClock),
            Err(e) => Err(StoreError::Sqlite(e)),
        }
    }

    /// Apply a batch and advance the clock **in one transaction**.
    ///
    /// If any message fails, the whole batch rolls back and the clock stays
    /// where it was: a partial apply with an advanced clock would lose those
    /// edits permanently, since the server would never send them again.
    pub fn apply<R: Fn(u64) -> Value>(
        &mut self,
        messages: &[SyncMessage],
        new_clock: &str,
        now: Timestamp,
        as_real: &R,
    ) -> (r: Result<usize, StoreError>)
        requires
            forall|bits: u64| call_requires(*as_real, (bits,)),
        ensures
            final(self).location() == old(self).location(),
            applied(
                *old(self),
                *final(self),
                views(messages@),
                new_clock@,
                now@,
                *as_real,
                r,
            ),
    {
        assert(self.database() == self.conn);
        let clock_params = state_params(CLOCK_KEY, new_clock);
        let seconds = decimal_text(now.epoch_secs());
        let time_params = state_params(LAST_RETRIEVAL_KEY, seconds.as_str());
        let tx = match begin(&mut self.conn) {
            Ok(tx) => tx,
            Err(e) => {
                return Err(StoreError::Sqlite(QueryError::Sqlite(e)));
            },
        };
        let ghost start = pending(&tx);
        let (tx, applied) = match apply_messages(tx, messages, as_real) {
            Ok(done) => done,
            Err(e) => {
                return Err(e);
            },
        };
        proof {
            let at = old(self).database();
            let ordered = in_order(views(messages@));
            let held = pending(&tx);
            let (tables, statements) = choose|tables: Seq<Shape>, statements: Seq<Statement>|
                has_tables(&at, tables) && #[trigger] planned(
                    tables,
                    ordered,
                    *as_real,
                    statements,
                ) && held == start + statements && applied == statements.len();
            assert(held =~= statements);
            what_is_planned_is_not_refused(tables, ordered, *as_real, statements);
            assert(plannable(&at, views(messages@)));
        }
        let tx = match execute(tx, SET_STATE, &clock_params) {
            Ok(tx) => tx,
            Err(e) => {
                return Err(StoreError::Sqlite(QueryError::Sqlite(e)));
            },
        };
        let tx = match execute(tx, SET_STATE, &time_params) {
            Ok(tx) => tx,
            Err(e) => {
                return Err(StoreError::Sqlite(QueryError::Sqlite(e)));
            },
        };
        let ghost all = pending(&tx);
        match commit(tx) {
            Ok(_) => {
                assert(self.history() =~= old(self).history().push(all));
                Ok(applied)
            },
            Err(e) => Err(StoreError::Sqlite(QueryError::Sqlite(e))),
        }
    }

    /// How current the data is. `Overflow` where the stored time is beyond what
    /// a timestamp can say.
    pub fn freshness(&self) -> (r: Result<Freshness, StoreError>)
        ensures
            freshness_found(&self.database(), r),
    {
        assert(self.database() == self.conn);
        let stored = match get_state(&self.conn, LAST_RETRIEVAL_KEY) {
            Ok(stored) => stored,
            Err(e) => {
                return Err(StoreError::Sqlite(e));
            },
        };
        let last_retrieval = match read_retrieval(stored) {
            Some(t) => t,
            None => {
                return Err(StoreError::Sqlite(QueryError::Overflow));
            },
        };
        let none: Vec<SqlValue> = Vec::new();
        assert(cells(none@) =~= Seq::empty());
        let newest_transaction = match lookup(&self.conn, NEWEST, &none) {
            Err(e) => {
                return Err(StoreError::Sqlite(QueryError::Sqlite(e)));
            },
            Ok(cell) => match read_newest(&cell) {
                Ok(date) => date,
                Err(e) => {
                    return Err(StoreError::Sqlite(e));
                },
            },
        };
        Ok(Freshness { last_retrieval, newest_transaction })
    }
}

// ----------------------------------------------------------------- laws -----
/// The value that some statements keep under a key: the last one that they set.
pub open spec fn kept(statements: Seq<Statement>, key: Seq<char>) -> Option<Seq<char>>
    decreases statements.len(),
{
    if statements.len() == 0 {
        None
    } else {
        let last = statements.last();
        if last.sql == SET_STATE@ && last.params.len() == 2 && last.params[0] == Cell::Text(key) {
            match last.params[1] {
                Cell::Text(value) => Some(value),
                _ => None,
            }
        } else {
            kept(statements.drop_last(), key)
        }
    }
}

/// The value that a history keeps under a key.
pub open spec fn recorded(history: Seq<Seq<Statement>>, key: Seq<char>) -> Option<Seq<char>>
    decreases history.len(),
{
    if history.len() == 0 {
        None
    } else {
        match kept(history.last(), key) {
            Some(value) => Some(value),
            None => recorded(history.drop_last(), key),
        }
    }
}

/// The clock moves with the batch it belongs to: what a batch commits records
/// its clock and the time of its retrieval, whatever else it holds.
pub proof fn the_clock_moves_with_its_batch(
    history: Seq<Seq<Statement>>,
    statements: Seq<Statement>,
    clock: Seq<char>,
    now: int,
)
    ensures
        recorded(history.push(batch(statements, clock, now)), CLOCK_KEY@) == Some(clock),
        recorded(history.push(batch(statements, clock, now)), LAST_RETRIEVAL_KEY@) == Some(
            decimal(epoch_seconds(now) as nat),
        ),
{
    reveal_strlit("clock");
    reveal_strlit("last_retrieval");
    let all = batch(statements, clock, now);
    assert(CLOCK_KEY@.len() != LAST_RETRIEVAL_KEY@.len());
    let first = statements.push(set_state(CLOCK_KEY@, clock));
    assert(all.drop_last() =~= first);
    assert(all.last().params[0] == Cell::Text(LAST_RETRIEVAL_KEY@));
    assert(first.last().params[0] == Cell::Text(CLOCK_KEY@));
    assert(kept(first, CLOCK_KEY@) == Some(clock));
    assert(kept(all, CLOCK_KEY@) == Some(clock));
    assert(history.push(all).last() == all);
}

/// A fresh replica's clock is the snapshot's own, or epoch zero.
pub proof fn an_install_records_the_clock(history: Seq<Seq<Statement>>, snapshot: Snapshot)
    ensures
        recorded(
            history.push(seq![set_state(CLOCK_KEY@, first_clock(snapshot))]),
            CLOCK_KEY@,
        ) == Some(first_clock(snapshot)),
{
    let last = seq![set_state(CLOCK_KEY@, first_clock(snapshot))];
    assert(history.push(last).last() == last);
    assert(last.last() == set_state(CLOCK_KEY@, first_clock(snapshot)));
}

/// The time that a batch records reads back as the time of the retrieval, to the
/// second. A time before 1970 reads back as the start of 1970.
pub proof fn a_recorded_retrieval_reads_back(
    history: Seq<Seq<Statement>>,
    statements: Seq<Statement>,
    clock: Seq<char>,
    now: Timestamp,
)
    ensures
        retrieved(Some(decimal(epoch_seconds(now@) as nat))) == Some(epoch_seconds(now@) * NANOS),
        retrieved(recorded(history.push(batch(statements, clock, now@)), LAST_RETRIEVAL_KEY@))
            == Some(epoch_seconds(now@) * NANOS),
        now@ >= 0 ==> epoch_seconds(now@) * NANOS <= now@ < (epoch_seconds(now@) + 1) * NANOS,
{
    whole_seconds_fit(now);
    a_decimal_reads_back(epoch_seconds(now@) as nat);
    the_clock_moves_with_its_batch(history, statements, clock, now@);
}

/// Two budgets never share a file.
pub proof fn budgets_have_their_own_files(a: Seq<char>, b: Seq<char>)
    requires
        replica_file(a) == replica_file(b),
    ensures
        a == b,
{
    reveal_strlit("replica-");
    reveal_strlit(".sqlite");
    let start = "replica-"@.len() as int;
    let (x, y) = (replica_file(a), replica_file(b));
    assert(x.len() == start + a.len() + ".sqlite"@.len());
    assert(y.len() == start + b.len() + ".sqlite"@.len());
    assert(x.subrange(start, start + a.len()) =~= a);
    assert(y.subrange(start, start + b.len()) =~= b);
}

/// A replica that is installed starts where its snapshot was synced, and from the
/// very beginning where the snapshot does not say.
pub proof fn an_installed_replica_starts_where_its_snapshot_was(
    conn: Connection,
    path: String,
    snapshot: &Snapshot,
    replica: Replica,
)
    requires
        call_ensures(Replica::install, (conn, path, snapshot), Ok(replica)),
    ensures
        replica.location() == path@,
        snapshot.metadata.last_synced_timestamp matches Some(clock) ==> recorded(
            replica.history(),
            "clock"@,
        ) == Some(clock@),
        snapshot.metadata.last_synced_timestamp is None ==> recorded(replica.history(), "clock"@)
            == Some("1970-01-01T00:00:00.000Z-0000-0000000000000000"@),
{
    an_install_records_the_clock(written(&conn).push(seq![create_state()]), *snapshot);
}

/// What is known of how current the data is comes from the time that was recorded
/// last, and from the newest of the days that the database knows.
pub proof fn freshness_is_what_was_recorded(conn: &Connection, found: Freshness)
    requires
        freshness_found(conn, Ok(found)),
    ensures
        exists|key: Seq<Cell>, cell: Option<Cell>| #[trigger]
            looked_up(conn, GET_STATE@, key, cell) && key == seq![Cell::Text("last_retrieval"@)]
                && match cell {
                None => found.last_retrieval is None,
                Some(Cell::Text(seconds)) => moment(found.last_retrieval) == retrieved(
                    Some(seconds),
                ),
                _ => false,
            },
        exists|none: Seq<Cell>, cell: Option<Cell>| #[trigger]
            looked_up(conn, NEWEST@, none, cell) && none.len() == 0 && match cell {
                Some(Cell::Null) => found.newest_transaction is None,
                Some(Cell::Integer(day)) => found.newest_transaction matches Some(n) && n == day,
                _ => false,
            },
{
}

/// The clock is what was recorded under its key.
pub proof fn the_clock_is_what_was_recorded(conn: &Connection, clock: String)
    requires
        clock_found(conn, Ok(clock)),
    ensures
        exists|key: Seq<Cell>| #[trigger]
            looked_up(conn, GET_STATE@, key, Some(Cell::Text(clock@))) && key == seq![
                Cell::Text("clock"@),
            ],
{
    let cell = choose|cell: Option<Cell>| #[trigger]
        looked_up(conn, GET_STATE@, keyed(CLOCK_KEY@), cell) && state_in(cell) == Ok::<
            Option<Seq<char>>,
            nat,
        >(Some(clock@));
    assert(cell == Some(Cell::Text(clock@)));
}

/// A file is taken for a replica where it holds the table that replicas keep, and
/// then it is that file.
pub proof fn only_replicas_are_opened(
    conn: Connection,
    path: String,
    found: Option<Replica>,
)
    requires
        call_ensures(Replica::open, (conn, path), Ok(found)),
    ensures
        exists|none: Seq<Cell>, n: int| #[trigger]
            looked_up(
                &conn,
                crate::queries::statements::kept_select().text(),
                none,
                Some(Cell::Integer(n)),
            ) && none.len() == 0 && (found is Some <==> n != 0),
        found matches Some(replica) ==> replica.database() == conn && replica.location() == path@,
{
    crate::queries::statements::what_is_kept_is_found_by_its_key(
        |column: Seq<char>| Cell::Null,
        Seq::empty(),
    );
    let cell = choose|cell: Option<Cell>| #[trigger]
        looked_up(&conn, FIND_STATE@, Seq::empty(), cell) && match first_number(cell) {
            Some(n) => (found is Some) == (n != 0),
            None => false,
        };
    let n = first_number(cell)->0;
    assert(cell == Some(Cell::Integer(n)));
}

/// A batch that is applied is applied whole: the number that is reported is that
/// of all its edits with a table behind them.
pub proof fn every_edit_of_a_batch_is_applied<R: Fn(u64) -> Value>(
    before: Replica,
    after: Replica,
    messages: Seq<Edit>,
    clock: Seq<char>,
    now: int,
    as_real: R,
    reals: Reals,
    n: usize,
)
    requires
        applied(before, after, messages, clock, now, as_real, Ok(n)),
        stores(as_real, reals),
    ensures
        n == with_tables(messages).len(),
        after.history().len() == before.history().len() + 1,
        after.history().last().len() == n + 2,
{
    let (tables, statements) = choose|tables: Seq<Shape>, statements: Seq<Statement>|
        has_tables(&before.database(), tables) && #[trigger] planned(
            tables,
            in_order(messages),
            as_real,
            statements,
        ) && n == statements.len() && after.history() == before.history().push(
            batch(statements, clock, now),
        );
    the_statements_are_the_planned_ones(tables, in_order(messages), as_real, reals, statements);
    assert forall|i: int| 0 <= i < messages.len() implies !(step(
        tables,
        #[trigger] messages[i],
        reals,
    ) is Refuse) by {
        if step(tables, messages[i], reals) is Refuse {
            let keys = by_timestamp(messages);
            let order = stable_order(keys);
            a_stable_order_exists(keys);
            assert(order.contains(i));
            let k = choose|k: int| 0 <= k < order.len() && order[k] == i;
            assert(in_order(messages)[k] == messages[i]);
            a_bad_message_refuses_the_batch(tables, in_order(messages), reals, k);
        }
    }
    a_good_batch_is_planned_whole(tables, messages, reals);
    assert(after.history().last() == batch(statements, clock, now));
}

} // verus!
