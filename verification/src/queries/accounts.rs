//! Accounts and their balances.
use rusqlite::Connection;
use vstd::prelude::*;

use crate::domain::Money;
use crate::store::sql::{
    agree, agrees, answered, cells, decode_rows, decoded, get_integer, get_text, get_text_or_null,
    integer_in, query, refused, table, text_if_any, text_in, text_or_null_in, Cell, QueryError,
    SqlCell, SqlValue,
};

verus! {

#[derive(Debug, Clone, PartialEq)]
pub struct AccountSummary {
    pub name: String,
    /// Everything that has ever happened in this account, summed. Negative for
    /// a credit card carrying a balance.
    pub balance: Money,
    /// On-budget accounts fund the envelope budget. Off-budget ones
    /// (retirement, brokerage) are tracked for net worth but never budgeted.
    pub on_budget: bool,
    pub closed: bool,
    /// Actual's account type, when the file records one.
    pub account_type: Option<String>,
}

/// The contents of an [`AccountSummary`].
pub struct Account {
    pub name: Seq<char>,
    pub balance: int,
    pub on_budget: bool,
    pub closed: bool,
    pub account_type: Option<Seq<char>>,
}

impl View for AccountSummary {
    type V = Account;

    open spec fn view(&self) -> Account {
        Account {
            name: self.name@,
            balance: self.balance@,
            on_budget: self.on_budget,
            closed: self.closed,
            account_type: text_if_any(self.account_type),
        }
    }
}

/// The statement that lists the accounts.
///
/// The balance is deliberately **not** filtered through [`TxScope`]: that scope
/// answers "what did the user spend", which leaves out transfers and opening
/// balances. An account balance is the opposite question: every movement of
/// money in that account counts, however it got there. Split parents are still
/// skipped, because they duplicate the amounts of their children.
///
/// It also ignores the `balance_current` column, which is whatever the bank
/// last reported during a sync rather than what the budget believes.
///
/// [`TxScope`]: crate::queries::scope::TxScope
pub const LIST: &'static str = "SELECT a.name, COALESCE((SELECT SUM(t.amount) FROM v_transactions t WHERE t.account = a.id AND t.is_parent = 0), 0) AS balance, a.offbudget, a.closed, NULLIF(COALESCE(a.type, ''), '') FROM accounts a WHERE a.tombstone = 0 AND (?1 OR a.closed = 0) ORDER BY a.offbudget, a.sort_order, a.name";

/// A yes or no as the only value bound to a statement.
pub open spec fn flag(yes: bool) -> Seq<Cell> {
    seq![
        Cell::Integer(
            if yes {
                1
            } else {
                0
            },
        ),
    ]
}

/// A yes or no as the only value bound to a statement.
pub(crate) fn flag_param(yes: bool) -> (r: Vec<SqlValue>)
    ensures
        cells(r@) == flag(yes),
{
    let mut params: Vec<SqlValue> = Vec::new();
    params.push(
        SqlValue::Integer(
            if yes {
                1
            } else {
                0
            },
        ),
    );
    assert(cells(params@) =~= flag(yes));
    params
}

/// What a row of the list stands for.
pub open spec fn account(row: Seq<Cell>) -> Result<Account, nat> {
    match text_in(row, 0) {
        None => Err(0),
        Some(name) => match integer_in(row, 1) {
            None => Err(1),
            Some(balance) => match integer_in(row, 2) {
                None => Err(2),
                Some(off_budget) => match integer_in(row, 3) {
                    None => Err(3),
                    Some(closed) => match text_or_null_in(row, 4) {
                        None => Err(4),
                        Some(account_type) => Ok(
                            Account {
                                name,
                                balance,
                                on_budget: off_budget == 0,
                                closed: closed != 0,
                                account_type,
                            },
                        ),
                    },
                },
            },
        },
    }
}

fn read_account(row: &Vec<SqlCell>) -> (r: Result<AccountSummary, QueryError>)
    ensures
        agrees(r, account(cells(row@))),
{
    match get_text(row, 0) {
        Err(e) => Err(e),
        Ok(name) => match get_integer(row, 1) {
            Err(e) => Err(e),
            Ok(cents) => match get_integer(row, 2) {
                Err(e) => Err(e),
                Ok(off_budget) => match get_integer(row, 3) {
                    Err(e) => Err(e),
                    Ok(closed) => match get_text_or_null(row, 4) {
                        Err(e) => Err(e),
                        Ok(account_type) => Ok(
                            AccountSummary {
                                name,
                                balance: Money::from_cents(cents),
                                on_budget: off_budget == 0,
                                closed: closed != 0,
                                account_type,
                            },
                        ),
                    },
                },
            },
        },
    }
}

/// Reads accounts out of the rows of an answer.
pub fn read_accounts(rows: &Vec<Vec<SqlCell>>) -> (r: Result<Vec<AccountSummary>, QueryError>)
    ensures
        agree(r, decoded(table(rows@), |row: Seq<Cell>| account(row))),
{
    decode_rows(rows, read_account, Ghost(|row: Seq<Cell>| account(row)))
}

/// The result is what the database answers to the question for accounts.
pub open spec fn accounts_found(
    conn: &Connection,
    include_closed: bool,
    r: Result<Vec<AccountSummary>, QueryError>,
) -> bool {
    match r {
        Err(QueryError::Sqlite(e)) => refused(conn, LIST@, flag(include_closed), e),
        _ => exists|rows: Seq<Seq<Cell>>| #[trigger]
            answered(conn, LIST@, flag(include_closed), rows) && agree(
                r,
                decoded(rows, |row: Seq<Cell>| account(row)),
            ),
    }
}

/// List accounts with their balances, on-budget accounts first.
pub fn list(conn: &Connection, include_closed: bool) -> (r: Result<Vec<AccountSummary>, QueryError>)
    ensures
        accounts_found(conn, include_closed, r),
{
    match query(conn, LIST, &flag_param(include_closed), 5) {
        Err(e) => Err(QueryError::Sqlite(e)),
        Ok(rows) => read_accounts(&rows),
    }
}

} // verus!
