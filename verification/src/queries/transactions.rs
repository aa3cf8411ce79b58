//! Queries over transactions. Every one of them goes through [`TxScope`].
use rusqlite::Connection;
use vstd::prelude::*;

use crate::domain::{is_date, sums_fit, total, BudgetDate, Money};
use crate::queries::scope::{Scope, TxScope, FROM};
use crate::store::sql::{
    agree, agrees, answered, cell_if_any, cells, decode_rows, decoded, get_integer, get_small,
    get_text, get_text_or_null, integer_in, looked_up, lookup, query, refused, small_in, table,
    text_if_any, text_in, text_or_null_in, views, Cell, QueryError, SqlCell, SqlValue,
};
use crate::text::{chars_of, decimal, decimal_text, join, joined, texts};

verus! {

/// What a transaction with no category is called in output. Transactions whose
/// category was deleted land here too, since the view nulls those out.
pub const UNCATEGORISED: &'static str = "Uncategorised";

#[derive(Debug, Clone, PartialEq)]
pub struct CategoryTotal {
    pub category: String,
    /// Income categories carry positive totals; spending categories negative.
    pub is_income: bool,
    pub total: Money,
    pub transaction_count: usize,
}

/// The contents of a [`CategoryTotal`].
pub struct CategorySum {
    pub category: Seq<char>,
    pub is_income: bool,
    pub total: int,
    pub transaction_count: usize,
}

impl View for CategoryTotal {
    type V = CategorySum;

    open spec fn view(&self) -> CategorySum {
        CategorySum {
            category: self.category@,
            is_income: self.is_income,
            total: self.total@,
            transaction_count: self.transaction_count,
        }
    }
}

/// The statement that totals the rows of a scope per category.
pub open spec fn spending_sql(scope: Scope) -> Seq<char> {
    "SELECT COALESCE(cat.name, '"@ + UNCATEGORISED@
        + "') AS category, COALESCE(cat.is_income, 0) AS is_income, SUM(t.amount) AS total, COUNT(*) AS n FROM "@
        + FROM@ + " LEFT JOIN categories cat ON cat.id = t.category WHERE "@ + scope.where_sql()
        + " AND t.date BETWEEN ?1 AND ?2 GROUP BY cat.id ORDER BY total ASC"@
}

/// The values bound to that statement.
pub open spec fn period(from: nat, to: nat) -> Seq<Cell> {
    seq![Cell::Integer(from as int), Cell::Integer(to as int)]
}

/// What a row of that statement's answer stands for.
pub open spec fn category_sum(row: Seq<Cell>) -> Result<CategorySum, nat> {
    match text_in(row, 0) {
        None => Err(0),
        Some(category) => match integer_in(row, 1) {
            None => Err(1),
            Some(income) => match integer_in(row, 2) {
                None => Err(2),
                Some(cents) => match integer_in(row, 3) {
                    None => Err(3),
                    Some(n) => Ok(
                        CategorySum {
                            category,
                            is_income: income != 0,
                            total: cents,
                            transaction_count: (n as i64) as usize,
                        },
                    ),
                },
            },
        },
    }
}

fn category_total(row: &Vec<SqlCell>) -> (r: Result<CategoryTotal, QueryError>)
    ensures
        agrees(r, category_sum(cells(row@))),
{
    match get_text(row, 0) {
        Err(e) => Err(e),
        Ok(category) => match get_integer(row, 1) {
            Err(e) => Err(e),
            Ok(income) => match get_integer(row, 2) {
                Err(e) => Err(e),
                Ok(cents) => match get_integer(row, 3) {
                    Err(e) => Err(e),
                    Ok(n) => Ok(
                        CategoryTotal {
                            category,
                            is_income: income != 0,
                            total: Money::from_cents(cents),
                            transaction_count: n as usize,
                        },
                    ),
                },
            },
        },
    }
}

/// Reads totals per category out of the rows of an answer.
pub fn category_totals(rows: &Vec<Vec<SqlCell>>) -> (r: Result<Vec<CategoryTotal>, QueryError>)
    ensures
        agree(r, decoded(table(rows@), |row: Seq<Cell>| category_sum(row))),
{
    decode_rows(rows, category_total, Ghost(|row: Seq<Cell>| category_sum(row)))
}

/// The result is what the database answers to the question for totals.
pub open spec fn totals_found(
    conn: &Connection,
    from: nat,
    to: nat,
    scope: Scope,
    r: Result<Vec<CategoryTotal>, QueryError>,
) -> bool {
    match r {
        Err(QueryError::Sqlite(e)) => refused(conn, spending_sql(scope), period(from, to), e),
        _ => exists|rows: Seq<Seq<Cell>>| #[trigger]
            answered(conn, spending_sql(scope), period(from, to), rows) && agree(
                r,
                decoded(rows, |row: Seq<Cell>| category_sum(row)),
            ),
    }
}

/// Totals per category over an inclusive date range.
///
/// Uncategorised transactions are returned as their own bucket rather than
/// dropped, so the rows always sum to the overall total.
pub fn spending_by_category(
    conn: &Connection,
    from: BudgetDate,
    to: BudgetDate,
    scope: TxScope,
) -> (r: Result<Vec<CategoryTotal>, QueryError>)
    ensures
        totals_found(conn, from@, to@, scope@, r),
{
    let mut sql = String::new();
    sql.append("SELECT COALESCE(cat.name, '");
    sql.append(UNCATEGORISED);
    sql.append(
        "') AS category, COALESCE(cat.is_income, 0) AS is_income, SUM(t.amount) AS total, COUNT(*) AS n FROM ",
    );
    sql.append(FROM);
    sql.append(" LEFT JOIN categories cat ON cat.id = t.category WHERE ");
    sql.append(scope.where_sql().as_str());
    sql.append(" AND t.date BETWEEN ?1 AND ?2 GROUP BY cat.id ORDER BY total ASC");
    assert(sql@ =~= spending_sql(scope@));
    let mut params: Vec<SqlValue> = Vec::new();
    params.push(SqlValue::Integer(from.as_int() as i64));
    params.push(SqlValue::Integer(to.as_int() as i64));
    assert(cells(params@) =~= period(from@, to@));
    match query(conn, sql.as_str(), &params, 4) {
        Err(e) => Err(QueryError::Sqlite(e)),
        Ok(rows) => category_totals(&rows),
    }
}

// -------------------------------------------------------------- listing -----
/// Default page size, and the ceiling a caller may raise it to.
pub const DEFAULT_LIMIT: usize = 100;

pub const MAX_LIMIT: usize = 1000;

#[derive(Debug, Clone, PartialEq)]
pub struct TransactionRow {
    pub date: BudgetDate,
    /// Who the money went to or came from. For a transfer this is the account
    /// on the other side.
    pub payee: Option<String>,
    /// Absent when the transaction has no category.
    pub category: Option<String>,
    pub account: String,
    pub amount: Money,
    pub notes: Option<String>,
    /// Cleared transactions have been confirmed against the bank.
    pub cleared: bool,
    /// True when this moves money between the user's own accounts rather than
    /// in or out of the budget.
    pub is_transfer: bool,
}

/// The contents of a [`TransactionRow`].
pub struct Line {
    pub date: nat,
    pub payee: Option<Seq<char>>,
    pub category: Option<Seq<char>>,
    pub account: Seq<char>,
    pub amount: int,
    pub notes: Option<Seq<char>>,
    pub cleared: bool,
    pub is_transfer: bool,
}

impl View for TransactionRow {
    type V = Line;

    open spec fn view(&self) -> Line {
        Line {
            date: self.date@,
            payee: text_if_any(self.payee),
            category: text_if_any(self.category),
            account: self.account@,
            amount: self.amount@,
            notes: text_if_any(self.notes),
            cleared: self.cleared,
            is_transfer: self.is_transfer,
        }
    }
}

/// Filters, all optional and combined with AND. Ids, not names: resolving a
/// name is the caller's job, because an ambiguous name needs an answer the
/// user can act on rather than a silently-picked row.
#[derive(Debug, Clone)]
pub struct TxFilters {
    pub from: Option<BudgetDate>,
    pub to: Option<BudgetDate>,
    pub account_id: Option<String>,
    pub category_id: Option<String>,
    pub payee_id: Option<String>,
    pub min_amount: Option<Money>,
    pub max_amount: Option<Money>,
    pub notes_contains: Option<String>,
}

/// The contents of [`TxFilters`].
pub struct Filters {
    pub from: Option<nat>,
    pub to: Option<nat>,
    pub account_id: Option<Seq<char>>,
    pub category_id: Option<Seq<char>>,
    pub payee_id: Option<Seq<char>>,
    pub min_amount: Option<int>,
    pub max_amount: Option<int>,
    pub notes_contains: Option<Seq<char>>,
}

/// An optional date by its contents.
pub open spec fn day_if_any(date: Option<BudgetDate>) -> Option<nat> {
    match date {
        Some(d) => Some(d@),
        None => None,
    }
}

/// An optional amount by its contents.
pub open spec fn cents_if_any(amount: Option<Money>) -> Option<int> {
    match amount {
        Some(m) => Some(m@),
        None => None,
    }
}

impl View for TxFilters {
    type V = Filters;

    open spec fn view(&self) -> Filters {
        Filters {
            from: day_if_any(self.from),
            to: day_if_any(self.to),
            account_id: text_if_any(self.account_id),
            category_id: text_if_any(self.category_id),
            payee_id: text_if_any(self.payee_id),
            min_amount: cents_if_any(self.min_amount),
            max_amount: cents_if_any(self.max_amount),
            notes_contains: text_if_any(self.notes_contains),
        }
    }
}

impl Default for TxFilters {
    fn default() -> (r: Self)
        ensures
            conditions(r@) == Seq::<Condition>::empty(),
    {
        let r = TxFilters {
            from: None,
            to: None,
            account_id: None,
            category_id: None,
            payee_id: None,
            min_amount: None,
            max_amount: None,
            notes_contains: None,
        };
        assert(conditions(r@) =~= Seq::<Condition>::empty());
        r
    }
}

/// One thing a filter asks of a transaction.
pub enum Condition {
    From(nat),
    To(nat),
    Account(Seq<char>),
    Category(Seq<char>),
    Payee(Seq<char>),
    AtLeast(int),
    AtMost(int),
    /// The notes or the payee's name hold this text.
    Mentions(Seq<char>),
}

impl Condition {
    /// The condition as a SQL predicate whose value is parameter `n`.
    pub open spec fn sql(self, n: nat) -> Seq<char> {
        match self {
            Condition::From(_) => "t.date >= ?"@ + decimal(n),
            Condition::To(_) => "t.date <= ?"@ + decimal(n),
            Condition::Account(_) => "t.account = ?"@ + decimal(n),
            Condition::Category(_) => "t.category = ?"@ + decimal(n),
            Condition::Payee(_) => "t.payee = ?"@ + decimal(n),
            Condition::AtLeast(_) => "t.amount >= ?"@ + decimal(n),
            Condition::AtMost(_) => "t.amount <= ?"@ + decimal(n),
            Condition::Mentions(_) => "(COALESCE(t.notes, '') LIKE ?"@ + decimal(n)
                + " ESCAPE '\\' OR COALESCE(vp.name, '') LIKE ?"@ + decimal(n) + " ESCAPE '\\')"@,
        }
    }

    /// The value bound to the predicate.
    pub open spec fn value(self) -> Cell {
        match self {
            Condition::From(date) => Cell::Integer(date as int),
            Condition::To(date) => Cell::Integer(date as int),
            Condition::Account(id) => Cell::Text(id),
            Condition::Category(id) => Cell::Text(id),
            Condition::Payee(id) => Cell::Text(id),
            Condition::AtLeast(cents) => Cell::Integer(cents),
            Condition::AtMost(cents) => Cell::Integer(cents),
            Condition::Mentions(text) => Cell::Text("%"@ + escaped(text) + "%"@),
        }
    }
}

/// What the filters ask for, in a stable order.
pub open spec fn conditions(filters: Filters) -> Seq<Condition> {
    let asked = Seq::empty();
    let asked = match filters.from {
        Some(date) => asked.push(Condition::From(date)),
        None => asked,
    };
    let asked = match filters.to {
        Some(date) => asked.push(Condition::To(date)),
        None => asked,
    };
    let asked = match filters.account_id {
        Some(id) => asked.push(Condition::Account(id)),
        None => asked,
    };
    let asked = match filters.category_id {
        Some(id) => asked.push(Condition::Category(id)),
        None => asked,
    };
    let asked = match filters.payee_id {
        Some(id) => asked.push(Condition::Payee(id)),
        None => asked,
    };
    let asked = match filters.min_amount {
        Some(amount) => asked.push(Condition::AtLeast(amount)),
        None => asked,
    };
    let asked = match filters.max_amount {
        Some(amount) => asked.push(Condition::AtMost(amount)),
        None => asked,
    };
    let asked = match filters.notes_contains {
        Some(text) => asked.push(Condition::Mentions(text)),
        None => asked,
    };
    asked
}

/// The predicates of the conditions; each refers to the parameter that stands
/// in its own place.
pub open spec fn numbered(wanted: Seq<Condition>) -> Seq<Seq<char>> {
    Seq::new(wanted.len(), |i: int| wanted[i].sql((i + 1) as nat))
}

/// The values bound to the conditions, in their order.
pub open spec fn bound(wanted: Seq<Condition>) -> Seq<Cell> {
    wanted.map_values(|c: Condition| c.value())
}

/// The tables a listing reads.
pub open spec fn listing_from() -> Seq<char> {
    FROM@
        + " LEFT JOIN v_payees vp ON vp.id = t.payee LEFT JOIN categories cat ON cat.id = t.category"@
}

/// The rows a listing reads.
pub open spec fn listing_where(wanted: Seq<Condition>, scope: Scope) -> Seq<char> {
    joined(seq![scope.where_sql()] + numbered(wanted), " AND "@)
}

/// The statement that counts what matches.
pub open spec fn count_sql(wanted: Seq<Condition>, scope: Scope) -> Seq<char> {
    "SELECT COUNT(*) FROM "@ + listing_from() + " WHERE "@ + listing_where(wanted, scope)
}

/// The statement that brings the newest of what matches.
pub open spec fn page_sql(wanted: Seq<Condition>, scope: Scope, limit: nat) -> Seq<char> {
    "SELECT t.date, vp.name, cat.name, a.name, t.amount, t.notes, t.cleared, t.transfer_id IS NOT NULL FROM "@
        + listing_from() + " WHERE "@ + listing_where(wanted, scope)
        + " ORDER BY t.date DESC, t.sort_order DESC LIMIT "@ + decimal(
        if limit <= MAX_LIMIT {
            limit
        } else {
            MAX_LIMIT as nat
        },
    )
}

/// The date an integer stands for, or a stand-in where it stands for none.
pub open spec fn date_or_epoch(n: int) -> nat {
    if is_date(n as nat) {
        n as nat
    } else {
        19700101
    }
}

/// What a row of a page stands for.
pub open spec fn line(row: Seq<Cell>) -> Result<Line, nat> {
    match small_in(row, 0) {
        None => Err(0),
        Some(date) => match text_or_null_in(row, 1) {
            None => Err(1),
            Some(payee) => match text_or_null_in(row, 2) {
                None => Err(2),
                Some(category) => match text_in(row, 3) {
                    None => Err(3),
                    Some(account) => match integer_in(row, 4) {
                        None => Err(4),
                        Some(amount) => match text_or_null_in(row, 5) {
                            None => Err(5),
                            Some(notes) => match integer_in(row, 6) {
                                None => Err(6),
                                Some(cleared) => match integer_in(row, 7) {
                                    None => Err(7),
                                    Some(transfer) => Ok(
                                        Line {
                                            date: date_or_epoch(date),
                                            payee,
                                            category,
                                            account,
                                            amount,
                                            notes,
                                            cleared: cleared != 0,
                                            is_transfer: transfer != 0,
                                        },
                                    ),
                                },
                            },
                        },
                    },
                },
            },
        },
    }
}

fn transaction_row(row: &Vec<SqlCell>) -> (r: Result<TransactionRow, QueryError>)
    ensures
        agrees(r, line(cells(row@))),
{
    let date = match get_small(row, 0) {
        Err(e) => {
            return Err(e);
        },
        Ok(n) => match BudgetDate::from_int(n) {
            Some(date) => date,
            None => BudgetDate::epoch(),
        },
    };
    let payee = match get_text_or_null(row, 1) {
        Err(e) => {
            return Err(e);
        },
        Ok(payee) => payee,
    };
    let category = match get_text_or_null(row, 2) {
        Err(e) => {
            return Err(e);
        },
        Ok(category) => category,
    };
    let account = match get_text(row, 3) {
        Err(e) => {
            return Err(e);
        },
        Ok(account) => account,
    };
    let amount = match get_integer(row, 4) {
        Err(e) => {
            return Err(e);
        },
        Ok(cents) => Money::from_cents(cents),
    };
    let notes = match get_text_or_null(row, 5) {
        Err(e) => {
            return Err(e);
        },
        Ok(notes) => notes,
    };
    let cleared = match get_integer(row, 6) {
        Err(e) => {
            return Err(e);
        },
        Ok(n) => n != 0,
    };
    let is_transfer = match get_integer(row, 7) {
        Err(e) => {
            return Err(e);
        },
        Ok(n) => n != 0,
    };
    Ok(TransactionRow { date, payee, category, account, amount, notes, cleared, is_transfer })
}

#[derive(Debug, Clone, PartialEq)]
pub struct TransactionPage {
    pub rows: Vec<TransactionRow>,
    /// How many matched in total, so a truncated page can say so.
    pub total_matching: usize,
}

/// Reads the rows of a page out of the rows of an answer.
pub fn page_rows(rows: &Vec<Vec<SqlCell>>) -> (r: Result<Vec<TransactionRow>, QueryError>)
    ensures
        agree(r, decoded(table(rows@), |row: Seq<Cell>| line(row))),
{
    decode_rows(rows, transaction_row, Ghost(|row: Seq<Cell>| line(row)))
}

/// The number that a lookup found.
pub open spec fn first_number(cell: Option<Cell>) -> Option<int> {
    match cell {
        Some(Cell::Integer(n)) => Some(n),
        _ => None,
    }
}

/// Reads the number that a lookup found.
pub fn count_of(cell: &Option<SqlCell>) -> (r: Result<i64, QueryError>)
    ensures
        match r {
            Ok(n) => first_number(cell_if_any(*cell)) == Some(n as int),
            Err(e) => first_number(cell_if_any(*cell)) is None && e == (if cell is None {
                QueryError::NoRow
            } else {
                QueryError::Cell { column: 0 }
            }),
        },
{
    match cell {
        None => Err(QueryError::NoRow),
        Some(SqlCell::Integer(n)) => Ok(*n),
        Some(_) => Err(QueryError::Cell { column: 0 }),
    }
}

impl TxFilters {
    /// The predicates of these filters and the values bound to them.
    fn predicates(&self) -> (r: (Vec<String>, Vec<SqlValue>))
        ensures
            texts(r.0@) == numbered(conditions(self@)),
            cells(r.1@) == bound(conditions(self@)),
    {
        let mut predicates: Vec<String> = Vec::new();
        let mut params: Vec<SqlValue> = Vec::new();
        let ghost mut wanted: Seq<Condition> = Seq::empty();
        proof {
            assert(texts(predicates@) =~= numbered(wanted));
            assert(cells(params@) =~= bound(wanted));
        }
        if let Some(from) = self.from {
            let value = SqlValue::Integer(from.as_int() as i64);
            Self::push(&mut predicates, &mut params, "t.date >= ?", value, Ghost(Condition::From(from@)), Ghost(wanted));
            proof {
                wanted = wanted.push(Condition::From(from@));
            }
        }
        if let Some(to) = self.to {
            let value = SqlValue::Integer(to.as_int() as i64);
            Self::push(&mut predicates, &mut params, "t.date <= ?", value, Ghost(Condition::To(to@)), Ghost(wanted));
            proof {
                wanted = wanted.push(Condition::To(to@));
            }
        }
        if let Some(id) = &self.account_id {
            let value = SqlValue::Text(id.clone());
            Self::push(&mut predicates, &mut params, "t.account = ?", value, Ghost(Condition::Account(id@)), Ghost(wanted));
            proof {
                wanted = wanted.push(Condition::Account(id@));
            }
        }
        if let Some(id) = &self.category_id {
            let value = SqlValue::Text(id.clone());
            Self::push(&mut predicates, &mut params, "t.category = ?", value, Ghost(Condition::Category(id@)), Ghost(wanted));
            proof {
                wanted = wanted.push(Condition::Category(id@));
            }
        }
        if let Some(id) = &self.payee_id {
            let value = SqlValue::Text(id.clone());
            Self::push(&mut predicates, &mut params, "t.payee = ?", value, Ghost(Condition::Payee(id@)), Ghost(wanted));
            proof {
                wanted = wanted.push(Condition::Payee(id@));
            }
        }
        if let Some(min) = self.min_amount {
            let value = SqlValue::Integer(min.cents());
            Self::push(&mut predicates, &mut params, "t.amount >= ?", value, Ghost(Condition::AtLeast(min@)), Ghost(wanted));
            proof {
                wanted = wanted.push(Condition::AtLeast(min@));
            }
        }
        if let Some(max) = self.max_amount {
            let value = SqlValue::Integer(max.cents());
            Self::push(&mut predicates, &mut params, "t.amount <= ?", value, Ghost(Condition::AtMost(max@)), Ghost(wanted));
            proof {
                wanted = wanted.push(Condition::AtMost(max@));
            }
        }
        if let Some(text) = &self.notes_contains {
            Self::push_mention(&mut predicates, &mut params, text, Ghost(wanted));
            proof {
                wanted = wanted.push(Condition::Mentions(text@));
            }
        }
        assert(wanted == conditions(self@));
        (predicates, params)
    }

    /// Adds the condition on the notes. It matches the payee too: "coffee"
    /// should find a coffee shop, not only a transaction someone happened to
    /// annotate.
    fn push_mention(
        predicates: &mut Vec<String>,
        params: &mut Vec<SqlValue>,
        text: &String,
        Ghost(earlier): Ghost<Seq<Condition>>,
    )
        requires
            texts(old(predicates)@) == numbered(earlier),
            cells(old(params)@) == bound(earlier),
            earlier.len() < 100,
        ensures
            texts(final(predicates)@) == numbered(earlier.push(Condition::Mentions(text@))),
            cells(final(params)@) == bound(earlier.push(Condition::Mentions(text@))),
    {
        let ghost (p, q) = (texts(predicates@), cells(params@));
        let ghost c = Condition::Mentions(text@);
        assert(p.len() == earlier.len());
        assert(q.len() == earlier.len());
        let place = decimal_text((params.len() + 1) as u64);
        let mut sql = String::new();
        sql.append("(COALESCE(t.notes, '') LIKE ?");
        sql.append(place.as_str());
        sql.append(" ESCAPE '\\' OR COALESCE(vp.name, '') LIKE ?");
        sql.append(place.as_str());
        sql.append(" ESCAPE '\\')");
        let mut pattern = String::new();
        pattern.append("%");
        pattern.append(escape_like(text.as_str()).as_str());
        pattern.append("%");
        assert(sql@ =~= c.sql((earlier.len() + 1) as nat));
        assert(pattern@ =~= "%"@ + escaped(text@) + "%"@);
        let ghost s = sql@;
        predicates.push(sql);
        params.push(SqlValue::Text(pattern));
        assert(texts(predicates@) =~= p.push(s));
        assert(cells(params@) =~= q.push(c.value()));
        assert(texts(predicates@) =~= numbered(earlier.push(c)));
        assert(cells(params@) =~= bound(earlier.push(c)));
    }

    /// Adds a condition that names its parameter once, at its end.
    fn push(
        predicates: &mut Vec<String>,
        params: &mut Vec<SqlValue>,
        sql: &str,
        value: SqlValue,
        Ghost(c): Ghost<Condition>,
        Ghost(earlier): Ghost<Seq<Condition>>,
    )
        requires
            texts(old(predicates)@) == numbered(earlier),
            cells(old(params)@) == bound(earlier),
            earlier.len() < 100,
            value@ == c.value(),
            forall|n: nat| #[trigger] c.sql(n) == sql@ + decimal(n),
        ensures
            texts(final(predicates)@) == numbered(earlier.push(c)),
            cells(final(params)@) == bound(earlier.push(c)),
    {
        let ghost (p, q) = (texts(predicates@), cells(params@));
        assert(p.len() == earlier.len());
        assert(q.len() == earlier.len());
        let mut text = String::new();
        text.append(sql);
        text.append(decimal_text((params.len() + 1) as u64).as_str());
        assert(text@ =~= c.sql((earlier.len() + 1) as nat));
        let ghost s = text@;
        predicates.push(text);
        params.push(value);
        assert(texts(predicates@) =~= p.push(s));
        assert(cells(params@) =~= q.push(c.value()));
        assert(texts(predicates@) =~= numbered(earlier.push(c)));
        assert(cells(params@) =~= bound(earlier.push(c)));
    }
}

/// The result is what the database answers to the questions for a page.
pub open spec fn page_found(
    conn: &Connection,
    wanted: Seq<Condition>,
    scope: Scope,
    limit: nat,
    r: Result<TransactionPage, QueryError>,
) -> bool {
    let counting = count_sql(wanted, scope);
    let paging = page_sql(wanted, scope, limit);
    match r {
        Err(QueryError::Sqlite(e)) => {
            ||| refused(conn, counting, bound(wanted), e)
            ||| refused(conn, paging, bound(wanted), e) && exists|cell: Option<Cell>| #[trigger]
                looked_up(conn, counting, bound(wanted), cell) && first_number(cell) is Some
        },
        Err(QueryError::Overflow) => false,
        Err(QueryError::NoRow) => looked_up(conn, counting, bound(wanted), None),
        Err(QueryError::Cell { column }) => {
            ||| column == 0 && exists|cell: Option<Cell>| #[trigger]
                looked_up(conn, counting, bound(wanted), cell) && cell is Some
                    && first_number(cell) is None
            ||| exists|rows: Seq<Seq<Cell>>| #[trigger]
                answered(conn, paging, bound(wanted), rows) && decoded(
                    rows,
                    |row: Seq<Cell>| line(row),
                ) == Err::<Seq<Line>, nat>(column as nat)
        },
        Ok(page) => {
            &&& exists|cell: Option<Cell>| #[trigger]
                looked_up(conn, counting, bound(wanted), cell) && match first_number(cell) {
                    Some(n) => page.total_matching == (n as i64) as usize,
                    None => false,
                }
            &&& exists|rows: Seq<Seq<Cell>>| #[trigger]
                answered(conn, paging, bound(wanted), rows) && decoded(
                    rows,
                    |row: Seq<Cell>| line(row),
                ) == Ok::<Seq<Line>, nat>(views(page.rows@))
        },
    }
}

/// Newest first. `limit` is clamped to [`MAX_LIMIT`].
pub fn list(conn: &Connection, filters: &TxFilters, scope: TxScope, limit: usize) -> (r: Result<
    TransactionPage,
    QueryError,
>)
    ensures
        page_found(conn, conditions(filters@), scope@, limit as nat, r),
{
    let (more, params) = filters.predicates();
    let mut predicates: Vec<String> = Vec::new();
    predicates.push(scope.where_sql());
    let mut more = more;
    let ghost (first, rest) = (texts(predicates@), texts(more@));
    assert(first =~= seq![scope@.where_sql()]);
    predicates.append(&mut more);
    assert(texts(predicates@) =~= first + rest);
    let where_sql = join(&predicates, " AND ");
    let mut tables = String::new();
    tables.append(FROM);
    tables.append(
        " LEFT JOIN v_payees vp ON vp.id = t.payee LEFT JOIN categories cat ON cat.id = t.category",
    );
    assert(tables@ =~= listing_from());
    let ghost wanted = conditions(filters@);
    assert(where_sql@ == listing_where(wanted, scope@));
    let mut counting = String::new();
    counting.append("SELECT COUNT(*) FROM ");
    counting.append(tables.as_str());
    counting.append(" WHERE ");
    counting.append(where_sql.as_str());
    assert(counting@ =~= count_sql(wanted, scope@));
    let total: i64 = match lookup(conn, counting.as_str(), &params) {
        Err(e) => {
            return Err(QueryError::Sqlite(e));
        },
        Ok(cell) => match count_of(&cell) {
            Err(e) => {
                return Err(e);
            },
            Ok(n) => n,
        },
    };
    let mut paging = String::new();
    paging.append(
        "SELECT t.date, vp.name, cat.name, a.name, t.amount, t.notes, t.cleared, t.transfer_id IS NOT NULL FROM ",
    );
    paging.append(tables.as_str());
    paging.append(" WHERE ");
    paging.append(where_sql.as_str());
    paging.append(" ORDER BY t.date DESC, t.sort_order DESC LIMIT ");
    let most: usize = if limit <= MAX_LIMIT {
        limit
    } else {
        MAX_LIMIT
    };
    paging.append(decimal_text(most as u64).as_str());
    assert(paging@ =~= page_sql(wanted, scope@, limit as nat));
    match query(conn, paging.as_str(), &params, 8) {
        Err(e) => Err(QueryError::Sqlite(e)),
        Ok(found) => match page_rows(&found) {
            Err(e) => Err(e),
            Ok(rows) => Ok(TransactionPage { rows, total_matching: total as usize }),
        },
    }
}

// ------------------------------------------------------------- escaping -----
/// A character as a LIKE pattern with `\\` as the escape character writes it.
pub open spec fn escape(c: char) -> Seq<char> {
    if c == '\\' || c == '%' || c == '_' {
        seq!['\\', c]
    } else {
        seq![c]
    }
}

/// A text as a LIKE pattern that stands for the text and nothing else.
pub open spec fn escaped(text: Seq<char>) -> Seq<char>
    decreases text.len(),
{
    if text.len() == 0 {
        Seq::empty()
    } else {
        escaped(text.drop_last()) + escape(text.last())
    }
}

/// `%` and `_` are wildcards in LIKE; a user searching for "50% off" means the
/// literal characters.
pub fn escape_like(raw: &str) -> (r: String)
    ensures
        r@ == escaped(raw@),
{
    let chars = chars_of(raw);
    let mut out = String::new();
    let mut i: usize = 0;
    assert(out@ =~= escaped(chars@.take(0)));
    while i < chars.len()
        invariant
            i <= chars@.len(),
            out@ == escaped(chars@.take(i as int)),
        decreases chars@.len() - i,
    {
        let c = chars[i];
        let ghost before = out@;
        assert(chars@.take(i + 1).drop_last() =~= chars@.take(i as int));
        if c == '\\' || c == '%' || c == '_' {
            out.push('\\');
        }
        out.push(c);
        assert(out@ =~= before + escape(c));
        i += 1;
    }
    assert(chars@.take(i as int) =~= chars@);
    out
}

/// The text that a LIKE pattern stands for, where it holds no wildcard.
pub open spec fn literal(pattern: Seq<char>) -> Option<Seq<char>>
    decreases pattern.len(),
{
    if pattern.len() == 0 {
        Some(Seq::empty())
    } else if pattern[0] == '\\' {
        if pattern.len() == 1 {
            None
        } else {
            match literal(pattern.skip(2)) {
                Some(rest) => Some(seq![pattern[1]] + rest),
                None => None,
            }
        }
    } else if pattern[0] == '%' || pattern[0] == '_' {
        None
    } else {
        match literal(pattern.skip(1)) {
            Some(rest) => Some(seq![pattern[0]] + rest),
            None => None,
        }
    }
}

/// An escaped text holds no wildcard and stands for the very text.
pub proof fn escaping_means_the_text_itself(text: Seq<char>)
    ensures
        literal(escaped(text)) == Some(text),
{
    literal_of_both(text, Seq::empty());
    assert(escaped(text) + Seq::<char>::empty() =~= escaped(text));
    assert(text + Seq::<char>::empty() =~= text);
}

proof fn literal_of_both(text: Seq<char>, after: Seq<char>)
    requires
        literal(after) is Some,
    ensures
        literal(escaped(text) + after) == Some(text + literal(after)->0),
    decreases text.len(),
{
    if text.len() == 0 {
        assert(escaped(text) + after =~= after);
        assert(text + literal(after)->0 =~= literal(after)->0);
    } else {
        let c = text.last();
        let then_after = escape(c) + after;
        assert(then_after.skip(escape(c).len() as int) =~= after);
        assert(literal(then_after) == Some(seq![c] + literal(after)->0));
        literal_of_both(text.drop_last(), then_after);
        assert(escaped(text) + after =~= escaped(text.drop_last()) + then_after);
        assert(text.drop_last() + (seq![c] + literal(after)->0) =~= text + literal(after)->0);
    }
}

// --------------------------------------------------------------- totals -----
/// The totals of the categories of one kind.
pub open spec fn totals_of(categories: Seq<CategoryTotal>, is_income: bool) -> Seq<Money> {
    categories.filter(|c: CategoryTotal| c.is_income == is_income).map_values(
        |c: CategoryTotal| c.total,
    )
}

fn collect_totals(categories: &[CategoryTotal], is_income: bool) -> (r: Vec<Money>)
    ensures
        r@ == totals_of(categories@, is_income),
{
    let ghost wanted = |c: CategoryTotal| c.is_income == is_income;
    let ghost amount = |c: CategoryTotal| c.total;
    let mut out: Vec<Money> = Vec::new();
    let mut i: usize = 0;
    proof {
        reveal(Seq::filter);
        assert(categories@.take(0) =~= Seq::empty());
        assert(out@ =~= categories@.take(0).filter(wanted).map_values(amount));
    }
    while i < categories.len()
        invariant
            i <= categories@.len(),
            wanted == |c: CategoryTotal| c.is_income == is_income,
            amount == |c: CategoryTotal| c.total,
            out@ == categories@.take(i as int).filter(wanted).map_values(amount),
        decreases categories@.len() - i,
    {
        proof {
            reveal(Seq::filter);
            assert(categories@.take(i + 1).drop_last() =~= categories@.take(i as int));
            assert(categories@.take(i + 1).last() == categories@[i as int]);
        }
        if categories[i].is_income == is_income {
            out.push(categories[i].total);
        }
        i += 1;
        assert(out@ =~= categories@.take(i as int).filter(wanted).map_values(amount));
    }
    assert(categories@.take(i as int) =~= categories@);
    out
}

/// Split category totals into spending and income.
///
/// Classified by the `is_income` flag, deliberately **not** by sign. A spending
/// category whose refunds exceeded its purchases in a given month still
/// represents spending; classifying by sign would silently reclassify it as
/// income and drop its outgoings from the spending total.
pub fn split_totals(categories: &[CategoryTotal]) -> (r: (Money, Money))
    requires
        sums_fit(totals_of(categories@, false)),
        sums_fit(totals_of(categories@, true)),
    ensures
        r.0@ == total(totals_of(categories@, false)),
        r.1@ == total(totals_of(categories@, true)),
{
    let spending = collect_totals(categories, false);
    let income = collect_totals(categories, true);
    (Money::sum(spending.as_slice()), Money::sum(income.as_slice()))
}

/// [`split_totals`], or `None` where a sum leaves the range of an `i64`.
pub fn checked_split_totals(categories: &[CategoryTotal]) -> (r: Option<(Money, Money)>)
    ensures
        match r {
            Some((spending, income)) => {
                &&& sums_fit(totals_of(categories@, false))
                &&& sums_fit(totals_of(categories@, true))
                &&& spending@ == total(totals_of(categories@, false))
                &&& income@ == total(totals_of(categories@, true))
            },
            None => !(sums_fit(totals_of(categories@, false)) && sums_fit(
                totals_of(categories@, true),
            )),
        },
{
    let spending = collect_totals(categories, false);
    let income = collect_totals(categories, true);
    match (Money::checked_sum(spending.as_slice()), Money::checked_sum(income.as_slice())) {
        (Some(_), Some(_)) => Some(split_totals(categories)),
        _ => None,
    }
}

/// No category is lost and none is counted twice: spending and income together
/// are the sum over all categories.
pub proof fn spending_and_income_make_the_whole(categories: Seq<CategoryTotal>)
    ensures
        total(totals_of(categories, false)) + total(totals_of(categories, true)) == total(
            categories.map_values(|c: CategoryTotal| c.total),
        ),
    decreases categories.len(),
{
    reveal(Seq::filter);
    let amount = |c: CategoryTotal| c.total;
    if categories.len() > 0 {
        let before = categories.drop_last();
        let last = categories.last();
        spending_and_income_make_the_whole(before);
        assert(categories.map_values(amount) =~= before.map_values(amount).push(last.total));
        assert(categories.map_values(amount).drop_last() =~= before.map_values(amount));
        let kept = totals_of(before, last.is_income);
        assert(totals_of(categories, last.is_income) =~= kept.push(last.total));
        assert(kept.push(last.total).drop_last() =~= kept);
        assert(totals_of(categories, !last.is_income) =~= totals_of(before, !last.is_income));
    }
}

/// Adding a category adds its amount to the kind it is of, and changes nothing
/// for the other kind, whichever sign the amount has.
pub proof fn a_category_adds_to_its_own_kind(categories: Seq<CategoryTotal>, more: CategoryTotal)
    ensures
        total(totals_of(categories.push(more), more.is_income)) == total(
            totals_of(categories, more.is_income),
        ) + more.total@,
        total(totals_of(categories.push(more), !more.is_income)) == total(
            totals_of(categories, !more.is_income),
        ),
        total(totals_of(Seq::empty(), more.is_income)) == 0,
{
    reveal(Seq::filter);
    let all = categories.push(more);
    assert(all.drop_last() =~= categories);
    let kept = totals_of(categories, more.is_income);
    assert(totals_of(all, more.is_income) =~= kept.push(more.total));
    assert(kept.push(more.total).drop_last() =~= kept);
    assert(totals_of(all, !more.is_income) =~= totals_of(categories, !more.is_income));
    assert(totals_of(Seq::empty(), more.is_income) =~= Seq::empty());
}

/// Filters, totals and transactions show what they hold.
pub proof fn contents_are_as_given(f: TxFilters, c: CategoryTotal, t: TransactionRow)
    ensures
        f@.from is Some <==> f.from is Some,
        f.from matches Some(day) ==> f@.from == Some(day@),
        f@.to is Some <==> f.to is Some,
        f.to matches Some(day) ==> f@.to == Some(day@),
        f@.account_id is Some <==> f.account_id is Some,
        f.account_id matches Some(id) ==> f@.account_id == Some(id@),
        f@.category_id is Some <==> f.category_id is Some,
        f.category_id matches Some(id) ==> f@.category_id == Some(id@),
        f@.payee_id is Some <==> f.payee_id is Some,
        f.payee_id matches Some(id) ==> f@.payee_id == Some(id@),
        f@.min_amount is Some <==> f.min_amount is Some,
        f.min_amount matches Some(least) ==> f@.min_amount == Some(least@),
        f@.max_amount is Some <==> f.max_amount is Some,
        f.max_amount matches Some(most) ==> f@.max_amount == Some(most@),
        f@.notes_contains is Some <==> f.notes_contains is Some,
        f.notes_contains matches Some(text) ==> f@.notes_contains == Some(text@),
        c@.category == c.category@,
        c@.is_income == c.is_income,
        c@.total == c.total@,
        c@.transaction_count == c.transaction_count,
        t@.date == t.date@,
        t@.account == t.account@,
        t@.amount == t.amount@,
        t@.cleared == t.cleared,
        t@.is_transfer == t.is_transfer,
        t.payee matches Some(name) ==> t@.payee == Some(name@),
        t.payee is None ==> t@.payee is None,
        t.category matches Some(name) ==> t@.category == Some(name@),
        t.category is None ==> t@.category is None,
        t.notes matches Some(text) ==> t@.notes == Some(text@),
        t.notes is None ==> t@.notes is None,
{
}

/// An escaped text is what the pattern of a search stands for, letter by letter.
pub proof fn a_search_is_for_the_very_text(raw: &str, pattern: String)
    requires
        call_ensures(escape_like, (raw,), pattern),
    ensures
        literal(pattern@) == Some(raw@),
{
    escaping_means_the_text_itself(raw@);
}

/// Spending and income together are all the totals, and each goes by the kind of
/// its categories.
pub proof fn totals_are_split_by_kind(categories: &[CategoryTotal], r: (Money, Money))
    requires
        call_ensures(split_totals, (categories,), r),
    ensures
        r.0@ + r.1@ == total(categories@.map_values(|c: CategoryTotal| c.total)),
        (forall|i: int| 0 <= i < categories@.len() ==> (#[trigger] categories@[i]).is_income)
            ==> r.0@ == 0,
        (forall|i: int| 0 <= i < categories@.len() ==> !(#[trigger] categories@[i]).is_income)
            ==> r.1@ == 0,
{
    spending_and_income_make_the_whole(categories@);
    if forall|i: int| 0 <= i < categories@.len() ==> (#[trigger] categories@[i]).is_income {
        no_category_of_the_other_kind(categories@, false);
    }
    if forall|i: int| 0 <= i < categories@.len() ==> !(#[trigger] categories@[i]).is_income {
        no_category_of_the_other_kind(categories@, true);
    }
}

proof fn no_category_of_the_other_kind(categories: Seq<CategoryTotal>, is_income: bool)
    requires
        forall|i: int|
            0 <= i < categories.len() ==> (#[trigger] categories[i]).is_income != is_income,
    ensures
        total(totals_of(categories, is_income)) == 0,
    decreases categories.len(),
{
    reveal(Seq::filter);
    if categories.len() > 0 {
        let before = categories.drop_last();
        assert forall|i: int| 0 <= i < before.len() implies (#[trigger] before[i]).is_income
            != is_income by {
            assert(before[i] == categories[i]);
        }
        no_category_of_the_other_kind(before, is_income);
        assert(categories[categories.len() - 1].is_income != is_income);
        assert(totals_of(categories, is_income) =~= totals_of(before, is_income));
    } else {
        assert(totals_of(categories, is_income) =~= Seq::empty());
    }
}

} // verus!
