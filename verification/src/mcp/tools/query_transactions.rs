//! `query_transactions`
use rusqlite::Connection;
use vstd::prelude::*;

use crate::domain::{iso_day_value, BudgetDate, Money};
use crate::error::ToolError;
use crate::mcp::tools::spending_by_category::{no_date, no_period, not_a_date, not_a_period};
use crate::mcp::tools::{failed, passes_on};
use crate::queries::resolve::{
    accounts, answer, categories, names_found, payees, resolve, sentence, Answer, Named, Resolution,
    ACCOUNTS, CATEGORIES, PAYEES,
};
use crate::queries::rows::{count_select, page_select, the_listing_is_asked_for};
use crate::queries::scope::{Scope, TxScope};
use crate::queries::statements::{names_are_of_what_is_not_deleted, names_select};
use crate::queries::transactions::{
    bound, cents_if_any, conditions, count_sql, day_if_any, first_number, line, list, page_found,
    Filters, Line, TransactionPage, TransactionRow, TxFilters, DEFAULT_LIMIT, MAX_LIMIT,
};
use crate::store::sql::{answered, decoded, text_if_any, views, Cell, QueryError};
use crate::text::{
    a_part_is_contained, contains_text, decimal, decimal_text, join, joined, texts, trim, trimmed,
};

verus! {

pub const NAME: &'static str = "query_transactions";

pub const DESCRIPTION: &'static str = "Lists individual transactions, newest first, with any combination of filters. Amounts are in dollars and negative means money out. Accounts, categories and payees are given by name, not id; a name that matches several things comes back as a note listing the candidates instead of a guess. Transfers between the user's own accounts are included by default and flagged with is_transfer, so a register reconciles \u{2014} but they are not spending. Use spending_by_category for totals rather than summing these rows.";

pub struct QueryTransactions;

#[derive(Debug)]
pub struct Input {
    /// Inclusive start date, ISO 8601. Example: 2026-08-01
    pub from: Option<String>,
    /// Inclusive end date, ISO 8601. Example: 2026-08-31
    pub to: Option<String>,
    /// Account name. Partial names are fine; call list_accounts for exact ones.
    pub account: Option<String>,
    /// Category name. Partial names are fine; call list_categories for exact ones.
    pub category: Option<String>,
    /// Payee name. Partial names are fine.
    pub payee: Option<String>,
    /// Smallest amount, signed. Outflows are negative.
    pub min_amount: Option<Money>,
    /// Largest amount, signed.
    pub max_amount: Option<Money>,
    /// Matches the notes or the payee name, case-insensitively.
    pub notes_contains: Option<String>,
    /// Whether to list transfers between the user's own accounts. Defaults to
    /// true; they are labelled with `is_transfer` so they can be told apart.
    pub include_transfers: Option<bool>,
    /// Maximum rows to return. Defaults to 100, capped at 1000.
    pub limit: Option<u32>,
}

#[derive(Debug)]
pub struct Output {
    /// Newest first.
    pub transactions: Vec<TransactionRow>,
    /// How many matched in total, which may exceed the rows returned.
    pub total_matching: usize,
    /// True when `total_matching` is larger than the rows returned. Narrow the
    /// date range or raise `limit` to see the rest.
    pub truncated: bool,
    /// Present when a name could not be matched to exactly one thing. The
    /// transaction list is empty in that case; the text says what to do.
    pub note: Option<String>,
}

// ---------------------------------------------------------------- period -----
/// A date that may be given, or what is wrong with it.
pub open spec fn date_asked(raw: Option<Seq<char>>, field: Seq<char>) -> Result<
    Option<nat>,
    Seq<char>,
> {
    match raw {
        None => Ok(None),
        Some(text) => match iso_day_value(trimmed(text)) {
            Some(day) => Ok(Some(day)),
            None => Err(no_date(field, text)),
        },
    }
}

/// The period that is asked for, open at either end, or what is wrong with it.
pub open spec fn period_asked(from: Option<Seq<char>>, to: Option<Seq<char>>) -> Result<
    (Option<nat>, Option<nat>),
    Seq<char>,
> {
    match date_asked(from, "from"@) {
        Err(why) => Err(why),
        Ok(f) => match date_asked(to, "to"@) {
            Err(why) => Err(why),
            Ok(t) => match (f, t) {
                (Some(first), Some(last)) => if first > last {
                    Err(no_period(first, last))
                } else {
                    Ok((f, t))
                },
                _ => Ok((f, t)),
            },
        },
    }
}

fn parse_opt_date(raw: &Option<String>, field: &str) -> (r: Result<Option<BudgetDate>, ToolError>)
    ensures
        match r {
            Ok(date) => date_asked(text_if_any(*raw), field@) == Ok::<Option<nat>, Seq<char>>(
                day_if_any(date),
            ),
            Err(e) => e matches ToolError::BadArgument(message) && date_asked(
                text_if_any(*raw),
                field@,
            ) == Err::<Option<nat>, Seq<char>>(message@),
        },
{
    match raw {
        None => Ok(None),
        Some(text) => match BudgetDate::parse_iso(trim(text.as_str()).as_str()) {
            Some(date) => Ok(Some(date)),
            None => Err(not_a_date(field, text.as_str())),
        },
    }
}

fn parse_period(param: &Input) -> (r: Result<(Option<BudgetDate>, Option<BudgetDate>), ToolError>)
    ensures
        match r {
            Ok((from, to)) => period_asked(text_if_any(param.from), text_if_any(param.to)) == Ok::<
                (Option<nat>, Option<nat>),
                Seq<char>,
            >((day_if_any(from), day_if_any(to))),
            Err(e) => e matches ToolError::BadArgument(message) && period_asked(
                text_if_any(param.from),
                text_if_any(param.to),
            ) == Err::<(Option<nat>, Option<nat>), Seq<char>>(message@),
        },
{
    let from = match parse_opt_date(&param.from, "from") {
        Ok(date) => date,
        Err(e) => {
            return Err(e);
        },
    };
    let to = match parse_opt_date(&param.to, "to") {
        Ok(date) => date,
        Err(e) => {
            return Err(e);
        },
    };
    if let (Some(first), Some(last)) = (from, to) {
        if first.as_int() > last.as_int() {
            return Err(not_a_period(first, last));
        }
    }
    Ok((from, to))
}

// ----------------------------------------------------------------- names -----
/// The kinds of thing that are addressed by name.
#[derive(Clone, Copy)]
pub enum Kind {
    Account,
    Category,
    Payee,
}

impl Kind {
    /// What a person calls this kind of thing.
    pub open spec fn word(self) -> Seq<char> {
        match self {
            Kind::Account => "account"@,
            Kind::Category => "category"@,
            Kind::Payee => "payee"@,
        }
    }

    /// The statement that lists the things of this kind.
    pub open spec fn sql(self) -> Seq<char> {
        match self {
            Kind::Account => ACCOUNTS@,
            Kind::Category => CATEGORIES@,
            Kind::Payee => PAYEES@,
        }
    }
}

/// What came of looking a name up, where one was given.
pub type Found = Result<Option<Answer>, QueryError>;

/// Looking a name up, where one is given, comes to this.
pub open spec fn looked_up(
    conn: &Connection,
    kind: Kind,
    wanted: Option<Seq<char>>,
    found: Found,
) -> bool {
    match wanted {
        None => found == Ok::<Option<Answer>, QueryError>(None),
        Some(query) => exists|names: Result<Vec<Named>, QueryError>| #[trigger]
            names_found(conn, kind.sql(), names) && match names {
                Err(e) => found == Err::<Option<Answer>, QueryError>(e),
                Ok(candidates) => found == Ok::<Option<Answer>, QueryError>(
                    Some(answer(candidates@, query)),
                ),
            },
    }
}

/// What came of looking a name up, by its contents.
pub open spec fn answer_if_any(found: Option<Resolution>) -> Option<Answer> {
    match found {
        Some(resolution) => Some(resolution@),
        None => None,
    }
}

fn look_up(conn: &Connection, kind: Kind, wanted: &Option<String>) -> (r: Result<
    Option<Resolution>,
    QueryError,
>)
    ensures
        looked_up(
            conn,
            kind,
            text_if_any(*wanted),
            match r {
                Ok(found) => Ok(answer_if_any(found)),
                Err(e) => Err(e),
            },
        ),
{
    match wanted {
        None => Ok(None),
        Some(query) => {
            let names = match kind {
                Kind::Account => accounts(conn),
                Kind::Category => categories(conn),
                Kind::Payee => payees(conn),
            };
            let ghost listed = names;
            assert(names_found(conn, kind.sql(), listed));
            match names {
                Err(e) => Err(e),
                Ok(candidates) => Ok(Some(resolve(candidates.as_slice(), query.as_str()))),
            }
        },
    }
}

/// The id of what a name was found to mean.
pub open spec fn id_of(found: Option<Answer>) -> Option<Seq<char>> {
    match found {
        Some(Answer::One(named)) => Some(named.id@),
        _ => None,
    }
}

/// What is said of a name that does not mean exactly one thing.
pub open spec fn note_on(kind: Kind, query: Option<Seq<char>>, found: Option<Answer>) -> Seq<
    Seq<char>,
> {
    match found {
        None => Seq::empty(),
        Some(Answer::One(_)) => Seq::empty(),
        Some(other) => seq![
            sentence(
                other,
                kind.word(),
                match query {
                    Some(q) => q,
                    None => Seq::empty(),
                },
            ),
        ],
    }
}

/// The id of what a name was found to mean. Where it does not mean exactly one
/// thing, a note says so.
pub fn take(
    kind: Kind,
    query: &Option<String>,
    found: Option<Resolution>,
    notes: &mut Vec<String>,
) -> (r: Option<String>)
    ensures
        text_if_any(r) == id_of(answer_if_any(found)),
        texts(final(notes)@) == texts(old(notes)@) + note_on(
            kind,
            text_if_any(*query),
            answer_if_any(found),
        ),
{
    let ghost before = texts(notes@);
    match found {
        None => {
            assert(texts(notes@) =~= before + Seq::<Seq<char>>::empty());
            None
        },
        Some(Resolution::One(named)) => {
            assert(texts(notes@) =~= before + Seq::<Seq<char>>::empty());
            Some(named.id)
        },
        Some(other) => {
            let word = match kind {
                Kind::Account => "account",
                Kind::Category => "category",
                Kind::Payee => "payee",
            };
            let note = match query {
                Some(q) => other.describe(word, q.as_str()),
                None => {
                    let blank = String::new();
                    assert(blank@ =~= Seq::empty());
                    other.describe(word, blank.as_str())
                },
            };
            let ghost n = note@;
            notes.push(note);
            assert(texts(notes@) =~= before.push(n));
            assert(texts(notes@) =~= before + note_on(kind, text_if_any(*query), Some(other@)));
            None
        },
    }
}

// ------------------------------------------------------------------ page -----
/// How many rows to return: as many as asked for, but at least one and at most
/// [`MAX_LIMIT`].
pub open spec fn row_limit(limit: Option<u32>) -> nat {
    let asked = match limit {
        Some(n) => n as nat,
        None => DEFAULT_LIMIT as nat,
    };
    if asked < 1 {
        1
    } else if asked > MAX_LIMIT {
        MAX_LIMIT as nat
    } else {
        asked
    }
}

fn clamp_limit(limit: Option<u32>) -> (r: usize)
    ensures
        r == row_limit(limit),
{
    let asked: usize = match limit {
        Some(n) => n as usize,
        None => DEFAULT_LIMIT,
    };
    if asked < 1 {
        1
    } else if asked > MAX_LIMIT {
        MAX_LIMIT
    } else {
        asked
    }
}

/// What is said of a page that does not hold everything.
pub open spec fn truncation(limit: nat, matching: nat) -> Seq<char> {
    "Showing the "@ + decimal(limit) + " most recent of "@ + decimal(matching)
        + " matching transactions."@
}

/// The output is the one for this page.
pub open spec fn shows(page: TransactionPage, limit: nat, out: Output) -> bool {
    &&& out.transactions@ == page.rows@
    &&& out.total_matching == page.total_matching
    &&& out.truncated == (page.total_matching > page.rows@.len())
    &&& text_if_any(out.note) == (if page.total_matching > page.rows@.len() {
        Some(truncation(limit, page.total_matching as nat))
    } else {
        None
    })
}

/// The output for a page.
pub fn show_page(page: TransactionPage, limit: usize) -> (r: Output)
    ensures
        shows(page, limit as nat, r),
{
    let truncated = page.total_matching > page.rows.len();
    let note = if truncated {
        let mut text = String::new();
        text.append("Showing the ");
        text.append(decimal_text(limit as u64).as_str());
        text.append(" most recent of ");
        text.append(decimal_text(page.total_matching as u64).as_str());
        text.append(" matching transactions.");
        assert(text@ =~= truncation(limit as nat, page.total_matching as nat));
        Some(text)
    } else {
        None
    };
    Output { transactions: page.rows, total_matching: page.total_matching, truncated, note }
}

/// The output is the one for names that cannot be used: no transactions, and
/// what to do instead. One unusable name makes the whole result untrustworthy.
pub open spec fn declines(notes: Seq<Seq<char>>, out: Output) -> bool {
    &&& out.transactions@.len() == 0
    &&& out.total_matching == 0
    &&& !out.truncated
    &&& text_if_any(out.note) == Some(joined(notes, " "@))
}

// ---------------------------------------------------------------- answer -----
/// The notes on the three names.
pub open spec fn notes_on(
    param: Input,
    account: Option<Answer>,
    category: Option<Answer>,
    payee: Option<Answer>,
) -> Seq<Seq<char>> {
    note_on(Kind::Account, text_if_any(param.account), account) + note_on(
        Kind::Category,
        text_if_any(param.category),
        category,
    ) + note_on(Kind::Payee, text_if_any(param.payee), payee)
}

/// The filters that are asked for.
pub open spec fn filters_asked(
    param: Input,
    from: Option<nat>,
    to: Option<nat>,
    account: Option<Answer>,
    category: Option<Answer>,
    payee: Option<Answer>,
) -> Filters {
    Filters {
        from,
        to,
        account_id: id_of(account),
        category_id: id_of(category),
        payee_id: id_of(payee),
        min_amount: cents_if_any(param.min_amount),
        max_amount: cents_if_any(param.max_amount),
        notes_contains: text_if_any(param.notes_contains),
    }
}

/// The transactions that are looked at: all, or all but transfers.
pub open spec fn scope_asked(include_transfers: Option<bool>) -> Scope {
    Scope {
        transfers: match include_transfers {
            Some(yes) => yes,
            None => true,
        },
        ..Scope::listing()
    }
}

/// The result is the one for what the names were found to mean.
pub open spec fn concludes(
    conn: &Connection,
    param: Input,
    from: Option<nat>,
    to: Option<nat>,
    account: Option<Answer>,
    category: Option<Answer>,
    payee: Option<Answer>,
    r: Result<Output, ToolError>,
) -> bool {
    let notes = notes_on(param, account, category, payee);
    if notes.len() > 0 {
        r matches Ok(out) && declines(notes, out)
    } else {
        exists|found: Result<TransactionPage, QueryError>| #[trigger]
            page_found(
                conn,
                conditions(filters_asked(param, from, to, account, category, payee)),
                scope_asked(param.include_transfers),
                row_limit(param.limit),
                found,
            ) && match found {
                Err(cause) => r matches Err(e) && passes_on(e, cause),
                Ok(page) => r matches Ok(out) && shows(page, row_limit(param.limit), out),
            }
    }
}

/// The result is the one for a period and three names, looked up one after the
/// other until a lookup fails.
pub open spec fn answers(
    conn: &Connection,
    param: Input,
    from: Option<nat>,
    to: Option<nat>,
    r: Result<Output, ToolError>,
) -> bool {
    exists|account: Found| #[trigger]
        looked_up(conn, Kind::Account, text_if_any(param.account), account) && match account {
            Err(cause) => r matches Err(e) && passes_on(e, cause),
            Ok(a) => exists|category: Found| #[trigger]
                looked_up(conn, Kind::Category, text_if_any(param.category), category)
                    && match category {
                    Err(cause) => r matches Err(e) && passes_on(e, cause),
                    Ok(c) => exists|payee: Found| #[trigger]
                        looked_up(conn, Kind::Payee, text_if_any(param.payee), payee)
                            && match payee {
                            Err(cause) => r matches Err(e) && passes_on(e, cause),
                            Ok(p) => concludes(conn, param, from, to, a, c, p, r),
                        },
                },
        }
}

fn copy(text: &Option<String>) -> (r: Option<String>)
    ensures
        text_if_any(r) == text_if_any(*text),
{
    match text {
        Some(s) => Some(s.clone()),
        None => None,
    }
}

/// What is answered once the names have been looked up.
fn conclude(
    conn: &Connection,
    param: &Input,
    from: Option<BudgetDate>,
    to: Option<BudgetDate>,
    account: Option<Resolution>,
    category: Option<Resolution>,
    payee: Option<Resolution>,
) -> (r: Result<Output, ToolError>)
    ensures
        concludes(
            conn,
            *param,
            day_if_any(from),
            day_if_any(to),
            answer_if_any(account),
            answer_if_any(category),
            answer_if_any(payee),
            r,
        ),
{
    let ghost (a, c, p) = (
        answer_if_any(account),
        answer_if_any(category),
        answer_if_any(payee),
    );
    let mut notes: Vec<String> = Vec::new();
    assert(texts(notes@) =~= Seq::empty());
    let account_id = take(Kind::Account, &param.account, account, &mut notes);
    let category_id = take(Kind::Category, &param.category, category, &mut notes);
    let payee_id = take(Kind::Payee, &param.payee, payee, &mut notes);
    assert(texts(notes@) =~= notes_on(*param, a, c, p));
    assert(notes@.len() == texts(notes@).len());
    if notes.len() > 0 {
        return Ok(
            Output {
                transactions: Vec::new(),
                total_matching: 0,
                truncated: false,
                note: Some(join(&notes, " ")),
            },
        );
    }
    let filters = TxFilters {
        from,
        to,
        account_id,
        category_id,
        payee_id,
        min_amount: param.min_amount,
        max_amount: param.max_amount,
        notes_contains: copy(&param.notes_contains),
    };
    assert(filters@ == filters_asked(*param, day_if_any(from), day_if_any(to), a, c, p));
    let scope = TxScope::listing().with_transfers(
        match param.include_transfers {
            Some(yes) => yes,
            None => true,
        },
    );
    assert(scope@ == scope_asked(param.include_transfers));
    let limit: usize = clamp_limit(param.limit);
    let found = list(conn, &filters, scope, limit);
    let ghost asked = found;
    assert(page_found(
        conn,
        conditions(filters_asked(*param, day_if_any(from), day_if_any(to), a, c, p)),
        scope_asked(param.include_transfers),
        row_limit(param.limit),
        asked,
    ));
    match found {
        Err(cause) => Err(failed(cause)),
        Ok(page) => Ok(show_page(page, limit)),
    }
}

impl QueryTransactions {
    pub fn name() -> (r: &'static str)
        ensures
            r@ == NAME@,
    {
        NAME
    }

    pub fn description() -> (r: &'static str)
        ensures
            r@ == DESCRIPTION@,
    {
        DESCRIPTION
    }

    /// What the tool answers from the local copy.
    ///
    /// Names have to become ids before anything can be queried, and an
    /// unresolvable name is reported rather than guessed at.
    pub fn invoke(conn: &Connection, param: &Input) -> (r: Result<Output, ToolError>)
        ensures
            match period_asked(text_if_any(param.from), text_if_any(param.to)) {
                Err(why) => r matches Err(ToolError::BadArgument(message)) && message@ == why,
                Ok((from, to)) => answers(conn, *param, from, to, r),
            },
    {
        let (from, to) = match parse_period(param) {
            Ok(period) => period,
            Err(e) => {
                return Err(e);
            },
        };
        let ghost (f, t) = (day_if_any(from), day_if_any(to));
        assert(period_asked(text_if_any(param.from), text_if_any(param.to)) == Ok::<
            (Option<nat>, Option<nat>),
            Seq<char>,
        >((f, t)));
        let account = match look_up(conn, Kind::Account, &param.account) {
            Ok(found) => found,
            Err(cause) => {
                let ghost none: Found = Err(cause);
                assert(looked_up(conn, Kind::Account, text_if_any(param.account), none));
                return Err(failed(cause));
            },
        };
        let ghost a: Found = Ok(answer_if_any(account));
        assert(looked_up(conn, Kind::Account, text_if_any(param.account), a));
        let category = match look_up(conn, Kind::Category, &param.category) {
            Ok(found) => found,
            Err(cause) => {
                let ghost none: Found = Err(cause);
                assert(looked_up(conn, Kind::Category, text_if_any(param.category), none));
                return Err(failed(cause));
            },
        };
        let ghost c: Found = Ok(answer_if_any(category));
        assert(looked_up(conn, Kind::Category, text_if_any(param.category), c));
        let payee = match look_up(conn, Kind::Payee, &param.payee) {
            Ok(found) => found,
            Err(cause) => {
                let ghost none: Found = Err(cause);
                assert(looked_up(conn, Kind::Payee, text_if_any(param.payee), none));
                return Err(failed(cause));
            },
        };
        let ghost p: Found = Ok(answer_if_any(payee));
        assert(looked_up(conn, Kind::Payee, text_if_any(param.payee), p));
        conclude(conn, param, from, to, account, category, payee)
    }
}

// ----------------------------------------------------------------- laws -----
/// A name that does not mean exactly one thing is reported and not guessed at:
/// no transactions are listed, and there is a note.
pub proof fn an_unclear_name_is_never_guessed(
    conn: &Connection,
    param: Input,
    from: Option<nat>,
    to: Option<nat>,
    account: Option<Answer>,
    category: Option<Answer>,
    payee: Option<Answer>,
    r: Result<Output, ToolError>,
)
    requires
        concludes(conn, param, from, to, account, category, payee, r),
        (account matches Some(found) && !(found is One)) || (category matches Some(found) && !(
        found is One)) || (payee matches Some(found) && !(found is One)),
    ensures
        r matches Ok(out) && out.transactions@.len() == 0 && out.total_matching == 0
            && out.note is Some,
{
    let notes = notes_on(param, account, category, payee);
    assert(notes.len() > 0);
}

/// A page is marked as truncated exactly when more matched than it holds, and
/// then it says so.
pub proof fn truncation_is_always_told(page: TransactionPage, limit: nat, out: Output)
    requires
        shows(page, limit, out),
    ensures
        out.truncated <==> page.total_matching > out.transactions@.len(),
        out.truncated <==> out.note is Some,
{
}

/// No request for rows asks for none, nor for more than there may be.
pub proof fn row_limits_are_bounded(limit: Option<u32>)
    ensures
        1 <= row_limit(limit) <= MAX_LIMIT,
        limit matches Some(n) ==> (1 <= n <= MAX_LIMIT ==> row_limit(limit) == n),
{
}

/// How many rows a request is for: a hundred where it does not say, and
/// otherwise as many as it says, from one to a thousand.
pub open spec fn rows_asked(limit: Option<u32>, rows: nat) -> bool {
    match limit {
        None => rows == 100,
        Some(n) => 1 <= rows <= 1000 && (n >= 1 ==> rows <= n) && (n <= 1000 ==> rows >= n),
    }
}

/// Where every name that was given means one thing, the listing is of what was
/// asked: the days, the amounts and the text as they were given, the account, the
/// category and the payee by what their names mean, transfers unless they were
/// declined, accounts on and off the budget, but no closed ones.
pub proof fn a_listing_is_of_what_was_asked(
    conn: &Connection,
    param: Input,
    from: Option<nat>,
    to: Option<nat>,
    account: Option<Answer>,
    category: Option<Answer>,
    payee: Option<Answer>,
    r: Result<Output, ToolError>,
)
    requires
        concludes(conn, param, from, to, account, category, payee, r),
        account is None || account->0 is One,
        category is None || category->0 is One,
        payee is None || payee->0 is One,
    ensures
        exists|filters: Filters, scope: Scope, rows: nat, found: Result<TransactionPage, QueryError>|
            #[trigger]
            page_found(conn, conditions(filters), scope, rows, found) && {
                &&& filters.from == from
                &&& filters.to == to
                &&& account is None <==> filters.account_id is None
                &&& account matches Some(Answer::One(named)) ==> filters.account_id == Some(
                    named.id@,
                )
                &&& category is None <==> filters.category_id is None
                &&& category matches Some(Answer::One(named)) ==> filters.category_id == Some(
                    named.id@,
                )
                &&& payee is None <==> filters.payee_id is None
                &&& payee matches Some(Answer::One(named)) ==> filters.payee_id == Some(named.id@)
                &&& param.min_amount is None <==> filters.min_amount is None
                &&& param.min_amount matches Some(least) ==> filters.min_amount == Some(least@)
                &&& param.max_amount is None <==> filters.max_amount is None
                &&& param.max_amount matches Some(most) ==> filters.max_amount == Some(most@)
                &&& param.notes_contains is None <==> filters.notes_contains is None
                &&& param.notes_contains matches Some(text) ==> filters.notes_contains == Some(text@)
                &&& scope.transfers <==> param.include_transfers != Some(false)
                &&& scope.offbudget
                &&& !scope.closed_accounts
                &&& rows_asked(param.limit, rows)
                &&& found matches Ok(page) ==> (r matches Ok(out) && out.transactions@ == page.rows@
                    && out.total_matching == page.total_matching && out.truncated == (
                page.rows@.len() < page.total_matching))
                &&& found is Err ==> r is Err
            },
{
    let filters = filters_asked(param, from, to, account, category, payee);
    let scope = scope_asked(param.include_transfers);
    let rows = row_limit(param.limit);
    assert(notes_on(param, account, category, payee) =~= Seq::empty());
    let found = choose|found: Result<TransactionPage, QueryError>| #[trigger]
        page_found(
            conn,
            conditions(filters_asked(param, from, to, account, category, payee)),
            scope_asked(param.include_transfers),
            row_limit(param.limit),
            found,
        ) && match found {
            Err(cause) => r matches Err(e) && passes_on(e, cause),
            Ok(page) => r matches Ok(out) && shows(page, row_limit(param.limit), out),
        };
    assert(page_found(conn, conditions(filters), scope, rows, found));
}

/// A period may be open at either end. Days that are dates are asked for as they
/// are, whatever space stands round them, and a period that ends before it starts
/// is refused.
pub proof fn a_period_may_be_open(
    from: Option<Seq<char>>,
    to: Option<Seq<char>>,
    first: Option<nat>,
    last: Option<nat>,
)
    requires
        from is None <==> first is None,
        to is None <==> last is None,
        from matches Some(text) ==> iso_day_value(trimmed(text)) == first,
        to matches Some(text) ==> iso_day_value(trimmed(text)) == last,
    ensures
        first is Some && last is Some && first->0 > last->0 ==> period_asked(from, to) is Err,
        !(first is Some && last is Some && first->0 > last->0) ==> period_asked(from, to) == Ok::<
            (Option<nat>, Option<nat>),
            Seq<char>,
        >((first, last)),
{
}

/// A day that is no date is refused, at either end.
pub proof fn a_day_must_be_a_date(from: Option<Seq<char>>, to: Option<Seq<char>>)
    requires
        (from matches Some(text) && iso_day_value(trimmed(text)) is None) || (to matches Some(text)
            && iso_day_value(trimmed(text)) is None),
    ensures
        period_asked(from, to) is Err,
{
}

/// A name is looked up among the things of its kind, and one that is not given is
/// not looked up at all.
pub proof fn a_name_is_looked_up_among_its_kind(
    conn: &Connection,
    kind: Kind,
    query: Option<Seq<char>>,
    found: Option<Answer>,
)
    requires
        looked_up(conn, kind, query, Ok(found)),
    ensures
        query is None <==> found is None,
        query matches Some(text) ==> exists|sql: Seq<char>, names: Vec<Named>| #[trigger]
            names_found(conn, sql, Ok(names)) && found == Some(answer(names@, text)) && sql
                == names_select(
                match kind {
                    Kind::Account => "accounts"@,
                    Kind::Category => "v_categories"@,
                    Kind::Payee => "v_payees"@,
                },
            ).text(),
        kind.word() == (match kind {
            Kind::Account => "account"@,
            Kind::Category => "category"@,
            Kind::Payee => "payee"@,
        }),
{
    names_are_of_what_is_not_deleted(|column: Seq<char>| Cell::Null);
    if let Some(text) = query {
        let names = choose|names: Result<Vec<Named>, QueryError>| #[trigger]
            names_found(conn, kind.sql(), names) && match names {
                Err(e) => Ok::<Option<Answer>, QueryError>(found) == Err::<
                    Option<Answer>,
                    QueryError,
                >(e),
                Ok(candidates) => Ok::<Option<Answer>, QueryError>(found) == Ok::<
                    Option<Answer>,
                    QueryError,
                >(Some(answer(candidates@, text))),
            };
        assert(names_found(conn, kind.sql(), Ok(names->Ok_0)));
    }
}

/// A listing that is given looks every name up that was given, and concludes
/// from what all three were found to mean.
pub proof fn every_name_that_is_given_counts(
    conn: &Connection,
    param: &Input,
    from: Option<nat>,
    to: Option<nat>,
    out: Output,
)
    requires
        call_ensures(QueryTransactions::invoke, (conn, param), Ok(out)),
        period_asked(text_if_any(param.from), text_if_any(param.to)) == Ok::<
            (Option<nat>, Option<nat>),
            Seq<char>,
        >((from, to)),
    ensures
        exists|account: Option<Answer>, category: Option<Answer>, payee: Option<Answer>| #[trigger]
            concludes(conn, *param, from, to, account, category, payee, Ok(out)) && looked_up(
                conn,
                Kind::Account,
                text_if_any(param.account),
                Ok(account),
            ) && looked_up(conn, Kind::Category, text_if_any(param.category), Ok(category))
                && looked_up(conn, Kind::Payee, text_if_any(param.payee), Ok(payee)),
{
}

/// A day that is no date is refused, and so is a period that ends before it
/// starts.
pub proof fn a_bad_period_is_refused(
    conn: &Connection,
    param: &Input,
    r: Result<Output, ToolError>,
)
    requires
        call_ensures(QueryTransactions::invoke, (conn, param), r),
        period_asked(text_if_any(param.from), text_if_any(param.to)) is Err,
    ensures
        r matches Err(ToolError::BadArgument(_)),
{
}

/// A page is what the database answers to the question for the newest of the
/// transactions that match, with the number of all that do.
pub proof fn a_page_is_asked_for_with_its_filters(
    conn: &Connection,
    filters: Filters,
    scope: Scope,
    limit: nat,
    page: TransactionPage,
)
    requires
        page_found(conn, conditions(filters), scope, limit, Ok(page)),
    ensures
        exists|rows: Seq<Seq<Cell>>| #[trigger]
            answered(
                conn,
                page_select(filters, scope, limit).text(),
                bound(conditions(filters)),
                rows,
            ) && decoded(rows, |row: Seq<Cell>| line(row)) == Ok::<Seq<Line>, nat>(
                views(page.rows@),
            ),
        exists|n: int| #[trigger]
            crate::store::sql::looked_up(
                conn,
                count_select(filters, scope).text(),
                bound(conditions(filters)),
                Some(Cell::Integer(n)),
            ) && (0 <= n <= i64::MAX && n <= usize::MAX ==> page.total_matching == n),
{
    the_listing_is_asked_for(filters, scope, limit);
    let cell = choose|cell: Option<Cell>| #[trigger]
        crate::store::sql::looked_up(
            conn,
            count_sql(conditions(filters), scope),
            bound(conditions(filters)),
            cell,
        ) && match first_number(cell) {
            Some(n) => page.total_matching == (n as i64) as usize,
            None => false,
        };
    let n = first_number(cell)->0;
    assert(cell == Some(Cell::Integer(n)));
}

/// What is said of a page that does not hold everything tells how many it holds
/// and how many there are.
pub proof fn truncation_tells_both_numbers(limit: nat, matching: nat)
    ensures
        contains_text(truncation(limit, matching), decimal(limit)),
        contains_text(truncation(limit, matching), decimal(matching)),
{
    let whole = truncation(limit, matching);
    let (start, between, end) = (
        "Showing the "@,
        " most recent of "@,
        " matching transactions."@,
    );
    assert(whole =~= start + decimal(limit) + (between + decimal(matching) + end));
    a_part_is_contained(start, decimal(limit), between + decimal(matching) + end);
    let before = start + decimal(limit) + between;
    a_part_is_contained(before, decimal(matching), end);
}

} // verus!
