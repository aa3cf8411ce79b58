//! `spending_by_category`
use rusqlite::Connection;
use vstd::prelude::*;

use crate::domain::{
    dates_round_trip, fits, iso_day, iso_day_value, sizes, small_sums_are_never_refused, sums_fit,
    total, BudgetDate, Money, LAST_DAY,
};
use crate::error::ToolError;
use crate::mcp::tools::{failed, out_of_range, passes_on, too_large};
use crate::queries::rows::{spending_select, the_totals_are_asked_for};
use crate::queries::scope::{Scope, TxScope};
use crate::queries::transactions::{
    category_sum, checked_split_totals, spending_and_income_make_the_whole, spending_by_category,
    totals_found, totals_of, CategorySum, CategoryTotal,
};
use crate::store::sql::{answered, decoded, views, Cell, QueryError};
use crate::text::{a_part_is_contained, contains_text, quote, quoted};

verus! {

pub const NAME: &'static str = "spending_by_category";

pub const DESCRIPTION: &'static str = "Totals spending and income per category over an inclusive date range. Amounts are in dollars: negative is money out, positive is money in. Transfers between the user's own accounts and off-budget accounts (retirement, brokerage) are excluded, because neither is spending. Transactions with no category appear as \"Uncategorised\" rather than being dropped, so the categories always sum to the totals.";

/// What `spending()` leaves out, stated in the response so the model can
/// qualify the figure instead of presenting it as every dollar that moved.
pub const EXCLUDES: &'static str = "Excludes transfers between the user's own on-budget accounts, activity inside off-budget accounts such as retirement and brokerage, closed accounts, and opening balances. Money moved from an on-budget account into an off-budget one IS counted as spending, because it leaves the budget.";

pub struct SpendingByCategory;

#[derive(Debug)]
pub struct Input {
    /// Inclusive start date, ISO 8601. Example: 2026-08-01
    pub from: String,
    /// Inclusive end date, ISO 8601. Example: 2026-08-31
    pub to: String,
}

#[derive(Debug)]
pub struct Output {
    /// Echoed back so the figures cannot be attributed to the wrong period.
    pub from: BudgetDate,
    pub to: BudgetDate,
    /// Largest outflow first.
    pub categories: Vec<CategoryTotal>,
    /// Net total across all non-income categories. Negative means money left
    /// the budget. Refunds are already netted against the category they
    /// belong to.
    pub total_spending: Money,
    /// Net total across all income categories.
    pub total_income: Money,
    /// `total_income + total_spending`.
    pub net: Money,
    pub excludes: String,
}

/// What is said of a text that is no date.
pub open spec fn no_date(field: Seq<char>, raw: Seq<char>) -> Seq<char> {
    "`"@ + field + "` must be an ISO 8601 date like 2026-08-01, got "@ + quoted(raw)
}

/// What is said of a period that ends before it begins.
pub open spec fn no_period(from: nat, to: nat) -> Seq<char> {
    "`from` ("@ + iso_day(from) + ") is after `to` ("@ + iso_day(to) + ")"@
}

/// The error for a text that is no date.
pub(crate) fn not_a_date(field: &str, raw: &str) -> (r: ToolError)
    ensures
        r matches ToolError::BadArgument(message) && message@ == no_date(field@, raw@),
{
    let mut message = String::new();
    message.append("`");
    message.append(field);
    message.append("` must be an ISO 8601 date like 2026-08-01, got ");
    message.append(quote(raw).as_str());
    assert(message@ =~= no_date(field@, raw@));
    ToolError::BadArgument(message)
}

/// The error for a period that ends before it begins.
pub(crate) fn not_a_period(from: BudgetDate, to: BudgetDate) -> (r: ToolError)
    ensures
        r matches ToolError::BadArgument(message) && message@ == no_period(from@, to@),
{
    let mut message = String::new();
    message.append("`from` (");
    message.append(from.to_iso().as_str());
    message.append(") is after `to` (");
    message.append(to.to_iso().as_str());
    message.append(")");
    assert(message@ =~= no_period(from@, to@));
    ToolError::BadArgument(message)
}

fn parse_date(raw: &str, field: &str) -> (r: Result<BudgetDate, ToolError>)
    ensures
        match r {
            Ok(date) => iso_day_value(raw@) == Some(date@),
            Err(e) => iso_day_value(raw@) is None && (e matches ToolError::BadArgument(message)
                && message@ == no_date(field@, raw@)),
        },
{
    match BudgetDate::parse_iso(raw) {
        Some(date) => Ok(date),
        None => Err(not_a_date(field, raw)),
    }
}

/// The period that is asked for, or what is wrong with it.
pub open spec fn period_asked(from: Seq<char>, to: Seq<char>) -> Result<(nat, nat), Seq<char>> {
    match iso_day_value(from) {
        None => Err(no_date("from"@, from)),
        Some(f) => match iso_day_value(to) {
            None => Err(no_date("to"@, to)),
            Some(t) => if f > t {
                Err(no_period(f, t))
            } else {
                Ok((f, t))
            },
        },
    }
}

/// Whether every sum fits an `i64`.
pub open spec fn totals_fit(categories: Seq<CategoryTotal>) -> bool {
    &&& sums_fit(totals_of(categories, false))
    &&& sums_fit(totals_of(categories, true))
    &&& fits(total(totals_of(categories, true)) + total(totals_of(categories, false)))
}

/// The output is the one for these categories in this period.
pub open spec fn sums_up(
    categories: Seq<CategoryTotal>,
    from: nat,
    to: nat,
    out: Output,
) -> bool {
    &&& totals_fit(categories)
    &&& out.from@ == from
    &&& out.to@ == to
    &&& out.categories@ == categories
    &&& out.total_spending@ == total(totals_of(categories, false))
    &&& out.total_income@ == total(totals_of(categories, true))
    &&& out.net@ == total(totals_of(categories, true)) + total(totals_of(categories, false))
    &&& out.excludes@ == EXCLUDES@
}

/// Adds the categories up. `None` where a sum leaves the range of an `i64`.
pub fn summarise(categories: Vec<CategoryTotal>, from: BudgetDate, to: BudgetDate) -> (r: Option<
    Output,
>)
    ensures
        match r {
            Some(out) => sums_up(categories@, from@, to@, out),
            None => !totals_fit(categories@),
        },
{
    match checked_split_totals(categories.as_slice()) {
        Some((total_spending, total_income)) => match total_income.checked_add(total_spending) {
            Some(net) => Some(
                Output {
                    from,
                    to,
                    categories,
                    total_spending,
                    total_income,
                    net,
                    excludes: EXCLUDES.to_owned(),
                },
            ),
            None => None,
        },
        None => None,
    }
}

/// The result is the one for what the query found.
pub open spec fn answers(
    found: Result<Vec<CategoryTotal>, QueryError>,
    from: nat,
    to: nat,
    r: Result<Output, ToolError>,
) -> bool {
    match found {
        Err(cause) => r matches Err(e) && passes_on(e, cause),
        Ok(categories) => match r {
            Ok(out) => sums_up(categories@, from, to, out),
            Err(e) => !totals_fit(categories@) && out_of_range(e),
        },
    }
}

/// The result is the one for a period.
pub open spec fn covers(
    conn: &Connection,
    from: nat,
    to: nat,
    r: Result<Output, ToolError>,
) -> bool {
    exists|found: Result<Vec<CategoryTotal>, QueryError>| #[trigger]
        totals_found(conn, from, to, Scope::spending(), found) && answers(found, from, to, r)
}

impl SpendingByCategory {
    pub fn name() -> (r: &'static str)
        ensures
            r@ == NAME@,
    {
        NAME
    }

    pub fn description() -> (r: &'static str)
        ensures
            r@ == DESCRIPTION@,
    {
        DESCRIPTION
    }

    /// What the tool answers from the local copy.
    pub fn invoke(conn: &Connection, param: &Input) -> (r: Result<Output, ToolError>)
        ensures
            match period_asked(param.from@, param.to@) {
                Err(why) => r matches Err(ToolError::BadArgument(message)) && message@ == why,
                Ok((from, to)) => covers(conn, from, to, r),
            },
    {
        let from = match parse_date(param.from.as_str(), "from") {
            Ok(date) => date,
            Err(e) => {
                return Err(e);
            },
        };
        let to = match parse_date(param.to.as_str(), "to") {
            Ok(date) => date,
            Err(e) => {
                return Err(e);
            },
        };
        if from.as_int() > to.as_int() {
            return Err(not_a_period(from, to));
        }
        assert(period_asked(param.from@, param.to@) == Ok::<(nat, nat), Seq<char>>((from@, to@)));
        let found = spending_by_category(conn, from, to, TxScope::spending());
        let ghost asked = found;
        assert(totals_found(conn, from@, to@, Scope::spending(), asked));
        let r = match found {
            Err(cause) => Err(failed(cause)),
            Ok(categories) => match summarise(categories, from, to) {
                Some(out) => Ok(out),
                None => Err(too_large()),
            },
        };
        assert(covers(conn, from@, to@, r));
        r
    }
}

// ----------------------------------------------------------------- laws -----
/// The categories always sum to the totals: none is dropped, none is counted
/// twice, and income and spending together are the net.
pub proof fn the_categories_sum_to_the_net(
    categories: Seq<CategoryTotal>,
    from: nat,
    to: nat,
    out: Output,
)
    requires
        sums_up(categories, from, to, out),
    ensures
        out.net@ == out.total_income@ + out.total_spending@,
        out.net@ == total(out.categories@.map_values(|c: CategoryTotal| c.total)),
{
    spending_and_income_make_the_whole(categories);
}

/// The amounts of all categories that are for income, or of all that are not,
/// together.
pub open spec fn sum_of_kind(categories: Seq<CategoryTotal>, is_income: bool) -> int
    decreases categories.len(),
{
    if categories.len() == 0 {
        0
    } else {
        sum_of_kind(categories.drop_last(), is_income) + (if categories.last().is_income
            == is_income {
            categories.last().total@
        } else {
            0
        })
    }
}

/// Spending is what the categories come to that are not for income, and income
/// what the others come to, whichever sign the amounts have. Nothing is left out
/// of the list.
pub proof fn spending_goes_by_the_kind_of_category(
    categories: Seq<CategoryTotal>,
    from: nat,
    to: nat,
    out: Output,
)
    requires
        sums_up(categories, from, to, out),
    ensures
        out.categories@ == categories,
        out.from@ == from,
        out.to@ == to,
        out.total_spending@ == sum_of_kind(categories, false),
        out.total_income@ == sum_of_kind(categories, true),
        out.net@ == sum_of_kind(categories, true) + sum_of_kind(categories, false),
{
    kinds_sum_up(categories, false);
    kinds_sum_up(categories, true);
}

proof fn kinds_sum_up(categories: Seq<CategoryTotal>, is_income: bool)
    ensures
        total(totals_of(categories, is_income)) == sum_of_kind(categories, is_income),
    decreases categories.len(),
{
    reveal(Seq::filter);
    if categories.len() > 0 {
        let before = categories.drop_last();
        let last = categories.last();
        kinds_sum_up(before, is_income);
        let kept = totals_of(before, is_income);
        if last.is_income == is_income {
            assert(totals_of(categories, is_income) =~= kept.push(last.total));
            assert(kept.push(last.total).drop_last() =~= kept);
        } else {
            assert(totals_of(categories, is_income) =~= kept);
        }
    }
}

/// What a period comes to is what the database answers to the question for the
/// totals of money that moves in or out, over the days of the period.
pub proof fn a_period_is_asked_for_in_full(
    conn: &Connection,
    from: nat,
    to: nat,
    out: Output,
)
    requires
        covers(conn, from, to, Ok(out)),
    ensures
        out.from@ == from,
        out.to@ == to,
        exists|days: Seq<Cell>, rows: Seq<Seq<Cell>>| #[trigger]
            answered(
                conn,
                spending_select(
                    (Scope { transfers: false, offbudget: false, closed_accounts: false }),
                ).text(),
                days,
                rows,
            ) && days == seq![Cell::Integer(from as int), Cell::Integer(to as int)] && decoded(rows, |row: Seq<Cell>| category_sum(row)) == Ok::<Seq<CategorySum>, nat>(
                views(out.categories@),
            ),
{
    the_totals_are_asked_for(Scope::spending());
}

/// A period of two days that are dates is asked for as it is, and one that ends
/// before it starts is refused.
pub proof fn a_period_runs_forward(from: BudgetDate, to: BudgetDate)
    requires
        from.valid(),
        to.valid(),
        from@ <= LAST_DAY,
        to@ <= LAST_DAY,
    ensures
        from@ <= to@ ==> period_asked(iso_day(from@), iso_day(to@)) == Ok::<
            (nat, nat),
            Seq<char>,
        >((from@, to@)),
        from@ > to@ ==> period_asked(iso_day(from@), iso_day(to@)) is Err,
{
    dates_round_trip(from);
    dates_round_trip(to);
}

/// A period with an end that is no date is refused.
pub proof fn a_period_needs_two_dates(from: Seq<char>, to: Seq<char>)
    requires
        iso_day_value(from) is None || iso_day_value(to) is None,
    ensures
        period_asked(from, to) is Err,
{
}

/// What is asked for is answered: the totals of the period from the first day to
/// the last, over money that moves in or out of the accounts on the budget,
/// split into spending and income by the kind of each category.
pub proof fn spending_is_of_the_period_asked_for(
    conn: &Connection,
    param: &Input,
    from: nat,
    to: nat,
    out: Output,
)
    requires
        call_ensures(SpendingByCategory::invoke, (conn, param), Ok(out)),
        iso_day_value(param.from@) == Some(from),
        iso_day_value(param.to@) == Some(to),
    ensures
        from <= to,
        exists|days: Seq<Cell>, rows: Seq<Seq<Cell>>| #[trigger]
            answered(
                conn,
                spending_select(
                    (Scope { transfers: false, offbudget: false, closed_accounts: false }),
                ).text(),
                days,
                rows,
            ) && days == seq![Cell::Integer(from as int), Cell::Integer(to as int)] && decoded(
                rows,
                |row: Seq<Cell>| category_sum(row),
            ) == Ok::<Seq<CategorySum>, nat>(views(out.categories@)),
        out.total_spending@ == sum_of_kind(out.categories@, false),
        out.total_income@ == sum_of_kind(out.categories@, true),
        out.net@ == out.total_income@ + out.total_spending@,
{
    a_period_is_asked_for_in_full(conn, from, to, out);
    let found = choose|found: Result<Vec<CategoryTotal>, QueryError>| #[trigger]
        totals_found(conn, from, to, Scope::spending(), found) && answers(
            found,
            from,
            to,
            Ok(out),
        );
    spending_goes_by_the_kind_of_category(found->Ok_0@, from, to, out);
}

/// A day that is no date is refused, and so is a period that ends before it
/// starts.
pub proof fn a_bad_period_is_refused(
    conn: &Connection,
    param: &Input,
    r: Result<Output, ToolError>,
)
    requires
        call_ensures(SpendingByCategory::invoke, (conn, param), r),
        match (iso_day_value(param.from@), iso_day_value(param.to@)) {
            (Some(from), Some(to)) => from > to,
            _ => true,
        },
    ensures
        r matches Err(ToolError::BadArgument(_)),
{
}

/// Totals that stay small are never refused.
pub proof fn small_totals_are_never_refused(
    categories: Vec<CategoryTotal>,
    from: nat,
    to: nat,
    r: Result<Output, ToolError>,
)
    requires
        answers(Ok(categories), from, to, r),
        sizes(categories@.map_values(|c: CategoryTotal| c.total)) <= i64::MAX,
    ensures
        r matches Ok(out) && out.categories@ == categories@,
{
    both_kinds_are_small(categories@);
    small_sums_are_never_refused(totals_of(categories@, false));
    small_sums_are_never_refused(totals_of(categories@, true));
}

proof fn both_kinds_are_small(categories: Seq<CategoryTotal>)
    ensures
        sizes(totals_of(categories, false)) + sizes(totals_of(categories, true)) == sizes(
            categories.map_values(|c: CategoryTotal| c.total),
        ),
        sizes(totals_of(categories, false)) >= 0 && sizes(totals_of(categories, true)) >= 0,
    decreases categories.len(),
{
    reveal(Seq::filter);
    let amount = |c: CategoryTotal| c.total;
    if categories.len() > 0 {
        let before = categories.drop_last();
        let last = categories.last();
        both_kinds_are_small(before);
        assert(categories.map_values(amount) =~= before.map_values(amount).push(last.total));
        assert(categories.map_values(amount).drop_last() =~= before.map_values(amount));
        let kept = totals_of(before, last.is_income);
        assert(totals_of(categories, last.is_income) =~= kept.push(last.total));
        assert(kept.push(last.total).drop_last() =~= kept);
        assert(totals_of(categories, !last.is_income) =~= totals_of(before, !last.is_income));
    }
}

/// What is said of a bad day or a bad period names what was given.
pub proof fn refusals_name_what_was_given(field: Seq<char>, raw: Seq<char>, from: nat, to: nat)
    ensures
        contains_text(no_date(field, raw), field),
        contains_text(no_date(field, raw), quoted(raw)),
        contains_text(no_period(from, to), iso_day(from)),
        contains_text(no_period(from, to), iso_day(to)),
{
    let none = Seq::<char>::empty();
    let (a, b) = (no_date(field, raw), no_period(from, to));
    let between = "` must be an ISO 8601 date like 2026-08-01, got "@;
    assert(a =~= "`"@ + field + (between + quoted(raw)));
    a_part_is_contained("`"@, field, between + quoted(raw));
    assert(a =~= "`"@ + field + between + quoted(raw) + none);
    a_part_is_contained("`"@ + field + between, quoted(raw), none);
    let (start, after, end) = ("`from` ("@, ") is after `to` ("@, ")"@);
    assert(b =~= start + iso_day(from) + (after + iso_day(to) + end));
    a_part_is_contained(start, iso_day(from), after + iso_day(to) + end);
    a_part_is_contained(start + iso_day(from) + after, iso_day(to), end);
}

} // verus!
