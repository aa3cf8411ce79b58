//! `get_monthly_budget`
use rusqlite::Connection;
use vstd::prelude::*;

use crate::domain::{
    iso_month_value, sizes, small_sums_are_never_refused, sums_fit, total, BudgetMonth, Money,
};
use crate::error::ToolError;
use crate::mcp::tools::{failed, out_of_range, passes_on, too_large};
use crate::queries::budget::{
    budget_found, monthly_budget, CategoryBudget, IncomeTotal, MonthlyBudget,
};
use crate::queries::scope::{Scope, TxScope};
use crate::store::sql::{text_if_any, QueryError};
use crate::text::{quote, quoted, trim, trimmed};

verus! {

pub const NAME: &'static str = "get_monthly_budget";

pub const DESCRIPTION: &'static str = "For one month, what was budgeted per category, what was spent, and what remains. Amounts are in dollars; spending is negative. This is an envelope budget, so a category's balance carries any surplus forward from previous months and is therefore not just budgeted plus spent. Overspending does not carry forward. Income categories are reported separately, as received. Spending excludes transfers between the user's own on-budget accounts and activity inside off-budget accounts such as retirement and brokerage.";

pub const EXCLUDES: &'static str = "Spending excludes transfers between the user's own on-budget accounts, activity inside off-budget accounts, closed accounts, and opening balances. Money moved from an on-budget account into an off-budget one IS counted, because it leaves the budget.";

pub const TRACKING_WARNING: &'static str = "This budget file contains tracking-budget data, which this server does not read. The figures below come from the envelope budget only and may be incomplete.";

pub struct GetMonthlyBudget;

#[derive(Debug)]
pub struct Input {
    /// The budget month, ISO form. Example: 2026-08
    pub month: String,
}

#[derive(Debug)]
pub struct Output {
    pub month: BudgetMonth,
    /// Expense categories, grouped as they appear in the budget.
    pub categories: Vec<CategoryBudget>,
    /// Income received in the month. Income categories are not budgeted.
    pub income: Vec<IncomeTotal>,
    pub total_budgeted: Money,
    pub total_spent: Money,
    /// Surpluses rolled forward from earlier months are in it, so it is not
    /// simply `total_budgeted + total_spent`.
    pub total_balance: Money,
    pub total_income: Money,
    /// Present only when something makes these figures unreliable.
    pub warning: Option<String>,
    pub excludes: String,
}

/// What is said of a text that is no month.
pub open spec fn no_month(raw: Seq<char>) -> Seq<char> {
    "`month` must be an ISO month like 2026-08, got "@ + quoted(raw)
}

/// What was budgeted, category by category.
pub open spec fn budgeted(rows: Seq<CategoryBudget>) -> Seq<Money> {
    rows.map_values(|row: CategoryBudget| row.budgeted)
}

/// What was spent, category by category.
pub open spec fn spent(rows: Seq<CategoryBudget>) -> Seq<Money> {
    rows.map_values(|row: CategoryBudget| row.spent)
}

/// What remains, category by category.
pub open spec fn left(rows: Seq<CategoryBudget>) -> Seq<Money> {
    rows.map_values(|row: CategoryBudget| row.balance)
}

/// What came in, category by category.
pub open spec fn received(rows: Seq<IncomeTotal>) -> Seq<Money> {
    rows.map_values(|row: IncomeTotal| row.received)
}

/// Whether every sum fits an `i64`.
pub open spec fn budget_fits(found: MonthlyBudget) -> bool {
    &&& sums_fit(budgeted(found.categories@))
    &&& sums_fit(spent(found.categories@))
    &&& sums_fit(left(found.categories@))
    &&& sums_fit(received(found.income@))
}

/// The output is the one for this budget of this month.
pub open spec fn sums_up(found: MonthlyBudget, month: nat, out: Output) -> bool {
    &&& budget_fits(found)
    &&& out.month@ == month
    &&& out.categories@ == found.categories@
    &&& out.income@ == found.income@
    &&& out.total_budgeted@ == total(budgeted(found.categories@))
    &&& out.total_spent@ == total(spent(found.categories@))
    &&& out.total_balance@ == total(left(found.categories@))
    &&& out.total_income@ == total(received(found.income@))
    &&& text_if_any(out.warning) == (if found.uses_tracking_budget {
        Some(TRACKING_WARNING@)
    } else {
        None
    })
    &&& out.excludes@ == EXCLUDES@
}

/// Adds a budget up. `None` where a sum leaves the range of an `i64`.
pub fn summarise(found: MonthlyBudget, month: BudgetMonth) -> (r: Option<Output>)
    ensures
        match r {
            Some(out) => sums_up(found, month@, out),
            None => !budget_fits(found),
        },
{
    let mut given: Vec<Money> = Vec::new();
    let mut gone: Vec<Money> = Vec::new();
    let mut kept: Vec<Money> = Vec::new();
    let ghost rows = found.categories@;
    let mut i: usize = 0;
    while i < found.categories.len()
        invariant
            i <= found.categories@.len(),
            rows == found.categories@,
            given@ == budgeted(rows).take(i as int),
            gone@ == spent(rows).take(i as int),
            kept@ == left(rows).take(i as int),
        decreases found.categories@.len() - i,
    {
        let row = &found.categories[i];
        given.push(row.budgeted);
        gone.push(row.spent);
        kept.push(row.balance);
        i += 1;
        assert(given@ =~= budgeted(rows).take(i as int));
        assert(gone@ =~= spent(rows).take(i as int));
        assert(kept@ =~= left(rows).take(i as int));
    }
    assert(given@ =~= budgeted(rows));
    assert(gone@ =~= spent(rows));
    assert(kept@ =~= left(rows));
    let mut came: Vec<Money> = Vec::new();
    let ghost incomes = found.income@;
    let mut j: usize = 0;
    while j < found.income.len()
        invariant
            j <= found.income@.len(),
            incomes == found.income@,
            came@ == received(incomes).take(j as int),
        decreases found.income@.len() - j,
    {
        came.push(found.income[j].received);
        j += 1;
        assert(came@ =~= received(incomes).take(j as int));
    }
    assert(came@ =~= received(incomes));
    let total_budgeted = match Money::checked_sum(given.as_slice()) {
        Some(sum) => sum,
        None => {
            return None;
        },
    };
    let total_spent = match Money::checked_sum(gone.as_slice()) {
        Some(sum) => sum,
        None => {
            return None;
        },
    };
    let total_balance = match Money::checked_sum(kept.as_slice()) {
        Some(sum) => sum,
        None => {
            return None;
        },
    };
    let total_income = match Money::checked_sum(came.as_slice()) {
        Some(sum) => sum,
        None => {
            return None;
        },
    };
    let warning = if found.uses_tracking_budget {
        Some(TRACKING_WARNING.to_owned())
    } else {
        None
    };
    Some(
        Output {
            month,
            categories: found.categories,
            income: found.income,
            total_budgeted,
            total_spent,
            total_balance,
            total_income,
            warning,
            excludes: EXCLUDES.to_owned(),
        },
    )
}

/// The result is the one for what the query found.
pub open spec fn answers(
    found: Result<MonthlyBudget, QueryError>,
    month: nat,
    r: Result<Output, ToolError>,
) -> bool {
    match found {
        Err(cause) => r matches Err(e) && passes_on(e, cause),
        Ok(budget) => match r {
            Ok(out) => sums_up(budget, month, out),
            Err(e) => !budget_fits(budget) && out_of_range(e),
        },
    }
}

impl GetMonthlyBudget {
    pub fn name() -> (r: &'static str)
        ensures
            r@ == NAME@,
    {
        NAME
    }

    pub fn description() -> (r: &'static str)
        ensures
            r@ == DESCRIPTION@,
    {
        DESCRIPTION
    }

    /// What the tool answers from the local copy.
    pub fn invoke(conn: &Connection, param: &Input) -> (r: Result<Output, ToolError>)
        ensures
            match iso_month_value(trimmed(param.month@)) {
                None => r matches Err(ToolError::BadArgument(message)) && message@ == no_month(
                    param.month@,
                ),
                Some(month) => exists|found: Result<MonthlyBudget, QueryError>| #[trigger]
                    budget_found(conn, month, Scope::spending(), found) && answers(found, month, r),
            },
    {
        let month = match BudgetMonth::parse_iso(trim(param.month.as_str()).as_str()) {
            Some(month) => month,
            None => {
                let mut message = String::new();
                message.append("`month` must be an ISO month like 2026-08, got ");
                message.append(quote(param.month.as_str()).as_str());
                assert(message@ =~= no_month(param.month@));
                return Err(ToolError::BadArgument(message));
            },
        };
        let found = monthly_budget(conn, month, TxScope::spending());
        let ghost asked = found;
        assert(budget_found(conn, month@, Scope::spending(), asked));
        match found {
            Err(cause) => Err(failed(cause)),
            Ok(budget) => match summarise(budget, month) {
                Some(out) => Ok(out),
                None => Err(too_large()),
            },
        }
    }
}

/// What some rows say, together.
pub open spec fn sum_over<T>(rows: Seq<T>, amount: spec_fn(T) -> Money) -> int
    decreases rows.len(),
{
    if rows.len() == 0 {
        0
    } else {
        sum_over(rows.drop_last(), amount) + amount(rows.last())@
    }
}

/// Every category of a budget counts in each of its totals, and there is a
/// warning exactly where the figures cannot be relied on.
pub proof fn every_category_counts_in_the_totals(found: MonthlyBudget, month: nat, out: Output)
    requires
        sums_up(found, month, out),
    ensures
        out.month@ == month,
        out.categories@ == found.categories@,
        out.income@ == found.income@,
        out.total_budgeted@ == sum_over(found.categories@, |row: CategoryBudget| row.budgeted),
        out.total_spent@ == sum_over(found.categories@, |row: CategoryBudget| row.spent),
        out.total_balance@ == sum_over(found.categories@, |row: CategoryBudget| row.balance),
        out.total_income@ == sum_over(found.income@, |row: IncomeTotal| row.received),
        out.warning is Some <==> found.uses_tracking_budget,
{
    let (rows, incomes) = (found.categories@, found.income@);
    totals_sum_over(rows, |row: CategoryBudget| row.budgeted);
    totals_sum_over(rows, |row: CategoryBudget| row.spent);
    totals_sum_over(rows, |row: CategoryBudget| row.balance);
    totals_sum_over(incomes, |row: IncomeTotal| row.received);
    assert(budgeted(rows) =~= rows.map_values(|row: CategoryBudget| row.budgeted));
    assert(spent(rows) =~= rows.map_values(|row: CategoryBudget| row.spent));
    assert(left(rows) =~= rows.map_values(|row: CategoryBudget| row.balance));
    assert(received(incomes) =~= incomes.map_values(|row: IncomeTotal| row.received));
}

proof fn totals_sum_over<T>(rows: Seq<T>, amount: spec_fn(T) -> Money)
    ensures
        total(rows.map_values(amount)) == sum_over(rows, amount),
    decreases rows.len(),
{
    if rows.len() > 0 {
        totals_sum_over(rows.drop_last(), amount);
        let all = rows.map_values(amount);
        assert(all.drop_last() =~= rows.drop_last().map_values(amount));
        assert(all.last() == amount(rows.last()));
    }
}

/// A budget is of the month that was asked for, over money that moves in or out
/// of the accounts on the budget, and its totals are over all its categories.
pub proof fn a_budget_is_of_the_month_asked_for(
    conn: &Connection,
    param: &Input,
    month: nat,
    out: Output,
)
    requires
        call_ensures(GetMonthlyBudget::invoke, (conn, param), Ok(out)),
        iso_month_value(trimmed(param.month@)) == Some(month),
    ensures
        exists|scope: Scope, found: MonthlyBudget| #[trigger]
            budget_found(conn, month, scope, Ok(found)) && scope == (Scope {
                transfers: false,
                offbudget: false,
                closed_accounts: false,
            }) && out.categories@ == found.categories@ && out.income@ == found.income@ && (
            out.warning is Some <==> found.uses_tracking_budget),
        out.month@ == month,
        out.total_budgeted@ == sum_over(out.categories@, |row: CategoryBudget| row.budgeted),
        out.total_spent@ == sum_over(out.categories@, |row: CategoryBudget| row.spent),
        out.total_balance@ == sum_over(out.categories@, |row: CategoryBudget| row.balance),
        out.total_income@ == sum_over(out.income@, |row: IncomeTotal| row.received),
{
    let found = choose|found: Result<MonthlyBudget, QueryError>| #[trigger]
        budget_found(conn, month, Scope::spending(), found) && answers(found, month, Ok(out));
    let budget = found->Ok_0;
    assert(budget_found(conn, month, Scope::spending(), Ok(budget)));
    every_category_counts_in_the_totals(budget, month, out);
}

/// A text that is no month is refused.
pub proof fn a_budget_needs_a_month(
    conn: &Connection,
    param: &Input,
    r: Result<Output, ToolError>,
)
    requires
        call_ensures(GetMonthlyBudget::invoke, (conn, param), r),
        iso_month_value(trimmed(param.month@)) is None,
    ensures
        r matches Err(ToolError::BadArgument(_)),
{
}

/// Totals that stay small are never refused.
pub proof fn small_totals_are_never_refused(
    found: MonthlyBudget,
    month: nat,
    r: Result<Output, ToolError>,
)
    requires
        answers(Ok(found), month, r),
        sizes(budgeted(found.categories@)) <= i64::MAX,
        sizes(spent(found.categories@)) <= i64::MAX,
        sizes(left(found.categories@)) <= i64::MAX,
        sizes(received(found.income@)) <= i64::MAX,
    ensures
        r is Ok,
{
    small_sums_are_never_refused(budgeted(found.categories@));
    small_sums_are_never_refused(spent(found.categories@));
    small_sums_are_never_refused(left(found.categories@));
    small_sums_are_never_refused(received(found.income@));
}

} // verus!
