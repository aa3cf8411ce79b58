//! `list_accounts`
use rusqlite::Connection;
use vstd::prelude::*;

use crate::domain::{fits, sizes, small_sums_are_never_refused, sums_fit, total, Money};
use crate::error::ToolError;
use crate::mcp::tools::{failed, out_of_range, passes_on, too_large};
use crate::queries::accounts::{account, accounts_found, list, Account, AccountSummary};
use crate::queries::statements::{accounts_are_listed_with_all_their_money, accounts_select};
use crate::store::sql::{answered, decoded, views, Cell, QueryError};

verus! {

pub const NAME: &'static str = "list_accounts";

pub const DESCRIPTION: &'static str = "Lists the user's accounts with their current balances in dollars. A negative balance means money owed, as on a credit card. On-budget accounts fund the envelope budget; off-budget accounts (retirement, brokerage) are tracked for net worth but are never budgeted and are excluded from spending figures. Balances include every transaction in the account, transfers and opening balances included.";

pub struct ListAccounts;

#[derive(Debug)]
pub struct Input {
    /// Whether to list accounts the user has closed.
    pub include_closed: bool,
}

#[derive(Debug)]
pub struct Output {
    /// On-budget accounts first, then off-budget, each in the user's own order.
    pub accounts: Vec<AccountSummary>,
    /// Total across on-budget accounts: the money the budget actually governs.
    pub on_budget_total: Money,
    /// Total across off-budget accounts, such as retirement and brokerage.
    pub off_budget_total: Money,
    /// Everything added together.
    pub net_worth: Money,
}

/// The balances of the accounts on the budget, or of those off it.
pub open spec fn balances(accounts: Seq<AccountSummary>, on_budget: bool) -> Seq<Money> {
    accounts.filter(|a: AccountSummary| a.on_budget == on_budget).map_values(
        |a: AccountSummary| a.balance,
    )
}

/// Whether every sum fits an `i64`.
pub open spec fn balances_fit(accounts: Seq<AccountSummary>) -> bool {
    &&& sums_fit(balances(accounts, true))
    &&& sums_fit(balances(accounts, false))
    &&& fits(total(balances(accounts, true)) + total(balances(accounts, false)))
}

/// The output is the one for these accounts.
pub open spec fn sums_up(accounts: Seq<AccountSummary>, out: Output) -> bool {
    &&& balances_fit(accounts)
    &&& out.accounts@ == accounts
    &&& out.on_budget_total@ == total(balances(accounts, true))
    &&& out.off_budget_total@ == total(balances(accounts, false))
    &&& out.net_worth@ == total(balances(accounts, true)) + total(balances(accounts, false))
}

fn collect_balances(accounts: &Vec<AccountSummary>, on_budget: bool) -> (r: Vec<Money>)
    ensures
        r@ == balances(accounts@, on_budget),
{
    let mut out: Vec<Money> = Vec::new();
    let mut i: usize = 0;
    proof {
        reveal(Seq::filter);
        assert(accounts@.take(0) =~= Seq::empty());
        assert(out@ =~= balances(accounts@.take(0), on_budget));
    }
    while i < accounts.len()
        invariant
            i <= accounts@.len(),
            out@ == balances(accounts@.take(i as int), on_budget),
        decreases accounts@.len() - i,
    {
        proof {
            reveal(Seq::filter);
            assert(accounts@.take(i + 1).drop_last() =~= accounts@.take(i as int));
            assert(accounts@.take(i + 1).last() == accounts@[i as int]);
        }
        if accounts[i].on_budget == on_budget {
            out.push(accounts[i].balance);
        }
        i += 1;
        assert(out@ =~= balances(accounts@.take(i as int), on_budget));
    }
    assert(accounts@.take(i as int) =~= accounts@);
    out
}

/// Adds the accounts up. `None` where a sum leaves the range of an `i64`.
pub fn summarise(accounts: Vec<AccountSummary>) -> (r: Option<Output>)
    ensures
        match r {
            Some(out) => sums_up(accounts@, out),
            None => !balances_fit(accounts@),
        },
{
    let on = collect_balances(&accounts, true);
    let off = collect_balances(&accounts, false);
    match (Money::checked_sum(on.as_slice()), Money::checked_sum(off.as_slice())) {
        (Some(on_budget_total), Some(off_budget_total)) => match on_budget_total.checked_add(
            off_budget_total,
        ) {
            Some(net_worth) => Some(
                Output { accounts, on_budget_total, off_budget_total, net_worth },
            ),
            None => None,
        },
        _ => None,
    }
}

/// The result is the one for what the query found.
pub open spec fn answers(
    found: Result<Vec<AccountSummary>, QueryError>,
    r: Result<Output, ToolError>,
) -> bool {
    match found {
        Err(cause) => r matches Err(e) && passes_on(e, cause),
        Ok(accounts) => match r {
            Ok(out) => sums_up(accounts@, out),
            Err(e) => !balances_fit(accounts@) && out_of_range(e),
        },
    }
}

impl ListAccounts {
    pub fn name() -> (r: &'static str)
        ensures
            r@ == NAME@,
    {
        NAME
    }

    pub fn description() -> (r: &'static str)
        ensures
            r@ == DESCRIPTION@,
    {
        DESCRIPTION
    }

    /// What the tool answers from the local copy.
    pub fn invoke(conn: &Connection, param: &Input) -> (r: Result<Output, ToolError>)
        ensures
            exists|found: Result<Vec<AccountSummary>, QueryError>| #[trigger]
                accounts_found(conn, param.include_closed, found) && answers(found, r),
    {
        let found = list(conn, param.include_closed);
        let ghost asked = found;
        assert(accounts_found(conn, param.include_closed, asked));
        match found {
            Err(cause) => Err(failed(cause)),
            Ok(accounts) => match summarise(accounts) {
                Some(out) => Ok(out),
                None => Err(too_large()),
            },
        }
    }
}

// ----------------------------------------------------------------- laws -----
/// The net worth counts every account once, whatever kind it is of.
pub proof fn net_worth_counts_every_account(accounts: Seq<AccountSummary>)
    ensures
        total(balances(accounts, true)) + total(balances(accounts, false)) == total(
            accounts.map_values(|a: AccountSummary| a.balance),
        ),
    decreases accounts.len(),
{
    reveal(Seq::filter);
    let amount = |a: AccountSummary| a.balance;
    if accounts.len() > 0 {
        let before = accounts.drop_last();
        let last = accounts.last();
        net_worth_counts_every_account(before);
        assert(accounts.map_values(amount) =~= before.map_values(amount).push(last.balance));
        assert(accounts.map_values(amount).drop_last() =~= before.map_values(amount));
        let kept = balances(before, last.on_budget);
        assert(balances(accounts, last.on_budget) =~= kept.push(last.balance));
        assert(kept.push(last.balance).drop_last() =~= kept);
        assert(balances(accounts, !last.on_budget) =~= balances(before, !last.on_budget));
    }
}

/// The balances of all accounts on the budget, or of all off it, together.
pub open spec fn sum_of_side(accounts: Seq<AccountSummary>, on_budget: bool) -> int
    decreases accounts.len(),
{
    if accounts.len() == 0 {
        0
    } else {
        sum_of_side(accounts.drop_last(), on_budget) + (if accounts.last().on_budget == on_budget {
            accounts.last().balance@
        } else {
            0
        })
    }
}

/// The totals are those of the two sides of the budget, and together the net
/// worth; debts count as they stand. No account is left out of the list.
pub proof fn each_account_counts_on_its_side(accounts: Seq<AccountSummary>, out: Output)
    requires
        sums_up(accounts, out),
    ensures
        out.accounts@ == accounts,
        out.on_budget_total@ == sum_of_side(accounts, true),
        out.off_budget_total@ == sum_of_side(accounts, false),
        out.net_worth@ == out.on_budget_total@ + out.off_budget_total@,
{
    sides_sum_up(accounts, true);
    sides_sum_up(accounts, false);
}

proof fn sides_sum_up(accounts: Seq<AccountSummary>, on_budget: bool)
    ensures
        total(balances(accounts, on_budget)) == sum_of_side(accounts, on_budget),
    decreases accounts.len(),
{
    reveal(Seq::filter);
    if accounts.len() > 0 {
        let before = accounts.drop_last();
        let last = accounts.last();
        sides_sum_up(before, on_budget);
        let kept = balances(before, on_budget);
        if last.on_budget == on_budget {
            assert(balances(accounts, on_budget) =~= kept.push(last.balance));
            assert(kept.push(last.balance).drop_last() =~= kept);
        } else {
            assert(balances(accounts, on_budget) =~= kept);
        }
    }
}

/// What is listed is every account that the database answers with, closed ones
/// only where they are asked for.
pub proof fn every_account_found_is_listed(conn: &Connection, param: &Input, out: Output)
    requires
        call_ensures(ListAccounts::invoke, (conn, param), Ok(out)),
    ensures
        exists|closed: Seq<Cell>, rows: Seq<Seq<Cell>>| #[trigger]
            answered(conn, accounts_select().text(), closed, rows) && closed == seq![
                Cell::Integer(
                    if param.include_closed {
                        1
                    } else {
                        0
                    },
                ),
            ] && decoded(rows, |row: Seq<Cell>| account(row)) == Ok::<Seq<Account>, nat>(
                views(out.accounts@),
            ),
        out.on_budget_total@ == sum_of_side(out.accounts@, true),
        out.off_budget_total@ == sum_of_side(out.accounts@, false),
        out.net_worth@ == out.on_budget_total@ + out.off_budget_total@,
{
    accounts_are_listed_with_all_their_money(param.include_closed, |column: Seq<char>| Cell::Null);
    let found = choose|found: Result<Vec<AccountSummary>, QueryError>| #[trigger]
        accounts_found(conn, param.include_closed, found) && answers(found, Ok(out));
    each_account_counts_on_its_side(found->Ok_0@, out);
}

/// Balances that stay small are never refused.
pub proof fn small_balances_are_never_refused(
    accounts: Vec<AccountSummary>,
    r: Result<Output, ToolError>,
)
    requires
        answers(Ok(accounts), r),
        sizes(accounts@.map_values(|a: AccountSummary| a.balance)) <= i64::MAX,
    ensures
        r matches Ok(out) && out.accounts@ == accounts@,
{
    both_sides_are_small(accounts@);
    small_sums_are_never_refused(balances(accounts@, false));
    small_sums_are_never_refused(balances(accounts@, true));
}

proof fn both_sides_are_small(accounts: Seq<AccountSummary>)
    ensures
        sizes(balances(accounts, false)) + sizes(balances(accounts, true)) == sizes(
            accounts.map_values(|a: AccountSummary| a.balance),
        ),
        sizes(balances(accounts, false)) >= 0 && sizes(balances(accounts, true)) >= 0,
    decreases accounts.len(),
{
    reveal(Seq::filter);
    let amount = |a: AccountSummary| a.balance;
    if accounts.len() > 0 {
        let before = accounts.drop_last();
        let last = accounts.last();
        both_sides_are_small(before);
        assert(accounts.map_values(amount) =~= before.map_values(amount).push(last.balance));
        assert(accounts.map_values(amount).drop_last() =~= before.map_values(amount));
        let kept = balances(before, last.on_budget);
        assert(balances(accounts, last.on_budget) =~= kept.push(last.balance));
        assert(kept.push(last.balance).drop_last() =~= kept);
        assert(balances(accounts, !last.on_budget) =~= balances(before, !last.on_budget));
    }
}

} // verus!
