//! The monthly budget: what was set aside, what was spent, what remains.
//!
//! Actual runs an envelope budget. A category's balance is not simply
//! `budgeted + spent`: a surplus rolls into the next month, so the balance has
//! to be accumulated forward from the first month the budget has any history.
//! Overspending does *not* roll (it is absorbed into the month's "overspent"
//! figure) unless the category's carryover flag is set.
use rusqlite::Connection;
use vstd::prelude::*;

use crate::domain::{fits, is_month, month_after, BudgetMonth, Money};
use crate::ordering::{
    a_stable_order_exists, positions, precedes, ranks, sorted_positions, sorts, stable_order, Rank,
    SortKey,
};
use crate::queries::scope::{Scope, TxScope, FROM};
use crate::queries::statements::{
    a_budget_goes_by_what_was_set_aside, allotments_select, flows_are_of_every_row_that_counts,
    flows_select, headings_select, tracking_select,
};
use crate::queries::transactions::{count_of, first_number};
use crate::store::sql::{
    agree, agrees, answered, cells, decode_rows, decoded, get_integer, get_small, get_text,
    integer_in, looked_up, lookup, query, refused, small_in, table, text_in, views, Cell,
    QueryError, SqlCell, SqlValue,
};
use crate::text::{same_text, text_less, text_order_is_total};

verus! {

// ---------------------------------------------------------------- types -----
#[derive(Debug, Clone, PartialEq)]
pub struct CategoryBudget {
    pub category: String,
    /// The category group it sits under, e.g. "Regular Expense".
    pub group: String,
    pub budgeted: Money,
    /// Negative for money spent.
    pub spent: Money,
    /// `budgeted + spent`, plus any surplus rolled in from previous months.
    pub balance: Money,
}

/// The contents of a [`CategoryBudget`].
pub struct Envelope {
    pub category: Seq<char>,
    pub group: Seq<char>,
    pub budgeted: int,
    pub spent: int,
    pub balance: int,
}

impl View for CategoryBudget {
    type V = Envelope;

    open spec fn view(&self) -> Envelope {
        Envelope {
            category: self.category@,
            group: self.group@,
            budgeted: self.budgeted@,
            spent: self.spent@,
            balance: self.balance@,
        }
    }
}

#[derive(Debug, Clone, PartialEq)]
pub struct IncomeTotal {
    pub category: String,
    pub received: Money,
}

/// The contents of an [`IncomeTotal`].
pub struct Received {
    pub category: Seq<char>,
    pub received: int,
}

impl View for IncomeTotal {
    type V = Received;

    open spec fn view(&self) -> Received {
        Received { category: self.category@, received: self.received@ }
    }
}

#[derive(Debug, Clone, PartialEq)]
pub struct MonthlyBudget {
    pub categories: Vec<CategoryBudget>,
    pub income: Vec<IncomeTotal>,
    /// True when the file holds tracking-budget rows, which this query does not
    /// understand. Reported rather than silently returning zeros.
    pub uses_tracking_budget: bool,
}

/// A category of the budget.
#[derive(Debug, Clone)]
pub struct Category {
    pub id: String,
    pub name: String,
    pub group: String,
    pub is_income: bool,
}

/// The contents of a [`Category`].
pub struct Heading {
    pub id: Seq<char>,
    pub name: Seq<char>,
    pub group: Seq<char>,
    pub is_income: bool,
}

impl View for Category {
    type V = Heading;

    open spec fn view(&self) -> Heading {
        Heading {
            id: self.id@,
            name: self.name@,
            group: self.group@,
            is_income: self.is_income,
        }
    }
}

/// What a category was given in a month, and whether it carries an overspend
/// into that month.
#[derive(Debug, Clone)]
pub struct Allotment {
    pub category: String,
    pub month: BudgetMonth,
    pub amount: Money,
    pub carryover: bool,
}

/// The contents of an [`Allotment`].
pub struct Allotted {
    pub category: Seq<char>,
    pub month: nat,
    pub amount: int,
    pub carryover: bool,
}

impl View for Allotment {
    type V = Allotted;

    open spec fn view(&self) -> Allotted {
        Allotted {
            category: self.category@,
            month: self.month@,
            amount: self.amount@,
            carryover: self.carryover,
        }
    }
}

/// What went through a category in a month.
#[derive(Debug, Clone)]
pub struct Flow {
    pub category: String,
    pub month: BudgetMonth,
    pub amount: Money,
}

/// The contents of a [`Flow`].
pub struct Flowed {
    pub category: Seq<char>,
    pub month: nat,
    pub amount: int,
}

impl View for Flow {
    type V = Flowed;

    open spec fn view(&self) -> Flowed {
        Flowed { category: self.category@, month: self.month@, amount: self.amount@ }
    }
}

// ---------------------------------------------------------------- lookup -----
/// The allotment of a category for a month. Of several the last one counts.
pub open spec fn allotment(budgets: Seq<Allotted>, id: Seq<char>, month: nat) -> Option<Allotted>
    decreases budgets.len(),
{
    if budgets.len() == 0 {
        None
    } else if budgets.last().category == id && budgets.last().month == month {
        Some(budgets.last())
    } else {
        allotment(budgets.drop_last(), id, month)
    }
}

/// What a category was given in a month.
pub open spec fn budgeted_in(budgets: Seq<Allotted>, id: Seq<char>, month: nat) -> int {
    match allotment(budgets, id, month) {
        Some(entry) => entry.amount,
        None => 0,
    }
}

/// Whether a category carries an overspend into a month.
pub open spec fn carries_into(budgets: Seq<Allotted>, id: Seq<char>, month: nat) -> bool {
    match allotment(budgets, id, month) {
        Some(entry) => entry.carryover,
        None => false,
    }
}

/// What went through a category in a month. Of several figures the last counts.
pub open spec fn spent_in(spending: Seq<Flowed>, id: Seq<char>, month: nat) -> int
    decreases spending.len(),
{
    if spending.len() == 0 {
        0
    } else if spending.last().category == id && spending.last().month == month {
        spending.last().amount
    } else {
        spent_in(spending.drop_last(), id, month)
    }
}

fn find_allotment(budgets: &Vec<Allotment>, id: &str, month: BudgetMonth) -> (r: (Money, bool))
    ensures
        r.0@ == budgeted_in(views(budgets@), id@, month@),
        r.1 == carries_into(views(budgets@), id@, month@),
{
    let mut i: usize = budgets.len();
    let ghost all = views(budgets@);
    assert(all.take(i as int) =~= all);
    while i > 0
        invariant
            i <= budgets@.len(),
            all == views(budgets@),
            allotment(all, id@, month@) == allotment(all.take(i as int), id@, month@),
        decreases i,
    {
        assert(all.take(i as int).drop_last() =~= all.take(i - 1));
        assert(all.take(i as int).last() == budgets@[i - 1]@);
        i -= 1;
        let entry = &budgets[i];
        if entry.month.as_int() == month.as_int() && same_text(entry.category.as_str(), id) {
            return (entry.amount, entry.carryover);
        }
    }
    (Money::zero(), false)
}

fn find_flow(spending: &Vec<Flow>, id: &str, month: BudgetMonth) -> (r: Money)
    ensures
        r@ == spent_in(views(spending@), id@, month@),
{
    let mut i: usize = spending.len();
    let ghost all = views(spending@);
    assert(all.take(i as int) =~= all);
    while i > 0
        invariant
            i <= spending@.len(),
            all == views(spending@),
            spent_in(all, id@, month@) == spent_in(all.take(i as int), id@, month@),
        decreases i,
    {
        assert(all.take(i as int).drop_last() =~= all.take(i - 1));
        assert(all.take(i as int).last() == spending@[i - 1]@);
        i -= 1;
        let entry = &spending[i];
        if entry.month.as_int() == month.as_int() && same_text(entry.category.as_str(), id) {
            return entry.amount;
        }
    }
    Money::zero()
}

// --------------------------------------------------------------- balance -----
/// The month before a month, rolling the year over at January.
pub open spec fn month_before(n: nat) -> nat {
    if n % 100 > 1 {
        (n - 1) as nat
    } else if n > 100 {
        (n - 89) as nat
    } else {
        0
    }
}

/// What a balance brings into the next month: a surplus rolls forward, and so
/// does anything else where the flag says so.
pub open spec fn carried(balance: int, carryover: bool) -> int {
    if balance > 0 || carryover {
        balance
    } else {
        0
    }
}

/// A carried amount with what was budgeted and what was spent. `None` where a
/// sum on the way leaves the range of an `i64`.
pub open spec fn settled(carried: int, budgeted: int, spent: int) -> Option<int> {
    if fits(carried + budgeted) && fits(carried + budgeted + spent) {
        Some(carried + budgeted + spent)
    } else {
        None
    }
}

/// The balance of a category at the end of a month, accumulated from `start`.
/// `None` where a sum on the way leaves the range of an `i64`.
pub open spec fn balance(
    budgets: Seq<Allotted>,
    spending: Seq<Flowed>,
    id: Seq<char>,
    start: nat,
    month: nat,
) -> Option<int>
    decreases month,
{
    let budgeted = budgeted_in(budgets, id, month);
    let spent = spent_in(spending, id, month);
    if month <= start || month == 0 {
        settled(0, budgeted, spent)
    } else {
        match balance(budgets, spending, id, start, month_before(month)) {
            Some(before) => settled(
                carried(before, carries_into(budgets, id, month)),
                budgeted,
                spent,
            ),
            None => None,
        }
    }
}

/// The first month with any history, or the month asked for.
pub open spec fn first_month(budgets: Seq<Allotted>, spending: Seq<Flowed>, month: nat) -> nat
    decreases budgets.len() + spending.len(),
{
    if budgets.len() > 0 {
        let rest = first_month(budgets.drop_last(), spending, month);
        if budgets.last().month < rest {
            budgets.last().month
        } else {
            rest
        }
    } else if spending.len() > 0 {
        let rest = first_month(budgets, spending.drop_last(), month);
        if spending.last().month < rest {
            spending.last().month
        } else {
            rest
        }
    } else {
        month
    }
}

fn find_first_month(budgets: &Vec<Allotment>, spending: &Vec<Flow>, month: BudgetMonth) -> (r:
    BudgetMonth)
    ensures
        r@ == first_month(views(budgets@), views(spending@), month@),
        is_month(r@),
        r@ <= month@,
{
    let mut first = month;
    let asked: u32 = month.as_int();
    let ghost (bs, ss) = (views(budgets@), views(spending@));
    let mut i: usize = 0;
    assert(bs.take(0) =~= Seq::empty());
    assert(ss.take(0) =~= Seq::empty());
    while i < spending.len()
        invariant
            i <= spending@.len(),
            ss == views(spending@),
            asked == month@,
            is_month(first@),
            first@ <= asked,
            first@ == first_month(Seq::empty(), ss.take(i as int), month@),
        decreases spending@.len() - i,
    {
        assert(ss.take(i + 1).drop_last() =~= ss.take(i as int));
        assert(ss.take(i + 1).last() == spending@[i as int]@);
        if spending[i].month.as_int() < first.as_int() {
            first = spending[i].month;
        }
        i += 1;
    }
    assert(ss.take(i as int) =~= ss);
    i = 0;
    while i < budgets.len()
        invariant
            i <= budgets@.len(),
            bs == views(budgets@),
            asked == month@,
            is_month(first@),
            first@ <= asked,
            first@ == first_month(bs.take(i as int), ss, month@),
        decreases budgets@.len() - i,
    {
        assert(bs.take(i + 1).drop_last() =~= bs.take(i as int));
        assert(bs.take(i + 1).last() == budgets@[i as int]@);
        if budgets[i].month.as_int() < first.as_int() {
            first = budgets[i].month;
        }
        i += 1;
    }
    assert(bs.take(i as int) =~= bs);
    first
}

/// Walks from the first month with any history, so that surpluses accumulate.
fn walk(
    budgets: &Vec<Allotment>,
    spending: &Vec<Flow>,
    id: &str,
    start: BudgetMonth,
    month: BudgetMonth,
) -> (r: Option<Money>)
    requires
        start@ <= month@,
    ensures
        match r {
            Some(amount) => balance(views(budgets@), views(spending@), id@, start@, month@) == Some(
                amount@,
            ),
            None => balance(views(budgets@), views(spending@), id@, start@, month@) is None,
        },
{
    let ghost (bs, ss) = (views(budgets@), views(spending@));
    let target: u32 = month.as_int();
    let mut m = start;
    let mut at: u32 = m.as_int();
    let (budgeted, _) = find_allotment(budgets, id, m);
    let mut sum = match Money::zero().checked_add(budgeted) {
        Some(given) => given.checked_add(find_flow(spending, id, m)),
        None => None,
    };
    while at < target
        invariant
            bs == views(budgets@),
            ss == views(spending@),
            target == month@,
            at == m@,
            is_month(at as nat),
            is_month(target as nat),
            start@ <= at <= target,
            is_month(start@),
            match sum {
                Some(amount) => balance(bs, ss, id@, start@, m@) == Some(amount@),
                None => balance(bs, ss, id@, start@, m@) is None,
            },
        decreases target - at,
    {
        let ghost earlier = m@;
        m = m.next();
        at = m.as_int();
        assert(month_before(m@) == earlier);
        let (budgeted, carryover) = find_allotment(budgets, id, m);
        sum = match sum {
            Some(before) => {
                let brought = if before.cents() > 0 || carryover {
                    before
                } else {
                    Money::zero()
                };
                match brought.checked_add(budgeted) {
                    Some(given) => given.checked_add(find_flow(spending, id, m)),
                    None => None,
                }
            },
            None => None,
        };
    }
    sum
}

// ---------------------------------------------------------------- report -----
/// The envelopes of the categories that are not income, as they come. `None`
/// where a balance leaves the range of an `i64`.
pub open spec fn envelopes(
    categories: Seq<Heading>,
    budgets: Seq<Allotted>,
    spending: Seq<Flowed>,
    month: nat,
) -> Option<Seq<Envelope>>
    decreases categories.len(),
{
    if categories.len() == 0 {
        Some(Seq::empty())
    } else {
        let c = categories.last();
        match envelopes(categories.drop_last(), budgets, spending, month) {
            None => None,
            Some(earlier) => if c.is_income {
                Some(earlier)
            } else {
                match balance(
                    budgets,
                    spending,
                    c.id,
                    first_month(budgets, spending, month),
                    month,
                ) {
                    None => None,
                    Some(left) => Some(
                        earlier.push(
                            Envelope {
                                category: c.name,
                                group: c.group,
                                budgeted: budgeted_in(budgets, c.id, month),
                                spent: spent_in(spending, c.id, month),
                                balance: left,
                            },
                        ),
                    ),
                }
            },
        }
    }
}

/// What the income categories received, as they come, without those that
/// received nothing.
pub open spec fn receipts(
    categories: Seq<Heading>,
    spending: Seq<Flowed>,
    month: nat,
) -> Seq<Received>
    decreases categories.len(),
{
    if categories.len() == 0 {
        Seq::empty()
    } else {
        let c = categories.last();
        let earlier = receipts(categories.drop_last(), spending, month);
        let received = spent_in(spending, c.id, month);
        if c.is_income && received != 0 {
            earlier.push(Received { category: c.name, received })
        } else {
            earlier
        }
    }
}

/// Envelopes by group, and by category within a group.
pub open spec fn by_group(rows: Seq<Envelope>) -> Seq<Envelope> {
    stable_order(
        rows.map_values(|e: Envelope| Rank { rank: 0, major: e.group, minor: e.category }),
    ).map_values(|p: int| rows[p])
}

/// Receipts by category.
pub open spec fn by_category(rows: Seq<Received>) -> Seq<Received> {
    stable_order(
        rows.map_values(|e: Received| Rank { rank: 0, major: e.category, minor: Seq::empty() }),
    ).map_values(|p: int| rows[p])
}

/// The budget of a month, by group and category, and what came in. `None` where
/// a balance leaves the range of an `i64`.
pub fn report(
    categories: &Vec<Category>,
    budgets: &Vec<Allotment>,
    spending: &Vec<Flow>,
    month: BudgetMonth,
) -> (r: Option<(Vec<CategoryBudget>, Vec<IncomeTotal>)>)
    ensures
        match r {
            Some((rows, income)) => {
                &&& envelopes(
                    views(categories@),
                    views(budgets@),
                    views(spending@),
                    month@,
                ) matches Some(all) && views(rows@) == by_group(all)
                &&& views(income@) == by_category(
                    receipts(views(categories@), views(spending@), month@),
                )
            },
            None => envelopes(
                views(categories@),
                views(budgets@),
                views(spending@),
                month@,
            ) is None,
        },
{
    let ghost (cs, bs, ss) = (views(categories@), views(budgets@), views(spending@));
    let start = find_first_month(budgets, spending, month);
    let mut rows: Vec<CategoryBudget> = Vec::new();
    let mut income: Vec<IncomeTotal> = Vec::new();
    let mut i: usize = 0;
    assert(cs.take(0) =~= Seq::empty());
    assert(views(rows@) =~= Seq::empty());
    assert(views(income@) =~= Seq::empty());
    while i < categories.len()
        invariant
            i <= categories@.len(),
            cs == views(categories@),
            bs == views(budgets@),
            ss == views(spending@),
            start@ == first_month(bs, ss, month@),
            start@ <= month@,
            envelopes(cs.take(i as int), bs, ss, month@) == Some(views(rows@)),
            views(income@) == receipts(cs.take(i as int), ss, month@),
        decreases categories@.len() - i,
    {
        let c = &categories[i];
        let ghost upto = cs.take(i + 1);
        assert(upto.drop_last() =~= cs.take(i as int));
        assert(upto.last() == c@);
        let spent = find_flow(spending, c.id.as_str(), month);
        if c.is_income {
            if spent.cents() != 0 {
                let one = IncomeTotal { category: c.name.clone(), received: spent };
                let ghost (earlier, v) = (views(income@), one@);
                income.push(one);
                assert(views(income@) =~= earlier.push(v));
            }
        } else {
            match walk(budgets, spending, c.id.as_str(), start, month) {
                None => {
                    proof {
                        an_overflow_decides(cs, i as int, bs, ss, month@);
                    }
                    return None;
                },
                Some(left) => {
                    let (budgeted, _) = find_allotment(budgets, c.id.as_str(), month);
                    let one = CategoryBudget {
                        category: c.name.clone(),
                        group: c.group.clone(),
                        budgeted,
                        spent,
                        balance: left,
                    };
                    let ghost (earlier, v) = (views(rows@), one@);
                    rows.push(one);
                    assert(views(rows@) =~= earlier.push(v));
                },
            }
        }
        i += 1;
    }
    assert(cs.take(i as int) =~= cs);
    Some((sort_rows(rows), sort_income(income)))
}

fn sort_rows(rows: Vec<CategoryBudget>) -> (r: Vec<CategoryBudget>)
    ensures
        views(r@) == by_group(views(rows@)),
{
    let mut keys: Vec<SortKey> = Vec::new();
    let ghost vs = views(rows@);
    let ghost wanted = vs.map_values(
        |e: Envelope| Rank { rank: 0, major: e.group, minor: e.category },
    );
    let mut i: usize = 0;
    while i < rows.len()
        invariant
            i <= rows@.len(),
            vs == views(rows@),
            wanted == vs.map_values(
                |e: Envelope| Rank { rank: 0, major: e.group, minor: e.category },
            ),
            ranks(keys@) == wanted.take(i as int),
        decreases rows@.len() - i,
    {
        let key = SortKey {
            rank: 0,
            major: rows[i].group.clone(),
            minor: rows[i].category.clone(),
        };
        let ghost (earlier, k) = (ranks(keys@), key@);
        keys.push(key);
        assert(ranks(keys@) =~= earlier.push(k));
        i += 1;
        assert(ranks(keys@) =~= wanted.take(i as int));
    }
    assert(ranks(keys@) =~= wanted);
    assert(keys@.len() == rows@.len());
    let order = sorted_positions(&keys);
    let ghost ps = positions(order@);
    let mut out: Vec<CategoryBudget> = Vec::new();
    let mut j: usize = 0;
    while j < order.len()
        invariant
            j <= order@.len(),
            vs == views(rows@),
            ps == positions(order@),
            forall|k: int| 0 <= k < ps.len() ==> 0 <= #[trigger] ps[k] < rows@.len(),
            views(out@) == ps.map_values(|p: int| vs[p]).take(j as int),
        decreases order@.len() - j,
    {
        assert(ps[j as int] == order@[j as int]);
        let row = &rows[order[j]];
        let copy = CategoryBudget {
            category: row.category.clone(),
            group: row.group.clone(),
            budgeted: row.budgeted,
            spent: row.spent,
            balance: row.balance,
        };
        let ghost (earlier, v) = (views(out@), copy@);
        out.push(copy);
        assert(views(out@) =~= earlier.push(v));
        j += 1;
        assert(views(out@) =~= ps.map_values(|p: int| vs[p]).take(j as int));
    }
    assert(views(out@) =~= by_group(vs));
    out
}

fn sort_income(rows: Vec<IncomeTotal>) -> (r: Vec<IncomeTotal>)
    ensures
        views(r@) == by_category(views(rows@)),
{
    let mut keys: Vec<SortKey> = Vec::new();
    let ghost vs = views(rows@);
    let ghost wanted = vs.map_values(
        |e: Received| Rank { rank: 0, major: e.category, minor: Seq::empty() },
    );
    let mut i: usize = 0;
    while i < rows.len()
        invariant
            i <= rows@.len(),
            vs == views(rows@),
            wanted == vs.map_values(
                |e: Received| Rank { rank: 0, major: e.category, minor: Seq::empty() },
            ),
            ranks(keys@) == wanted.take(i as int),
        decreases rows@.len() - i,
    {
        let key = SortKey { rank: 0, major: rows[i].category.clone(), minor: String::new() };
        assert(key.minor@ =~= Seq::empty());
        let ghost (earlier, k) = (ranks(keys@), key@);
        keys.push(key);
        assert(ranks(keys@) =~= earlier.push(k));
        i += 1;
        assert(ranks(keys@) =~= wanted.take(i as int));
    }
    assert(ranks(keys@) =~= wanted);
    assert(keys@.len() == rows@.len());
    let order = sorted_positions(&keys);
    let ghost ps = positions(order@);
    let mut out: Vec<IncomeTotal> = Vec::new();
    let mut j: usize = 0;
    while j < order.len()
        invariant
            j <= order@.len(),
            vs == views(rows@),
            ps == positions(order@),
            forall|k: int| 0 <= k < ps.len() ==> 0 <= #[trigger] ps[k] < rows@.len(),
            views(out@) == ps.map_values(|p: int| vs[p]).take(j as int),
        decreases order@.len() - j,
    {
        assert(ps[j as int] == order@[j as int]);
        let row = &rows[order[j]];
        let copy = IncomeTotal { category: row.category.clone(), received: row.received };
        let ghost (earlier, v) = (views(out@), copy@);
        out.push(copy);
        assert(views(out@) =~= earlier.push(v));
        j += 1;
        assert(views(out@) =~= ps.map_values(|p: int| vs[p]).take(j as int));
    }
    assert(views(out@) =~= by_category(vs));
    out
}

/// Categories after one whose balance overflows do not matter.
proof fn an_overflow_decides(
    categories: Seq<Heading>,
    i: int,
    budgets: Seq<Allotted>,
    spending: Seq<Flowed>,
    month: nat,
)
    requires
        0 <= i < categories.len(),
        !categories[i].is_income,
        balance(
            budgets,
            spending,
            categories[i].id,
            first_month(budgets, spending, month),
            month,
        ) is None,
    ensures
        envelopes(categories, budgets, spending, month) is None,
    decreases categories.len(),
{
    if i < categories.len() - 1 {
        an_overflow_decides(categories.drop_last(), i, budgets, spending, month);
    }
}

// --------------------------------------------------------------- loading -----
/// The statement that lists the categories.
pub const CATEGORIES: &'static str = "SELECT c.id, c.name, COALESCE(g.name, ''), c.is_income FROM categories c LEFT JOIN category_groups g ON g.id = c.cat_group WHERE c.tombstone = 0";

/// The statement that lists the allotments up to and including a month.
pub const BUDGETS: &'static str = "SELECT category, month, amount, carryover FROM zero_budgets WHERE month <= ?1";

/// The statement that counts the rows of a tracking budget.
pub const TRACKING: &'static str = "SELECT count(*) FROM reflect_budgets";

/// The statement that sums what went through each category in each month up to
/// and including a month.
pub open spec fn flows_sql(scope: Scope) -> Seq<char> {
    "SELECT t.category, t.date / 100 AS mo, SUM(t.amount) FROM "@ + FROM@ + " WHERE "@
        + scope.where_sql()
        + " AND t.category IS NOT NULL AND t.date / 100 <= ?1 GROUP BY t.category, mo"@
}

/// A month as the only value bound to a statement.
pub open spec fn up_to(month: nat) -> Seq<Cell> {
    seq![Cell::Integer(month as int)]
}

/// What a row of the list of categories stands for.
pub open spec fn heading(row: Seq<Cell>) -> Result<Heading, nat> {
    match text_in(row, 0) {
        None => Err(0),
        Some(id) => match text_in(row, 1) {
            None => Err(1),
            Some(name) => match text_in(row, 2) {
                None => Err(2),
                Some(group) => match integer_in(row, 3) {
                    None => Err(3),
                    Some(income) => Ok(Heading { id, name, group, is_income: income != 0 }),
                },
            },
        },
    }
}

/// The month an integer stands for. One that stands for none counts towards
/// the month asked for.
pub open spec fn month_or(n: int, month: nat) -> nat {
    if is_month(n as nat) {
        n as nat
    } else {
        month
    }
}

/// What a row of the list of allotments stands for.
pub open spec fn allotted(row: Seq<Cell>, month: nat) -> Result<Allotted, nat> {
    match small_in(row, 1) {
        None => Err(1),
        Some(m) => match text_in(row, 0) {
            None => Err(0),
            Some(category) => match integer_in(row, 2) {
                None => Err(2),
                Some(amount) => match integer_in(row, 3) {
                    None => Err(3),
                    Some(flag) => Ok(
                        Allotted {
                            category,
                            month: month_or(m, month),
                            amount,
                            carryover: flag != 0,
                        },
                    ),
                },
            },
        },
    }
}

/// What a row of the sums stands for.
pub open spec fn flowed(row: Seq<Cell>, month: nat) -> Result<Flowed, nat> {
    match small_in(row, 1) {
        None => Err(1),
        Some(m) => match text_in(row, 0) {
            None => Err(0),
            Some(category) => match integer_in(row, 2) {
                None => Err(2),
                Some(amount) => Ok(Flowed { category, month: month_or(m, month), amount }),
            },
        },
    }
}

/// What the answer on the categories stands for.
pub open spec fn headings(rows: Seq<Seq<Cell>>) -> Result<Seq<Heading>, nat> {
    decoded(rows, |row: Seq<Cell>| heading(row))
}

/// What the answer on the allotments stands for.
pub open spec fn allotments(rows: Seq<Seq<Cell>>, month: nat) -> Result<Seq<Allotted>, nat> {
    decoded(rows, |row: Seq<Cell>| allotted(row, month))
}

/// What the answer on the sums stands for.
pub open spec fn flows(rows: Seq<Seq<Cell>>, month: nat) -> Result<Seq<Flowed>, nat> {
    decoded(rows, |row: Seq<Cell>| flowed(row, month))
}

fn read_category(row: &Vec<SqlCell>) -> (r: Result<Category, QueryError>)
    ensures
        agrees(r, heading(cells(row@))),
{
    match get_text(row, 0) {
        Err(e) => Err(e),
        Ok(id) => match get_text(row, 1) {
            Err(e) => Err(e),
            Ok(name) => match get_text(row, 2) {
                Err(e) => Err(e),
                Ok(group) => match get_integer(row, 3) {
                    Err(e) => Err(e),
                    Ok(income) => Ok(Category { id, name, group, is_income: income != 0 }),
                },
            },
        },
    }
}

fn read_month(n: u32, month: BudgetMonth) -> (r: BudgetMonth)
    ensures
        r@ == month_or(n as int, month@),
{
    match BudgetMonth::from_int(n) {
        Some(m) => m,
        None => month,
    }
}

fn read_allotment(row: &Vec<SqlCell>, month: BudgetMonth) -> (r: Result<Allotment, QueryError>)
    ensures
        agrees(r, allotted(cells(row@), month@)),
{
    match get_small(row, 1) {
        Err(e) => Err(e),
        Ok(m) => match get_text(row, 0) {
            Err(e) => Err(e),
            Ok(category) => match get_integer(row, 2) {
                Err(e) => Err(e),
                Ok(cents) => match get_integer(row, 3) {
                    Err(e) => Err(e),
                    Ok(flag) => Ok(
                        Allotment {
                            category,
                            month: read_month(m, month),
                            amount: Money::from_cents(cents),
                            carryover: flag != 0,
                        },
                    ),
                },
            },
        },
    }
}

fn read_flow(row: &Vec<SqlCell>, month: BudgetMonth) -> (r: Result<Flow, QueryError>)
    ensures
        agrees(r, flowed(cells(row@), month@)),
{
    match get_small(row, 1) {
        Err(e) => Err(e),
        Ok(m) => match get_text(row, 0) {
            Err(e) => Err(e),
            Ok(category) => match get_integer(row, 2) {
                Err(e) => Err(e),
                Ok(cents) => Ok(
                    Flow {
                        category,
                        month: read_month(m, month),
                        amount: Money::from_cents(cents),
                    },
                ),
            },
        },
    }
}

/// Reads the categories out of the rows of an answer.
pub fn read_categories(rows: &Vec<Vec<SqlCell>>) -> (r: Result<Vec<Category>, QueryError>)
    ensures
        agree(r, headings(table(rows@))),
{
    decode_rows(rows, read_category, Ghost(|row: Seq<Cell>| heading(row)))
}

/// Reads the allotments out of the rows of an answer.
pub fn read_budgets(rows: &Vec<Vec<SqlCell>>, month: BudgetMonth) -> (r: Result<
    Vec<Allotment>,
    QueryError,
>)
    ensures
        agree(r, allotments(table(rows@), month@)),
{
    let one = |row: &Vec<SqlCell>| -> (r: Result<Allotment, QueryError>)
        ensures
            agrees(r, allotted(cells(row@), month@)),
        { read_allotment(row, month) };
    decode_rows(rows, one, Ghost(|row: Seq<Cell>| allotted(row, month@)))
}

/// Reads the sums out of the rows of an answer.
pub fn read_spending(rows: &Vec<Vec<SqlCell>>, month: BudgetMonth) -> (r: Result<
    Vec<Flow>,
    QueryError,
>)
    ensures
        agree(r, flows(table(rows@), month@)),
{
    let one = |row: &Vec<SqlCell>| -> (r: Result<Flow, QueryError>)
        ensures
            agrees(r, flowed(cells(row@), month@)),
        { read_flow(row, month) };
    decode_rows(rows, one, Ghost(|row: Seq<Cell>| flowed(row, month@)))
}

fn load_categories(conn: &Connection) -> (r: Result<Vec<Category>, QueryError>)
    ensures
        match r {
            Err(QueryError::Sqlite(e)) => refused(conn, CATEGORIES@, Seq::empty(), e),
            _ => exists|rows: Seq<Seq<Cell>>| #[trigger]
                answered(conn, CATEGORIES@, Seq::empty(), rows) && agree(r, headings(rows)),
        },
{
    let params: Vec<SqlValue> = Vec::new();
    assert(cells(params@) =~= Seq::empty());
    match query(conn, CATEGORIES, &params, 4) {
        Err(e) => Err(QueryError::Sqlite(e)),
        Ok(rows) => read_categories(&rows),
    }
}

fn load_budgets(conn: &Connection, month: BudgetMonth) -> (r: Result<Vec<Allotment>, QueryError>)
    ensures
        match r {
            Err(QueryError::Sqlite(e)) => refused(conn, BUDGETS@, up_to(month@), e),
            _ => exists|rows: Seq<Seq<Cell>>| #[trigger]
                answered(conn, BUDGETS@, up_to(month@), rows) && agree(
                    r,
                    allotments(rows, month@),
                ),
        },
{
    let mut params: Vec<SqlValue> = Vec::new();
    params.push(SqlValue::Integer(month.as_int() as i64));
    assert(cells(params@) =~= up_to(month@));
    match query(conn, BUDGETS, &params, 4) {
        Err(e) => Err(QueryError::Sqlite(e)),
        Ok(rows) => read_budgets(&rows, month),
    }
}

fn load_spending(conn: &Connection, month: BudgetMonth, scope: TxScope) -> (r: Result<
    Vec<Flow>,
    QueryError,
>)
    ensures
        match r {
            Err(QueryError::Sqlite(e)) => refused(conn, flows_sql(scope@), up_to(month@), e),
            _ => exists|rows: Seq<Seq<Cell>>| #[trigger]
                answered(conn, flows_sql(scope@), up_to(month@), rows) && agree(
                    r,
                    flows(rows, month@),
                ),
        },
{
    let mut sql = String::new();
    sql.append("SELECT t.category, t.date / 100 AS mo, SUM(t.amount) FROM ");
    sql.append(FROM);
    sql.append(" WHERE ");
    sql.append(scope.where_sql().as_str());
    sql.append(" AND t.category IS NOT NULL AND t.date / 100 <= ?1 GROUP BY t.category, mo");
    assert(sql@ =~= flows_sql(scope@));
    let mut params: Vec<SqlValue> = Vec::new();
    params.push(SqlValue::Integer(month.as_int() as i64));
    assert(cells(params@) =~= up_to(month@));
    match query(conn, sql.as_str(), &params, 3) {
        Err(e) => Err(QueryError::Sqlite(e)),
        Ok(rows) => read_spending(&rows, month),
    }
}

/// The database's answers to what a monthly budget asks of it.
pub open spec fn budget_answers(
    conn: &Connection,
    month: nat,
    scope: Scope,
    categories: Seq<Heading>,
    budgets: Seq<Allotted>,
    spending: Seq<Flowed>,
) -> bool {
    &&& exists|rows: Seq<Seq<Cell>>| #[trigger]
        answered(conn, CATEGORIES@, Seq::empty(), rows) && headings(rows)
            == Ok::<Seq<Heading>, nat>(categories)
    &&& exists|rows: Seq<Seq<Cell>>| #[trigger]
        answered(conn, BUDGETS@, up_to(month), rows) && allotments(rows, month)
            == Ok::<Seq<Allotted>, nat>(budgets)
    &&& exists|rows: Seq<Seq<Cell>>| #[trigger]
        answered(conn, flows_sql(scope), up_to(month), rows) && flows(rows, month)
            == Ok::<Seq<Flowed>, nat>(spending)
}

/// The result is what the database answers to the questions for a budget.
pub open spec fn budget_found(
    conn: &Connection,
    month: nat,
    scope: Scope,
    r: Result<MonthlyBudget, QueryError>,
) -> bool {
    match r {
        Err(QueryError::Sqlite(e)) => {
            ||| refused(conn, CATEGORIES@, Seq::empty(), e)
            ||| refused(conn, BUDGETS@, up_to(month), e)
            ||| refused(conn, flows_sql(scope), up_to(month), e)
            ||| refused(conn, TRACKING@, Seq::empty(), e)
        },
        Err(QueryError::NoRow) => looked_up(conn, TRACKING@, Seq::empty(), None),
        Err(QueryError::Cell { column }) => {
            ||| exists|rows: Seq<Seq<Cell>>| #[trigger]
                answered(conn, CATEGORIES@, Seq::empty(), rows) && headings(rows)
                    == Err::<Seq<Heading>, nat>(column as nat)
            ||| exists|rows: Seq<Seq<Cell>>| #[trigger]
                answered(conn, BUDGETS@, up_to(month), rows) && allotments(rows, month)
                    == Err::<Seq<Allotted>, nat>(column as nat)
            ||| exists|rows: Seq<Seq<Cell>>| #[trigger]
                answered(conn, flows_sql(scope), up_to(month), rows) && flows(rows, month)
                    == Err::<Seq<Flowed>, nat>(column as nat)
            ||| column == 0 && exists|cell: Option<Cell>| #[trigger]
                looked_up(conn, TRACKING@, Seq::empty(), cell) && cell is Some
                    && first_number(cell) is None
        },
        Err(QueryError::Overflow) => exists|
            categories: Seq<Heading>,
            budgets: Seq<Allotted>,
            spending: Seq<Flowed>,
        | #[trigger]
            budget_answers(conn, month, scope, categories, budgets, spending) && envelopes(
                categories,
                budgets,
                spending,
                month,
            ) is None,
        Ok(found) => {
            &&& exists|
                categories: Seq<Heading>,
                budgets: Seq<Allotted>,
                spending: Seq<Flowed>,
            | #[trigger]
                budget_answers(conn, month, scope, categories, budgets, spending) && match (
                envelopes(categories, budgets, spending, month)) {
                    Some(all) => views(found.categories@) == by_group(all) && views(
                        found.income@,
                    ) == by_category(receipts(categories, spending, month)),
                    None => false,
                }
            &&& exists|cell: Option<Cell>| #[trigger]
                looked_up(conn, TRACKING@, Seq::empty(), cell) && match first_number(cell) {
                    Some(n) => found.uses_tracking_budget == (n > 0),
                    None => false,
                }
        },
    }
}

/// The budget of a month, from the database. `Overflow` where a balance leaves
/// the range of an `i64`.
pub fn monthly_budget(conn: &Connection, month: BudgetMonth, scope: TxScope) -> (r: Result<
    MonthlyBudget,
    QueryError,
>)
    ensures
        budget_found(conn, month@, scope@, r),
{
    let categories = match load_categories(conn) {
        Err(e) => {
            return Err(e);
        },
        Ok(categories) => categories,
    };
    let budgets = match load_budgets(conn, month) {
        Err(e) => {
            return Err(e);
        },
        Ok(budgets) => budgets,
    };
    let spending = match load_spending(conn, month, scope) {
        Err(e) => {
            return Err(e);
        },
        Ok(spending) => spending,
    };
    let none: Vec<SqlValue> = Vec::new();
    assert(cells(none@) =~= Seq::empty());
    let tracking: i64 = match lookup(conn, TRACKING, &none) {
        Err(e) => {
            return Err(QueryError::Sqlite(e));
        },
        Ok(cell) => match count_of(&cell) {
            Err(e) => {
                return Err(e);
            },
            Ok(n) => n,
        },
    };
    assert(budget_answers(
        conn,
        month@,
        scope@,
        views(categories@),
        views(budgets@),
        views(spending@),
    ));
    match report(&categories, &budgets, &spending, month) {
        None => Err(QueryError::Overflow),
        Some((rows, income)) => Ok(
            MonthlyBudget { categories: rows, income, uses_tracking_budget: tracking > 0 },
        ),
    }
}

// ----------------------------------------------------------------- laws -----
/// With no history the balance is what was budgeted and what was spent.
pub proof fn a_first_month_balances_budgeted_and_spent(
    budgets: Seq<Allotted>,
    spending: Seq<Flowed>,
    id: Seq<char>,
    month: nat,
)
    ensures
        balance(budgets, spending, id, month, month) matches Some(left) ==> left == budgeted_in(
            budgets,
            id,
            month,
        ) + spent_in(spending, id, month),
{
}

/// A surplus carries into the next month.
pub proof fn a_surplus_carries_into_the_next_month(
    budgets: Seq<Allotted>,
    spending: Seq<Flowed>,
    id: Seq<char>,
    start: nat,
    month: nat,
)
    requires
        is_month(month),
        start <= month,
        balance(budgets, spending, id, start, month) matches Some(left) && left > 0,
    ensures
        balance(budgets, spending, id, start, month_after(month)) matches Some(next) ==> next
            == balance(budgets, spending, id, start, month)->0 + budgeted_in(
            budgets,
            id,
            month_after(month),
        ) + spent_in(spending, id, month_after(month)),
{
    assert(month_before(month_after(month)) == month);
}

/// Overspending is absorbed by the month it happened in, and not inherited,
/// unless the flag of the next month says so.
pub proof fn an_overspend_carries_only_by_its_flag(
    budgets: Seq<Allotted>,
    spending: Seq<Flowed>,
    id: Seq<char>,
    start: nat,
    month: nat,
)
    requires
        is_month(month),
        start <= month,
        balance(budgets, spending, id, start, month) matches Some(left) && left <= 0,
    ensures
        balance(budgets, spending, id, start, month_after(month)) matches Some(next) ==> next == (
        if carries_into(budgets, id, month_after(month)) {
            balance(budgets, spending, id, start, month)->0
        } else {
            0
        }) + budgeted_in(budgets, id, month_after(month)) + spent_in(
            spending,
            id,
            month_after(month),
        ),
{
    assert(month_before(month_after(month)) == month);
}

/// What was budgeted or spent in a later month makes no difference to the
/// budget of an earlier one.
pub proof fn later_months_do_not_leak(
    categories: Seq<Heading>,
    budgets: Seq<Allotted>,
    spending: Seq<Flowed>,
    later: Allotted,
    flow: Flowed,
    month: nat,
)
    requires
        later.month > month,
        flow.month > month,
    ensures
        envelopes(categories, budgets.push(later), spending, month) == envelopes(
            categories,
            budgets,
            spending,
            month,
        ),
        envelopes(categories, budgets, spending.push(flow), month) == envelopes(
            categories,
            budgets,
            spending,
            month,
        ),
        receipts(categories, spending.push(flow), month) == receipts(categories, spending, month),
    decreases categories.len(),
{
    if categories.len() > 0 {
        let c = categories.last();
        later_months_do_not_leak(
            categories.drop_last(),
            budgets,
            spending,
            later,
            flow,
            month,
        );
        first_month_ignores_later_ones(budgets, spending, later, flow, month);
        lookups_ignore_later_months(budgets, spending, later, flow, c.id, month);
        balance_ignores_later_months(
            budgets,
            spending,
            later,
            flow,
            c.id,
            first_month(budgets, spending, month),
            month,
        );
    }
}

proof fn lookups_ignore_later_months(
    budgets: Seq<Allotted>,
    spending: Seq<Flowed>,
    later: Allotted,
    flow: Flowed,
    id: Seq<char>,
    month: nat,
)
    requires
        later.month > month,
        flow.month > month,
    ensures
        allotment(budgets.push(later), id, month) == allotment(budgets, id, month),
        spent_in(spending.push(flow), id, month) == spent_in(spending, id, month),
{
    assert(budgets.push(later).drop_last() =~= budgets);
    assert(spending.push(flow).drop_last() =~= spending);
}

proof fn first_month_ignores_later_ones(
    budgets: Seq<Allotted>,
    spending: Seq<Flowed>,
    later: Allotted,
    flow: Flowed,
    month: nat,
)
    requires
        later.month > month,
        flow.month > month,
    ensures
        first_month(budgets.push(later), spending, month) == first_month(budgets, spending, month),
        first_month(budgets, spending.push(flow), month) == first_month(budgets, spending, month),
    decreases budgets.len(),
{
    first_month_is_no_later(budgets, spending, month);
    assert(budgets.push(later).drop_last() =~= budgets);
    if budgets.len() > 0 {
        first_month_ignores_later_ones(budgets.drop_last(), spending, later, flow, month);
    } else {
        assert(spending.push(flow).drop_last() =~= spending);
    }
}

proof fn first_month_is_no_later(budgets: Seq<Allotted>, spending: Seq<Flowed>, month: nat)
    ensures
        first_month(budgets, spending, month) <= month,
    decreases budgets.len() + spending.len(),
{
    if budgets.len() > 0 {
        first_month_is_no_later(budgets.drop_last(), spending, month);
    } else if spending.len() > 0 {
        first_month_is_no_later(budgets, spending.drop_last(), month);
    }
}

proof fn balance_ignores_later_months(
    budgets: Seq<Allotted>,
    spending: Seq<Flowed>,
    later: Allotted,
    flow: Flowed,
    id: Seq<char>,
    start: nat,
    month: nat,
)
    requires
        later.month > month,
        flow.month > month,
    ensures
        balance(budgets.push(later), spending, id, start, month) == balance(
            budgets,
            spending,
            id,
            start,
            month,
        ),
        balance(budgets, spending.push(flow), id, start, month) == balance(
            budgets,
            spending,
            id,
            start,
            month,
        ),
    decreases month,
{
    lookups_ignore_later_months(budgets, spending, later, flow, id, month);
    if month > start && month > 0 {
        balance_ignores_later_months(
            budgets,
            spending,
            later,
            flow,
            id,
            start,
            month_before(month),
        );
    }
}

/// Every envelope is of a category that is not income, and every such category
/// has one: income is never budgeted.
pub proof fn income_is_never_budgeted(
    categories: Seq<Heading>,
    budgets: Seq<Allotted>,
    spending: Seq<Flowed>,
    month: nat,
)
    requires
        envelopes(categories, budgets, spending, month) is Some,
    ensures
        envelopes(categories, budgets, spending, month)->0.len() == categories.filter(
            |c: Heading| !c.is_income,
        ).len(),
        forall|i: int|
            0 <= i < envelopes(categories, budgets, spending, month)->0.len() ==> (#[trigger] envelopes(
                categories,
                budgets,
                spending,
                month,
            )->0[i]).category == categories.filter(|c: Heading| !c.is_income)[i].name,
    decreases categories.len(),
{
    reveal(Seq::filter);
    if categories.len() > 0 {
        income_is_never_budgeted(categories.drop_last(), budgets, spending, month);
    }
}

/// The entry is the one that counts for a category in a month: of several the
/// last.
pub open spec fn counts_for(budgets: Seq<Allotted>, id: Seq<char>, month: nat, i: int) -> bool {
    &&& 0 <= i < budgets.len()
    &&& budgets[i].category == id && budgets[i].month == month
    &&& forall|j: int|
        i < j < budgets.len() ==> (#[trigger] budgets[j]).category != id || budgets[j].month
            != month
}

/// This is what a category was given in a month, and whether an overspend is
/// carried into that month: what the entry for it says, and nothing where there
/// is none. No entry of another month or category bears on it.
pub open spec fn is_given(
    budgets: Seq<Allotted>,
    id: Seq<char>,
    month: nat,
    amount: int,
    carryover: bool,
) -> bool {
    ||| exists|i: int|
        #[trigger] counts_for(budgets, id, month, i) && budgets[i].amount == amount
            && budgets[i].carryover == carryover
    ||| amount == 0 && !carryover && forall|i: int|
        0 <= i < budgets.len() ==> (#[trigger] budgets[i]).category != id || budgets[i].month
            != month
}

/// This is what went through a category in a month: what the last figure for it
/// says, and nothing where there is none. No figure of another month or category
/// bears on it.
pub open spec fn is_spent(spending: Seq<Flowed>, id: Seq<char>, month: nat, amount: int) -> bool {
    ||| exists|i: int|
        0 <= i < spending.len() && (#[trigger] spending[i]).category == id && spending[i].month
            == month && spending[i].amount == amount && forall|j: int|
            i < j < spending.len() ==> (#[trigger] spending[j]).category != id
                || spending[j].month != month
    ||| amount == 0 && forall|i: int|
        0 <= i < spending.len() ==> (#[trigger] spending[i]).category != id || spending[i].month
            != month
}

/// The categories that are budgeted.
pub open spec fn spending_headings(categories: Seq<Heading>) -> Seq<Heading> {
    categories.filter(|c: Heading| !c.is_income)
}

/// An envelope is of this category, and says what it was given and what went
/// through it in this very month.
pub open spec fn tells(
    e: Envelope,
    c: Heading,
    budgets: Seq<Allotted>,
    spending: Seq<Flowed>,
    month: nat,
) -> bool {
    &&& e.category == c.name
    &&& e.group == c.group
    &&& is_spent(spending, c.id, month, e.spent)
    &&& is_given(budgets, c.id, month, e.budgeted, true) || is_given(
        budgets,
        c.id,
        month,
        e.budgeted,
        false,
    )
}

/// Every category that is not income has an envelope, which says what the
/// category was given and what went through it in the month asked for, whatever
/// happened in other months.
pub proof fn an_envelope_tells_of_its_month(
    categories: Seq<Heading>,
    budgets: Seq<Allotted>,
    spending: Seq<Flowed>,
    month: nat,
)
    ensures
        envelopes(categories, budgets, spending, month) matches Some(all) ==> all.len()
            == spending_headings(categories).len() && forall|i: int|
            0 <= i < all.len() ==> tells(
                #[trigger] all[i],
                spending_headings(categories)[i],
                budgets,
                spending,
                month,
            ),
    decreases categories.len(),
{
    reveal(Seq::filter);
    if categories.len() > 0 {
        let before = categories.drop_last();
        let c = categories.last();
        an_envelope_tells_of_its_month(before, budgets, spending, month);
        lookups_find_what_counts(budgets, spending, c.id, month);
        if let Some(all) = envelopes(categories, budgets, spending, month) {
            let earlier = envelopes(before, budgets, spending, month)->0;
            if !c.is_income {
                assert(spending_headings(categories) == spending_headings(before).push(c));
                assert forall|i: int| 0 <= i < all.len() implies tells(
                    #[trigger] all[i],
                    spending_headings(categories)[i],
                    budgets,
                    spending,
                    month,
                ) by {
                    if i < earlier.len() {
                        assert(all[i] == earlier[i]);
                    }
                }
            } else {
                assert(spending_headings(categories) == spending_headings(before));
            }
        }
    }
}

proof fn lookups_find_what_counts(
    budgets: Seq<Allotted>,
    spending: Seq<Flowed>,
    id: Seq<char>,
    month: nat,
)
    ensures
        is_given(
            budgets,
            id,
            month,
            budgeted_in(budgets, id, month),
            carries_into(budgets, id, month),
        ),
        is_spent(spending, id, month, spent_in(spending, id, month)),
{
    allotments_are_found(budgets, id, month);
    flows_are_found(spending, id, month);
}

proof fn allotments_are_found(budgets: Seq<Allotted>, id: Seq<char>, month: nat)
    ensures
        is_given(
            budgets,
            id,
            month,
            budgeted_in(budgets, id, month),
            carries_into(budgets, id, month),
        ),
    decreases budgets.len(),
{
    if budgets.len() > 0 {
        let last = budgets.len() - 1;
        let before = budgets.drop_last();
        if budgets[last].category == id && budgets[last].month == month {
            assert(counts_for(budgets, id, month, last));
        } else {
            allotments_are_found(before, id, month);
            if exists|i: int|
                #[trigger] counts_for(before, id, month, i) && before[i].amount == budgeted_in(
                    before,
                    id,
                    month,
                ) && before[i].carryover == carries_into(before, id, month) {
                let i = choose|i: int|
                    #[trigger] counts_for(before, id, month, i) && before[i].amount == budgeted_in(
                        before,
                        id,
                        month,
                    ) && before[i].carryover == carries_into(before, id, month);
                assert forall|j: int| i < j < budgets.len() implies (
                #[trigger] budgets[j]).category != id || budgets[j].month != month by {
                    if j < last {
                        assert(before[j] == budgets[j]);
                    }
                }
                assert(counts_for(budgets, id, month, i));
            } else {
                assert forall|i: int| 0 <= i < budgets.len() implies (
                #[trigger] budgets[i]).category != id || budgets[i].month != month by {
                    if i < last {
                        assert(before[i] == budgets[i]);
                    }
                }
            }
        }
    }
}

proof fn flows_are_found(spending: Seq<Flowed>, id: Seq<char>, month: nat)
    ensures
        is_spent(spending, id, month, spent_in(spending, id, month)),
    decreases spending.len(),
{
    if spending.len() > 0 {
        let last = spending.len() - 1;
        let before = spending.drop_last();
        if spending[last].category == id && spending[last].month == month {
        } else {
            flows_are_found(before, id, month);
            let amount = spent_in(before, id, month);
            if forall|i: int|
                0 <= i < before.len() ==> (#[trigger] before[i]).category != id || before[i].month
                    != month {
                assert forall|i: int| 0 <= i < spending.len() implies (
                #[trigger] spending[i]).category != id || spending[i].month != month by {
                    if i < last {
                        assert(before[i] == spending[i]);
                    }
                }
            } else {
                let i = choose|i: int|
                    0 <= i < before.len() && (#[trigger] before[i]).category == id
                        && before[i].month == month && before[i].amount == amount && forall|j: int|
                        i < j < before.len() ==> (#[trigger] before[j]).category != id
                            || before[j].month != month;
                assert(spending[i] == before[i]);
                assert forall|j: int| i < j < spending.len() implies (
                #[trigger] spending[j]).category != id || spending[j].month != month by {
                    if j < last {
                        assert(before[j] == spending[j]);
                    }
                }
            }
        }
    }
}

/// No entry is of an earlier month.
pub open spec fn starts_at(budgets: Seq<Allotted>, spending: Seq<Flowed>, month: nat) -> bool {
    &&& forall|i: int| 0 <= i < budgets.len() ==> (#[trigger] budgets[i]).month >= month
    &&& forall|i: int| 0 <= i < spending.len() ==> (#[trigger] spending[i]).month >= month
}

/// With no history, the balance of an envelope is what the category was given
/// and what went through it.
pub proof fn without_history_nothing_is_carried(
    categories: Seq<Heading>,
    budgets: Seq<Allotted>,
    spending: Seq<Flowed>,
    month: nat,
)
    requires
        starts_at(budgets, spending, month),
    ensures
        envelopes(categories, budgets, spending, month) matches Some(all) ==> forall|i: int|
            0 <= i < all.len() ==> (#[trigger] all[i]).balance == all[i].budgeted + all[i].spent,
    decreases categories.len(),
{
    if categories.len() > 0 {
        without_history_nothing_is_carried(categories.drop_last(), budgets, spending, month);
        first_months(budgets, spending, month);
    }
}

proof fn first_months(budgets: Seq<Allotted>, spending: Seq<Flowed>, month: nat)
    ensures
        first_month(budgets, spending, month) <= month,
        starts_at(budgets, spending, first_month(budgets, spending, month)),
        first_month(budgets, spending, month) == month || (exists|i: int|
            0 <= i < budgets.len() && (#[trigger] budgets[i]).month == first_month(
                budgets,
                spending,
                month,
            )) || (exists|i: int|
            0 <= i < spending.len() && (#[trigger] spending[i]).month == first_month(
                budgets,
                spending,
                month,
            )),
    decreases budgets.len() + spending.len(),
{
    let first = first_month(budgets, spending, month);
    if budgets.len() > 0 {
        let before = budgets.drop_last();
        let rest = first_month(before, spending, month);
        first_months(before, spending, month);
        let last = budgets.len() - 1;
        assert(first <= budgets[last].month);
        assert forall|i: int| 0 <= i < budgets.len() implies (#[trigger] budgets[i]).month
            >= first by {
            if i < last {
                assert(before[i] == budgets[i]);
            }
        }
        if first == budgets[last].month {
        } else if rest != month {
            if exists|i: int| 0 <= i < before.len() && (#[trigger] before[i]).month == rest {
                let i = choose|i: int|
                    0 <= i < before.len() && (#[trigger] before[i]).month == rest;
                assert(budgets[i] == before[i]);
            }
        }
    } else if spending.len() > 0 {
        let before = spending.drop_last();
        let rest = first_month(budgets, before, month);
        first_months(budgets, before, month);
        let last = spending.len() - 1;
        assert(first <= spending[last].month);
        assert forall|i: int| 0 <= i < spending.len() implies (#[trigger] spending[i]).month
            >= first by {
            if i < last {
                assert(before[i] == spending[i]);
            }
        }
        if first == spending[last].month {
        } else if rest != month {
            let i = choose|i: int| 0 <= i < before.len() && (#[trigger] before[i]).month == rest;
            assert(spending[i] == before[i]);
        }
    }
}

/// What a balance brings into the next month: a surplus all of it, anything else
/// only where the entry of that month says so.
pub open spec fn brings(
    budgets: Seq<Allotted>,
    id: Seq<char>,
    next: Envelope,
    month: nat,
    balance: int,
) -> int {
    if balance > 0 || is_given(budgets, id, month, next.budgeted, true) {
        balance
    } else {
        0
    }
}

/// From a month to the next: the balance of an envelope is what the category
/// was given and what went through it in its own month, and what the balance of
/// the month before brings.
pub proof fn a_balance_rolls_into_the_next_month(
    categories: Seq<Heading>,
    budgets: Seq<Allotted>,
    spending: Seq<Flowed>,
    month: nat,
)
    requires
        is_month(month),
    ensures
        envelopes(categories, budgets, spending, month) matches Some(now) ==> (envelopes(
            categories,
            budgets,
            spending,
            month_after(month),
        ) matches Some(next) ==> now.len() == next.len() && forall|i: int|
            0 <= i < next.len() ==> (#[trigger] next[i]).balance == next[i].budgeted
                + next[i].spent + brings(
                budgets,
                spending_headings(categories)[i].id,
                next[i],
                month_after(month),
                now[i].balance,
            )),
    decreases categories.len(),
{
    reveal(Seq::filter);
    if categories.len() > 0 {
        let c = categories.last();
        let before = categories.drop_last();
        let later = month_after(month);
        a_balance_rolls_into_the_next_month(before, budgets, spending, month);
        an_envelope_tells_of_its_month(before, budgets, spending, month);
        an_envelope_tells_of_its_month(before, budgets, spending, later);
        if let (Some(now), Some(next)) = (
            envelopes(categories, budgets, spending, month),
            envelopes(categories, budgets, spending, later),
        ) {
            if !c.is_income {
                one_balance_rolls(budgets, spending, c.id, month);
                assert(spending_headings(categories) == spending_headings(before).push(c));
                let was = envelopes(before, budgets, spending, later)->0;
                assert forall|i: int| 0 <= i < next.len() implies (#[trigger] next[i]).balance
                    == next[i].budgeted + next[i].spent + brings(
                    budgets,
                    spending_headings(categories)[i].id,
                    next[i],
                    later,
                    now[i].balance,
                ) by {
                    if i < was.len() {
                        assert(next[i] == was[i]);
                    } else {
                        flags_are_found(budgets, c.id, later);
                    }
                }
            } else {
                assert(spending_headings(categories) == spending_headings(before));
            }
        }
    }
}

proof fn flags_are_found(budgets: Seq<Allotted>, id: Seq<char>, month: nat)
    ensures
        is_given(budgets, id, month, budgeted_in(budgets, id, month), true) <==> carries_into(
            budgets,
            id,
            month,
        ),
{
    allotments_are_found(budgets, id, month);
    let amount = budgeted_in(budgets, id, month);
    if is_given(budgets, id, month, amount, true) {
        let i = choose|i: int|
            #[trigger] counts_for(budgets, id, month, i) && budgets[i].amount == amount
                && budgets[i].carryover == true;
        assert(budgets[i].category == id && budgets[i].month == month);
        if !carries_into(budgets, id, month) {
            let j = choose|j: int|
                #[trigger] counts_for(budgets, id, month, j) && budgets[j].amount == amount
                    && budgets[j].carryover == false;
            if i < j {
                assert(budgets[j].category != id || budgets[j].month != month);
            } else if j < i {
                assert(budgets[i].category != id || budgets[i].month != month);
            }
        }
    }
}

proof fn one_balance_rolls(
    budgets: Seq<Allotted>,
    spending: Seq<Flowed>,
    id: Seq<char>,
    month: nat,
)
    requires
        is_month(month),
    ensures
        balance(budgets, spending, id, first_month(budgets, spending, month), month) matches Some(
            now,
        ) ==> (balance(
            budgets,
            spending,
            id,
            first_month(budgets, spending, month_after(month)),
            month_after(month),
        ) matches Some(next) ==> next == carried(
            now,
            carries_into(budgets, id, month_after(month)),
        ) + budgeted_in(budgets, id, month_after(month)) + spent_in(
            spending,
            id,
            month_after(month),
        )),
{
    let later = month_after(month);
    let (a, b) = (
        first_month(budgets, spending, month),
        first_month(budgets, spending, later),
    );
    first_months(budgets, spending, month);
    first_months(budgets, spending, later);
    assert(month_before(later) == month);
    if b <= month {
        assert(a == b) by {
            if exists|i: int| 0 <= i < budgets.len() && (#[trigger] budgets[i]).month == b {
                let i = choose|i: int| 0 <= i < budgets.len() && (#[trigger] budgets[i]).month == b;
                assert(budgets[i].month >= a);
            } else {
                let i = choose|i: int|
                    0 <= i < spending.len() && (#[trigger] spending[i]).month == b;
                assert(spending[i].month >= a);
            }
            if exists|i: int| 0 <= i < budgets.len() && (#[trigger] budgets[i]).month == a {
                let i = choose|i: int| 0 <= i < budgets.len() && (#[trigger] budgets[i]).month == a;
                assert(budgets[i].month >= b);
            } else if exists|i: int| 0 <= i < spending.len() && (#[trigger] spending[i]).month == a {
                let i = choose|i: int|
                    0 <= i < spending.len() && (#[trigger] spending[i]).month == a;
                assert(spending[i].month >= b);
            }
        }
    } else {
        assert(a == month) by {
            if a < month {
                if exists|i: int| 0 <= i < budgets.len() && (#[trigger] budgets[i]).month == a {
                    let i = choose|i: int|
                        0 <= i < budgets.len() && (#[trigger] budgets[i]).month == a;
                    assert(budgets[i].month >= b);
                } else {
                    let i = choose|i: int|
                        0 <= i < spending.len() && (#[trigger] spending[i]).month == a;
                    assert(spending[i].month >= b);
                }
            }
        }
        lookups_find_what_counts(budgets, spending, id, month);
        assert(budgeted_in(budgets, id, month) == 0) by {
            if exists|i: int| #[trigger] counts_for(budgets, id, month, i) {
                let i = choose|i: int| #[trigger] counts_for(budgets, id, month, i);
                assert(budgets[i].month >= b);
            }
        }
        assert(spent_in(spending, id, month) == 0) by {
            assert forall|i: int| 0 <= i < spending.len() implies (#[trigger] spending[i]).category
                != id || spending[i].month != month by {
                assert(spending[i].month >= b);
            }
        }
        assert(balance(budgets, spending, id, a, month) == Some(0int));
        assert(balance(budgets, spending, id, b, month) == Some(0int));
    }
}

/// These positions are all of the first `n`, each once.
pub open spec fn arranges(order: Seq<int>, n: nat) -> bool {
    &&& order.len() == n
    &&& forall|i: int| 0 <= i < n ==> 0 <= #[trigger] order[i] < n
    &&& forall|i: int, j: int|
        0 <= i < j < n ==> #[trigger] order[i] != #[trigger] order[j]
}

/// The report holds every envelope once, by group and by category within it.
pub proof fn a_report_is_by_group_and_category(rows: Seq<Envelope>)
    ensures
        exists|order: Seq<int>|
            #[trigger] arranges(order, rows.len()) && by_group(rows).len() == rows.len() && forall|
                i: int,
            |
                0 <= i < rows.len() ==> #[trigger] by_group(rows)[i] == rows[order[i]],
        forall|i: int, j: int|
            0 <= i < j < by_group(rows).len() ==> text_less(
                (#[trigger] by_group(rows)[i]).group,
                (#[trigger] by_group(rows)[j]).group,
            ) || (by_group(rows)[i].group == by_group(rows)[j].group && !text_less(
                by_group(rows)[j].category,
                by_group(rows)[i].category,
            )),
{
    let keys = rows.map_values(|e: Envelope| Rank { rank: 0, major: e.group, minor: e.category });
    let order = stable_order(keys);
    a_stable_order_exists(keys);
    orders_are_arrangements(keys, order);
    let out = by_group(rows);
    assert forall|i: int| 0 <= i < rows.len() implies #[trigger] out[i] == rows[order[i]] by {}
    assert forall|i: int, j: int| 0 <= i < j < out.len() implies text_less(
        (#[trigger] out[i]).group,
        (#[trigger] out[j]).group,
    ) || (out[i].group == out[j].group && !text_less(out[j].category, out[i].category)) by {
        assert(precedes(keys, order[i], order[j]));
        text_order_is_total(out[i].category, out[j].category);
    }
}

proof fn orders_are_arrangements(keys: Seq<Rank>, order: Seq<int>)
    requires
        sorts(keys, 0, keys.len() as int, order),
    ensures
        arranges(order, keys.len()),
{
    assert forall|i: int, j: int| 0 <= i < j < order.len() implies #[trigger] order[i]
        != #[trigger] order[j] by {
        let k = keys[order[i]];
        text_order_is_total(k.major, k.major);
        text_order_is_total(k.minor, k.minor);
        assert(precedes(keys, order[i], order[j]));
    }
}

/// What came in holds every receipt once, by category.
pub proof fn receipts_are_by_category(rows: Seq<Received>)
    ensures
        exists|order: Seq<int>|
            #[trigger] arranges(order, rows.len()) && by_category(rows).len() == rows.len()
                && forall|i: int|
                0 <= i < rows.len() ==> #[trigger] by_category(rows)[i] == rows[order[i]],
        forall|i: int, j: int|
            0 <= i < j < by_category(rows).len() ==> !text_less(
                (#[trigger] by_category(rows)[j]).category,
                (#[trigger] by_category(rows)[i]).category,
            ),
{
    let keys = rows.map_values(
        |e: Received| Rank { rank: 0, major: e.category, minor: Seq::empty() },
    );
    let order = stable_order(keys);
    a_stable_order_exists(keys);
    orders_are_arrangements(keys, order);
    let out = by_category(rows);
    assert forall|i: int| 0 <= i < rows.len() implies #[trigger] out[i] == rows[order[i]] by {}
    assert forall|i: int, j: int| 0 <= i < j < out.len() implies !text_less(
        (#[trigger] out[j]).category,
        (#[trigger] out[i]).category,
    ) by {
        assert(precedes(keys, order[i], order[j]));
        text_order_is_total(out[i].category, out[j].category);
    }
}

/// The income categories through which anything went in a month.
pub open spec fn earning_headings(
    categories: Seq<Heading>,
    spending: Seq<Flowed>,
    month: nat,
) -> Seq<Heading> {
    categories.filter(|c: Heading| c.is_income && !is_spent(spending, c.id, month, 0))
}

/// What came in is what went through the income categories in the month asked
/// for: each of them through which anything went is listed with it, and no
/// other.
pub proof fn a_receipt_tells_of_its_month(
    categories: Seq<Heading>,
    spending: Seq<Flowed>,
    month: nat,
)
    ensures
        receipts(categories, spending, month).len() == earning_headings(
            categories,
            spending,
            month,
        ).len(),
        forall|i: int|
            0 <= i < receipts(categories, spending, month).len() ==> (#[trigger] receipts(
                categories,
                spending,
                month,
            )[i]).category == earning_headings(categories, spending, month)[i].name && is_spent(
                spending,
                earning_headings(categories, spending, month)[i].id,
                month,
                receipts(categories, spending, month)[i].received,
            ),
    decreases categories.len(),
{
    reveal(Seq::filter);
    if categories.len() > 0 {
        let before = categories.drop_last();
        let c = categories.last();
        a_receipt_tells_of_its_month(before, spending, month);
        flows_are_found(spending, c.id, month);
        if is_spent(spending, c.id, month, 0) {
            what_is_spent_is_one(spending, c.id, month, spent_in(spending, c.id, month), 0);
        }
        let all = receipts(categories, spending, month);
        let earlier = receipts(before, spending, month);
        assert forall|i: int| 0 <= i < all.len() implies (#[trigger] all[i]).category
            == earning_headings(categories, spending, month)[i].name && is_spent(
            spending,
            earning_headings(categories, spending, month)[i].id,
            month,
            all[i].received,
        ) by {
            if i < earlier.len() {
                assert(all[i] == earlier[i]);
            }
        }
    }
}

proof fn what_is_spent_is_one(
    spending: Seq<Flowed>,
    id: Seq<char>,
    month: nat,
    a: int,
    b: int,
)
    requires
        is_spent(spending, id, month, a),
        is_spent(spending, id, month, b),
    ensures
        a == b,
{
    if exists|i: int|
        0 <= i < spending.len() && (#[trigger] spending[i]).category == id && spending[i].month
            == month {
        let i = choose|i: int|
            0 <= i < spending.len() && (#[trigger] spending[i]).category == id && spending[i].month
                == month && spending[i].amount == a && forall|j: int|
                i < j < spending.len() ==> (#[trigger] spending[j]).category != id
                    || spending[j].month != month;
        let k = choose|k: int|
            0 <= k < spending.len() && (#[trigger] spending[k]).category == id && spending[k].month
                == month && spending[k].amount == b && forall|j: int|
                k < j < spending.len() ==> (#[trigger] spending[j]).category != id
                    || spending[j].month != month;
        if i < k {
            assert(spending[k].category != id || spending[k].month != month);
        } else if k < i {
            assert(spending[i].category != id || spending[i].month != month);
        }
    }
}

/// What a budget is made of shows what it holds.
pub proof fn contents_are_as_given(
    c: Category,
    a: Allotment,
    f: Flow,
    e: CategoryBudget,
    i: IncomeTotal,
)
    ensures
        c@.id == c.id@,
        c@.name == c.name@,
        c@.group == c.group@,
        c@.is_income == c.is_income,
        a@.category == a.category@,
        a@.month == a.month@,
        a@.amount == a.amount@,
        a@.carryover == a.carryover,
        f@.category == f.category@,
        f@.month == f.month@,
        f@.amount == f.amount@,
        e@.category == e.category@,
        e@.group == e.group@,
        e@.budgeted == e.budgeted@,
        e@.spent == e.spent@,
        e@.balance == e.balance@,
        i@.category == i.category@,
        i@.received == i.received@,
{
}

/// A number without its sign.
pub open spec fn size(n: int) -> int {
    if n < 0 {
        -n
    } else {
        n
    }
}

/// What was set aside up to a month, without signs, together.
pub open spec fn set_aside_size(budgets: Seq<Allotted>, month: nat) -> int
    decreases budgets.len(),
{
    if budgets.len() == 0 {
        0
    } else {
        set_aside_size(budgets.drop_last(), month) + (if budgets.last().month <= month {
            size(budgets.last().amount)
        } else {
            0
        })
    }
}

/// What flowed up to a month, without signs, together.
pub open spec fn flow_size(spending: Seq<Flowed>, month: nat) -> int
    decreases spending.len(),
{
    if spending.len() == 0 {
        0
    } else {
        flow_size(spending.drop_last(), month) + (if spending.last().month <= month {
            size(spending.last().amount)
        } else {
            0
        })
    }
}

/// Budgets that stay small are never refused: where everything up to a month
/// fits an `i64` without its signs, there is a balance for every category, and
/// none is larger than that.
pub proof fn small_budgets_are_never_refused(
    categories: Seq<Heading>,
    budgets: Seq<Allotted>,
    spending: Seq<Flowed>,
    month: nat,
)
    requires
        set_aside_size(budgets, month) + flow_size(spending, month) <= i64::MAX,
    ensures
        envelopes(categories, budgets, spending, month) matches Some(all) && forall|i: int|
            0 <= i < all.len() ==> size((#[trigger] all[i]).balance) <= set_aside_size(
                budgets,
                month,
            ) + flow_size(spending, month),
    decreases categories.len(),
{
    if categories.len() > 0 {
        small_budgets_are_never_refused(categories.drop_last(), budgets, spending, month);
        let start = first_month(budgets, spending, month);
        balances_are_bounded(budgets, spending, categories.last().id, start, month);
    }
}

proof fn balances_are_bounded(
    budgets: Seq<Allotted>,
    spending: Seq<Flowed>,
    id: Seq<char>,
    start: nat,
    month: nat,
)
    requires
        set_aside_size(budgets, month) + flow_size(spending, month) <= i64::MAX,
    ensures
        balance(budgets, spending, id, start, month) matches Some(left) && size(left)
            <= set_aside_size(budgets, month) + flow_size(spending, month),
    decreases month,
{
    let before = month_before(month);
    one_month_is_set_aside(budgets, id, month, before);
    one_month_flows(spending, id, month, before);
    if month > start && month != 0 {
        balances_are_bounded(budgets, spending, id, start, before);
    }
}

proof fn one_month_is_set_aside(budgets: Seq<Allotted>, id: Seq<char>, month: nat, before: nat)
    ensures
        size(budgeted_in(budgets, id, month)) <= set_aside_size(budgets, month),
        before < month ==> set_aside_size(budgets, before) + size(budgeted_in(budgets, id, month))
            <= set_aside_size(budgets, month),
        0 <= set_aside_size(budgets, before) && 0 <= set_aside_size(budgets, month),
    decreases budgets.len(),
{
    if budgets.len() > 0 {
        one_month_is_set_aside(budgets.drop_last(), id, month, before);
    }
}

proof fn one_month_flows(spending: Seq<Flowed>, id: Seq<char>, month: nat, before: nat)
    ensures
        size(spent_in(spending, id, month)) <= flow_size(spending, month),
        before < month ==> flow_size(spending, before) + size(spent_in(spending, id, month))
            <= flow_size(spending, month),
        0 <= flow_size(spending, before) && 0 <= flow_size(spending, month),
    decreases spending.len(),
{
    if spending.len() > 0 {
        one_month_flows(spending.drop_last(), id, month, before);
    }
}

/// A budget that is found is made of three answers: what it is about, what was
/// set aside up to its month, and what flowed up to its month in its scope.
pub proof fn a_budget_is_made_of_three_answers(
    conn: &Connection,
    month: nat,
    scope: Scope,
    found: MonthlyBudget,
)
    requires
        budget_found(conn, month, scope, Ok(found)),
    ensures
        exists|
            about: Seq<Seq<Cell>>,
            given: Seq<Seq<Cell>>,
            flowing: Seq<Seq<Cell>>,
            none: Seq<Cell>,
            until: Seq<Cell>,
        |
            {
                &&& none.len() == 0
                &&& until == seq![Cell::Integer(month as int)]
                &&& #[trigger] answered(conn, headings_select().text(), none, about)
                &&& #[trigger] answered(conn, allotments_select().text(), until, given)
                &&& #[trigger] answered(conn, flows_select(scope).text(), until, flowing)
                &&& headings(about) is Ok && allotments(given, month) is Ok && flows(
                    flowing,
                    month,
                ) is Ok
                &&& envelopes(
                    headings(about)->Ok_0,
                    allotments(given, month)->Ok_0,
                    flows(flowing, month)->Ok_0,
                    month,
                ) matches Some(all) && views(found.categories@) == by_group(all)
                &&& views(found.income@) == by_category(
                    receipts(headings(about)->Ok_0, flows(flowing, month)->Ok_0, month),
                )
            },
        exists|none: Seq<Cell>, n: int| #[trigger]
            looked_up(conn, tracking_select().text(), none, Some(Cell::Integer(n))) && none.len()
                == 0 && found.uses_tracking_budget == (n > 0),
{
    let anything = |column: Seq<char>|
        if column == "t.date"@ {
            Cell::Integer(0)
        } else {
            Cell::Null
        };
    a_budget_goes_by_what_was_set_aside(anything, month);
    flows_are_of_every_row_that_counts(scope, anything, month, 0);
    let (categories, budgets, spending) = choose|
        categories: Seq<Heading>,
        budgets: Seq<Allotted>,
        spending: Seq<Flowed>,
    | #[trigger]
        budget_answers(conn, month, scope, categories, budgets, spending) && match (envelopes(
            categories,
            budgets,
            spending,
            month,
        )) {
            Some(all) => views(found.categories@) == by_group(all) && views(found.income@)
                == by_category(receipts(categories, spending, month)),
            None => false,
        };
    let none = Seq::<Cell>::empty();
    let until = up_to(month);
    let about = choose|rows: Seq<Seq<Cell>>| #[trigger]
        answered(conn, CATEGORIES@, none, rows) && headings(rows) == Ok::<Seq<Heading>, nat>(
            categories,
        );
    let given = choose|rows: Seq<Seq<Cell>>| #[trigger]
        answered(conn, BUDGETS@, until, rows) && allotments(rows, month) == Ok::<
            Seq<Allotted>,
            nat,
        >(budgets);
    let flowing = choose|rows: Seq<Seq<Cell>>| #[trigger]
        answered(conn, flows_sql(scope), until, rows) && flows(rows, month) == Ok::<
            Seq<Flowed>,
            nat,
        >(spending);
    assert(answered(conn, headings_select().text(), none, about));
    assert(answered(conn, allotments_select().text(), until, given));
    assert(answered(conn, flows_select(scope).text(), until, flowing));
    let cell = choose|cell: Option<Cell>| #[trigger]
        looked_up(conn, TRACKING@, none, cell) && match first_number(cell) {
            Some(n) => found.uses_tracking_budget == (n > 0),
            None => false,
        };
    let n = first_number(cell)->0;
    assert(cell == Some(Cell::Integer(n)));
}

/// A report is of every category that is not income, each with what it was given
/// and what went through it in the month, and of every income category that
/// received something.
pub proof fn a_report_tells_of_every_category(
    categories: &Vec<Category>,
    budgets: &Vec<Allotment>,
    spending: &Vec<Flow>,
    month: BudgetMonth,
    rows: Vec<CategoryBudget>,
    income: Vec<IncomeTotal>,
)
    requires
        call_ensures(report, (categories, budgets, spending, month), Some((rows, income))),
    ensures
        envelopes(
            views(categories@),
            views(budgets@),
            views(spending@),
            month@,
        ) matches Some(all) && views(rows@) == by_group(all),
        views(income@) == by_category(receipts(views(categories@), views(spending@), month@)),
        rows@.len() == spending_headings(views(categories@)).len(),
{
    an_envelope_tells_of_its_month(
        views(categories@),
        views(budgets@),
        views(spending@),
        month@,
    );
    let all = envelopes(views(categories@), views(budgets@), views(spending@), month@)->0;
    a_stable_order_exists(
        all.map_values(|e: Envelope| Rank { rank: 0, major: e.group, minor: e.category }),
    );
    assert(views(rows@).len() == rows@.len());
}

/// A report that stays small is never refused.
pub proof fn a_small_report_is_never_refused(
    categories: &Vec<Category>,
    budgets: &Vec<Allotment>,
    spending: &Vec<Flow>,
    month: BudgetMonth,
    r: Option<(Vec<CategoryBudget>, Vec<IncomeTotal>)>,
)
    requires
        call_ensures(report, (categories, budgets, spending, month), r),
        set_aside_size(views(budgets@), month@) + flow_size(views(spending@), month@) <= i64::MAX,
    ensures
        r is Some,
{
    small_budgets_are_never_refused(
        views(categories@),
        views(budgets@),
        views(spending@),
        month@,
    );
}

} // verus!
