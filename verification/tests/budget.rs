use actual_mcp::domain::{BudgetMonth, Money};
use actual_mcp::queries::budget::{monthly_budget, CategoryBudget, MonthlyBudget};
use actual_mcp::queries::scope::TxScope;
use actual_mcp::store::sql::QueryError;
use rusqlite::Connection;

fn db() -> Connection {
    let c = Connection::open_in_memory().unwrap();
    c.execute_batch(
        "CREATE TABLE accounts (id TEXT PRIMARY KEY, name TEXT, offbudget INTEGER DEFAULT 0,
                                closed INTEGER DEFAULT 0, tombstone INTEGER DEFAULT 0);
         CREATE TABLE category_groups (id TEXT PRIMARY KEY, name TEXT);
         CREATE TABLE categories (id TEXT PRIMARY KEY, name TEXT, cat_group TEXT,
                                  is_income INTEGER DEFAULT 0, tombstone INTEGER DEFAULT 0);
         CREATE TABLE payees (id TEXT PRIMARY KEY, name TEXT, transfer_acct TEXT);
         CREATE TABLE transactions (id TEXT PRIMARY KEY, acct TEXT, category TEXT, amount INTEGER,
                                    date INTEGER, is_parent INTEGER DEFAULT 0,
                                    starting_balance_flag INTEGER DEFAULT 0,
                                    transfer_id TEXT, payee TEXT, tombstone INTEGER DEFAULT 0);
         CREATE VIEW v_transactions AS
           SELECT _.id, _.acct AS account, _.category, _.amount, _.date, _.is_parent,
                  _.starting_balance_flag, _.transfer_id, _.payee
           FROM transactions _ WHERE _.tombstone = 0;
         CREATE TABLE zero_budgets (id TEXT PRIMARY KEY, month INTEGER, category TEXT,
                                    amount INTEGER DEFAULT 0, carryover INTEGER DEFAULT 0);
         CREATE TABLE reflect_budgets (id TEXT PRIMARY KEY, month INTEGER, category TEXT,
                                       amount INTEGER DEFAULT 0);

         INSERT INTO accounts (id, name) VALUES ('on', 'Checking');
         INSERT INTO category_groups (id, name) VALUES ('g1', 'Regular Expense');
         INSERT INTO categories (id, name, cat_group, is_income) VALUES
           ('groc', 'Groceries', 'g1', 0),
           ('pay',  'Salary',    'g1', 1);",
    )
    .unwrap();
    c
}

fn budgeted(c: &Connection, cat: &str, month: u32, cents: i64, carryover: bool) {
    c.execute(
        "INSERT INTO zero_budgets (id, month, category, amount, carryover)
         VALUES (?1, ?2, ?3, ?4, ?5)",
        (
            format!("{cat}-{month}"),
            month,
            cat,
            cents,
            carryover as i64
        ),
    )
    .unwrap();
}

fn spend(c: &Connection, id: &str, cat: &str, cents: i64, date: u32) {
    c.execute(
        "INSERT INTO transactions (id, acct, category, amount, date) VALUES (?1,'on',?2,?3,?4)",
        (id, cat, cents, date),
    )
    .unwrap();
}

fn august(c: &Connection) -> MonthlyBudget {
    monthly_budget(
        c,
        BudgetMonth::from_int(202608).unwrap(),
        TxScope::spending(),
    )
    .unwrap()
}

fn groceries(b: &MonthlyBudget) -> &CategoryBudget {
    b.categories
        .iter()
        .find(|c| c.category == "Groceries")
        .unwrap()
}

#[test]
fn balance_is_budgeted_plus_spent_with_no_history() {
    let c = db();
    budgeted(&c, "groc", 202608, 70_000, false);
    spend(&c, "t1", "groc", -78_376, 20260815);

    let b = august(&c); // bind: `groceries` borrows from it
    let g = groceries(&b);
    assert_eq!(g.budgeted, Money::from_cents(70_000));
    assert_eq!(g.spent, Money::from_cents(-78_376));
    assert_eq!(g.balance, Money::from_cents(-8_376));
    assert_eq!(g.group, "Regular Expense");
}

/// A surplus in one month offsets an overspend in the next. Easy to miss,
/// because the balance then disagrees with `budgeted + spent`.
#[test]
fn a_surplus_carries_into_the_next_month() {
    let c = db();
    budgeted(&c, "groc", 202607, 10_000, false);
    spend(&c, "t1", "groc", -4_000, 20260715); // +6,000 left over
    budgeted(&c, "groc", 202608, 10_000, false);
    spend(&c, "t2", "groc", -12_000, 20260815);

    assert_eq!(
        groceries(&august(&c)).balance,
        Money::from_cents(4_000),
        "6,000 carried + 10,000 budgeted - 12,000 spent"
    );
}

/// Overspending is absorbed by the month it happened in, not inherited.
#[test]
fn an_overspend_does_not_carry_forward() {
    let c = db();
    budgeted(&c, "groc", 202607, 10_000, false);
    spend(&c, "t1", "groc", -15_000, 20260715); // -5,000
    budgeted(&c, "groc", 202608, 10_000, false);

    assert_eq!(
        groceries(&august(&c)).balance,
        Money::from_cents(10_000),
        "July's shortfall must not reduce August"
    );
}

/// ...unless the category is explicitly set to carry it.
#[test]
fn the_carryover_flag_makes_an_overspend_carry() {
    let c = db();
    budgeted(&c, "groc", 202607, 10_000, true);
    spend(&c, "t1", "groc", -15_000, 20260715);
    budgeted(&c, "groc", 202608, 10_000, true);

    assert_eq!(groceries(&august(&c)).balance, Money::from_cents(5_000));
}

#[test]
fn income_is_reported_separately_and_never_budgeted() {
    let c = db();
    spend(&c, "t1", "pay", 236_406, 20260801);

    let b = august(&c);
    assert!(b.categories.iter().all(|c| c.category != "Salary"));
    assert_eq!(b.income.len(), 1);
    assert_eq!(b.income[0].category, "Salary");
    assert_eq!(b.income[0].received, Money::from_cents(236_406));
}

/// say so rather than quietly reporting zeros.
#[test]
fn tracking_budget_data_is_flagged() {
    let c = db();
    assert!(!august(&c).uses_tracking_budget);

    c.execute(
        "INSERT INTO reflect_budgets (id, month, category, amount) VALUES ('r1', 202608, 'groc', 100)",
        [],
    )
    .unwrap();
    assert!(august(&c).uses_tracking_budget);
}

#[test]
fn later_months_do_not_leak_into_the_balance() {
    let c = db();
    budgeted(&c, "groc", 202608, 10_000, false);
    budgeted(&c, "groc", 202609, 99_999, false);
    spend(&c, "t1", "groc", -4_000, 20260915);

    let b = august(&c);
    let g = groceries(&b);
    assert_eq!(g.budgeted, Money::from_cents(10_000));
    assert_eq!(g.spent, Money::zero());
    assert_eq!(g.balance, Money::from_cents(10_000));
}

#[test]
fn rows_are_sorted_by_group_and_category() {
    let c = db();
    c.execute_batch(
        "INSERT INTO category_groups (id, name) VALUES ('g0', 'A Group');
         INSERT INTO categories (id, name, cat_group, is_income) VALUES
           ('z', 'Zoo', 'g0', 0), ('a', 'Art', 'g0', 0), ('gift', 'Gifts', 'g0', 1);",
    )
    .unwrap();
    spend(&c, "t1", "pay", 1, 20260801);
    spend(&c, "t2", "gift", 2, 20260801);
    let b = august(&c);
    let names: Vec<&str> = b.categories.iter().map(|r| r.category.as_str()).collect();
    assert_eq!(names, ["Art", "Zoo", "Groceries"]);
    let income: Vec<&str> = b.income.iter().map(|r| r.category.as_str()).collect();
    assert_eq!(income, ["Gifts", "Salary"]);
}

#[test]
fn a_surplus_survives_months_without_any_entry() {
    let c = db();
    budgeted(&c, "groc", 202511, 10_000, false);
    let b = august(&c);
    assert_eq!(groceries(&b).balance, Money::from_cents(10_000));
    assert_eq!(groceries(&b).budgeted, Money::zero());
}

#[test]
fn income_that_nets_to_nothing_is_left_out() {
    let c = db();
    spend(&c, "t1", "pay", 500, 20260801);
    spend(&c, "t2", "pay", -500, 20260802);
    assert!(august(&c).income.is_empty());
}

#[test]
fn a_balance_out_of_range_is_told() {
    let c = db();
    budgeted(&c, "groc", 202607, i64::MAX, false);
    budgeted(&c, "groc", 202608, 1, false);
    let r = monthly_budget(&c, BudgetMonth::from_int(202608).unwrap(), TxScope::spending());
    assert!(matches!(r, Err(QueryError::Overflow)));
}
