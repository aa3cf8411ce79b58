use actual_mcp::domain::{BudgetDate, Money};
use actual_mcp::queries::scope::TxScope;
use actual_mcp::queries::transactions::{
    checked_split_totals, spending_by_category, split_totals, CategoryTotal, UNCATEGORISED,
};
use rusqlite::Connection;

/// A miniature budget with one of everything the scope rules care about.
fn db() -> Connection {
    let c = Connection::open_in_memory().unwrap();
    c.execute_batch(
        "CREATE TABLE accounts (id TEXT PRIMARY KEY, name TEXT, offbudget INTEGER DEFAULT 0,
                                closed INTEGER DEFAULT 0, tombstone INTEGER DEFAULT 0);
         CREATE TABLE categories (id TEXT PRIMARY KEY, name TEXT, is_income INTEGER DEFAULT 0,
                                  tombstone INTEGER DEFAULT 0);
         CREATE TABLE payees (id TEXT PRIMARY KEY, name TEXT, transfer_acct TEXT);
         CREATE TABLE transactions (id TEXT PRIMARY KEY, acct TEXT, category TEXT, amount INTEGER,
                                    date INTEGER, is_parent INTEGER DEFAULT 0,
                                    starting_balance_flag INTEGER DEFAULT 0,
                                    transfer_id TEXT, payee TEXT, tombstone INTEGER DEFAULT 0);
         -- stands in for the real view, with the same column names
         CREATE VIEW v_transactions AS
           SELECT _.id, _.acct AS account, _.category, _.amount, _.date, _.is_parent,
                  _.starting_balance_flag, _.transfer_id, _.payee
           FROM transactions _ WHERE _.tombstone = 0;

         INSERT INTO accounts (id, name, offbudget) VALUES
           ('on', 'Checking', 0), ('on2', 'Savings', 0), ('off', '401k', 1);
         -- transfer payees: one pointing at an on-budget account, one off-budget
         INSERT INTO payees (id, name, transfer_acct) VALUES
           ('to_on2', 'Savings', 'on2'), ('to_off', '401k', 'off');
         INSERT INTO categories (id, name, is_income) VALUES
           ('groc', 'Groceries', 0), ('pay', 'Salary', 1);",
    )
    .unwrap();
    c
}

fn insert(c: &Connection, id: &str, acct: &str, cat: Option<&str>, amount: i64, date: u32) {
    c.execute(
        "INSERT INTO transactions (id, acct, category, amount, date) VALUES (?1,?2,?3,?4,?5)",
        (id, acct, cat, amount, date),
    )
    .unwrap();
}

fn run(c: &Connection, from: u32, to: u32) -> Vec<CategoryTotal> {
    spending_by_category(
        c,
        BudgetDate::from_int(from).unwrap(),
        BudgetDate::from_int(to).unwrap(),
        TxScope::spending(),
    )
    .unwrap()
}

fn find<'a>(rows: &'a [CategoryTotal], name: &str) -> Option<&'a CategoryTotal> {
    rows.iter().find(|r| r.category == name)
}

#[test]
fn groups_and_sums_by_category() {
    let c = db();
    insert(&c, "t1", "on", Some("groc"), -1000, 20260815);
    insert(&c, "t2", "on", Some("groc"), -500, 20260816);
    insert(&c, "t3", "on", Some("pay"), 250_000, 20260801);

    let rows = run(&c, 20260801, 20260831);

    let groceries = find(&rows, "Groceries").expect("groceries");
    assert_eq!(groceries.total, Money::from_cents(-1500));
    assert_eq!(groceries.transaction_count, 2);
    assert!(!groceries.is_income);

    let salary = find(&rows, "Salary").expect("salary");
    assert_eq!(salary.total, Money::from_cents(250_000));
    assert!(salary.is_income);
}

/// the buckets must sum to the whole, so uncategorised can't vanish.
#[test]
fn uncategorised_gets_its_own_bucket() {
    let c = db();
    insert(&c, "t1", "on", Some("groc"), -1000, 20260815);
    insert(&c, "t2", "on", None, -700, 20260816);

    let rows = run(&c, 20260801, 20260831);
    assert_eq!(
        find(&rows, UNCATEGORISED).unwrap().total,
        Money::from_cents(-700)
    );

    let totals: Vec<Money> = rows.iter().map(|r| r.total).collect();
    let sum = Money::sum(&totals);
    assert_eq!(sum, Money::from_cents(-1700));
}

#[test]
fn the_date_range_is_inclusive_at_both_ends() {
    let c = db();
    insert(&c, "t1", "on", Some("groc"), -100, 20260801);
    insert(&c, "t2", "on", Some("groc"), -200, 20260831);
    insert(&c, "t3", "on", Some("groc"), -400, 20260731);
    insert(&c, "t4", "on", Some("groc"), -800, 20260901);

    let rows = run(&c, 20260801, 20260831);
    assert_eq!(
        find(&rows, "Groceries").unwrap().total,
        Money::from_cents(-300)
    );
}

#[test]
fn transfers_are_excluded() {
    let c = db();
    insert(&c, "t1", "on", Some("groc"), -1000, 20260815);
    // a transfer between two on-budget accounts: not spending
    c.execute(
        "INSERT INTO transactions (id, acct, category, amount, date, transfer_id, payee)
         VALUES ('t2','on','groc',-9999,20260815,'other-side','to_on2')",
        [],
    )
    .unwrap();

    assert_eq!(
        find(&run(&c, 20260801, 20260831), "Groceries")
            .unwrap()
            .total,
        Money::from_cents(-1000)
    );
}

/// Moving money to an off-budget account is money *leaving* the budget, and
/// Actual counts it against whatever category it carries. Excluding it
/// understates spending for anyone who contributes to a brokerage or
/// retirement account from a budgeted one.
#[test]
fn a_transfer_to_an_offbudget_account_is_spending() {
    let c = db();
    insert(&c, "t1", "on", Some("groc"), -1000, 20260815);
    c.execute(
        "INSERT INTO transactions (id, acct, category, amount, date, transfer_id, payee)
         VALUES ('t2','on','groc',-500,20260815,'other-side','to_off')",
        [],
    )
    .unwrap();

    assert_eq!(
        find(&run(&c, 20260801, 20260831), "Groceries")
            .unwrap()
            .total,
        Money::from_cents(-1500),
        "a contribution to an off-budget account counts as spending"
    );
}

#[test]
fn offbudget_accounts_are_excluded() {
    let c = db();
    insert(&c, "t1", "on", Some("groc"), -1000, 20260815);
    insert(&c, "t2", "off", Some("groc"), -50_000, 20260815);

    assert_eq!(
        find(&run(&c, 20260801, 20260831), "Groceries")
            .unwrap()
            .total,
        Money::from_cents(-1000)
    );
}

#[test]
fn split_parents_are_excluded() {
    let c = db();
    insert(&c, "t1", "on", Some("groc"), -1000, 20260815);
    c.execute(
        "INSERT INTO transactions (id, acct, category, amount, date, is_parent)
         VALUES ('p','on','groc',-1000,20260815,1)",
        [],
    )
    .unwrap();

    assert_eq!(
        find(&run(&c, 20260801, 20260831), "Groceries")
            .unwrap()
            .total,
        Money::from_cents(-1000),
        "the parent must not double the children"
    );
}

#[test]
fn an_empty_range_returns_no_rows_rather_than_failing() {
    let c = db();
    insert(&c, "t1", "on", Some("groc"), -1000, 20260815);
    assert!(run(&c, 20260101, 20260131).is_empty());
}

fn total(name: &str, is_income: bool, cents: i64) -> CategoryTotal {
    CategoryTotal {
        category: name.to_string(),
        is_income,
        total: Money::from_cents(cents),
        transaction_count: 1,
    }
}

#[test]
fn totals_split_on_the_income_flag() {
    let rows = [
        total("Groceries", false, -78_376),
        total("Dining", false, -50_578),
        total("Salary", true, 236_406),
    ];
    let (spending, income) = split_totals(&rows);
    assert_eq!(spending, Money::from_cents(-128_954));
    assert_eq!(income, Money::from_cents(236_406));
}

/// The reason this is not classified by sign. A month where medical
/// reimbursements exceed medical spending must not turn Medical into
/// income and quietly remove its outgoings from the spending total.
#[test]
fn a_spending_category_that_nets_positive_is_still_spending() {
    let rows = [
        total("Groceries", false, -10_000),
        total("Medical", false, 15_000), // big reimbursement month
    ];
    let (spending, income) = split_totals(&rows);
    assert_eq!(
        spending,
        Money::from_cents(5_000),
        "both belong to spending"
    );
    assert_eq!(income, Money::zero(), "neither is an income category");
}

#[test]
fn an_income_category_that_nets_negative_is_still_income() {
    let rows = [total("Salary", true, -500)];
    let (spending, income) = split_totals(&rows);
    assert_eq!(spending, Money::zero());
    assert_eq!(income, Money::from_cents(-500));
}

#[test]
fn no_categories_totals_to_zero() {
    let (spending, income) = split_totals(&[]);
    assert_eq!(spending, Money::zero());
    assert_eq!(income, Money::zero());
}

#[test]
fn spending_and_income_make_the_whole() {
    let rows = [
        total("Groceries", false, -78_376),
        total("Salary", true, 236_406),
        total("Medical", false, 15_000),
    ];
    let (spending, income) = split_totals(&rows);
    let all: Vec<Money> = rows.iter().map(|r| r.total).collect();
    assert_eq!(spending + income, Money::sum(&all));
    assert_eq!(checked_split_totals(&rows), Some((spending, income)));
    let huge = [total("A", false, i64::MIN), total("B", false, -1)];
    assert_eq!(checked_split_totals(&huge), None);
}
