use actual_mcp::actual::error::ActualError;
use actual_mcp::actual::messages::{CrdtValue, SyncMessage};
use actual_mcp::actual::model::{Metadata, Snapshot, UserFile};
use actual_mcp::config::Config;
use actual_mcp::domain::{BudgetDate, BudgetMonth, Money};
use actual_mcp::error::{StartupError, ToolError, INTERNAL_ERROR, INVALID_PARAMS};
use actual_mcp::mcp::server::{group_id_of, next_clock, BudgetServer, Refresh};
use actual_mcp::mcp::tools::freshness::GetDataFreshness;
use actual_mcp::mcp::tools::list_accounts::{self, ListAccounts};
use actual_mcp::mcp::tools::list_categories::{self, ListCategories};
use actual_mcp::mcp::tools::monthly_budget::{self, GetMonthlyBudget};
use actual_mcp::mcp::tools::query_transactions::{Input, Output, QueryTransactions};
use actual_mcp::mcp::tools::spending_by_category::{self, SpendingByCategory};
use actual_mcp::queries::scope::TxScope;
use actual_mcp::queries::transactions::{list, TxFilters};
use actual_mcp::store::error::StoreError;
use actual_mcp::store::freshness::{Freshness, Span, Timestamp};
use actual_mcp::store::replica::Replica;
use actual_mcp::store::sql::QueryError;
use rusqlite::types::Value;
use rusqlite::Connection;

/// Anything returning amounts has to say what the numbers mean, or the
/// model will guess at the sign and the units.
#[test]
fn tools_returning_money_state_their_units_and_sign() {
    for tool in BudgetServer::tools() {
        let returns_money = matches!(
            tool.name,
            "spending_by_category" | "get_monthly_budget" | "list_accounts" | "query_transactions"
        );
        if !returns_money {
            continue;
        }
        let d = tool.description.to_lowercase();
        assert!(d.contains("dollar"), "{} must state its units", tool.name);
        assert!(
            d.contains("negative"),
            "{} must state the sign convention",
            tool.name
        );
    }
}

/// Spending figures are scoped: transfers and off-budget accounts are left
/// out. A model that does not know that will present them as every dollar
/// that moved.
#[test]
fn spending_tools_disclose_what_they_exclude() {
    for tool in BudgetServer::tools() {
        if !matches!(tool.name, "spending_by_category" | "get_monthly_budget") {
            continue;
        }
        let d = tool.description.to_lowercase();
        assert!(
            d.contains("exclud") || d.contains("off-budget"),
            "{} must say what it leaves out",
            tool.name
        );
    }
}

/// Names and descriptions are the only documentation the model gets.
#[test]
fn tools_are_named_and_described() {
    let tools = BudgetServer::tools();
    assert_eq!(tools.len(), 6);
    for tool in &tools {
        assert!(tool.name.chars().all(|c| c.is_ascii_lowercase() || c == '_'), "{}", tool.name);
        assert!(tool.description.len() >= 120, "{}", tool.name);
    }
}

fn db() -> Connection {
    let c = Connection::open_in_memory().unwrap();
    c.execute_batch(
        "CREATE TABLE accounts (id TEXT PRIMARY KEY, name TEXT, offbudget INTEGER DEFAULT 0,
                                closed INTEGER DEFAULT 0, tombstone INTEGER DEFAULT 0,
                                sort_order REAL, type TEXT);
         CREATE TABLE category_groups (id TEXT PRIMARY KEY, name TEXT, hidden INTEGER DEFAULT 0,
                                       sort_order REAL, tombstone INTEGER DEFAULT 0);
         CREATE TABLE categories (id TEXT PRIMARY KEY, name TEXT, cat_group TEXT,
                                  is_income INTEGER DEFAULT 0, hidden INTEGER DEFAULT 0,
                                  sort_order REAL, tombstone INTEGER DEFAULT 0);
         CREATE VIEW v_categories AS SELECT id, name, tombstone FROM categories;
         CREATE TABLE payees (id TEXT PRIMARY KEY, name TEXT, transfer_acct TEXT,
                              tombstone INTEGER DEFAULT 0);
         CREATE VIEW v_payees AS SELECT id, name, tombstone FROM payees;
         CREATE TABLE transactions (id TEXT PRIMARY KEY, acct TEXT, category TEXT, amount INTEGER,
                                    date INTEGER, notes TEXT, payee TEXT, cleared INTEGER DEFAULT 0,
                                    sort_order REAL DEFAULT 0, is_parent INTEGER DEFAULT 0,
                                    starting_balance_flag INTEGER DEFAULT 0, transfer_id TEXT,
                                    tombstone INTEGER DEFAULT 0);
         CREATE VIEW v_transactions AS
           SELECT id, acct AS account, category, amount, date, notes, payee, cleared, sort_order,
                  is_parent, starting_balance_flag, transfer_id
           FROM transactions WHERE tombstone = 0;
         CREATE TABLE zero_budgets (id TEXT PRIMARY KEY, month INTEGER, category TEXT,
                                    amount INTEGER DEFAULT 0, carryover INTEGER DEFAULT 0);
         CREATE TABLE reflect_budgets (id TEXT PRIMARY KEY, month INTEGER, category TEXT,
                                       amount INTEGER DEFAULT 0);

         INSERT INTO accounts (id, name, offbudget, sort_order, type) VALUES
           ('on', 'Example Bank Checking', 0, 1, 'checking'),
           ('off', 'Retirement', 1, 2, '');
         INSERT INTO category_groups (id, name, sort_order) VALUES ('g1', 'Regular', 1);
         INSERT INTO categories (id, name, cat_group, is_income, sort_order) VALUES
           ('groc', 'Groceries', 'g1', 0, 1), ('pay', 'Salary', 'g1', 1, 2);
         INSERT INTO payees (id, name, transfer_acct) VALUES
           ('shop', 'Corner Shop', NULL), ('shop2', 'Corner Cafe', NULL), ('xfer', 'Savings', 'on');
         INSERT INTO transactions (id, acct, category, amount, date, notes, payee, cleared) VALUES
           ('t1', 'on', 'groc', -1000, 20260805, '50% off', 'shop', 1),
           ('t2', 'on', 'groc', -2500, 20260810, '50 % of it', 'shop', 0),
           ('t3', 'on', 'pay', 90000, 20260801, NULL, NULL, 1),
           ('t4', 'on', NULL, -700, 20260812, 'under_score', 'shop2', 0),
           ('t5', 'off', NULL, 5000, 20260815, NULL, NULL, 1);
         INSERT INTO transactions (id, acct, amount, date, payee, transfer_id) VALUES
           ('t6', 'on', -300, 20260811, 'xfer', 'other');
         INSERT INTO zero_budgets (id, month, category, amount) VALUES
           ('b1', 202608, 'groc', 5000);",
    )
    .unwrap();
    c
}

fn nothing() -> Input {
    Input {
        from: None,
        to: None,
        account: None,
        category: None,
        payee: None,
        min_amount: None,
        max_amount: None,
        notes_contains: None,
        include_transfers: None,
        limit: None,
    }
}

fn amounts(out: &Output) -> Vec<i64> {
    out.transactions.iter().map(|t| t.amount.cents()).collect()
}

fn text(s: &str) -> Option<String> {
    Some(s.to_string())
}

#[test]
fn transactions_come_newest_first() {
    let out = QueryTransactions::invoke(&db(), &nothing()).unwrap();
    assert_eq!(amounts(&out), [5000, -700, -300, -2500, -1000, 90000]);
    assert_eq!(out.total_matching, 6);
    assert!(!out.truncated);
    assert_eq!(out.note, None);
    let t = &out.transactions[4];
    assert_eq!(t.date, BudgetDate::from_int(20260805).unwrap());
    assert_eq!(t.payee.as_deref(), Some("Corner Shop"));
    assert_eq!(t.category.as_deref(), Some("Groceries"));
    assert_eq!(t.account, "Example Bank Checking");
    assert_eq!(t.notes.as_deref(), Some("50% off"));
    assert!(t.cleared && !t.is_transfer);
    assert!(out.transactions[2].is_transfer);
}

/// Any combination of filters: each finds the value that belongs to it.
#[test]
fn filters_combine_in_any_way() {
    let c = db();
    let all = Input {
        from: text("2026-08-01"),
        to: text(" 2026-08-31 "),
        account: text("checking"),
        category: text("groceries"),
        payee: text("shop"),
        min_amount: Some(Money::from_cents(-3000)),
        max_amount: Some(Money::from_cents(-500)),
        notes_contains: text("50%"),
        include_transfers: Some(false),
        limit: Some(10),
    };
    assert_eq!(amounts(&QueryTransactions::invoke(&c, &all).unwrap()), [-1000]);

    let narrowed = Input { notes_contains: text("50"), ..all };
    assert_eq!(amounts(&QueryTransactions::invoke(&c, &narrowed).unwrap()), [-2500, -1000]);

    let later = Input { from: text("2026-08-06"), ..narrowed };
    assert_eq!(amounts(&QueryTransactions::invoke(&c, &later).unwrap()), [-2500]);
}

#[test]
fn text_is_searched_literally_in_notes_and_payees() {
    let c = db();
    let find = |s: &str| {
        amounts(&QueryTransactions::invoke(&c, &Input { notes_contains: text(s), ..nothing() }).unwrap())
    };
    assert_eq!(find("50% off"), [-1000]);
    assert_eq!(find("r_s"), [-700]);
    assert_eq!(find("CORNER"), [-700, -2500, -1000]);
    assert!(find("50\\").is_empty());
}

#[test]
fn transfers_can_be_left_out() {
    let out =
        QueryTransactions::invoke(&db(), &Input { include_transfers: Some(false), ..nothing() })
            .unwrap();
    assert!(out.transactions.iter().all(|t| !t.is_transfer));
    assert_eq!(out.total_matching, 5);
}

#[test]
fn an_ambiguous_name_is_reported_and_not_guessed() {
    let out = QueryTransactions::invoke(
        &db(),
        &Input { payee: text("corner"), account: text("nowhere"), ..nothing() },
    )
    .unwrap();
    assert!(out.transactions.is_empty());
    assert_eq!(out.total_matching, 0);
    assert_eq!(
        out.note.as_deref(),
        Some(
            "No account matches \"nowhere\". \"corner\" matches several payees: \"Corner Cafe\", \
             \"Corner Shop\". Call again with one of these exact names."
        )
    );
}

#[test]
fn a_truncated_page_says_so() {
    let out = QueryTransactions::invoke(&db(), &Input { limit: Some(2), ..nothing() }).unwrap();
    assert_eq!(amounts(&out), [5000, -700]);
    assert!(out.truncated);
    assert_eq!(
        out.note.as_deref(),
        Some("Showing the 2 most recent of 6 matching transactions.")
    );
    let least = QueryTransactions::invoke(&db(), &Input { limit: Some(0), ..nothing() }).unwrap();
    assert_eq!(least.transactions.len(), 1);
}

fn argument(r: Result<Output, ToolError>) -> String {
    match r {
        Err(ToolError::BadArgument(message)) => message,
        other => panic!("expected BadArgument, got {other:?}"),
    }
}

#[test]
fn bad_periods_are_explained() {
    let ask = |from: &str, to: &str| {
        argument(QueryTransactions::invoke(
            &db(),
            &Input { from: text(from), to: text(to), ..nothing() },
        ))
    };
    assert_eq!(
        ask("08/01/2026", "2026-08-31"),
        "`from` must be an ISO 8601 date like 2026-08-01, got \"08/01/2026\""
    );
    assert_eq!(
        ask("2026-08-01", "later"),
        "`to` must be an ISO 8601 date like 2026-08-01, got \"later\""
    );
    assert_eq!(ask("2026-08-31", "2026-08-01"), "`from` (2026-08-31) is after `to` (2026-08-01)");
}

#[test]
fn pages_hold_what_the_filters_ask_for() {
    let c = db();
    let filters = TxFilters { account_id: text("off"), ..TxFilters::default() };
    let page = list(&c, &filters, TxScope::listing(), 5).unwrap();
    assert_eq!(page.total_matching, 1);
    assert_eq!(page.rows[0].amount, Money::from_cents(5000));
    let all = list(&c, &TxFilters::default(), TxScope::listing(), usize::MAX).unwrap();
    assert_eq!(all.rows.len(), 6);
}

#[test]
fn a_date_that_cannot_be_read_stands_at_the_epoch() {
    let c = db();
    c.execute("UPDATE transactions SET date = 99 WHERE id = 't5'", []).unwrap();
    let filters = TxFilters { account_id: text("off"), ..TxFilters::default() };
    let page = list(&c, &filters, TxScope::listing(), 5).unwrap();
    assert_eq!(page.rows[0].date, BudgetDate::epoch());
}

#[test]
fn a_cell_of_the_wrong_kind_is_named_by_its_column() {
    let c = db();
    c.execute("UPDATE transactions SET amount = 'lots' WHERE id = 't5'", []).unwrap();
    let filters = TxFilters { account_id: text("off"), ..TxFilters::default() };
    assert!(matches!(
        list(&c, &filters, TxScope::listing(), 5),
        Err(QueryError::Cell { column: 4 })
    ));
}

#[test]
fn accounts_add_up_to_the_net_worth() {
    let out =
        ListAccounts::invoke(&db(), &list_accounts::Input { include_closed: false }).unwrap();
    assert_eq!(out.accounts.len(), 2);
    assert_eq!(out.accounts[0].account_type.as_deref(), Some("checking"));
    assert_eq!(out.accounts[1].account_type, None);
    assert_eq!(out.on_budget_total, Money::from_cents(85_500));
    assert_eq!(out.off_budget_total, Money::from_cents(5_000));
    assert_eq!(out.net_worth, Money::from_cents(90_500));
}

#[test]
fn a_net_worth_that_does_not_fit_is_an_error() {
    let c = db();
    c.execute(
        "INSERT INTO transactions (id, acct, amount, date) VALUES ('big', 'off', ?1, 20260801)",
        [i64::MAX - 5000],
    )
    .unwrap();
    let r = ListAccounts::invoke(&c, &list_accounts::Input { include_closed: false });
    assert!(matches!(r, Err(ToolError::Internal(_))));
    assert_eq!(r.unwrap_err().reply().message, "internal error");
}

#[test]
fn categories_come_in_budget_order() {
    let out =
        ListCategories::invoke(&db(), &list_categories::Input { include_hidden: false }).unwrap();
    let names: Vec<&str> = out.categories.iter().map(|c| c.name.as_str()).collect();
    assert_eq!(names, ["Groceries", "Salary"]);
}

fn spending(from: &str, to: &str) -> Result<spending_by_category::Output, ToolError> {
    let param = spending_by_category::Input { from: from.to_string(), to: to.to_string() };
    SpendingByCategory::invoke(&db(), &param)
}

#[test]
fn spending_is_totalled_and_echoes_its_period() {
    let out = spending("2026-08-01", "2026-08-31").unwrap();
    assert_eq!(out.from.to_iso(), "2026-08-01");
    assert_eq!(out.to.to_iso(), "2026-08-31");
    let names: Vec<&str> = out.categories.iter().map(|c| c.category.as_str()).collect();
    assert_eq!(names, ["Groceries", "Uncategorised", "Salary"]);
    assert_eq!(out.total_spending, Money::from_cents(-4200));
    assert_eq!(out.total_income, Money::from_cents(90_000));
    assert_eq!(out.net, Money::from_cents(85_800));
    assert!(out.excludes.starts_with("Excludes transfers"));
}

#[test]
fn spending_takes_exact_dates_only() {
    let why = |from: &str, to: &str| match spending(from, to) {
        Err(ToolError::BadArgument(message)) => message,
        other => panic!("expected BadArgument, got {other:?}"),
    };
    assert_eq!(
        why(" 2026-08-01", "2026-08-31"),
        "`from` must be an ISO 8601 date like 2026-08-01, got \" 2026-08-01\""
    );
    assert_eq!(
        why("2026-08-01", ""),
        "`to` must be an ISO 8601 date like 2026-08-01, got \"\""
    );
    assert_eq!(why("2026-09-01", "2026-08-01"), "`from` (2026-09-01) is after `to` (2026-08-01)");
}

#[test]
fn a_month_is_budgeted_spent_and_left() {
    let c = db();
    let param = monthly_budget::Input { month: " 2026-08 ".to_string() };
    let out = GetMonthlyBudget::invoke(&c, &param).unwrap();
    assert_eq!(out.month, BudgetMonth::from_int(202608).unwrap());
    assert_eq!(out.total_budgeted, Money::from_cents(5000));
    assert_eq!(out.total_spent, Money::from_cents(-3500));
    assert_eq!(out.total_balance, Money::from_cents(1500));
    assert_eq!(out.total_income, Money::from_cents(90_000));
    assert_eq!(out.warning, None);

    c.execute("INSERT INTO reflect_budgets (id) VALUES ('r')", []).unwrap();
    let warned = GetMonthlyBudget::invoke(&c, &param).unwrap();
    assert!(warned.warning.unwrap().contains("tracking-budget"));
}

#[test]
fn a_month_has_to_be_a_month() {
    let param = monthly_budget::Input { month: "August".to_string() };
    match GetMonthlyBudget::invoke(&db(), &param) {
        Err(ToolError::BadArgument(message)) => assert_eq!(
            message,
            "`month` must be an ISO month like 2026-08, got \"August\""
        ),
        other => panic!("expected BadArgument, got {other:?}"),
    }
}

#[test]
fn a_balance_that_does_not_fit_is_an_error() {
    let c = db();
    c.execute("UPDATE zero_budgets SET amount = ?1", [i64::MAX]).unwrap();
    c.execute("UPDATE transactions SET amount = 1 WHERE category = 'groc'", []).unwrap();
    let param = monthly_budget::Input { month: "2026-08".to_string() };
    assert!(matches!(GetMonthlyBudget::invoke(&c, &param), Err(ToolError::Internal(_))));
}

#[test]
fn a_missing_table_is_a_failure_of_the_replica() {
    let c = Connection::open_in_memory().unwrap();
    let r = QueryTransactions::invoke(&c, &Input { account: text("x"), ..nothing() });
    assert!(matches!(
        r,
        Err(ToolError::Replica(StoreError::Sqlite(QueryError::Sqlite(_))))
    ));
}

#[test]
fn replies_keep_details_to_themselves() {
    let bad = ToolError::BadArgument("say when".to_string()).reply();
    assert_eq!((bad.code, bad.message.as_str()), (INVALID_PARAMS, "say when"));
    let lost = ToolError::Unavailable(ActualError::NoBudget).reply();
    assert_eq!(lost.code, INTERNAL_ERROR);
    assert_eq!(
        lost.message,
        "Budget data is unavailable: no budget file found on the Actual server"
    );
    let store = ToolError::Replica(StoreError::NoClock);
    assert_eq!(
        store.reply().message,
        "Budget data is unavailable: the local cache could not be read"
    );
    assert!(store.message().starts_with("budget data is unavailable: the replica has no stored clock"));
    let odd = ToolError::Internal("SELECT".to_string());
    assert_eq!(odd.reply().message, "internal error");
    assert_eq!(odd.message(), "internal error");
    assert_eq!(
        StartupError::NoGroupId.message(),
        "the selected budget has no group id; it may never have been synced"
    );
}

// ---- server ----

const CLOCK: &str = "2026-09-06T21:00:00.000Z-0000-aaaaaaaaaaaaaaaa";
const NEWER: &str = "2026-09-06T22:00:00.000Z-0000-aaaaaaaaaaaaaaaa";

fn as_real(bits: u64) -> Value {
    Value::Real(f64::from_bits(bits))
}

fn file(group: Option<&str>) -> UserFile {
    UserFile {
        file_id: "f".to_string(),
        group_id: group.map(String::from),
        name: "Budget".to_string(),
        encrypt_key_id: None,
        deleted: 0,
    }
}

fn server() -> BudgetServer {
    let conn = Connection::open_in_memory().unwrap();
    conn.execute_batch(
        "CREATE TABLE transactions (id TEXT PRIMARY KEY, amount INTEGER, date INTEGER,
                                    tombstone INTEGER DEFAULT 0);",
    )
    .unwrap();
    let snapshot = Snapshot {
        db_bytes: Vec::new(),
        metadata: Metadata {
            id: "i".to_string(),
            budget_name: "Budget".to_string(),
            cloud_file_id: "c".to_string(),
            group_id: None,
            last_synced_timestamp: text(CLOCK),
            reset_clock: false,
        },
    };
    let config = Config::from_vars(|key| match key {
        "ACTUAL_SERVER_URL" => text("http://h"),
        "ACTUAL_PASSWORD" => text("p"),
        "HOME" => text("/home/u"),
        _ => None,
    })
    .ok()
    .unwrap();
    BudgetServer {
        config,
        file: file(Some("g-1")),
        replica: Replica::install(conn, "r".to_string(), &snapshot).unwrap(),
    }
}

fn edit(timestamp: &str, dataset: &str) -> SyncMessage {
    SyncMessage {
        timestamp: timestamp.to_string(),
        dataset: dataset.to_string(),
        row: "t1".to_string(),
        column: "amount".to_string(),
        value: CrdtValue::Null,
    }
}

#[test]
fn a_refresh_fetches_since_the_clock_and_then_rests() {
    let mut s = server();
    let now = Timestamp::at(1_800_000_000);
    let since = match s.check(now).unwrap() {
        Refresh::Fetch { since } => since,
        other => panic!("expected Fetch, got {other:?}"),
    };
    assert_eq!(since, CLOCK);

    let fetched = Ok(vec![edit(NEWER, "transactions"), edit(CLOCK, "transactions")]);
    assert_eq!(s.finish(&since, fetched, now, &as_real).unwrap(), 2);
    assert_eq!(s.replica.clock().unwrap(), NEWER);
    assert!(matches!(s.check(Timestamp::at(1_800_000_059)).unwrap(), Refresh::Serve));
    assert!(matches!(s.check(Timestamp::at(1_800_000_060)).unwrap(), Refresh::Fetch { .. }));
    assert_eq!(s.freshness().unwrap().last_retrieval, Some(now));
    assert_eq!(s.refresh_interval(), Span::from_secs(60));
}

#[test]
fn a_refresh_that_fails_leaves_everything_as_it_was() {
    let mut s = server();
    let now = Timestamp::at(1_800_000_000);
    let lost = s.finish(CLOCK, Err(ActualError::NoBudget), now, &as_real);
    assert!(matches!(lost, Err(ToolError::Unavailable(ActualError::NoBudget))));
    let bad = s.finish(CLOCK, Ok(vec![edit(NEWER, "nowhere")]), now, &as_real);
    assert!(matches!(bad, Err(ToolError::Replica(StoreError::UnknownTable { .. }))));
    assert_eq!(s.replica.clock().unwrap(), CLOCK);
    assert_eq!(s.freshness().unwrap().last_retrieval, None);
}

#[test]
fn a_refresh_without_a_clock_cannot_begin() {
    let s = server();
    s.replica.connection().execute("DELETE FROM mcp_state", []).unwrap();
    assert!(matches!(
        s.check(Timestamp::at(0)).unwrap(),
        Refresh::Failed(ToolError::Replica(StoreError::NoClock))
    ));
    s.replica.connection().execute("DROP TABLE transactions", []).unwrap();
    assert!(matches!(s.check(Timestamp::at(0)), Err(ToolError::Replica(_))));
}

#[test]
fn the_clock_is_the_newest_timestamp_that_came() {
    assert_eq!(next_clock("c", &[]), "c");
    assert_eq!(next_clock("c", &[edit("b", "x"), edit("d", "x"), edit("a", "x")]), "d");
}

#[test]
fn a_budget_that_was_never_synced_cannot_be_served() {
    assert_eq!(group_id_of(&file(Some("g-1"))).unwrap(), "g-1");
    assert!(matches!(group_id_of(&file(None)), Err(StartupError::NoGroupId)));
}

#[test]
fn freshness_is_reported_in_seconds() {
    let current = Freshness {
        last_retrieval: Some(Timestamp::at(1_000)),
        newest_transaction: Some(20260903),
    };
    let out = GetDataFreshness::invoke(&current, Timestamp::at(1_090), Span::from_secs(60));
    assert_eq!(out.newest_transaction_date.as_deref(), Some("2026-09-03"));
    assert_eq!(out.last_retrieval_age_seconds, Some(90));
    assert!(out.is_stale);
    assert_eq!(out.refresh_interval_seconds, 60);

    let never = Freshness { last_retrieval: None, newest_transaction: None };
    let out = GetDataFreshness::invoke(&never, Timestamp::at(0), Span::from_secs(60));
    assert_eq!(out.last_retrieval_age_seconds, None);
    assert_eq!(out.newest_transaction_date, None);
    assert!(out.is_stale);
}
