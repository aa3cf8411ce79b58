use actual_mcp::queries::scope::TxScope;

fn has(scope: TxScope, needle: &str) -> bool {
    scope.predicates().contains(&needle)
}

const TRANSFERS: &str = "(t.transfer_id IS NULL OR ta.offbudget = 1)";
const OFFBUDGET: &str = "a.offbudget = 0";
const CLOSED: &str = "a.closed = 0";
const PARENTS: &str = "t.is_parent = 0";
const STARTING: &str = "t.starting_balance_flag = 0";

/// Spending drops internal transfers but keeps the ones that leave the
/// budget for an off-budget account.
#[test]
fn spending_excludes_transfers_and_offbudget() {
    let s = TxScope::spending();
    assert!(has(s, TRANSFERS));
    assert!(has(s, OFFBUDGET));
}

#[test]
fn listing_keeps_transfers_and_offbudget() {
    let s = TxScope::listing();
    assert!(!has(s, TRANSFERS), "a register must reconcile");
    assert!(!has(s, OFFBUDGET));
}

/// Split parents duplicate their children's amounts. No scope may include
/// them — this is the guard against silently doubling every split.
#[test]
fn split_parents_are_excluded_from_every_scope() {
    assert!(has(TxScope::spending(), PARENTS));
    assert!(has(TxScope::listing(), PARENTS));
    assert!(has(
        TxScope::listing()
            .with_closed_accounts(true)
            .with_transfers(true),
        PARENTS
    ));
}

#[test]
fn starting_balances_are_excluded_from_every_scope() {
    assert!(has(TxScope::spending(), STARTING));
    assert!(has(TxScope::listing(), STARTING));
}

#[test]
fn scope_closed_accounts_are_opt_in() {
    assert!(has(TxScope::listing(), CLOSED));
    assert!(!has(TxScope::listing().with_closed_accounts(true), CLOSED));
}

#[test]
fn where_sql_is_never_empty_so_callers_can_always_append() {
    let widest = TxScope::listing()
        .with_transfers(true)
        .with_offbudget(true)
        .with_closed_accounts(true);
    assert!(!widest.where_sql().is_empty());
    assert!(widest.where_sql().contains(" AND "));
}

#[test]
fn predicates_join_with_and() {
    let sql = TxScope::spending().where_sql();
    assert_eq!(
        sql.matches(" AND ").count(),
        4,
        "5 predicates, 4 separators: {sql}"
    );
}
