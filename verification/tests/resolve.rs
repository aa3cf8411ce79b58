use actual_mcp::queries::edit::edit_distance;
use actual_mcp::queries::resolve::{accounts, resolve, Named, Resolution, MAX_CANDIDATES};
use actual_mcp::store::sql::QueryError;
use rusqlite::Connection;

fn n(id: &str, name: &str) -> Named {
    Named {
        id: id.to_string(),
        name: name.to_string(),
    }
}

/// Shaped the way bank-imported accounts usually are: an institution
/// prefix and an account-number suffix around the useful word.
fn accounts_fixture() -> Vec<Named> {
    vec![
        n("a1", "Example Bank Checking (0001)"),
        n("a2", "Example Bank Savings (0002)"),
        n("a3", "Example Rewards Card (0003)"),
        n("a4", "Other Bank Credit Card (0004)"),
        n("a5", "Example Retirement"),
    ]
}

fn categories_fixture() -> Vec<Named> {
    vec![
        n("c1", "Groceries"),
        n("c2", "Health & Fitness"),
        n("c3", "Home"),
        n("c4", "Shopping"),
        n("c5", "Savings and Investments"),
    ]
}

#[test]
fn exact_match_wins() {
    let got = resolve(&categories_fixture(), "Groceries");
    assert_eq!(got, Resolution::One(n("c1", "Groceries")));
}

#[test]
fn matching_ignores_case_and_padding() {
    assert_eq!(
        resolve(&categories_fixture(), "  gROCERIES "),
        Resolution::One(n("c1", "Groceries"))
    );
}

/// Nobody types the full imported account name.
#[test]
fn substring_finds_an_account_by_its_useful_part() {
    assert_eq!(
        resolve(&accounts_fixture(), "checking"),
        Resolution::One(n("a1", "Example Bank Checking (0001)"))
    );
}

#[test]
fn a_word_prefix_matches_mid_name() {
    assert_eq!(
        resolve(&categories_fixture(), "fitness"),
        Resolution::One(n("c2", "Health & Fitness"))
    );
}

/// hand back the candidates instead of picking one.
#[test]
fn several_matches_are_ambiguous_not_guessed() {
    match resolve(&accounts_fixture(), "example bank") {
        Resolution::Ambiguous(c) => {
            assert_eq!(c.len(), 2);
            assert!(c.iter().any(|x| x.id == "a1"));
            assert!(c.iter().any(|x| x.id == "a2"));
        }
        other => panic!("expected Ambiguous, got {other:?}"),
    }
}

/// An exact hit must not be diluted by looser matches elsewhere.
#[test]
fn an_exact_match_beats_substring_matches() {
    let candidates = vec![
        n("x1", "Home"),
        n("x2", "Home Improvement"),
        n("x3", "Homewares"),
    ];
    assert_eq!(
        resolve(&candidates, "Home"),
        Resolution::One(n("x1", "Home"))
    );
}

#[test]
fn typos_produce_suggestions() {
    match resolve(&categories_fixture(), "grocries") {
        Resolution::Nothing { suggestions } => {
            assert_eq!(
                suggestions.first().map(|s| s.name.as_str()),
                Some("Groceries")
            );
        }
        other => panic!("expected Nothing with suggestions, got {other:?}"),
    }
}

#[test]
fn nonsense_yields_nothing_at_all() {
    match resolve(&categories_fixture(), "zzzzzzzzzzzz") {
        Resolution::Nothing { suggestions } => assert!(suggestions.is_empty()),
        other => panic!("expected empty Nothing, got {other:?}"),
    }
}

#[test]
fn empty_query_matches_nothing() {
    assert_eq!(
        resolve(&categories_fixture(), "   "),
        Resolution::Nothing {
            suggestions: vec![]
        }
    );
}

/// A very loose query must not dump the whole payee list into the response.
#[test]
fn ambiguous_results_are_capped() {
    let many: Vec<Named> = (0..50)
        .map(|i| n(&format!("p{i}"), &format!("Store {i}")))
        .collect();
    match resolve(&many, "store") {
        Resolution::Ambiguous(c) => assert_eq!(c.len(), MAX_CANDIDATES),
        other => panic!("expected Ambiguous, got {other:?}"),
    }
}

#[test]
fn describe_tells_the_model_what_to_do() {
    let text = resolve(&accounts_fixture(), "example bank").describe("account", "example bank");
    assert!(text.contains("Example Bank Checking (0001)"), "got {text}");
    assert!(text.contains("Call again"), "got {text}");
}

#[test]
fn edit_distance_is_sane() {
    assert_eq!(edit_distance("", ""), 0);
    assert_eq!(edit_distance("abc", "abc"), 0);
    assert_eq!(edit_distance("abc", ""), 3);
    assert_eq!(edit_distance("grocries", "groceries"), 1);
    assert_eq!(edit_distance("kitten", "sitting"), 3);
}

#[test]
fn the_first_unusable_cell_decides() {
    let conn = Connection::open_in_memory().unwrap();
    conn.execute_batch(
        "CREATE TABLE accounts (id TEXT, name TEXT, tombstone INTEGER DEFAULT 0);
         INSERT INTO accounts (id, name) VALUES ('a1', 'Checking'), (x'01', 'Debts');",
    )
    .unwrap();
    assert!(matches!(accounts(&conn), Err(QueryError::Cell { column: 0 })));

    // A text that is no UTF-8 is unusable like any other, and does not go
    // before a cell of an earlier row.
    let bad = "INSERT INTO accounts (id, name) VALUES ('a3', CAST(x'7aff' AS TEXT))";
    conn.execute(bad, []).unwrap();
    assert!(matches!(accounts(&conn), Err(QueryError::Cell { column: 0 })));
    conn.execute("DELETE FROM accounts WHERE id = x'01'", []).unwrap();
    assert!(matches!(accounts(&conn), Err(QueryError::Cell { column: 1 })));
    conn.execute("DELETE FROM accounts WHERE id = 'a3'", []).unwrap();
    assert_eq!(accounts(&conn).unwrap(), [n("a1", "Checking")]);
}
