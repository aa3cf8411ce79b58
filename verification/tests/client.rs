use actual_mcp::actual::client::{
    binary_refusal, json_outcome, select, succeeded, token_after_login, unreachable_endpoint, url, LOGIN,
    SYNC,
};
use actual_mcp::actual::error::ActualError;
use actual_mcp::actual::model::{ApiError, Envelope, UserFile};

/// A live, unencrypted budget. Mutate fields for the special cases.
fn budget(name: &str, group: &str) -> UserFile {
    UserFile {
        file_id: format!("file-{name}"),
        group_id: Some(group.to_string()),
        name: name.to_string(),
        encrypt_key_id: None,
        deleted: 0,
    }
}

#[test]
fn picks_sole_live_budget() {
    let got = select(
        vec![budget(
            "Test Budget",
            "22222222-2222-2222-2222-222222222222",
        )],
        None,
    )
    .unwrap();
    assert_eq!(got.name, "Test Budget");
}

#[test]
fn deleted_budgets_are_ignored() {
    let mut old = budget("Old", "g-old");
    old.deleted = 1;
    let got = select(vec![old, budget("Live", "g-live")], None).unwrap();
    assert_eq!(got.name, "Live");
}

#[test]
fn empty_list_is_no_budget() {
    assert!(matches!(select(vec![], None), Err(ActualError::NoBudget)));
}

#[test]
fn all_deleted_is_no_budget() {
    let mut only = budget("Old", "g-old");
    only.deleted = 1;
    assert!(matches!(
        select(vec![only], None),
        Err(ActualError::NoBudget)
    ));
}

#[test]
fn matches_on_group_id() {
    let files = vec![budget("A", "g-a"), budget("B", "g-b")];
    assert_eq!(select(files, Some("g-b")).unwrap().name, "B");
}

/// The sync id in Actual's UI is the *group* id, never the file id.
#[test]
fn sync_id_does_not_match_file_id() {
    let files = vec![budget("A", "g-a")];
    assert!(matches!(
        select(files, Some("file-A")),
        Err(ActualError::BudgetNotFound { .. })
    ));
}

#[test]
fn deleted_budget_is_not_selectable_by_sync_id() {
    let mut old = budget("Old", "g-old");
    old.deleted = 1;
    assert!(matches!(
        select(vec![old], Some("g-old")),
        Err(ActualError::BudgetNotFound { .. })
    ));
}

#[test]
fn many_without_sync_id_is_ambiguous() {
    let files = vec![budget("A", "g-a"), budget("B", "g-b")];
    match select(files, None) {
        Err(ActualError::AmbiguousBudget { names }) => assert_eq!(names, vec!["A", "B"]),
        other => panic!("expected AmbiguousBudget, got {other:?}"),
    }
}

/// The error must name the ids the user could actually set.
#[test]
fn unknown_sync_id_reports_available_group_ids() {
    let files = vec![budget("A", "g-a"), budget("B", "g-b")];
    match select(files, Some("nope")) {
        Err(ActualError::BudgetNotFound { sync_id, available }) => {
            assert_eq!(sync_id, "nope");
            assert_eq!(available, vec!["g-a", "g-b"]);
        }
        other => panic!("expected BudgetNotFound, got {other:?}"),
    }
}

#[test]
fn encrypted_chosen_budget_is_rejected() {
    let mut b = budget("Secret", "g-s");
    b.encrypt_key_id = Some("key-1".to_string());
    match select(vec![b], None) {
        Err(ActualError::Encrypted { name }) => assert_eq!(name, "Secret"),
        other => panic!("expected Encrypted, got {other:?}"),
    }
}

/// Guards the ordering rule in step 3. If the encryption check is ever
/// "tidied" into the filter in step 1, this test fails.
#[test]
fn encrypted_other_budget_does_not_block_selection() {
    let mut enc = budget("Encrypted", "g-enc");
    enc.encrypt_key_id = Some("key-1".to_string());
    let got = select(vec![enc, budget("Plain", "g-plain")], Some("g-plain")).unwrap();
    assert_eq!(got.name, "Plain");
}

#[test]
fn a_budget_without_a_group_is_not_on_offer() {
    let mut lost = budget("Lost", "x");
    lost.group_id = None;
    match select(vec![lost, budget("A", "g-a")], Some("x")) {
        Err(ActualError::BudgetNotFound { available, .. }) => assert_eq!(available, vec!["g-a"]),
        other => panic!("expected BudgetNotFound, got {other:?}"),
    }
}

#[test]
fn answers_come_to_data_or_to_errors() {
    let ok: Result<i32, ActualError> = json_outcome("/x", 200, Ok(Envelope::Success { data: 7 }));
    assert_eq!(ok.unwrap(), 7);

    let failure = |reason: &str| -> Result<Envelope<i32>, String> {
        Ok(Envelope::Failure { reason: reason.to_string(), details: None })
    };
    match json_outcome("/x", 401, failure("no")) {
        Err(ActualError::Auth(reason)) => assert_eq!(reason, "no"),
        other => panic!("expected Auth, got {other:?}"),
    }
    match json_outcome("/x", 400, failure("invalid-password")) {
        Err(ActualError::Auth(reason)) => assert_eq!(reason, "invalid-password"),
        other => panic!("expected Auth, got {other:?}"),
    }
    match json_outcome("/x", 429, failure("too-many-requests")) {
        Err(e) => assert_eq!(e.message(), "Actual server returned 429: too-many-requests"),
        other => panic!("expected Api, got {other:?}"),
    }
    match json_outcome::<i32>("/x", 200, Err("eof".to_string())) {
        Err(ActualError::Decode { endpoint, cause }) => assert_eq!((endpoint, cause.as_str()), ("/x", "eof")),
        other => panic!("expected Decode, got {other:?}"),
    }
}

#[test]
fn binary_routes_fail_with_or_without_an_envelope() {
    let reason = || Some(ApiError { reason: "gone".to_string() });
    assert_eq!(
        binary_refusal(401, "raw".to_string(), reason()).message(),
        "authentication failed: gone"
    );
    assert_eq!(
        binary_refusal(404, "raw".to_string(), reason()).message(),
        "Actual server returned 404: gone"
    );
    assert_eq!(
        binary_refusal(502, "raw".to_string(), None).message(),
        "Actual server returned 502: raw"
    );
    assert!(succeeded(200) && succeeded(299));
    assert!(!succeeded(199) && !succeeded(300) && !succeeded(401));
}

#[test]
fn a_login_has_to_bring_a_token() {
    assert_eq!(token_after_login(Some("t".to_string())).unwrap(), "t");
    assert_eq!(
        token_after_login(None).unwrap_err().message(),
        "authentication failed: no token after login"
    );
}

#[test]
fn endpoints_stand_behind_the_base() {
    assert_eq!(url("http://localhost:5006", SYNC), "http://localhost:5006/sync/sync");
    assert_eq!(
        unreachable_endpoint("http://h", LOGIN, "refused".to_string()).message(),
        "could not reach the Actual server at http://h/account/login"
    );
}

#[test]
fn errors_say_what_to_do() {
    assert_eq!(
        select(vec![budget("A", "g-a"), budget("B", "g-b")], None).unwrap_err().message(),
        "multiple budgets found; set 'ACTUAL_SYNC_ID' to one of: A, B"
    );
    assert_eq!(
        select(vec![budget("A", "g-a"), budget("B", "g-b")], Some("nope")).unwrap_err().message(),
        "no budget with sync id 'nope' found; available: g-a, g-b"
    );
    let mut secret = budget("Secret", "g-s");
    secret.encrypt_key_id = Some("key".to_string());
    assert_eq!(
        select(vec![secret], None).unwrap_err().message(),
        "budget 'Secret' is end-to-end encrypted, which is not supported"
    );
    assert_eq!(
        select(vec![], None).unwrap_err().message(),
        "no budget file found on the Actual server"
    );
}
