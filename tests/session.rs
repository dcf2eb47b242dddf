use destru::session::{
    session_expiry, SessionStore, SessionToken, LONG_SESSION_SECONDS, SESSION_CAP, SHORT_SESSION_SECONDS,
};

fn tokens_of(store: &SessionStore, user: i64) -> Vec<String> {
    store.rows.iter().filter(|r| r.user == user).map(|r| r.token.clone()).collect()
}

#[test]
fn expiry_is_day_or_month() {
    assert_eq!(session_expiry(1_000, false), 1_000 + 86_400);
    assert_eq!(session_expiry(1_000, true), 1_000 + 2_592_000);
    assert_eq!(SHORT_SESSION_SECONDS, 24 * 3600);
    assert_eq!(LONG_SESSION_SECONDS, 30 * 24 * 3600);
}

#[test]
fn many_issues_keep_five_newest() {
    let mut store = SessionStore::new();
    for i in 0..8 {
        store.issue(7, format!("t{}", i), 10_000, 100 + i);
    }
    assert_eq!(SESSION_CAP, 5);
    assert_eq!(tokens_of(&store, 7), vec!["t3", "t4", "t5", "t6", "t7"]);
}

#[test]
fn six_issues_drop_the_oldest() {
    let mut store = SessionStore::new();
    for i in 0..6 {
        store.issue(1, format!("s{}", i), 5_000, 10);
    }
    let toks = tokens_of(&store, 1);
    assert_eq!(toks.len(), 5);
    assert!(!toks.contains(&"s0".to_string()));
    assert_eq!(toks[4], "s5");
}

#[test]
fn issue_returns_increasing_ids() {
    let mut store = SessionStore::new();
    let a = store.issue(1, "a".to_string(), 50, 0);
    let b = store.issue(2, "b".to_string(), 50, 0);
    assert_eq!(a, 1);
    assert_eq!(b, 2);
    assert_eq!(store.next_id, 3);
}

#[test]
fn expired_tokens_swept_on_next_issue() {
    let mut store = SessionStore::new();
    store.issue(3, "old".to_string(), 100, 0);
    store.issue(3, "live".to_string(), 1_000, 0);
    store.issue(4, "other-old".to_string(), 100, 0);
    store.issue(3, "new".to_string(), 2_000, 500);
    assert_eq!(tokens_of(&store, 3), vec!["live", "new"]);
    // another user's expired token waits for that user's next login
    assert_eq!(tokens_of(&store, 4), vec!["other-old"]);
}

#[test]
fn token_expiring_exactly_now_survives() {
    let mut store = SessionStore::new();
    store.issue(3, "edge".to_string(), 500, 0);
    store.issue(3, "next".to_string(), 900, 500);
    assert_eq!(tokens_of(&store, 3), vec!["edge", "next"]);
}

#[test]
fn cap_leaves_other_users_alone() {
    let mut store = SessionStore::new();
    for i in 0..5 {
        store.issue(2, format!("b{}", i), 9_000, 0);
    }
    for i in 0..7 {
        store.issue(1, format!("a{}", i), 9_000, 0);
    }
    assert_eq!(tokens_of(&store, 2).len(), 5);
    assert_eq!(tokens_of(&store, 1), vec!["a2", "a3", "a4", "a5", "a6"]);
}

#[test]
fn revoke_removes_only_the_match() {
    let mut store = SessionStore::new();
    store.issue(1, "x".to_string(), 900, 0);
    store.issue(2, "y".to_string(), 900, 0);
    store.issue(1, "z".to_string(), 900, 0);
    store.revoke("y");
    assert_eq!(store.rows.len(), 2);
    assert_eq!(tokens_of(&store, 1), vec!["x", "z"]);
    assert!(tokens_of(&store, 2).is_empty());
}

#[test]
fn revoke_unknown_is_noop() {
    let mut store = SessionStore::new();
    store.issue(1, "x".to_string(), 900, 0);
    store.revoke("nope");
    store.revoke("");
    assert_eq!(store.rows.len(), 1);
    let row: &SessionToken = &store.rows[0];
    assert_eq!(row.token, "x");
    assert_eq!(row.user, 1);
    assert_eq!(row.expires_at, 900);
}
