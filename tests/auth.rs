use destru::auth::{AuthError, AuthService};
use destru::codec::{decode_sqids, USER_FLAG};
use destru::validate::UserError;

const DIGEST: &str = "9f86d081884c7d659a2feaa0c55ad015a3bf4f1b2b0b822cd15d6c15b0f00a08";
const OTHER: &str = "60303ae22b998861bce3b28f33eec1be758a213c86c93c076dbe9f558c11c752";
const NOW: i64 = 1_700_000_000;

#[test]
fn register_scenario() {
    let mut svc = AuthService::new();
    assert_eq!(svc.register("ab", DIGEST), Err(AuthError::Invalid(UserError::InvalidName)));
    assert_eq!(
        svc.register("validuser1", "short"),
        Err(AuthError::Invalid(UserError::InvalidPassword))
    );
    assert_eq!(svc.register("validuser1", DIGEST), Ok(1));
    assert_eq!(
        svc.register("validuser1", OTHER),
        Err(AuthError::Invalid(UserError::NameExists))
    );
    assert_eq!(svc.users.len(), 1);
    assert_ne!(svc.users[0].password_hash, DIGEST);
}

#[test]
fn login_sets_day_or_month_expiry() {
    let mut svc = AuthService::new();
    svc.register("alice", DIGEST).unwrap();
    let day = svc.login("alice", DIGEST, false, NOW, "tok-a".to_string()).unwrap();
    assert_eq!(day.expires_at, NOW + 24 * 3600);
    assert_eq!(day.token, "tok-a");
    let month = svc.login("alice", DIGEST, true, NOW, "tok-b".to_string()).unwrap();
    assert_eq!(month.expires_at, NOW + 30 * 24 * 3600);
    assert_eq!(decode_sqids(USER_FLAG, &month.id).unwrap(), 1);
}

#[test]
fn six_logins_leave_five_sessions() {
    let mut svc = AuthService::new();
    svc.register("bob_1", DIGEST).unwrap();
    for i in 0..6 {
        svc.login("bob_1", DIGEST, false, NOW + i, format!("session{}", i)).unwrap();
    }
    let toks: Vec<&str> = svc.sessions.rows.iter().map(|r| r.token.as_str()).collect();
    assert_eq!(toks.len(), 5);
    assert!(!toks.contains(&"session0"));
    assert_eq!(toks, vec!["session1", "session2", "session3", "session4", "session5"]);
}

#[test]
fn login_failures() {
    let mut svc = AuthService::new();
    svc.register("carol", DIGEST).unwrap();
    let t = || "t".to_string();
    assert_eq!(svc.login("", DIGEST, false, NOW, t()).err(), Some(AuthError::Invalid(UserError::InvalidName)));
    assert_eq!(svc.login("carol", "", false, NOW, t()).err(), Some(AuthError::Invalid(UserError::InvalidPassword)));
    assert_eq!(svc.login("dave", DIGEST, false, NOW, t()).err(), Some(AuthError::NotFound));
    assert_eq!(svc.login("carol", OTHER, false, NOW, t()).err(), Some(AuthError::Unauthorized));
    assert!(svc.sessions.rows.is_empty());
}

#[test]
fn logout_revokes_one_session() {
    let mut svc = AuthService::new();
    svc.register("erin", DIGEST).unwrap();
    svc.register("frank", OTHER).unwrap();
    svc.login("erin", DIGEST, false, NOW, "e1".to_string()).unwrap();
    svc.login("frank", OTHER, false, NOW, "f1".to_string()).unwrap();
    svc.logout("e1");
    svc.logout("e1");
    let toks: Vec<&str> = svc.sessions.rows.iter().map(|r| r.token.as_str()).collect();
    assert_eq!(toks, vec!["f1"]);
}
