use destru::validate::{check_login, check_registration, is_valid_name, is_valid_password, UserError};

fn hex64() -> String {
    "0123456789abcdefABCDEF0123456789abcdef0123456789abcdef0123456789".to_string()
}

#[test]
fn name_length_bounds() {
    assert!(!is_valid_name("ab"));
    assert!(is_valid_name("abc"));
    assert!(is_valid_name(&"a".repeat(100)));
    assert!(!is_valid_name(&"a".repeat(101)));
    assert!(!is_valid_name(""));
}

#[test]
fn name_characters() {
    assert!(is_valid_name("valid_user-1"));
    assert!(!is_valid_name("has space"));
    assert!(!is_valid_name("dot.name"));
    assert!(!is_valid_name("名前です"));
    assert!(!is_valid_name("abc\n"));
}

#[test]
fn password_digest_shape() {
    assert_eq!(hex64().len(), 64);
    assert!(is_valid_password(&hex64()));
    assert!(!is_valid_password(&hex64()[..63]));
    assert!(!is_valid_password(&format!("{}0", hex64())));
    assert!(!is_valid_password(&"g".repeat(64)));
}

#[test]
fn registration_checks_name_first() {
    assert_eq!(check_registration("ab", "x"), Err(UserError::InvalidName));
    assert_eq!(check_registration("validuser1", "x"), Err(UserError::InvalidPassword));
    assert_eq!(check_registration("validuser1", &hex64()), Ok(()));
}

#[test]
fn login_needs_both_fields() {
    assert_eq!(check_login("", ""), Err(UserError::InvalidName));
    assert_eq!(check_login("a", ""), Err(UserError::InvalidPassword));
    assert_eq!(check_login("a", "b"), Ok(()));
}
