use destru::password::{hash_password, hash_password_with_salt, verify_password, SALT_LENGTH};

#[test]
fn hash_then_verify_accepts_same_password() {
    let h = hash_password("correct horse").unwrap();
    assert_ne!(h, "correct horse");
    assert!(h.starts_with("$argon2"));
    assert!(verify_password("correct horse", &h));
    assert!(!verify_password("correct horsf", &h));
    assert!(!verify_password("", &h));
}

#[test]
fn hashes_are_salted() {
    let a = hash_password("same").unwrap();
    let b = hash_password("same").unwrap();
    assert_ne!(a, b);
}

#[test]
fn malformed_hash_is_refused() {
    assert!(!verify_password("pw", "not a phc string"));
    assert!(!verify_password("pw", ""));
}

#[test]
fn salted_hash_is_a_function_of_password_and_salt() {
    let s1 = [7u8; SALT_LENGTH];
    let mut s2 = s1;
    s2[0] = 8;
    let a = hash_password_with_salt("pw", &s1).unwrap();
    let b = hash_password_with_salt("pw", &s1).unwrap();
    let c = hash_password_with_salt("pw", &s2).unwrap();
    assert_eq!(a, b);
    assert_ne!(a, c);
    assert!(a.starts_with("$argon2id$v=19$m=19456,t=2,p=1$"));
    assert!(verify_password("pw", &a));
    assert!(hash_password_with_salt("", &s1).is_ok());
}

#[test]
fn hash_has_default_phc_prefix() {
    let h = hash_password("0123456789abcdef0123456789abcdef0123456789abcdef0123456789abcdef").unwrap();
    assert!(h.starts_with("$argon2id$v=19$m=19456,t=2,p=1$"));
    assert!(!verify_password("password", "not-a-hash"));
}
