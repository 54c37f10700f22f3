use litebag::password::{check_wallet_password, hash_password, PasswordError};

#[test]
fn hash_has_bcrypt_shape() {
    let h = hash_password("secreto").unwrap();
    assert_eq!(h.len(), 60);
    assert!(h.starts_with("$2b$12$"));
}

#[test]
fn own_password_opens_the_wallet() {
    let h = hash_password("secreto").unwrap();
    assert!(check_wallet_password("secreto", &h).is_ok());
}

#[test]
fn empty_password_hash_opens_with_empty_password() {
    let h = hash_password("").unwrap();
    assert!(check_wallet_password("", &h).is_ok());
    assert!(matches!(check_wallet_password("x", &h), Err(PasswordError::Incorrect)));
}

#[test]
fn wrong_password_is_incorrect() {
    let h = hash_password("secreto").unwrap();
    assert!(matches!(check_wallet_password("otro", &h), Err(PasswordError::Incorrect)));
}

#[test]
fn no_stored_password_opens_with_anything() {
    assert!(check_wallet_password("cualquiera", "").is_ok());
}

#[test]
fn unreadable_hash_is_a_verification_error() {
    assert!(matches!(
        check_wallet_password("secreto", "no es un hash"),
        Err(PasswordError::Verification(_))
    ));
}
