use rust_rooms::auth::{AuthError, Authenticator};

#[test]
fn configured_user_is_admitted_with_the_derived_key() {
    let realm = "rustrooms".to_string();
    let pass = "pass-1234".to_string();
    let auth = Authenticator::new("user-1".to_string(), &realm, &pass);
    let key = auth.auth_handle(&"user-1".to_string()).unwrap();
    assert!(!key.is_empty());
    // the key is a derivation, not any input handed back
    assert_ne!(key, b"user-1".to_vec());
    assert_ne!(key, b"pass-1234".to_vec());
    assert_ne!(key, b"rustrooms".to_vec());
}

#[test]
fn other_usernames_are_refused() {
    let realm = "rustrooms".to_string();
    let pass = "pw".to_string();
    let auth = Authenticator::new("user-1".to_string(), &realm, &pass);
    assert_eq!(auth.auth_handle(&"user-2".to_string()), Err(AuthError::InvalidUser));
    assert_eq!(auth.auth_handle(&"".to_string()), Err(AuthError::InvalidUser));
}

#[test]
fn same_credentials_derive_the_same_key() {
    let realm = "rustrooms".to_string();
    let pass = "pw".to_string();
    let auth1 = Authenticator::new("u".to_string(), &realm, &pass);
    let auth2 = Authenticator::new("u".to_string(), &realm, &pass);
    assert_eq!(
        auth1.auth_handle(&"u".to_string()).unwrap(),
        auth2.auth_handle(&"u".to_string()).unwrap()
    );
}

#[test]
fn different_passwords_derive_different_keys() {
    let realm = "rustrooms".to_string();
    let auth1 = Authenticator::new("u".to_string(), &realm, &"pw-a".to_string());
    let auth2 = Authenticator::new("u".to_string(), &realm, &"pw-b".to_string());
    assert_ne!(
        auth1.auth_handle(&"u".to_string()).unwrap(),
        auth2.auth_handle(&"u".to_string()).unwrap()
    );
}
