use backend::errors::{user_error_outward, OutwardError, UserError};
use backend::store::Store;

#[test]
fn successful_signup_returns_201_with_cookie() {
    let mut store = Store::new();
    let token = store
        .sign_up(None, "integration-test", "test")
        .expect("sign-up should succeed on a fresh store");
    assert!(store.session_status(Some(token)).is_logged_in);
}

#[test]
fn duplicate_signup_returns_409() {
    let mut store = Store::new();
    store
        .sign_up(None, "integration-test", "test")
        .expect("first sign-up should succeed");
    let second = store.sign_up(None, "integration-test", "test");
    assert_eq!(second, Err(UserError::UserAlreadyExists));
    assert_eq!(
        user_error_outward(UserError::UserAlreadyExists).status_code(),
        409
    );
}

#[test]
fn successful_login_returns_200_with_cookie() {
    let mut store = Store::new();
    let first = store
        .sign_up(None, "integration-test", "test")
        .expect("sign-up should succeed");
    store.log_out(Some(first));
    let token = store
        .log_in(None, "integration-test", "test")
        .expect("log-in with the right password should succeed");
    assert!(store.session_status(Some(token)).is_logged_in);
}

#[test]
fn failed_login_returns_401() {
    let mut store = Store::new();
    store
        .sign_up(None, "integration-test", "test")
        .expect("sign-up should succeed");
    let wrong_password = store.log_in(None, "integration-test", "test_wrong_password");
    assert_eq!(wrong_password, Err(UserError::InvalidPassword));
    let unknown_user = store.log_in(None, "fake_user", "test");
    assert_eq!(unknown_user, Err(UserError::UserNotFound));
    // Both fall into one outward category: no username enumeration.
    let a = user_error_outward(UserError::InvalidPassword);
    let b = user_error_outward(UserError::UserNotFound);
    assert_eq!(a, b);
    assert_eq!(a, OutwardError::Unauthenticated);
    assert_eq!(a.status_code(), 401);
}

#[test]
fn successful_logout_returns_204_with_purged_cookie() {
    let mut store = Store::new();
    let token = store
        .sign_up(None, "integration-test", "test")
        .expect("sign-up should succeed");
    store.log_out(Some(token));
    assert!(!store.session_status(Some(token)).is_logged_in);
}

#[test]
fn delete_user_with_session_returns_204_and_deletes_user() {
    let mut store = Store::new();
    let token = store
        .sign_up(None, "integration-test", "test")
        .expect("sign-up should succeed");
    assert_eq!(store.delete_account(Some(token)), Ok(()));
    assert!(!store.session_status(Some(token)).is_logged_in);
    let login = store.log_in(None, "integration-test", "test");
    assert_eq!(login, Err(UserError::UserNotFound));
}

#[test]
fn delete_user_without_session_returns_something_401() {
    let mut store = Store::new();
    let r = store.delete_account(None);
    assert_eq!(r, Err(UserError::SessionGetError));
    assert_eq!(user_error_outward(UserError::SessionGetError).status_code(), 401);
}

#[test]
fn logged_in_user_recieves_logged_in_true_with_200() {
    let mut store = Store::new();
    let token = store
        .sign_up(None, "integration-test", "test")
        .expect("sign-up should succeed");
    let status = store.session_status(Some(token));
    assert!(status.is_logged_in);
}

#[test]
fn logged_out_user_recieves_logged_in_false_with_200() {
    let mut store = Store::new();
    let token = store
        .sign_up(None, "integration-test", "test")
        .expect("sign-up should succeed");
    store.log_out(Some(token));
    let status = store.session_status(Some(token));
    assert!(!status.is_logged_in);
}

#[test]
fn user_without_any_previous_action_recieves_logged_in_false_with_200() {
    let store = Store::new();
    let status = store.session_status(None);
    assert!(!status.is_logged_in);
}

#[test]
fn login_twice_invalidates_previous_token() {
    let mut store = Store::new();
    let first = store
        .sign_up(None, "integration-test", "test")
        .expect("sign-up should succeed");
    let second = store
        .log_in(Some(first), "integration-test", "test")
        .expect("log-in should succeed");
    assert!(!store.session_status(Some(first)).is_logged_in);
    assert!(store.session_status(Some(second)).is_logged_in);
}

#[test]
fn logout_twice_is_idempotent() {
    let mut store = Store::new();
    let token = store
        .sign_up(None, "integration-test", "test")
        .expect("sign-up should succeed");
    store.log_out(Some(token));
    assert!(!store.session_status(Some(token)).is_logged_in);
    store.log_out(Some(token));
    assert!(!store.session_status(Some(token)).is_logged_in);
}
