use sentinai::jwt::{create_token, create_token_at, verify_token, verify_token_at};
use sentinai::AppError;

#[test]
fn test_create_and_verify_token() {
    let user_id: u128 = 0x1234_5678_9abc_def0_1122_3344_5566_7788;
    let secret = "supersecret";

    let token = create_token(user_id, secret).expect("Should create token");
    assert!(!token.is_empty());

    let claims = verify_token(&token, secret).expect("Should verify token");
    assert_eq!(claims.sub, user_id);
}

#[test]
fn test_verify_invalid_signature() {
    let user_id: u128 = 42;
    let token = create_token(user_id, "correct-secret").unwrap();

    let result = verify_token(&token, "wrong-secret");
    assert!(result.is_err());
    match result.unwrap_err() {
        AppError::AuthError(msg) => assert_eq!(msg, "Invalid token"),
        _ => panic!("Expected AuthError"),
    }
}

#[test]
fn test_verify_malformed_token() {
    let result = verify_token("not-a-real-jwt", "secret");
    assert!(result.is_err());
}

#[test]
fn round_trip_at_fixed_times() {
    let token = create_token_at(7, "secret-a", 1_000);
    // Fresh until the embedded expiry, one day after issue.
    let claims = verify_token_at(&token, "secret-a", 1_000).unwrap();
    assert_eq!(claims.sub, 7);
    assert_eq!(claims.iat, 1_000);
    assert_eq!(claims.exp, 87_400);
    // Accepted exactly up to the expiry instant.
    assert!(verify_token_at(&token, "secret-a", 87_400).is_ok());
}

#[test]
fn expired_token_always_fails() {
    let token = create_token_at(7, "secret-a", 1_000);
    let result = verify_token_at(&token, "secret-a", 87_401);
    match result {
        Err(AppError::AuthError(msg)) => assert_eq!(msg, "Invalid token"),
        _ => panic!("expected the invalid-token error"),
    }
}

#[test]
fn tampered_subject_fails_verification() {
    let token = create_token_at(11, "secret-a", 1_000);
    assert!(token.starts_with("11."));
    let forged = token.replacen("11.", "12.", 1);
    assert!(verify_token_at(&forged, "secret-a", 1_000).is_err());
}

#[test]
fn signature_depends_on_secret_and_subject() {
    // The trusted signer really signs: tokens differ across subjects and
    // secrets, and a truncated signature is rejected.
    let t1 = create_token_at(1, "s", 5);
    let t2 = create_token_at(2, "s", 5);
    let t3 = create_token_at(1, "other", 5);
    assert_ne!(t1, t2);
    assert_ne!(t1, t3);
    let mut cut = t1.clone();
    cut.pop();
    assert!(verify_token_at(&cut, "s", 5).is_err());
}

#[test]
fn noncanonical_numerals_are_rejected() {
    let token = create_token_at(9, "s", 50);
    assert!(token.starts_with("9.50."));
    let padded = token.replacen("9.50.", "9.050.", 1);
    assert!(verify_token_at(&padded, "s", 50).is_err());
}

#[test]
fn largest_subject_round_trips() {
    let token = create_token_at(u128::MAX, "s", 0);
    let claims = verify_token_at(&token, "s", 86_400).unwrap();
    assert_eq!(claims.sub, u128::MAX);
    assert_eq!(claims.iat, 0);
    assert_eq!(claims.exp, 86_400);
}
