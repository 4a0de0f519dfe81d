use newsletter::error::{error_chain_fmt, signed_login_location, AppError};

#[test]
fn validation_errors_are_answered_400() {
    let r = AppError::ValidationError("bad".to_string()).into_response();
    assert_eq!(r.status, 400);
    assert!(r.location.is_none());
    assert!(r.www_authenticate.is_none());
}

#[test]
fn publish_auth_errors_are_answered_401_with_a_basic_challenge() {
    let r = AppError::PublishAuthError("Missing Authorization header".to_string()).into_response();
    assert_eq!(r.status, 401);
    assert!(r.location.is_none());
    assert_eq!(r.www_authenticate.as_deref(), Some("Basic realm=\"publish\""));
}

#[test]
fn unexpected_errors_are_answered_500() {
    let r = AppError::UnexpectedError("db down".to_string()).into_response();
    assert_eq!(r.status, 500);
    assert!(r.location.is_none());
    assert!(r.www_authenticate.is_none());
}

#[test]
fn auth_errors_redirect_to_the_login_page_with_a_signed_error() {
    let r = AppError::AuthError("Invalid credentials é".to_string(), "secret".to_string())
        .into_response();
    assert_eq!(r.status, 303);
    assert!(r.www_authenticate.is_none());
    assert_eq!(
        r.location.as_deref(),
        Some(
            "/login?error=Invalid%20credentials%20%C3%A9\
             &tag=aadb8b351fee449e4d6c597943b427102b429a3ed7a1ed2afdc32b7dd61645a4"
        )
    );
}

#[test]
fn auth_error_tags_depend_on_the_secret() {
    let a = AppError::AuthError("x".to_string(), "one".to_string()).into_response();
    let b = AppError::AuthError("x".to_string(), "two".to_string()).into_response();
    assert_ne!(a.location, b.location);
    let loc = a.location.unwrap();
    let tag = loc.split("&tag=").nth(1).unwrap();
    assert_eq!(tag.len(), 64);
    assert!(tag.chars().all(|c| c.is_ascii_digit() || ('a'..='f').contains(&c)));
}

#[test]
fn unreserved_characters_are_not_percent_encoded() {
    let r = AppError::AuthError("a-Z_0.~".to_string(), "k".to_string()).into_response();
    assert!(r.location.unwrap().starts_with("/login?error=a-Z_0.~&tag="));
}

#[test]
fn error_messages() {
    assert_eq!(AppError::ValidationError("Invalid JSON payload".to_string()).message(), "Invalid JSON payload");
    assert_eq!(
        AppError::PublishAuthError("x".to_string()).message(),
        "Failed to authenticate publish newsletter"
    );
    assert_eq!(AppError::AuthError("x".to_string(), "s".to_string()).message(), "Authentication failed");
    assert_eq!(AppError::UnexpectedError("boom".to_string()).message(), "boom");
}

#[test]
fn error_chain_of_a_single_error() {
    assert_eq!(error_chain_fmt(&vec!["top".to_string()]), "top\n\n");
}

#[test]
fn error_chain_lists_every_cause() {
    let chain = vec!["top".to_string(), "middle".to_string(), "root".to_string()];
    assert_eq!(
        error_chain_fmt(&chain),
        "top\n\nCaused by:\n\tmiddle\nCaused by:\n\troot\n"
    );
}

#[test]
fn signed_location_appends_the_tag_in_hex() {
    assert_eq!(signed_login_location("error=x", &[0xde, 0xad]), "/login?error=x&tag=dead");
}

#[test]
fn reserved_characters_in_the_error_are_encoded() {
    let r = AppError::AuthError("a&b=c?d#e f".to_string(), "k".to_string()).into_response();
    let loc = r.location.unwrap();
    assert!(loc.starts_with("/login?error=a%26b%3Dc%3Fd%23e%20f&tag="));
    assert_eq!(loc.matches('&').count(), 1);
    assert_eq!(loc.matches('=').count(), 2);
}
