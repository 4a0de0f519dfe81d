use newsletter::domain::subscription_token::SubscriptionToken;
use newsletter::routes::subscriptions::generate_subscription_token;

#[test]
fn a_26_character_long_token_is_invalid() {
    let token = "a".repeat(26);
    assert!(SubscriptionToken::parse(token).is_err());
}

#[test]
fn a_25_character_long_token_is_valid() {
    let token = "a".repeat(25);
    assert!(SubscriptionToken::parse(token).is_ok());
}

#[test]
fn a_24_character_long_token_is_invalid() {
    let token = "a".repeat(24);
    assert!(SubscriptionToken::parse(token).is_err());
}

#[test]
fn tokens_containing_an_invalid_character_are_rejected() {
    for name in &['/', '(', ')', '"', '<', '>', '\\', '{', '}'] {
        let name = name.to_string().repeat(25);
        assert!(SubscriptionToken::parse(name).is_err());
    }
}

#[test]
fn empty_string_is_rejected() {
    let name = String::from("");
    assert!(SubscriptionToken::parse(name).is_err());
}

#[test]
fn parse_keeps_a_valid_token_unchanged() {
    let token = "Ab3dEfGh1jKlMn0pQrStUvWxY".to_string();
    let parsed = SubscriptionToken::parse(token.clone()).unwrap();
    assert_eq!(parsed.as_ref(), token.as_str());
}

#[test]
fn parse_error_names_the_refused_string() {
    let err = SubscriptionToken::parse("abc".to_string()).unwrap_err();
    assert_eq!(err, "abc is not a valid subscription token");
}

#[test]
fn non_ascii_letters_are_rejected_even_with_25_characters() {
    let name = "é".repeat(25);
    assert!(SubscriptionToken::parse(name).is_err());
    // 25 bytes, but fewer characters, one of them not ASCII
    let mixed = format!("{}{}", "a".repeat(23), "é");
    assert_eq!(mixed.len(), 25);
    assert!(SubscriptionToken::parse(mixed).is_err());
}

#[test]
fn from_raw_keeps_any_text() {
    let t = SubscriptionToken::from_raw("not/a token".to_string());
    assert_eq!(t.as_ref(), "not/a token");
}

#[test]
fn generated_tokens_are_accepted_by_parse() {
    for _ in 0..50 {
        let token = generate_subscription_token();
        assert_eq!(token.len(), 25);
        assert!(token.chars().all(|c| c.is_ascii_alphanumeric()));
        assert!(SubscriptionToken::parse(token).is_ok());
    }
}

#[test]
fn generated_tokens_differ() {
    let a = generate_subscription_token();
    let b = generate_subscription_token();
    assert_ne!(a, b);
}

#[test]
fn tokens_need_no_escaping_in_a_url() {
    use_token_in_query(&generate_subscription_token());
    use_token_in_query("Ab3dEfGh1jKlMn0pQrStUvWxY");
}

fn use_token_in_query(token: &str) {
    let r = newsletter::error::AppError::AuthError(token.to_string(), "k".to_string()).into_response();
    assert!(r.location.unwrap().starts_with(&format!("/login?error={}&tag=", token)));
}
