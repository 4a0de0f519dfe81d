use argon2::password_hash::SaltString;
use argon2::{Argon2, PasswordHasher};
use newsletter::error::AppError;
use newsletter::routes::newsletters::{
    basic_authentication, check_credentials, credentials_segment, credentials_verdict,
    parse_credentials, publish_after_send, publish_on_credentials, publish_on_sent,
    publish_on_subscribers, publish_recipients, publish_start, AwaitingCredentials,
    AwaitingSubscribers, BasicAuthError, BodyData, Content, CredentialsError, PasswordCheck,
    PublishAction, StoredCredentials, StoredSubscription,
};
use uuid::Uuid;

fn header(s: &str) -> Option<Vec<u8>> {
    Some(s.as_bytes().to_vec())
}

#[test]
fn basic_credentials_are_split_at_the_first_colon() {
    let c = basic_authentication(header("Basic dXNlcjpwYTpzcw==")).ok().unwrap();
    assert_eq!(c.username, "user");
    assert_eq!(c.password, "pa:ss");
}

#[test]
fn missing_header_is_refused() {
    assert_eq!(basic_authentication(None).err(), Some(BasicAuthError::MissingHeader));
}

#[test]
fn header_with_invisible_bytes_is_refused() {
    let h = Some(vec![b'B', b'a', b's', b'i', b'c', b' ', 0x01]);
    assert_eq!(basic_authentication(h).err(), Some(BasicAuthError::NotVisibleAscii));
    let h = Some("Basic dXNlcjpwYQ==é".as_bytes().to_vec());
    assert_eq!(basic_authentication(h).err(), Some(BasicAuthError::NotVisibleAscii));
}

#[test]
fn tabs_are_visible() {
    assert_eq!(
        basic_authentication(header("Basic\tdXNlcjpwYQ==")).err(),
        Some(BasicAuthError::NotBasicScheme)
    );
}

#[test]
fn other_schemes_are_refused() {
    assert_eq!(
        basic_authentication(header("Bearer dXNlcjpwYQ==")).err(),
        Some(BasicAuthError::NotBasicScheme)
    );
    assert_eq!(basic_authentication(header("Basic")).err(), Some(BasicAuthError::NotBasicScheme));
}

#[test]
fn invalid_base64_is_refused() {
    assert_eq!(basic_authentication(header("Basic !!!!")).err(), Some(BasicAuthError::NotBase64));
}

#[test]
fn credentials_that_are_not_utf8_are_refused() {
    assert_eq!(basic_authentication(header("Basic //46eA==")).err(), Some(BasicAuthError::NotUtf8));
}

#[test]
fn credentials_without_a_colon_are_refused() {
    assert_eq!(
        basic_authentication(header("Basic bm9wYXNzd29yZA==")).err(),
        Some(BasicAuthError::MissingPassword)
    );
}

#[test]
fn empty_user_and_password_are_read() {
    let c = parse_credentials(b":".to_vec()).ok().unwrap();
    assert_eq!(c.username, "");
    assert_eq!(c.password, "");
}

#[test]
fn credentials_round_trip() {
    let c = parse_credentials("jörg:pässwörd:".as_bytes().to_vec()).ok().unwrap();
    assert_eq!(c.username, "jörg");
    assert_eq!(c.password, "pässwörd:");
}

#[test]
fn segment_is_what_follows_basic() {
    assert_eq!(credentials_segment(header("Basic abc")).ok(), Some(b"abc".to_vec()));
    assert_eq!(credentials_segment(header("Basic ")).ok(), Some(Vec::new()));
}

#[test]
fn refusal_messages() {
    assert_eq!(BasicAuthError::MissingHeader.message(), "Missing Authorization header");
    assert_eq!(
        BasicAuthError::NotVisibleAscii.message(),
        "The Authorization header was not a valid UTF8 string"
    );
    assert_eq!(BasicAuthError::NotBasicScheme.message(), "The authorization scheme was not 'Basic'");
    assert_eq!(BasicAuthError::NotBase64.message(), "Failed to base64-encode 'Basic' credentials");
    assert_eq!(BasicAuthError::NotUtf8.message(), "Failed to decode base64-encoded credentials");
    assert_eq!(
        BasicAuthError::MissingPassword.message(),
        "A password must be provided in 'Basic' auth."
    );
    assert_eq!(CredentialsError::UnknownUser.message(), "Invalid credentials");
    assert_eq!(
        CredentialsError::InvalidStoredHash.message(),
        "Failed to parse the stored password hash"
    );
    assert_eq!(CredentialsError::WrongPassword.message(), "Failed to verify the password");
    assert_eq!(
        CredentialsError::QueryFailed.message(),
        "Failed to perform a query to validate auth credentials"
    );
}

fn hash(password: &str) -> String {
    let salt = SaltString::from_b64("c29tZXNhbHRzb21lc2FsdA").unwrap();
    Argon2::default().hash_password(password.as_bytes(), &salt).unwrap().to_string()
}

#[test]
fn unknown_users_are_refused() {
    assert_eq!(check_credentials(None, "pw"), Err(CredentialsError::UnknownUser));
}

#[test]
fn the_right_password_is_accepted() {
    let id = Uuid::from_u128(7);
    let row = StoredCredentials { user_id: id, password_hash: hash("everythinghastostartsomewhere") };
    assert_eq!(check_credentials(Some(row), "everythinghastostartsomewhere"), Ok(id));
}

#[test]
fn a_wrong_password_is_refused() {
    let row = StoredCredentials { user_id: Uuid::from_u128(7), password_hash: hash("right") };
    assert_eq!(check_credentials(Some(row), "wrong"), Err(CredentialsError::WrongPassword));
}

#[test]
fn a_stored_hash_that_does_not_parse_is_refused() {
    let row = StoredCredentials { user_id: Uuid::from_u128(7), password_hash: "plain".to_string() };
    assert_eq!(check_credentials(Some(row), "plain"), Err(CredentialsError::InvalidStoredHash));
}

#[test]
fn verdicts() {
    let id = Uuid::from_u128(3);
    assert_eq!(credentials_verdict(id, PasswordCheck::Matches), Ok(id));
    assert_eq!(credentials_verdict(id, PasswordCheck::InvalidHash), Err(CredentialsError::InvalidStoredHash));
    assert_eq!(credentials_verdict(id, PasswordCheck::Mismatch), Err(CredentialsError::WrongPassword));
}

fn sub(email: Result<&str, &str>, status: &str) -> StoredSubscription {
    StoredSubscription {
        email: email.map(|e| e.to_string()).map_err(|e| e.to_string()),
        status: status.to_string(),
    }
}

fn issue() -> BodyData {
    BodyData {
        title: "Issue 1".to_string(),
        content: Content { html: "<p>Hi</p>".to_string(), text: "Hi".to_string() },
    }
}

#[test]
fn recipients_are_the_valid_confirmed_subscribers_in_order() {
    let rows = vec![
        sub(Ok("a@example.com"), "confirmed"),
        sub(Err("bad address"), "confirmed"),
        sub(Ok("p@example.com"), "pending_confirmation"),
        sub(Ok("b@example.com"), "confirmed"),
    ];
    let r = publish_recipients(Ok(rows), true).ok().unwrap();
    assert_eq!(r, vec!["a@example.com".to_string(), "b@example.com".to_string()]);
}

#[test]
fn an_invalid_body_is_refused_after_the_subscribers_are_fetched() {
    match publish_recipients(Ok(vec![]), false) {
        Err(AppError::ValidationError(m)) => assert_eq!(m, "Invalid JSON payload"),
        _ => panic!("expected a validation error"),
    }
    match publish_recipients(Err("query failed".to_string()), false) {
        Err(AppError::UnexpectedError(m)) => assert_eq!(m, "query failed"),
        _ => panic!("expected an unexpected error"),
    }
}

#[test]
fn a_failed_send_names_the_address() {
    assert!(publish_after_send("a@example.com", Ok(())).is_ok());
    match publish_after_send("a@example.com", Err("timeout".to_string())) {
        Err(AppError::UnexpectedError(m)) => assert_eq!(m, "Failed to send email to a@example.com"),
        _ => panic!("expected an unexpected error"),
    }
}

fn respond(action: PublishAction) -> Result<u16, AppError> {
    match action {
        PublishAction::Respond(r) => r,
        _ => panic!("expected an answer"),
    }
}

#[test]
fn a_refused_header_is_answered_401_whatever_the_body() {
    for body in [Some(issue()), None] {
        let e = respond(publish_start(None, body)).err().unwrap();
        assert_eq!(e.message(), "Failed to authenticate publish newsletter");
        assert_eq!(e.into_response().status, 401);
    }
}

#[test]
fn valid_basic_credentials_are_checked_next() {
    match publish_start(header("Basic dXNlcjpwYTpzcw=="), None) {
        PublishAction::CheckCredentials(c, next) => {
            assert_eq!(c.username, "user");
            assert_eq!(c.password, "pa:ss");
            assert!(next.issue.is_none());
        }
        _ => panic!("expected a credentials check"),
    }
}

#[test]
fn refused_credentials_are_answered_401() {
    let state = AwaitingCredentials { issue: Some(issue()) };
    match respond(publish_on_credentials(state, Err(CredentialsError::WrongPassword))) {
        Err(AppError::PublishAuthError(m)) => assert_eq!(m, "Failed to verify the password"),
        _ => panic!("expected a publish authentication error"),
    }
}

#[test]
fn accepted_credentials_lead_to_fetching_subscribers() {
    let state = AwaitingCredentials { issue: Some(issue()) };
    match publish_on_credentials(state, Ok(Uuid::from_u128(1))) {
        PublishAction::FetchSubscribers(next) => assert_eq!(next.issue.unwrap().title, "Issue 1"),
        _ => panic!("expected fetching the subscribers"),
    }
}

#[test]
fn an_invalid_body_is_refused_once_the_subscribers_are_known() {
    let state = AwaitingSubscribers { issue: None };
    let action = publish_on_subscribers(state, Ok(vec![sub(Ok("a@example.com"), "confirmed")]));
    match respond(action) {
        Err(AppError::ValidationError(m)) => assert_eq!(m, "Invalid JSON payload"),
        _ => panic!("expected a validation error"),
    }
}

#[test]
fn no_recipients_is_answered_200_at_once() {
    let state = AwaitingSubscribers { issue: Some(issue()) };
    let rows = vec![sub(Err("bad"), "confirmed"), sub(Ok("p@example.com"), "pending_confirmation")];
    assert_eq!(respond(publish_on_subscribers(state, Ok(rows))).ok(), Some(200));
}

#[test]
fn the_issue_goes_to_each_confirmed_subscriber_in_turn() {
    let rows = vec![
        sub(Ok("a@example.com"), "confirmed"),
        sub(Ok("p@example.com"), "pending_confirmation"),
        sub(Err("bad"), "confirmed"),
        sub(Ok("b@example.com"), "confirmed"),
    ];
    let state = AwaitingSubscribers { issue: Some(issue()) };
    let (delivery, state) = match publish_on_subscribers(state, Ok(rows)) {
        PublishAction::Send(d, s) => (d, s),
        _ => panic!("expected a send"),
    };
    assert_eq!(delivery.recipient, "a@example.com");
    assert_eq!(delivery.title, "Issue 1");
    assert_eq!(delivery.html, "<p>Hi</p>");
    assert_eq!(delivery.text, "Hi");
    let (delivery, state) = match publish_on_sent(state, Ok(())) {
        PublishAction::Send(d, s) => (d, s),
        _ => panic!("expected a send"),
    };
    assert_eq!(delivery.recipient, "b@example.com");
    assert_eq!(delivery.title, "Issue 1");
    assert_eq!(respond(publish_on_sent(state, Ok(()))).ok(), Some(200));
}

#[test]
fn a_failed_send_stops_publishing() {
    let rows = vec![sub(Ok("a@example.com"), "confirmed"), sub(Ok("b@example.com"), "confirmed")];
    let state = AwaitingSubscribers { issue: Some(issue()) };
    let state = match publish_on_subscribers(state, Ok(rows)) {
        PublishAction::Send(_, s) => s,
        _ => panic!("expected a send"),
    };
    match respond(publish_on_sent(state, Err("timeout".to_string()))) {
        Err(AppError::UnexpectedError(m)) => assert_eq!(m, "Failed to send email to a@example.com"),
        _ => panic!("expected an unexpected error"),
    }
}
