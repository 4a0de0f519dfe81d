use newsletter::error::AppError;
use newsletter::domain::subscription_token::SubscriptionToken;
use newsletter::routes::subscriptions::{
    confirmation_email, confirmation_link, subscribe_on_inserted, subscribe_on_sent,
    subscribe_on_token_stored, subscribe_start, token_from_draws, AwaitingSend, FormData,
    SubscribeAction,
};
use newsletter::routes::subscriptions_confirm::{
    confirm_after_lookup, confirm_after_update, ConfirmAction,
};
use uuid::Uuid;

#[test]
fn confirmation_link_carries_the_token() {
    assert_eq!(
        confirmation_link("http://127.0.0.1:8000", "abc"),
        "http://127.0.0.1:8000/subscriptions/confirm?subscription_token=abc"
    );
}

#[test]
fn confirmation_email_bodies() {
    let m = confirmation_email("http://x", "T0k3n");
    let link = "http://x/subscriptions/confirm?subscription_token=T0k3n";
    assert_eq!(m.subject, "Welcome!");
    assert_eq!(
        m.html_body,
        format!(
            "Welcome to our newsletter!<br />Click <a href=\"{}\">here</a> to confirm your subscription.",
            link
        )
    );
    assert_eq!(
        m.text_body,
        format!("Welcome to our newsletter!\nVisit {} to confirm your subscription.", link)
    );
}

fn form() -> Option<FormData> {
    Some(FormData { email: "john@gmail.com".to_string(), name: "John".to_string() })
}

/// Runs a sign-up whose steps report `outcomes`; returns the status, the token that was
/// stored and the email that was sent, if any.
fn run(outcomes: &[bool]) -> (Option<u16>, Option<String>, Option<(String, String)>) {
    let mut stored_token = None;
    let mut sent = None;
    let mut outcomes = outcomes.iter().copied();
    let first = outcomes.next().unwrap_or(false);
    let mut action = subscribe_start("http://x", if first { form() } else { None });
    loop {
        action = match action {
            SubscribeAction::Respond(s) => return (Some(s), stored_token, sent),
            SubscribeAction::InsertSubscriber { form, next } => {
                assert_eq!(form.email, "john@gmail.com");
                assert_eq!(form.name, "John");
                match outcomes.next() {
                    Some(true) => subscribe_on_inserted(next, Ok(Uuid::from_u128(9))),
                    Some(false) => subscribe_on_inserted(next, Err("db".to_string())),
                    None => return (None, stored_token, sent),
                }
            }
            SubscribeAction::StoreToken { subscriber_id, token, next } => {
                assert_eq!(subscriber_id, Uuid::from_u128(9));
                stored_token = Some(token);
                match outcomes.next() {
                    Some(ok) => subscribe_on_token_stored(next, ok),
                    None => return (None, stored_token, sent),
                }
            }
            SubscribeAction::SendConfirmation { recipient, message, next } => {
                sent = Some((recipient, message.html_body));
                match outcomes.next() {
                    Some(ok) => return (Some(subscribe_on_sent(next, ok)), stored_token, sent),
                    None => return (None, stored_token, sent),
                }
            }
        };
    }
}

#[test]
fn a_sign_up_whose_steps_all_succeed_is_answered_200() {
    assert_eq!(run(&[true, true, true, true]).0, Some(200));
}

#[test]
fn a_malformed_sign_up_is_answered_400() {
    assert_eq!(run(&[false]).0, Some(400));
}

#[test]
fn a_failed_step_is_answered_500() {
    assert_eq!(run(&[true, false]).0, Some(500));
    assert_eq!(run(&[true, true, false]).0, Some(500));
    assert_eq!(run(&[true, true, true, false]).0, Some(500));
    assert_eq!(subscribe_on_sent(AwaitingSend {}, false), 500);
}

#[test]
fn the_emailed_link_holds_the_stored_token_and_goes_to_the_form_address() {
    let (_, token, sent) = run(&[true, true, true, true]);
    let token = token.unwrap();
    assert!(SubscriptionToken::parse(token.clone()).is_ok());
    let (recipient, html) = sent.unwrap();
    assert_eq!(recipient, "john@gmail.com");
    assert!(html.contains(&format!(
        "href=\"http://x/subscriptions/confirm?subscription_token={}\"",
        token
    )));
}

#[test]
fn tokens_are_spelled_from_the_draws() {
    let draws: Vec<u8> = b"Ab3dEfGh1jKlMn0pQrStUvWxY".to_vec();
    assert_eq!(token_from_draws(&draws), "Ab3dEfGh1jKlMn0pQrStUvWxY");
    assert_eq!(token_from_draws(&vec![]), "");
}

#[test]
fn unknown_tokens_are_answered_404() {
    assert!(matches!(confirm_after_lookup(Ok(None)), Ok(ConfirmAction::Respond(404))));
}

#[test]
fn known_tokens_lead_to_confirming_their_subscriber() {
    let id = Uuid::from_u128(42);
    match confirm_after_lookup(Ok(Some(id))) {
        Ok(ConfirmAction::ConfirmSubscriber(x)) => assert_eq!(x, id),
        _ => panic!("expected the subscriber to be confirmed"),
    }
}

#[test]
fn failed_queries_are_unexpected_errors() {
    match confirm_after_lookup(Err("db".to_string())) {
        Err(AppError::UnexpectedError(m)) => {
            assert_eq!(m, "Failed to execute get subscriber id from token query.")
        }
        _ => panic!("expected an unexpected error"),
    }
    match confirm_after_update(Err("db".to_string())) {
        Err(AppError::UnexpectedError(m)) => assert_eq!(m, "Failed to execute confirm subscriber query."),
        _ => panic!("expected an unexpected error"),
    }
    assert!(matches!(confirm_after_update(Ok(())), Ok(200)));
}
