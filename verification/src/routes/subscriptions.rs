//! Sign-up: the subscription token, the confirmation email and the order of the steps.

use rand::distr::Alphanumeric;
use rand::rngs::ThreadRng;
use rand::RngExt;
use vstd::prelude::*;
use vstd::string::StringExecFns;
use vstd::utf8::encode_utf8;
use uuid::Uuid;

use crate::domain::subscription_token::{
    is_valid_token, lemma_valid_token_is_25_bytes, TOKEN_LENGTH,
};
use crate::error::{is_url_unreserved, percent_encode};
use crate::text::{is_ascii_alphanumeric, push_char};

verus! {

/// The form a visitor signs up with.
pub struct FormData {
    pub email: String,
    pub name: String,
}

/// `rand::rngs::ThreadRng`, the thread's random generator; the library only hands it on.
#[verifier::external_type_specification]
#[verifier::external_body]
pub struct ExThreadRng(ThreadRng);

/// `rand::rng`: the thread's random generator. Nothing is claimed of it; `rand` panics
/// here only if the operating system cannot seed it.
#[verifier::external_body]
fn thread_rng() -> ThreadRng {
    rand::rng()
}

/// `RngExt::sample` with the `Alphanumeric` distribution of `rand`: its source draws from
/// the table `A-Z`, `a-z`, `0-9`, so the byte is an ASCII letter or digit. Which one is
/// left to chance and not stated.
#[verifier::external_body]
fn sample_alphanumeric(rng: &mut ThreadRng) -> (b: u8)
    ensures
        is_ascii_alphanumeric(b as char),
{
    rng.sample(Alphanumeric)
}

/// The token spelled by a sequence of drawn bytes, one character per byte; 25 draws that are
/// all ASCII letters or digits spell a valid token.
pub fn token_from_draws(draws: &Vec<u8>) -> (t: String)
    ensures
        t@ == draws@.map_values(|b: u8| b as char),
        (draws@.len() == TOKEN_LENGTH && forall|i: int|
            0 <= i < draws@.len() ==> #[trigger] is_ascii_alphanumeric(draws@[i] as char))
            ==> is_valid_token(t@),
{
    let mut t = String::new();
    let n = draws.len();
    for i in 0..n
        invariant
            n == draws@.len(),
            t@ == draws@.take(i as int).map_values(|b: u8| b as char),
    {
        push_char(&mut t, draws[i] as char);
        assert(draws@.take(i + 1).map_values(|b: u8| b as char) =~= draws@.take(i as int).map_values(
            |b: u8| b as char,
        ).push(draws@[i as int] as char));
    }
    assert(draws@.take(n as int) =~= draws@);
    proof {
        if draws@.len() == TOKEN_LENGTH && forall|i: int|
            0 <= i < draws@.len() ==> #[trigger] is_ascii_alphanumeric(draws@[i] as char) {
            assert forall|i: int| 0 <= i < t@.len() implies #[trigger] is_ascii_alphanumeric(t@[i]) by {
                assert(t@[i] == draws@[i] as char);
            }
        }
    }
    t
}

/// A fresh random subscription token: 25 draws of an ASCII letter or digit, spelled out by
/// `token_from_draws`.
pub fn generate_subscription_token() -> (t: String)
    ensures
        is_valid_token(t@),
{
    let mut rng = thread_rng();
    let mut draws: Vec<u8> = Vec::new();
    for i in 0..TOKEN_LENGTH
        invariant
            draws@.len() == i,
            forall|j: int| 0 <= j < i ==> #[trigger] is_ascii_alphanumeric(draws@[j] as char),
    {
        let b = sample_alphanumeric(&mut rng);
        draws.push(b);
    }
    token_from_draws(&draws)
}

/// The link that confirms a subscription.
pub open spec fn confirmation_link_text(base_url: Seq<char>, token: Seq<char>) -> Seq<char> {
    base_url + "/subscriptions/confirm?subscription_token="@ + token
}

/// The link that confirms the subscription holding `subscription_token`.
pub fn confirmation_link(base_url: &str, subscription_token: &str) -> (link: String)
    ensures
        link@ == confirmation_link_text(base_url@, subscription_token@),
{
    let mut link = String::from_str(base_url);
    link.append("/subscriptions/confirm?subscription_token=");
    link.append(subscription_token);
    link
}

/// The email that asks a new subscriber to confirm.
pub struct ConfirmationEmail {
    pub subject: String,
    pub html_body: String,
    pub text_body: String,
}

/// The HTML body of the confirmation email.
pub open spec fn confirmation_html(link: Seq<char>) -> Seq<char> {
    "Welcome to our newsletter!<br />Click <a href=\""@ + link
        + "\">here</a> to confirm your subscription."@
}

/// The plain-text body of the confirmation email.
pub open spec fn confirmation_text(link: Seq<char>) -> Seq<char> {
    "Welcome to our newsletter!\nVisit "@ + link + " to confirm your subscription."@
}

/// The confirmation email for the subscription holding `subscription_token`.
pub fn confirmation_email(base_url: &str, subscription_token: &str) -> (m: ConfirmationEmail)
    ensures
        m.subject@ == "Welcome!"@,
        m.html_body@ == confirmation_html(confirmation_link_text(base_url@, subscription_token@)),
        m.text_body@ == confirmation_text(confirmation_link_text(base_url@, subscription_token@)),
{
    let link = confirmation_link(base_url, subscription_token);
    let mut html_body = String::from_str("Welcome to our newsletter!<br />Click <a href=\"");
    html_body.append(link.as_str());
    html_body.append("\">here</a> to confirm your subscription.");
    let mut text_body = String::from_str("Welcome to our newsletter!\nVisit ");
    text_body.append(link.as_str());
    text_body.append(" to confirm your subscription.");
    ConfirmationEmail { subject: String::from_str("Welcome!"), html_body, text_body }
}

/// The steps of a sign-up, in the order they are taken.
#[derive(PartialEq, Eq, Structural, Clone, Copy, Debug)]
pub enum SubscribeStep {
    /// Reading the form.
    ReadForm,
    /// Saving the subscriber as pending confirmation.
    InsertSubscriber,
    /// Saving a fresh subscription token for the subscriber.
    StoreToken,
    /// Sending the confirmation email.
    SendConfirmation,
}

/// The status with which the outcome of `step` ends the sign-up, or `None` when the next
/// step follows: a form that cannot be read is answered 400, any later failure 500, and the
/// sent confirmation 200.
pub open spec fn step_status(step: SubscribeStep, succeeded: bool) -> Option<u16> {
    if succeeded {
        if step == SubscribeStep::SendConfirmation {
            Some(200)
        } else {
            None
        }
    } else if step == SubscribeStep::ReadForm {
        Some(400)
    } else {
        Some(500)
    }
}

/// The step that follows `step`.
pub open spec fn next_step(step: SubscribeStep) -> SubscribeStep {
    match step {
        SubscribeStep::ReadForm => SubscribeStep::InsertSubscriber,
        SubscribeStep::InsertSubscriber => SubscribeStep::StoreToken,
        _ => SubscribeStep::SendConfirmation,
    }
}

/// A sign-up whose subscriber is being saved.
pub struct AwaitingInsert {
    pub base_url: String,
    pub email: String,
}

/// A sign-up whose token is being saved for its subscriber.
pub struct AwaitingTokenStore {
    pub base_url: String,
    pub email: String,
    pub token: String,
}

/// A sign-up whose confirmation email is being sent.
pub struct AwaitingSend {}

/// What a sign-up does next; each step but the answer carries the sign-up that waits for
/// its outcome.
#[allow(inconsistent_fields)]
pub enum SubscribeAction {
    /// Save this subscriber as pending confirmation and report the new id.
    InsertSubscriber { form: FormData, next: AwaitingInsert },
    /// Save this token for this subscriber and report whether it was saved.
    StoreToken { subscriber_id: Uuid, token: String, next: AwaitingTokenStore },
    /// Send this email to this address and report whether it was sent.
    SendConfirmation { recipient: String, message: ConfirmationEmail, next: AwaitingSend },
    /// Answer with this status and stop.
    Respond(u16),
}

/// How a sign-up begins: a form that could not be read is answered 400; otherwise the
/// subscriber is saved, and the sign-up keeps the form's email and the base URL of links.
pub fn subscribe_start(base_url: &str, form: Option<FormData>) -> (a: SubscribeAction)
    ensures
        a is Respond <==> step_status(SubscribeStep::ReadForm, form is Some) is Some,
        a matches SubscribeAction::Respond(s) ==> step_status(SubscribeStep::ReadForm, form is Some)
            == Some(s),
        form matches Some(f) ==> (a matches SubscribeAction::InsertSubscriber { form: g, next } && {
            &&& g.email@ == f.email@
            &&& g.name@ == f.name@
            &&& next.base_url@ == base_url@
            &&& next.email@ == f.email@
        }),
{
    match form {
        None => SubscribeAction::Respond(400),
        Some(f) => {
            let next = AwaitingInsert { base_url: String::from_str(base_url), email: f.email.clone() };
            SubscribeAction::InsertSubscriber { form: f, next }
        },
    }
}

/// After the subscriber was saved: a failure is answered 500; otherwise a fresh token is drawn
/// for the new subscriber and saved, and the sign-up keeps that very token.
pub fn subscribe_on_inserted(state: AwaitingInsert, inserted: Result<Uuid, String>) -> (a:
    SubscribeAction)
    ensures
        a is Respond <==> step_status(SubscribeStep::InsertSubscriber, inserted is Ok) is Some,
        a matches SubscribeAction::Respond(s) ==> step_status(
            SubscribeStep::InsertSubscriber,
            inserted is Ok,
        ) == Some(s),
        inserted matches Ok(id) ==> (a matches SubscribeAction::StoreToken {
            subscriber_id,
            token,
            next,
        } && {
            &&& subscriber_id == id
            &&& is_valid_token(token@)
            &&& next.token@ == token@
            &&& next.email@ == state.email@
            &&& next.base_url@ == state.base_url@
        }),
{
    match inserted {
        Err(_) => SubscribeAction::Respond(500),
        Ok(id) => {
            let token = generate_subscription_token();
            let next = AwaitingTokenStore {
                base_url: state.base_url,
                email: state.email,
                token: token.clone(),
            };
            SubscribeAction::StoreToken { subscriber_id: id, token, next }
        },
    }
}

/// After the token was saved: a failure is answered 500; otherwise the confirmation email,
/// whose link holds the saved token, goes to the address the subscriber signed up with.
pub fn subscribe_on_token_stored(state: AwaitingTokenStore, stored: bool) -> (a: SubscribeAction)
    ensures
        a is Respond <==> step_status(SubscribeStep::StoreToken, stored) is Some,
        a matches SubscribeAction::Respond(s) ==> step_status(SubscribeStep::StoreToken, stored)
            == Some(s),
        stored ==> (a matches SubscribeAction::SendConfirmation { recipient, message, next } && {
            let link = confirmation_link_text(state.base_url@, state.token@);
            &&& recipient@ == state.email@
            &&& message.subject@ == "Welcome!"@
            &&& message.html_body@ == confirmation_html(link)
            &&& message.text_body@ == confirmation_text(link)
        }),
{
    if !stored {
        return SubscribeAction::Respond(500);
    }
    let message = confirmation_email(state.base_url.as_str(), state.token.as_str());
    SubscribeAction::SendConfirmation { recipient: state.email, message, next: AwaitingSend {} }
}

/// After the confirmation email: 200 when it was sent, 500 otherwise.
pub fn subscribe_on_sent(state: AwaitingSend, sent: bool) -> (status: u16)
    ensures
        step_status(SubscribeStep::SendConfirmation, sent) == Some(status),
{
    if sent {
        200
    } else {
        500
    }
}

/// The status a sign-up answers with when its steps report `outcomes` in turn, starting
/// from `step`; `None` while it still waits for an outcome.
pub open spec fn subscribe_run(step: SubscribeStep, outcomes: Seq<bool>) -> Option<u16>
    decreases outcomes.len(),
{
    if outcomes.len() == 0 {
        None
    } else {
        match step_status(step, outcomes[0]) {
            Some(status) => Some(status),
            None => subscribe_run(next_step(step), outcomes.drop_first()),
        }
    }
}

/// A sign-up is answered 200 exactly when its four steps all succeed; a malformed form is
/// answered 400 and a failure of any later step 500.
pub proof fn law_subscribe_outcomes(outcomes: Seq<bool>)
    requires
        outcomes.len() == 4,
    ensures
        (subscribe_run(SubscribeStep::ReadForm, outcomes) == Some(200u16)) <==> (outcomes[0]
            && outcomes[1] && outcomes[2] && outcomes[3]),
        !outcomes[0] ==> subscribe_run(SubscribeStep::ReadForm, outcomes) == Some(400u16),
        (outcomes[0] && !(outcomes[1] && outcomes[2] && outcomes[3])) ==> subscribe_run(
            SubscribeStep::ReadForm,
            outcomes,
        ) == Some(500u16),
{
    let o1 = outcomes.drop_first();
    let o2 = o1.drop_first();
    let o3 = o2.drop_first();
    let o4 = o3.drop_first();
    assert(o1[0] == outcomes[1]);
    assert(o2[0] == outcomes[2]);
    assert(o3[0] == outcomes[3]);
    assert(o4.len() == 0);
    reveal_with_fuel(subscribe_run, 5);
}

/// Percent-encoding leaves a byte string of unreserved bytes as it is, byte for character.
proof fn lemma_unreserved_bytes_stay(bytes: Seq<u8>)
    requires
        forall|i: int| 0 <= i < bytes.len() ==> #[trigger] is_url_unreserved(bytes[i]),
    ensures
        percent_encode(bytes) == bytes.map_values(|b: u8| b as char),
    decreases bytes.len(),
{
    if bytes.len() > 0 {
        let rest = bytes.drop_first();
        assert forall|i: int| 0 <= i < rest.len() implies #[trigger] is_url_unreserved(rest[i]) by {
            assert(rest[i] == bytes[i + 1]);
        }
        lemma_unreserved_bytes_stay(rest);
        assert(is_url_unreserved(bytes[0]));
        assert(percent_encode(bytes) =~= bytes.map_values(|b: u8| b as char));
    }
}

/// A subscription token needs no escaping in a URL: percent-encoding it gives it back as it
/// is, so the confirmation link carries the token verbatim.
pub proof fn law_tokens_travel_unescaped(t: Seq<char>)
    requires
        is_valid_token(t),
    ensures
        percent_encode(encode_utf8(t)) == t,
{
    lemma_valid_token_is_25_bytes(t);
    let bytes = encode_utf8(t);
    assert forall|i: int| 0 <= i < bytes.len() implies #[trigger] is_url_unreserved(bytes[i]) by {
        assert(bytes[i] == t[i] as u8);
        assert(is_ascii_alphanumeric(t[i]));
    }
    lemma_unreserved_bytes_stay(bytes);
    assert forall|i: int| 0 <= i < t.len() implies #[trigger] (bytes[i] as char) == t[i] by {
        assert(bytes[i] == t[i] as u8);
        assert(is_ascii_alphanumeric(t[i]));
    }
    assert(bytes.map_values(|b: u8| b as char) =~= t);
}

} // verus!
