//! Confirming a subscription from the link in the confirmation email.

use uuid::Uuid;
use vstd::prelude::*;
use vstd::string::StringExecFns;

use crate::domain::subscription_token::SubscriptionToken;
use crate::error::AppError;

verus! {

/// The query of a confirmation link.
pub struct Parameters {
    pub subscription_token: SubscriptionToken,
}

/// What confirming does once the token has been looked up.
pub enum ConfirmAction {
    /// Mark this subscriber as confirmed.
    ConfirmSubscriber(Uuid),
    /// Answer with this status and stop.
    Respond(u16),
}

/// Decides on the lookup of the token: a failed query is an unexpected error, an unknown
/// token is answered 404, and a known one leads to confirming its subscriber.
pub fn confirm_after_lookup(lookup: Result<Option<Uuid>, String>) -> (r: Result<
    ConfirmAction,
    AppError,
>)
    ensures
        match lookup {
            Err(_) => r matches Err(AppError::UnexpectedError(m))
                && m@ == "Failed to execute get subscriber id from token query."@,
            Ok(None) => r matches Ok(ConfirmAction::Respond(s)) && s == 404,
            Ok(Some(id)) => r == Ok::<ConfirmAction, AppError>(ConfirmAction::ConfirmSubscriber(id)),
        },
{
    match lookup {
        Err(_) => Err(
            AppError::UnexpectedError(
                String::from_str("Failed to execute get subscriber id from token query."),
            ),
        ),
        Ok(None) => Ok(ConfirmAction::Respond(404)),
        Ok(Some(id)) => Ok(ConfirmAction::ConfirmSubscriber(id)),
    }
}

/// Decides on the update that marks the subscriber confirmed: 200 when it succeeded,
/// an unexpected error otherwise.
pub fn confirm_after_update(update: Result<(), String>) -> (r: Result<u16, AppError>)
    ensures
        match update {
            Err(_) => r matches Err(AppError::UnexpectedError(m))
                && m@ == "Failed to execute confirm subscriber query."@,
            Ok(()) => r matches Ok(s) && s == 200,
        },
{
    match update {
        Err(_) => Err(
            AppError::UnexpectedError(String::from_str("Failed to execute confirm subscriber query.")),
        ),
        Ok(()) => Ok(200),
    }
}

} // verus!
