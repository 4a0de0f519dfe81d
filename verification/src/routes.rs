//! What the service's endpoints decide, apart from the I/O they perform.

pub mod login;
pub mod newsletters;
pub mod subscriptions;
pub mod subscriptions_confirm;
