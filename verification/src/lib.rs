//! Verified core of a newsletter service: subscription tokens, the
//! confirmation flow, HTTP Basic credentials, the login page and the
//! responses that application errors turn into.

pub mod domain;
pub mod error;
pub mod routes;
pub mod startup;
pub mod text;
