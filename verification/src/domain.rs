//! Values of the newsletter's domain.

pub mod subscription_token;

use vstd::prelude::*;

verus! {

/// `uuid::Uuid`, the identifier of subscribers and users. The library only carries it.
#[verifier::external_type_specification]
#[verifier::external_body]
pub struct ExUuid(uuid::Uuid);

} // verus!
