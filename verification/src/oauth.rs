//! The fixed profile schema that the identity provider's endpoints return.
//!
//! The HTTP exchange itself is transport and lives outside the library; these
//! types carry the decoded payload into the verified login path.

use vstd::prelude::*;

verus! {

/// Personal section of the provider's profile payload.
pub struct OAuthPerson {
    pub full_name: String,
    pub display_picture: String,
}

/// Contact section of the provider's profile payload.
pub struct OAuthContactInformation {
    pub institute_webmail_address: String,
    pub primary_phone_number: String,
}

/// The provider's profile payload for an authenticated user.  `user_id` is
/// the provider's stable identifier, the natural key for the local user
/// directory.
pub struct OAuthUserData {
    pub user_id: i64,
    pub person: OAuthPerson,
    pub contact_information: OAuthContactInformation,
}

/// Body of a login request: the authorization code to exchange.
pub struct LoginRequest {
    pub code: String,
}

} // verus!
