//! Identity, access control and score interpretation for a psychometric-test
//! backend.
//!
//! The crate covers the verified core of the service: parsing `"lo-hi"` range
//! strings, mapping a submitted score to an interpretation text, issuing and
//! verifying signed session credentials, upserting user records keyed by the
//! identity provider's stable id, and the two request guards (authenticated
//! user, admin user).

pub mod directory;
pub mod errors;
pub mod guards;
pub mod login;
pub mod models;
pub mod oauth;
pub mod score;
pub mod session;
