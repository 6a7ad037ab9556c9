//! The tail of the login path: once the identity provider has vouched for
//! a profile, upsert the local user row and mint the session credential
//! bound to it.  The code exchange and profile fetch themselves are
//! transport and stay outside the library.

use vstd::prelude::*;

use crate::directory::{upsert_post, UserDirectory};
use crate::errors::SessionError;
use crate::models::{spec_new_user_of, NewUser, User};
use crate::oauth::OAuthUserData;
use crate::session::{generate_jwt, signed_token, token_claims, SESSION_VALIDITY_SECONDS};

verus! {

/// Upsert the user described by the provider payload and issue a session
/// credential whose subject is the stored row's id.  Both steps are owed:
/// the upsert always yields the row, and signing cannot fail.
pub fn complete_login(
    dir: &mut UserDirectory,
    data: OAuthUserData,
    secret: &Vec<u8>,
    now: i64,
) -> (r: Result<(User, String), SessionError>)
    requires
        old(dir).wf(),
        old(dir)@.len() + 1 <= i32::MAX,
        0 <= now,
        now + SESSION_VALIDITY_SECONDS <= i64::MAX,
    ensures
        final(dir).wf(),
        r matches Ok(p) && upsert_post(
            old(dir)@,
            spec_new_user_of(data),
            final(dir)@,
            p.0@,
            now as int,
        ) && p.1@ == signed_token(p.0.id, (now + SESSION_VALIDITY_SECONDS) as i64, secret@)
            && token_claims(p.1@, secret@) == Some(
            (p.0.id as i64, (now + SESSION_VALIDITY_SECONDS) as i64),
        ),
{
    let nu = NewUser::from_oauth_user_data(data);
    let user = dir.upsert(nu, now);
    match generate_jwt(&user, secret, now) {
        Ok(t) => Ok((user, t)),
        Err(e) => Err(e),
    }
}

} // verus!
