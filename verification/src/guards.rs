//! The two request-time access guards.
//!
//! `require_user` resolves a request's session credential to a stored user;
//! `require_admin` additionally demands the admin role.  Every failure —
//! missing credential, bad signature, expiry, unknown subject, missing
//! elevation — is the same `Unauthorized`, so that nothing leaks about
//! which step refused.

use vstd::prelude::*;

use crate::directory::{has_user_id, user_id_index, UserDirectory};
use crate::errors::UnauthorizedError;
use crate::models::{spec_role_of_flag, User, UserView};
use crate::session::{spec_verify, verify_jwt};

verus! {

/// View of the optional session cookie carried by a request.
pub open spec fn cookie_view(cookie: Option<&String>) -> Option<Seq<char>> {
    match cookie {
        Option::Some(t) => Option::Some(t@),
        Option::None => Option::None,
    }
}

/// What resolving a request's session to a user yields: a credential must
/// be present, must verify at `now`, and its subject must name a stored
/// row; that row is the request's user.
pub open spec fn spec_require_user(
    users: Seq<UserView>,
    cookie: Option<Seq<char>>,
    secret: Seq<u8>,
    now: int,
) -> Option<UserView> {
    match cookie {
        Option::Some(tok) => match spec_verify(tok, secret, now) {
            Option::Some(sub) => if has_user_id(users, sub as int) {
                Option::Some(users[user_id_index(users, sub as int)])
            } else {
                Option::None
            },
            Option::None => Option::None,
        },
        Option::None => Option::None,
    }
}

/// What the admin guard yields: the resolved user, when that user carries
/// the admin role.
pub open spec fn spec_require_admin(
    users: Seq<UserView>,
    cookie: Option<Seq<char>>,
    secret: Seq<u8>,
    now: int,
) -> Option<UserView> {
    match spec_require_user(users, cookie, secret, now) {
        Option::Some(u) => if u.role is Admin {
            Option::Some(u)
        } else {
            Option::None
        },
        Option::None => Option::None,
    }
}

/// Resolve the session credential of a request to its stored user, or
/// refuse with `Unauthorized`.
pub fn require_user(
    dir: &UserDirectory,
    cookie: Option<&String>,
    secret: &Vec<u8>,
    now: i64,
) -> (r: Result<User, UnauthorizedError>)
    requires
        dir.wf(),
    ensures
        match r {
            Ok(u) => spec_require_user(dir@, cookie_view(cookie), secret@, now as int) == Some(
                u@,
            ),
            Err(_) => spec_require_user(dir@, cookie_view(cookie), secret@, now as int) is None,
        },
{
    let tok = match cookie {
        Some(t) => t,
        None => {
            return Err(UnauthorizedError);
        },
    };
    let sub = match verify_jwt(tok.as_str(), secret, now) {
        Ok(s) => s,
        Err(_) => {
            return Err(UnauthorizedError);
        },
    };
    match dir.lookup(sub) {
        Some(u) => Ok(u),
        None => Err(UnauthorizedError),
    }
}

/// Resolve the session credential of a request to a stored user carrying
/// the admin role, or refuse with `Unauthorized`.
pub fn require_admin(
    dir: &UserDirectory,
    cookie: Option<&String>,
    secret: &Vec<u8>,
    now: i64,
) -> (r: Result<User, UnauthorizedError>)
    requires
        dir.wf(),
    ensures
        match r {
            Ok(u) => spec_require_admin(dir@, cookie_view(cookie), secret@, now as int) == Some(
                u@,
            ),
            Err(_) => spec_require_admin(dir@, cookie_view(cookie), secret@, now as int) is None,
        },
{
    match require_user(dir, cookie, secret, now) {
        Ok(u) => {
            if u.is_admin() {
                Ok(u)
            } else {
                Err(UnauthorizedError)
            }
        },
        Err(e) => Err(e),
    }
}

/// The admin guard succeeds exactly when the user guard succeeds and the
/// resolved user carries the admin role, and it hands back that very
/// user.
pub proof fn lemma_admin_guard_refines_user_guard(
    users: Seq<UserView>,
    cookie: Option<Seq<char>>,
    secret: Seq<u8>,
    now: int,
)
    ensures
        spec_require_admin(users, cookie, secret, now) is Some <==> (spec_require_user(
            users,
            cookie,
            secret,
            now,
        ) matches Some(u) && u.role is Admin),
        spec_require_admin(users, cookie, secret, now) is Some ==> spec_require_admin(
            users,
            cookie,
            secret,
            now,
        ) == spec_require_user(users, cookie, secret, now),
{
}

/// A user whose stored admin flag is absent or `false` never passes the
/// admin guard: only an explicit `true` elevates.
pub proof fn lemma_no_elevation_without_flag(
    users: Seq<UserView>,
    cookie: Option<Seq<char>>,
    secret: Seq<u8>,
    now: int,
    flag: Option<bool>,
)
    requires
        spec_require_user(users, cookie, secret, now) matches Some(u) && u.role
            == spec_role_of_flag(flag),
        flag != Some(true),
    ensures
        spec_require_admin(users, cookie, secret, now) is None,
{
}

} // verus!
