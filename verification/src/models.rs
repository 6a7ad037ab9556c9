//! The local identity records: stored users and the insertable profile
//! derived from the identity provider's payload.

use vstd::prelude::*;

use crate::oauth::OAuthUserData;

verus! {

/// Access tier of a user.  The stored admin flag is nullable; this closed
/// enumeration makes "absent means false" a fact of the type.
#[derive(Clone, Copy, PartialEq, Eq, Structural, Debug)]
pub enum Role {
    Standard,
    Admin,
}

/// The rule for reading a nullable admin flag: only an explicit `true`
/// elevates; an absent or `false` flag marks an ordinary user.
pub open spec fn spec_role_of_flag(flag: Option<bool>) -> Role {
    if flag == Option::<bool>::Some(true) {
        Role::Admin
    } else {
        Role::Standard
    }
}

impl Role {
    /// Read a nullable admin flag, elevating only on an explicit `true`.
    pub fn from_flag(flag: Option<bool>) -> (r: Role)
        ensures
            r == spec_role_of_flag(flag),
    {
        match flag {
            Option::Some(true) => Role::Admin,
            _ => Role::Standard,
        }
    }
}

/// View of an `Option<String>` as an optional character sequence.
pub open spec fn opt_str_view(o: Option<String>) -> Option<Seq<char>> {
    match o {
        Option::Some(s) => Option::Some(s@),
        Option::None => Option::None,
    }
}

/// Ghost image of a stored user row.
pub struct UserView {
    pub id: int,
    pub name: Seq<char>,
    pub email: Seq<char>,
    pub phone_number: Option<Seq<char>>,
    pub channeli_id: int,
    pub display_picture: Option<Seq<char>>,
    pub created_at: int,
    pub role: Role,
}

/// A stored user row.  `id` is assigned by the directory and stable;
/// `channeli_id` is the identity provider's stable key; `created_at` is a
/// Unix timestamp in seconds, immutable once the row exists.
pub struct User {
    pub id: i32,
    pub name: String,
    pub email: String,
    pub phone_number: Option<String>,
    pub channeli_id: i64,
    pub display_picture: Option<String>,
    pub created_at: i64,
    pub role: Role,
}

impl View for User {
    type V = UserView;

    open spec fn view(&self) -> UserView {
        UserView {
            id: self.id as int,
            name: self.name@,
            email: self.email@,
            phone_number: opt_str_view(self.phone_number),
            channeli_id: self.channeli_id as int,
            display_picture: opt_str_view(self.display_picture),
            created_at: self.created_at as int,
            role: self.role,
        }
    }
}

/// Duplicate an optional string.
fn clone_opt_string(o: &Option<String>) -> (r: Option<String>)
    ensures
        opt_str_view(r) == opt_str_view(*o),
{
    match o {
        Option::Some(s) => Option::Some(s.clone()),
        Option::None => Option::None,
    }
}

impl Clone for User {
    fn clone(&self) -> (r: Self)
        ensures
            r@ == self@,
    {
        User {
            id: self.id,
            name: self.name.clone(),
            email: self.email.clone(),
            phone_number: clone_opt_string(&self.phone_number),
            channeli_id: self.channeli_id,
            display_picture: clone_opt_string(&self.display_picture),
            created_at: self.created_at,
            role: self.role,
        }
    }
}

impl User {
    /// Whether this user carries the admin elevation.
    pub fn is_admin(&self) -> (b: bool)
        ensures
            b == (self@.role is Admin),
    {
        match self.role {
            Role::Admin => true,
            Role::Standard => false,
        }
    }
}

/// Ghost image of an insertable profile.
pub struct NewUserView {
    pub name: Seq<char>,
    pub email: Seq<char>,
    pub phone_number: Option<Seq<char>>,
    pub channeli_id: int,
    pub display_picture: Option<Seq<char>>,
}

/// The profile fields that a login writes into the directory: everything a
/// user row holds except the directory-owned id, creation time and role.
pub struct NewUser {
    pub name: String,
    pub email: String,
    pub phone_number: Option<String>,
    pub channeli_id: i64,
    pub display_picture: Option<String>,
}

impl View for NewUser {
    type V = NewUserView;

    open spec fn view(&self) -> NewUserView {
        NewUserView {
            name: self.name@,
            email: self.email@,
            phone_number: opt_str_view(self.phone_number),
            channeli_id: self.channeli_id as int,
            display_picture: opt_str_view(self.display_picture),
        }
    }
}

/// The profile that a provider payload maps to: empty phone or picture
/// strings normalise to an absent field.
pub open spec fn spec_new_user_of(data: OAuthUserData) -> NewUserView {
    NewUserView {
        name: data.person.full_name@,
        email: data.contact_information.institute_webmail_address@,
        phone_number: if data.contact_information.primary_phone_number@.len() == 0 {
            Option::None
        } else {
            Option::Some(data.contact_information.primary_phone_number@)
        },
        channeli_id: data.user_id as int,
        display_picture: if data.person.display_picture@.len() == 0 {
            Option::None
        } else {
            Option::Some(data.person.display_picture@)
        },
    }
}

impl NewUser {
    /// Map the identity provider's payload onto the local schema.
    pub fn from_oauth_user_data(user_data: OAuthUserData) -> (r: NewUser)
        ensures
            r@ == spec_new_user_of(user_data),
    {
        let phone_present = !user_data.contact_information.primary_phone_number.as_str().is_empty();
        let picture_present = !user_data.person.display_picture.as_str().is_empty();
        NewUser {
            name: user_data.person.full_name,
            email: user_data.contact_information.institute_webmail_address,
            phone_number: if phone_present {
                Option::Some(user_data.contact_information.primary_phone_number)
            } else {
                Option::None
            },
            channeli_id: user_data.user_id,
            display_picture: if picture_present {
                Option::Some(user_data.person.display_picture)
            } else {
                Option::None
            },
        }
    }
}

} // verus!
