use wellness_core::directory::UserDirectory;
use wellness_core::login::complete_login;
use wellness_core::models::{NewUser, Role};
use wellness_core::oauth::{OAuthContactInformation, OAuthPerson, OAuthUserData};
use wellness_core::guards::{require_admin, require_user};
use wellness_core::session::{generate_jwt, verify_jwt, SESSION_VALIDITY_SECONDS};

const NOW: i64 = 1_700_000_000;

fn secret() -> Vec<u8> {
    b"SECRET-REDACTED".to_vec()
}

fn profile(channeli_id: i64, name: &str) -> NewUser {
    NewUser {
        name: name.to_string(),
        email: "someone@example.edu".to_string(),
        phone_number: None,
        channeli_id,
        display_picture: None,
    }
}

#[test]
fn request_without_credential_is_unauthorized() {
    let dir = UserDirectory::new();
    assert!(require_user(&dir, None, &secret(), NOW).is_err());
}

#[test]
fn valid_session_resolves_the_stored_user() {
    let mut dir = UserDirectory::new();
    let u = dir.upsert(profile(4242, "Asha"), NOW);
    let token = generate_jwt(&u, &secret(), NOW).unwrap();
    let resolved = require_user(&dir, Some(&token), &secret(), NOW + 60).unwrap();
    assert_eq!(resolved.id, u.id);
    assert_eq!(resolved.name, "Asha");
}

#[test]
fn expired_session_is_unauthorized() {
    let mut dir = UserDirectory::new();
    let u = dir.upsert(profile(4242, "Asha"), NOW);
    let token = generate_jwt(&u, &secret(), NOW).unwrap();
    let later = NOW + SESSION_VALIDITY_SECONDS;
    assert!(require_user(&dir, Some(&token), &secret(), later).is_err());
}

#[test]
fn session_for_unknown_subject_is_unauthorized() {
    let mut dir = UserDirectory::new();
    let u = dir.upsert(profile(4242, "Asha"), NOW);
    // A credential minted for an id the directory never stored.
    let mut fake = u.clone();
    fake.id = 99;
    let token = generate_jwt(&fake, &secret(), NOW).unwrap();
    assert!(require_user(&dir, Some(&token), &secret(), NOW + 1).is_err());
}

#[test]
fn tampered_cookie_is_unauthorized() {
    let mut dir = UserDirectory::new();
    let u = dir.upsert(profile(4242, "Asha"), NOW);
    let token = generate_jwt(&u, &secret(), NOW).unwrap();
    let mut bytes = token.into_bytes();
    let mid = bytes.len() / 2;
    bytes[mid] = if bytes[mid] == b'A' { b'B' } else { b'A' };
    let tampered = String::from_utf8(bytes).unwrap();
    assert!(require_user(&dir, Some(&tampered), &secret(), NOW + 1).is_err());
}

#[test]
fn ordinary_user_passes_user_guard_but_not_admin_guard() {
    let mut dir = UserDirectory::new();
    let u = dir.upsert(profile(4242, "Asha"), NOW);
    let token = generate_jwt(&u, &secret(), NOW).unwrap();
    assert!(require_user(&dir, Some(&token), &secret(), NOW + 1).is_ok());
    assert!(require_admin(&dir, Some(&token), &secret(), NOW + 1).is_err());
}

#[test]
fn admin_guard_admits_exactly_the_elevated_user() {
    let mut dir = UserDirectory::new();
    let u = dir.upsert(profile(4242, "Asha"), NOW);
    let token = generate_jwt(&u, &secret(), NOW).unwrap();
    assert!(dir.set_role(u.id, Role::Admin));
    let admin = require_admin(&dir, Some(&token), &secret(), NOW + 1).unwrap();
    assert_eq!(admin.id, u.id);
    assert!(matches!(admin.role, Role::Admin));
    // Demoting the user closes the admin guard again, while the user guard
    // still admits the session.
    assert!(dir.set_role(u.id, Role::Standard));
    assert!(require_admin(&dir, Some(&token), &secret(), NOW + 1).is_err());
    assert!(require_user(&dir, Some(&token), &secret(), NOW + 1).is_ok());
}

fn payload(user_id: i64, name: &str) -> OAuthUserData {
    OAuthUserData {
        user_id,
        person: OAuthPerson {
            full_name: name.to_string(),
            display_picture: String::new(),
        },
        contact_information: OAuthContactInformation {
            institute_webmail_address: "asha@example.edu".to_string(),
            primary_phone_number: String::new(),
        },
    }
}

#[test]
fn complete_login_upserts_and_issues_a_working_session() {
    let mut dir = UserDirectory::new();
    let (user, token) = complete_login(&mut dir, payload(4242, "Asha"), &secret(), NOW).unwrap();
    assert_eq!(user.id, 1);
    assert_eq!(dir.count(), 1);
    assert_eq!(verify_jwt(&token, &secret(), NOW + 1), Ok(user.id));
    let resolved = require_user(&dir, Some(&token), &secret(), NOW + 1).unwrap();
    assert_eq!(resolved.id, user.id);
}

#[test]
fn repeated_login_updates_the_one_row() {
    let mut dir = UserDirectory::new();
    let (first, _) = complete_login(&mut dir, payload(4242, "Asha"), &secret(), NOW).unwrap();
    let (second, token) =
        complete_login(&mut dir, payload(4242, "Asha Rao"), &secret(), NOW + 60).unwrap();
    assert_eq!(dir.count(), 1);
    assert_eq!(second.id, first.id);
    assert_eq!(second.name, "Asha Rao");
    assert_eq!(second.created_at, first.created_at);
    let resolved = require_user(&dir, Some(&token), &secret(), NOW + 61).unwrap();
    assert_eq!(resolved.name, "Asha Rao");
}
