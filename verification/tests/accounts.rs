use uran_core::auth::parse_bearer_user_id;
use uran_core::errors::ErrorKind;
use uran_core::users::{map_safe_user, register_user_with_id, login_user, user_profile, User};

const UID_A: &str = "11111111-1111-4111-8111-111111111111";
const UID_B: &str = "22222222-2222-4222-8222-222222222222";

fn registered() -> Vec<User> {
    let mut users = Vec::new();
    register_user_with_id(
        &mut users,
        "  Alice  ",
        " Alice@Example.COM ",
        "password-1",
        UID_A.to_string(),
        "t0",
    )
    .unwrap();
    users
}

#[test]
fn registration_trims_and_lowercases() {
    let mut users = Vec::new();
    let (token, safe) = register_user_with_id(
        &mut users,
        "  Alice  ",
        " Alice@Example.COM ",
        "password-1",
        UID_A.to_string(),
        "t0",
    )
    .unwrap();
    assert_eq!(token, format!("uran.{}", UID_A));
    assert_eq!(safe.name, "Alice");
    assert_eq!(safe.email, "alice@example.com");
    assert_eq!(safe.created_at, "t0");
    assert_eq!(users.len(), 1);
    assert_eq!(users[0].password, "password-1");
}

#[test]
fn registration_validates_name_email_password() {
    let mut users = Vec::new();
    let e = register_user_with_id(&mut users, " A ", "a@b.c", "password-1", UID_A.to_string(), "t0")
        .unwrap_err();
    assert_eq!(e.kind, ErrorKind::Validation);
    let e = register_user_with_id(&mut users, "Alice", "nomail", "password-1", UID_A.to_string(), "t0")
        .unwrap_err();
    assert_eq!(e.kind, ErrorKind::Validation);
    let e = register_user_with_id(&mut users, "Alice", "a@b.c", "short", UID_A.to_string(), "t0")
        .unwrap_err();
    assert_eq!(e.kind, ErrorKind::Validation);
    assert!(users.is_empty());
}

#[test]
fn duplicate_email_is_a_conflict_case_insensitively() {
    let mut users = registered();
    let e = register_user_with_id(
        &mut users,
        "Also Alice",
        "ALICE@example.com",
        "password-2",
        UID_B.to_string(),
        "t1",
    )
    .unwrap_err();
    assert_eq!(e.kind, ErrorKind::Conflict);
    assert_eq!(e.status_code(), 409);
    assert_eq!(users.len(), 1);
}

#[test]
fn login_matches_stored_credentials() {
    let users = registered();
    let (token, safe) = login_user(&users, "ALICE@EXAMPLE.com ", "password-1").unwrap();
    assert_eq!(token, format!("uran.{}", UID_A));
    assert_eq!(safe.id, UID_A);
    let e = login_user(&users, "alice@example.com", "wrong-password").unwrap_err();
    assert_eq!(e.kind, ErrorKind::Auth);
    assert_eq!(e.status_code(), 401);
    let e = login_user(&users, "nobody@example.com", "password-1").unwrap_err();
    assert_eq!(e.kind, ErrorKind::Auth);
}

#[test]
fn profile_lookup_by_identifier() {
    let users = registered();
    let safe = user_profile(&users, UID_A).unwrap();
    assert_eq!(safe.email, "alice@example.com");
    let e = user_profile(&users, UID_B).unwrap_err();
    assert_eq!(e.kind, ErrorKind::NotFound);
}

#[test]
fn safe_user_drops_the_secret() {
    let users = registered();
    let safe = map_safe_user(&users[0]);
    assert_eq!(safe.id, users[0].id);
    assert_eq!(safe.name, users[0].name);
    assert_eq!(safe.email, users[0].email);
    assert_eq!(safe.created_at, users[0].created_at);
}

#[test]
fn bearer_tokens_resolve_back_to_the_user() {
    let header = format!("Bearer uran.{}", UID_A);
    let uid = parse_bearer_user_id(Some(header.as_str())).unwrap();
    assert_eq!(uid, UID_A);
    // registration's own token round-trips
    let users = registered();
    let (token, _) = login_user(&users, "alice@example.com", "password-1").unwrap();
    let header = format!("Bearer {}", token);
    assert_eq!(parse_bearer_user_id(Some(header.as_str())).unwrap(), UID_A);
}

#[test]
fn bad_authorization_headers_are_rejected() {
    for header in [
        None,
        Some(""),
        Some("Basic abc"),
        Some("Bearer "),
        Some("Bearer some-other-token"),
        Some("Bearer uran.not-a-uuid"),
    ] {
        let e = parse_bearer_user_id(header).unwrap_err();
        assert_eq!(e.kind, ErrorKind::Auth);
        assert_eq!(e.status_code(), 401);
    }
}

#[test]
fn bearer_parsing_trims_and_strips_repeated_tags() {
    let header = format!("Bearer Bearer  uran.{} ", UID_A);
    assert_eq!(parse_bearer_user_id(Some(header.as_str())).unwrap(), UID_A);
}
