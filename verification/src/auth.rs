use vstd::prelude::*;

use crate::errors::{ApiError, ErrorKind};
use crate::ext::{is_uuid_text, is_valid_uuid};
use crate::text::{
    starts_with_spec, starts_with_str, strip_all, strip_prefix_all, trim_spec, trim_str,
};

verus! {

/// The bearer token issued for a user: a fixed scheme tag followed by the
/// user's identifier.
pub open spec fn token_of(user_id: Seq<char>) -> Seq<char> {
    "uran."@ + user_id
}

pub fn make_token(user_id: &str) -> (r: String)
    ensures
        r@ == token_of(user_id@),
{
    String::from_str("uran.").concat(user_id)
}

/// The view of an optional authorization header: an absent or unreadable
/// header behaves as the empty string.
pub open spec fn auth_view(header: Option<&str>) -> Seq<char> {
    match header {
        Some(h) => h@,
        None => ""@,
    }
}

/// The token part of an authorization header: everything after the
/// `Bearer ` scheme repetitions, trimmed.
pub open spec fn spec_bearer_token(auth: Seq<char>) -> Seq<char> {
    trim_spec(strip_prefix_all(auth, "Bearer "@))
}

/// The user identifier carried by a bearer token: everything after the
/// token tag repetitions.
pub open spec fn spec_bearer_user_id(auth: Seq<char>) -> Seq<char> {
    strip_prefix_all(spec_bearer_token(auth), "uran."@)
}

/// Resolves an inbound authorization header to the verified user identifier
/// it carries. Fails as an authentication error when the header is missing,
/// uses another scheme, carries another token tag, or does not carry
/// well-formed UUID text.
pub fn parse_bearer_user_id(header: Option<&str>) -> (r: Result<String, ApiError>)
    ensures
        ({
            let a = auth_view(header);
            match r {
                Ok(uid) => starts_with_spec(a, "Bearer "@) && starts_with_spec(
                    spec_bearer_token(a),
                    "uran."@,
                ) && is_uuid_text(spec_bearer_user_id(a)) && uid@ == spec_bearer_user_id(a),
                Err(e) => e.kind == ErrorKind::Auth && (!starts_with_spec(a, "Bearer "@)
                    || !starts_with_spec(spec_bearer_token(a), "uran."@) || !is_uuid_text(
                    spec_bearer_user_id(a),
                )),
            }
        }),
{
    proof {
        reveal_strlit("Bearer ");
        reveal_strlit("uran.");
    }
    let auth: &str = match header {
        Some(h) => h,
        None => "",
    };
    if !starts_with_str(auth, "Bearer ") {
        return Err(ApiError::new(ErrorKind::Auth, "authorization required"));
    }
    let token = trim_str(strip_all(auth, "Bearer "));
    if !starts_with_str(token, "uran.") {
        return Err(ApiError::new(ErrorKind::Auth, "invalid token"));
    }
    let user_id = strip_all(token, "uran.");
    if !is_valid_uuid(user_id) {
        return Err(ApiError::new(ErrorKind::Auth, "invalid token"));
    }
    Ok(user_id.to_owned())
}

} // verus!
