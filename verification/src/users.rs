use vstd::prelude::*;

use crate::auth::{make_token, token_of};
use crate::errors::{ApiError, ErrorKind};
use crate::ext::{fresh_uuid, lower_of, lowercase, now_iso};
use crate::text::{contains_char, str_eq, trim_spec, trim_str};

verus! {

/// A registered user, as the user registry stores it.
#[derive(Debug)]
pub struct User {
    pub id: String,
    pub name: String,
    pub email: String,
    pub password: String,
    pub created_at: String,
}

/// The mathematical value of a `User`.
pub struct UserModel {
    pub id: Seq<char>,
    pub name: Seq<char>,
    pub email: Seq<char>,
    pub password: Seq<char>,
    pub created_at: Seq<char>,
}

impl View for User {
    type V = UserModel;

    open spec fn view(&self) -> UserModel {
        UserModel {
            id: self.id@,
            name: self.name@,
            email: self.email@,
            password: self.password@,
            created_at: self.created_at@,
        }
    }
}

/// A user as it is shown to callers: everything but the credential secret.
#[derive(Debug)]
pub struct SafeUser {
    pub id: String,
    pub name: String,
    pub email: String,
    pub created_at: String,
}

/// The mathematical value of a `SafeUser`.
pub struct SafeUserModel {
    pub id: Seq<char>,
    pub name: Seq<char>,
    pub email: Seq<char>,
    pub created_at: Seq<char>,
}

impl View for SafeUser {
    type V = SafeUserModel;

    open spec fn view(&self) -> SafeUserModel {
        SafeUserModel {
            id: self.id@,
            name: self.name@,
            email: self.email@,
            created_at: self.created_at@,
        }
    }
}

/// What a user looks like with the credential secret dropped.
pub open spec fn safe_of(u: UserModel) -> SafeUserModel {
    SafeUserModel { id: u.id, name: u.name, email: u.email, created_at: u.created_at }
}

pub fn map_safe_user(user: &User) -> (r: SafeUser)
    ensures
        r@ == safe_of(user@),
{
    SafeUser {
        id: user.id.clone(),
        name: user.name.clone(),
        email: user.email.clone(),
        created_at: user.created_at.clone(),
    }
}

/// The registry as a sequence of mathematical values.
pub open spec fn users_view(us: Seq<User>) -> Seq<UserModel> {
    us.map_values(|u: User| u@)
}

/// The first user at or after index `i` whose stored email is `email`.
pub open spec fn find_by_email_from(us: Seq<UserModel>, email: Seq<char>, i: int) -> Option<
    UserModel,
>
    decreases us.len() - i,
{
    if 0 <= i < us.len() {
        if us[i].email == email {
            Some(us[i])
        } else {
            find_by_email_from(us, email, i + 1)
        }
    } else {
        None
    }
}

/// The first user at or after index `i` with identifier `id`.
pub open spec fn find_by_id_from(us: Seq<UserModel>, id: Seq<char>, i: int) -> Option<UserModel>
    decreases us.len() - i,
{
    if 0 <= i < us.len() {
        if us[i].id == id {
            Some(us[i])
        } else {
            find_by_id_from(us, id, i + 1)
        }
    } else {
        None
    }
}

/// The first user at or after index `i` matching both email and password.
pub open spec fn find_login_from(
    us: Seq<UserModel>,
    email: Seq<char>,
    password: Seq<char>,
    i: int,
) -> Option<UserModel>
    decreases us.len() - i,
{
    if 0 <= i < us.len() {
        if us[i].email == email && us[i].password == password {
            Some(us[i])
        } else {
            find_login_from(us, email, password, i + 1)
        }
    } else {
        None
    }
}

/// Looks a user up by stored email, exactly as stored (registration already
/// lowercased it).
pub fn find_user_by_email<'a>(users: &'a Vec<User>, email: &str) -> (r: Option<&'a User>)
    ensures
        match r {
            Some(u) => find_by_email_from(users_view(users@), email@, 0) == Some(u@),
            None => find_by_email_from(users_view(users@), email@, 0) is None,
        },
{
    let n = users.len();
    let mut i: usize = 0;
    while i < n
        invariant
            0 <= i <= n == users@.len(),
            find_by_email_from(users_view(users@), email@, 0) == find_by_email_from(
                users_view(users@),
                email@,
                i as int,
            ),
        decreases n - i,
    {
        if str_eq(users[i].email.as_str(), email) {
            return Some(&users[i]);
        }
        i = i + 1;
    }
    None
}

/// Looks a user up by identifier.
pub fn find_user_by_id<'a>(users: &'a Vec<User>, id: &str) -> (r: Option<&'a User>)
    ensures
        match r {
            Some(u) => find_by_id_from(users_view(users@), id@, 0) == Some(u@),
            None => find_by_id_from(users_view(users@), id@, 0) is None,
        },
{
    let n = users.len();
    let mut i: usize = 0;
    while i < n
        invariant
            0 <= i <= n == users@.len(),
            find_by_id_from(users_view(users@), id@, 0) == find_by_id_from(
                users_view(users@),
                id@,
                i as int,
            ),
        decreases n - i,
    {
        if str_eq(users[i].id.as_str(), id) {
            return Some(&users[i]);
        }
        i = i + 1;
    }
    None
}

/// What the registry holds after a successful registration.
pub open spec fn registered_user(
    user_id: Seq<char>,
    name: Seq<char>,
    email: Seq<char>,
    password: Seq<char>,
    now: Seq<char>,
) -> UserModel {
    UserModel {
        id: user_id,
        name: trim_spec(name),
        email: lower_of(trim_spec(email)),
        password: password,
        created_at: now,
    }
}

/// Whether a registration request is malformed: a trimmed display name of
/// fewer than two characters, an email without `@`, or a password of fewer
/// than eight characters.
pub open spec fn register_invalid(name: Seq<char>, email: Seq<char>, password: Seq<char>) -> bool {
    trim_spec(name).len() < 2 || !lower_of(trim_spec(email)).contains('@') || password.len() < 8
}

/// Registers a user under a caller-supplied identifier and timestamp.
///
/// The display name and email are trimmed and the email lowercased before
/// any check. On success the user is appended to the registry and the
/// caller receives a bearer token along with the stored profile. A
/// malformed request is a validation error; an email already registered is
/// a conflict; in either case the registry is left unchanged.
pub fn register_user_with_id(
    users: &mut Vec<User>,
    name: &str,
    email: &str,
    password: &str,
    user_id: String,
    now: &str,
) -> (r: Result<(String, SafeUser), ApiError>)
    ensures
        ({
            let bad = register_invalid(name@, email@, password@);
            let email_l = lower_of(trim_spec(email@));
            let dup = find_by_email_from(users_view(old(users)@), email_l, 0) is Some;
            let stored = registered_user(user_id@, name@, email@, password@, now@);
            match r {
                Ok((token, su)) => !bad && !dup && users_view(final(users)@) == users_view(
                    old(users)@,
                ).push(stored) && token@ == token_of(user_id@) && su@ == safe_of(stored),
                Err(e) => (bad || dup) && final(users)@ == old(users)@ && (e.kind
                    == ErrorKind::Validation <==> bad) && (e.kind == ErrorKind::Conflict <==> !bad
                    && dup),
            }
        }),
{
    let name_t = trim_str(name);
    let email_l = lowercase(trim_str(email));
    if name_t.unicode_len() < 2 {
        return Err(ApiError::new(ErrorKind::Validation, "name must be at least 2 characters"));
    }
    if !contains_char(email_l.as_str(), '@') {
        return Err(ApiError::new(ErrorKind::Validation, "malformed email"));
    }
    if password.unicode_len() < 8 {
        return Err(ApiError::new(ErrorKind::Validation, "password must be at least 8 characters"));
    }
    if find_user_by_email(users, email_l.as_str()).is_some() {
        return Err(ApiError::new(ErrorKind::Conflict, "a user with this email already exists"));
    }
    let token = make_token(user_id.as_str());
    let ghost uid: Seq<char> = user_id@;
    let user = User {
        id: user_id,
        name: name_t.to_owned(),
        email: email_l,
        password: password.to_owned(),
        created_at: now.to_owned(),
    };
    let su = map_safe_user(&user);
    users.push(user);
    proof {
        assert(users_view(users@) =~= users_view(old(users)@).push(
            registered_user(uid, name@, email@, password@, now@),
        ));
    }
    Ok((token, su))
}


/// One way a successful registration can have gone: the registry grew by
/// the user that `user_id` and `now` determine, and the caller received
/// that user's token and stored profile.
pub open spec fn user_registered_witness(
    old_users: Seq<UserModel>,
    new_users: Seq<UserModel>,
    token: Seq<char>,
    su: SafeUserModel,
    name: Seq<char>,
    email: Seq<char>,
    password: Seq<char>,
    user_id: Seq<char>,
    now: Seq<char>,
) -> bool {
    let stored = registered_user(user_id, name, email, password, now);
    new_users == old_users.push(stored) && token == token_of(user_id) && su == safe_of(stored)
}

/// Registers a user under a freshly drawn identifier, stamped with the
/// current time.
pub fn register_user(users: &mut Vec<User>, name: &str, email: &str, password: &str) -> (r: Result<
    (String, SafeUser),
    ApiError,
>)
    ensures
        ({
            let bad = register_invalid(name@, email@, password@);
            let dup = find_by_email_from(
                users_view(old(users)@),
                lower_of(trim_spec(email@)),
                0,
            ) is Some;
            match r {
                Ok((token, su)) => !bad && !dup && exists|uid: Seq<char>, now: Seq<char>|
                    #[trigger] user_registered_witness(
                        users_view(old(users)@),
                        users_view(final(users)@),
                        token@,
                        su@,
                        name@,
                        email@,
                        password@,
                        uid,
                        now,
                    ),
                Err(e) => (bad || dup) && final(users)@ == old(users)@ && (e.kind
                    == ErrorKind::Validation <==> bad) && (e.kind == ErrorKind::Conflict <==> !bad
                    && dup),
            }
        }),
{
    let user_id = fresh_uuid();
    let now = now_iso();
    let ghost uid: Seq<char> = user_id@;
    let ghost nowv: Seq<char> = now@;
    let r = register_user_with_id(users, name, email, password, user_id, now.as_str());
    proof {
        if r is Ok {
            assert(user_registered_witness(
                users_view(old(users)@),
                users_view(users@),
                r->Ok_0.0@,
                r->Ok_0.1@,
                name@,
                email@,
                password@,
                uid,
                nowv,
            ));
        }
    }
    r
}


/// A missing email is missing at every index.
proof fn lemma_find_email_none(us: Seq<UserModel>, email: Seq<char>, i: int)
    requires
        0 <= i <= us.len(),
        find_by_email_from(us, email, i) is None,
    ensures
        forall|k: int| i <= k < us.len() ==> #[trigger] us[k].email != email,
    decreases us.len() - i,
{
    if i < us.len() {
        lemma_find_email_none(us, email, i + 1);
    }
}

/// Law: stored emails stay pairwise distinct — a registration that the
/// duplicate check lets through can never introduce a second user with an
/// email already on file.
pub proof fn lemma_register_keeps_emails_unique(us: Seq<UserModel>, stored: UserModel)
    requires
        forall|i: int, j: int| 0 <= i < j < us.len() ==> us[i].email != us[j].email,
        find_by_email_from(us, stored.email, 0) is None,
    ensures
        forall|i: int, j: int|
            0 <= i < j < us.push(stored).len() ==> us.push(stored)[i].email != us.push(
                stored,
            )[j].email,
{
    lemma_find_email_none(us, stored.email, 0);
    let ns = us.push(stored);
    assert forall|i: int, j: int|
        0 <= i < j < ns.len() implies ns[i].email != ns[j].email by {
        if j < us.len() {
            assert(us[i].email != us[j].email);
        } else {
            assert(ns[j] == stored);
            assert(us[i].email != stored.email);
        }
    }
}

/// Authenticates by email and password. The email is trimmed and lowercased
/// before the lookup; a miss on either field is an authentication error.
pub fn login_user(users: &Vec<User>, email: &str, password: &str) -> (r: Result<
    (String, SafeUser),
    ApiError,
>)
    ensures
        ({
            let found = find_login_from(
                users_view(users@),
                lower_of(trim_spec(email@)),
                password@,
                0,
            );
            match r {
                Ok((token, su)) => found matches Some(u) && token@ == token_of(u.id) && su@
                    == safe_of(u),
                Err(e) => found is None && e.kind == ErrorKind::Auth,
            }
        }),
{
    let email_l = lowercase(trim_str(email));
    let n = users.len();
    let mut i: usize = 0;
    while i < n
        invariant
            0 <= i <= n == users@.len(),
            email_l@ == lower_of(trim_spec(email@)),
            find_login_from(users_view(users@), email_l@, password@, 0) == find_login_from(
                users_view(users@),
                email_l@,
                password@,
                i as int,
            ),
        decreases n - i,
    {
        if str_eq(users[i].email.as_str(), email_l.as_str()) && str_eq(
            users[i].password.as_str(),
            password,
        ) {
            let token = make_token(users[i].id.as_str());
            return Ok((token, map_safe_user(&users[i])));
        }
        i = i + 1;
    }
    Err(ApiError::new(ErrorKind::Auth, "wrong email or password"))
}

/// The profile of the authenticated user, or not-found when the identifier
/// is no longer registered.
pub fn user_profile(users: &Vec<User>, user_id: &str) -> (r: Result<SafeUser, ApiError>)
    ensures
        ({
            let found = find_by_id_from(users_view(users@), user_id@, 0);
            match r {
                Ok(su) => found matches Some(u) && su@ == safe_of(u),
                Err(e) => found is None && e.kind == ErrorKind::NotFound,
            }
        }),
{
    match find_user_by_id(users, user_id) {
        Some(u) => Ok(map_safe_user(u)),
        None => Err(ApiError::new(ErrorKind::NotFound, "user not found")),
    }
}

} // verus!
