use vstd::prelude::*;

use crate::errors::{ApiError, ErrorKind};
use crate::ext::{lower_of, lowercase};
use crate::text::{str_eq, trim_spec, trim_str};

verus! {

/// A member's role within a project. `Owner` is held by exactly one user,
/// fixed at project creation; it grants membership administration. `Editor`
/// grants writes; `Viewer` grants reads only.
#[derive(Clone, Copy, Debug, PartialEq, Eq, Structural)]
pub enum Role {
    Owner,
    Editor,
    Viewer,
}

/// One (user, role) entry of a project's membership list.
#[derive(Debug)]
pub struct Membership {
    pub user_id: String,
    pub role: Role,
}

/// The mathematical value of a `Membership`.
pub struct MembershipModel {
    pub user_id: Seq<char>,
    pub role: Role,
}

impl View for Membership {
    type V = MembershipModel;

    open spec fn view(&self) -> MembershipModel {
        MembershipModel { user_id: self.user_id@, role: self.role }
    }
}

/// The first membership entry for `uid` at or after index `i`.
pub open spec fn find_member_from(ms: Seq<MembershipModel>, uid: Seq<char>, i: int) -> Option<
    MembershipModel,
>
    decreases ms.len() - i,
{
    if 0 <= i < ms.len() {
        if ms[i].user_id == uid {
            Some(ms[i])
        } else {
            find_member_from(ms, uid, i + 1)
        }
    } else {
        None
    }
}

/// The role `uid` holds in the membership list `ms`, if any.
pub open spec fn role_in(ms: Seq<MembershipModel>, uid: Seq<char>) -> Option<Role> {
    match find_member_from(ms, uid, 0) {
        Some(m) => Some(m.role),
        None => None,
    }
}

/// Whether a role grants write access: session edits, run mutation, and
/// item or result edits under the project.
pub open spec fn spec_can_write(role: Role) -> bool {
    role == Role::Owner || role == Role::Editor
}

/// Any membership grants read access.
pub open spec fn spec_can_read(role: Option<Role>) -> bool {
    role is Some
}

pub fn can_read(role: &Option<Role>) -> (r: bool)
    ensures
        r == spec_can_read(*role),
{
    role.is_some()
}

pub fn can_write_project(role: &Role) -> (r: bool)
    ensures
        r == spec_can_write(*role),
{
    match role {
        Role::Owner => true,
        Role::Editor => true,
        Role::Viewer => false,
    }
}

/// Whether the grantable-role text `input`, trimmed and lowercased, names
/// `editor` or `viewer`. The `owner` role can never be granted this way.
pub open spec fn spec_parse_member_role(input: Seq<char>) -> Option<Role> {
    let normal = lower_of(trim_spec(input));
    if normal == "editor"@ {
        Some(Role::Editor)
    } else if normal == "viewer"@ {
        Some(Role::Viewer)
    } else {
        None
    }
}

/// Parses a role supplied to membership administration. Only `editor` and
/// `viewer` may be granted; anything else is a validation error.
pub fn parse_member_role(input: &str) -> (r: Result<Role, ApiError>)
    ensures
        match r {
            Ok(role) => spec_parse_member_role(input@) == Some(role),
            Err(e) => spec_parse_member_role(input@) is None && e.kind == ErrorKind::Validation,
        },
{
    let normal = lowercase(trim_str(input));
    if str_eq(normal.as_str(), "editor") {
        Ok(Role::Editor)
    } else if str_eq(normal.as_str(), "viewer") {
        Ok(Role::Viewer)
    } else {
        Err(ApiError::new(ErrorKind::Validation, "role must be editor or viewer"))
    }
}

} // verus!
