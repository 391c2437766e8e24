use vstd::prelude::*;

use crate::access::{find_member_from, role_in, spec_parse_member_role, Membership, MembershipModel, Role, parse_member_role};
use crate::errors::{ApiError, ErrorKind};
use crate::ext::{lower_of, lowercase};
use crate::projects::{
    build_project_for_user, find_project_from, find_project_index, membership_role, pfu_of,
    projects_view, wf_project, wf_projects, Project, ProjectForUser, ProjectModel,
};
use crate::text::{contains_char, str_eq, trim_spec, trim_str};
use crate::users::{find_by_email_from, find_by_id_from, find_user_by_email, find_user_by_id, users_view, User, UserModel};

verus! {

/// The index of the first membership entry for `uid` at or after `i`.
pub open spec fn member_index_from(ms: Seq<MembershipModel>, uid: Seq<char>, i: int) -> Option<int>
    decreases ms.len() - i,
{
    if 0 <= i < ms.len() {
        if ms[i].user_id == uid {
            Some(i)
        } else {
            member_index_from(ms, uid, i + 1)
        }
    } else {
        None
    }
}

/// How `member_index_from` relates to the membership list and to
/// `find_member_from`: it names the first matching entry, or none at all.
pub proof fn lemma_member_index(ms: Seq<MembershipModel>, uid: Seq<char>, i: int)
    requires
        0 <= i <= ms.len(),
    ensures
        match member_index_from(ms, uid, i) {
            Some(j) => i <= j < ms.len() && ms[j].user_id == uid && find_member_from(ms, uid, i)
                == Some(ms[j]) && (forall|k: int| i <= k < j ==> #[trigger] ms[k].user_id != uid),
            None => find_member_from(ms, uid, i) is None && (forall|k: int|
                i <= k < ms.len() ==> #[trigger] ms[k].user_id != uid),
        },
    decreases ms.len() - i,
{
    if i < ms.len() && ms[i].user_id != uid {
        lemma_member_index(ms, uid, i + 1);
    }
}

/// In a well-formed project the owner's entry is found with the owner role.
pub proof fn lemma_find_member_some(ms: Seq<MembershipModel>, uid: Seq<char>, i: int)
    requires
        0 <= i <= ms.len(),
        exists|j: int| i <= j < ms.len() && #[trigger] ms[j].user_id == uid,
    ensures
        find_member_from(ms, uid, i) matches Some(m) && m.user_id == uid && ms.contains(m),
    decreases ms.len() - i,
{
    if ms[i].user_id == uid {
        assert(0 <= i < ms.len() && ms[i] == ms[i]);
    } else {
        let j = choose|j: int| i <= j < ms.len() && #[trigger] ms[j].user_id == uid;
        assert(i + 1 <= j < ms.len() && ms[j].user_id == uid);
        lemma_find_member_some(ms, uid, i + 1);
    }
}

/// Law: in any well-formed project, the owner holds the `owner` role.
pub proof fn lemma_wf_owner_role(p: ProjectModel)
    requires
        wf_project(p),
    ensures
        role_in(p.members, p.owner_id) == Some(Role::Owner),
{
    lemma_find_member_some(p.members, p.owner_id, 0);
    let m = find_member_from(p.members, p.owner_id, 0)->0;
    let x = choose|x: int| 0 <= x < p.members.len() && p.members[x] == m;
    assert(p.members[x].role == Role::Owner);
}

/// A membership list with the entry for `uid` overwritten, or appended when
/// none exists.
pub open spec fn upsert_member(ms: Seq<MembershipModel>, uid: Seq<char>, role: Role) -> Seq<
    MembershipModel,
> {
    match member_index_from(ms, uid, 0) {
        Some(j) => ms.update(j, MembershipModel { user_id: uid, role }),
        None => ms.push(MembershipModel { user_id: uid, role }),
    }
}

/// Law: granting `uid` a role other than `owner` neither disturbs the
/// owner's entry nor breaks the project invariant, as long as `uid` is not
/// the owner.
pub proof fn lemma_upsert_member_wf(p: ProjectModel, uid: Seq<char>, role: Role)
    requires
        wf_project(p),
        uid != p.owner_id,
        role != Role::Owner,
    ensures
        wf_project(ProjectModel { members: upsert_member(p.members, uid, role), ..p }),
{
    let ms = p.members;
    lemma_member_index(ms, uid, 0);
    let o = choose|o: int| 0 <= o < ms.len() && ms[o].user_id == p.owner_id;
    match member_index_from(ms, uid, 0) {
        Some(j) => {
            let ms2 = ms.update(j, MembershipModel { user_id: uid, role });
            assert(forall|x: int| 0 <= x < ms2.len() ==> #[trigger] ms2[x].user_id == ms[x].user_id);
            assert(ms2[o].user_id == p.owner_id);
        },
        None => {
            let ms2 = ms.push(MembershipModel { user_id: uid, role });
            assert(ms2[o].user_id == p.owner_id);
        },
    }
}

/// Law: removing entry `k` of a well-formed project's membership list keeps
/// the invariant, as long as `k` is not the owner's entry.
pub proof fn lemma_remove_member_wf(p: ProjectModel, k: int)
    requires
        wf_project(p),
        0 <= k < p.members.len(),
        p.members[k].user_id != p.owner_id,
    ensures
        wf_project(ProjectModel { members: p.members.remove(k), ..p }),
{
    let ms = p.members;
    let ms2 = ms.remove(k);
    assert(forall|x: int|
        0 <= x < ms2.len() ==> #[trigger] ms2[x] == (if x < k {
            ms[x]
        } else {
            ms[x + 1]
        }));
    let o = choose|o: int| 0 <= o < ms.len() && ms[o].user_id == p.owner_id;
    if o < k {
        assert(ms2[o].user_id == p.owner_id);
    } else {
        assert(o != k);
        assert(ms2[o - 1].user_id == p.owner_id);
    }
}

/// The index of the membership entry for `uid` in `project`, if any.
pub fn member_index(project: &Project, uid: &str) -> (r: Option<usize>)
    ensures
        match r {
            Some(k) => k < project.members@.len() && member_index_from(
                project@.members,
                uid@,
                0,
            ) == Some(k as int),
            None => member_index_from(project@.members, uid@, 0) is None,
        },
{
    let n = project.members.len();
    let mut i: usize = 0;
    while i < n
        invariant
            0 <= i <= n == project.members@.len(),
            member_index_from(project@.members, uid@, 0) == member_index_from(
                project@.members,
                uid@,
                i as int,
            ),
        decreases n - i,
    {
        if str_eq(project.members[i].user_id.as_str(), uid) {
            return Some(i);
        }
        i = i + 1;
    }
    None
}

/// The user added or updated by membership administration, as reported back
/// to the acting owner.
#[derive(Debug)]
pub struct AddedMember {
    pub id: String,
    pub email: String,
    pub name: String,
    pub role: Role,
}

/// The mathematical value of an `AddedMember`.
pub struct AddedMemberModel {
    pub id: Seq<char>,
    pub email: Seq<char>,
    pub name: Seq<char>,
    pub role: Role,
}

impl View for AddedMember {
    type V = AddedMemberModel;

    open spec fn view(&self) -> AddedMemberModel {
        AddedMemberModel { id: self.id@, email: self.email@, name: self.name@, role: self.role }
    }
}

/// A project model with its membership list replaced and `updated_at`
/// stamped.
pub open spec fn project_with_members(
    p: ProjectModel,
    ms: Seq<MembershipModel>,
    now: Seq<char>,
) -> ProjectModel {
    ProjectModel { members: ms, updated_at: now, ..p }
}

/// Grants `email`'s user the given role on a project, or overwrites the
/// role the user already holds. Only the project's owner may do this, the
/// grantable roles are `editor` and `viewer`, and the owner's own entry can
/// never be the target.
pub fn add_member(
    users: &Vec<User>,
    projects: &mut Vec<Project>,
    project_id: &str,
    actor_id: &str,
    email: &str,
    role_input: &str,
    now: &str,
) -> (r: Result<(AddedMember, ProjectForUser), ApiError>)
    requires
        wf_projects(projects_view(old(projects)@)),
    ensures
        wf_projects(projects_view(final(projects)@)),
        ({
            let ps = projects_view(old(projects)@);
            let us = users_view(users@);
            let rp = spec_parse_member_role(role_input@);
            let email_l = lower_of(trim_spec(email@));
            let v1 = rp is None || !email_l.contains('@');
            let inv = find_by_email_from(us, email_l, 0);
            let fp = find_project_from(ps, project_id@, 0);
            let nf = !v1 && (inv is None || fp is None);
            let actor_owner = !v1 && !nf && role_in(ps[fp->0].members, actor_id@) == Some(
                Role::Owner,
            );
            let own_target = actor_owner && inv->0.id == ps[fp->0].owner_id;
            match r {
                Ok((added, pview)) => {
                    let updated = project_with_members(
                        ps[fp->0],
                        upsert_member(ps[fp->0].members, inv->0.id, rp->0),
                        now@,
                    );
                    actor_owner && !own_target && projects_view(final(projects)@) == ps.update(
                        fp->0,
                        updated,
                    ) && added@ == (AddedMemberModel {
                        id: inv->0.id,
                        email: inv->0.email,
                        name: inv->0.name,
                        role: rp->0,
                    }) && pview@ == pfu_of(updated, Role::Owner)
                },
                Err(e) => (v1 || nf || !actor_owner || own_target) && final(projects)@ == old(
                    projects,
                )@ && (e.kind == ErrorKind::Validation <==> v1 || own_target) && (e.kind
                    == ErrorKind::NotFound <==> nf) && (e.kind == ErrorKind::Permission <==> !v1
                    && !nf && !actor_owner),
            }
        }),
{
    let role = match parse_member_role(role_input) {
        Ok(role) => role,
        Err(e) => {
            return Err(e);
        },
    };
    let email_l = lowercase(trim_str(email));
    if !contains_char(email_l.as_str(), '@') {
        return Err(ApiError::new(ErrorKind::Validation, "malformed email"));
    }
    let invitee = match find_user_by_email(users, email_l.as_str()) {
        Some(u) => u,
        None => {
            return Err(ApiError::new(ErrorKind::NotFound, "no user with this email"));
        },
    };
    let j = match find_project_index(projects, project_id) {
        Some(j) => j,
        None => {
            return Err(ApiError::new(ErrorKind::NotFound, "project not found"));
        },
    };
    match membership_role(&projects[j], actor_id) {
        Some(Role::Owner) => {},
        _ => {
            return Err(
                ApiError::new(ErrorKind::Permission, "only the owner may manage access"),
            );
        },
    }
    if str_eq(invitee.id.as_str(), projects[j].owner_id.as_str()) {
        return Err(ApiError::new(ErrorKind::Validation, "the owner's role cannot be changed"));
    }
    let added = AddedMember {
        id: invitee.id.clone(),
        email: invitee.email.clone(),
        name: invitee.name.clone(),
        role: role,
    };
    let ghost ps = projects_view(old(projects)@);
    let ghost old_model = ps[j as int];
    let ghost uid: Seq<char> = invitee@.id;
    let mi = member_index(&projects[j], invitee.id.as_str());
    proof {
        lemma_member_index(old_model.members, uid, 0);
    }
    match mi {
        Some(k) => {
            projects[j].members[k].role = role;
        },
        None => {
            projects[j].members.push(Membership { user_id: invitee.id.clone(), role });
        },
    }
    projects[j].updated_at = now.to_owned();
    let ghost updated = project_with_members(
        old_model,
        upsert_member(old_model.members, uid, role),
        now@,
    );
    proof {
        assert(projects@[j as int]@.members =~= upsert_member(old_model.members, uid, role));
        assert(projects@[j as int]@ == updated);
        assert(projects_view(projects@) =~= ps.update(j as int, updated));
        lemma_upsert_member_wf(old_model, uid, role);
        assert forall|k: int|
            0 <= k < projects_view(projects@).len() implies wf_project(
            #[trigger] projects_view(projects@)[k],
        ) by {
            assert(wf_project(ps[k]));
            if k != j {
                assert(projects_view(projects@)[k] == ps[k]);
            } else {
                assert(projects_view(projects@)[k].members == updated.members);
                assert(projects_view(projects@)[k].owner_id == old_model.owner_id);
            }
        }
    }
    let pview = build_project_for_user(&projects[j], Role::Owner);
    Ok((added, pview))
}


/// Decides a single project's invariant at run time, so that a caller
/// holding data from an outside store can establish `wf_project` before
/// using the mutating operations.
pub fn check_project_wf(project: &Project) -> (r: bool)
    ensures
        r == wf_project(project@),
{
    let ghost ms = project@.members;
    proof {
        lemma_member_index(ms, project@.owner_id, 0);
    }
    let owner_entry = member_index(project, project.owner_id.as_str());
    if owner_entry.is_none() {
        return false;
    }
    let n = project.members.len();
    let mut i: usize = 0;
    while i < n
        invariant
            0 <= i <= n == ms.len(),
            ms == project@.members,
            n == project.members@.len(),
            forall|k: int|
                0 <= k < i ==> ((#[trigger] ms[k].role == Role::Owner) <==> ms[k].user_id
                    == project@.owner_id),
        decreases n - i,
    {
        let same_id = str_eq(project.members[i].user_id.as_str(), project.owner_id.as_str());
        let owner_role = match project.members[i].role {
            Role::Owner => true,
            _ => false,
        };
        if owner_role != same_id {
            proof {
                assert(!((ms[i as int].role == Role::Owner) <==> ms[i as int].user_id
                    == project@.owner_id));
                assert(!wf_project(project@));
            }
            return false;
        }
        i = i + 1;
    }
    let mut x: usize = 0;
    while x < n
        invariant
            0 <= x <= n == ms.len(),
            ms == project@.members,
            n == project.members@.len(),
            forall|a: int, b: int|
                0 <= a < b < ms.len() && a < x ==> #[trigger] ms[a].user_id != #[trigger] ms[b].user_id,
        decreases n - x,
    {
        let mut y: usize = x + 1;
        while y < n
            invariant
                0 <= x < y <= n == ms.len(),
                ms == project@.members,
                n == project.members@.len(),
                forall|b: int| x < b < y ==> ms[x as int].user_id != #[trigger] ms[b].user_id,
            decreases n - y,
        {
            if str_eq(project.members[x].user_id.as_str(), project.members[y].user_id.as_str()) {
                proof {
                    assert(0 <= x < y < ms.len() && ms[x as int].user_id == ms[y as int].user_id);
                    assert(!wf_project(project@));
                }
                return false;
            }
            y = y + 1;
        }
        x = x + 1;
    }
    true
}

/// Decides the whole collection's invariant at run time.
pub fn check_projects_wf(projects: &Vec<Project>) -> (r: bool)
    ensures
        r == wf_projects(projects_view(projects@)),
{
    let ghost pv = projects_view(projects@);
    let n = projects.len();
    let mut i: usize = 0;
    while i < n
        invariant
            0 <= i <= n == pv.len(),
            pv == projects_view(projects@),
            n == projects@.len(),
            forall|k: int| 0 <= k < i ==> wf_project(#[trigger] pv[k]),
        decreases n - i,
    {
        if !check_project_wf(&projects[i]) {
            proof {
                assert(0 <= i < pv.len() && !wf_project(pv[i as int]));
                assert(!wf_projects(pv));
            }
            return false;
        }
        i = i + 1;
    }
    true
}

/// One membership entry as shown when listing a project's members: the
/// stored role joined with the user's profile fields, which default to
/// empty text when the user record is gone.
#[derive(Debug)]
pub struct ProjectMemberView {
    pub user_id: String,
    pub role: Role,
    pub email: String,
    pub name: String,
}

/// The mathematical value of a `ProjectMemberView`.
pub struct ProjectMemberViewModel {
    pub user_id: Seq<char>,
    pub role: Role,
    pub email: Seq<char>,
    pub name: Seq<char>,
}

impl View for ProjectMemberView {
    type V = ProjectMemberViewModel;

    open spec fn view(&self) -> ProjectMemberViewModel {
        ProjectMemberViewModel {
            user_id: self.user_id@,
            role: self.role,
            email: self.email@,
            name: self.name@,
        }
    }
}

/// A membership entry joined with the user registry.
pub open spec fn member_view_of(m: MembershipModel, us: Seq<UserModel>) -> ProjectMemberViewModel {
    match find_by_id_from(us, m.user_id, 0) {
        Some(u) => ProjectMemberViewModel {
            user_id: m.user_id,
            role: m.role,
            email: u.email,
            name: u.name,
        },
        None => ProjectMemberViewModel {
            user_id: m.user_id,
            role: m.role,
            email: Seq::empty(),
            name: Seq::empty(),
        },
    }
}

fn build_member_view(users: &Vec<User>, member: &Membership) -> (r: ProjectMemberView)
    ensures
        r@ == member_view_of(member@, users_view(users@)),
{
    match find_user_by_id(users, member.user_id.as_str()) {
        Some(u) => ProjectMemberView {
            user_id: member.user_id.clone(),
            role: member.role,
            email: u.email.clone(),
            name: u.name.clone(),
        },
        None => ProjectMemberView {
            user_id: member.user_id.clone(),
            role: member.role,
            email: String::new(),
            name: String::new(),
        },
    }
}

/// A whole membership list joined with the user registry, in stored order.
pub open spec fn members_listing(ms: Seq<MembershipModel>, us: Seq<UserModel>) -> Seq<
    ProjectMemberViewModel,
> {
    ms.map_values(|m: MembershipModel| member_view_of(m, us))
}

/// Lists a project's members for an actor holding any membership. An
/// unknown project and a project the actor is no member of fail with one
/// indistinguishable not-found answer, so that membership cannot be probed.
pub fn list_members(
    users: &Vec<User>,
    projects: &Vec<Project>,
    project_id: &str,
    actor_id: &str,
) -> (r: Result<Vec<ProjectMemberView>, ApiError>)
    ensures
        ({
            let ps = projects_view(projects@);
            let us = users_view(users@);
            let fp = find_project_from(ps, project_id@, 0);
            match r {
                Ok(v) => fp matches Some(j) && role_in(ps[j].members, actor_id@) is Some
                    && v@.map_values(|mv: ProjectMemberView| mv@) == members_listing(
                    ps[j].members,
                    us,
                ),
                Err(e) => (fp is None || (fp matches Some(j) && role_in(
                    ps[j].members,
                    actor_id@,
                ) is None)) && e.kind == ErrorKind::NotFound && e.message@ == "project not found"@,
            }
        }),
{
    let j = match find_project_index(projects, project_id) {
        Some(j) => j,
        None => {
            return Err(ApiError::new(ErrorKind::NotFound, "project not found"));
        },
    };
    if membership_role(&projects[j], actor_id).is_none() {
        return Err(ApiError::new(ErrorKind::NotFound, "project not found"));
    }
    let ghost ms = projects_view(projects@)[j as int].members;
    let ghost us = users_view(users@);
    let n = projects[j].members.len();
    let mut out: Vec<ProjectMemberView> = Vec::new();
    let mut i: usize = 0;
    while i < n
        invariant
            0 <= i <= n == ms.len(),
            ms == projects_view(projects@)[j as int].members,
            us == users_view(users@),
            j < projects@.len(),
            n == projects@[j as int].members@.len(),
            out@.len() == i,
            forall|x: int| 0 <= x < i ==> #[trigger] out@[x]@ == member_view_of(ms[x], us),
        decreases n - i,
    {
        let mv = build_member_view(users, &projects[j].members[i]);
        out.push(mv);
        i = i + 1;
    }
    proof {
        assert(out@.map_values(|mv: ProjectMemberView| mv@) =~= members_listing(ms, us));
    }
    Ok(out)
}

/// Overwrites the role an existing member holds. Only the project's owner
/// may do this; the owner's own entry can never be the target, and an
/// unknown target is not-found.
pub fn update_member(
    users: &Vec<User>,
    projects: &mut Vec<Project>,
    project_id: &str,
    actor_id: &str,
    target_user_id: &str,
    role_input: &str,
    now: &str,
) -> (r: Result<(ProjectMemberView, String), ApiError>)
    requires
        wf_projects(projects_view(old(projects)@)),
    ensures
        wf_projects(projects_view(final(projects)@)),
        ({
            let ps = projects_view(old(projects)@);
            let us = users_view(users@);
            let rp = spec_parse_member_role(role_input@);
            let fp = find_project_from(ps, project_id@, 0);
            let v1 = rp is None;
            let nf1 = !v1 && fp is None;
            let perm = !v1 && !nf1 && role_in(ps[fp->0].members, actor_id@) != Some(Role::Owner);
            let own = !v1 && !nf1 && !perm && target_user_id@ == ps[fp->0].owner_id;
            let mi = member_index_from(ps[fp->0].members, target_user_id@, 0);
            let nf2 = !v1 && !nf1 && !perm && !own && mi is None;
            match r {
                Ok((mv, updated_at)) => {
                    let entry = MembershipModel { user_id: target_user_id@, role: rp->0 };
                    let updated = project_with_members(
                        ps[fp->0],
                        ps[fp->0].members.update(mi->0, entry),
                        now@,
                    );
                    !v1 && !nf1 && !perm && !own && mi is Some && projects_view(final(projects)@)
                        == ps.update(fp->0, updated) && updated_at@ == now@ && mv@
                        == member_view_of(entry, us)
                },
                Err(e) => (v1 || nf1 || perm || own || nf2) && final(projects)@ == old(
                    projects,
                )@ && (e.kind == ErrorKind::Validation <==> v1 || own) && (e.kind
                    == ErrorKind::NotFound <==> nf1 || nf2) && (e.kind == ErrorKind::Permission
                    <==> perm),
            }
        }),
{
    let role = match parse_member_role(role_input) {
        Ok(role) => role,
        Err(e) => {
            return Err(e);
        },
    };
    let j = match find_project_index(projects, project_id) {
        Some(j) => j,
        None => {
            return Err(ApiError::new(ErrorKind::NotFound, "project not found"));
        },
    };
    match membership_role(&projects[j], actor_id) {
        Some(Role::Owner) => {},
        _ => {
            return Err(ApiError::new(ErrorKind::Permission, "only the owner may manage access"));
        },
    }
    if str_eq(target_user_id, projects[j].owner_id.as_str()) {
        return Err(ApiError::new(ErrorKind::Validation, "the owner role cannot be changed"));
    }
    let ghost ps = projects_view(old(projects)@);
    let ghost old_model = ps[j as int];
    let k = match member_index(&projects[j], target_user_id) {
        Some(k) => k,
        None => {
            return Err(ApiError::new(ErrorKind::NotFound, "member not found"));
        },
    };
    proof {
        lemma_member_index(old_model.members, target_user_id@, 0);
    }
    projects[j].members[k].role = role;
    projects[j].updated_at = now.to_owned();
    let ghost entry = MembershipModel { user_id: target_user_id@, role };
    let ghost updated = project_with_members(
        old_model,
        old_model.members.update(k as int, entry),
        now@,
    );
    proof {
        assert(projects@[j as int]@.members =~= old_model.members.update(k as int, entry));
        assert(projects@[j as int]@ == updated);
        assert(projects_view(projects@) =~= ps.update(j as int, updated));
        assert(upsert_member(old_model.members, target_user_id@, role) == old_model.members.update(
            k as int,
            entry,
        ));
        lemma_upsert_member_wf(old_model, target_user_id@, role);
        assert forall|x: int|
            0 <= x < projects_view(projects@).len() implies wf_project(
            #[trigger] projects_view(projects@)[x],
        ) by {
            assert(wf_project(ps[x]));
            if x != j {
                assert(projects_view(projects@)[x] == ps[x]);
            } else {
                assert(projects_view(projects@)[x].members == updated.members);
                assert(projects_view(projects@)[x].owner_id == old_model.owner_id);
            }
        }
    }
    let mv = build_member_view(users, &projects[j].members[k]);
    Ok((mv, now.to_owned()))
}

/// Removes a member from a project. Only the project's owner may do this;
/// the owner can never be removed, and removing a non-member is not-found.
pub fn remove_member(
    projects: &mut Vec<Project>,
    project_id: &str,
    actor_id: &str,
    target_user_id: &str,
    now: &str,
) -> (r: Result<String, ApiError>)
    requires
        wf_projects(projects_view(old(projects)@)),
    ensures
        wf_projects(projects_view(final(projects)@)),
        ({
            let ps = projects_view(old(projects)@);
            let fp = find_project_from(ps, project_id@, 0);
            let nf1 = fp is None;
            let perm = !nf1 && role_in(ps[fp->0].members, actor_id@) != Some(Role::Owner);
            let own = !nf1 && !perm && target_user_id@ == ps[fp->0].owner_id;
            let mi = member_index_from(ps[fp->0].members, target_user_id@, 0);
            let nf2 = !nf1 && !perm && !own && mi is None;
            match r {
                Ok(updated_at) => {
                    let updated = project_with_members(
                        ps[fp->0],
                        ps[fp->0].members.remove(mi->0),
                        now@,
                    );
                    !nf1 && !perm && !own && mi is Some && projects_view(final(projects)@)
                        == ps.update(fp->0, updated) && updated_at@ == now@
                },
                Err(e) => (nf1 || perm || own || nf2) && final(projects)@ == old(projects)@ && (
                e.kind == ErrorKind::Validation <==> own) && (e.kind == ErrorKind::NotFound
                    <==> nf1 || nf2) && (e.kind == ErrorKind::Permission <==> perm),
            }
        }),
{
    let j = match find_project_index(projects, project_id) {
        Some(j) => j,
        None => {
            return Err(ApiError::new(ErrorKind::NotFound, "project not found"));
        },
    };
    match membership_role(&projects[j], actor_id) {
        Some(Role::Owner) => {},
        _ => {
            return Err(ApiError::new(ErrorKind::Permission, "only the owner may manage access"));
        },
    }
    if str_eq(target_user_id, projects[j].owner_id.as_str()) {
        return Err(
            ApiError::new(ErrorKind::Validation, "the owner cannot be removed from the project"),
        );
    }
    let ghost ps = projects_view(old(projects)@);
    let ghost old_model = ps[j as int];
    let k = match member_index(&projects[j], target_user_id) {
        Some(k) => k,
        None => {
            return Err(ApiError::new(ErrorKind::NotFound, "member not found"));
        },
    };
    proof {
        lemma_member_index(old_model.members, target_user_id@, 0);
    }
    projects[j].members.remove(k);
    projects[j].updated_at = now.to_owned();
    let ghost updated = project_with_members(
        old_model,
        old_model.members.remove(k as int),
        now@,
    );
    proof {
        assert(projects@[j as int]@.members =~= old_model.members.remove(k as int));
        assert(projects@[j as int]@ == updated);
        assert(projects_view(projects@) =~= ps.update(j as int, updated));
        lemma_remove_member_wf(old_model, k as int);
        assert forall|x: int|
            0 <= x < projects_view(projects@).len() implies wf_project(
            #[trigger] projects_view(projects@)[x],
        ) by {
            assert(wf_project(ps[x]));
            if x != j {
                assert(projects_view(projects@)[x] == ps[x]);
            } else {
                assert(projects_view(projects@)[x].members == updated.members);
                assert(projects_view(projects@)[x].owner_id == old_model.owner_id);
            }
        }
    }
    Ok(now.to_owned())
}


} // verus!
