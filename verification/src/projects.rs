use vstd::prelude::*;

use crate::access::{
    can_write_project, find_member_from, role_in, spec_can_write, Membership, MembershipModel,
    Role,
};
use crate::errors::{ApiError, ErrorKind};
use crate::ext::{fresh_uuid, now_iso};
use crate::text::{str_eq, trim_spec, trim_str};

verus! {

/// A project: metadata, its membership list, and the opaque session
/// document its clients store.
#[derive(Debug)]
pub struct Project {
    pub id: String,
    pub name: String,
    pub owner_id: String,
    pub created_at: String,
    pub updated_at: String,
    pub members: Vec<Membership>,
    pub session: Option<serde_json::Value>,
}

/// The mathematical value of a `Project`.
pub struct ProjectModel {
    pub id: Seq<char>,
    pub name: Seq<char>,
    pub owner_id: Seq<char>,
    pub created_at: Seq<char>,
    pub updated_at: Seq<char>,
    pub members: Seq<MembershipModel>,
    pub session: Option<serde_json::Value>,
}

impl View for Project {
    type V = ProjectModel;

    open spec fn view(&self) -> ProjectModel {
        ProjectModel {
            id: self.id@,
            name: self.name@,
            owner_id: self.owner_id@,
            created_at: self.created_at@,
            updated_at: self.updated_at@,
            members: self.members@.map_values(|m: Membership| m@),
            session: self.session,
        }
    }
}

/// A project's internal consistency: member entries name distinct users,
/// the owner always appears among them, and the owner role marks exactly
/// the owner's entry.
pub open spec fn wf_project(p: ProjectModel) -> bool {
    &&& forall|i: int, j: int|
        0 <= i < j < p.members.len() ==> p.members[i].user_id != p.members[j].user_id
    &&& exists|i: int| 0 <= i < p.members.len() && p.members[i].user_id == p.owner_id
    &&& forall|i: int|
        0 <= i < p.members.len() ==> (p.members[i].role == Role::Owner <==> p.members[i].user_id
            == p.owner_id)
}

pub open spec fn wf_projects(ps: Seq<ProjectModel>) -> bool {
    forall|k: int| 0 <= k < ps.len() ==> wf_project(#[trigger] ps[k])
}

/// The project collection as a sequence of mathematical values.
pub open spec fn projects_view(ps: Seq<Project>) -> Seq<ProjectModel> {
    ps.map_values(|p: Project| p@)
}

/// The index of the first project at or after `i` with identifier `id`.
pub open spec fn find_project_from(ps: Seq<ProjectModel>, id: Seq<char>, i: int) -> Option<int>
    decreases ps.len() - i,
{
    if 0 <= i < ps.len() {
        if ps[i].id == id {
            Some(i)
        } else {
            find_project_from(ps, id, i + 1)
        }
    } else {
        None
    }
}

/// A project as one member sees it: the shared fields plus that member's
/// own role.
#[derive(Debug)]
pub struct ProjectForUser {
    pub id: String,
    pub name: String,
    pub role: Role,
    pub owner_id: String,
    pub created_at: String,
    pub updated_at: String,
}

/// The mathematical value of a `ProjectForUser`.
pub struct ProjectForUserModel {
    pub id: Seq<char>,
    pub name: Seq<char>,
    pub role: Role,
    pub owner_id: Seq<char>,
    pub created_at: Seq<char>,
    pub updated_at: Seq<char>,
}

impl View for ProjectForUser {
    type V = ProjectForUserModel;

    open spec fn view(&self) -> ProjectForUserModel {
        ProjectForUserModel {
            id: self.id@,
            name: self.name@,
            role: self.role,
            owner_id: self.owner_id@,
            created_at: self.created_at@,
            updated_at: self.updated_at@,
        }
    }
}

/// What a project looks like to a member holding `role`.
pub open spec fn pfu_of(p: ProjectModel, role: Role) -> ProjectForUserModel {
    ProjectForUserModel {
        id: p.id,
        name: p.name,
        role: role,
        owner_id: p.owner_id,
        created_at: p.created_at,
        updated_at: p.updated_at,
    }
}

pub fn build_project_for_user(project: &Project, role: Role) -> (r: ProjectForUser)
    ensures
        r@ == pfu_of(project@, role),
{
    ProjectForUser {
        id: project.id.clone(),
        name: project.name.clone(),
        role: role,
        owner_id: project.owner_id.clone(),
        created_at: project.created_at.clone(),
        updated_at: project.updated_at.clone(),
    }
}

/// The role `user_id` holds in `project`, if any. All role lookups go
/// through this single function; the owner's entry is a regular row that
/// project creation materialises.
pub fn membership_role(project: &Project, user_id: &str) -> (r: Option<Role>)
    ensures
        r == role_in(project@.members, user_id@),
{
    let n = project.members.len();
    let mut i: usize = 0;
    while i < n
        invariant
            0 <= i <= n == project.members@.len(),
            find_member_from(project@.members, user_id@, 0) == find_member_from(
                project@.members,
                user_id@,
                i as int,
            ),
        decreases n - i,
    {
        if str_eq(project.members[i].user_id.as_str(), user_id) {
            return Some(project.members[i].role);
        }
        i = i + 1;
    }
    None
}

/// Whether `user_id` is the project's owner, judged by the same central
/// role lookup as every other access decision.
pub fn is_owner(project: &Project, user_id: &str) -> (r: bool)
    ensures
        r == (role_in(project@.members, user_id@) == Some(Role::Owner)),
{
    match membership_role(project, user_id) {
        Some(Role::Owner) => true,
        _ => false,
    }
}

/// Maps a project for `user_id`, or nothing when `user_id` is no member.
pub fn map_project_for_user(project: &Project, user_id: &str) -> (r: Option<ProjectForUser>)
    ensures
        match role_in(project@.members, user_id@) {
            Some(role) => r matches Some(v) && v@ == pfu_of(project@, role),
            None => r is None,
        },
{
    match membership_role(project, user_id) {
        Some(role) => Some(build_project_for_user(project, role)),
        None => None,
    }
}

/// The index of the project with identifier `id`, if any.
pub fn find_project_index(projects: &Vec<Project>, id: &str) -> (r: Option<usize>)
    ensures
        match r {
            Some(j) => j < projects@.len() && find_project_from(projects_view(projects@), id@, 0)
                == Some(j as int),
            None => find_project_from(projects_view(projects@), id@, 0) is None,
        },
{
    let n = projects.len();
    let mut i: usize = 0;
    while i < n
        invariant
            0 <= i <= n == projects@.len(),
            find_project_from(projects_view(projects@), id@, 0) == find_project_from(
                projects_view(projects@),
                id@,
                i as int,
            ),
        decreases n - i,
    {
        if str_eq(projects[i].id.as_str(), id) {
            return Some(i);
        }
        i = i + 1;
    }
    None
}

/// The projects visible to `uid`, in stored order, each mapped for `uid`.
pub open spec fn visible_projects(ps: Seq<ProjectModel>, uid: Seq<char>) -> Seq<
    ProjectForUserModel,
>
    decreases ps.len(),
{
    if ps.len() == 0 {
        Seq::empty()
    } else {
        visible_projects(ps.drop_last(), uid) + (match role_in(ps.last().members, uid) {
            Some(role) => seq![pfu_of(ps.last(), role)],
            None => Seq::empty(),
        })
    }
}

/// Lists the projects in which `user_id` holds any membership.
pub fn list_projects_for_user(projects: &Vec<Project>, user_id: &str) -> (r: Vec<ProjectForUser>)
    ensures
        r@.map_values(|v: ProjectForUser| v@) == visible_projects(
            projects_view(projects@),
            user_id@,
        ),
{
    let ghost pv = projects_view(projects@);
    let n = projects.len();
    let mut out: Vec<ProjectForUser> = Vec::new();
    let mut i: usize = 0;
    while i < n
        invariant
            0 <= i <= n == projects@.len(),
            pv == projects_view(projects@),
            out@.map_values(|v: ProjectForUser| v@) == visible_projects(pv.take(i as int), user_id@),
        decreases n - i,
    {
        proof {
            assert(pv.take(i + 1).drop_last() =~= pv.take(i as int));
            assert(pv.take(i + 1).last() == pv[i as int]);
        }
        match map_project_for_user(&projects[i], user_id) {
            Some(v) => {
                out.push(v);
                proof {
                    assert(out@.map_values(|v: ProjectForUser| v@) =~= visible_projects(
                        pv.take(i + 1),
                        user_id@,
                    ));
                }
            },
            None => {
                proof {
                    assert(out@.map_values(|v: ProjectForUser| v@) =~= visible_projects(
                        pv.take(i + 1),
                        user_id@,
                    ));
                }
            },
        }
        i = i + 1;
    }
    proof {
        assert(pv.take(n as int) =~= pv);
    }
    out
}

/// What a fresh project looks like: the creator is its owner, with the one
/// owner membership row materialised, and no session document yet.
pub open spec fn new_project_model(
    project_id: Seq<char>,
    name: Seq<char>,
    owner_id: Seq<char>,
    now: Seq<char>,
) -> ProjectModel {
    ProjectModel {
        id: project_id,
        name: trim_spec(name),
        owner_id: owner_id,
        created_at: now,
        updated_at: now,
        members: seq![MembershipModel { user_id: owner_id, role: Role::Owner }],
        session: None,
    }
}

/// Creates a project under a caller-supplied identifier and timestamp. The
/// name is trimmed and must keep at least three characters; otherwise the
/// request is a validation error and the collection is unchanged.
pub fn create_project_with_id(
    projects: &mut Vec<Project>,
    name: &str,
    owner_id: &str,
    project_id: String,
    now: &str,
) -> (r: Result<ProjectForUser, ApiError>)
    ensures
        ({
            let created = new_project_model(project_id@, name@, owner_id@, now@);
            match r {
                Ok(v) => trim_spec(name@).len() >= 3 && projects_view(final(projects)@)
                    == projects_view(old(projects)@).push(created) && v@ == pfu_of(
                    created,
                    Role::Owner,
                ) && wf_project(created),
                Err(e) => trim_spec(name@).len() < 3 && e.kind == ErrorKind::Validation
                    && final(projects)@ == old(projects)@,
            }
        }),
{
    let name_t = trim_str(name);
    if name_t.unicode_len() < 3 {
        return Err(
            ApiError::new(ErrorKind::Validation, "project name must be at least 3 characters"),
        );
    }
    let ghost pid: Seq<char> = project_id@;
    let mut members: Vec<Membership> = Vec::new();
    members.push(Membership { user_id: owner_id.to_owned(), role: Role::Owner });
    let project = Project {
        id: project_id,
        name: name_t.to_owned(),
        owner_id: owner_id.to_owned(),
        created_at: now.to_owned(),
        updated_at: now.to_owned(),
        members: members,
        session: None,
    };
    proof {
        let created = new_project_model(pid, name@, owner_id@, now@);
        assert(project@.members =~= created.members);
        assert(project@ == created);
        assert(created.members[0].user_id == created.owner_id);
        assert(wf_project(created));
    }
    let view = build_project_for_user(&project, Role::Owner);
    projects.push(project);
    proof {
        assert(projects_view(projects@) =~= projects_view(old(projects)@).push(
            new_project_model(pid, name@, owner_id@, now@),
        ));
    }
    Ok(view)
}

/// One way a successful creation can have gone: the collection grew by the
/// project that `pid` and `now` determine, and the caller saw it as owner.
pub open spec fn created_project_witness(
    old_ps: Seq<ProjectModel>,
    new_ps: Seq<ProjectModel>,
    v: ProjectForUserModel,
    name: Seq<char>,
    owner_id: Seq<char>,
    pid: Seq<char>,
    now: Seq<char>,
) -> bool {
    let created = new_project_model(pid, name, owner_id, now);
    new_ps == old_ps.push(created) && v == pfu_of(created, Role::Owner) && wf_project(created)
}

/// Creates a project under a freshly drawn identifier, stamped with the
/// current time.
pub fn create_project(projects: &mut Vec<Project>, name: &str, owner_id: &str) -> (r: Result<
    ProjectForUser,
    ApiError,
>)
    ensures
        match r {
            Ok(v) => trim_spec(name@).len() >= 3 && exists|pid: Seq<char>, now: Seq<char>|
                #[trigger] created_project_witness(
                    projects_view(old(projects)@),
                    projects_view(final(projects)@),
                    v@,
                    name@,
                    owner_id@,
                    pid,
                    now,
                ),
            Err(e) => trim_spec(name@).len() < 3 && e.kind == ErrorKind::Validation
                && final(projects)@ == old(projects)@,
        },
{
    let project_id = fresh_uuid();
    let now = now_iso();
    let ghost pid: Seq<char> = project_id@;
    let ghost nowv: Seq<char> = now@;
    let r = create_project_with_id(projects, name, owner_id, project_id, now.as_str());
    proof {
        if r is Ok {
            assert(created_project_witness(
                projects_view(old(projects)@),
                projects_view(projects@),
                r->Ok_0@,
                name@,
                owner_id@,
                pid,
                nowv,
            ));
        }
    }
    r
}

/// Reads a project's session document, mapped for the requesting member.
/// An unknown project and a project the actor is no member of fail with one
/// indistinguishable not-found answer, so that membership cannot be probed.
pub fn get_session<'a>(projects: &'a Vec<Project>, project_id: &str, user_id: &str) -> (r: Result<
    (ProjectForUser, &'a Option<serde_json::Value>),
    ApiError,
>)
    ensures
        ({
            let ps = projects_view(projects@);
            let fp = find_project_from(ps, project_id@, 0);
            match r {
                Ok((v, s)) => fp matches Some(j) && role_in(ps[j].members, user_id@) matches Some(
                    role,
                ) && v@ == pfu_of(ps[j], role) && *s == ps[j].session,
                Err(e) => (fp is None || (fp matches Some(j) && role_in(
                    ps[j].members,
                    user_id@,
                ) is None)) && e.kind == ErrorKind::NotFound && e.message@ == "project not found"@,
            }
        }),
{
    let j = match find_project_index(projects, project_id) {
        Some(j) => j,
        None => {
            return Err(ApiError::new(ErrorKind::NotFound, "project not found"));
        },
    };
    match map_project_for_user(&projects[j], user_id) {
        Some(v) => Ok((v, &projects[j].session)),
        None => Err(ApiError::new(ErrorKind::NotFound, "project not found")),
    }
}

/// Replaces a project's session document wholesale and stamps `updated_at`.
/// Requires write access: the owner or an editor; a viewer is read-only.
pub fn save_session(
    projects: &mut Vec<Project>,
    project_id: &str,
    user_id: &str,
    document: serde_json::Value,
    now: &str,
) -> (r: Result<String, ApiError>)
    requires
        wf_projects(projects_view(old(projects)@)),
    ensures
        wf_projects(projects_view(final(projects)@)),
        ({
            let ps = projects_view(old(projects)@);
            let fp = find_project_from(ps, project_id@, 0);
            match r {
                Ok(updated_at) => fp matches Some(j) && role_in(
                    ps[j].members,
                    user_id@,
                ) matches Some(role) && spec_can_write(role) && updated_at@ == now@
                    && projects_view(final(projects)@) == ps.update(
                    j,
                    ProjectModel { session: Some(document), updated_at: now@, ..ps[j] },
                ),
                Err(e) => (fp is None || (fp matches Some(j) && (match role_in(
                    ps[j].members,
                    user_id@,
                ) {
                    Some(role) => !spec_can_write(role),
                    None => true,
                }))) && final(projects)@ == old(projects)@ && (e.kind == ErrorKind::NotFound
                    <==> fp is None) && (e.kind == ErrorKind::Permission <==> (fp matches Some(j)
                    && (match role_in(ps[j].members, user_id@) {
                        Some(role) => !spec_can_write(role),
                        None => true,
                    }))),
            }
        }),
{
    let j = match find_project_index(projects, project_id) {
        Some(j) => j,
        None => {
            return Err(ApiError::new(ErrorKind::NotFound, "project not found"));
        },
    };
    let role = match membership_role(&projects[j], user_id) {
        Some(role) => role,
        None => {
            return Err(ApiError::new(ErrorKind::Permission, "no access to this project"));
        },
    };
    if !can_write_project(&role) {
        return Err(ApiError::new(ErrorKind::Permission, "your access is read-only"));
    }
    let ghost ps = projects_view(old(projects)@);
    let p = &mut projects[j];
    p.session = Some(document);
    p.updated_at = now.to_owned();
    proof {
        assert(projects_view(projects@) =~= ps.update(
            j as int,
            ProjectModel { session: Some(document), updated_at: now@, ..ps[j as int] },
        ));
        assert forall|k: int|
            0 <= k < projects_view(projects@).len() implies wf_project(
            #[trigger] projects_view(projects@)[k],
        ) by {
            assert(wf_project(ps[k]));
            if k != j {
                assert(projects_view(projects@)[k] == ps[k]);
            } else {
                assert(projects_view(projects@)[k].members == ps[k].members);
                assert(projects_view(projects@)[k].owner_id == ps[k].owner_id);
            }
        }
    }
    Ok(now.to_owned())
}

} // verus!
