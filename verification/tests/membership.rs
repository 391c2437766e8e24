use uran_core::access::{can_read, can_write_project, parse_member_role, Role};
use uran_core::errors::ErrorKind;
use uran_core::members::{add_member, list_members, remove_member, update_member};
use uran_core::projects::{
    create_project_with_id, get_session, is_owner, list_projects_for_user, map_project_for_user,
    membership_role, save_session, Project,
};
use uran_core::users::{register_user_with_id, User};

const OWNER: &str = "11111111-1111-4111-8111-111111111111";
const VIEWER: &str = "22222222-2222-4222-8222-222222222222";
const STRANGER: &str = "99999999-9999-4999-8999-999999999999";
const PROJECT: &str = "33333333-3333-4333-8333-333333333333";

fn setup() -> (Vec<User>, Vec<Project>) {
    let mut users = Vec::new();
    register_user_with_id(&mut users, "Anna", "anna@example.com", "password-1", OWNER.to_string(), "t0")
        .unwrap();
    register_user_with_id(&mut users, "Boris", "boris@example.com", "password-2", VIEWER.to_string(), "t0")
        .unwrap();
    let mut projects = Vec::new();
    create_project_with_id(&mut projects, "Rocket", OWNER, PROJECT.to_string(), "t1").unwrap();
    (users, projects)
}

#[test]
fn creator_becomes_owner() {
    let (_, projects) = setup();
    assert_eq!(membership_role(&projects[0], OWNER), Some(Role::Owner));
    let view = map_project_for_user(&projects[0], OWNER).unwrap();
    assert_eq!(view.role, Role::Owner);
    assert_eq!(view.name, "Rocket");
    assert_eq!(view.owner_id, OWNER);
    let visible = list_projects_for_user(&projects, OWNER);
    assert_eq!(visible.len(), 1);
    assert!(list_projects_for_user(&projects, VIEWER).is_empty());
}

#[test]
fn any_membership_grants_read_and_owner_is_recognised() {
    let (users, mut projects) = setup();
    add_member(&users, &mut projects, PROJECT, OWNER, "boris@example.com", "viewer", "t2").unwrap();
    assert!(is_owner(&projects[0], OWNER));
    assert!(!is_owner(&projects[0], VIEWER));
    assert!(!is_owner(&projects[0], STRANGER));
    assert!(can_read(&membership_role(&projects[0], OWNER)));
    assert!(can_read(&membership_role(&projects[0], VIEWER)));
    assert!(!can_read(&membership_role(&projects[0], STRANGER)));
}

#[test]
fn short_project_names_are_rejected() {
    let mut projects = Vec::new();
    let e = create_project_with_id(&mut projects, "  ab ", OWNER, PROJECT.to_string(), "t1")
        .unwrap_err();
    assert_eq!(e.kind, ErrorKind::Validation);
    assert!(projects.is_empty());
}

#[test]
fn role_text_is_normalised_and_owner_is_never_grantable() {
    assert_eq!(parse_member_role(" Editor ").unwrap(), Role::Editor);
    assert_eq!(parse_member_role("VIEWER").unwrap(), Role::Viewer);
    assert_eq!(parse_member_role("owner").unwrap_err().kind, ErrorKind::Validation);
    assert_eq!(parse_member_role("boss").unwrap_err().kind, ErrorKind::Validation);
    assert!(can_write_project(&Role::Owner));
    assert!(can_write_project(&Role::Editor));
    assert!(!can_write_project(&Role::Viewer));
}

#[test]
fn only_the_owner_may_manage_memberships() {
    let (users, mut projects) = setup();
    // a spoofed non-owner actor, member or not, is refused
    let e = add_member(&users, &mut projects, PROJECT, STRANGER, "boris@example.com", "viewer", "t2")
        .unwrap_err();
    assert_eq!(e.kind, ErrorKind::Permission);
    assert_eq!(e.status_code(), 403);
    add_member(&users, &mut projects, PROJECT, OWNER, "boris@example.com", "viewer", "t2").unwrap();
    let e = update_member(&users, &mut projects, PROJECT, VIEWER, VIEWER, "editor", "t3")
        .unwrap_err();
    assert_eq!(e.kind, ErrorKind::Permission);
    let e = remove_member(&mut projects, PROJECT, VIEWER, VIEWER, "t3").unwrap_err();
    assert_eq!(e.kind, ErrorKind::Permission);
    // and the owner's own entry can never be changed or removed
    let e = add_member(&users, &mut projects, PROJECT, OWNER, "anna@example.com", "viewer", "t3")
        .unwrap_err();
    assert_eq!(e.kind, ErrorKind::Validation);
    let e = update_member(&users, &mut projects, PROJECT, OWNER, OWNER, "editor", "t3").unwrap_err();
    assert_eq!(e.kind, ErrorKind::Validation);
    let e = remove_member(&mut projects, PROJECT, OWNER, OWNER, "t3").unwrap_err();
    assert_eq!(e.kind, ErrorKind::Validation);
    assert_eq!(membership_role(&projects[0], OWNER), Some(Role::Owner));
}

#[test]
fn membership_administration_resolves_targets() {
    let (users, mut projects) = setup();
    let e = add_member(&users, &mut projects, PROJECT, OWNER, "ghost@example.com", "viewer", "t2")
        .unwrap_err();
    assert_eq!(e.kind, ErrorKind::NotFound);
    let e = add_member(&users, &mut projects, PROJECT, OWNER, "no-at-sign", "viewer", "t2")
        .unwrap_err();
    assert_eq!(e.kind, ErrorKind::Validation);
    let e = remove_member(&mut projects, PROJECT, OWNER, VIEWER, "t2").unwrap_err();
    assert_eq!(e.kind, ErrorKind::NotFound);
    let e = update_member(&users, &mut projects, PROJECT, OWNER, VIEWER, "editor", "t2")
        .unwrap_err();
    assert_eq!(e.kind, ErrorKind::NotFound);
    let missing = "44444444-4444-4444-8444-444444444444";
    let e = add_member(&users, &mut projects, missing, OWNER, "boris@example.com", "viewer", "t2")
        .unwrap_err();
    assert_eq!(e.kind, ErrorKind::NotFound);
}

#[test]
fn added_member_appears_in_the_listing() {
    let (users, mut projects) = setup();
    let (added, pview) =
        add_member(&users, &mut projects, PROJECT, OWNER, " Boris@Example.com ", "Viewer", "t2")
            .unwrap();
    assert_eq!(added.id, VIEWER);
    assert_eq!(added.email, "boris@example.com");
    assert_eq!(added.name, "Boris");
    assert_eq!(added.role, Role::Viewer);
    assert_eq!(pview.updated_at, "t2");

    let members = list_members(&users, &projects, PROJECT, VIEWER).unwrap();
    assert_eq!(members.len(), 2);
    assert_eq!(members[0].user_id, OWNER);
    assert_eq!(members[0].role, Role::Owner);
    assert_eq!(members[1].user_id, VIEWER);
    assert_eq!(members[1].role, Role::Viewer);
    assert_eq!(members[1].email, "boris@example.com");
    assert_eq!(members[1].name, "Boris");

    // a non-member's listing is indistinguishable from an unknown project
    let e = list_members(&users, &projects, PROJECT, STRANGER).unwrap_err();
    assert_eq!(e.kind, ErrorKind::NotFound);
    let missing = "44444444-4444-4444-8444-444444444444";
    let e2 = list_members(&users, &projects, missing, STRANGER).unwrap_err();
    assert_eq!(e2.kind, ErrorKind::NotFound);
    assert_eq!(e.message, e2.message);
}

#[test]
fn re_adding_a_member_overwrites_the_role() {
    let (users, mut projects) = setup();
    add_member(&users, &mut projects, PROJECT, OWNER, "boris@example.com", "viewer", "t2").unwrap();
    add_member(&users, &mut projects, PROJECT, OWNER, "boris@example.com", "editor", "t3").unwrap();
    assert_eq!(projects[0].members.len(), 2);
    assert_eq!(membership_role(&projects[0], VIEWER), Some(Role::Editor));
    assert_eq!(projects[0].updated_at, "t3");
}

#[test]
fn removal_deletes_exactly_the_member() {
    let (users, mut projects) = setup();
    add_member(&users, &mut projects, PROJECT, OWNER, "boris@example.com", "viewer", "t2").unwrap();
    let updated_at = remove_member(&mut projects, PROJECT, OWNER, VIEWER, "t3").unwrap();
    assert_eq!(updated_at, "t3");
    assert_eq!(projects[0].members.len(), 1);
    assert_eq!(membership_role(&projects[0], VIEWER), None);
    assert_eq!(membership_role(&projects[0], OWNER), Some(Role::Owner));
}

#[test]
fn scenario_viewer_reads_but_cannot_write_until_promoted() {
    let (users, mut projects) = setup();
    add_member(&users, &mut projects, PROJECT, OWNER, "boris@example.com", "viewer", "t2").unwrap();

    // the viewer can read the session
    let (pview, session) = get_session(&projects, PROJECT, VIEWER).unwrap();
    assert_eq!(pview.role, Role::Viewer);
    assert!(session.is_none());

    // but writing it is a permission error
    let doc = serde_json::Value::String("state".to_string());
    let e = save_session(&mut projects, PROJECT, VIEWER, doc.clone(), "t3").unwrap_err();
    assert_eq!(e.kind, ErrorKind::Permission);
    assert_eq!(e.status_code(), 403);

    // promoted to editor, the write goes through and stamps the project
    update_member(&users, &mut projects, PROJECT, OWNER, VIEWER, "editor", "t4").unwrap();
    let updated_at = save_session(&mut projects, PROJECT, VIEWER, doc.clone(), "t5").unwrap();
    assert_eq!(updated_at, "t5");
    assert_eq!(projects[0].updated_at, "t5");
    let (_, session) = get_session(&projects, PROJECT, VIEWER).unwrap();
    assert_eq!(session.as_ref(), Some(&doc));
}

#[test]
fn sessions_are_gated_like_other_reads() {
    let (_, mut projects) = setup();
    // a non-member's read is indistinguishable from an unknown project
    let e = get_session(&projects, PROJECT, STRANGER).unwrap_err();
    assert_eq!(e.kind, ErrorKind::NotFound);
    let missing = "44444444-4444-4444-8444-444444444444";
    let e2 = get_session(&projects, missing, OWNER).unwrap_err();
    assert_eq!(e2.kind, ErrorKind::NotFound);
    assert_eq!(e.message, e2.message);
    let e = get_session(&projects, missing, OWNER).unwrap_err();
    assert_eq!(e.kind, ErrorKind::NotFound);
    let doc = serde_json::Value::Bool(true);
    let e = save_session(&mut projects, missing, OWNER, doc.clone(), "t2").unwrap_err();
    assert_eq!(e.kind, ErrorKind::NotFound);
    // the session document is replaced wholesale
    let first = serde_json::Value::String("one".to_string());
    let second = serde_json::Value::String("two".to_string());
    save_session(&mut projects, PROJECT, OWNER, first, "t2").unwrap();
    save_session(&mut projects, PROJECT, OWNER, second.clone(), "t3").unwrap();
    let (_, session) = get_session(&projects, PROJECT, OWNER).unwrap();
    assert_eq!(session.as_ref(), Some(&second));
}
