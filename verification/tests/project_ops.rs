use backend::errors::{project_error_outward, ProjectError};
use backend::models::{ProjectInput, Visibility};
use backend::store::Store;

fn project_input(name: &str, description: &str, visibility: Visibility) -> ProjectInput {
    ProjectInput {
        environments: String::new(),
        description: description.to_string(),
        name: name.to_string(),
        visibility,
    }
}

fn no_names() -> Vec<String> {
    Vec::new()
}

fn names(list: &[&str]) -> Vec<String> {
    list.iter().map(|n| n.to_string()).collect()
}

#[test]
fn creating_new_public_project_returns_200_and_is_visible() {
    let mut store = Store::new();
    let token = store.sign_up(None, "integration-test", "test").unwrap();
    let input = project_input("A test public project", "description", Visibility::Public);
    let pid = store.create_project(Some(token), &input).unwrap();
    let full = store.get_project(None, pid).expect("Failed to serialise response");
    assert_eq!(full.info.name, "A test public project");
    assert_eq!(full.info.visibility, Visibility::Public);
    assert_eq!(full.info.id, pid);
    assert_eq!(full.admins, vec!["integration-test".to_string()]);
}

#[test]
fn creating_new_private_project_returns_200_and_is_visible() {
    let mut store = Store::new();
    let token = store.sign_up(None, "integration-test", "test").unwrap();
    let input = project_input("A test private project", "description", Visibility::Private);
    let pid = store.create_project(Some(token), &input).unwrap();
    let full = store
        .get_project(Some(token), pid)
        .expect("Failed to serialise response");
    assert_eq!(full.info.name, "A test private project");
    assert_eq!(full.info.visibility, Visibility::Private);
    assert_eq!(full.info.id, pid);
    assert_eq!(full.admins, vec!["integration-test".to_string()]);
}

#[test]
fn creating_new_project_assigns_creator_as_administrator() {
    let mut store = Store::new();
    let token = store.sign_up(None, "integration-test", "test").unwrap();
    let input = project_input("p", "d", Visibility::Public);
    let pid = store.create_project(Some(token), &input).unwrap();
    let full = store.get_project(Some(token), pid).expect("Failed to serialise response");
    assert_eq!(full.admins, vec!["integration-test".to_string()]);
}

#[test]
fn attempting_to_create_new_project_not_logged_in_returns_401() {
    let mut store = Store::new();
    let input = project_input("p", "d", Visibility::Public);
    let r = store.create_project(None, &input);
    assert_eq!(r, Err(ProjectError::SessionGetError));
    assert_eq!(project_error_outward(ProjectError::SessionGetError).status_code(), 401);
}

#[test]
fn get_projects_depends_on_whether_user_is_logged_in() {
    let mut store = Store::new();
    let token = store.sign_up(None, "integration-test", "test").unwrap();
    let public = project_input("pub", "d", Visibility::Public);
    let private = project_input("priv", "d", Visibility::Private);
    store.create_project(Some(token), &public).unwrap();
    store.create_project(Some(token), &private).unwrap();
    let anonymous = store.list_projects(None);
    assert_eq!(anonymous.len(), 1);
    let logged_in = store.list_projects(Some(token));
    assert_eq!(logged_in.len(), 2);
}

#[test]
fn get_projects_includes_projects_where_user_is_collaborator() {
    let mut store = Store::new();
    let owner = store.sign_up(None, "integration-test", "test").unwrap();
    let other = store.sign_up(None, "collaborating-user", "test").unwrap();
    let private = project_input("priv", "d", Visibility::Private);
    let pid = store.create_project(Some(owner), &private).unwrap();
    store
        .update_project(
            Some(owner),
            pid,
            &private,
            &names(&["integration-test"]),
            &names(&["collaborating-user"]),
        )
        .unwrap();
    let listed = store.list_projects(Some(other));
    assert_eq!(listed.len(), 1);
    assert_eq!(listed[0].id, pid);
}

#[test]
fn deleting_project_not_logged_in_returns_401() {
    let mut store = Store::new();
    let token = store.sign_up(None, "integration-test", "test").unwrap();
    let input = project_input("p", "d", Visibility::Public);
    let pid = store.create_project(Some(token), &input).unwrap();
    let r = store.delete_project(None, pid);
    assert_eq!(r, Err(ProjectError::SessionGetError));
}

#[test]
fn deleting_project_not_as_admin_returns_403() {
    let mut store = Store::new();
    let owner = store.sign_up(None, "integration-test", "test").unwrap();
    let other = store
        .sign_up(None, "integration-test-other-user", "test")
        .unwrap();
    let input = project_input("p", "d", Visibility::Public);
    let pid = store.create_project(Some(owner), &input).unwrap();
    let r = store.delete_project(Some(other), pid);
    assert_eq!(r, Err(ProjectError::Forbidden));
    assert_eq!(project_error_outward(ProjectError::Forbidden).status_code(), 403);
}

#[test]
fn deleting_non_existent_project_returns_404() {
    let mut store = Store::new();
    let token = store.sign_up(None, "integration-test", "test").unwrap();
    let r = store.delete_project(Some(token), 4242);
    assert_eq!(r, Err(ProjectError::ProjectDoesNotExistError));
    assert_eq!(
        project_error_outward(ProjectError::ProjectDoesNotExistError).status_code(),
        404
    );
}

#[test]
fn deleting_project_sucessfully_returns_204() {
    let mut store = Store::new();
    let token = store.sign_up(None, "integration-test", "test").unwrap();
    let input = project_input("p", "d", Visibility::Public);
    let pid = store.create_project(Some(token), &input).unwrap();
    assert_eq!(store.delete_project(Some(token), pid), Ok(()));
    // A second delete of an already-deleted id reports NotFound, not success.
    assert_eq!(
        store.delete_project(Some(token), pid),
        Err(ProjectError::ProjectDoesNotExistError)
    );
}

#[test]
fn getting_private_project_as_collaborator_returns_200() {
    let mut store = Store::new();
    let owner = store.sign_up(None, "integration-test", "test").unwrap();
    let collaborator = store.sign_up(None, "collaborating-user", "test").unwrap();
    let input = project_input("p", "d", Visibility::Private);
    let pid = store.create_project(Some(owner), &input).unwrap();
    store
        .update_project(
            Some(owner),
            pid,
            &input,
            &names(&["integration-test"]),
            &names(&["collaborating-user"]),
        )
        .unwrap();
    let full = store
        .get_project(Some(collaborator), pid)
        .expect("Failed to serialise project.");
    assert_eq!(full.info.id, pid);
    assert_eq!(full.collaborators, vec!["collaborating-user".to_string()]);
}

#[test]
fn getting_private_project_as_non_logged_in_user_returns_401() {
    let mut store = Store::new();
    let owner = store.sign_up(None, "integration-test", "test").unwrap();
    let input = project_input("p", "d", Visibility::Private);
    let pid = store.create_project(Some(owner), &input).unwrap();
    let r = store.get_project(None, pid);
    assert_eq!(r, Err(ProjectError::SessionGetError));
}

#[test]
fn getting_private_project_as_non_permitted_user_returns_403() {
    let mut store = Store::new();
    let owner = store.sign_up(None, "integration-test", "test").unwrap();
    let other = store
        .sign_up(None, "integration-test-other-user", "test")
        .unwrap();
    let input = project_input("p", "d", Visibility::Private);
    let pid = store.create_project(Some(owner), &input).unwrap();
    let r = store.get_project(Some(other), pid);
    assert_eq!(r, Err(ProjectError::Forbidden));
}

#[test]
fn getting_public_project_as_non_logged_in_user_returns_200() {
    let mut store = Store::new();
    let owner = store.sign_up(None, "integration-test", "test").unwrap();
    let input = project_input("p", "d", Visibility::Public);
    let pid = store.create_project(Some(owner), &input).unwrap();
    let full = store.get_project(None, pid).unwrap();
    assert_eq!(full.info.id, pid);
    assert_eq!(full.info.visibility, Visibility::Public);
}

#[test]
fn updating_non_existent_project_returns_404() {
    let mut store = Store::new();
    let token = store.sign_up(None, "integration-test", "test").unwrap();
    let input = project_input("p", "d", Visibility::Public);
    let r = store.update_project(Some(token), 4242, &input, &no_names(), &no_names());
    assert_eq!(r, Err(ProjectError::ProjectDoesNotExistError));
}

#[test]
fn updating_project_as_project_admin_returns_204() {
    let mut store = Store::new();
    let token = store.sign_up(None, "integration-test", "test").unwrap();
    let input = project_input("p", "A test public project", Visibility::Public);
    let pid = store.create_project(Some(token), &input).unwrap();
    let updated = project_input("p", "Woah it's been updated!", Visibility::Public);
    let r = store.update_project(
        Some(token),
        pid,
        &updated,
        &names(&["integration-test"]),
        &no_names(),
    );
    assert_eq!(r, Ok(()));
    let full = store.get_project(Some(token), pid).expect("Failed to serialise response.");
    assert_eq!(full.info.description, "Woah it's been updated!");
}

#[test]
fn updating_project_not_as_project_admin_returns_403() {
    let mut store = Store::new();
    let owner = store.sign_up(None, "integration-test", "test").unwrap();
    let other = store
        .sign_up(None, "integration-test-other-user", "test")
        .unwrap();
    let input = project_input("p", "d", Visibility::Public);
    let pid = store.create_project(Some(owner), &input).unwrap();
    let updated = project_input("p", "Woah it's been updated!", Visibility::Public);
    let r = store.update_project(Some(other), pid, &updated, &no_names(), &no_names());
    assert_eq!(r, Err(ProjectError::Forbidden));
}

#[test]
fn updating_project_not_logged_in_returns_401() {
    let mut store = Store::new();
    let owner = store.sign_up(None, "integration-test", "test").unwrap();
    let input = project_input("p", "A test public project", Visibility::Public);
    let pid = store.create_project(Some(owner), &input).unwrap();
    let updated = project_input("p", "Updated again!", Visibility::Public);
    let r = store.update_project(None, pid, &updated, &no_names(), &no_names());
    assert_eq!(r, Err(ProjectError::SessionGetError));
    let full = store.get_project(None, pid).expect("Failed to serialise response.");
    assert_eq!(full.info.description, "A test public project");
}
