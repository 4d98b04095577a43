use backend::errors::{project_error_outward, ProjectError};
use backend::models::{GroupInput, ProjectInput, Visibility};
use backend::store::Store;

fn group_input(name: &str) -> GroupInput {
    GroupInput {
        curls: "curl localhost".to_string(),
        description: "a group".to_string(),
        labels: String::new(),
        name: name.to_string(),
    }
}

fn project_input(name: &str, visibility: Visibility) -> ProjectInput {
    ProjectInput {
        environments: String::new(),
        description: String::new(),
        name: name.to_string(),
        visibility,
    }
}

fn names(list: &[&str]) -> Vec<String> {
    list.iter().map(|n| n.to_string()).collect()
}

#[test]
fn creating_group_for_non_existent_project_returns_404() {
    let mut store = Store::new();
    let token = store.sign_up(None, "integration-test", "test").unwrap();
    let r = store.create_curl_group(Some(token), 4242, &group_input("g"));
    assert_eq!(r, Err(ProjectError::ProjectDoesNotExistError));
}

#[test]
fn creating_group_while_not_logged_in_returns_401() {
    let mut store = Store::new();
    let token = store.sign_up(None, "integration-test", "test").unwrap();
    let pid = store
        .create_project(Some(token), &project_input("p", Visibility::Public))
        .unwrap();
    let r = store.create_curl_group(None, pid, &group_input("g"));
    assert_eq!(r, Err(ProjectError::SessionGetError));
}

#[test]
fn creating_group_while_project_collaborator_returns_200() {
    let mut store = Store::new();
    let owner = store.sign_up(None, "integration-test", "test").unwrap();
    let collaborator = store.sign_up(None, "collaborating-user", "test").unwrap();
    let input = project_input("p", Visibility::Private);
    let pid = store.create_project(Some(owner), &input).unwrap();
    store
        .update_project(
            Some(owner),
            pid,
            &input,
            &names(&["integration-test"]),
            &names(&["collaborating-user"]),
        )
        .unwrap();
    let gid = store
        .create_curl_group(Some(collaborator), pid, &group_input("g"))
        .unwrap();
    let group = store.get_curl_group(Some(collaborator), gid).unwrap();
    assert_eq!(group.project_id, pid);
}

#[test]
fn creating_group_while_project_admin_returns_200() {
    let mut store = Store::new();
    let owner = store.sign_up(None, "integration-test", "test").unwrap();
    let pid = store
        .create_project(Some(owner), &project_input("p", Visibility::Private))
        .unwrap();
    let gid = store
        .create_curl_group(Some(owner), pid, &group_input("g"))
        .unwrap();
    let group = store.get_curl_group(Some(owner), gid).unwrap();
    assert_eq!(group.name, "g");
}

#[test]
fn creating_group_for_private_project_while_not_permitted_returns_403() {
    let mut store = Store::new();
    let owner = store.sign_up(None, "integration-test", "test").unwrap();
    let other = store.sign_up(None, "integration-other-user", "test").unwrap();
    let pid = store
        .create_project(Some(owner), &project_input("p", Visibility::Private))
        .unwrap();
    let r = store.create_curl_group(Some(other), pid, &group_input("g"));
    assert_eq!(r, Err(ProjectError::Forbidden));
}

#[test]
fn getting_non_existent_group_returns_404() {
    let mut store = Store::new();
    let token = store.sign_up(None, "integration-test", "test").unwrap();
    let r = store.get_curl_group(Some(token), 4242);
    assert_eq!(r, Err(ProjectError::ProjectDoesNotExistError));
    assert_eq!(
        project_error_outward(ProjectError::ProjectDoesNotExistError).status_code(),
        404
    );
}

#[test]
fn getting_curl_group_when_project_collaborator_returns_200() {
    let mut store = Store::new();
    let owner = store.sign_up(None, "integration-test", "test").unwrap();
    let collaborator = store.sign_up(None, "collaborating-user", "test").unwrap();
    let input = project_input("p", Visibility::Private);
    let pid = store.create_project(Some(owner), &input).unwrap();
    let gid = store
        .create_curl_group(Some(owner), pid, &group_input("g"))
        .unwrap();
    store
        .update_project(
            Some(owner),
            pid,
            &input,
            &names(&["integration-test"]),
            &names(&["collaborating-user"]),
        )
        .unwrap();
    let group = store.get_curl_group(Some(collaborator), gid).unwrap();
    assert_eq!(group.id, gid);
}

#[test]
fn getting_curl_group_when_project_admin_returns_200() {
    let mut store = Store::new();
    let owner = store.sign_up(None, "integration-test", "test").unwrap();
    let pid = store
        .create_project(Some(owner), &project_input("p", Visibility::Private))
        .unwrap();
    let gid = store
        .create_curl_group(Some(owner), pid, &group_input("g"))
        .unwrap();
    let group = store.get_curl_group(Some(owner), gid).unwrap();
    assert_eq!(group.id, gid);
}

#[test]
fn getting_private_curl_group_when_not_project_admin_or_collaborator_returns_403() {
    let mut store = Store::new();
    let owner = store.sign_up(None, "integration-test", "test").unwrap();
    let other = store
        .sign_up(None, "integration-test-other-user", "test")
        .unwrap();
    let pid = store
        .create_project(Some(owner), &project_input("p", Visibility::Private))
        .unwrap();
    let gid = store
        .create_curl_group(Some(owner), pid, &group_input("g"))
        .unwrap();
    let r = store.get_curl_group(Some(other), gid);
    assert_eq!(r, Err(ProjectError::Forbidden));
}

#[test]
fn getting_private_curl_group_when_not_logged_in_returns_401() {
    let mut store = Store::new();
    let owner = store.sign_up(None, "integration-test", "test").unwrap();
    let pid = store
        .create_project(Some(owner), &project_input("p", Visibility::Private))
        .unwrap();
    let gid = store
        .create_curl_group(Some(owner), pid, &group_input("g"))
        .unwrap();
    let r = store.get_curl_group(None, gid);
    assert_eq!(r, Err(ProjectError::SessionGetError));
}

#[test]
fn getting_public_curl_group_when_not_admin_or_collaborator_in_returns_200() {
    let mut store = Store::new();
    let owner = store.sign_up(None, "integration-test", "test").unwrap();
    let other = store
        .sign_up(None, "integration-test-other-user", "test")
        .unwrap();
    let pid = store
        .create_project(Some(owner), &project_input("p", Visibility::Public))
        .unwrap();
    let gid = store
        .create_curl_group(Some(owner), pid, &group_input("g"))
        .unwrap();
    let group = store.get_curl_group(Some(other), gid).unwrap();
    assert_eq!(group.id, gid);
}

#[test]
fn getting_public_curl_group_when_not_logged_in_returns_200() {
    let mut store = Store::new();
    let owner = store.sign_up(None, "integration-test", "test").unwrap();
    let pid = store
        .create_project(Some(owner), &project_input("p", Visibility::Public))
        .unwrap();
    let gid = store
        .create_curl_group(Some(owner), pid, &group_input("g"))
        .unwrap();
    let group = store.get_curl_group(None, gid).unwrap();
    assert_eq!(group.id, gid);
}

#[test]
fn updating_non_existent_group_returns_404() {
    let mut store = Store::new();
    let token = store.sign_up(None, "integration-test", "test").unwrap();
    let r = store.update_curl_group(Some(token), 4242, &group_input("g"));
    assert_eq!(r, Err(ProjectError::ProjectDoesNotExistError));
}

#[test]
fn updating_curl_group_when_project_collaborator_returns_204() {
    let mut store = Store::new();
    let owner = store.sign_up(None, "integration-test", "test").unwrap();
    let collaborator = store.sign_up(None, "collaborating-user", "test").unwrap();
    let input = project_input("p", Visibility::Private);
    let pid = store.create_project(Some(owner), &input).unwrap();
    let gid = store
        .create_curl_group(Some(owner), pid, &group_input("g"))
        .unwrap();
    store
        .update_project(
            Some(owner),
            pid,
            &input,
            &names(&["integration-test"]),
            &names(&["collaborating-user"]),
        )
        .unwrap();
    let r = store.update_curl_group(Some(collaborator), gid, &group_input("renamed"));
    assert_eq!(r, Ok(()));
    let group = store.get_curl_group(Some(collaborator), gid).unwrap();
    assert_eq!(group.name, "renamed");
}

#[test]
fn updating_curl_group_when_project_admin_returns_204() {
    let mut store = Store::new();
    let owner = store.sign_up(None, "integration-test", "test").unwrap();
    let pid = store
        .create_project(Some(owner), &project_input("p", Visibility::Private))
        .unwrap();
    let gid = store
        .create_curl_group(Some(owner), pid, &group_input("g"))
        .unwrap();
    let r = store.update_curl_group(Some(owner), gid, &group_input("renamed"));
    assert_eq!(r, Ok(()));
    let group = store.get_curl_group(Some(owner), gid).unwrap();
    assert_eq!(group.name, "renamed");
}

#[test]
fn updating_private_project_curl_group_when_not_collaborator_or_admin_returns_403() {
    let mut store = Store::new();
    let owner = store.sign_up(None, "integration-test", "test").unwrap();
    let other = store
        .sign_up(None, "integration-test-other-user", "test")
        .unwrap();
    let pid = store
        .create_project(Some(owner), &project_input("p", Visibility::Private))
        .unwrap();
    let gid = store
        .create_curl_group(Some(owner), pid, &group_input("g"))
        .unwrap();
    let r = store.update_curl_group(Some(other), gid, &group_input("Updated"));
    assert_eq!(r, Err(ProjectError::Forbidden));
}

#[test]
fn updating_public_project_curl_group_when_logged_in_returns_204() {
    let mut store = Store::new();
    let owner = store.sign_up(None, "integration-test", "test").unwrap();
    let other = store
        .sign_up(None, "integration-test-other-user", "test")
        .unwrap();
    let pid = store
        .create_project(Some(owner), &project_input("p", Visibility::Public))
        .unwrap();
    let gid = store
        .create_curl_group(Some(owner), pid, &group_input("g"))
        .unwrap();
    let r = store.update_curl_group(Some(other), gid, &group_input("Updated"));
    assert_eq!(r, Ok(()));
}

#[test]
fn updating_project_when_not_logged_in_returns_401() {
    let mut store = Store::new();
    let owner = store.sign_up(None, "integration-test", "test").unwrap();
    let pid = store
        .create_project(Some(owner), &project_input("p", Visibility::Public))
        .unwrap();
    let gid = store
        .create_curl_group(Some(owner), pid, &group_input("g"))
        .unwrap();
    let r = store.update_curl_group(None, gid, &group_input("Updated"));
    assert_eq!(r, Err(ProjectError::SessionGetError));
    let group = store.get_curl_group(None, gid).unwrap();
    assert_eq!(group.name, "g");
}

#[test]
fn creating_group_for_public_project_while_authenticated_non_member_returns_200() {
    let mut store = Store::new();
    let owner = store.sign_up(None, "integration-test", "test").unwrap();
    let other = store
        .sign_up(None, "integration-test-other-user", "test")
        .unwrap();
    let pid = store
        .create_project(Some(owner), &project_input("p", Visibility::Public))
        .unwrap();
    let gid = store
        .create_curl_group(Some(other), pid, &group_input("g"))
        .unwrap();
    assert!(store.get_curl_group(None, gid).is_ok());
}
