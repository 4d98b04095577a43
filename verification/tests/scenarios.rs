use backend::errors::{project_error_outward, user_error_outward, ProjectError, UserError};
use backend::models::{GroupInput, ProjectInput, Visibility};
use backend::store::Store;

fn project_input(name: &str, visibility: Visibility) -> ProjectInput {
    ProjectInput {
        environments: String::new(),
        description: String::new(),
        name: name.to_string(),
        visibility,
    }
}

fn group_input(name: &str) -> GroupInput {
    GroupInput {
        curls: "curl localhost".to_string(),
        description: String::new(),
        labels: String::new(),
        name: name.to_string(),
    }
}

fn names(list: &[&str]) -> Vec<String> {
    list.iter().map(|n| n.to_string()).collect()
}

#[test]
fn signup_then_public_read_then_private_gating_end_to_end() {
    let mut store = Store::new();
    // alice signs up and creates a Public project.
    let alice = store.sign_up(None, "alice", "secret").unwrap();
    let p1 = store
        .create_project(Some(alice), &project_input("P1", Visibility::Public))
        .unwrap();
    store.log_out(Some(alice));
    // Anonymous read of the public project succeeds and reports Public.
    let full = store.get_project(None, p1).unwrap();
    assert_eq!(full.info.visibility, Visibility::Public);
    // bob signs up and creates a Private project.
    let bob = store.sign_up(None, "bob", "secret").unwrap();
    let p2 = store
        .create_project(Some(bob), &project_input("P2", Visibility::Private))
        .unwrap();
    // alice (valid session, not a member) gets Forbidden (403).
    let alice = store.log_in(None, "alice", "secret").unwrap();
    let as_alice = store.get_project(Some(alice), p2);
    assert_eq!(as_alice, Err(ProjectError::Forbidden));
    assert_eq!(project_error_outward(ProjectError::Forbidden).status_code(), 403);
    // Anonymous gets Unauthenticated (401).
    let anonymous = store.get_project(None, p2);
    assert_eq!(anonymous, Err(ProjectError::SessionGetError));
    assert_eq!(project_error_outward(ProjectError::SessionGetError).status_code(), 401);
    // bob reads his own private project.
    let as_bob = store.get_project(Some(bob), p2).unwrap();
    assert_eq!(as_bob.info.name, "P2");
}

#[test]
fn unknown_project_is_not_found_for_every_caller() {
    let mut store = Store::new();
    let token = store.sign_up(None, "alice", "secret").unwrap();
    assert_eq!(
        store.get_project(None, 77),
        Err(ProjectError::ProjectDoesNotExistError)
    );
    assert_eq!(
        store.get_project(Some(token), 77),
        Err(ProjectError::ProjectDoesNotExistError)
    );
}

#[test]
fn cascade_on_delete_removes_groups() {
    let mut store = Store::new();
    let admin = store.sign_up(None, "alice", "secret").unwrap();
    let pid = store
        .create_project(Some(admin), &project_input("p", Visibility::Public))
        .unwrap();
    let g1 = store
        .create_curl_group(Some(admin), pid, &group_input("one"))
        .unwrap();
    let g2 = store
        .create_curl_group(Some(admin), pid, &group_input("two"))
        .unwrap();
    store.delete_project(Some(admin), pid).unwrap();
    assert_eq!(
        store.get_curl_group(Some(admin), g1),
        Err(ProjectError::ProjectDoesNotExistError)
    );
    assert_eq!(
        store.get_curl_group(None, g2),
        Err(ProjectError::ProjectDoesNotExistError)
    );
}

#[test]
fn membership_reconciliation_is_total() {
    let mut store = Store::new();
    let owner = store.sign_up(None, "alice", "secret").unwrap();
    let x = store.sign_up(None, "x", "secret").unwrap();
    store.sign_up(None, "y", "secret").unwrap();
    let input = project_input("p", Visibility::Private);
    let pid = store.create_project(Some(owner), &input).unwrap();
    store
        .update_project(Some(owner), pid, &input, &names(&["alice"]), &names(&["x", "y"]))
        .unwrap();
    let full = store.get_project(Some(owner), pid).unwrap();
    assert_eq!(full.collaborators, vec!["x".to_string(), "y".to_string()]);
    assert!(store.get_project(Some(x), pid).is_ok());
    // Reconciling against the empty list removes both.
    store
        .update_project(Some(owner), pid, &input, &names(&["alice"]), &names(&[]))
        .unwrap();
    let full = store.get_project(Some(owner), pid).unwrap();
    assert_eq!(full.collaborators, Vec::<String>::new());
    // A removed collaborator loses access on the next call.
    assert_eq!(store.get_project(Some(x), pid), Err(ProjectError::Forbidden));
}

#[test]
fn unknown_names_in_membership_lists_are_ignored() {
    let mut store = Store::new();
    let owner = store.sign_up(None, "alice", "secret").unwrap();
    let input = project_input("p", Visibility::Private);
    let pid = store.create_project(Some(owner), &input).unwrap();
    store
        .update_project(
            Some(owner),
            pid,
            &input,
            &names(&["alice", "nobody-of-that-name"]),
            &names(&["also-unknown"]),
        )
        .unwrap();
    let full = store.get_project(Some(owner), pid).unwrap();
    assert_eq!(full.admins, vec!["alice".to_string()]);
    assert_eq!(full.collaborators, Vec::<String>::new());
}

#[test]
fn is_user_admin_check_answers_exactly() {
    let mut store = Store::new();
    let owner = store.sign_up(None, "alice", "secret").unwrap();
    let other = store.sign_up(None, "bob", "secret").unwrap();
    let pid = store
        .create_project(Some(owner), &project_input("p", Visibility::Public))
        .unwrap();
    assert!(store.check_user_admin_permission_for_project(Some(owner), pid));
    assert!(!store.check_user_admin_permission_for_project(Some(other), pid));
    assert!(!store.check_user_admin_permission_for_project(None, pid));
    assert!(!store.check_user_admin_permission_for_project(Some(owner), 4242));
}

#[test]
fn deleting_account_cascades_sessions_and_memberships() {
    let mut store = Store::new();
    let owner = store.sign_up(None, "alice", "secret").unwrap();
    let member = store.sign_up(None, "bob", "secret").unwrap();
    let input = project_input("p", Visibility::Private);
    let pid = store.create_project(Some(owner), &input).unwrap();
    store
        .update_project(Some(owner), pid, &input, &names(&["alice"]), &names(&["bob"]))
        .unwrap();
    store.delete_account(Some(member)).unwrap();
    assert!(!store.session_status(Some(member)).is_logged_in);
    // The project survives; the deleted account is gone from its lists.
    let full = store.get_project(Some(owner), pid).unwrap();
    assert_eq!(full.admins, vec!["alice".to_string()]);
    assert_eq!(full.collaborators, Vec::<String>::new());
}

#[test]
fn exhausted_id_counter_is_a_storage_error() {
    let mut store = Store::new();
    let token = store.sign_up(None, "alice", "secret").unwrap();
    store.next_project_id = i64::MAX;
    let r = store.create_project(Some(token), &project_input("p", Visibility::Public));
    assert_eq!(r, Err(ProjectError::StorageError));
    assert_eq!(project_error_outward(ProjectError::StorageError).status_code(), 500);
    assert_eq!(user_error_outward(UserError::StorageError).status_code(), 500);
}

#[test]
fn password_verification_rejects_other_passwords() {
    let mut store = Store::new();
    store.sign_up(None, "alice", "secret").unwrap();
    assert!(store.log_in(None, "alice", "secret").is_ok());
    assert_eq!(
        store.log_in(None, "alice", "secret "),
        Err(UserError::InvalidPassword)
    );
    assert_eq!(store.log_in(None, "alice", ""), Err(UserError::InvalidPassword));
    // The stored value is a hash, not the password handed in.
    assert_ne!(store.users[0].password_hash, "secret");
}

#[test]
fn emptying_the_admin_set_orphans_the_project() {
    let mut store = Store::new();
    let owner = store.sign_up(None, "alice", "secret").unwrap();
    let input = project_input("p", Visibility::Public);
    let pid = store.create_project(Some(owner), &input).unwrap();
    // The update that removes every admin is accepted.
    store
        .update_project(Some(owner), pid, &input, &names(&[]), &names(&[]))
        .unwrap();
    // The project is still readable, but no caller may mutate it again.
    assert!(store.get_project(None, pid).is_ok());
    assert_eq!(
        store.delete_project(Some(owner), pid),
        Err(ProjectError::Forbidden)
    );
    assert_eq!(
        store.update_project(Some(owner), pid, &input, &names(&["alice"]), &names(&[])),
        Err(ProjectError::Forbidden)
    );
}

#[test]
fn exhausted_token_counter_is_a_storage_error() {
    let mut store = Store::new();
    store.sign_up(None, "alice", "secret").unwrap();
    store.log_out(None);
    store.next_token = u64::MAX;
    let r = store.log_in(None, "alice", "secret");
    assert_eq!(r, Err(UserError::StorageError));
    let s = store.sign_up(None, "bob", "secret");
    assert_eq!(s, Err(UserError::StorageError));
}

#[test]
fn permission_checks_follow_membership() {
    let mut store = Store::new();
    let owner_token = store.sign_up(None, "alice", "secret").unwrap();
    store.sign_up(None, "bob", "secret").unwrap();
    let owner_id = store.users[0].id;
    let bob_id = store.users[1].id;
    let input = project_input("p", Visibility::Private);
    let pid = store.create_project(Some(owner_token), &input).unwrap();
    store
        .update_project(Some(owner_token), pid, &input, &names(&["alice"]), &names(&["bob"]))
        .unwrap();
    assert_eq!(store.check_user_has_project_admin_permission(owner_id, pid), Ok(()));
    assert_eq!(
        store.check_user_has_project_admin_permission(bob_id, pid),
        Err(ProjectError::Forbidden)
    );
    assert_eq!(
        store.check_user_has_project_admin_permission(owner_id, 4242),
        Err(ProjectError::ProjectDoesNotExistError)
    );
    assert_eq!(store.check_user_has_project_permission(owner_id, pid), Ok(()));
    assert_eq!(store.check_user_has_project_permission(bob_id, pid), Ok(()));
    store
        .update_project(Some(owner_token), pid, &input, &names(&["alice"]), &names(&[]))
        .unwrap();
    assert_eq!(
        store.check_user_has_project_permission(bob_id, pid),
        Err(ProjectError::Forbidden)
    );
}
