//! The library's general guarantees, stated and proved over the same
//! spec functions the operations' contracts use: purging is idempotent,
//! failed log-ins do not leak which names exist, a fresh project has
//! exactly its creator as admin, private projects gate reads by tier,
//! deleting a project takes its groups with it, and membership
//! reconciliation is total.

use vstd::prelude::*;

use crate::auth::{spec_decision, spec_member_gate, spec_read_gate, Decision};
use crate::credential::{hash_verifies, spec_check_user_password};
use crate::errors::{
    spec_project_error_outward, spec_status_code, spec_user_error_outward, OutwardError,
    ProjectError,
};
use crate::models::{ProjectInputModel, SessionEntry, UserModel, Visibility};
use crate::projects::{
    spec_admin_names, spec_admin_rows, spec_create_project, spec_delete_project,
    spec_named_member,
};
use crate::session::spec_log_out;
use crate::store::StoreModel;

verus! {

/// Logging out is idempotent: a second log-out with the same token
/// changes nothing, and after either call the token no longer resolves
/// to a caller. Neither call errs: log-out is total.
pub proof fn lemma_log_out_idempotent(m: StoreModel, token: Option<u64>)
    ensures
        spec_log_out(spec_log_out(m, token), token) == spec_log_out(m, token),
        spec_log_out(m, token).caller_of(token) is None,
{
    match token {
        Option::None => {},
        Option::Some(t) => {
            let p = |s: SessionEntry| s.token != t;
            crate::seqs::lemma_filter_idempotent(m.sessions, p);
            let d = spec_log_out(m, token);
            assert(spec_log_out(d, token) =~= d);
            assert(!d.is_live_token(t)) by {
                if d.is_live_token(t) {
                    let w = choose|i: int|
                        0 <= i < d.sessions.len() && (#[trigger] d.sessions[i]).token == t;
                    m.sessions.lemma_filter_pred(p, w);
                }
            }
        },
    }
}

/// No enumeration: a log-in with an unknown name and a log-in with a
/// known name but a non-verifying password both fail, and both map to
/// the same outward category, surfaced with the same status code. The
/// outward signal does not reveal which names exist.
pub proof fn lemma_log_in_no_enumeration(
    m: StoreModel,
    unknown_name: Seq<char>,
    p1: Seq<char>,
    known_name: Seq<char>,
    p2: Seq<char>,
)
    requires
        !m.user_name_taken(unknown_name),
        m.user_name_taken(known_name),
        !hash_verifies(m.user_by_name(known_name).password_hash, p2),
    ensures
        spec_check_user_password(m, unknown_name, p1) is Err,
        spec_check_user_password(m, known_name, p2) is Err,
        spec_user_error_outward(spec_check_user_password(m, unknown_name, p1)->Err_0)
            == spec_user_error_outward(spec_check_user_password(m, known_name, p2)->Err_0),
        spec_user_error_outward(spec_check_user_password(m, unknown_name, p1)->Err_0)
            == OutwardError::Unauthenticated,
        spec_status_code(OutwardError::Unauthenticated) == 401,
{
}

/// Admin invariant: immediately after project creation the creator is
/// an admin, the only admin, and the admin-name list of the new project
/// (what a project read reports) is exactly one name, the creator's.
pub proof fn lemma_create_project_sole_admin(m: StoreModel, uid: i64, input: ProjectInputModel)
    requires
        m.wf(),
        m.has_user_id(uid),
        m.next_project_id < i64::MAX,
    ensures
        spec_create_project(m, uid, input).is_admin(uid, m.next_project_id),
        forall|u2: i64|
            #[trigger] spec_create_project(m, uid, input).is_admin(u2, m.next_project_id) ==> u2
                == uid,
        spec_admin_names(spec_create_project(m, uid, input), m.next_project_id) == seq![
            m.user_by_id(uid).name,
        ],
{
    broadcast use vstd::prelude::Seq::lemma_filter_push;

    let c = spec_create_project(m, uid, input);
    let pid = m.next_project_id;
    let row = crate::models::ProjectAdmin { project_id: pid, user_id: uid };
    let n = c.admins.len() - 1;
    assert(c.admins[n] == row);
    assert forall|u2: i64| #[trigger] c.is_admin(u2, pid) implies u2 == uid by {
        let w = choose|i: int|
            0 <= i < c.admins.len() && (#[trigger] c.admins[i])
                == (crate::models::ProjectAdmin { project_id: pid, user_id: u2 });
        if w < n {
            assert(m.admins[w] == c.admins[w]);
            assert(m.has_project((m.admins[w]).project_id));
            let v = choose|i: int|
                0 <= i < m.projects.len() && (#[trigger] m.projects[i]).id == pid;
        }
    }
    let ap = |a: crate::models::ProjectAdmin| a.project_id == pid;
    assert forall|i: int| 0 <= i < m.admins.len() implies !ap(#[trigger] m.admins[i]) by {
        assert(m.has_project((m.admins[i]).project_id));
        let v = choose|t: int| 0 <= t < m.projects.len() && (#[trigger] m.projects[t]).id == pid;
    }
    m.admins.lemma_all_neg_filter_empty(ap);
    assert(c.admins =~= m.admins.push(row));
    assert(spec_admin_rows(c, pid) == m.admins.filter(ap).push(row)) by {
        assert(m.admins.push(row).filter(ap) == m.admins.filter(ap).push(row));
    }
    assert(spec_admin_rows(c, pid) =~= seq![row]);
    assert(c.user_by_id(uid) == m.user_by_id(uid));
    assert(spec_admin_names(c, pid) =~= seq![m.user_by_id(uid).name]);
}

/// Visibility gating, absent side: a project id that does not exist
/// reads as NotFound for every caller, authenticated or not.
pub proof fn lemma_absent_project_not_found(m: StoreModel, caller: Option<i64>, pid: i64)
    requires
        !m.has_project(pid),
    ensures
        spec_read_gate(m, caller, pid) == Result::<(), ProjectError>::Err(
            ProjectError::ProjectDoesNotExistError,
        ),
        spec_project_error_outward(ProjectError::ProjectDoesNotExistError)
            == OutwardError::NotFound,
        spec_status_code(OutwardError::NotFound) == 404,
{
}

/// Visibility gating, present side: on a Private project whose only
/// admin is one caller and which has no collaborators, any other
/// authenticated caller reads Forbidden, and the anonymous caller is
/// told to authenticate; the two outward categories differ.
pub proof fn lemma_private_project_gating(m: StoreModel, admin: i64, other: i64, pid: i64)
    requires
        m.wf(),
        m.has_project(pid),
        m.project_by_id(pid).visibility == Visibility::Private,
        forall|u2: i64| #[trigger] m.is_admin(u2, pid) ==> u2 == admin,
        forall|u2: i64| !(#[trigger] m.is_collaborator(u2, pid)),
        other != admin,
    ensures
        spec_decision(m, Option::Some(other), pid) == Decision::Denied,
        spec_read_gate(m, Option::Some(other), pid) == Result::<(), ProjectError>::Err(
            ProjectError::Forbidden,
        ),
        spec_read_gate(m, Option::None, pid) == Result::<(), ProjectError>::Err(
            ProjectError::SessionGetError,
        ),
        spec_status_code(spec_project_error_outward(ProjectError::Forbidden)) == 403,
        spec_status_code(spec_project_error_outward(ProjectError::SessionGetError)) == 401,
{
}

/// Cascade on delete: after a project is deleted, reading any group
/// that was under it answers NotFound, for every caller.
pub proof fn lemma_cascade_on_delete(m: StoreModel, pid: i64, gid: i64, caller: Option<i64>)
    requires
        m.wf(),
        m.has_group(gid),
        m.group_by_id(gid).project_id == pid,
    ensures
        crate::auth::spec_group_read_gate(spec_delete_project(m, pid), caller, gid) == Result::<
            (),
            ProjectError,
        >::Err(ProjectError::ProjectDoesNotExistError),
{
    crate::projects::lemma_delete_project_wf(m, pid);
    let d = spec_delete_project(m, pid);
    assert(!d.has_group(gid)) by {
        if d.has_group(gid) {
            assert(m.group_by_id(gid).project_id != pid);
        }
    }
}

/// Membership reconciliation is total: replacing a membership list with
/// the empty list grants membership to nobody.
pub proof fn lemma_empty_list_grants_nothing(users: Seq<UserModel>, uid: i64)
    ensures
        !spec_named_member(users, Seq::<Seq<char>>::empty(), uid),
{
}

/// A caller who lost collaborator standing loses Collaborator tier on
/// the very next decision: on a Private project with no collaborators,
/// a non-admin caller is Denied and the member gate answers Forbidden.
pub proof fn lemma_removed_collaborator_loses_access(m: StoreModel, pid: i64, x: i64)
    requires
        m.wf(),
        m.has_project(pid),
        m.project_by_id(pid).visibility == Visibility::Private,
        forall|u2: i64| !(#[trigger] m.is_collaborator(u2, pid)),
        !m.is_admin(x, pid),
    ensures
        spec_decision(m, Option::Some(x), pid) == Decision::Denied,
        spec_member_gate(m, x, pid) == Result::<(), ProjectError>::Err(ProjectError::Forbidden),
{
}

} // verus!
