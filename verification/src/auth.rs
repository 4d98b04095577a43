//! The authorization engine: one central decision function resolving,
//! for any (caller, project) pair, one of Admin, Collaborator,
//! PublicReader, Denied or ProjectNotFound. Every resource operation
//! invokes it fresh; a decision is never cached across operations, so
//! stale authorization is never honored.

use vstd::prelude::*;

use crate::errors::ProjectError;
use crate::models::Visibility;
use crate::store::{Store, StoreModel};

verus! {

/// The permission tier resolved for a (caller, project) pair.
#[derive(Clone, Copy, Debug, PartialEq, Eq, Structural)]
pub enum Decision {
    Admin,
    Collaborator,
    PublicReader,
    Denied,
    ProjectNotFound,
}

/// The decision algorithm. The existence check precedes every
/// permission check, so "does not exist" and "exists but forbidden" are
/// never confused. On a Public project every caller, the anonymous one
/// included, is at least a PublicReader; members are still elevated,
/// because write gates need the tier.
pub open spec fn spec_decision(m: StoreModel, caller: Option<i64>, pid: i64) -> Decision {
    if !m.has_project(pid) {
        Decision::ProjectNotFound
    } else {
        match caller {
            Option::None => if m.project_by_id(pid).visibility == Visibility::Public {
                Decision::PublicReader
            } else {
                Decision::Denied
            },
            Option::Some(u) => if m.is_admin(u, pid) {
                Decision::Admin
            } else if m.is_collaborator(u, pid) {
                Decision::Collaborator
            } else if m.project_by_id(pid).visibility == Visibility::Public {
                Decision::PublicReader
            } else {
                Decision::Denied
            },
        }
    }
}

/// What the read gate of a project answers: absent projects are
/// NotFound for every caller; a Denied anonymous caller is told to
/// authenticate (the two map to different outward categories), a Denied
/// authenticated caller is Forbidden.
pub open spec fn spec_read_gate(m: StoreModel, caller: Option<i64>, pid: i64) -> Result<
    (),
    ProjectError,
> {
    match spec_decision(m, caller, pid) {
        Decision::ProjectNotFound => Result::Err(ProjectError::ProjectDoesNotExistError),
        Decision::Denied => match caller {
            Option::None => Result::Err(ProjectError::SessionGetError),
            Option::Some(_) => Result::Err(ProjectError::Forbidden),
        },
        _ => Result::Ok(()),
    }
}

/// What the admin gate answers for an authenticated caller.
pub open spec fn spec_admin_gate(m: StoreModel, uid: i64, pid: i64) -> Result<(), ProjectError> {
    if !m.has_project(pid) {
        Result::Err(ProjectError::ProjectDoesNotExistError)
    } else if m.is_admin(uid, pid) {
        Result::Ok(())
    } else {
        Result::Err(ProjectError::Forbidden)
    }
}

/// What the member gate (admin or collaborator) answers for an
/// authenticated caller.
pub open spec fn spec_member_gate(m: StoreModel, uid: i64, pid: i64) -> Result<(), ProjectError> {
    if !m.has_project(pid) {
        Result::Err(ProjectError::ProjectDoesNotExistError)
    } else if m.is_admin(uid, pid) || m.is_collaborator(uid, pid) {
        Result::Ok(())
    } else {
        Result::Err(ProjectError::Forbidden)
    }
}

/// What the read gate of a group answers: a group has no visibility of
/// its own, it inherits its parent project's.
pub open spec fn spec_group_read_gate(m: StoreModel, caller: Option<i64>, gid: i64) -> Result<
    (),
    ProjectError,
> {
    if !m.has_group(gid) {
        Result::Err(ProjectError::ProjectDoesNotExistError)
    } else {
        spec_read_gate(m, caller, m.group_by_id(gid).project_id)
    }
}

impl Store {
    /// Resolve the caller's tier for one project.
    pub fn resolve(&self, caller: Option<i64>, project_id: i64) -> (d: Decision)
        requires
            self@.wf(),
        ensures
            d == spec_decision(self@, caller, project_id),
    {
        let idx = match self.find_project(project_id) {
            Option::None => {
                return Decision::ProjectNotFound;
            },
            Option::Some(i) => i,
        };
        match caller {
            Option::None => {
                if self.projects[idx].visibility == Visibility::Public {
                    Decision::PublicReader
                } else {
                    Decision::Denied
                }
            },
            Option::Some(u) => {
                if self.admin_row_exists(u, project_id) {
                    Decision::Admin
                } else if self.collaborator_row_exists(u, project_id) {
                    Decision::Collaborator
                } else if self.projects[idx].visibility == Visibility::Public {
                    Decision::PublicReader
                } else {
                    Decision::Denied
                }
            },
        }
    }

    /// Admin gate: NotFound before Forbidden, so a 404 never leaks as a
    /// 403 nor the other way round.
    pub fn check_user_has_project_admin_permission(&self, user_id: i64, project_id: i64) -> (r:
        Result<(), ProjectError>)
        requires
            self@.wf(),
        ensures
            r == spec_admin_gate(self@, user_id, project_id),
    {
        if let Option::None = self.find_project(project_id) {
            return Result::Err(ProjectError::ProjectDoesNotExistError);
        }
        if !self.admin_row_exists(user_id, project_id) {
            return Result::Err(ProjectError::Forbidden);
        }
        Result::Ok(())
    }

    /// Member gate: an admin or a collaborator may act; NotFound still
    /// precedes Forbidden.
    pub fn check_user_has_project_permission(&self, user_id: i64, project_id: i64) -> (r: Result<
        (),
        ProjectError,
    >)
        requires
            self@.wf(),
        ensures
            r == spec_member_gate(self@, user_id, project_id),
    {
        if let Option::None = self.find_project(project_id) {
            return Result::Err(ProjectError::ProjectDoesNotExistError);
        }
        if self.admin_row_exists(user_id, project_id) || self.collaborator_row_exists(
            user_id,
            project_id,
        ) {
            Result::Ok(())
        } else {
            Result::Err(ProjectError::Forbidden)
        }
    }

    /// Read gate of a group: look the group up, then gate on its parent
    /// project's visibility and membership.
    pub fn curl_group_check_user_permission(&self, caller: Option<i64>, group_id: i64) -> (r:
        Result<(), ProjectError>)
        requires
            self@.wf(),
        ensures
            r == spec_group_read_gate(self@, caller, group_id),
    {
        let gidx = match self.find_group(group_id) {
            Option::None => {
                return Result::Err(ProjectError::ProjectDoesNotExistError);
            },
            Option::Some(i) => i,
        };
        let pid = self.groups[gidx].project_id;
        match self.resolve(caller, pid) {
            Decision::ProjectNotFound => Result::Err(ProjectError::ProjectDoesNotExistError),
            Decision::Denied => match caller {
                Option::None => Result::Err(ProjectError::SessionGetError),
                Option::Some(_) => Result::Err(ProjectError::Forbidden),
            },
            _ => Result::Ok(()),
        }
    }

    /// Whether the presented token belongs to an admin of the project:
    /// any failure along the way simply answers no.
    pub fn check_user_admin_permission_for_project(&self, token: Option<u64>, project_id: i64)
        -> (r: bool)
        requires
            self@.wf(),
        ensures
            r == (self@.caller_of(token) matches Option::Some(u) && spec_decision(
                self@,
                Option::Some(u),
                project_id,
            ) == Decision::Admin),
    {
        match self.get_user_id(token) {
            Result::Ok(uid) => {
                match self.check_user_has_project_admin_permission(uid, project_id) {
                    Result::Ok(_) => true,
                    Result::Err(_) => false,
                }
            },
            Result::Err(_) => false,
        }
    }
}

} // verus!
