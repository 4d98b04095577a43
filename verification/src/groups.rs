//! Group operations: create, read and update. A group has no
//! visibility of its own; every gate resolves the parent project's
//! decision afresh.

use vstd::prelude::*;

use crate::auth::{spec_group_read_gate, spec_read_gate, Decision};
use crate::errors::ProjectError;
use crate::models::{CurlGroup, CurlGroupModel, GroupInput};
use crate::store::{Store, StoreModel};

verus! {

/// The store after creating a group under a project: the group appears
/// under a fresh id, nothing else moves.
pub open spec fn spec_create_group(
    m: StoreModel,
    pid: i64,
    input: crate::models::GroupInputModel,
) -> StoreModel {
    StoreModel {
        groups: m.groups.push(
            CurlGroupModel {
                id: m.next_group_id,
                curls: input.curls,
                description: input.description,
                labels: input.labels,
                name: input.name,
                project_id: pid,
            },
        ),
        next_group_id: (m.next_group_id + 1) as i64,
        ..m
    }
}

impl Store {
    /// Create a group: authentication is required, and then the owning
    /// project's tier decides: on a Private project only an admin or a
    /// collaborator may create, on a Public one any authenticated
    /// caller is at least a PublicReader and may.
    pub fn create_curl_group(&mut self, token: Option<u64>, project_id: i64, input: &GroupInput)
        -> (r: Result<i64, ProjectError>)
        requires
            old(self)@.wf(),
        ensures
            final(self)@.wf(),
            r is Err ==> final(self)@ == old(self)@,
            match old(self)@.caller_of(token) {
                Option::None => r == Result::<i64, ProjectError>::Err(
                    ProjectError::SessionGetError,
                ),
                Option::Some(uid) => match spec_read_gate(
                    old(self)@,
                    Option::Some(uid),
                    project_id,
                ) {
                    Result::Err(e) => r == Result::<i64, ProjectError>::Err(e),
                    Result::Ok(_) => if old(self)@.next_group_id == i64::MAX {
                        r == Result::<i64, ProjectError>::Err(ProjectError::StorageError)
                    } else {
                        r == Result::<i64, ProjectError>::Ok(old(self)@.next_group_id)
                            && final(self)@ == spec_create_group(old(self)@, project_id, input@)
                            && final(self)@.has_group(old(self)@.next_group_id)
                    },
                },
            },
    {
        let uid = match self.get_user_id(token) {
            Result::Ok(u) => u,
            Result::Err(_) => {
                return Result::Err(ProjectError::SessionGetError);
            },
        };
        match self.resolve(Option::Some(uid), project_id) {
            Decision::ProjectNotFound => {
                return Result::Err(ProjectError::ProjectDoesNotExistError);
            },
            Decision::Denied => {
                return Result::Err(ProjectError::Forbidden);
            },
            _ => {},
        }
        if self.next_group_id == i64::MAX {
            return Result::Err(ProjectError::StorageError);
        }
        let gid = self.next_group_id;
        self.groups.push(
            CurlGroup {
                id: gid,
                curls: input.curls.clone(),
                description: input.description.clone(),
                labels: input.labels.clone(),
                name: input.name.clone(),
                project_id,
            },
        );
        self.next_group_id = gid + 1;
        proof {
            let m = old(self)@;
            assert(self@.groups =~= m.groups.push(
                CurlGroupModel {
                    id: gid,
                    curls: input@.curls,
                    description: input@.description,
                    labels: input@.labels,
                    name: input@.name,
                    project_id,
                },
            ));
            assert(self@ =~= spec_create_group(m, project_id, input@));
            let n = self@.groups.len() - 1;
            assert((self@.groups[n]).id == gid);
            assert forall|i: int, j: int| 0 <= i < j < self@.groups.len() implies (
            #[trigger] self@.groups[i]).id != (#[trigger] self@.groups[j]).id by {
                assert(self@.groups[i] == m.groups[i]);
                if j < n {
                    assert(self@.groups[j] == m.groups[j]);
                }
            }
            assert forall|j: int| 0 <= j < self@.groups.len() implies 0 < (
            #[trigger] self@.groups[j]).id < self@.next_group_id && m.has_project(
                self@.groups[j].project_id,
            ) by {
                if j < n {
                    assert(self@.groups[j] == m.groups[j]);
                    assert(m.has_project((m.groups[j]).project_id));
                } else {
                    assert(m.has_project(project_id));
                }
            }
            crate::store::lemma_wf_groups_change(m, self@);
        }
        Result::Ok(gid)
    }

    /// Read one group, gated by the parent project's visibility and the
    /// caller's tier there.
    pub fn get_curl_group(&self, token: Option<u64>, group_id: i64) -> (r: Result<
        CurlGroup,
        ProjectError,
    >)
        requires
            self@.wf(),
        ensures
            match spec_group_read_gate(self@, self@.caller_of(token), group_id) {
                Result::Err(e) => r == Result::<CurlGroup, ProjectError>::Err(e),
                Result::Ok(_) => r matches Ok(g) && g@ == self@.group_by_id(group_id),
            },
    {
        let caller = match self.get_user_id(token) {
            Result::Ok(u) => Option::Some(u),
            Result::Err(_) => Option::None,
        };
        match self.curl_group_check_user_permission(caller, group_id) {
            Result::Err(e) => Result::Err(e),
            Result::Ok(_) => {
                match self.find_group(group_id) {
                    Option::Some(i) => {
                        let g = &self.groups[i];
                        Result::Ok(
                            CurlGroup {
                                id: g.id,
                                curls: g.curls.clone(),
                                description: g.description.clone(),
                                labels: g.labels.clone(),
                                name: g.name.clone(),
                                project_id: g.project_id,
                            },
                        )
                    },
                    Option::None => {
                        proof {
                            assert(false);
                        }
                        Result::Err(ProjectError::ProjectDoesNotExistError)
                    },
                }
            },
        }
    }

    /// Update a group: authentication is required first, then the
    /// parent project's read gate for the caller; the group's fields
    /// are replaced in place, its id and owner stay.
    pub fn update_curl_group(&mut self, token: Option<u64>, group_id: i64, input: &GroupInput)
        -> (r: Result<(), ProjectError>)
        requires
            old(self)@.wf(),
        ensures
            final(self)@.wf(),
            r is Err ==> final(self)@ == old(self)@,
            match old(self)@.caller_of(token) {
                Option::None => r == Result::<(), ProjectError>::Err(
                    ProjectError::SessionGetError,
                ),
                Option::Some(uid) => match spec_group_read_gate(
                    old(self)@,
                    Option::Some(uid),
                    group_id,
                ) {
                    Result::Err(e) => r == Result::<(), ProjectError>::Err(e),
                    Result::Ok(_) => r == Result::<(), ProjectError>::Ok(()) && final(self)@
                        == old(self)@.with_groups(
                        old(self)@.groups.map_values(
                            |g: CurlGroupModel|
                                if g.id == group_id {
                                    CurlGroupModel {
                                        id: group_id,
                                        curls: input@.curls,
                                        description: input@.description,
                                        labels: input@.labels,
                                        name: input@.name,
                                        project_id: g.project_id,
                                    }
                                } else {
                                    g
                                },
                        ),
                    ),
                },
            },
    {
        let uid = match self.get_user_id(token) {
            Result::Ok(u) => u,
            Result::Err(_) => {
                return Result::Err(ProjectError::SessionGetError);
            },
        };
        if let Result::Err(e) = self.curl_group_check_user_permission(Option::Some(uid), group_id)
        {
            return Result::Err(e);
        }
        let ghost m0 = old(self)@;
        let ghost gmap = |g: CurlGroupModel|
            if g.id == group_id {
                CurlGroupModel {
                    id: group_id,
                    curls: input@.curls,
                    description: input@.description,
                    labels: input@.labels,
                    name: input@.name,
                    project_id: g.project_id,
                }
            } else {
                g
            };
        let idx = match self.find_group(group_id) {
            Option::Some(i) => i,
            Option::None => {
                proof {
                    assert(false);
                }
                return Result::Err(ProjectError::ProjectDoesNotExistError);
            },
        };
        let owner = self.groups[idx].project_id;
        self.groups[idx] = CurlGroup {
            id: group_id,
            curls: input.curls.clone(),
            description: input.description.clone(),
            labels: input.labels.clone(),
            name: input.name.clone(),
            project_id: owner,
        };
        proof {
            assert(self@ =~= m0.with_groups(self@.groups));
            assert(self@.groups =~= m0.groups.map_values(gmap)) by {
                assert forall|t: int| 0 <= t < self@.groups.len() implies self@.groups[t]
                    == m0.groups.map_values(gmap)[t] by {
                    if t != idx as int {
                        assert((m0.groups[idx as int]).id == group_id);
                        assert(m0.groups[t].id != group_id);
                        assert(self@.groups[t] == m0.groups[t]);
                    }
                }
            }
            assert forall|i: int, j: int| 0 <= i < j < self@.groups.len() implies (
            #[trigger] self@.groups[i]).id != (#[trigger] self@.groups[j]).id by {
                assert(self@.groups[i].id == m0.groups[i].id && self@.groups[j].id
                    == m0.groups[j].id);
            }
            assert forall|j: int| 0 <= j < self@.groups.len() implies 0 < (
            #[trigger] self@.groups[j]).id < self@.next_group_id && m0.has_project(
                self@.groups[j].project_id,
            ) by {
                assert(self@.groups[j].id == m0.groups[j].id && self@.groups[j].project_id
                    == m0.groups[j].project_id);
                assert(m0.has_project((m0.groups[j]).project_id));
            }
            crate::store::lemma_wf_groups_change(m0, self@);
        }
        Result::Ok(())
    }
}

} // verus!
