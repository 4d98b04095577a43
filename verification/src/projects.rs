//! Project operations: list, create, read, update (metadata and
//! membership reconciliation) and delete (with its cascade). Every
//! mutating operation resolves the session, then the authorization
//! decision, and only then touches the store, in one step.

use vstd::prelude::*;
use vstd::string::StringExecFns;

use crate::auth::{spec_admin_gate, spec_decision, spec_read_gate, Decision};
use crate::errors::ProjectError;
use crate::models::{
    CurlGroup, CurlGroupModel, Project, ProjectAdmin, ProjectCollaborator, ProjectFull,
    ProjectInput, ProjectModel, UserModel, Visibility,
};
use crate::store::{Store, StoreModel};

verus! {

/// The store after creating a project: the project appears under a
/// fresh id and its creator is inserted as the sole admin, atomically.
pub open spec fn spec_create_project(m: StoreModel, uid: i64, input: crate::models::ProjectInputModel)
    -> StoreModel {
    StoreModel {
        projects: m.projects.push(
            ProjectModel {
                id: m.next_project_id,
                environments: input.environments,
                description: input.description,
                name: input.name,
                visibility: input.visibility,
            },
        ),
        admins: m.admins.push(ProjectAdmin { project_id: m.next_project_id, user_id: uid }),
        next_project_id: (m.next_project_id + 1) as i64,
        ..m
    }
}

/// The store after deleting a project: the project, all its groups and
/// both its membership relations go in the same step, so no orphaned
/// group or relation row is ever left behind.
pub open spec fn spec_delete_project(m: StoreModel, pid: i64) -> StoreModel {
    StoreModel {
        projects: m.projects.filter(|p: ProjectModel| p.id != pid),
        groups: m.groups.filter(|g: CurlGroupModel| g.project_id != pid),
        admins: m.admins.filter(|a: ProjectAdmin| a.project_id != pid),
        collaborators: m.collaborators.filter(|c: ProjectCollaborator| c.project_id != pid),
        ..m
    }
}

/// Deleting a project leaves the store well-formed, and a project that
/// survives it is still found.
pub(crate) proof fn lemma_delete_project_wf(m: StoreModel, pid: i64)
    requires
        m.wf(),
    ensures
        spec_delete_project(m, pid).wf(),
        forall|t: i64| m.has_project(t) && t != pid ==> #[trigger] spec_delete_project(
            m,
            pid,
        ).has_project(t),
        !spec_delete_project(m, pid).has_project(pid),
        forall|gid: i64| #[trigger] spec_delete_project(m, pid).has_group(gid) ==> m.has_group(gid)
            && m.group_by_id(gid).project_id != pid,
{
    let d = spec_delete_project(m, pid);
    let pp = |p: ProjectModel| p.id != pid;
    crate::seqs::lemma_filter_preserves_pairwise(
        m.projects,
        pp,
        |a: ProjectModel, b: ProjectModel| a.id != b.id,
    );
    crate::seqs::lemma_filter_preserves_all(
        m.projects,
        pp,
        |p: ProjectModel| 0 < p.id < m.next_project_id,
    );
    assert forall|t: i64| m.has_project(t) && t != pid implies #[trigger] d.has_project(t) by {
        let w = choose|i: int| 0 <= i < m.projects.len() && (#[trigger] m.projects[i]).id == t;
        m.projects.lemma_filter_contains(pp, w);
        let k = choose|k: int| 0 <= k < d.projects.len() && d.projects[k] == m.projects[w];
        assert((d.projects[k]).id == t);
    }
    assert(!d.has_project(pid)) by {
        if d.has_project(pid) {
            let w = choose|i: int|
                0 <= i < d.projects.len() && (#[trigger] d.projects[i]).id == pid;
            m.projects.lemma_filter_pred(pp, w);
        }
    }
    let gp = |g: CurlGroupModel| g.project_id != pid;
    crate::seqs::lemma_filter_preserves_pairwise(
        m.groups,
        gp,
        |a: CurlGroupModel, b: CurlGroupModel| a.id != b.id,
    );
    crate::seqs::lemma_filter_preserves_all(
        m.groups,
        gp,
        |g: CurlGroupModel| 0 < g.id < m.next_group_id && m.has_project(g.project_id),
    );
    assert forall|j: int| 0 <= j < d.groups.len() implies 0 < (#[trigger] d.groups[j]).id
        < d.next_group_id && d.has_project(d.groups[j].project_id) by {
        m.groups.lemma_filter_pred(gp, j);
        assert(m.has_project(d.groups[j].project_id) && d.groups[j].project_id != pid);
    }
    assert forall|gid: i64| #[trigger] d.has_group(gid) implies m.has_group(gid)
        && m.group_by_id(gid).project_id != pid by {
        let w = choose|i: int| 0 <= i < d.groups.len() && (#[trigger] d.groups[i]).id == gid;
        m.groups.lemma_filter_pred(gp, w);
        m.groups.lemma_filter_contains_rev(gp, d.groups[w]);
        let k = choose|k: int| 0 <= k < m.groups.len() && m.groups[k] == d.groups[w];
        assert((m.groups[k]).id == gid);
        assert(m.group_by_id(gid) == m.groups[k]) by {
            let c = choose|i: int|
                0 <= i < m.groups.len() && (#[trigger] m.groups[i]).id == gid;
            assert(c == k);
        }
    }
    let ap = |a: ProjectAdmin| a.project_id != pid;
    crate::seqs::lemma_filter_preserves_pairwise(
        m.admins,
        ap,
        |a: ProjectAdmin, b: ProjectAdmin| a != b,
    );
    crate::seqs::lemma_filter_preserves_all(
        m.admins,
        ap,
        |a: ProjectAdmin| m.has_project(a.project_id) && m.has_user_id(a.user_id),
    );
    assert forall|j: int| 0 <= j < d.admins.len() implies d.has_project(
        (#[trigger] d.admins[j]).project_id,
    ) && d.has_user_id(d.admins[j].user_id) by {
        m.admins.lemma_filter_pred(ap, j);
        assert(m.has_project(d.admins[j].project_id) && d.admins[j].project_id != pid);
        assert(m.has_user_id(d.admins[j].user_id));
        let w = choose|i: int|
            0 <= i < m.users.len() && (#[trigger] m.users[i]).id == d.admins[j].user_id;
        assert((d.users[w]).id == d.admins[j].user_id);
    }
    let cp = |c: ProjectCollaborator| c.project_id != pid;
    crate::seqs::lemma_filter_preserves_pairwise(
        m.collaborators,
        cp,
        |a: ProjectCollaborator, b: ProjectCollaborator| a != b,
    );
    crate::seqs::lemma_filter_preserves_all(
        m.collaborators,
        cp,
        |c: ProjectCollaborator| m.has_project(c.project_id) && m.has_user_id(c.user_id),
    );
    assert forall|j: int| 0 <= j < d.collaborators.len() implies d.has_project(
        (#[trigger] d.collaborators[j]).project_id,
    ) && d.has_user_id(d.collaborators[j].user_id) by {
        m.collaborators.lemma_filter_pred(cp, j);
        assert(m.has_project(d.collaborators[j].project_id) && d.collaborators[j].project_id
            != pid);
        assert(m.has_user_id(d.collaborators[j].user_id));
        let w = choose|i: int|
            0 <= i < m.users.len() && (#[trigger] m.users[i]).id == d.collaborators[j].user_id;
        assert((d.users[w]).id == d.collaborators[j].user_id);
    }
    assert forall|j: int| 0 <= j < d.sessions.len() implies d.has_user_id(
        (#[trigger] d.sessions[j]).user_id,
    ) by {
        assert(m.has_user_id(d.sessions[j].user_id));
        let w = choose|i: int|
            0 <= i < m.users.len() && (#[trigger] m.users[i]).id == d.sessions[j].user_id;
        assert((d.users[w]).id == d.sessions[j].user_id);
    }
    assert(d.users_wf());
    assert(d.sessions_wf());
    assert(d.projects_wf());
    assert(d.memberships_wf());
    assert(d.groups_wf());
}

impl StoreModel {
    /// A live session implies its user exists: the identity an
    /// operation resolves always denotes an account.
    pub proof fn lemma_caller_exists(self, token: Option<u64>)
        requires
            self.wf(),
        ensures
            self.caller_of(token) matches Some(uid) ==> self.has_user_id(uid),
    {
        if self.caller_of(token) is Some {
            let t = token->0;
            let w = choose|i: int|
                0 <= i < self.sessions.len() && (#[trigger] self.sessions[i]).token == t;
            assert(self.has_user_id(self.sessions[w].user_id));
        }
    }
}

impl Store {
    /// Create a project: authentication is required; the creator
    /// becomes the sole admin in the same step as the project appears.
    pub fn create_project(&mut self, token: Option<u64>, input: &ProjectInput) -> (r: Result<
        i64,
        ProjectError,
    >)
        requires
            old(self)@.wf(),
        ensures
            final(self)@.wf(),
            r is Err ==> final(self)@ == old(self)@,
            match old(self)@.caller_of(token) {
                Option::None => r == Result::<i64, ProjectError>::Err(
                    ProjectError::SessionGetError,
                ),
                Option::Some(uid) => if old(self)@.next_project_id == i64::MAX {
                    r == Result::<i64, ProjectError>::Err(ProjectError::StorageError)
                } else {
                    r == Result::<i64, ProjectError>::Ok(old(self)@.next_project_id)
                        && final(self)@ == spec_create_project(old(self)@, uid, input@)
                        && final(self)@.is_admin(uid, old(self)@.next_project_id)
                        && (forall|u2: i64|
                            final(self)@.is_admin(u2, old(self)@.next_project_id) ==> u2 == uid)
                        && final(self)@.has_project(old(self)@.next_project_id)
                },
            },
    {
        let uid = match self.get_user_id(token) {
            Result::Ok(u) => u,
            Result::Err(_) => {
                return Result::Err(ProjectError::SessionGetError);
            },
        };
        if self.next_project_id == i64::MAX {
            return Result::Err(ProjectError::StorageError);
        }
        let pid = self.next_project_id;
        self.projects.push(
            Project {
                id: pid,
                environments: input.environments.clone(),
                description: input.description.clone(),
                name: input.name.clone(),
                visibility: input.visibility,
            },
        );
        self.admins.push(ProjectAdmin { project_id: pid, user_id: uid });
        self.next_project_id = pid + 1;
        proof {
            let m = old(self)@;
            m.lemma_caller_exists(token);
            assert(self@.projects =~= m.projects.push(
                ProjectModel {
                    id: pid,
                    environments: input@.environments,
                    description: input@.description,
                    name: input@.name,
                    visibility: input@.visibility,
                },
            ));
            assert(self@ =~= spec_create_project(m, uid, input@));
            let np = self@.projects.len() - 1;
            assert((self@.projects[np]).id == pid);
            let na = self@.admins.len() - 1;
            assert(self@.admins[na] == (ProjectAdmin { project_id: pid, user_id: uid }));
            assert forall|u2: i64| self@.is_admin(u2, pid) implies u2 == uid by {
                let w = choose|i: int|
                    0 <= i < self@.admins.len() && (#[trigger] self@.admins[i]) == (ProjectAdmin {
                        project_id: pid,
                        user_id: u2,
                    });
                if w < na {
                    assert(m.has_project((m.admins[w]).project_id));
                    let v = choose|i: int|
                        0 <= i < m.projects.len() && (#[trigger] m.projects[i]).id == pid;
                }
            }
            assert forall|i: int, j: int| 0 <= i < j < self@.projects.len() implies (
            #[trigger] self@.projects[i]).id != (#[trigger] self@.projects[j]).id by {
                assert(self@.projects[i] == m.projects[i]);
                if j < np {
                    assert(self@.projects[j] == m.projects[j]);
                }
            }
            assert forall|i: int, j: int| 0 <= i < j < self@.admins.len() implies (
            #[trigger] self@.admins[i]) != (#[trigger] self@.admins[j]) by {
                assert(self@.admins[i] == m.admins[i]);
                if j < na {
                    assert(self@.admins[j] == m.admins[j]);
                } else {
                    assert(m.has_project((m.admins[i]).project_id));
                }
            }
            assert forall|j: int| 0 <= j < self@.admins.len() implies self@.has_project(
                (#[trigger] self@.admins[j]).project_id,
            ) && self@.has_user_id(self@.admins[j].user_id) by {
                if j < na {
                    assert(self@.admins[j] == m.admins[j]);
                    assert(m.has_project((m.admins[j]).project_id));
                    assert(m.has_user_id((m.admins[j]).user_id));
                    let w = choose|i: int|
                        0 <= i < m.users.len() && (#[trigger] m.users[i]).id == (
                        m.admins[j]).user_id;
                    assert((self@.users[w]).id == (self@.admins[j]).user_id);
                    let v = choose|i: int|
                        0 <= i < m.projects.len() && (#[trigger] m.projects[i]).id == (
                        m.admins[j]).project_id;
                    assert((self@.projects[v]).id == (self@.admins[j]).project_id);
                } else {
                    assert((self@.projects[np]).id == pid);
                    assert(m.has_user_id(uid));
                    let w = choose|i: int|
                        0 <= i < m.users.len() && (#[trigger] m.users[i]).id == uid;
                    assert((self@.users[w]).id == uid);
                }
            }
            assert forall|j: int| 0 <= j < self@.collaborators.len() implies self@.has_project(
                (#[trigger] self@.collaborators[j]).project_id,
            ) && self@.has_user_id(self@.collaborators[j].user_id) by {
                assert(m.has_project((m.collaborators[j]).project_id));
                let v = choose|i: int|
                    0 <= i < m.projects.len() && (#[trigger] m.projects[i]).id == (
                    m.collaborators[j]).project_id;
                assert((self@.projects[v]).id == (self@.collaborators[j]).project_id);
            }
            assert forall|j: int| 0 <= j < self@.groups.len() implies 0 < (
            #[trigger] self@.groups[j]).id < self@.next_group_id && self@.has_project(
                self@.groups[j].project_id,
            ) by {
                assert(m.has_project((m.groups[j]).project_id));
                let v = choose|i: int|
                    0 <= i < m.projects.len() && (#[trigger] m.projects[i]).id == (
                    m.groups[j]).project_id;
                assert((self@.projects[v]).id == (self@.groups[j]).project_id);
            }
            assert(self@.wf());
        }
        Result::Ok(pid)
    }

    /// Delete a project: admin only; the project, its groups and its
    /// membership rows vanish together. A second delete of the same id
    /// reports NotFound, not success.
    pub fn delete_project(&mut self, token: Option<u64>, project_id: i64) -> (r: Result<
        (),
        ProjectError,
    >)
        requires
            old(self)@.wf(),
        ensures
            final(self)@.wf(),
            r is Err ==> final(self)@ == old(self)@,
            match old(self)@.caller_of(token) {
                Option::None => r == Result::<(), ProjectError>::Err(
                    ProjectError::SessionGetError,
                ),
                Option::Some(uid) => match spec_admin_gate(old(self)@, uid, project_id) {
                    Result::Err(e) => r == Result::<(), ProjectError>::Err(e),
                    Result::Ok(_) => r == Result::<(), ProjectError>::Ok(())
                        && final(self)@ == spec_delete_project(old(self)@, project_id)
                        && !final(self)@.has_project(project_id)
                        && (forall|gid: i64|
                            #[trigger] final(self)@.has_group(gid) ==> old(self)@.has_group(gid)
                                && old(self)@.group_by_id(gid).project_id != project_id),
                },
            },
    {
        broadcast use vstd::prelude::Seq::lemma_filter_push;

        let uid = match self.get_user_id(token) {
            Result::Ok(u) => u,
            Result::Err(_) => {
                return Result::Err(ProjectError::SessionGetError);
            },
        };
        if let Result::Err(e) = self.check_user_has_project_admin_permission(uid, project_id) {
            return Result::Err(e);
        }
        let ghost pp = |p: ProjectModel| p.id != project_id;
        let mut kept_projects: Vec<Project> = Vec::new();
        let mut i: usize = 0;
        while i < self.projects.len()
            invariant
                i <= self.projects.len(),
                kept_projects.deep_view() == self@.projects.take(i as int).filter(pp),
            decreases self.projects.len() - i,
        {
            proof {
                assert(self@.projects.take(i + 1).drop_last() =~= self@.projects.take(i as int));
                assert(self@.projects.take(i + 1) =~= self@.projects.take(i as int).push(
                    self.projects[i as int]@,
                ));
            }
            if self.projects[i].id != project_id {
                let p = &self.projects[i];
                kept_projects.push(
                    Project {
                        id: p.id,
                        environments: p.environments.clone(),
                        description: p.description.clone(),
                        name: p.name.clone(),
                        visibility: p.visibility,
                    },
                );
                proof {
                    assert(kept_projects.deep_view() =~= self@.projects.take(i + 1).filter(pp));
                }
            }
            i = i + 1;
        }
        proof {
            assert(self@.projects.take(self@.projects.len() as int) =~= self@.projects);
        }
        let ghost gp = |g: CurlGroupModel| g.project_id != project_id;
        let mut kept_groups: Vec<CurlGroup> = Vec::new();
        let mut i: usize = 0;
        while i < self.groups.len()
            invariant
                i <= self.groups.len(),
                kept_groups.deep_view() == self@.groups.take(i as int).filter(gp),
            decreases self.groups.len() - i,
        {
            proof {
                assert(self@.groups.take(i + 1).drop_last() =~= self@.groups.take(i as int));
                assert(self@.groups.take(i + 1) =~= self@.groups.take(i as int).push(
                    self.groups[i as int]@,
                ));
            }
            if self.groups[i].project_id != project_id {
                let g = &self.groups[i];
                kept_groups.push(
                    CurlGroup {
                        id: g.id,
                        curls: g.curls.clone(),
                        description: g.description.clone(),
                        labels: g.labels.clone(),
                        name: g.name.clone(),
                        project_id: g.project_id,
                    },
                );
                proof {
                    assert(kept_groups.deep_view() =~= self@.groups.take(i + 1).filter(gp));
                }
            }
            i = i + 1;
        }
        proof {
            assert(self@.groups.take(self@.groups.len() as int) =~= self@.groups);
        }
        let ghost ap = |a: ProjectAdmin| a.project_id != project_id;
        let mut kept_admins: Vec<ProjectAdmin> = Vec::new();
        let mut i: usize = 0;
        while i < self.admins.len()
            invariant
                i <= self.admins.len(),
                kept_admins@ == self.admins@.take(i as int).filter(ap),
            decreases self.admins.len() - i,
        {
            let a = self.admins[i];
            proof {
                assert(self.admins@.take(i + 1).drop_last() =~= self.admins@.take(i as int));
                assert(self.admins@.take(i + 1) =~= self.admins@.take(i as int).push(a));
            }
            if a.project_id != project_id {
                kept_admins.push(a);
            }
            i = i + 1;
        }
        proof {
            assert(self.admins@.take(self.admins@.len() as int) =~= self.admins@);
        }
        let ghost cp = |c: ProjectCollaborator| c.project_id != project_id;
        let mut kept_collaborators: Vec<ProjectCollaborator> = Vec::new();
        let mut i: usize = 0;
        while i < self.collaborators.len()
            invariant
                i <= self.collaborators.len(),
                kept_collaborators@ == self.collaborators@.take(i as int).filter(cp),
            decreases self.collaborators.len() - i,
        {
            let c = self.collaborators[i];
            proof {
                assert(self.collaborators@.take(i + 1).drop_last() =~= self.collaborators@.take(
                    i as int,
                ));
                assert(self.collaborators@.take(i + 1) =~= self.collaborators@.take(
                    i as int,
                ).push(c));
            }
            if c.project_id != project_id {
                kept_collaborators.push(c);
            }
            i = i + 1;
        }
        proof {
            assert(self.collaborators@.take(self.collaborators@.len() as int)
                =~= self.collaborators@);
        }
        self.projects = kept_projects;
        self.groups = kept_groups;
        self.admins = kept_admins;
        self.collaborators = kept_collaborators;
        proof {
            assert(self@ =~= spec_delete_project(old(self)@, project_id));
            lemma_delete_project_wf(old(self)@, project_id);
        }
        Result::Ok(())
    }
}


/// The admin relation rows of one project, in store order.
pub open spec fn spec_admin_rows(m: StoreModel, pid: i64) -> Seq<ProjectAdmin> {
    m.admins.filter(|a: ProjectAdmin| a.project_id == pid)
}

/// The admin list of a project as user names, in relation order.
pub open spec fn spec_admin_names(m: StoreModel, pid: i64) -> Seq<Seq<char>> {
    spec_admin_rows(m, pid).map_values(|a: ProjectAdmin| m.user_by_id(a.user_id).name)
}

/// The collaborator relation rows of one project, in store order.
pub open spec fn spec_collaborator_rows(m: StoreModel, pid: i64) -> Seq<ProjectCollaborator> {
    m.collaborators.filter(|c: ProjectCollaborator| c.project_id == pid)
}

/// The collaborator list of a project as user names, in relation order.
pub open spec fn spec_collaborator_names(m: StoreModel, pid: i64) -> Seq<Seq<char>> {
    spec_collaborator_rows(m, pid).map_values(
        |c: ProjectCollaborator| m.user_by_id(c.user_id).name,
    )
}

/// The groups owned by one project, in store order.
pub open spec fn spec_groups_of(m: StoreModel, pid: i64) -> Seq<CurlGroupModel> {
    m.groups.filter(|g: CurlGroupModel| g.project_id == pid)
}

/// Whether one project is listed for a caller: Public projects are
/// listed for everyone; an authenticated caller additionally sees every
/// project it administers or collaborates on.
pub open spec fn spec_project_listed(m: StoreModel, caller: Option<i64>, p: ProjectModel) -> bool {
    p.visibility == Visibility::Public || (caller matches Option::Some(u) && (m.is_admin(u, p.id)
        || m.is_collaborator(u, p.id)))
}

/// The projects listed for a caller, in store order.
pub open spec fn spec_listed_projects(m: StoreModel, caller: Option<i64>) -> Seq<ProjectModel> {
    m.projects.filter(|p: ProjectModel| spec_project_listed(m, caller, p))
}


/// A name in double quotes.
pub open spec fn spec_quoted(s: Seq<char>) -> Seq<char> {
    seq!['"'] + s + seq!['"']
}

/// The quoted, comma-separated rendering of a name list.
pub open spec fn spec_user_list(names: Seq<Seq<char>>) -> Seq<char>
    decreases names.len(),
{
    if names.len() == 0 {
        Seq::empty()
    } else if names.len() == 1 {
        spec_quoted(names[0])
    } else {
        spec_user_list(names.drop_last()) + seq![',', ' '] + spec_quoted(names.last())
    }
}

/// Render a list of user names as a quoted, comma-separated string.
pub fn generate_user_list(users: &Vec<String>) -> (r: String)
    ensures
        r@ == spec_user_list(users.deep_view()),
{
    let mut out = String::new();
    let mut i: usize = 0;
    proof {
        reveal_strlit(", ");
        reveal_strlit("\"");
        assert(users.deep_view().take(0) =~= Seq::<Seq<char>>::empty());
    }
    while i < users.len()
        invariant
            i <= users.len(),
            out@ == spec_user_list(users.deep_view().take(i as int)),
        decreases users.len() - i,
    {
        let ghost pre = users.deep_view().take(i as int);
        let ghost post = users.deep_view().take(i as int + 1);
        if i > 0 {
            out.append(", ");
        }
        out.append("\"");
        out.append(users[i].as_str());
        out.append("\"");
        proof {
            reveal_strlit(", ");
            reveal_strlit("\"");
            assert(post.drop_last() =~= pre);
            assert(post.last() == users.deep_view()[i as int]);
            assert(out@ =~= spec_user_list(pre) + (if i > 0 { seq![',', ' '] } else {
                Seq::<char>::empty()
            }) + spec_quoted(users.deep_view()[i as int]));
            if i == 0 {
                assert(spec_user_list(post) == spec_quoted(post[0]));
                assert(out@ =~= spec_user_list(post));
            } else {
                assert(post.len() >= 2);
                assert(spec_user_list(post) == spec_user_list(pre) + seq![',', ' ']
                    + spec_quoted(post.last()));
                assert(out@ =~= spec_user_list(post));
            }
        }
        i = i + 1;
    }
    proof {
        assert(users.deep_view().take(users.deep_view().len() as int) =~= users.deep_view());
    }
    out
}

impl Store {
    /// Both membership lists of a project, as the names of the users in
    /// the two relations.
    pub fn get_admins_and_collaborators(&self, project_id: i64) -> (r: (Vec<String>, Vec<String>))
        requires
            self@.wf(),
        ensures
            r.0.deep_view() == spec_admin_names(self@, project_id),
            r.1.deep_view() == spec_collaborator_names(self@, project_id),
    {
        broadcast use vstd::prelude::Seq::lemma_filter_push;

        let ghost ap = |a: ProjectAdmin| a.project_id == project_id;
        let ghost anf = |a: ProjectAdmin| self@.user_by_id(a.user_id).name;
        let mut admin_names: Vec<String> = Vec::new();
        let mut i: usize = 0;
        while i < self.admins.len()
            invariant
                i <= self.admins.len(),
                admin_names.deep_view() == self@.admins.take(i as int).filter(ap).map_values(anf),
            decreases self.admins.len() - i,
        {
            let a = self.admins[i];
            proof {
                assert(self.admins@.take(i + 1).drop_last() =~= self.admins@.take(i as int));
                assert(self.admins@.take(i + 1) =~= self.admins@.take(i as int).push(a));
            }
            if a.project_id == project_id {
                match self.find_user_by_id(a.user_id) {
                    Option::Some(k) => {
                        let ghost before = admin_names.deep_view();
                        admin_names.push(self.users[k].name.clone());
                        proof {
                            let prev = self@.admins.take(i as int).filter(ap);
                            assert(admin_names.deep_view() =~= before.push(
                                self.users[k as int]@.name,
                            ));
                            assert(self@.admins.take(i + 1).filter(ap) == prev.push(a)) by {
                                assert(self@.admins.take(i as int).push(a).filter(ap)
                                    == prev.push(a));
                            }
                            assert(prev.push(a).map_values(anf) =~= prev.map_values(anf).push(
                                anf(a),
                            ));
                            assert(anf(a) == self.users[k as int]@.name);
                        }
                    },
                    Option::None => {
                        proof {
                            assert(self@.has_user_id((self@.admins[i as int]).user_id));
                            assert(false);
                        }
                    },
                }
            }
            i = i + 1;
        }
        proof {
            assert(self@.admins.take(self@.admins.len() as int) =~= self@.admins);
        }
        let ghost cp = |c: ProjectCollaborator| c.project_id == project_id;
        let ghost cnf = |c: ProjectCollaborator| self@.user_by_id(c.user_id).name;
        let mut collaborator_names: Vec<String> = Vec::new();
        let mut i: usize = 0;
        while i < self.collaborators.len()
            invariant
                i <= self.collaborators.len(),
                collaborator_names.deep_view() == self@.collaborators.take(i as int).filter(
                    cp,
                ).map_values(cnf),
            decreases self.collaborators.len() - i,
        {
            let c = self.collaborators[i];
            proof {
                assert(self.collaborators@.take(i + 1).drop_last() =~= self.collaborators@.take(
                    i as int,
                ));
                assert(self.collaborators@.take(i + 1) =~= self.collaborators@.take(
                    i as int,
                ).push(c));
            }
            if c.project_id == project_id {
                match self.find_user_by_id(c.user_id) {
                    Option::Some(k) => {
                        let ghost before = collaborator_names.deep_view();
                        collaborator_names.push(self.users[k].name.clone());
                        proof {
                            let prev = self@.collaborators.take(i as int).filter(cp);
                            assert(collaborator_names.deep_view() =~= before.push(
                                self.users[k as int]@.name,
                            ));
                            assert(self@.collaborators.take(i + 1).filter(cp) == prev.push(c)) by {
                                assert(self@.collaborators.take(i as int).push(c).filter(cp)
                                    == prev.push(c));
                            }
                            assert(prev.push(c).map_values(cnf) =~= prev.map_values(cnf).push(
                                cnf(c),
                            ));
                            assert(cnf(c) == self.users[k as int]@.name);
                        }
                    },
                    Option::None => {
                        proof {
                            assert(self@.has_user_id((self@.collaborators[i as int]).user_id));
                            assert(false);
                        }
                    },
                }
            }
            i = i + 1;
        }
        proof {
            assert(self@.collaborators.take(self@.collaborators.len() as int)
                =~= self@.collaborators);
        }
        (admin_names, collaborator_names)
    }

    /// The groups a project owns.
    pub fn get_curl_groups_for_project(&self, project_id: i64) -> (r: Vec<CurlGroup>)
        requires
            self@.wf(),
        ensures
            r.deep_view() == spec_groups_of(self@, project_id),
    {
        broadcast use vstd::prelude::Seq::lemma_filter_push;

        let ghost gp = |g: CurlGroupModel| g.project_id == project_id;
        let mut out: Vec<CurlGroup> = Vec::new();
        let mut i: usize = 0;
        while i < self.groups.len()
            invariant
                i <= self.groups.len(),
                out.deep_view() == self@.groups.take(i as int).filter(gp),
            decreases self.groups.len() - i,
        {
            proof {
                assert(self@.groups.take(i + 1).drop_last() =~= self@.groups.take(i as int));
                assert(self@.groups.take(i + 1) =~= self@.groups.take(i as int).push(
                    self.groups[i as int]@,
                ));
            }
            if self.groups[i].project_id == project_id {
                let g = &self.groups[i];
                out.push(
                    CurlGroup {
                        id: g.id,
                        curls: g.curls.clone(),
                        description: g.description.clone(),
                        labels: g.labels.clone(),
                        name: g.name.clone(),
                        project_id: g.project_id,
                    },
                );
                proof {
                    assert(out.deep_view() =~= self@.groups.take(i + 1).filter(gp));
                }
            }
            i = i + 1;
        }
        proof {
            assert(self@.groups.take(self@.groups.len() as int) =~= self@.groups);
        }
        out
    }

    /// Read one project in full: its metadata, both membership lists as
    /// names, and its groups. The project lookup precedes every
    /// permission check.
    pub fn get_project(&self, token: Option<u64>, project_id: i64) -> (r: Result<
        ProjectFull,
        ProjectError,
    >)
        requires
            self@.wf(),
        ensures
            ({
                let caller = self@.caller_of(token);
                match spec_read_gate(self@, caller, project_id) {
                    Result::Err(e) => r == Result::<ProjectFull, ProjectError>::Err(e),
                    Result::Ok(_) => r matches Ok(full) && full.info@ == self@.project_by_id(
                        project_id,
                    ) && full.admins.deep_view() == spec_admin_names(self@, project_id)
                        && full.collaborators.deep_view() == spec_collaborator_names(
                        self@,
                        project_id,
                    ) && full.groups.deep_view() == spec_groups_of(self@, project_id),
                }
            }),
    {
        let idx = match self.find_project(project_id) {
            Option::None => {
                return Result::Err(ProjectError::ProjectDoesNotExistError);
            },
            Option::Some(i) => i,
        };
        let caller = match self.get_user_id(token) {
            Result::Ok(u) => Option::Some(u),
            Result::Err(_) => Option::None,
        };
        match self.resolve(caller, project_id) {
            Decision::ProjectNotFound => {
                return Result::Err(ProjectError::ProjectDoesNotExistError);
            },
            Decision::Denied => {
                return match caller {
                    Option::None => Result::Err(ProjectError::SessionGetError),
                    Option::Some(_) => Result::Err(ProjectError::Forbidden),
                };
            },
            _ => {},
        }
        let (admins, collaborators) = self.get_admins_and_collaborators(project_id);
        let groups = self.get_curl_groups_for_project(project_id);
        let p = &self.projects[idx];
        Result::Ok(
            ProjectFull {
                info: Project {
                    id: p.id,
                    environments: p.environments.clone(),
                    description: p.description.clone(),
                    name: p.name.clone(),
                    visibility: p.visibility,
                },
                admins,
                collaborators,
                groups,
            },
        )
    }

    /// List projects: the anonymous caller sees the Public ones; an
    /// authenticated caller additionally sees every project it is a
    /// member of. A stale token simply lists as anonymous.
    pub fn list_projects(&self, token: Option<u64>) -> (r: Vec<Project>)
        requires
            self@.wf(),
        ensures
            r.deep_view() == spec_listed_projects(self@, self@.caller_of(token)),
    {
        broadcast use vstd::prelude::Seq::lemma_filter_push;

        let caller = match self.get_user_id(token) {
            Result::Ok(u) => Option::Some(u),
            Result::Err(_) => Option::None,
        };
        let ghost c = self@.caller_of(token);
        let ghost lp = |p: ProjectModel| spec_project_listed(self@, c, p);
        let mut out: Vec<Project> = Vec::new();
        let mut i: usize = 0;
        while i < self.projects.len()
            invariant
                i <= self.projects.len(),
                out.deep_view() == self@.projects.take(i as int).filter(lp),
            decreases self.projects.len() - i,
        {
            proof {
                assert(self@.projects.take(i + 1).drop_last() =~= self@.projects.take(i as int));
                assert(self@.projects.take(i + 1) =~= self@.projects.take(i as int).push(
                    self.projects[i as int]@,
                ));
            }
            let keep = if self.projects[i].visibility == Visibility::Public {
                true
            } else {
                match caller {
                    Option::Some(u) => {
                        let pid = self.projects[i].id;
                        self.admin_row_exists(u, pid) || self.collaborator_row_exists(u, pid)
                    },
                    Option::None => false,
                }
            };
            if keep {
                let p = &self.projects[i];
                out.push(
                    Project {
                        id: p.id,
                        environments: p.environments.clone(),
                        description: p.description.clone(),
                        name: p.name.clone(),
                        visibility: p.visibility,
                    },
                );
                proof {
                    assert(out.deep_view() =~= self@.projects.take(i + 1).filter(lp));
                }
            }
            i = i + 1;
        }
        proof {
            assert(self@.projects.take(self@.projects.len() as int) =~= self@.projects);
        }
        out
    }
}



/// Some account among `users` carries one of the listed names and this
/// id: the membership a full-list replacement grants. Unknown names
/// grant nothing.
pub open spec fn spec_named_member(users: Seq<UserModel>, names: Seq<Seq<char>>, uid: i64)
    -> bool {
    exists|k: int, i: int|
        0 <= k < names.len() && 0 <= i < users.len() && (#[trigger] names[k]) == (
        #[trigger] users[i]).name && users[i].id == uid
}

/// Extending the considered prefix of the name list by one name grants
/// exactly the accounts of that name on top of what the prefix granted.
proof fn lemma_named_member_extend(users: Seq<UserModel>, names: Seq<Seq<char>>, j: int, uid: i64)
    requires
        0 <= j < names.len(),
    ensures
        spec_named_member(users, names.take(j + 1), uid) <==> (spec_named_member(
            users,
            names.take(j),
            uid,
        ) || (exists|i: int|
            0 <= i < users.len() && (#[trigger] users[i]).name == names[j] && users[i].id == uid)),
{
    let pre = names.take(j);
    let post = names.take(j + 1);
    if spec_named_member(users, post, uid) {
        let (k, i) = choose|k: int, i: int|
            0 <= k < post.len() && 0 <= i < users.len() && (#[trigger] post[k]) == (
            #[trigger] users[i]).name && users[i].id == uid;
        assert(post[k] == names[k]);
        if k < j {
            assert(pre[k] == names[k]);
            assert(spec_named_member(users, pre, uid));
        } else {
            assert(users[i].name == names[j]);
        }
    }
    if spec_named_member(users, pre, uid) {
        let (k, i) = choose|k: int, i: int|
            0 <= k < pre.len() && 0 <= i < users.len() && (#[trigger] pre[k]) == (
            #[trigger] users[i]).name && users[i].id == uid;
        assert(pre[k] == names[k] && post[k] == names[k]);
        assert(spec_named_member(users, post, uid));
    }
    if exists|i: int|
        0 <= i < users.len() && (#[trigger] users[i]).name == names[j] && users[i].id == uid {
        let i = choose|i: int|
            0 <= i < users.len() && (#[trigger] users[i]).name == names[j] && users[i].id == uid;
        assert(post[j] == names[j]);
        assert(spec_named_member(users, post, uid));
    }
}

impl Store {
    /// Replace the admin relation of one project wholesale: rows of
    /// members not in the new list are deleted, named accounts are
    /// inserted, and unknown names are silently ignored. The client
    /// always submits the full desired list.
    #[verifier::rlimit(80)]
    fn replace_admins(&mut self, project_id: i64, names: &Vec<String>)
        requires
            old(self)@.wf(),
            old(self)@.has_project(project_id),
        ensures
            final(self)@.wf(),
            final(self)@ == old(self)@.with_admins(final(self)@.admins),
            forall|u2: i64, p2: i64|
                p2 != project_id ==> (#[trigger] final(self)@.is_admin(u2, p2) <==> old(
                    self,
                )@.is_admin(u2, p2)),
            forall|u2: i64|
                #[trigger] final(self)@.is_admin(u2, project_id) <==> spec_named_member(
                    old(self)@.users,
                    names.deep_view(),
                    u2,
                ),
    {
        broadcast use vstd::prelude::Seq::lemma_filter_push;

        let ghost m0 = old(self)@;
        let ghost ap = |a: ProjectAdmin| a.project_id != project_id;
        let mut kept: Vec<ProjectAdmin> = Vec::new();
        let mut i: usize = 0;
        while i < self.admins.len()
            invariant
                i <= self.admins.len(),
                kept@ == self.admins@.take(i as int).filter(ap),
            decreases self.admins.len() - i,
        {
            let a = self.admins[i];
            proof {
                assert(self.admins@.take(i + 1).drop_last() =~= self.admins@.take(i as int));
                assert(self.admins@.take(i + 1) =~= self.admins@.take(i as int).push(a));
            }
            if a.project_id != project_id {
                kept.push(a);
            }
            i = i + 1;
        }
        proof {
            assert(self.admins@.take(self.admins@.len() as int) =~= self.admins@);
        }
        self.admins = kept;
        proof {
            assert(self@ =~= m0.with_admins(self@.admins));
            crate::seqs::lemma_filter_preserves_pairwise(
                m0.admins,
                ap,
                |a: ProjectAdmin, b: ProjectAdmin| a != b,
            );
            crate::seqs::lemma_filter_preserves_all(
                m0.admins,
                ap,
                |a: ProjectAdmin| m0.has_project(a.project_id) && m0.has_user_id(a.user_id),
            );
            assert forall|t: int| 0 <= t < self@.admins.len() implies m0.has_project(
                (#[trigger] self@.admins[t]).project_id,
            ) && m0.has_user_id(self@.admins[t].user_id) by {
                m0.admins.lemma_filter_pred(ap, t);
            }
            crate::store::lemma_wf_admins_change(m0, self@);
            assert forall|u2: i64| !self@.is_admin(u2, project_id) by {
                if self@.is_admin(u2, project_id) {
                    let w = choose|t: int|
                        0 <= t < self@.admins.len() && (#[trigger] self@.admins[t])
                            == (ProjectAdmin { project_id, user_id: u2 });
                    m0.admins.lemma_filter_pred(ap, w);
                }
            }
            assert forall|u2: i64, p2: i64| p2 != project_id implies (#[trigger] self@.is_admin(
                u2,
                p2,
            ) <==> m0.is_admin(u2, p2)) by {
                if m0.is_admin(u2, p2) {
                    let w = choose|t: int|
                        0 <= t < m0.admins.len() && (#[trigger] m0.admins[t]) == (ProjectAdmin {
                            project_id: p2,
                            user_id: u2,
                        });
                    m0.admins.lemma_filter_contains(ap, w);
                    let k = choose|k: int|
                        0 <= k < self@.admins.len() && self@.admins[k] == m0.admins[w];
                    assert(self@.admins[k] == (ProjectAdmin { project_id: p2, user_id: u2 }));
                }
                if self@.is_admin(u2, p2) {
                    let w = choose|t: int|
                        0 <= t < self@.admins.len() && (#[trigger] self@.admins[t])
                            == (ProjectAdmin { project_id: p2, user_id: u2 });
                    m0.admins.lemma_filter_contains_rev(ap, self@.admins[w]);
                    let k = choose|k: int|
                        0 <= k < m0.admins.len() && m0.admins[k] == self@.admins[w];
                    assert(m0.admins[k] == (ProjectAdmin { project_id: p2, user_id: u2 }));
                }
            }
            assert(spec_named_member(m0.users, names.deep_view().take(0), 0i64) == false);
        }
        let mut j: usize = 0;
        while j < names.len()
            invariant
                j <= names.len(),
                self@.wf(),
                self@ == m0.with_admins(self@.admins),
                forall|u2: i64, p2: i64|
                    p2 != project_id ==> (#[trigger] self@.is_admin(u2, p2) <==> m0.is_admin(
                        u2,
                        p2,
                    )),
                forall|u2: i64|
                    #[trigger] self@.is_admin(u2, project_id) <==> spec_named_member(
                        m0.users,
                        names.deep_view().take(j as int),
                        u2,
                    ),
            decreases names.len() - j,
        {
            let ghost pre = self@;
            proof {
                assert(pre.users == m0.users);
                assert(names.deep_view()[j as int] == names@[j as int]@);
            }
            match self.find_user_by_name(&names[j]) {
                Option::Some(k) => {
                    let uid = self.users[k].id;
                    if !self.admin_row_exists(uid, project_id) {
                        self.admins.push(ProjectAdmin { project_id, user_id: uid });
                        proof {
                            let row = ProjectAdmin { project_id, user_id: uid };
                            assert(self@ =~= m0.with_admins(self@.admins));
                            assert(self@.admins == pre.admins.push(row));
                            let n = self@.admins.len() - 1;
                            assert forall|s: int, t: int| 0 <= s < t < self@.admins.len() implies (
                            #[trigger] self@.admins[s]) != (#[trigger] self@.admins[t]) by {
                                assert(self@.admins[s] == pre.admins[s]);
                                if t < n {
                                    assert(self@.admins[t] == pre.admins[t]);
                                } else {
                                    if pre.admins[s] == row {
                                        assert(pre.is_admin(uid, project_id));
                                    }
                                }
                            }
                            assert forall|t: int| 0 <= t < self@.admins.len() implies
                                m0.has_project((#[trigger] self@.admins[t]).project_id)
                                && m0.has_user_id(self@.admins[t].user_id) by {
                                if t < n {
                                    assert(self@.admins[t] == pre.admins[t]);
                                    assert(pre.has_project((pre.admins[t]).project_id)
                                        && pre.has_user_id(pre.admins[t].user_id));
                                    let w = choose|x: int|
                                        0 <= x < pre.projects.len() && (
                                        #[trigger] pre.projects[x]).id == (
                                        pre.admins[t]).project_id;
                                    assert((m0.projects[w]).id == (self@.admins[t]).project_id);
                                    let w2 = choose|x: int|
                                        0 <= x < pre.users.len() && (#[trigger] pre.users[x]).id
                                            == (pre.admins[t]).user_id;
                                    assert((m0.users[w2]).id == (self@.admins[t]).user_id);
                                } else {
                                    assert(m0.has_project(project_id));
                                    assert((m0.users[k as int]).id == uid);
                                }
                            }
                            crate::store::lemma_wf_admins_change(m0, self@);
                            assert forall|u2: i64, p2: i64| p2 != project_id implies (
                            #[trigger] self@.is_admin(u2, p2) <==> m0.is_admin(u2, p2)) by {
                                let prow = ProjectAdmin { project_id: p2, user_id: u2 };
                                if self@.is_admin(u2, p2) {
                                    let w = choose|t: int|
                                        0 <= t < self@.admins.len() && (#[trigger] self@.admins[t])
                                            == prow;
                                    assert(pre.admins[w] == prow);
                                    assert(pre.is_admin(u2, p2));
                                }
                                if m0.is_admin(u2, p2) {
                                    assert(pre.is_admin(u2, p2));
                                    let w = choose|t: int|
                                        0 <= t < pre.admins.len() && (#[trigger] pre.admins[t])
                                            == prow;
                                    assert(self@.admins[w] == prow);
                                }
                            }
                            assert forall|u2: i64| #[trigger] self@.is_admin(u2, project_id)
                                <==> spec_named_member(
                                m0.users,
                                names.deep_view().take(j as int + 1),
                                u2,
                            ) by {
                                lemma_named_member_extend(
                                    m0.users,
                                    names.deep_view(),
                                    j as int,
                                    u2,
                                );
                                if self@.is_admin(u2, project_id) {
                                    let w = choose|t: int|
                                        0 <= t < self@.admins.len() && (#[trigger] self@.admins[t])
                                            == (ProjectAdmin { project_id, user_id: u2 });
                                    if w < n {
                                        assert(pre.admins[w] == (ProjectAdmin {
                                            project_id,
                                            user_id: u2,
                                        }));
                                        assert(pre.is_admin(u2, project_id));
                                        assert(spec_named_member(
                                            m0.users,
                                            names.deep_view().take(j as int),
                                            u2,
                                        ));
                                    } else {
                                        assert(u2 == uid);
                                        assert((m0.users[k as int]).name == names.deep_view()[
                                            j as int
                                        ]);
                                    }
                                }
                                if spec_named_member(
                                    m0.users,
                                    names.deep_view().take(j as int + 1),
                                    u2,
                                ) {
                                    if spec_named_member(
                                        m0.users,
                                        names.deep_view().take(j as int),
                                        u2,
                                    ) {
                                        assert(pre.is_admin(u2, project_id));
                                        let w = choose|t: int|
                                            0 <= t < pre.admins.len() && (
                                            #[trigger] pre.admins[t]) == (ProjectAdmin {
                                                project_id,
                                                user_id: u2,
                                            });
                                        assert(self@.admins[w] == (ProjectAdmin {
                                            project_id,
                                            user_id: u2,
                                        }));
                                    } else {
                                        let x = choose|x: int|
                                            0 <= x < m0.users.len() && (#[trigger] m0.users[x]).name
                                                == names.deep_view()[j as int] && m0.users[x].id
                                                == u2;
                                        assert((pre.users[x]).name == (pre.users[
                                            k as int
                                        ]).name);
                                        assert(x == k as int);
                                        assert(u2 == uid);
                                        assert(self@.admins[n] == (ProjectAdmin {
                                            project_id,
                                            user_id: u2,
                                        }));
                                    }
                                }
                            }
                        }
                    } else {
                        proof {
                            assert forall|u2: i64| #[trigger] self@.is_admin(u2, project_id)
                                <==> spec_named_member(
                                m0.users,
                                names.deep_view().take(j as int + 1),
                                u2,
                            ) by {
                                lemma_named_member_extend(
                                    m0.users,
                                    names.deep_view(),
                                    j as int,
                                    u2,
                                );
                                if spec_named_member(
                                    m0.users,
                                    names.deep_view().take(j as int + 1),
                                    u2,
                                ) && !spec_named_member(
                                    m0.users,
                                    names.deep_view().take(j as int),
                                    u2,
                                ) {
                                    let x = choose|x: int|
                                        0 <= x < m0.users.len() && (#[trigger] m0.users[x]).name
                                            == names.deep_view()[j as int] && m0.users[x].id
                                            == u2;
                                    assert((pre.users[x]).name == (pre.users[k as int]).name);
                                    assert(x == k as int);
                                    assert(u2 == uid);
                                    assert(self@.is_admin(uid, project_id));
                                }
                                if self@.is_admin(u2, project_id) {
                                    assert(spec_named_member(
                                        m0.users,
                                        names.deep_view().take(j as int),
                                        u2,
                                    ));
                                }
                            }
                        }
                    }
                },
                Option::None => {
                    proof {
                        assert forall|u2: i64| #[trigger] self@.is_admin(u2, project_id)
                            <==> spec_named_member(
                            m0.users,
                            names.deep_view().take(j as int + 1),
                            u2,
                        ) by {
                            lemma_named_member_extend(m0.users, names.deep_view(), j as int, u2);
                            if spec_named_member(
                                m0.users,
                                names.deep_view().take(j as int + 1),
                                u2,
                            ) && !spec_named_member(
                                m0.users,
                                names.deep_view().take(j as int),
                                u2,
                            ) {
                                let x = choose|x: int|
                                    0 <= x < m0.users.len() && (#[trigger] m0.users[x]).name
                                        == names.deep_view()[j as int] && m0.users[x].id == u2;
                                assert((pre.users[x]).name == names@[j as int]@);
                                assert(pre.user_name_taken(names@[j as int]@));
                            }
                        }
                    }
                },
            }
            j = j + 1;
        }
        proof {
            assert(names.deep_view().take(names.deep_view().len() as int) =~= names.deep_view());
        }
    }


    /// Update a project: admin only. The metadata is replaced and both
    /// membership relations are reconciled against the full lists the
    /// caller submits, in one step. Removed members lose their tier at
    /// the next decision, because decisions are never cached.
    ///
    /// The caller may submit an admin list that leaves the admin set
    /// empty. Such a project stays readable per its visibility but is
    /// permanently Forbidden to mutate: no caller resolves to Admin on
    /// it again.
    pub fn update_project(
        &mut self,
        token: Option<u64>,
        project_id: i64,
        input: &ProjectInput,
        admins: &Vec<String>,
        collaborators: &Vec<String>,
    ) -> (r: Result<(), ProjectError>)
        requires
            old(self)@.wf(),
        ensures
            final(self)@.wf(),
            r is Err ==> final(self)@ == old(self)@,
            match old(self)@.caller_of(token) {
                Option::None => r == Result::<(), ProjectError>::Err(
                    ProjectError::SessionGetError,
                ),
                Option::Some(uid) => match spec_admin_gate(old(self)@, uid, project_id) {
                    Result::Err(e) => r == Result::<(), ProjectError>::Err(e),
                    Result::Ok(_) => r == Result::<(), ProjectError>::Ok(())
                        && final(self)@.users == old(self)@.users
                        && final(self)@.sessions == old(self)@.sessions
                        && final(self)@.groups == old(self)@.groups
                        && final(self)@.next_user_id == old(self)@.next_user_id
                        && final(self)@.next_project_id == old(self)@.next_project_id
                        && final(self)@.next_group_id == old(self)@.next_group_id
                        && final(self)@.next_token == old(self)@.next_token
                        && final(self)@.projects == old(self)@.projects.map_values(
                        |p: ProjectModel|
                            if p.id == project_id {
                                ProjectModel {
                                    id: project_id,
                                    environments: input@.environments,
                                    description: input@.description,
                                    name: input@.name,
                                    visibility: input@.visibility,
                                }
                            } else {
                                p
                            },
                    )
                        && (forall|u2: i64, p2: i64|
                            p2 != project_id ==> (#[trigger] final(self)@.is_admin(u2, p2)
                                <==> old(self)@.is_admin(u2, p2)))
                        && (forall|u2: i64, p2: i64|
                            p2 != project_id ==> (#[trigger] final(self)@.is_collaborator(u2, p2)
                                <==> old(self)@.is_collaborator(u2, p2)))
                        && (forall|u2: i64|
                            #[trigger] final(self)@.is_admin(u2, project_id)
                                <==> spec_named_member(
                                old(self)@.users,
                                admins.deep_view(),
                                u2,
                            ))
                        && (forall|u2: i64|
                            #[trigger] final(self)@.is_collaborator(u2, project_id)
                                <==> spec_named_member(
                                old(self)@.users,
                                collaborators.deep_view(),
                                u2,
                            )),
                },
            },
    {
        let uid = match self.get_user_id(token) {
            Result::Ok(u) => u,
            Result::Err(_) => {
                return Result::Err(ProjectError::SessionGetError);
            },
        };
        if let Result::Err(e) = self.check_user_has_project_admin_permission(uid, project_id) {
            return Result::Err(e);
        }
        let ghost m0 = old(self)@;
        let ghost upd = ProjectModel {
            id: project_id,
            environments: input@.environments,
            description: input@.description,
            name: input@.name,
            visibility: input@.visibility,
        };
        let ghost pmap = |p: ProjectModel| if p.id == project_id { upd } else { p };
        let idx = match self.find_project(project_id) {
            Option::Some(i) => i,
            Option::None => {
                proof {
                    assert(false);
                }
                return Result::Err(ProjectError::ProjectDoesNotExistError);
            },
        };
        self.projects[idx] = Project {
            id: project_id,
            environments: input.environments.clone(),
            description: input.description.clone(),
            name: input.name.clone(),
            visibility: input.visibility,
        };
        proof {
            assert(self@ =~= m0.with_projects(self@.projects));
            assert(self@.projects =~= m0.projects.map_values(pmap)) by {
                assert forall|t: int| 0 <= t < self@.projects.len() implies self@.projects[t]
                    == m0.projects.map_values(pmap)[t] by {
                    if t != idx as int {
                        assert((m0.projects[idx as int]).id == project_id);
                        assert(m0.projects[t].id != project_id);
                        assert(self@.projects[t] == m0.projects[t]);
                    }
                }
            }
            assert forall|t: int| 0 <= t < m0.projects.len() implies (
            #[trigger] self@.projects[t]).id == m0.projects[t].id by {
                if t != idx as int {
                    assert(self@.projects[t] == m0.projects[t]);
                } else {
                    assert((m0.projects[idx as int]).id == project_id);
                }
            }
            crate::store::lemma_wf_projects_same_ids(m0, self@);
            crate::store::lemma_admins_agree(m0, self@);
            crate::store::lemma_collaborators_agree(m0, self@);
        }
        let ghost m1 = self@;
        self.replace_admins(project_id, admins);
        let ghost m2 = self@;
        proof {
            crate::store::lemma_collaborators_agree(m1, m2);
            crate::store::lemma_lookups_agree(m1, m2);
        }
        self.replace_collaborators(project_id, collaborators);
        proof {
            let m3 = self@;
            crate::store::lemma_admins_agree(m2, m3);
            assert forall|u2: i64| #[trigger] m3.is_admin(u2, project_id) <==> spec_named_member(
                m0.users,
                admins.deep_view(),
                u2,
            ) by {
                assert(m2.is_admin(u2, project_id) <==> spec_named_member(
                    m1.users,
                    admins.deep_view(),
                    u2,
                ));
            }
            assert forall|u2: i64, p2: i64| p2 != project_id implies (#[trigger] m3.is_admin(
                u2,
                p2,
            ) <==> m0.is_admin(u2, p2)) by {
                assert(m3.is_admin(u2, p2) <==> m2.is_admin(u2, p2));
                assert(m2.is_admin(u2, p2) <==> m1.is_admin(u2, p2));
                assert(m1.is_admin(u2, p2) <==> m0.is_admin(u2, p2));
            }
            assert forall|u2: i64, p2: i64| p2 != project_id implies (
            #[trigger] m3.is_collaborator(u2, p2) <==> m0.is_collaborator(u2, p2)) by {
                assert(m3.is_collaborator(u2, p2) <==> m2.is_collaborator(u2, p2));
                assert(m2.is_collaborator(u2, p2) <==> m1.is_collaborator(u2, p2));
                assert(m1.is_collaborator(u2, p2) <==> m0.is_collaborator(u2, p2));
            }
        }
        Result::Ok(())
    }

    /// The same full-list replacement for the collaborator relation
    /// of one project.
    #[verifier::rlimit(80)]
    fn replace_collaborators(&mut self, project_id: i64, names: &Vec<String>)
        requires
            old(self)@.wf(),
            old(self)@.has_project(project_id),
        ensures
            final(self)@.wf(),
            final(self)@ == old(self)@.with_collaborators(final(self)@.collaborators),
            forall|u2: i64, p2: i64|
                p2 != project_id ==> (#[trigger] final(self)@.is_collaborator(u2, p2) <==> old(
                    self,
                )@.is_collaborator(u2, p2)),
            forall|u2: i64|
                #[trigger] final(self)@.is_collaborator(u2, project_id) <==> spec_named_member(
                    old(self)@.users,
                    names.deep_view(),
                    u2,
                ),
    {
        broadcast use vstd::prelude::Seq::lemma_filter_push;

        let ghost m0 = old(self)@;
        let ghost ap = |a: ProjectCollaborator| a.project_id != project_id;
        let mut kept: Vec<ProjectCollaborator> = Vec::new();
        let mut i: usize = 0;
        while i < self.collaborators.len()
            invariant
                i <= self.collaborators.len(),
                kept@ == self.collaborators@.take(i as int).filter(ap),
            decreases self.collaborators.len() - i,
        {
            let a = self.collaborators[i];
            proof {
                assert(self.collaborators@.take(i + 1).drop_last() =~= self.collaborators@.take(i as int));
                assert(self.collaborators@.take(i + 1) =~= self.collaborators@.take(i as int).push(a));
            }
            if a.project_id != project_id {
                kept.push(a);
            }
            i = i + 1;
        }
        proof {
            assert(self.collaborators@.take(self.collaborators@.len() as int) =~= self.collaborators@);
        }
        self.collaborators = kept;
        proof {
            assert(self@ =~= m0.with_collaborators(self@.collaborators));
            crate::seqs::lemma_filter_preserves_pairwise(
                m0.collaborators,
                ap,
                |a: ProjectCollaborator, b: ProjectCollaborator| a != b,
            );
            crate::seqs::lemma_filter_preserves_all(
                m0.collaborators,
                ap,
                |a: ProjectCollaborator| m0.has_project(a.project_id) && m0.has_user_id(a.user_id),
            );
            assert forall|t: int| 0 <= t < self@.collaborators.len() implies m0.has_project(
                (#[trigger] self@.collaborators[t]).project_id,
            ) && m0.has_user_id(self@.collaborators[t].user_id) by {
                m0.collaborators.lemma_filter_pred(ap, t);
            }
            crate::store::lemma_wf_collaborators_change(m0, self@);
            assert forall|u2: i64| !self@.is_collaborator(u2, project_id) by {
                if self@.is_collaborator(u2, project_id) {
                    let w = choose|t: int|
                        0 <= t < self@.collaborators.len() && (#[trigger] self@.collaborators[t])
                            == (ProjectCollaborator { project_id, user_id: u2 });
                    m0.collaborators.lemma_filter_pred(ap, w);
                }
            }
            assert forall|u2: i64, p2: i64| p2 != project_id implies (#[trigger] self@.is_collaborator(
                u2,
                p2,
            ) <==> m0.is_collaborator(u2, p2)) by {
                if m0.is_collaborator(u2, p2) {
                    let w = choose|t: int|
                        0 <= t < m0.collaborators.len() && (#[trigger] m0.collaborators[t]) == (ProjectCollaborator {
                            project_id: p2,
                            user_id: u2,
                        });
                    m0.collaborators.lemma_filter_contains(ap, w);
                    let k = choose|k: int|
                        0 <= k < self@.collaborators.len() && self@.collaborators[k] == m0.collaborators[w];
                    assert(self@.collaborators[k] == (ProjectCollaborator { project_id: p2, user_id: u2 }));
                }
                if self@.is_collaborator(u2, p2) {
                    let w = choose|t: int|
                        0 <= t < self@.collaborators.len() && (#[trigger] self@.collaborators[t])
                            == (ProjectCollaborator { project_id: p2, user_id: u2 });
                    m0.collaborators.lemma_filter_contains_rev(ap, self@.collaborators[w]);
                    let k = choose|k: int|
                        0 <= k < m0.collaborators.len() && m0.collaborators[k] == self@.collaborators[w];
                    assert(m0.collaborators[k] == (ProjectCollaborator { project_id: p2, user_id: u2 }));
                }
            }
            assert(spec_named_member(m0.users, names.deep_view().take(0), 0i64) == false);
        }
        let mut j: usize = 0;
        while j < names.len()
            invariant
                j <= names.len(),
                self@.wf(),
                self@ == m0.with_collaborators(self@.collaborators),
                forall|u2: i64, p2: i64|
                    p2 != project_id ==> (#[trigger] self@.is_collaborator(u2, p2) <==> m0.is_collaborator(
                        u2,
                        p2,
                    )),
                forall|u2: i64|
                    #[trigger] self@.is_collaborator(u2, project_id) <==> spec_named_member(
                        m0.users,
                        names.deep_view().take(j as int),
                        u2,
                    ),
            decreases names.len() - j,
        {
            let ghost pre = self@;
            proof {
                assert(pre.users == m0.users);
                assert(names.deep_view()[j as int] == names@[j as int]@);
            }
            match self.find_user_by_name(&names[j]) {
                Option::Some(k) => {
                    let uid = self.users[k].id;
                    if !self.collaborator_row_exists(uid, project_id) {
                        self.collaborators.push(ProjectCollaborator { project_id, user_id: uid });
                        proof {
                            let row = ProjectCollaborator { project_id, user_id: uid };
                            assert(self@ =~= m0.with_collaborators(self@.collaborators));
                            assert(self@.collaborators == pre.collaborators.push(row));
                            let n = self@.collaborators.len() - 1;
                            assert forall|s: int, t: int| 0 <= s < t < self@.collaborators.len() implies (
                            #[trigger] self@.collaborators[s]) != (#[trigger] self@.collaborators[t]) by {
                                assert(self@.collaborators[s] == pre.collaborators[s]);
                                if t < n {
                                    assert(self@.collaborators[t] == pre.collaborators[t]);
                                } else {
                                    if pre.collaborators[s] == row {
                                        assert(pre.is_collaborator(uid, project_id));
                                    }
                                }
                            }
                            assert forall|t: int| 0 <= t < self@.collaborators.len() implies
                                m0.has_project((#[trigger] self@.collaborators[t]).project_id)
                                && m0.has_user_id(self@.collaborators[t].user_id) by {
                                if t < n {
                                    assert(self@.collaborators[t] == pre.collaborators[t]);
                                    assert(pre.has_project((pre.collaborators[t]).project_id)
                                        && pre.has_user_id(pre.collaborators[t].user_id));
                                    let w = choose|x: int|
                                        0 <= x < pre.projects.len() && (
                                        #[trigger] pre.projects[x]).id == (
                                        pre.collaborators[t]).project_id;
                                    assert((m0.projects[w]).id == (self@.collaborators[t]).project_id);
                                    let w2 = choose|x: int|
                                        0 <= x < pre.users.len() && (#[trigger] pre.users[x]).id
                                            == (pre.collaborators[t]).user_id;
                                    assert((m0.users[w2]).id == (self@.collaborators[t]).user_id);
                                } else {
                                    assert(m0.has_project(project_id));
                                    assert((m0.users[k as int]).id == uid);
                                }
                            }
                            crate::store::lemma_wf_collaborators_change(m0, self@);
                            assert forall|u2: i64, p2: i64| p2 != project_id implies (
                            #[trigger] self@.is_collaborator(u2, p2) <==> m0.is_collaborator(u2, p2)) by {
                                let prow = ProjectCollaborator { project_id: p2, user_id: u2 };
                                if self@.is_collaborator(u2, p2) {
                                    let w = choose|t: int|
                                        0 <= t < self@.collaborators.len() && (#[trigger] self@.collaborators[t])
                                            == prow;
                                    assert(pre.collaborators[w] == prow);
                                    assert(pre.is_collaborator(u2, p2));
                                }
                                if m0.is_collaborator(u2, p2) {
                                    assert(pre.is_collaborator(u2, p2));
                                    let w = choose|t: int|
                                        0 <= t < pre.collaborators.len() && (#[trigger] pre.collaborators[t])
                                            == prow;
                                    assert(self@.collaborators[w] == prow);
                                }
                            }
                            assert forall|u2: i64| #[trigger] self@.is_collaborator(u2, project_id)
                                <==> spec_named_member(
                                m0.users,
                                names.deep_view().take(j as int + 1),
                                u2,
                            ) by {
                                lemma_named_member_extend(
                                    m0.users,
                                    names.deep_view(),
                                    j as int,
                                    u2,
                                );
                                if self@.is_collaborator(u2, project_id) {
                                    let w = choose|t: int|
                                        0 <= t < self@.collaborators.len() && (#[trigger] self@.collaborators[t])
                                            == (ProjectCollaborator { project_id, user_id: u2 });
                                    if w < n {
                                        assert(pre.collaborators[w] == (ProjectCollaborator {
                                            project_id,
                                            user_id: u2,
                                        }));
                                        assert(pre.is_collaborator(u2, project_id));
                                        assert(spec_named_member(
                                            m0.users,
                                            names.deep_view().take(j as int),
                                            u2,
                                        ));
                                    } else {
                                        assert(u2 == uid);
                                        assert((m0.users[k as int]).name == names.deep_view()[
                                            j as int
                                        ]);
                                    }
                                }
                                if spec_named_member(
                                    m0.users,
                                    names.deep_view().take(j as int + 1),
                                    u2,
                                ) {
                                    if spec_named_member(
                                        m0.users,
                                        names.deep_view().take(j as int),
                                        u2,
                                    ) {
                                        assert(pre.is_collaborator(u2, project_id));
                                        let w = choose|t: int|
                                            0 <= t < pre.collaborators.len() && (
                                            #[trigger] pre.collaborators[t]) == (ProjectCollaborator {
                                                project_id,
                                                user_id: u2,
                                            });
                                        assert(self@.collaborators[w] == (ProjectCollaborator {
                                            project_id,
                                            user_id: u2,
                                        }));
                                    } else {
                                        let x = choose|x: int|
                                            0 <= x < m0.users.len() && (#[trigger] m0.users[x]).name
                                                == names.deep_view()[j as int] && m0.users[x].id
                                                == u2;
                                        assert((pre.users[x]).name == (pre.users[
                                            k as int
                                        ]).name);
                                        assert(x == k as int);
                                        assert(u2 == uid);
                                        assert(self@.collaborators[n] == (ProjectCollaborator {
                                            project_id,
                                            user_id: u2,
                                        }));
                                    }
                                }
                            }
                        }
                    } else {
                        proof {
                            assert forall|u2: i64| #[trigger] self@.is_collaborator(u2, project_id)
                                <==> spec_named_member(
                                m0.users,
                                names.deep_view().take(j as int + 1),
                                u2,
                            ) by {
                                lemma_named_member_extend(
                                    m0.users,
                                    names.deep_view(),
                                    j as int,
                                    u2,
                                );
                                if spec_named_member(
                                    m0.users,
                                    names.deep_view().take(j as int + 1),
                                    u2,
                                ) && !spec_named_member(
                                    m0.users,
                                    names.deep_view().take(j as int),
                                    u2,
                                ) {
                                    let x = choose|x: int|
                                        0 <= x < m0.users.len() && (#[trigger] m0.users[x]).name
                                            == names.deep_view()[j as int] && m0.users[x].id
                                            == u2;
                                    assert((pre.users[x]).name == (pre.users[k as int]).name);
                                    assert(x == k as int);
                                    assert(u2 == uid);
                                    assert(self@.is_collaborator(uid, project_id));
                                }
                                if self@.is_collaborator(u2, project_id) {
                                    assert(spec_named_member(
                                        m0.users,
                                        names.deep_view().take(j as int),
                                        u2,
                                    ));
                                }
                            }
                        }
                    }
                },
                Option::None => {
                    proof {
                        assert forall|u2: i64| #[trigger] self@.is_collaborator(u2, project_id)
                            <==> spec_named_member(
                            m0.users,
                            names.deep_view().take(j as int + 1),
                            u2,
                        ) by {
                            lemma_named_member_extend(m0.users, names.deep_view(), j as int, u2);
                            if spec_named_member(
                                m0.users,
                                names.deep_view().take(j as int + 1),
                                u2,
                            ) && !spec_named_member(
                                m0.users,
                                names.deep_view().take(j as int),
                                u2,
                            ) {
                                let x = choose|x: int|
                                    0 <= x < m0.users.len() && (#[trigger] m0.users[x]).name
                                        == names.deep_view()[j as int] && m0.users[x].id == u2;
                                assert((pre.users[x]).name == names@[j as int]@);
                                assert(pre.user_name_taken(names@[j as int]@));
                            }
                        }
                    }
                },
            }
            j = j + 1;
        }
        proof {
            assert(names.deep_view().take(names.deep_view().len() as int) =~= names.deep_view());
        }
    }
}

} // verus!
