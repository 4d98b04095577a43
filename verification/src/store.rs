//! The relational state the core operates on, modelled as plain rows:
//! accounts, live sessions, projects, the two membership relations, and
//! groups. Contracts speak of the store through its view, a `StoreModel`
//! of sequences.

use vstd::prelude::*;

use crate::models::{
    CurlGroup, CurlGroupModel, Project, ProjectAdmin, ProjectCollaborator, ProjectModel,
    SessionEntry, User, UserModel,
};

verus! {

/// The transactional store: every operation of the core reads and mutates
/// exactly this state, and always inside what amounts to one transaction
/// (a single `&mut` call that either completes or leaves the value
/// untouched).
pub struct Store {
    pub users: Vec<User>,
    pub sessions: Vec<SessionEntry>,
    pub projects: Vec<Project>,
    pub admins: Vec<ProjectAdmin>,
    pub collaborators: Vec<ProjectCollaborator>,
    pub groups: Vec<CurlGroup>,
    pub next_user_id: i64,
    pub next_project_id: i64,
    pub next_group_id: i64,
    pub next_token: u64,
}

/// Mathematical view of the store.
#[verifier::ext_equal]
pub struct StoreModel {
    pub users: Seq<UserModel>,
    pub sessions: Seq<SessionEntry>,
    pub projects: Seq<ProjectModel>,
    pub admins: Seq<ProjectAdmin>,
    pub collaborators: Seq<ProjectCollaborator>,
    pub groups: Seq<CurlGroupModel>,
    pub next_user_id: i64,
    pub next_project_id: i64,
    pub next_group_id: i64,
    pub next_token: u64,
}

impl View for Store {
    type V = StoreModel;

    open spec fn view(&self) -> StoreModel {
        StoreModel {
            users: self.users.deep_view(),
            sessions: self.sessions@,
            projects: self.projects.deep_view(),
            admins: self.admins@,
            collaborators: self.collaborators@,
            groups: self.groups.deep_view(),
            next_user_id: self.next_user_id,
            next_project_id: self.next_project_id,
            next_group_id: self.next_group_id,
            next_token: self.next_token,
        }
    }
}

impl StoreModel {
    // ---- accounts ----

    /// Some account carries this id.
    pub open spec fn has_user_id(self, uid: i64) -> bool {
        exists|i: int| 0 <= i < self.users.len() && (#[trigger] self.users[i]).id == uid
    }

    /// Some account carries this name.
    pub open spec fn user_name_taken(self, name: Seq<char>) -> bool {
        exists|i: int| 0 <= i < self.users.len() && (#[trigger] self.users[i]).name == name
    }

    /// The account with this name; meaningful only when the name is taken.
    pub open spec fn user_by_name(self, name: Seq<char>) -> UserModel {
        self.users[choose|i: int|
            0 <= i < self.users.len() && (#[trigger] self.users[i]).name == name]
    }

    /// The account with this id; meaningful only when the id exists.
    pub open spec fn user_by_id(self, uid: i64) -> UserModel {
        self.users[choose|i: int|
            0 <= i < self.users.len() && (#[trigger] self.users[i]).id == uid]
    }

    // ---- sessions ----

    /// A session with this token is live.
    pub open spec fn is_live_token(self, token: u64) -> bool {
        exists|i: int| 0 <= i < self.sessions.len() && (#[trigger] self.sessions[i]).token
            == token
    }

    /// The user a live token is bound to; meaningful only when live.
    pub open spec fn token_user(self, token: u64) -> i64 {
        self.sessions[choose|i: int|
            0 <= i < self.sessions.len() && (#[trigger] self.sessions[i]).token == token].user_id
    }

    /// The identity an operation resolves from a presented token: `None`
    /// when no token is presented or the token is not live.
    pub open spec fn caller_of(self, token: Option<u64>) -> Option<i64> {
        match token {
            Option::None => Option::None,
            Option::Some(t) => if self.is_live_token(t) {
                Option::Some(self.token_user(t))
            } else {
                Option::None
            },
        }
    }

    // ---- projects ----

    /// Some project carries this id.
    pub open spec fn has_project(self, pid: i64) -> bool {
        exists|i: int| 0 <= i < self.projects.len() && (#[trigger] self.projects[i]).id == pid
    }

    /// The project with this id; meaningful only when the id exists.
    pub open spec fn project_by_id(self, pid: i64) -> ProjectModel {
        self.projects[choose|i: int|
            0 <= i < self.projects.len() && (#[trigger] self.projects[i]).id == pid]
    }

    // ---- membership relations ----

    /// The admin relation holds this (project, user) pair.
    pub open spec fn is_admin(self, uid: i64, pid: i64) -> bool {
        exists|i: int| 0 <= i < self.admins.len() && (#[trigger] self.admins[i])
            == (ProjectAdmin { project_id: pid, user_id: uid })
    }

    /// The collaborator relation holds this (project, user) pair.
    pub open spec fn is_collaborator(self, uid: i64, pid: i64) -> bool {
        exists|i: int| 0 <= i < self.collaborators.len() && (#[trigger] self.collaborators[i])
            == (ProjectCollaborator { project_id: pid, user_id: uid })
    }

    // ---- groups ----

    /// Some group carries this id.
    pub open spec fn has_group(self, gid: i64) -> bool {
        exists|i: int| 0 <= i < self.groups.len() && (#[trigger] self.groups[i]).id == gid
    }

    /// The group with this id; meaningful only when the id exists.
    pub open spec fn group_by_id(self, gid: i64) -> CurlGroupModel {
        self.groups[choose|i: int|
            0 <= i < self.groups.len() && (#[trigger] self.groups[i]).id == gid]
    }

    // ---- functional updates ----

    /// This store with the account table and the id counter replaced.
    pub open spec fn with_users(self, users: Seq<UserModel>, next_user_id: i64) -> StoreModel {
        StoreModel { users, next_user_id, ..self }
    }

    /// This store with the session table and the token counter replaced.
    pub open spec fn with_sessions(self, sessions: Seq<SessionEntry>, next_token: u64)
        -> StoreModel {
        StoreModel { sessions, next_token, ..self }
    }

    /// This store with the project table replaced.
    pub open spec fn with_projects(self, projects: Seq<ProjectModel>) -> StoreModel {
        StoreModel { projects, ..self }
    }

    /// This store with the group table replaced.
    pub open spec fn with_groups(self, groups: Seq<CurlGroupModel>) -> StoreModel {
        StoreModel { groups, ..self }
    }

    /// This store with the admin relation replaced.
    pub open spec fn with_admins(self, admins: Seq<ProjectAdmin>) -> StoreModel {
        StoreModel { admins, ..self }
    }

    /// This store with the collaborator relation replaced.
    pub open spec fn with_collaborators(self, collaborators: Seq<ProjectCollaborator>)
        -> StoreModel {
        StoreModel { collaborators, ..self }
    }

    // ---- well-formedness ----

    /// Account ids and names are unique, and ids sit below the id counter.
    pub open spec fn users_wf(self) -> bool {
        &&& 1 <= self.next_user_id
        &&& forall|i: int, j: int|
            0 <= i < j < self.users.len() ==> (#[trigger] self.users[i]).id
                != (#[trigger] self.users[j]).id && self.users[i].name != self.users[j].name
        &&& forall|i: int|
            0 <= i < self.users.len() ==> 0 < (#[trigger] self.users[i]).id < self.next_user_id
    }

    /// Session tokens are unique, sit below the token counter, and are
    /// bound to existing accounts.
    pub open spec fn sessions_wf(self) -> bool {
        &&& forall|i: int, j: int|
            0 <= i < j < self.sessions.len() ==> (#[trigger] self.sessions[i]).token
                != (#[trigger] self.sessions[j]).token
        &&& forall|i: int|
            0 <= i < self.sessions.len() ==> (#[trigger] self.sessions[i]).token < self.next_token
                && self.has_user_id(self.sessions[i].user_id)
    }

    /// Project ids are unique and sit below the id counter.
    pub open spec fn projects_wf(self) -> bool {
        &&& 1 <= self.next_project_id
        &&& forall|i: int, j: int|
            0 <= i < j < self.projects.len() ==> (#[trigger] self.projects[i]).id
                != (#[trigger] self.projects[j]).id
        &&& forall|i: int|
            0 <= i < self.projects.len() ==> 0 < (#[trigger] self.projects[i]).id
                < self.next_project_id
    }

    /// Membership rows are unique per relation and reference an existing
    /// project and an existing account.
    pub open spec fn memberships_wf(self) -> bool {
        &&& forall|i: int, j: int|
            0 <= i < j < self.admins.len() ==> #[trigger] self.admins[i] != #[trigger] self.admins[j]
        &&& forall|i: int|
            0 <= i < self.admins.len() ==> self.has_project((#[trigger] self.admins[i]).project_id)
                && self.has_user_id(self.admins[i].user_id)
        &&& forall|i: int, j: int|
            0 <= i < j < self.collaborators.len() ==> #[trigger] self.collaborators[i]
                != #[trigger] self.collaborators[j]
        &&& forall|i: int|
            0 <= i < self.collaborators.len() ==> self.has_project(
                (#[trigger] self.collaborators[i]).project_id,
            ) && self.has_user_id(self.collaborators[i].user_id)
    }

    /// Group ids are unique, sit below the id counter, and every group's
    /// owning project exists.
    pub open spec fn groups_wf(self) -> bool {
        &&& 1 <= self.next_group_id
        &&& forall|i: int, j: int|
            0 <= i < j < self.groups.len() ==> (#[trigger] self.groups[i]).id
                != (#[trigger] self.groups[j]).id
        &&& forall|i: int|
            0 <= i < self.groups.len() ==> 0 < (#[trigger] self.groups[i]).id < self.next_group_id
                && self.has_project(self.groups[i].project_id)
    }

    /// The store invariant: every operation requires it and preserves it.
    pub open spec fn wf(self) -> bool {
        &&& self.users_wf()
        &&& self.sessions_wf()
        &&& self.projects_wf()
        &&& self.memberships_wf()
        &&& self.groups_wf()
    }
}

impl Store {
    /// An empty store: no accounts, no sessions, no projects.
    pub fn new() -> (r: Store)
        ensures
            r@.wf(),
            r@.users == Seq::<UserModel>::empty(),
            r@.sessions == Seq::<SessionEntry>::empty(),
            r@.projects == Seq::<ProjectModel>::empty(),
            r@.admins == Seq::<ProjectAdmin>::empty(),
            r@.collaborators == Seq::<ProjectCollaborator>::empty(),
            r@.groups == Seq::<CurlGroupModel>::empty(),
            r@.next_user_id == 1,
            r@.next_project_id == 1,
            r@.next_group_id == 1,
            r@.next_token == 1,
    {
        Store {
            users: Vec::new(),
            sessions: Vec::new(),
            projects: Vec::new(),
            admins: Vec::new(),
            collaborators: Vec::new(),
            groups: Vec::new(),
            next_user_id: 1,
            next_project_id: 1,
            next_group_id: 1,
            next_token: 1,
        }
    }

    /// Linear lookup of an account by name; the unique-name invariant makes
    /// the first hit the only one.
    pub(crate) fn find_user_by_name(&self, name: &String) -> (r: Option<usize>)
        requires
            self@.wf(),
        ensures
            match r {
                Option::Some(i) => i < self.users.len() && self.users[i as int]@.name == name@
                    && self@.user_name_taken(name@) && self@.user_by_name(name@)
                    == self.users[i as int]@,
                Option::None => !self@.user_name_taken(name@),
            },
    {
        let mut i: usize = 0;
        while i < self.users.len()
            invariant
                i <= self.users.len(),
                forall|j: int| 0 <= j < i ==> (#[trigger] self.users[j]@).name != name@,
            decreases self.users.len() - i,
        {
            if self.users[i].name == *name {
                proof {
                    assert(self@.users[i as int] == self.users[i as int]@);
                }
                return Option::Some(i);
            }
            i = i + 1;
        }
        Option::None
    }

    /// Linear lookup of an account by id.
    pub(crate) fn find_user_by_id(&self, uid: i64) -> (r: Option<usize>)
        requires
            self@.wf(),
        ensures
            match r {
                Option::Some(i) => i < self.users.len() && self.users[i as int]@.id == uid
                    && self@.has_user_id(uid) && self@.user_by_id(uid) == self.users[i as int]@,
                Option::None => !self@.has_user_id(uid),
            },
    {
        let mut i: usize = 0;
        while i < self.users.len()
            invariant
                i <= self.users.len(),
                forall|j: int| 0 <= j < i ==> (#[trigger] self.users[j]@).id != uid,
            decreases self.users.len() - i,
        {
            if self.users[i].id == uid {
                proof {
                    assert(self@.users[i as int] == self.users[i as int]@);
                }
                return Option::Some(i);
            }
            i = i + 1;
        }
        Option::None
    }

    /// Linear lookup of a project by id.
    pub(crate) fn find_project(&self, pid: i64) -> (r: Option<usize>)
        requires
            self@.wf(),
        ensures
            match r {
                Option::Some(i) => i < self.projects.len() && self.projects[i as int]@.id == pid
                    && self@.has_project(pid) && self@.project_by_id(pid)
                    == self.projects[i as int]@,
                Option::None => !self@.has_project(pid),
            },
    {
        let mut i: usize = 0;
        while i < self.projects.len()
            invariant
                i <= self.projects.len(),
                forall|j: int| 0 <= j < i ==> (#[trigger] self.projects[j]@).id != pid,
            decreases self.projects.len() - i,
        {
            if self.projects[i].id == pid {
                proof {
                    assert(self@.projects[i as int] == self.projects[i as int]@);
                }
                return Option::Some(i);
            }
            i = i + 1;
        }
        Option::None
    }

    /// Linear lookup of a group by id.
    pub(crate) fn find_group(&self, gid: i64) -> (r: Option<usize>)
        requires
            self@.wf(),
        ensures
            match r {
                Option::Some(i) => i < self.groups.len() && self.groups[i as int]@.id == gid
                    && self@.has_group(gid) && self@.group_by_id(gid) == self.groups[i as int]@,
                Option::None => !self@.has_group(gid),
            },
    {
        let mut i: usize = 0;
        while i < self.groups.len()
            invariant
                i <= self.groups.len(),
                forall|j: int| 0 <= j < i ==> (#[trigger] self.groups[j]@).id != gid,
            decreases self.groups.len() - i,
        {
            if self.groups[i].id == gid {
                proof {
                    assert(self@.groups[i as int] == self.groups[i as int]@);
                }
                return Option::Some(i);
            }
            i = i + 1;
        }
        Option::None
    }

    /// Linear lookup of a session by token.
    pub(crate) fn find_session(&self, token: u64) -> (r: Option<usize>)
        requires
            self@.wf(),
        ensures
            match r {
                Option::Some(i) => i < self.sessions.len() && self.sessions[i as int].token
                    == token && self@.is_live_token(token) && self@.token_user(token)
                    == self.sessions[i as int].user_id,
                Option::None => !self@.is_live_token(token),
            },
    {
        let mut i: usize = 0;
        while i < self.sessions.len()
            invariant
                i <= self.sessions.len(),
                forall|j: int| 0 <= j < i ==> (#[trigger] self.sessions[j]).token != token,
            decreases self.sessions.len() - i,
        {
            if self.sessions[i].token == token {
                proof {
                    assert(self@.sessions[i as int] == self.sessions[i as int]);
                }
                return Option::Some(i);
            }
            i = i + 1;
        }
        Option::None
    }

    /// Existence check against the admin relation.
    pub(crate) fn admin_row_exists(&self, uid: i64, pid: i64) -> (r: bool)
        ensures
            r == self@.is_admin(uid, pid),
    {
        let mut i: usize = 0;
        while i < self.admins.len()
            invariant
                i <= self.admins.len(),
                forall|j: int| 0 <= j < i ==> #[trigger] self.admins[j]
                    != (ProjectAdmin { project_id: pid, user_id: uid }),
            decreases self.admins.len() - i,
        {
            if self.admins[i].project_id == pid && self.admins[i].user_id == uid {
                proof {
                    assert(self@.admins[i as int] == (ProjectAdmin { project_id: pid, user_id: uid }));
                }
                return true;
            }
            i = i + 1;
        }
        false
    }

    /// Existence check against the collaborator relation.
    pub(crate) fn collaborator_row_exists(&self, uid: i64, pid: i64) -> (r: bool)
        ensures
            r == self@.is_collaborator(uid, pid),
    {
        let mut i: usize = 0;
        while i < self.collaborators.len()
            invariant
                i <= self.collaborators.len(),
                forall|j: int| 0 <= j < i ==> #[trigger] self.collaborators[j]
                    != (ProjectCollaborator { project_id: pid, user_id: uid }),
            decreases self.collaborators.len() - i,
        {
            if self.collaborators[i].project_id == pid && self.collaborators[i].user_id == uid {
                proof {
                    assert(self@.collaborators[i as int] == (ProjectCollaborator {
                        project_id: pid,
                        user_id: uid,
                    }));
                }
                return true;
            }
            i = i + 1;
        }
        false
    }
}


/// Existence lookups depend only on the tables they search, so two
/// stores that agree on those tables answer them alike.
pub proof fn lemma_lookups_agree(a: StoreModel, b: StoreModel)
    requires
        a.projects == b.projects,
        a.users == b.users,
    ensures
        forall|pid: i64| #[trigger] a.has_project(pid) <==> b.has_project(pid),
        forall|uid: i64| #[trigger] a.has_user_id(uid) <==> b.has_user_id(uid),
{
    assert forall|pid: i64| #[trigger] a.has_project(pid) <==> b.has_project(pid) by {
        if a.has_project(pid) {
            let w = choose|i: int|
                0 <= i < a.projects.len() && (#[trigger] a.projects[i]).id == pid;
            assert((b.projects[w]).id == pid);
        }
        if b.has_project(pid) {
            let w = choose|i: int|
                0 <= i < b.projects.len() && (#[trigger] b.projects[i]).id == pid;
            assert((a.projects[w]).id == pid);
        }
    }
    assert forall|uid: i64| #[trigger] a.has_user_id(uid) <==> b.has_user_id(uid) by {
        if a.has_user_id(uid) {
            let w = choose|i: int| 0 <= i < a.users.len() && (#[trigger] a.users[i]).id == uid;
            assert((b.users[w]).id == uid);
        }
        if b.has_user_id(uid) {
            let w = choose|i: int| 0 <= i < b.users.len() && (#[trigger] b.users[i]).id == uid;
            assert((a.users[w]).id == uid);
        }
    }
}

/// A store that differs from a well-formed one only in its admin
/// relation is well-formed as soon as the new relation has no duplicate
/// row and references existing projects and accounts.
pub proof fn lemma_wf_admins_change(a: StoreModel, b: StoreModel)
    requires
        a.wf(),
        b == a.with_admins(b.admins),
        forall|i: int, j: int|
            0 <= i < j < b.admins.len() ==> (#[trigger] b.admins[i]) != (#[trigger] b.admins[j]),
        forall|i: int|
            0 <= i < b.admins.len() ==> a.has_project((#[trigger] b.admins[i]).project_id)
                && a.has_user_id(b.admins[i].user_id),
    ensures
        b.wf(),
{
    lemma_lookups_agree(a, b);
    assert forall|i: int, j: int| 0 <= i < j < b.users.len() implies (#[trigger] b.users[i]).id
        != (#[trigger] b.users[j]).id && b.users[i].name != b.users[j].name by {
        assert(b.users[i] == a.users[i] && b.users[j] == a.users[j]);
    }
    assert forall|i: int| 0 <= i < b.users.len() implies 0 < (#[trigger] b.users[i]).id
        < b.next_user_id by {
        assert(b.users[i] == a.users[i]);
    }
    assert forall|i: int, j: int| 0 <= i < j < b.sessions.len() implies (
    #[trigger] b.sessions[i]).token != (#[trigger] b.sessions[j]).token by {
        assert(b.sessions[i] == a.sessions[i] && b.sessions[j] == a.sessions[j]);
    }
    assert forall|i: int| 0 <= i < b.sessions.len() implies (#[trigger] b.sessions[i]).token
        < b.next_token && b.has_user_id(b.sessions[i].user_id) by {
        assert(b.sessions[i] == a.sessions[i]);
        assert(a.has_user_id(a.sessions[i].user_id));
    }
    assert forall|i: int, j: int| 0 <= i < j < b.projects.len() implies (
    #[trigger] b.projects[i]).id != (#[trigger] b.projects[j]).id by {
        assert(b.projects[i] == a.projects[i] && b.projects[j] == a.projects[j]);
    }
    assert forall|i: int| 0 <= i < b.projects.len() implies 0 < (#[trigger] b.projects[i]).id
        < b.next_project_id by {
        assert(b.projects[i] == a.projects[i]);
    }
    assert forall|i: int| 0 <= i < b.admins.len() implies b.has_project(
        (#[trigger] b.admins[i]).project_id,
    ) && b.has_user_id(b.admins[i].user_id) by {
        assert(a.has_project((b.admins[i]).project_id) && a.has_user_id(b.admins[i].user_id));
    }
    assert forall|i: int, j: int| 0 <= i < j < b.collaborators.len() implies (
    #[trigger] b.collaborators[i]) != (#[trigger] b.collaborators[j]) by {
        assert(b.collaborators[i] == a.collaborators[i] && b.collaborators[j]
            == a.collaborators[j]);
    }
    assert forall|i: int| 0 <= i < b.collaborators.len() implies b.has_project(
        (#[trigger] b.collaborators[i]).project_id,
    ) && b.has_user_id(b.collaborators[i].user_id) by {
        assert(b.collaborators[i] == a.collaborators[i]);
        assert(a.has_project((a.collaborators[i]).project_id) && a.has_user_id(
            a.collaborators[i].user_id,
        ));
    }
    assert forall|i: int, j: int| 0 <= i < j < b.groups.len() implies (#[trigger] b.groups[i]).id
        != (#[trigger] b.groups[j]).id by {
        assert(b.groups[i] == a.groups[i] && b.groups[j] == a.groups[j]);
    }
    assert forall|i: int| 0 <= i < b.groups.len() implies 0 < (#[trigger] b.groups[i]).id
        < b.next_group_id && b.has_project(b.groups[i].project_id) by {
        assert(b.groups[i] == a.groups[i]);
        assert(a.has_project((a.groups[i]).project_id));
    }
}

/// The same, for a store that differs only in its collaborator relation.
pub proof fn lemma_wf_collaborators_change(a: StoreModel, b: StoreModel)
    requires
        a.wf(),
        b == a.with_collaborators(b.collaborators),
        forall|i: int, j: int|
            0 <= i < j < b.collaborators.len() ==> (#[trigger] b.collaborators[i]) != (
            #[trigger] b.collaborators[j]),
        forall|i: int|
            0 <= i < b.collaborators.len() ==> a.has_project(
                (#[trigger] b.collaborators[i]).project_id,
            ) && a.has_user_id(b.collaborators[i].user_id),
    ensures
        b.wf(),
{
    lemma_lookups_agree(a, b);
    assert forall|i: int, j: int| 0 <= i < j < b.users.len() implies (#[trigger] b.users[i]).id
        != (#[trigger] b.users[j]).id && b.users[i].name != b.users[j].name by {
        assert(b.users[i] == a.users[i] && b.users[j] == a.users[j]);
    }
    assert forall|i: int| 0 <= i < b.users.len() implies 0 < (#[trigger] b.users[i]).id
        < b.next_user_id by {
        assert(b.users[i] == a.users[i]);
    }
    assert forall|i: int, j: int| 0 <= i < j < b.sessions.len() implies (
    #[trigger] b.sessions[i]).token != (#[trigger] b.sessions[j]).token by {
        assert(b.sessions[i] == a.sessions[i] && b.sessions[j] == a.sessions[j]);
    }
    assert forall|i: int| 0 <= i < b.sessions.len() implies (#[trigger] b.sessions[i]).token
        < b.next_token && b.has_user_id(b.sessions[i].user_id) by {
        assert(b.sessions[i] == a.sessions[i]);
        assert(a.has_user_id(a.sessions[i].user_id));
    }
    assert forall|i: int, j: int| 0 <= i < j < b.projects.len() implies (
    #[trigger] b.projects[i]).id != (#[trigger] b.projects[j]).id by {
        assert(b.projects[i] == a.projects[i] && b.projects[j] == a.projects[j]);
    }
    assert forall|i: int| 0 <= i < b.projects.len() implies 0 < (#[trigger] b.projects[i]).id
        < b.next_project_id by {
        assert(b.projects[i] == a.projects[i]);
    }
    assert forall|i: int| 0 <= i < b.collaborators.len() implies b.has_project(
        (#[trigger] b.collaborators[i]).project_id,
    ) && b.has_user_id(b.collaborators[i].user_id) by {
        assert(a.has_project((b.collaborators[i]).project_id) && a.has_user_id(
            b.collaborators[i].user_id,
        ));
    }
    assert forall|i: int, j: int| 0 <= i < j < b.admins.len() implies (#[trigger] b.admins[i])
        != (#[trigger] b.admins[j]) by {
        assert(b.admins[i] == a.admins[i] && b.admins[j] == a.admins[j]);
    }
    assert forall|i: int| 0 <= i < b.admins.len() implies b.has_project(
        (#[trigger] b.admins[i]).project_id,
    ) && b.has_user_id(b.admins[i].user_id) by {
        assert(b.admins[i] == a.admins[i]);
        assert(a.has_project((a.admins[i]).project_id) && a.has_user_id(a.admins[i].user_id));
    }
    assert forall|i: int, j: int| 0 <= i < j < b.groups.len() implies (#[trigger] b.groups[i]).id
        != (#[trigger] b.groups[j]).id by {
        assert(b.groups[i] == a.groups[i] && b.groups[j] == a.groups[j]);
    }
    assert forall|i: int| 0 <= i < b.groups.len() implies 0 < (#[trigger] b.groups[i]).id
        < b.next_group_id && b.has_project(b.groups[i].project_id) by {
        assert(b.groups[i] == a.groups[i]);
        assert(a.has_project((a.groups[i]).project_id));
    }
}


/// Two stores with the same admin relation agree on admin membership.
pub proof fn lemma_admins_agree(a: StoreModel, b: StoreModel)
    requires
        a.admins == b.admins,
    ensures
        forall|u: i64, p: i64| #[trigger] a.is_admin(u, p) <==> b.is_admin(u, p),
{
    assert forall|u: i64, p: i64| #[trigger] a.is_admin(u, p) <==> b.is_admin(u, p) by {
        if a.is_admin(u, p) {
            let w = choose|i: int|
                0 <= i < a.admins.len() && (#[trigger] a.admins[i]) == (ProjectAdmin {
                    project_id: p,
                    user_id: u,
                });
            assert(b.admins[w] == (ProjectAdmin { project_id: p, user_id: u }));
        }
        if b.is_admin(u, p) {
            let w = choose|i: int|
                0 <= i < b.admins.len() && (#[trigger] b.admins[i]) == (ProjectAdmin {
                    project_id: p,
                    user_id: u,
                });
            assert(a.admins[w] == (ProjectAdmin { project_id: p, user_id: u }));
        }
    }
}

/// Two stores with the same collaborator relation agree on collaborator
/// membership.
pub proof fn lemma_collaborators_agree(a: StoreModel, b: StoreModel)
    requires
        a.collaborators == b.collaborators,
    ensures
        forall|u: i64, p: i64| #[trigger] a.is_collaborator(u, p) <==> b.is_collaborator(u, p),
{
    assert forall|u: i64, p: i64| #[trigger] a.is_collaborator(u, p) <==> b.is_collaborator(
        u,
        p,
    ) by {
        if a.is_collaborator(u, p) {
            let w = choose|i: int|
                0 <= i < a.collaborators.len() && (#[trigger] a.collaborators[i])
                    == (ProjectCollaborator { project_id: p, user_id: u });
            assert(b.collaborators[w] == (ProjectCollaborator { project_id: p, user_id: u }));
        }
        if b.is_collaborator(u, p) {
            let w = choose|i: int|
                0 <= i < b.collaborators.len() && (#[trigger] b.collaborators[i])
                    == (ProjectCollaborator { project_id: p, user_id: u });
            assert(a.collaborators[w] == (ProjectCollaborator { project_id: p, user_id: u }));
        }
    }
}

/// A store whose project table was rewritten without touching any id is
/// well-formed, and finds the same projects.
pub proof fn lemma_wf_projects_same_ids(a: StoreModel, b: StoreModel)
    requires
        a.wf(),
        b == a.with_projects(b.projects),
        b.projects.len() == a.projects.len(),
        forall|i: int|
            0 <= i < a.projects.len() ==> (#[trigger] b.projects[i]).id == a.projects[i].id,
    ensures
        b.wf(),
        forall|pid: i64| #[trigger] b.has_project(pid) <==> a.has_project(pid),
{
    assert forall|pid: i64| #[trigger] b.has_project(pid) <==> a.has_project(pid) by {
        if a.has_project(pid) {
            let w = choose|i: int|
                0 <= i < a.projects.len() && (#[trigger] a.projects[i]).id == pid;
            assert((b.projects[w]).id == pid);
        }
        if b.has_project(pid) {
            let w = choose|i: int|
                0 <= i < b.projects.len() && (#[trigger] b.projects[i]).id == pid;
            assert((a.projects[w]).id == pid);
        }
    }
    assert forall|i: int, j: int| 0 <= i < j < b.users.len() implies (#[trigger] b.users[i]).id
        != (#[trigger] b.users[j]).id && b.users[i].name != b.users[j].name by {
        assert(b.users[i] == a.users[i] && b.users[j] == a.users[j]);
    }
    assert forall|i: int| 0 <= i < b.users.len() implies 0 < (#[trigger] b.users[i]).id
        < b.next_user_id by {
        assert(b.users[i] == a.users[i]);
    }
    assert forall|i: int, j: int| 0 <= i < j < b.sessions.len() implies (
    #[trigger] b.sessions[i]).token != (#[trigger] b.sessions[j]).token by {
        assert(b.sessions[i] == a.sessions[i] && b.sessions[j] == a.sessions[j]);
    }
    assert forall|i: int| 0 <= i < b.sessions.len() implies (#[trigger] b.sessions[i]).token
        < b.next_token && b.has_user_id(b.sessions[i].user_id) by {
        assert(b.sessions[i] == a.sessions[i]);
        assert(a.has_user_id(a.sessions[i].user_id));
        let w = choose|x: int|
            0 <= x < a.users.len() && (#[trigger] a.users[x]).id == a.sessions[i].user_id;
        assert((b.users[w]).id == (b.sessions[i]).user_id);
    }
    assert forall|i: int, j: int| 0 <= i < j < b.projects.len() implies (
    #[trigger] b.projects[i]).id != (#[trigger] b.projects[j]).id by {
        assert(b.projects[i].id == a.projects[i].id && b.projects[j].id == a.projects[j].id);
    }
    assert forall|i: int| 0 <= i < b.projects.len() implies 0 < (#[trigger] b.projects[i]).id
        < b.next_project_id by {
        assert(b.projects[i].id == a.projects[i].id);
    }
    assert forall|i: int, j: int| 0 <= i < j < b.admins.len() implies (#[trigger] b.admins[i])
        != (#[trigger] b.admins[j]) by {
        assert(b.admins[i] == a.admins[i] && b.admins[j] == a.admins[j]);
    }
    assert forall|i: int| 0 <= i < b.admins.len() implies b.has_project(
        (#[trigger] b.admins[i]).project_id,
    ) && b.has_user_id(b.admins[i].user_id) by {
        assert(b.admins[i] == a.admins[i]);
        assert(a.has_project((a.admins[i]).project_id) && a.has_user_id(a.admins[i].user_id));
        let w = choose|x: int|
            0 <= x < a.users.len() && (#[trigger] a.users[x]).id == a.admins[i].user_id;
        assert((b.users[w]).id == (b.admins[i]).user_id);
    }
    assert forall|i: int, j: int| 0 <= i < j < b.collaborators.len() implies (
    #[trigger] b.collaborators[i]) != (#[trigger] b.collaborators[j]) by {
        assert(b.collaborators[i] == a.collaborators[i] && b.collaborators[j]
            == a.collaborators[j]);
    }
    assert forall|i: int| 0 <= i < b.collaborators.len() implies b.has_project(
        (#[trigger] b.collaborators[i]).project_id,
    ) && b.has_user_id(b.collaborators[i].user_id) by {
        assert(b.collaborators[i] == a.collaborators[i]);
        assert(a.has_project((a.collaborators[i]).project_id) && a.has_user_id(
            a.collaborators[i].user_id,
        ));
        let w = choose|x: int|
            0 <= x < a.users.len() && (#[trigger] a.users[x]).id == a.collaborators[i].user_id;
        assert((b.users[w]).id == (b.collaborators[i]).user_id);
    }
    assert forall|i: int, j: int| 0 <= i < j < b.groups.len() implies (#[trigger] b.groups[i]).id
        != (#[trigger] b.groups[j]).id by {
        assert(b.groups[i] == a.groups[i] && b.groups[j] == a.groups[j]);
    }
    assert forall|i: int| 0 <= i < b.groups.len() implies 0 < (#[trigger] b.groups[i]).id
        < b.next_group_id && b.has_project(b.groups[i].project_id) by {
        assert(b.groups[i] == a.groups[i]);
        assert(a.has_project((a.groups[i]).project_id));
    }
}


/// A store that differs from a well-formed one only in its group table
/// and group-id counter is well-formed as soon as the new groups have
/// unique ids below the counter and reference existing projects.
pub proof fn lemma_wf_groups_change(a: StoreModel, b: StoreModel)
    requires
        a.wf(),
        b.users == a.users,
        b.sessions == a.sessions,
        b.projects == a.projects,
        b.admins == a.admins,
        b.collaborators == a.collaborators,
        b.next_user_id == a.next_user_id,
        b.next_project_id == a.next_project_id,
        b.next_token == a.next_token,
        1 <= b.next_group_id,
        forall|i: int, j: int|
            0 <= i < j < b.groups.len() ==> (#[trigger] b.groups[i]).id != (
            #[trigger] b.groups[j]).id,
        forall|i: int|
            0 <= i < b.groups.len() ==> 0 < (#[trigger] b.groups[i]).id < b.next_group_id
                && a.has_project(b.groups[i].project_id),
    ensures
        b.wf(),
{
    lemma_lookups_agree(a, b);
    assert forall|i: int, j: int| 0 <= i < j < b.users.len() implies (#[trigger] b.users[i]).id
        != (#[trigger] b.users[j]).id && b.users[i].name != b.users[j].name by {
        assert(b.users[i] == a.users[i] && b.users[j] == a.users[j]);
    }
    assert forall|i: int| 0 <= i < b.users.len() implies 0 < (#[trigger] b.users[i]).id
        < b.next_user_id by {
        assert(b.users[i] == a.users[i]);
    }
    assert forall|i: int, j: int| 0 <= i < j < b.sessions.len() implies (
    #[trigger] b.sessions[i]).token != (#[trigger] b.sessions[j]).token by {
        assert(b.sessions[i] == a.sessions[i] && b.sessions[j] == a.sessions[j]);
    }
    assert forall|i: int| 0 <= i < b.sessions.len() implies (#[trigger] b.sessions[i]).token
        < b.next_token && b.has_user_id(b.sessions[i].user_id) by {
        assert(b.sessions[i] == a.sessions[i]);
        assert(a.has_user_id(a.sessions[i].user_id));
    }
    assert forall|i: int, j: int| 0 <= i < j < b.projects.len() implies (
    #[trigger] b.projects[i]).id != (#[trigger] b.projects[j]).id by {
        assert(b.projects[i] == a.projects[i] && b.projects[j] == a.projects[j]);
    }
    assert forall|i: int| 0 <= i < b.projects.len() implies 0 < (#[trigger] b.projects[i]).id
        < b.next_project_id by {
        assert(b.projects[i] == a.projects[i]);
    }
    assert forall|i: int, j: int| 0 <= i < j < b.admins.len() implies (#[trigger] b.admins[i])
        != (#[trigger] b.admins[j]) by {
        assert(b.admins[i] == a.admins[i] && b.admins[j] == a.admins[j]);
    }
    assert forall|i: int| 0 <= i < b.admins.len() implies b.has_project(
        (#[trigger] b.admins[i]).project_id,
    ) && b.has_user_id(b.admins[i].user_id) by {
        assert(b.admins[i] == a.admins[i]);
        assert(a.has_project((a.admins[i]).project_id) && a.has_user_id(a.admins[i].user_id));
    }
    assert forall|i: int, j: int| 0 <= i < j < b.collaborators.len() implies (
    #[trigger] b.collaborators[i]) != (#[trigger] b.collaborators[j]) by {
        assert(b.collaborators[i] == a.collaborators[i] && b.collaborators[j]
            == a.collaborators[j]);
    }
    assert forall|i: int| 0 <= i < b.collaborators.len() implies b.has_project(
        (#[trigger] b.collaborators[i]).project_id,
    ) && b.has_user_id(b.collaborators[i].user_id) by {
        assert(b.collaborators[i] == a.collaborators[i]);
        assert(a.has_project((a.collaborators[i]).project_id) && a.has_user_id(
            a.collaborators[i].user_id,
        ));
    }
    assert forall|i: int| 0 <= i < b.groups.len() implies 0 < (#[trigger] b.groups[i]).id
        < b.next_group_id && b.has_project(b.groups[i].project_id) by {
        assert(a.has_project((b.groups[i]).project_id));
    }
}

} // verus!
