//! The account-facing operation surface: sign up, log in, log out,
//! session status and account deletion. Each operation resolves the
//! caller's session first, then acts on the store in one step.

use vstd::prelude::*;

use crate::credential::{hash_verifies, spec_check_user_password};
use crate::errors::UserError;
use crate::models::{ProjectAdmin, ProjectCollaborator, SessionEntry, UserModel, UserStatus};
use crate::session::{spec_create_session, spec_log_out};
use crate::store::{Store, StoreModel};

verus! {

/// The store after deleting an account: the account is gone, its
/// sessions are invalidated, and both membership relations lose the
/// member. Projects the user administered are not cascade-deleted.
pub open spec fn spec_delete_account(m: StoreModel, uid: i64) -> StoreModel {
    StoreModel {
        users: m.users.filter(|u: UserModel| u.id != uid),
        sessions: m.sessions.filter(|s: SessionEntry| s.user_id != uid),
        admins: m.admins.filter(|a: ProjectAdmin| a.user_id != uid),
        collaborators: m.collaborators.filter(|c: ProjectCollaborator| c.user_id != uid),
        ..m
    }
}

/// Deleting an account leaves the store well-formed, and an account that
/// survives it is still found.
proof fn lemma_delete_account_wf(m: StoreModel, uid: i64)
    requires
        m.wf(),
    ensures
        spec_delete_account(m, uid).wf(),
        forall|t: i64| m.has_user_id(t) && t != uid ==> #[trigger] spec_delete_account(
            m,
            uid,
        ).has_user_id(t),
{
    let d = spec_delete_account(m, uid);
    let up = |u: UserModel| u.id != uid;
    crate::seqs::lemma_filter_preserves_pairwise(
        m.users,
        up,
        |a: UserModel, b: UserModel| a.id != b.id && a.name != b.name,
    );
    crate::seqs::lemma_filter_preserves_all(
        m.users,
        up,
        |u: UserModel| 0 < u.id < m.next_user_id,
    );
    assert forall|t: i64| m.has_user_id(t) && t != uid implies #[trigger] d.has_user_id(t) by {
        let w = choose|i: int| 0 <= i < m.users.len() && (#[trigger] m.users[i]).id == t;
        m.users.lemma_filter_contains(up, w);
        let k = choose|k: int| 0 <= k < d.users.len() && d.users[k] == m.users[w];
        assert((d.users[k]).id == t);
    }
    let sp = |s: SessionEntry| s.user_id != uid;
    crate::seqs::lemma_filter_preserves_pairwise(
        m.sessions,
        sp,
        |a: SessionEntry, b: SessionEntry| a.token != b.token,
    );
    crate::seqs::lemma_filter_preserves_all(
        m.sessions,
        sp,
        |s: SessionEntry| s.token < m.next_token && m.has_user_id(s.user_id),
    );
    assert forall|j: int| 0 <= j < d.sessions.len() implies (#[trigger] d.sessions[j]).token
        < d.next_token && d.has_user_id(d.sessions[j].user_id) by {
        m.sessions.lemma_filter_pred(sp, j);
        assert(m.has_user_id(d.sessions[j].user_id) && d.sessions[j].user_id != uid);
    }
    let ap = |a: ProjectAdmin| a.user_id != uid;
    crate::seqs::lemma_filter_preserves_pairwise(
        m.admins,
        ap,
        |a: ProjectAdmin, b: ProjectAdmin| a != b,
    );
    crate::seqs::lemma_filter_preserves_all(
        m.admins,
        ap,
        |a: ProjectAdmin| m.has_project(a.project_id) && m.has_user_id(a.user_id),
    );
    assert forall|j: int| 0 <= j < d.admins.len() implies d.has_project(
        (#[trigger] d.admins[j]).project_id,
    ) && d.has_user_id(d.admins[j].user_id) by {
        m.admins.lemma_filter_pred(ap, j);
        assert(m.has_user_id(d.admins[j].user_id) && d.admins[j].user_id != uid);
    }
    let cp = |c: ProjectCollaborator| c.user_id != uid;
    crate::seqs::lemma_filter_preserves_pairwise(
        m.collaborators,
        cp,
        |a: ProjectCollaborator, b: ProjectCollaborator| a != b,
    );
    crate::seqs::lemma_filter_preserves_all(
        m.collaborators,
        cp,
        |c: ProjectCollaborator| m.has_project(c.project_id) && m.has_user_id(c.user_id),
    );
    assert forall|j: int| 0 <= j < d.collaborators.len() implies d.has_project(
        (#[trigger] d.collaborators[j]).project_id,
    ) && d.has_user_id(d.collaborators[j].user_id) by {
        m.collaborators.lemma_filter_pred(cp, j);
        assert(m.has_user_id(d.collaborators[j].user_id) && d.collaborators[j].user_id != uid);
    }
    assert(d.users_wf());
    assert(d.sessions_wf());
    assert(d.projects_wf());
    assert(d.memberships_wf());
    assert(d.groups_wf());
}

impl Store {
    /// Sign up: create the account (duplicate names are a conflict) and
    /// renew the caller's session onto the fresh identity. Either the
    /// account and its session both appear, or nothing changes.
    pub fn sign_up(&mut self, prior: Option<u64>, username: &str, password: &str) -> (r: Result<
        u64,
        UserError,
    >)
        requires
            old(self)@.wf(),
        ensures
            final(self)@.wf(),
            r is Err ==> final(self)@ == old(self)@,
            r matches Err(e) ==> (e == UserError::UserAlreadyExists
                <==> old(self)@.user_name_taken(username@))
                && (e == UserError::StorageError <==> !old(self)@.user_name_taken(username@)
                    && (old(self)@.next_user_id == i64::MAX || old(self)@.next_token == u64::MAX))
                && (e == UserError::UserAlreadyExists || e == UserError::StorageError
                    || e == UserError::PasswordHashError),
            r matches Ok(t) ==> !old(self)@.user_name_taken(username@)
                && t == old(self)@.next_token
                && (exists|h: Seq<char>|
                    #[trigger] hash_verifies(h, password@) && final(self)@ == spec_create_session(
                        old(self)@.with_users(
                            old(self)@.users.push(
                                UserModel {
                                    id: old(self)@.next_user_id,
                                    name: username@,
                                    password_hash: h,
                                },
                            ),
                            (old(self)@.next_user_id + 1) as i64,
                        ),
                        prior,
                        old(self)@.next_user_id,
                    ))
                && final(self)@.is_live_token(t)
                && final(self)@.token_user(t) == old(self)@.next_user_id
                && final(self)@.user_name_taken(username@)
                && final(self)@.user_by_name(username@).id == old(self)@.next_user_id,
    {
        let uname: String = username.to_owned();
        if let Option::Some(_) = self.find_user_by_name(&uname) {
            return Result::Err(UserError::UserAlreadyExists);
        }
        if self.next_user_id == i64::MAX || self.next_token == u64::MAX {
            return Result::Err(UserError::StorageError);
        }
        let uid = match self.sign_up_user(username, password) {
            Result::Ok(uid) => uid,
            Result::Err(e) => {
                return Result::Err(e);
            },
        };
        proof {
            assert(self@.has_user_id(uid)) by {
                let h = choose|h: Seq<char>|
                    #[trigger] hash_verifies(h, password@) && self@ == old(self)@.with_users(
                        old(self)@.users.push(
                            UserModel { id: uid, name: username@, password_hash: h },
                        ),
                        (old(self)@.next_user_id + 1) as i64,
                    );
                assert((self@.users[self@.users.len() - 1]).id == uid);
            }
        }
        let ghost mid = self@;
        match self.create_session(prior, uid) {
            Result::Ok(t) => {
                proof {
                    let h = choose|h: Seq<char>|
                        #[trigger] hash_verifies(h, password@) && mid == old(self)@.with_users(
                            old(self)@.users.push(
                                UserModel { id: uid, name: username@, password_hash: h },
                            ),
                            (old(self)@.next_user_id + 1) as i64,
                        );
                    assert(hash_verifies(h, password@) && self@ == spec_create_session(
                        old(self)@.with_users(
                            old(self)@.users.push(
                                UserModel {
                                    id: old(self)@.next_user_id,
                                    name: username@,
                                    password_hash: h,
                                },
                            ),
                            (old(self)@.next_user_id + 1) as i64,
                        ),
                        prior,
                        old(self)@.next_user_id,
                    ));
                    let n = self@.users.len() - 1;
                    assert((self@.users[n]).name == username@);
                    assert(self@.user_by_name(username@).id == uid) by {
                        let w = choose|i: int|
                            0 <= i < self@.users.len() && (#[trigger] self@.users[i]).name
                                == username@;
                        assert(w == n);
                    }
                }
                Result::Ok(t)
            },
            Result::Err(e) => Result::Err(e),
        }
    }

    /// Log in: verify the credentials, then renew the caller's session
    /// onto the verified identity. An unknown name and a wrong password
    /// produce errors that map to the same outward category.
    pub fn log_in(&mut self, prior: Option<u64>, username: &str, password: &str) -> (r: Result<
        u64,
        UserError,
    >)
        requires
            old(self)@.wf(),
        ensures
            final(self)@.wf(),
            r is Err ==> final(self)@ == old(self)@,
            ({
                let chk = spec_check_user_password(old(self)@, username@, password@);
                match chk {
                    Result::Err(ce) => r == Result::<u64, UserError>::Err(ce),
                    Result::Ok(uid) => if old(self)@.next_token == u64::MAX {
                        r == Result::<u64, UserError>::Err(UserError::StorageError)
                    } else {
                        r == Result::<u64, UserError>::Ok(old(self)@.next_token)
                            && final(self)@ == spec_create_session(old(self)@, prior, uid)
                            && final(self)@.is_live_token(old(self)@.next_token)
                            && final(self)@.token_user(old(self)@.next_token) == uid
                    },
                }
            }),
    {
        let uid = match self.check_user_password(username, password) {
            Result::Ok(uid) => uid,
            Result::Err(e) => {
                return Result::Err(e);
            },
        };
        proof {
            assert(self@.has_user_id(uid)) by {
                let w = choose|i: int|
                    0 <= i < self@.users.len() && (#[trigger] self@.users[i]).name == username@;
                assert((self@.users[w]).id == uid);
            }
        }
        self.create_session(prior, uid)
    }

    /// Log out: purge the presented token. Always succeeds; purging an
    /// already-invalid token is not an error, so logging out twice is
    /// harmless.
    pub fn log_out(&mut self, token: Option<u64>)
        requires
            old(self)@.wf(),
        ensures
            final(self)@.wf(),
            final(self)@ == spec_log_out(old(self)@, token),
            final(self)@.caller_of(token) is None,
    {
        match token {
            Option::Some(t) => self.purge(t),
            Option::None => {},
        }
    }

    /// Whether the presented token is a live session. Never fails.
    pub fn session_status(&self, token: Option<u64>) -> (r: UserStatus)
        requires
            self@.wf(),
        ensures
            r.is_logged_in == (self@.caller_of(token) is Some),
    {
        match self.get_user_id(token) {
            Result::Ok(_) => UserStatus { is_logged_in: true },
            Result::Err(_) => UserStatus { is_logged_in: false },
        }
    }

    /// Delete the caller's account: the account row, every session bound
    /// to it, and its rows in both membership relations go in one step.
    /// Projects it administered stay, with one admin fewer.
    pub fn delete_account(&mut self, token: Option<u64>) -> (r: Result<(), UserError>)
        requires
            old(self)@.wf(),
        ensures
            final(self)@.wf(),
            match old(self)@.caller_of(token) {
                Option::None => r == Result::<(), UserError>::Err(UserError::SessionGetError)
                    && final(self)@ == old(self)@,
                Option::Some(uid) => r == Result::<(), UserError>::Ok(()) && final(self)@
                    == spec_delete_account(old(self)@, uid) && !final(self)@.has_user_id(uid),
            },
    {
        broadcast use vstd::prelude::Seq::lemma_filter_push;

        let uid = match self.get_user_id(token) {
            Result::Ok(u) => u,
            Result::Err(e) => {
                return Result::Err(e);
            },
        };
        let ghost up = |u: UserModel| u.id != uid;
        let mut kept_users: Vec<crate::models::User> = Vec::new();
        let mut i: usize = 0;
        while i < self.users.len()
            invariant
                i <= self.users.len(),
                kept_users.deep_view() == self@.users.take(i as int).filter(up),
            decreases self.users.len() - i,
        {
            proof {
                assert(self@.users.take(i + 1).drop_last() =~= self@.users.take(i as int));
                assert(self@.users.take(i + 1) =~= self@.users.take(i as int).push(
                    self.users[i as int]@,
                ));
            }
            if self.users[i].id != uid {
                let u = &self.users[i];
                kept_users.push(
                    crate::models::User {
                        id: u.id,
                        name: u.name.clone(),
                        password_hash: u.password_hash.clone(),
                    },
                );
                proof {
                    assert(kept_users.deep_view() =~= self@.users.take(i + 1).filter(up));
                }
            }
            i = i + 1;
        }
        proof {
            assert(self@.users.take(self@.users.len() as int) =~= self@.users);
        }
        let ghost sp = |s: SessionEntry| s.user_id != uid;
        let mut kept_sessions: Vec<SessionEntry> = Vec::new();
        let mut i: usize = 0;
        while i < self.sessions.len()
            invariant
                i <= self.sessions.len(),
                kept_sessions@ == self.sessions@.take(i as int).filter(sp),
            decreases self.sessions.len() - i,
        {
            let s = self.sessions[i];
            proof {
                assert(self.sessions@.take(i + 1).drop_last() =~= self.sessions@.take(i as int));
                assert(self.sessions@.take(i + 1) =~= self.sessions@.take(i as int).push(s));
            }
            if s.user_id != uid {
                kept_sessions.push(s);
            }
            i = i + 1;
        }
        proof {
            assert(self.sessions@.take(self.sessions@.len() as int) =~= self.sessions@);
        }
        let ghost ap = |a: ProjectAdmin| a.user_id != uid;
        let mut kept_admins: Vec<ProjectAdmin> = Vec::new();
        let mut i: usize = 0;
        while i < self.admins.len()
            invariant
                i <= self.admins.len(),
                kept_admins@ == self.admins@.take(i as int).filter(ap),
            decreases self.admins.len() - i,
        {
            let a = self.admins[i];
            proof {
                assert(self.admins@.take(i + 1).drop_last() =~= self.admins@.take(i as int));
                assert(self.admins@.take(i + 1) =~= self.admins@.take(i as int).push(a));
            }
            if a.user_id != uid {
                kept_admins.push(a);
            }
            i = i + 1;
        }
        proof {
            assert(self.admins@.take(self.admins@.len() as int) =~= self.admins@);
        }
        let ghost cp = |c: ProjectCollaborator| c.user_id != uid;
        let mut kept_collaborators: Vec<ProjectCollaborator> = Vec::new();
        let mut i: usize = 0;
        while i < self.collaborators.len()
            invariant
                i <= self.collaborators.len(),
                kept_collaborators@ == self.collaborators@.take(i as int).filter(cp),
            decreases self.collaborators.len() - i,
        {
            let c = self.collaborators[i];
            proof {
                assert(self.collaborators@.take(i + 1).drop_last() =~= self.collaborators@.take(
                    i as int,
                ));
                assert(self.collaborators@.take(i + 1) =~= self.collaborators@.take(
                    i as int,
                ).push(c));
            }
            if c.user_id != uid {
                kept_collaborators.push(c);
            }
            i = i + 1;
        }
        proof {
            assert(self.collaborators@.take(self.collaborators@.len() as int)
                =~= self.collaborators@);
        }
        self.users = kept_users;
        self.sessions = kept_sessions;
        self.admins = kept_admins;
        self.collaborators = kept_collaborators;
        proof {
            assert(self@ =~= spec_delete_account(old(self)@, uid));
            lemma_delete_account_wf(old(self)@, uid);
            assert(!self@.has_user_id(uid)) by {
                if self@.has_user_id(uid) {
                    let w = choose|k: int|
                        0 <= k < self@.users.len() && (#[trigger] self@.users[k]).id == uid;
                    old(self)@.users.lemma_filter_pred(up, w);
                }
            }
        }
        Result::Ok(())
    }
}

} // verus!
