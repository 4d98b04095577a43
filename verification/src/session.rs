//! The session manager: issue, resolve, renew and purge opaque tokens,
//! each bound to exactly one user. Tokens are allocated from a counter,
//! so a fresh token never collides with a live one.

use vstd::prelude::*;

use crate::errors::UserError;
use crate::models::SessionEntry;
use crate::store::{Store, StoreModel};

verus! {

/// The store after purging one token: the session with that token is
/// gone, nothing else moves. Purging a token that is not live changes
/// nothing, so purging is idempotent.
pub open spec fn spec_purge(m: StoreModel, token: u64) -> StoreModel {
    m.with_sessions(m.sessions.filter(|s: SessionEntry| s.token != token), m.next_token)
}

/// The store after a log-out: purge the presented token, if any.
pub open spec fn spec_log_out(m: StoreModel, token: Option<u64>) -> StoreModel {
    match token {
        Option::None => m,
        Option::Some(t) => spec_purge(m, t),
    }
}

/// The store after renewing a session: the prior token (if any) is
/// purged and a fresh token, the value of the token counter, is bound to
/// the user.
pub open spec fn spec_create_session(m: StoreModel, prior: Option<u64>, user_id: i64)
    -> StoreModel {
    let purged = spec_log_out(m, prior);
    purged.with_sessions(
        purged.sessions.push(SessionEntry { token: m.next_token, user_id }),
        (m.next_token + 1) as u64,
    )
}

impl Store {
    /// Resolve the caller's identity from a presented token. Failure is
    /// routine, not exceptional: callers branch on it.
    pub fn get_user_id(&self, token: Option<u64>) -> (r: Result<i64, UserError>)
        requires
            self@.wf(),
        ensures
            r == match self@.caller_of(token) {
                Option::Some(u) => Result::<i64, UserError>::Ok(u),
                Option::None => Result::<i64, UserError>::Err(UserError::SessionGetError),
            },
    {
        match token {
            Option::None => Result::Err(UserError::SessionGetError),
            Option::Some(t) => match self.find_session(t) {
                Option::Some(i) => Result::Ok(self.sessions[i].user_id),
                Option::None => Result::Err(UserError::SessionGetError),
            },
        }
    }

    /// Issue a fresh token bound to an existing user.
    pub fn issue(&mut self, user_id: i64) -> (r: Result<u64, UserError>)
        requires
            old(self)@.wf(),
            old(self)@.has_user_id(user_id),
        ensures
            final(self)@.wf(),
            r is Err ==> final(self)@ == old(self)@ && r == Result::<u64, UserError>::Err(
                UserError::StorageError,
            ) && old(self)@.next_token == u64::MAX,
            old(self)@.next_token < u64::MAX ==> r is Ok,
            r matches Ok(t) ==> t == old(self)@.next_token && final(self)@ == old(
                self,
            )@.with_sessions(
                old(self)@.sessions.push(SessionEntry { token: t, user_id }),
                (old(self)@.next_token + 1) as u64,
            ) && final(self)@.is_live_token(t) && final(self)@.token_user(t) == user_id,
    {
        if self.next_token == u64::MAX {
            return Result::Err(UserError::StorageError);
        }
        let t = self.next_token;
        self.sessions.push(SessionEntry { token: t, user_id });
        self.next_token = t + 1;
        proof {
            assert(self@.sessions =~= old(self)@.sessions.push(
                SessionEntry { token: t, user_id },
            ));
            assert(self@ =~= old(self)@.with_sessions(
                self@.sessions,
                (old(self)@.next_token + 1) as u64,
            ));
            let n = self@.sessions.len() - 1;
            assert((self@.sessions[n]).token == t);
            assert(self@.users == old(self)@.users);
            assert forall|i: int, j: int| 0 <= i < j < self@.sessions.len() implies (
            #[trigger] self@.sessions[i]).token != (#[trigger] self@.sessions[j]).token by {
                assert(self@.sessions[i] == old(self)@.sessions[i]);
                if j < n {
                    assert(self@.sessions[j] == old(self)@.sessions[j]);
                }
            }
            assert(self@.token_user(t) == user_id) by {
                let w = choose|i: int|
                    0 <= i < self@.sessions.len() && (#[trigger] self@.sessions[i]).token == t;
                assert(w == n);
            }
            assert(self@.wf());
        }
        Result::Ok(t)
    }

    /// Invalidate a token. Purging a token that is not (or no longer)
    /// live is not an error.
    pub fn purge(&mut self, token: u64)
        requires
            old(self)@.wf(),
        ensures
            final(self)@.wf(),
            final(self)@ == spec_purge(old(self)@, token),
            !final(self)@.is_live_token(token),
    {
        broadcast use vstd::prelude::Seq::lemma_filter_push;

        let ghost pred = |s: SessionEntry| s.token != token;
        let mut kept: Vec<SessionEntry> = Vec::new();
        let mut i: usize = 0;
        while i < self.sessions.len()
            invariant
                i <= self.sessions.len(),
                kept@ == self.sessions@.take(i as int).filter(pred),
            decreases self.sessions.len() - i,
        {
            let s = self.sessions[i];
            proof {
                assert(self.sessions@.take(i + 1).drop_last() =~= self.sessions@.take(i as int));
                assert(self.sessions@.take(i + 1) =~= self.sessions@.take(i as int).push(s));
            }
            if s.token != token {
                kept.push(s);
            }
            i = i + 1;
        }
        proof {
            assert(self.sessions@.take(self.sessions@.len() as int) =~= self.sessions@);
        }
        self.sessions = kept;
        proof {
            assert(self@ =~= spec_purge(old(self)@, token));
            let m = old(self)@;
            crate::seqs::lemma_filter_preserves_pairwise(
                m.sessions,
                pred,
                |a: SessionEntry, b: SessionEntry| a.token != b.token,
            );
            crate::seqs::lemma_filter_preserves_all(
                m.sessions,
                pred,
                |s: SessionEntry| s.token < m.next_token && m.has_user_id(s.user_id),
            );
            assert forall|j: int| 0 <= j < self@.sessions.len() implies (
            #[trigger] self@.sessions[j]).token < self@.next_token && self@.has_user_id(
                self@.sessions[j].user_id,
            ) by {
                assert(m.has_user_id(self@.sessions[j].user_id));
                let w = choose|k: int|
                    0 <= k < m.users.len() && (#[trigger] m.users[k]).id
                        == self@.sessions[j].user_id;
                assert(self@.users[w].id == self@.sessions[j].user_id);
            }
            assert(self@.wf());
            assert(!self@.is_live_token(token)) by {
                if self@.is_live_token(token) {
                    let w = choose|k: int|
                        0 <= k < self@.sessions.len() && (#[trigger] self@.sessions[k]).token
                            == token;
                    m.sessions.lemma_filter_pred(pred, w);
                }
            }
        }
    }

    /// Renew the caller's session: purge the prior token (log-in and
    /// sign-up always renew rather than append) and issue a fresh one.
    /// Either both happen or, when no token can be allocated, neither.
    pub fn create_session(&mut self, prior: Option<u64>, user_id: i64) -> (r: Result<
        u64,
        UserError,
    >)
        requires
            old(self)@.wf(),
            old(self)@.has_user_id(user_id),
        ensures
            final(self)@.wf(),
            r is Err ==> final(self)@ == old(self)@ && r == Result::<u64, UserError>::Err(
                UserError::StorageError,
            ) && old(self)@.next_token == u64::MAX,
            old(self)@.next_token < u64::MAX ==> r is Ok,
            r matches Ok(t) ==> t == old(self)@.next_token && final(self)@ == spec_create_session(
                old(self)@,
                prior,
                user_id,
            ) && final(self)@.is_live_token(t) && final(self)@.token_user(t) == user_id,
    {
        if self.next_token == u64::MAX {
            return Result::Err(UserError::StorageError);
        }
        match prior {
            Option::Some(t) => self.purge(t),
            Option::None => {},
        }
        self.issue(user_id)
    }
}

} // verus!
