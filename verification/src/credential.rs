//! The credential store: account creation and password verification.
//! The hashing primitive is argon2, an opaque one-way capability; what
//! the contracts know of it is the name `hash_verifies`.

use vstd::prelude::*;

use argon2::password_hash::{phc::PasswordHash, PasswordHasher, PasswordVerifier};
use argon2::Argon2;

use crate::errors::UserError;
use crate::models::{User, UserModel};
use crate::store::{Store, StoreModel};

verus! {

/// Whether the PHC hash string `hash` verifies against `password`.
/// Parsing and re-computing the hash are deterministic in these two
/// arguments alone, so the outcome deserves a name; nothing else is
/// assumed of it.
pub uninterp spec fn hash_verifies(hash: Seq<char>, password: Seq<char>) -> bool;

/// Relies on argon2's `PasswordHash::new` and
/// `PasswordVerifier::verify_password`: parse the stored PHC string and
/// recompute the hash with its parameters. Both are deterministic in the
/// hash string and the password; a string that does not parse verifies
/// nothing.
#[verifier::external_body]
fn verify_password_hash(hash: &str, password: &str) -> (r: bool)
    ensures
        r == hash_verifies(hash@, password@),
{
    match PasswordHash::new(hash) {
        Ok(parsed) => Argon2::default().verify_password(password.as_bytes(), &parsed).is_ok(),
        Err(_) => false,
    }
}

/// Relies on argon2's `PasswordHasher::hash_password`: it hashes with a
/// fresh random salt and default parameters, and the PHC string it
/// returns verifies against the password it was computed from. The salt
/// is random, so no two calls are tied to each other.
#[verifier::external_body]
fn hash_password_phc(password: &str) -> (r: Option<String>)
    ensures
        r matches Some(h) ==> hash_verifies(h@, password@),
{
    match Argon2::default().hash_password(password.as_bytes()) {
        Ok(h) => Some(h.to_string()),
        Err(_) => None,
    }
}

/// What verifying a (name, password) pair against the store returns:
/// an unknown name and a non-verifying password are distinguished
/// internally, but map to one outward category (see `errors`).
pub open spec fn spec_check_user_password(m: StoreModel, name: Seq<char>, password: Seq<char>)
    -> Result<i64, UserError> {
    if !m.user_name_taken(name) {
        Result::Err(UserError::UserNotFound)
    } else if !hash_verifies(m.user_by_name(name).password_hash, password) {
        Result::Err(UserError::InvalidPassword)
    } else {
        Result::Ok(m.user_by_name(name).id)
    }
}

impl Store {
    /// Verify a password against the stored hash of the named account.
    pub fn check_user_password(&self, username: &str, password: &str) -> (r: Result<
        i64,
        UserError,
    >)
        requires
            self@.wf(),
        ensures
            r == spec_check_user_password(self@, username@, password@),
    {
        let uname: String = username.to_owned();
        match self.find_user_by_name(&uname) {
            Option::None => Result::Err(UserError::UserNotFound),
            Option::Some(i) => {
                if verify_password_hash(self.users[i].password_hash.as_str(), password) {
                    Result::Ok(self.users[i].id)
                } else {
                    Result::Err(UserError::InvalidPassword)
                }
            },
        }
    }

    /// Create an account: fail on a duplicate name (the uniqueness
    /// constraint is what is surfaced, there is no pre-check race),
    /// otherwise hash the password and persist the account under a fresh
    /// id.
    pub fn sign_up_user(&mut self, username: &str, password: &str) -> (r: Result<i64, UserError>)
        requires
            old(self)@.wf(),
        ensures
            final(self)@.wf(),
            r is Err ==> final(self)@ == old(self)@,
            r matches Err(e) ==> (e == UserError::UserAlreadyExists <==> old(
                self,
            )@.user_name_taken(username@)) && (e == UserError::StorageError <==> !old(
                self,
            )@.user_name_taken(username@) && old(self)@.next_user_id == i64::MAX) && (e
                == UserError::UserAlreadyExists || e == UserError::StorageError || e
                == UserError::PasswordHashError),
            r matches Ok(uid) ==> !old(self)@.user_name_taken(username@) && old(self)@.next_user_id
                < i64::MAX && uid == old(self)@.next_user_id && (exists|h: Seq<char>|
                #[trigger] hash_verifies(h, password@) && final(self)@ == old(
                    self,
                )@.with_users(
                    old(self)@.users.push(
                        UserModel { id: uid, name: username@, password_hash: h },
                    ),
                    (old(self)@.next_user_id + 1) as i64,
                )),
    {
        let uname: String = username.to_owned();
        if let Option::Some(_) = self.find_user_by_name(&uname) {
            return Result::Err(UserError::UserAlreadyExists);
        }
        if self.next_user_id == i64::MAX {
            return Result::Err(UserError::StorageError);
        }
        match hash_password_phc(password) {
            Option::None => Result::Err(UserError::PasswordHashError),
            Option::Some(h) => {
                let uid = self.next_user_id;
                let ghost hview = h@;
                self.users.push(User { id: uid, name: uname, password_hash: h });
                self.next_user_id = uid + 1;
                proof {
                    let um = UserModel { id: uid, name: username@, password_hash: hview };
                    assert(self@.users =~= old(self)@.users.push(um));
                    assert(self@ =~= old(self)@.with_users(
                        old(self)@.users.push(um),
                        (old(self)@.next_user_id + 1) as i64,
                    ));
                    assert forall|t: i64| old(self)@.has_user_id(t) implies self@.has_user_id(
                        t,
                    ) by {
                        let w = choose|i: int|
                            0 <= i < old(self)@.users.len() && (#[trigger] old(
                                self,
                            )@.users[i]).id == t;
                        assert(self@.users[w].id == t);
                    }
                    assert(self@.wf());
                }
                Result::Ok(uid)
            },
        }
    }
}

} // verus!
