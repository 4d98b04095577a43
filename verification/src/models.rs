//! Plain data carried through the store and the operation surface, together
//! with the mathematical view of each type that contracts speak of.

use vstd::prelude::*;

verus! {

/// Whether non-members may read a project and its groups.
#[derive(Clone, Copy, Debug, PartialEq, Eq, Structural)]
pub enum Visibility {
    Public,
    Private,
}

/// Health-check payload.
#[derive(Debug)]
pub struct Status {
    pub status: String,
}

/// A named group of request templates, owned by one project. A group has
/// no visibility of its own: it inherits its parent project's.
#[derive(Clone, Debug, PartialEq, Eq)]
pub struct CurlGroup {
    pub id: i64,
    pub curls: String,
    pub description: String,
    pub labels: String,
    pub name: String,
    pub project_id: i64,
}

/// Mathematical view of a group.
#[verifier::ext_equal]
pub struct CurlGroupModel {
    pub id: i64,
    pub curls: Seq<char>,
    pub description: Seq<char>,
    pub labels: Seq<char>,
    pub name: Seq<char>,
    pub project_id: i64,
}

impl View for CurlGroup {
    type V = CurlGroupModel;

    open spec fn view(&self) -> CurlGroupModel {
        CurlGroupModel {
            id: self.id,
            curls: self.curls@,
            description: self.description@,
            labels: self.labels@,
            name: self.name@,
            project_id: self.project_id,
        }
    }
}

impl DeepView for CurlGroup {
    type V = CurlGroupModel;

    open spec fn deep_view(&self) -> CurlGroupModel {
        self.view()
    }
}

/// Project metadata as stored and listed.
#[derive(Clone, Debug, PartialEq, Eq)]
pub struct Project {
    pub id: i64,
    pub environments: String,
    pub description: String,
    pub name: String,
    pub visibility: Visibility,
}

/// Mathematical view of a project.
#[verifier::ext_equal]
pub struct ProjectModel {
    pub id: i64,
    pub environments: Seq<char>,
    pub description: Seq<char>,
    pub name: Seq<char>,
    pub visibility: Visibility,
}

impl View for Project {
    type V = ProjectModel;

    open spec fn view(&self) -> ProjectModel {
        ProjectModel {
            id: self.id,
            environments: self.environments@,
            description: self.description@,
            name: self.name@,
            visibility: self.visibility,
        }
    }
}

impl DeepView for Project {
    type V = ProjectModel;

    open spec fn deep_view(&self) -> ProjectModel {
        self.view()
    }
}

/// One row of the collaborator relation.
#[derive(Clone, Copy, Debug, PartialEq, Eq, Structural)]
pub struct ProjectCollaborator {
    pub project_id: i64,
    pub user_id: i64,
}

/// One row of the admin relation.
#[derive(Clone, Copy, Debug, PartialEq, Eq, Structural)]
pub struct ProjectAdmin {
    pub project_id: i64,
    pub user_id: i64,
}

/// An account: unique name, salted memory-hard password hash.
#[derive(Clone, Debug, PartialEq, Eq)]
pub struct User {
    pub id: i64,
    pub name: String,
    pub password_hash: String,
}

/// Mathematical view of an account.
#[verifier::ext_equal]
pub struct UserModel {
    pub id: i64,
    pub name: Seq<char>,
    pub password_hash: Seq<char>,
}

impl View for User {
    type V = UserModel;

    open spec fn view(&self) -> UserModel {
        UserModel { id: self.id, name: self.name@, password_hash: self.password_hash@ }
    }
}

impl DeepView for User {
    type V = UserModel;

    open spec fn deep_view(&self) -> UserModel {
        self.view()
    }
}

/// One live session: an opaque token bound to exactly one user.
#[derive(Clone, Copy, Debug, PartialEq, Eq, Structural)]
pub struct SessionEntry {
    pub token: u64,
    pub user_id: i64,
}

/// Identifier payload returned by project creation.
#[derive(Clone, Copy, Debug, PartialEq, Eq, Structural)]
pub struct ProjectId {
    pub id: i64,
}

/// Search parameters accepted by the project listing surface.
#[derive(Debug)]
pub struct ProjectParams {
    pub search: String,
    pub labels: Vec<String>,
}

/// Session-status payload: whether the presented token is live.
#[derive(Clone, Copy, Debug, PartialEq, Eq, Structural)]
pub struct UserStatus {
    pub is_logged_in: bool,
}

/// The fields a caller supplies when creating or updating a project.
#[derive(Clone, Debug, PartialEq, Eq)]
pub struct ProjectInput {
    pub environments: String,
    pub description: String,
    pub name: String,
    pub visibility: Visibility,
}

/// Mathematical view of a project input.
#[verifier::ext_equal]
pub struct ProjectInputModel {
    pub environments: Seq<char>,
    pub description: Seq<char>,
    pub name: Seq<char>,
    pub visibility: Visibility,
}

impl View for ProjectInput {
    type V = ProjectInputModel;

    open spec fn view(&self) -> ProjectInputModel {
        ProjectInputModel {
            environments: self.environments@,
            description: self.description@,
            name: self.name@,
            visibility: self.visibility,
        }
    }
}

/// The fields a caller supplies when creating or updating a group.
#[derive(Clone, Debug, PartialEq, Eq)]
pub struct GroupInput {
    pub curls: String,
    pub description: String,
    pub labels: String,
    pub name: String,
}

/// Mathematical view of a group input.
#[verifier::ext_equal]
pub struct GroupInputModel {
    pub curls: Seq<char>,
    pub description: Seq<char>,
    pub labels: Seq<char>,
    pub name: Seq<char>,
}

impl View for GroupInput {
    type V = GroupInputModel;

    open spec fn view(&self) -> GroupInputModel {
        GroupInputModel {
            curls: self.curls@,
            description: self.description@,
            labels: self.labels@,
            name: self.name@,
        }
    }
}

/// A project together with its membership lists (as user names) and its
/// groups, as returned by the project read operation.
#[derive(Clone, Debug, PartialEq, Eq)]
pub struct ProjectFull {
    pub info: Project,
    pub admins: Vec<String>,
    pub collaborators: Vec<String>,
    pub groups: Vec<CurlGroup>,
}

} // verus!
