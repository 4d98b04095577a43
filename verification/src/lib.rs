//! Authorization-and-session core of a project-sharing backend.
//!
//! Projects hold named groups of HTTP-request templates and are either
//! Public (readable by anyone) or Private (readable only by their admins
//! and collaborators). This crate models the durable store as plain data,
//! turns credentials into session tokens, resolves a permission tier for
//! every (caller, project) pair, and enforces that tier across every
//! resource operation, including cascading deletes and membership
//! reconciliation.
#![verifier::loop_isolation(false)]

use vstd::prelude::*;

pub mod auth;
pub mod credential;
pub mod errors;
pub mod groups;
pub mod laws;
pub mod models;
pub mod projects;
pub mod session;
pub mod seqs;
pub mod store;
pub mod users;
