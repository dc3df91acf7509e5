//! Verified core of a bottle manager for Windows-compatibility runtimes:
//! a record store for provisioned environments ("bottles"), a registry of
//! installed runtimes with deterministic selection, a recipe engine that
//! provisions a bottle step by step, and the daemon dispatch logic in
//! front of them. Transport, filesystem and process launching live in the
//! unverified shell around this library; the library models their outcomes
//! as plain values.

pub mod catalog;
pub mod engine;
pub mod env;
pub mod locator;
pub mod manager;
pub mod name;
pub mod recipes;
pub mod rpc;
pub mod runtime;
pub mod service;
pub mod store;
pub mod text;
pub mod value;

use vstd::prelude::*;

verus! {

/// The error taxonomy shared by every component: a missing bottle, recipe
/// or companion tool; malformed input; a filesystem operation that failed;
/// an external process that could not start.
#[derive(Debug, Clone, PartialEq, Eq)]
pub enum AlloyError {
    NotFound(String),
    InvalidInput(String),
    Io(String),
    LaunchFailure(String),
    NonFatalExit(String),
}

impl AlloyError {
    /// A human-readable rendering of the error kind and its context.
    pub fn message(&self) -> (r: &String)
        ensures
            r == match self {
                AlloyError::NotFound(m) => m,
                AlloyError::InvalidInput(m) => m,
                AlloyError::Io(m) => m,
                AlloyError::LaunchFailure(m) => m,
                AlloyError::NonFatalExit(m) => m,
            },
    {
        match self {
            AlloyError::NotFound(m) => m,
            AlloyError::InvalidInput(m) => m,
            AlloyError::Io(m) => m,
            AlloyError::LaunchFailure(m) => m,
            AlloyError::NonFatalExit(m) => m,
        }
    }
}

} // verus!
