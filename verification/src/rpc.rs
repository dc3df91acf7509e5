//! The request and response shapes of both wire protocols: the typed
//! command envelope of the name-keyed stack and the method-and-params
//! envelope of the identifier-keyed daemon. Serializing them to and from
//! wire text is the shell's work; the shapes and their constructors are
//! decided here.

use vstd::prelude::*;

use crate::value::DocValue;

verus! {

/// One typed command of the name-keyed protocol.
#[derive(Debug)]
pub enum DaemonCommand {
    Create { name: String },
    List,
    Run {
        name: String,
        executable: String,
        args: Vec<String>,
        env: Option<Vec<(String, String)>>,
    },
    Destroy { name: String },
    Ping,
    ListRecipes,
    ApplyRecipe { bottle: String, recipe: String },
}

/// A command together with the request identifier its reply must carry.
#[derive(Debug)]
pub struct DaemonRequest {
    pub id: String,
    pub command: DaemonCommand,
}

/// Whether a request succeeded, and if not, why.
#[derive(Debug)]
pub enum DaemonStatus {
    Success,
    Error { message: String },
}

/// The reply to one request: its identifier, the status, and an optional
/// result payload.
#[derive(Debug)]
pub struct DaemonResponse {
    pub id: String,
    pub status: DaemonStatus,
    pub result: Option<DocValue>,
}

impl DaemonResponse {
    /// A successful reply carrying a result.
    pub fn ok(id: String, result: DocValue) -> (r: Self)
        ensures
            r.id@ == id@,
            r.status is Success,
            r.result == Some(result),
    {
        DaemonResponse { id, status: DaemonStatus::Success, result: Some(result) }
    }

    /// A successful reply with nothing to say.
    pub fn empty(id: String) -> (r: Self)
        ensures
            r.id@ == id@,
            r.status is Success,
            r.result is None,
    {
        DaemonResponse { id, status: DaemonStatus::Success, result: None }
    }

    /// A failed reply carrying the error's message.
    pub fn error(id: String, message: String) -> (r: Self)
        ensures
            r.id@ == id@,
            r.status matches DaemonStatus::Error { message: m } && m@ == message@,
            r.result is None,
    {
        DaemonResponse { id, status: DaemonStatus::Error { message }, result: None }
    }
}

/// One request of the method-and-params protocol; the identifier is
/// echoed back opaquely.
#[derive(Debug)]
pub struct RpcRequest {
    pub id: Option<DocValue>,
    pub method: String,
    pub params: DocValue,
}

/// The error half of a reply.
#[derive(Debug)]
pub struct RpcError {
    pub code: i32,
    pub message: String,
}

/// The reply to one request: the echoed identifier and either a result or
/// an error, never both.
#[derive(Debug)]
pub struct RpcResponse {
    pub id: Option<DocValue>,
    pub result: Option<DocValue>,
    pub error: Option<RpcError>,
}

impl RpcResponse {
    /// A successful reply carrying a value.
    pub fn result(id: Option<DocValue>, value: DocValue) -> (r: Self)
        ensures
            r.id == id,
            r.result == Some(value),
            r.error is None,
    {
        RpcResponse { id, result: Some(value), error: None }
    }

    /// A failed reply carrying a code and message.
    pub fn error(id: Option<DocValue>, code: i32, message: String) -> (r: Self)
        ensures
            r.id == id,
            r.result is None,
            r.error matches Some(e) && e.code == code && e.message@ == message@,
    {
        RpcResponse { id, result: None, error: Some(RpcError { code, message }) }
    }
}

} // verus!
