//! What can go wrong in the engine, and how a failure is told to a caller.

use vstd::prelude::*;

verus! {

/// A failure of the engine, with the reason in words.
#[derive(Clone, Debug, PartialEq, Eq)]
pub enum EngineError {
    /// The mosaic or the camera asked for does not exist.
    NotFound(String),
    /// The request does not fit the activation state: a start of what is
    /// active, a stop of what is not.
    Conflict(String),
    /// The record cannot be worked with as it is: a mosaic without members,
    /// a request that lacks what it needs.
    InvalidState(String),
    /// A rule of access refuses the request: the record belongs to the
    /// system, a share link is off, over, or outside its hours.
    Forbidden(String),
    /// The external transcoder could not be started or failed.
    InvocationFailed(String),
    /// Storage could not be read or written.
    IoFailed(String),
}

/// A failure as mathematical values.
pub enum Failure {
    NotFound(Seq<char>),
    Conflict(Seq<char>),
    InvalidState(Seq<char>),
    Forbidden(Seq<char>),
    InvocationFailed(Seq<char>),
    IoFailed(Seq<char>),
}

impl Failure {
    /// The reason in words.
    pub open spec fn message(self) -> Seq<char> {
        match self {
            Failure::NotFound(m) => m,
            Failure::Conflict(m) => m,
            Failure::InvalidState(m) => m,
            Failure::Forbidden(m) => m,
            Failure::InvocationFailed(m) => m,
            Failure::IoFailed(m) => m,
        }
    }

    /// The HTTP status under which the failure is reported.
    pub open spec fn status(self) -> u16 {
        match self {
            Failure::NotFound(_) => 404,
            Failure::Conflict(_) => 409,
            Failure::InvalidState(_) => 400,
            Failure::Forbidden(_) => 403,
            Failure::InvocationFailed(_) => 500,
            Failure::IoFailed(_) => 500,
        }
    }
}

impl View for EngineError {
    type V = Failure;

    open spec fn view(&self) -> Failure {
        match self {
            EngineError::NotFound(m) => Failure::NotFound(m@),
            EngineError::Conflict(m) => Failure::Conflict(m@),
            EngineError::InvalidState(m) => Failure::InvalidState(m@),
            EngineError::Forbidden(m) => Failure::Forbidden(m@),
            EngineError::InvocationFailed(m) => Failure::InvocationFailed(m@),
            EngineError::IoFailed(m) => Failure::IoFailed(m@),
        }
    }
}

impl EngineError {
    /// A failure to find something, with the reason `message`.
    pub fn not_found(message: &str) -> (e: EngineError)
        ensures
            e@ == Failure::NotFound(message@),
    {
        EngineError::NotFound(String::from_str(message))
    }

    /// A conflict with the activation state, with the reason `message`.
    pub fn conflict(message: &str) -> (e: EngineError)
        ensures
            e@ == Failure::Conflict(message@),
    {
        EngineError::Conflict(String::from_str(message))
    }

    /// A record that cannot be worked with, with the reason `message`.
    pub fn invalid_state(message: &str) -> (e: EngineError)
        ensures
            e@ == Failure::InvalidState(message@),
    {
        EngineError::InvalidState(String::from_str(message))
    }

    /// A refusal by a rule of access, with the reason `message`.
    pub fn forbidden(message: &str) -> (e: EngineError)
        ensures
            e@ == Failure::Forbidden(message@),
    {
        EngineError::Forbidden(String::from_str(message))
    }

    /// A failure of the external transcoder, with the reason `message`.
    pub fn invocation_failed(message: &str) -> (e: EngineError)
        ensures
            e@ == Failure::InvocationFailed(message@),
    {
        EngineError::InvocationFailed(String::from_str(message))
    }

    /// A failure of storage, with the reason `message`.
    pub fn io_failed(message: &str) -> (e: EngineError)
        ensures
            e@ == Failure::IoFailed(message@),
    {
        EngineError::IoFailed(String::from_str(message))
    }

    /// The reason in words.
    pub fn message(&self) -> (m: &str)
        ensures
            m@ == self@.message(),
    {
        match self {
            EngineError::NotFound(m) => m.as_str(),
            EngineError::Conflict(m) => m.as_str(),
            EngineError::InvalidState(m) => m.as_str(),
            EngineError::Forbidden(m) => m.as_str(),
            EngineError::InvocationFailed(m) => m.as_str(),
            EngineError::IoFailed(m) => m.as_str(),
        }
    }

    /// The HTTP status under which the failure is reported: 404 for what
    /// does not exist, 409 for a conflict, 400 for an invalid state, 403 for
    /// what a rule of access refuses, 500 for the rest.
    pub fn status(&self) -> (code: u16)
        ensures
            code == self@.status(),
    {
        match self {
            EngineError::NotFound(_) => 404,
            EngineError::Conflict(_) => 409,
            EngineError::InvalidState(_) => 400,
            EngineError::Forbidden(_) => 403,
            EngineError::InvocationFailed(_) => 500,
            EngineError::IoFailed(_) => 500,
        }
    }
}

} // verus!
