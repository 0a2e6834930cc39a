//! Errors surfaced to callers.

use vstd::prelude::*;

verus! {

/// The kinds of failure a command can end in.
#[derive(Clone, Copy, Debug, PartialEq, Eq, Structural)]
pub enum RedisErrorKind {
    /// The transport failed: a connection was refused, reset or closed.
    Io,
    /// A frame was malformed.
    Protocol,
    /// The server redirected the command to another node.
    Redirect,
    /// The cluster cannot serve the command right now.
    ClusterUnavailable,
    /// The caller's deadline passed.
    Timeout,
    /// The caller dropped interest in the result.
    Canceled,
    /// An argument was unusable, such as keys that belong to different nodes.
    InvalidArgument,
    /// The server rejected the credentials.
    Auth,
    /// A reply could not be read as the requested type.
    Parse,
    /// Anything else.
    Unknown,
}

/// An error with its kind and a short description.
#[derive(Debug)]
pub struct RedisError {
    kind: RedisErrorKind,
    details: String,
}

impl RedisError {
    /// The kind this error was made with.
    pub closed spec fn spec_kind(&self) -> RedisErrorKind {
        self.kind
    }

    /// The description this error was made with.
    pub closed spec fn spec_details(&self) -> Seq<char> {
        self.details@
    }

    /// An error of the given kind.
    pub fn new(kind: RedisErrorKind, details: &str) -> (e: Self)
        ensures
            e.spec_kind() == kind,
            e.spec_details() == details@,
    {
        RedisError { kind, details: details.to_owned() }
    }

    /// A `Parse` error.
    pub fn new_parse(details: &str) -> (e: Self)
        ensures
            e.spec_kind() == RedisErrorKind::Parse,
            e.spec_details() == details@,
    {
        RedisError::new(RedisErrorKind::Parse, details)
    }

    /// The kind of failure.
    #[verifier::when_used_as_spec(spec_kind)]
    pub fn kind(&self) -> (k: RedisErrorKind)
        ensures
            k == self.spec_kind(),
    {
        self.kind
    }

    /// The description.
    pub fn details(&self) -> (d: &str)
        ensures
            d@ == self.spec_details(),
    {
        self.details.as_str()
    }
}

} // verus!
