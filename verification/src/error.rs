//! What can go wrong while a job is reconciled.

use vstd::prelude::*;

verus! {

/// The status code with which the cluster reports that something is absent.
pub const NOT_FOUND: u16 = 404;

/// A failed call to the cluster.
#[derive(Clone, Debug, PartialEq, Eq)]
pub enum ClusterError {
    /// The cluster answered, with a status code and a message.
    Api { code: u16, message: String },
    /// Anything else: the call did not get through, or its answer could not
    /// be read.
    Other { message: String },
}

impl ClusterError {
    /// The cluster answered that what was asked for does not exist.
    pub open spec fn spec_is_not_found(&self) -> bool {
        match *self {
            ClusterError::Api { code, .. } => code == NOT_FOUND,
            ClusterError::Other { .. } => false,
        }
    }

    #[verifier::when_used_as_spec(spec_is_not_found)]
    pub fn is_not_found(&self) -> (r: bool)
        ensures
            r == self.spec_is_not_found(),
    {
        match self {
            ClusterError::Api { code, .. } => *code == NOT_FOUND,
            ClusterError::Other { .. } => false,
        }
    }
}

/// Why a reconciliation failed.
#[derive(Clone, Debug, PartialEq, Eq)]
pub enum Error {
    /// A call to the cluster failed.
    KubeError(ClusterError),
    /// An object lacks a part of its identity; `name` is the path of that
    /// part within the object.
    MissingObjectKey { name: &'static str },
}

} // verus!
