//! A controller core that keeps each `Job` converged with one pod of its own.
//!
//! The library holds the decisions: which pods a job owns, whether one of
//! them already runs the wanted container, which pods to delete and which
//! pod to create, and when to try again after a failure. The calls to the
//! cluster are made by the program around it, which reports each outcome
//! back to the [`reconciler`].

pub mod convergence;
pub mod error;
pub mod manager;
pub mod naming;
pub mod plan;
pub mod policy;
pub mod reconciler;
pub mod resource;

pub use error::{ClusterError, Error};
pub use manager::Manager;
pub use policy::{error_policy, ReconcilerAction};
pub use reconciler::reconcile;
pub use resource::{Container, Job, JobSpec, ObjectMeta, OwnerReference, Pod, PodSpec};
