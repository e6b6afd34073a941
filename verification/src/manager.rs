//! The handle that the serving side of the program holds.

use vstd::prelude::*;

verus! {

/// One family of metrics, as the registry hands it out. Nothing here looks
/// inside it.
#[verifier::external_type_specification]
#[verifier::external_body]
pub struct ExMetricFamily(prometheus::proto::MetricFamily);

/// What the controller shares with those who ask about it.
#[derive(Clone, Copy, Debug)]
pub struct Manager {}

impl Manager {
    /// A new handle.
    pub fn new() -> (manager: Manager)
        ensures
            manager == (Manager {  }),
    {
        Manager {  }
    }

    /// `prometheus::default_registry().gather()`: the metrics that the
    /// process has collected so far in its default registry. What they are
    /// depends on what the process has done, so nothing is claimed of them.
    #[verifier::external_body]
    pub fn metrics(&self) -> (families: Vec<prometheus::proto::MetricFamily>) {
        prometheus::default_registry().gather()
    }
}

} // verus!
