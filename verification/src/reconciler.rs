//! One reconciliation of a job, as a sequence of steps. Each step names the
//! next call to the cluster; the caller makes the call and reports how it
//! went.

use crate::error::{ClusterError, Error};
use crate::naming::{is_tmp_pod_name, lemma_some_tmp_pod_name};
use crate::plan::{
    is_plan, mutations_view, owned_complete, plan, plan_for, plan_named, Mutation, MutationView,
};
use crate::policy::ReconcilerAction;
use crate::resource::{pods_view, Job, JobView, Pod, PodView};
use vstd::prelude::*;

verus! {

/// The pods to go by after a listing that ended with `outcome`: the pods
/// listed; none where the cluster says that there is nothing to list; and
/// for any other failure the error.
pub open spec fn observed(outcome: Result<Seq<PodView>, ClusterError>) -> Result<Seq<PodView>, Error> {
    match outcome {
        Ok(pods) => Ok(pods),
        Err(e) => if e.is_not_found() {
            Ok(Seq::empty())
        } else {
            Err(Error::KubeError(e))
        },
    }
}

/// The view of the outcome of a listing.
pub open spec fn listing_view(outcome: Result<Vec<Pod>, ClusterError>) -> Result<Seq<PodView>, ClusterError> {
    match outcome {
        Ok(pods) => Ok(pods_view(pods@)),
        Err(e) => Err(e),
    }
}

/// Sorts out how a listing ended.
pub fn observe(outcome: Result<Vec<Pod>, ClusterError>) -> (r: Result<Vec<Pod>, Error>)
    ensures
        match observed(listing_view(outcome)) {
            Ok(pods) => r is Ok && pods_view(r->Ok_0@) == pods,
            Err(e) => r == Err::<Vec<Pod>, Error>(e),
        },
{
    match outcome {
        Ok(pods) => Ok(pods),
        Err(e) => {
            if e.is_not_found() {
                let none: Vec<Pod> = Vec::new();
                assert(pods_view(none@) =~= Seq::empty());
                Ok(none)
            } else {
                Err(Error::KubeError(e))
            }
        },
    }
}

/// A reconciliation that waits for the pods of the job's namespace.
pub struct Listing {
    pub job: Job,
    pub namespace: String,
}

/// A reconciliation that waits for the first of its pending changes to be
/// made.
pub struct Applying {
    changes: Vec<Mutation>,
    next: usize,
}

/// Where a reconciliation stands after a step.
pub enum Step {
    /// A change is to be made.
    Apply(Applying),
    /// The reconciliation is over.
    Done(Result<ReconcilerAction, Error>),
}

pub enum StepView {
    Apply(Seq<MutationView>),
    Done(Result<ReconcilerAction, Error>),
}

impl View for Step {
    type V = StepView;

    open spec fn view(&self) -> StepView {
        match *self {
            Step::Apply(applying) => StepView::Apply(applying.pending()),
            Step::Done(result) => StepView::Done(result),
        }
    }
}

/// The step that is left with the changes `pending`: the end, without a
/// requeue, where there are none.
pub open spec fn step_with(pending: Seq<MutationView>) -> StepView {
    if pending.len() == 0 {
        StepView::Done(Ok(ReconcilerAction { requeue_after: None }))
    } else {
        StepView::Apply(pending)
    }
}

/// The step that a plan starts with.
pub open spec fn step_from(plan: Result<Seq<MutationView>, Error>) -> StepView {
    match plan {
        Ok(changes) => step_with(changes),
        Err(e) => StepView::Done(Err(e)),
    }
}

/// The step after a listing of the pods of the namespace of `job` that
/// ended with `outcome`, where a new pod would get the name `pod_name`.
pub open spec fn after_listed(
    job: JobView,
    outcome: Result<Seq<PodView>, ClusterError>,
    pod_name: Seq<char>,
) -> StepView {
    match observed(outcome) {
        Ok(pods) => step_from(plan_for(job, pods, pod_name)),
        Err(e) => StepView::Done(Err(e)),
    }
}

/// `step` is the step after the listing for some generated name of the new
/// pod. Which name it is stays open: it is drawn at random.
pub open spec fn follows_listing(
    step: StepView,
    job: JobView,
    outcome: Result<Seq<PodView>, ClusterError>,
) -> bool {
    exists|pod_name: Seq<char>|
        {
            &&& job.metadata.name is Some ==> is_tmp_pod_name(pod_name, job.metadata.name->0)
            &&& step == #[trigger] after_listed(job, outcome, pod_name)
        }
}

/// The step after the first of `pending` was tried and ended with
/// `outcome`: on to the rest where it was made, and the end of the
/// reconciliation where it failed.
pub open spec fn after_applied(pending: Seq<MutationView>, outcome: Result<(), ClusterError>) -> StepView {
    match outcome {
        Ok(_) => step_with(pending.skip(1)),
        Err(e) => StepView::Done(Err(Error::KubeError(e))),
    }
}

/// The step reached from `step` when the changes asked for, one after the
/// other, end with `outcomes`. Outcomes past the end of the reconciliation
/// are not looked at: no change is asked for after it.
pub open spec fn run(step: StepView, outcomes: Seq<Result<(), ClusterError>>) -> StepView
    decreases outcomes.len(),
{
    if outcomes.len() == 0 {
        step
    } else {
        match step {
            StepView::Apply(pending) => run(after_applied(pending, outcomes[0]), outcomes.skip(1)),
            StepView::Done(_) => step,
        }
    }
}

/// Starts the reconciliation of `job`: the pods of its namespace are to be
/// listed.
pub fn reconcile(job: Job) -> (listing: Listing)
    requires
        job.metadata.namespace is Some,
    ensures
        listing.job == job,
        listing.namespace == job.metadata.namespace->0,
{
    let namespace = match &job.metadata.namespace {
        Some(ns) => ns.clone(),
        None => String::new(),
    };
    Listing { job, namespace }
}

/// Turns a plan into the first step of carrying it out.
pub fn start(plan: Result<Vec<Mutation>, Error>) -> (step: Step)
    ensures
        step@ == match plan {
            Ok(changes) => step_with(mutations_view(changes@)),
            Err(e) => StepView::Done(Err(e)),
        },
{
    match plan {
        Err(e) => Step::Done(Err(e)),
        Ok(changes) => {
            if changes.len() == 0 {
                Step::Done(Ok(ReconcilerAction { requeue_after: None }))
            } else {
                assert(mutations_view(changes@).skip(0) =~= mutations_view(changes@));
                Step::Apply(Applying { changes, next: 0 })
            }
        },
    }
}

impl Listing {
    /// Takes the outcome of the listing and decides what to change, with the
    /// new pod, if one is needed, under the name `pod_name`.
    pub fn listed_named(self, outcome: Result<Vec<Pod>, ClusterError>, pod_name: String) -> (step: Step)
        requires
            outcome is Ok ==> owned_complete(pods_view(outcome->Ok_0@), self.job@),
        ensures
            step@ == after_listed(self.job@, listing_view(outcome), pod_name@),
    {
        match observe(outcome) {
            Err(e) => Step::Done(Err(e)),
            Ok(pods) => start(plan_named(self.job, &pods, pod_name)),
        }
    }

    /// Takes the outcome of the listing and decides what to change, with the
    /// new pod, if one is needed, under a fresh name made from the job's
    /// name.
    pub fn listed(self, outcome: Result<Vec<Pod>, ClusterError>) -> (step: Step)
        requires
            outcome is Ok ==> owned_complete(pods_view(outcome->Ok_0@), self.job@),
        ensures
            follows_listing(step@, self.job@, listing_view(outcome)),
    {
        let ghost job = self.job@;
        match observe(outcome) {
            Err(e) => {
                let step = Step::Done(Err(e));
                proof {
                    let any_name = if job.metadata.name is Some {
                        lemma_some_tmp_pod_name(job.metadata.name->0)
                    } else {
                        Seq::empty()
                    };
                    assert(step@ == after_listed(job, listing_view(outcome), any_name));
                }
                step
            },
            Ok(pods) => {
                let changes = plan(self.job, &pods);
                let step = start(changes);
                proof {
                    let pod_name = choose|pod_name: Seq<char>|
                        {
                            &&& job.metadata.name is Some ==> is_tmp_pod_name(pod_name, job.metadata.name->0)
                            &&& #[trigger] is_plan(changes, plan_for(job, pods_view(pods@), pod_name))
                        };
                    assert(step@ == after_listed(job, listing_view(outcome), pod_name));
                }
                step
            },
        }
    }
}

impl Applying {
    #[verifier::type_invariant]
    spec fn in_range(&self) -> bool {
        self.next < self.changes@.len()
    }

    /// The changes that are still to be made, the next one first.
    pub closed spec fn pending(&self) -> Seq<MutationView> {
        mutations_view(self.changes@).skip(self.next as int)
    }

    /// The change to make now.
    pub fn mutation(&self) -> (m: &Mutation)
        ensures
            self.pending().len() > 0,
            m@ == self.pending()[0],
    {
        proof {
            use_type_invariant(self);
        }
        &self.changes[self.next]
    }

    /// Takes the outcome of the change and moves on: to the next change, or
    /// to the end where this was the last one or it failed.
    pub fn applied(self, outcome: Result<(), ClusterError>) -> (step: Step)
        ensures
            step@ == after_applied(self.pending(), outcome),
    {
        proof {
            use_type_invariant(&self);
        }
        let len = self.changes.len();
        match outcome {
            Err(e) => Step::Done(Err(Error::KubeError(e))),
            Ok(_) => {
                let ghost rest = self.pending().skip(1);
                assert(rest =~= mutations_view(self.changes@).skip(self.next + 1));
                if self.next + 1 == len {
                    Step::Done(Ok(ReconcilerAction { requeue_after: None }))
                } else {
                    Step::Apply(Applying { changes: self.changes, next: self.next + 1 })
                }
            },
        }
    }
}

} // verus!
