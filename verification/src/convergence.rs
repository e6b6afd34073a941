//! What a reconciliation does to the pods of a job, stated for every job
//! and every listing.

use crate::error::{ClusterError, Error};
use crate::plan::{
    deletions_of, desired_pod, has_converged_child, owned_by, owned_children, owned_pred, plan_for, runs,
    MutationView,
};
use crate::policy::ReconcilerAction;
use crate::naming::is_tmp_pod_name;
use crate::reconciler::{after_applied, after_listed, follows_listing, run, step_with, StepView};
use crate::resource::{ContainerView, JobView, PodView};
use vstd::prelude::*;

verus! {

/// `job` has the name and the uid that a link to it needs.
pub open spec fn has_identity(job: JobView) -> bool {
    job.metadata.name is Some && job.metadata.uid is Some
}

/// The end of a reconciliation that has nothing more to do.
pub open spec fn done_quietly() -> StepView {
    StepView::Done(Ok(ReconcilerAction { requeue_after: None }))
}

/// The pod made for a job with an identity carries the given name, belongs
/// to the job and runs exactly the container that the job asks for.
pub proof fn lemma_desired_pod_fits(job: JobView, pod_name: Seq<char>)
    requires
        has_identity(job),
    ensures
        desired_pod(job, pod_name) is Ok,
        desired_pod(job, pod_name)->Ok_0.metadata.name == Some(pod_name),
        desired_pod(job, pod_name)->Ok_0.metadata.namespace == job.metadata.namespace,
        desired_pod(job, pod_name)->Ok_0.spec->0.containers == seq![
            ContainerView { name: job.spec.name, image: Some(job.spec.image) },
        ],
        owned_by(desired_pod(job, pod_name)->Ok_0, job),
        runs(desired_pod(job, pod_name)->Ok_0, job.spec),
{
    let pod = desired_pod(job, pod_name)->Ok_0;
    assert(pod.metadata.owner_references->0[0].uid == job.metadata.uid->0);
}

/// Each pod of `pods` that `job` owns is among its owned children, and each
/// of its owned children is a pod of `pods` that it owns.
pub proof fn lemma_owned_children_are_the_owned(pods: Seq<PodView>, job: JobView)
    ensures
        forall|i: int|
            0 <= i < pods.len() && owned_by(pods[i], job) ==> owned_children(pods, job).contains(
                #[trigger] pods[i],
            ),
        forall|j: int|
            0 <= j < owned_children(pods, job).len() ==> owned_by(#[trigger] owned_children(pods, job)[j], job)
                && pods.contains(owned_children(pods, job)[j]),
{
    let owned = owned_children(pods, job);
    assert forall|i: int| 0 <= i < pods.len() && owned_by(pods[i], job) implies owned.contains(
        #[trigger] pods[i],
    ) by {
        pods.lemma_filter_contains(owned_pred(job), i);
    }
    assert forall|j: int| 0 <= j < owned.len() implies owned_by(#[trigger] owned[j], job) && pods.contains(
        owned[j],
    ) by {
        pods.lemma_filter_pred(owned_pred(job), j);
        assert(owned.contains(owned[j]));
        pods.lemma_filter_contains_rev(owned_pred(job), owned[j]);
    }
}

/// A job that owns none of the pods listed gets exactly one change: the
/// creation of the pod that it asks for.
pub proof fn lemma_no_child_creates_one(job: JobView, pods: Seq<PodView>, pod_name: Seq<char>)
    requires
        has_identity(job),
        owned_children(pods, job).len() == 0,
    ensures
        plan_for(job, pods, pod_name) == Ok::<Seq<MutationView>, Error>(
            seq![MutationView::Create { pod: desired_pod(job, pod_name)->Ok_0 }],
        ),
        after_listed(job, Ok(pods), pod_name) == StepView::Apply(
            seq![MutationView::Create { pod: desired_pod(job, pod_name)->Ok_0 }],
        ),
        after_applied(seq![MutationView::Create { pod: desired_pod(job, pod_name)->Ok_0 }], Ok(()))
            == done_quietly(),
{
    lemma_owned_children_are_the_owned(pods, job);
    lemma_desired_pod_fits(job, pod_name);
    let create = MutationView::Create { pod: desired_pod(job, pod_name)->Ok_0 };
    assert(deletions_of(owned_children(pods, job)).push(create) =~= seq![create]);
    assert(seq![create].skip(1) =~= Seq::empty());
}

/// A job that owns none of the pods listed is answered with one change,
/// whatever name was drawn: the creation of a pod that is named after the
/// job, with a hyphen and six characters of `a`-`z`, `0`-`9`, and that runs
/// the one container that the job asks for.
pub proof fn lemma_first_child_is_named_after_the_job(job: JobView, pods: Seq<PodView>, step: StepView)
    requires
        has_identity(job),
        owned_children(pods, job).len() == 0,
        follows_listing(step, job, Ok(pods)),
    ensures
        step is Apply,
        step->Apply_0.len() == 1,
        step->Apply_0[0] is Create,
        ({
            let pod = step->Apply_0[0]->Create_pod;
            &&& pod.metadata.name is Some
            &&& is_tmp_pod_name(pod.metadata.name->0, job.metadata.name->0)
            &&& pod.spec == Some(
                crate::resource::PodSpecView {
                    containers: seq![ContainerView { name: job.spec.name, image: Some(job.spec.image) }],
                },
            )
            &&& owned_by(pod, job)
        }),
{
    let pod_name = choose|pod_name: Seq<char>|
        {
            &&& job.metadata.name is Some ==> is_tmp_pod_name(pod_name, job.metadata.name->0)
            &&& step == #[trigger] after_listed(job, Ok(pods), pod_name)
        };
    lemma_no_child_creates_one(job, pods, pod_name);
    lemma_desired_pod_fits(job, pod_name);
}

/// A job whose only pod already runs what it asks for gets no change: the
/// reconciliation ends at once, without a requeue.
pub proof fn lemma_converged_child_is_kept(job: JobView, pods: Seq<PodView>, child: PodView, pod_name: Seq<char>)
    requires
        owned_children(pods, job) == seq![child],
        runs(child, job.spec),
    ensures
        plan_for(job, pods, pod_name) == Ok::<Seq<MutationView>, Error>(Seq::empty()),
        after_listed(job, Ok(pods), pod_name) == done_quietly(),
{
    lemma_owned_children_are_the_owned(pods, job);
    let owned = owned_children(pods, job);
    assert(owned[0] == child);
    assert(pods.contains(child));
    let i = choose|i: int| 0 <= i < pods.len() && pods[i] == child;
    assert(owned_by(pods[i], job) && runs(pods[i], job.spec));
}

/// Whatever else is listed, a pod of the job that runs what it asks for
/// stops the reconciliation before any change.
pub proof fn lemma_any_converged_child_is_enough(job: JobView, pods: Seq<PodView>, i: int, pod_name: Seq<char>)
    requires
        0 <= i < pods.len(),
        owned_by(pods[i], job),
        runs(pods[i], job.spec),
    ensures
        plan_for(job, pods, pod_name) == Ok::<Seq<MutationView>, Error>(Seq::empty()),
        after_listed(job, Ok(pods), pod_name) == done_quietly(),
{
}

/// A job whose only pod runs something else gets two changes: that pod is
/// deleted, and then the pod that the job asks for is created.
pub proof fn lemma_drifted_child_is_replaced(job: JobView, pods: Seq<PodView>, child: PodView, pod_name: Seq<char>)
    requires
        has_identity(job),
        owned_children(pods, job) == seq![child],
        !runs(child, job.spec),
    ensures
        plan_for(job, pods, pod_name) == Ok::<Seq<MutationView>, Error>(
            seq![
                MutationView::Delete { name: child.metadata.name->0 },
                MutationView::Create { pod: desired_pod(job, pod_name)->Ok_0 },
            ],
        ),
        after_listed(job, Ok(pods), pod_name) == StepView::Apply(
            seq![
                MutationView::Delete { name: child.metadata.name->0 },
                MutationView::Create { pod: desired_pod(job, pod_name)->Ok_0 },
            ],
        ),
{
    lemma_owned_children_are_the_owned(pods, job);
    lemma_desired_pod_fits(job, pod_name);
    let owned = owned_children(pods, job);
    assert forall|i: int| 0 <= i < pods.len() && owned_by(#[trigger] pods[i], job) implies !runs(
        pods[i],
        job.spec,
    ) by {
        assert(owned.contains(pods[i]));
        let j = choose|j: int| 0 <= j < owned.len() && owned[j] == pods[i];
        assert(pods[i] == child);
    }
    let create = MutationView::Create { pod: desired_pod(job, pod_name)->Ok_0 };
    assert(deletions_of(owned).push(create) =~= seq![
        MutationView::Delete { name: child.metadata.name->0 },
        create,
    ]);
}

/// Where no pod of the job runs what it asks for, the plan deletes each of
/// its pods, in the order of the listing, and creates one pod last.
pub proof fn lemma_deletes_precede_the_create(job: JobView, pods: Seq<PodView>, pod_name: Seq<char>)
    requires
        has_identity(job),
        !has_converged_child(pods, job),
    ensures
        plan_for(job, pods, pod_name) is Ok,
        ({
            let changes = plan_for(job, pods, pod_name)->Ok_0;
            let owned = owned_children(pods, job);
            &&& changes.len() == owned.len() + 1
            &&& changes.last() == MutationView::Create { pod: desired_pod(job, pod_name)->Ok_0 }
            &&& forall|k: int|
                0 <= k < owned.len() ==> #[trigger] changes[k] == MutationView::Delete {
                    name: owned[k].metadata.name->0,
                }
        }),
{
    lemma_desired_pod_fits(job, pod_name);
}

/// A listing that fails because there is nothing to list leads straight to
/// the creation of the pod, and to no deletion.
pub proof fn lemma_not_found_creates_directly(job: JobView, error: ClusterError, pod_name: Seq<char>)
    requires
        error.is_not_found(),
    ensures
        after_listed(job, Err(error), pod_name) == match desired_pod(job, pod_name) {
            Ok(pod) => StepView::Apply(seq![MutationView::Create { pod }]),
            Err(e) => StepView::Done(Err(e)),
        },
{
    let none = Seq::<PodView>::empty();
    reveal(Seq::filter);
    assert(owned_children(none, job) =~= Seq::empty());
    match desired_pod(job, pod_name) {
        Ok(pod) => {
            let create = MutationView::Create { pod };
            assert(deletions_of(owned_children(none, job)).push(create) =~= seq![create]);
        },
        Err(_) => {},
    }
}

/// Any other failure of the listing ends the reconciliation with that
/// error, before any change.
pub proof fn lemma_failed_listing_changes_nothing(job: JobView, error: ClusterError, pod_name: Seq<char>)
    requires
        !error.is_not_found(),
    ensures
        after_listed(job, Err(error), pod_name) == StepView::Done(Err(Error::KubeError(error))),
{
}

/// Once the pod that the job asks for is among the pods listed, a further
/// reconciliation changes nothing.
pub proof fn lemma_created_pod_converges(
    job: JobView,
    pods: Seq<PodView>,
    created_as: Seq<char>,
    pod_name: Seq<char>,
)
    requires
        desired_pod(job, created_as) is Ok,
        pods.contains(desired_pod(job, created_as)->Ok_0),
    ensures
        plan_for(job, pods, pod_name) == Ok::<Seq<MutationView>, Error>(Seq::empty()),
        after_listed(job, Ok(pods), pod_name) == done_quietly(),
{
    lemma_desired_pod_fits(job, created_as);
    let pod = desired_pod(job, created_as)->Ok_0;
    let i = choose|i: int| 0 <= i < pods.len() && pods[i] == pod;
    assert(owned_by(pods[i], job) && runs(pods[i], job.spec));
}

/// Where every change of a plan is made, the reconciliation asks for each
/// of them in order and then ends without a requeue.
pub proof fn lemma_all_applied_ends_quietly(pending: Seq<MutationView>, outcomes: Seq<Result<(), ClusterError>>)
    requires
        outcomes.len() == pending.len(),
        forall|i: int| 0 <= i < outcomes.len() ==> #[trigger] outcomes[i] is Ok,
    ensures
        run(step_with(pending), outcomes) == done_quietly(),
    decreases pending.len(),
{
    if pending.len() > 0 {
        assert(outcomes[0] is Ok);
        assert forall|i: int| 0 <= i < outcomes.skip(1).len() implies #[trigger] outcomes.skip(1)[i] is Ok by {
            assert(outcomes[i + 1] is Ok);
        }
        lemma_all_applied_ends_quietly(pending.skip(1), outcomes.skip(1));
    }
}

/// The first change that fails ends the reconciliation with its error: the
/// changes after it are never asked for. So a failed deletion is never
/// followed by the creation.
pub proof fn lemma_first_failure_ends_it(
    pending: Seq<MutationView>,
    outcomes: Seq<Result<(), ClusterError>>,
    failed: int,
    error: ClusterError,
)
    requires
        0 <= failed < pending.len(),
        failed < outcomes.len(),
        forall|i: int| 0 <= i < failed ==> #[trigger] outcomes[i] is Ok,
        outcomes[failed] == Err::<(), ClusterError>(error),
    ensures
        run(StepView::Apply(pending), outcomes) == StepView::Done(Err(Error::KubeError(error))),
    decreases failed,
{
    if failed == 0 {
        let end = after_applied(pending, outcomes[0]);
        assert(end == StepView::Done(Err(Error::KubeError(error))));
        assert(run(end, outcomes.skip(1)) == end);
    } else {
        assert(outcomes[0] is Ok);
        assert(step_with(pending.skip(1)) == StepView::Apply(pending.skip(1)));
        assert forall|i: int| 0 <= i < failed - 1 implies #[trigger] outcomes.skip(1)[i] is Ok by {
            assert(outcomes[i + 1] is Ok);
        }
        lemma_first_failure_ends_it(pending.skip(1), outcomes.skip(1), failed - 1, error);
    }
}

} // verus!
