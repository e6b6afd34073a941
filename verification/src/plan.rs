//! The convergence engine: from a job and the pods seen in its namespace to
//! the changes that make the cluster match the job.

use crate::error::Error;
use crate::naming::{
    create_tmp_pod_name, is_tmp_pod_name, lemma_some_tmp_pod_name, object_to_owner_reference, owner_reference_of,
    NAME_KEY,
};
use crate::resource::{
    pods_view, Container, ContainerView, Job, JobSpec, JobSpecView, JobView, ObjectMeta, ObjectMetaView, Pod,
    PodSpec, PodSpecView, PodView,
};
use vstd::prelude::*;
use vstd::string::*;

verus! {

/// The API version of a job: its group and version.
pub const JOB_API_VERSION: &'static str = "kitagry.github.io/v1beta1";

/// The kind of a job.
pub const JOB_KIND: &'static str = "Job";

/// One change to the cluster.
#[derive(Clone, Debug, PartialEq, Eq)]
pub enum Mutation {
    /// Delete the pod of this name.
    Delete { name: String },
    /// Create this pod.
    Create { pod: Pod },
}

pub enum MutationView {
    Delete { name: Seq<char> },
    Create { pod: PodView },
}

impl View for Mutation {
    type V = MutationView;

    open spec fn view(&self) -> MutationView {
        match *self {
            Mutation::Delete { name } => MutationView::Delete { name: name@ },
            Mutation::Create { pod } => MutationView::Create { pod: pod@ },
        }
    }
}

/// The views of a list of changes, in order.
pub open spec fn mutations_view(ms: Seq<Mutation>) -> Seq<MutationView> {
    Seq::new(ms.len(), |i: int| ms[i]@)
}

/// `pod` carries an owner reference with the uid of `job`. A job without a
/// uid owns nothing.
pub open spec fn owned_by(pod: PodView, job: JobView) -> bool {
    &&& job.metadata.uid is Some
    &&& pod.metadata.owner_references is Some
    &&& exists|i: int|
        0 <= i < pod.metadata.owner_references->0.len() && (
        #[trigger] pod.metadata.owner_references->0[i]).uid == job.metadata.uid->0
}

/// The first container of `pod` has the name and the image that `spec` asks
/// for.
pub open spec fn runs(pod: PodView, spec: JobSpecView) -> bool {
    &&& pod.spec is Some
    &&& pod.spec->0.containers.len() >= 1
    &&& pod.spec->0.containers[0].name == spec.name
    &&& pod.spec->0.containers[0].image == Some(spec.image)
}

/// `pod` has a name and a first container with an image.
pub open spec fn is_complete(pod: PodView) -> bool {
    &&& pod.metadata.name is Some
    &&& pod.spec is Some
    &&& pod.spec->0.containers.len() >= 1
    &&& pod.spec->0.containers[0].image is Some
}

/// Each of `pods` that `job` owns is complete.
pub open spec fn owned_complete(pods: Seq<PodView>, job: JobView) -> bool {
    forall|i: int| 0 <= i < pods.len() && owned_by(#[trigger] pods[i], job) ==> is_complete(pods[i])
}

/// The test that picks the pods of `job`.
pub open spec fn owned_pred(job: JobView) -> spec_fn(PodView) -> bool {
    |pod: PodView| owned_by(pod, job)
}

/// The pods of `pods` that `job` owns, in order.
pub open spec fn owned_children(pods: Seq<PodView>, job: JobView) -> Seq<PodView> {
    pods.filter(owned_pred(job))
}

/// One of `pods` is owned by `job` and runs what it asks for.
pub open spec fn has_converged_child(pods: Seq<PodView>, job: JobView) -> bool {
    exists|i: int| 0 <= i < pods.len() && owned_by(#[trigger] pods[i], job) && runs(pods[i], job.spec)
}

/// The deletion of each of `pods`, in order.
pub open spec fn deletions_of(pods: Seq<PodView>) -> Seq<MutationView> {
    Seq::new(pods.len(), |i: int| MutationView::Delete { name: pods[i].metadata.name->0 })
}

/// The pod that `job` asks for, under the name `pod_name`: in the job's
/// namespace, linked to the job, with one container of the job's name and
/// image. A job without a name or a uid cannot be linked to.
pub open spec fn desired_pod(job: JobView, pod_name: Seq<char>) -> Result<PodView, Error> {
    match owner_reference_of(JOB_API_VERSION@, JOB_KIND@, job.metadata) {
        Err(e) => Err(e),
        Ok(owner) => Ok(
            PodView {
                metadata: ObjectMetaView {
                    namespace: job.metadata.namespace,
                    name: Some(pod_name),
                    uid: None,
                    owner_references: Some(seq![owner]),
                },
                spec: Some(
                    PodSpecView {
                        containers: seq![
                            ContainerView { name: job.spec.name, image: Some(job.spec.image) },
                        ],
                    },
                ),
            },
        ),
    }
}

/// The changes that converge the cluster, where `pods` are the pods of the
/// job's namespace and `pod_name` is the name for a new pod. None where a pod
/// of the job already runs what it asks for. Else every pod of the job is
/// deleted, in the order of `pods`, and then the desired pod is created.
pub open spec fn plan_for(job: JobView, pods: Seq<PodView>, pod_name: Seq<char>) -> Result<
    Seq<MutationView>,
    Error,
> {
    if has_converged_child(pods, job) {
        Ok(Seq::empty())
    } else {
        match desired_pod(job, pod_name) {
            Err(e) => Err(e),
            Ok(pod) => Ok(deletions_of(owned_children(pods, job)).push(MutationView::Create { pod })),
        }
    }
}

/// `r` is the plan `expected`, or fails with its error.
pub open spec fn is_plan(r: Result<Vec<Mutation>, Error>, expected: Result<Seq<MutationView>, Error>) -> bool {
    match expected {
        Ok(ms) => r is Ok && mutations_view(r->Ok_0@) == ms,
        Err(e) => r == Err::<Vec<Mutation>, Error>(e),
    }
}

/// Tells whether `pod` belongs to `job`.
pub fn is_owned_by(pod: &Pod, job: &Job) -> (r: bool)
    ensures
        r == owned_by(pod@, job@),
{
    match (&job.metadata.uid, &pod.metadata.owner_references) {
        (Some(job_uid), Some(refs)) => {
            let mut i: usize = 0;
            while i < refs.len()
                invariant
                    i <= refs.len(),
                    pod@.metadata.owner_references == Some(crate::resource::owner_refs_view(refs@)),
                    job@.metadata.uid == Some(job_uid@),
                    forall|j: int| 0 <= j < i ==> (#[trigger] refs@[j]).uid@ != job_uid@,
                decreases refs.len() - i,
            {
                if refs[i].uid == *job_uid {
                    assert(pod@.metadata.owner_references->0[i as int].uid == job_uid@);
                    return true;
                }
                i += 1;
            }
            assert forall|j: int| 0 <= j < pod@.metadata.owner_references->0.len() implies (
            #[trigger] pod@.metadata.owner_references->0[j]).uid != job@.metadata.uid->0 by {
                assert(refs@[j].uid@ != job_uid@);
            }
            false
        },
        _ => false,
    }
}

/// Tells whether the first container of `pod` is the one that `spec` asks for.
pub fn pod_runs(pod: &Pod, spec: &JobSpec) -> (r: bool)
    ensures
        r == runs(pod@, spec@),
{
    match &pod.spec {
        None => false,
        Some(pod_spec) => {
            if pod_spec.containers.len() == 0 {
                false
            } else {
                let container = &pod_spec.containers[0];
                assert(pod@.spec->0.containers[0] == container@);
                match &container.image {
                    None => false,
                    Some(image) => container.name == spec.name && *image == spec.image,
                }
            }
        },
    }
}

/// `r` is the pod `expected`, or fails with its error.
pub open spec fn is_pod(r: Result<Pod, Error>, expected: Result<PodView, Error>) -> bool {
    match expected {
        Ok(pod) => r is Ok && r->Ok_0@ == pod,
        Err(e) => r == Err::<Pod, Error>(e),
    }
}

/// Builds the pod that `job` asks for, under the name `pod_name`.
pub fn build_pod(job: Job, pod_name: String) -> (r: Result<Pod, Error>)
    ensures
        is_pod(r, desired_pod(job@, pod_name@)),
{
    let Job { metadata, spec } = job;
    let namespace = match &metadata.namespace {
        Some(ns) => Some(ns.clone()),
        None => None,
    };
    let owner = match object_to_owner_reference(
        String::from_str(JOB_API_VERSION),
        String::from_str(JOB_KIND),
        metadata,
    ) {
        Ok(owner) => owner,
        Err(e) => {
            return Err(e);
        },
    };
    let owners = vec![owner];
    let containers = vec![Container { name: spec.name, image: Some(spec.image) }];
    let pod = Pod {
        metadata: ObjectMeta {
            namespace,
            name: Some(pod_name),
            uid: None,
            owner_references: Some(owners),
        },
        spec: Some(PodSpec { containers }),
    };
    proof {
        let want = desired_pod(job@, pod_name@)->Ok_0;
        assert(pod@.metadata.owner_references->0 =~= want.metadata.owner_references->0);
        assert(pod@.spec->0.containers =~= want.spec->0.containers);
    }
    Ok(pod)
}

/// Builds the pod that `job` asks for, under a fresh name made from the
/// job's name. Fails where the job lacks its name or its uid.
pub fn create_pod(job: Job) -> (r: Result<Pod, Error>)
    ensures
        match r {
            Ok(pod) => {
                &&& pod@.metadata.name is Some
                &&& job@.metadata.name is Some
                &&& is_tmp_pod_name(pod@.metadata.name->0, job@.metadata.name->0)
                &&& desired_pod(job@, pod@.metadata.name->0) == Ok::<PodView, Error>(pod@)
            },
            Err(e) => owner_reference_of(JOB_API_VERSION@, JOB_KIND@, job@.metadata) == Err::<
                crate::resource::OwnerReferenceView,
                Error,
            >(e),
        },
{
    let pod_name = match &job.metadata.name {
        Some(name) => create_tmp_pod_name(name.as_str()),
        None => {
            return Err(Error::MissingObjectKey { name: NAME_KEY });
        },
    };
    build_pod(job, pod_name)
}

/// Tells whether each pod of `job` among `pods` is complete.
pub fn owned_pods_complete(pods: &Vec<Pod>, job: &Job) -> (r: bool)
    ensures
        r == owned_complete(pods_view(pods@), job@),
{
    let mut i: usize = 0;
    while i < pods.len()
        invariant
            i <= pods.len(),
            forall|j: int| 0 <= j < i && owned_by(#[trigger] pods_view(pods@)[j], job@) ==> is_complete(
                pods_view(pods@)[j],
            ),
        decreases pods.len() - i,
    {
        let pod = &pods[i];
        assert(pods_view(pods@)[i as int] == pod@);
        if is_owned_by(pod, job) {
            let complete = pod.metadata.name.is_some() && match &pod.spec {
                None => false,
                Some(pod_spec) => pod_spec.containers.len() >= 1 && pod_spec.containers[0].image.is_some(),
            };
            if !complete {
                return false;
            }
        }
        i += 1;
    }
    true
}

/// Tells whether a pod of `job` among `pods` already runs what it asks for.
pub fn find_converged_child(pods: &Vec<Pod>, job: &Job) -> (r: bool)
    ensures
        r == has_converged_child(pods_view(pods@), job@),
{
    let mut i: usize = 0;
    while i < pods.len()
        invariant
            i <= pods.len(),
            forall|j: int|
                0 <= j < i ==> !(owned_by(#[trigger] pods_view(pods@)[j], job@) && runs(
                    pods_view(pods@)[j],
                    job@.spec,
                )),
        decreases pods.len() - i,
    {
        let pod = &pods[i];
        assert(pods_view(pods@)[i as int] == pod@);
        if is_owned_by(pod, job) && pod_runs(pod, &job.spec) {
            return true;
        }
        i += 1;
    }
    false
}

/// The pods that `job` owns among `pods` and one more pod: those among
/// `pods`, and then the new pod where `job` owns it.
pub proof fn lemma_owned_children_push(pods: Seq<PodView>, pod: PodView, job: JobView)
    ensures
        owned_children(pods.push(pod), job) == if owned_by(pod, job) {
            owned_children(pods, job).push(pod)
        } else {
            owned_children(pods, job)
        },
{
    reveal(Seq::filter);
    assert(pods.push(pod).drop_last() =~= pods);
}

/// The deletion of each pod of `job` among `pods`, in order.
pub fn delete_owned(pods: &Vec<Pod>, job: &Job) -> (r: Vec<Mutation>)
    requires
        owned_complete(pods_view(pods@), job@),
    ensures
        mutations_view(r@) == deletions_of(owned_children(pods_view(pods@), job@)),
{
    let ghost all = pods_view(pods@);
    let mut out: Vec<Mutation> = Vec::new();
    let mut i: usize = 0;
    proof {
        reveal(Seq::filter);
        assert(all.take(0).len() == 0);
        assert(mutations_view(out@) =~= deletions_of(owned_children(all.take(0), job@)));
    }
    while i < pods.len()
        invariant
            i <= pods.len(),
            all == pods_view(pods@),
            owned_complete(all, job@),
            mutations_view(out@) == deletions_of(owned_children(all.take(i as int), job@)),
        decreases pods.len() - i,
    {
        let pod = &pods[i];
        let ghost seen = owned_children(all.take(i as int), job@);
        proof {
            assert(all[i as int] == pod@);
            assert(all.take(i + 1) =~= all.take(i as int).push(pod@));
            lemma_owned_children_push(all.take(i as int), pod@, job@);
        }
        if is_owned_by(pod, job) {
            let ghost before = out@;
            match &pod.metadata.name {
                Some(name) => {
                    out.push(Mutation::Delete { name: name.clone() });
                },
                None => {
                    assert(false);
                },
            }
            proof {
                let want = deletions_of(seen.push(pod@));
                assert(mutations_view(before).len() == deletions_of(seen).len());
                assert forall|j: int| 0 <= j < want.len() implies mutations_view(out@)[j] == want[j] by {
                    if j < before.len() {
                        assert(mutations_view(before)[j] == deletions_of(seen)[j]);
                    }
                }
                assert(mutations_view(out@) =~= want);
            }
        }
        i += 1;
    }
    assert(all.take(pods.len() as int) =~= all);
    out
}

/// The changes that converge the cluster, with the new pod, if one is
/// needed, under the name `pod_name`.
pub fn plan_named(job: Job, pods: &Vec<Pod>, pod_name: String) -> (r: Result<Vec<Mutation>, Error>)
    requires
        owned_complete(pods_view(pods@), job@),
    ensures
        is_plan(r, plan_for(job@, pods_view(pods@), pod_name@)),
{
    if find_converged_child(pods, &job) {
        let none: Vec<Mutation> = Vec::new();
        assert(mutations_view(none@) =~= Seq::empty());
        return Ok(none);
    }
    let mut changes = delete_owned(pods, &job);
    let ghost deletes = mutations_view(changes@);
    match build_pod(job, pod_name) {
        Err(e) => Err(e),
        Ok(pod) => {
            changes.push(Mutation::Create { pod });
            assert(mutations_view(changes@) =~= deletes.push(MutationView::Create { pod: pod@ }));
            Ok(changes)
        },
    }
}

/// `r` is the plan for `job` and `pods` with some generated name for the
/// new pod.
pub open spec fn is_plan_with_fresh_name(r: Result<Vec<Mutation>, Error>, job: JobView, pods: Seq<PodView>) -> bool {
    exists|pod_name: Seq<char>|
        {
            &&& job.metadata.name is Some ==> is_tmp_pod_name(pod_name, job.metadata.name->0)
            &&& #[trigger] is_plan(r, plan_for(job, pods, pod_name))
        }
}

/// The changes that converge the cluster, with the new pod, if one is
/// needed, under a fresh name made from the job's name.
pub fn plan(job: Job, pods: &Vec<Pod>) -> (r: Result<Vec<Mutation>, Error>)
    requires
        owned_complete(pods_view(pods@), job@),
    ensures
        is_plan_with_fresh_name(r, job@, pods_view(pods@)),
{
    let ghost all = pods_view(pods@);
    let ghost any_name = if job@.metadata.name is Some {
        lemma_some_tmp_pod_name(job@.metadata.name->0)
    } else {
        Seq::empty()
    };
    if find_converged_child(pods, &job) {
        let none: Vec<Mutation> = Vec::new();
        assert(mutations_view(none@) =~= Seq::empty());
        assert(is_plan(Ok(none), plan_for(job@, all, any_name)));
        return Ok(none);
    }
    let mut changes = delete_owned(pods, &job);
    let ghost deletes = mutations_view(changes@);
    match create_pod(job) {
        Err(e) => {
            assert(is_plan(Err(e), plan_for(job@, all, any_name)));
            Err(e)
        },
        Ok(pod) => {
            changes.push(Mutation::Create { pod });
            assert(mutations_view(changes@) =~= deletes.push(MutationView::Create { pod: pod@ }));
            assert(is_plan(Ok(changes), plan_for(job@, all, pod@.metadata.name->0)));
            Ok(changes)
        },
    }
}

} // verus!
