use kubers_sample::error::{ClusterError, Error};
use kubers_sample::plan::{
    build_pod, create_pod, delete_owned, find_converged_child, is_owned_by, owned_pods_complete, plan, plan_named,
    pod_runs, Mutation, JOB_API_VERSION, JOB_KIND,
};
use kubers_sample::policy::{error_policy, requeue_decision, ReconcilerAction, REQUEUE_DELAY_SECS};
use kubers_sample::reconciler::{observe, reconcile, start, Step};
use kubers_sample::resource::{Container, Job, JobSpec, ObjectMeta, OwnerReference, Pod, PodSpec};

fn job(name: &str, uid: &str, container: &str, image: &str) -> Job {
    Job {
        metadata: ObjectMeta {
            namespace: Some("default".to_string()),
            name: Some(name.to_string()),
            uid: Some(uid.to_string()),
            owner_references: None,
        },
        spec: JobSpec { name: container.to_string(), image: image.to_string() },
    }
}

fn foo_job() -> Job {
    job("foo", "uid-1", "foo", "busybox")
}

fn owner(uid: &str) -> OwnerReference {
    OwnerReference {
        api_version: JOB_API_VERSION.to_string(),
        kind: JOB_KIND.to_string(),
        name: "foo".to_string(),
        uid: uid.to_string(),
    }
}

fn pod(name: &str, owners: Option<Vec<OwnerReference>>, container: &str, image: &str) -> Pod {
    Pod {
        metadata: ObjectMeta {
            namespace: Some("default".to_string()),
            name: Some(name.to_string()),
            uid: Some(format!("uid-of-{}", name)),
            owner_references: owners,
        },
        spec: Some(PodSpec {
            containers: vec![Container { name: container.to_string(), image: Some(image.to_string()) }],
        }),
    }
}

fn owned_pod(name: &str, container: &str, image: &str) -> Pod {
    pod(name, Some(vec![owner("uid-1")]), container, image)
}

fn api_error(code: u16) -> ClusterError {
    ClusterError::Api { code, message: format!("status {}", code) }
}

fn is_generated_from(name: &str, parent: &str) -> bool {
    let prefix = format!("{}-", parent);
    name.len() == prefix.len() + 6
        && name.starts_with(&prefix)
        && name[prefix.len()..].chars().all(|c| c.is_ascii_lowercase() || c.is_ascii_digit())
}

fn assert_creates_foo_pod(change: &Mutation) {
    match change {
        Mutation::Create { pod } => {
            let name = pod.metadata.name.clone().unwrap();
            assert!(is_generated_from(&name, "foo"), "unexpected pod name {}", name);
            assert_eq!(pod.metadata.namespace, Some("default".to_string()));
            assert_eq!(pod.metadata.uid, None);
            assert_eq!(pod.metadata.owner_references, Some(vec![owner("uid-1")]));
            assert_eq!(
                pod.spec,
                Some(PodSpec {
                    containers: vec![Container { name: "foo".to_string(), image: Some("busybox".to_string()) }],
                })
            );
        }
        other => panic!("expected a creation, got {:?}", other),
    }
}

/// Runs one reconciliation against a cluster that answers the listing with
/// `listing` and the i-th change with `answers[i]` (with success once the
/// answers run out). Returns the changes asked for and the result.
fn drive(
    job: Job,
    listing: Result<Vec<Pod>, ClusterError>,
    answers: Vec<Result<(), ClusterError>>,
) -> (Vec<Mutation>, Result<ReconcilerAction, Error>) {
    let listing_state = reconcile(job);
    assert_eq!(listing_state.namespace, "default");
    if let Ok(pods) = &listing {
        assert!(owned_pods_complete(pods, &listing_state.job));
    }
    let mut asked = Vec::new();
    let mut answers = answers.into_iter();
    let mut step = listing_state.listed(listing);
    loop {
        match step {
            Step::Done(result) => return (asked, result),
            Step::Apply(applying) => {
                asked.push(applying.mutation().clone());
                step = applying.applied(answers.next().unwrap_or(Ok(())));
            }
        }
    }
}

#[test]
fn scenario_no_pods_creates_one() {
    let (asked, result) = drive(foo_job(), Ok(vec![]), vec![]);
    assert_eq!(asked.len(), 1);
    assert_creates_foo_pod(&asked[0]);
    assert_eq!(result, Ok(ReconcilerAction { requeue_after: None }));
}

#[test]
fn scenario_stale_pod_is_deleted_then_recreated() {
    let (asked, result) = drive(foo_job(), Ok(vec![owned_pod("foo-abc123", "foo", "busybox:old")]), vec![]);
    assert_eq!(asked.len(), 2);
    assert_eq!(asked[0], Mutation::Delete { name: "foo-abc123".to_string() });
    assert_creates_foo_pod(&asked[1]);
    assert_eq!(result, Ok(ReconcilerAction { requeue_after: None }));
}

#[test]
fn scenario_matching_pod_needs_no_change() {
    let (asked, result) = drive(foo_job(), Ok(vec![owned_pod("foo-abc123", "foo", "busybox")]), vec![]);
    assert_eq!(asked, vec![]);
    assert_eq!(result, Ok(ReconcilerAction { requeue_after: None }));
}

#[test]
fn scenario_listing_not_found_creates_directly() {
    let (asked, result) = drive(foo_job(), Err(api_error(404)), vec![]);
    assert_eq!(asked.len(), 1);
    assert_creates_foo_pod(&asked[0]);
    assert!(!asked.iter().any(|m| matches!(m, Mutation::Delete { .. })));
    assert_eq!(result, Ok(ReconcilerAction { requeue_after: None }));
}

#[test]
fn scenario_failed_create_is_retried_after_the_fixed_delay() {
    let failure = ClusterError::Other { message: "connection reset".to_string() };
    let (asked, result) = drive(foo_job(), Ok(vec![]), vec![Err(failure.clone())]);
    assert_eq!(asked.len(), 1);
    assert_creates_foo_pod(&asked[0]);
    assert_eq!(result, Err(Error::KubeError(failure)));
    assert_eq!(requeue_decision(&result), ReconcilerAction { requeue_after: Some(360) });
    assert_eq!(error_policy(&result.unwrap_err()).requeue_after, Some(360));
}

#[test]
fn listing_failure_other_than_not_found_aborts_without_changes() {
    for error in [api_error(500), api_error(403), ClusterError::Other { message: "timeout".to_string() }] {
        let (asked, result) = drive(foo_job(), Err(error.clone()), vec![]);
        assert_eq!(asked, vec![]);
        assert_eq!(result, Err(Error::KubeError(error)));
    }
}

#[test]
fn failed_delete_aborts_before_the_create() {
    let failure = api_error(409);
    let pods = vec![owned_pod("foo-aaaaaa", "foo", "old"), owned_pod("foo-bbbbbb", "bar", "busybox")];
    let (asked, result) = drive(foo_job(), Ok(pods), vec![Ok(()), Err(failure.clone())]);
    assert_eq!(
        asked,
        vec![
            Mutation::Delete { name: "foo-aaaaaa".to_string() },
            Mutation::Delete { name: "foo-bbbbbb".to_string() },
        ]
    );
    assert_eq!(result, Err(Error::KubeError(failure)));
}

#[test]
fn every_owned_pod_is_deleted_in_listing_order() {
    let pods = vec![
        owned_pod("foo-000001", "foo", "old"),
        pod("stranger", Some(vec![owner("uid-2")]), "foo", "busybox"),
        owned_pod("foo-000002", "other", "busybox"),
        pod("orphan", None, "foo", "busybox"),
        owned_pod("foo-000003", "foo", "busybox:1"),
    ];
    let (asked, result) = drive(foo_job(), Ok(pods), vec![]);
    assert_eq!(asked.len(), 4);
    assert_eq!(asked[0], Mutation::Delete { name: "foo-000001".to_string() });
    assert_eq!(asked[1], Mutation::Delete { name: "foo-000002".to_string() });
    assert_eq!(asked[2], Mutation::Delete { name: "foo-000003".to_string() });
    assert_creates_foo_pod(&asked[3]);
    assert_eq!(result, Ok(ReconcilerAction { requeue_after: None }));
}

#[test]
fn a_matching_pod_anywhere_in_the_listing_stops_all_changes() {
    let pods = vec![
        owned_pod("foo-000001", "foo", "old"),
        owned_pod("foo-000002", "foo", "busybox"),
        owned_pod("foo-000003", "foo", "older"),
    ];
    let (asked, result) = drive(foo_job(), Ok(pods), vec![]);
    assert_eq!(asked, vec![]);
    assert_eq!(result, Ok(ReconcilerAction { requeue_after: None }));
}

#[test]
fn pods_of_other_owners_are_left_alone() {
    let pods = vec![
        pod("stranger", Some(vec![owner("uid-2")]), "foo", "busybox"),
        pod("orphan", None, "foo", "old"),
        pod("no-owners", Some(vec![]), "foo", "old"),
    ];
    let (asked, _) = drive(foo_job(), Ok(pods), vec![]);
    assert_eq!(asked.len(), 1);
    assert_creates_foo_pod(&asked[0]);
}

#[test]
fn incomplete_pods_of_other_owners_do_not_matter() {
    let mut bare = pod("bare", None, "x", "y");
    bare.spec = None;
    bare.metadata.name = None;
    let pods = vec![bare];
    assert!(owned_pods_complete(&pods, &foo_job()));
    let (asked, _) = drive(foo_job(), Ok(pods), vec![]);
    assert_eq!(asked.len(), 1);
}

#[test]
fn owned_pods_complete_spots_what_is_missing() {
    let job = foo_job();
    let mut nameless = owned_pod("a", "foo", "busybox");
    nameless.metadata.name = None;
    assert!(!owned_pods_complete(&vec![nameless], &job));
    let mut no_spec = owned_pod("a", "foo", "busybox");
    no_spec.spec = None;
    assert!(!owned_pods_complete(&vec![no_spec], &job));
    let mut no_containers = owned_pod("a", "foo", "busybox");
    no_containers.spec = Some(PodSpec { containers: vec![] });
    assert!(!owned_pods_complete(&vec![no_containers], &job));
    let mut no_image = owned_pod("a", "foo", "busybox");
    no_image.spec = Some(PodSpec { containers: vec![Container { name: "foo".to_string(), image: None }] });
    assert!(!owned_pods_complete(&vec![owned_pod("b", "foo", "x"), no_image], &job));
    assert!(owned_pods_complete(&vec![owned_pod("a", "foo", "busybox")], &job));
    assert!(owned_pods_complete(&vec![], &job));
}

#[test]
fn reconcile_after_convergence_is_a_no_op() {
    let (asked, _) = drive(foo_job(), Ok(vec![owned_pod("foo-abc123", "foo", "busybox:old")]), vec![]);
    let created = match &asked[1] {
        Mutation::Create { pod } => pod.clone(),
        other => panic!("expected a creation, got {:?}", other),
    };
    for _ in 0..3 {
        let (again, result) = drive(foo_job(), Ok(vec![created.clone()]), vec![]);
        assert_eq!(again, vec![]);
        assert_eq!(result, Ok(ReconcilerAction { requeue_after: None }));
    }
}

#[test]
fn job_without_uid_owns_nothing_and_cannot_be_linked() {
    let mut job = foo_job();
    job.metadata.uid = None;
    let pods = vec![owned_pod("foo-abc123", "foo", "old")];
    assert!(!is_owned_by(&pods[0], &job));
    let (asked, result) = drive(job, Ok(pods), vec![]);
    assert_eq!(asked, vec![]);
    assert_eq!(result, Err(Error::MissingObjectKey { name: ".metadata.uid" }));
    assert_eq!(requeue_decision(&result).requeue_after, Some(360));
}

#[test]
fn job_without_name_cannot_be_linked() {
    let mut job = foo_job();
    job.metadata.name = None;
    let (asked, result) = drive(job.clone(), Ok(vec![]), vec![]);
    assert_eq!(asked, vec![]);
    assert_eq!(result, Err(Error::MissingObjectKey { name: ".metadata.name" }));
    job.metadata.uid = None;
    let (_, result) = drive(job, Err(api_error(404)), vec![]);
    assert_eq!(result, Err(Error::MissingObjectKey { name: ".metadata.name" }));
}

#[test]
fn job_without_name_is_still_a_no_op_when_converged() {
    let mut job = foo_job();
    job.metadata.name = None;
    let (asked, result) = drive(job, Ok(vec![owned_pod("p", "foo", "busybox")]), vec![]);
    assert_eq!(asked, vec![]);
    assert_eq!(result, Ok(ReconcilerAction { requeue_after: None }));
}

#[test]
fn is_owned_by_looks_at_every_owner_reference() {
    let job = foo_job();
    assert!(is_owned_by(&pod("p", Some(vec![owner("uid-9"), owner("uid-1")]), "a", "b"), &job));
    assert!(is_owned_by(&pod("p", Some(vec![owner("uid-1"), owner("uid-9")]), "a", "b"), &job));
    assert!(!is_owned_by(&pod("p", Some(vec![owner("uid-9"), owner("uid-10")]), "a", "b"), &job));
    assert!(!is_owned_by(&pod("p", Some(vec![]), "a", "b"), &job));
    assert!(!is_owned_by(&pod("p", None, "a", "b"), &job));
}

#[test]
fn pod_runs_compares_name_and_image_of_the_first_container() {
    let spec = JobSpec { name: "foo".to_string(), image: "busybox".to_string() };
    assert!(pod_runs(&owned_pod("p", "foo", "busybox"), &spec));
    assert!(!pod_runs(&owned_pod("p", "foo", "busybox:old"), &spec));
    assert!(!pod_runs(&owned_pod("p", "bar", "busybox"), &spec));
    let mut two = owned_pod("p", "bar", "old");
    two.spec.as_mut().unwrap().containers.push(Container {
        name: "foo".to_string(),
        image: Some("busybox".to_string()),
    });
    assert!(!pod_runs(&two, &spec));
    let mut none = owned_pod("p", "foo", "busybox");
    none.spec = None;
    assert!(!pod_runs(&none, &spec));
    let mut no_image = owned_pod("p", "foo", "busybox");
    no_image.spec.as_mut().unwrap().containers[0].image = None;
    assert!(!pod_runs(&no_image, &spec));
}

#[test]
fn find_converged_child_needs_owner_and_container() {
    let job = foo_job();
    assert!(!find_converged_child(&vec![], &job));
    assert!(!find_converged_child(&vec![pod("p", Some(vec![owner("uid-2")]), "foo", "busybox")], &job));
    assert!(!find_converged_child(&vec![owned_pod("p", "foo", "old")], &job));
    assert!(find_converged_child(&vec![owned_pod("p", "foo", "old"), owned_pod("q", "foo", "busybox")], &job));
}

#[test]
fn delete_owned_names_the_owned_pods_in_order() {
    let job = foo_job();
    let pods = vec![owned_pod("b", "foo", "x"), pod("c", None, "foo", "x"), owned_pod("a", "foo", "busybox")];
    assert_eq!(
        delete_owned(&pods, &job),
        vec![Mutation::Delete { name: "b".to_string() }, Mutation::Delete { name: "a".to_string() }]
    );
    assert_eq!(delete_owned(&vec![], &job), vec![]);
}

#[test]
fn plan_named_gives_the_exact_plan() {
    let pods = vec![owned_pod("foo-old001", "foo", "busybox:old")];
    let plan = plan_named(foo_job(), &pods, "foo-new001".to_string()).unwrap();
    let wanted = Pod {
        metadata: ObjectMeta {
            namespace: Some("default".to_string()),
            name: Some("foo-new001".to_string()),
            uid: None,
            owner_references: Some(vec![OwnerReference {
                api_version: "kitagry.github.io/v1beta1".to_string(),
                kind: "Job".to_string(),
                name: "foo".to_string(),
                uid: "uid-1".to_string(),
            }]),
        },
        spec: Some(PodSpec {
            containers: vec![Container { name: "foo".to_string(), image: Some("busybox".to_string()) }],
        }),
    };
    assert_eq!(
        plan,
        vec![Mutation::Delete { name: "foo-old001".to_string() }, Mutation::Create { pod: wanted.clone() }]
    );
    assert_eq!(plan_named(foo_job(), &vec![], "foo-new001".to_string()), Ok(vec![Mutation::Create { pod: wanted }]));
    assert_eq!(plan_named(foo_job(), &vec![owned_pod("p", "foo", "busybox")], "n".to_string()), Ok(vec![]));
}

#[test]
fn plan_draws_a_fresh_name() {
    let changes = plan(foo_job(), &vec![]).unwrap();
    assert_eq!(changes.len(), 1);
    assert_creates_foo_pod(&changes[0]);
    assert_eq!(plan(foo_job(), &vec![owned_pod("p", "foo", "busybox")]), Ok(vec![]));
}

#[test]
fn build_pod_copies_the_namespace_of_the_job() {
    let mut job = job("web", "u-7", "nginx", "nginx:1.21");
    job.metadata.namespace = Some("prod".to_string());
    let pod = build_pod(job.clone(), "web-x".to_string()).unwrap();
    assert_eq!(pod.metadata.namespace, Some("prod".to_string()));
    assert_eq!(pod.metadata.name, Some("web-x".to_string()));
    assert_eq!(pod.metadata.owner_references.unwrap()[0].name, "web");
    job.metadata.namespace = None;
    assert_eq!(build_pod(job, "web-x".to_string()).unwrap().metadata.namespace, None);
}

#[test]
fn create_pod_fails_on_missing_identity() {
    let mut job = foo_job();
    job.metadata.uid = None;
    assert_eq!(create_pod(job.clone()), Err(Error::MissingObjectKey { name: ".metadata.uid" }));
    job.metadata.name = None;
    assert_eq!(create_pod(job), Err(Error::MissingObjectKey { name: ".metadata.name" }));
    let pod = create_pod(foo_job()).unwrap();
    assert_creates_foo_pod(&Mutation::Create { pod });
}

#[test]
fn observe_treats_not_found_as_an_empty_listing() {
    assert_eq!(observe(Err(api_error(404))), Ok(vec![]));
    assert_eq!(observe(Err(api_error(410))), Err(Error::KubeError(api_error(410))));
    let other = ClusterError::Other { message: "404".to_string() };
    assert_eq!(observe(Err(other.clone())), Err(Error::KubeError(other)));
    let pods = vec![owned_pod("p", "foo", "busybox")];
    assert_eq!(observe(Ok(pods.clone())), Ok(pods));
    assert!(api_error(404).is_not_found());
    assert!(!api_error(200).is_not_found());
}

#[test]
fn start_of_an_empty_plan_is_the_end() {
    assert!(matches!(start(Ok(vec![])), Step::Done(Ok(ReconcilerAction { requeue_after: None }))));
    let error = Error::MissingObjectKey { name: ".metadata.uid" };
    match start(Err(error.clone())) {
        Step::Done(result) => assert_eq!(result, Err(error)),
        Step::Apply(_) => panic!("a failed plan has no changes"),
    }
    match start(Ok(vec![Mutation::Delete { name: "a".to_string() }, Mutation::Delete { name: "b".to_string() }])) {
        Step::Apply(applying) => {
            assert_eq!(applying.mutation(), &Mutation::Delete { name: "a".to_string() });
            match applying.applied(Ok(())) {
                Step::Apply(next) => {
                    assert_eq!(next.mutation(), &Mutation::Delete { name: "b".to_string() });
                    assert!(matches!(next.applied(Ok(())), Step::Done(Ok(_))));
                }
                Step::Done(_) => panic!("one change is left"),
            }
        }
        Step::Done(_) => panic!("two changes are pending"),
    }
}

#[test]
fn every_error_gets_the_same_delay() {
    let errors = vec![
        Error::KubeError(api_error(500)),
        Error::KubeError(api_error(404)),
        Error::KubeError(ClusterError::Other { message: "broken pipe".to_string() }),
        Error::MissingObjectKey { name: ".metadata.name" },
        Error::MissingObjectKey { name: ".metadata.uid" },
    ];
    assert_eq!(REQUEUE_DELAY_SECS, 360);
    for error in errors {
        assert_eq!(error_policy(&error), ReconcilerAction { requeue_after: Some(360) });
        assert_eq!(requeue_decision(&Err(error)), ReconcilerAction { requeue_after: Some(360) });
    }
}

#[test]
fn success_is_not_requeued() {
    let done = Ok(ReconcilerAction { requeue_after: None });
    assert_eq!(requeue_decision(&done), ReconcilerAction { requeue_after: None });
    let later = Ok(ReconcilerAction { requeue_after: Some(5) });
    assert_eq!(requeue_decision(&later), ReconcilerAction { requeue_after: Some(5) });
}
