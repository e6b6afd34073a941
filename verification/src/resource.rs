//! The objects that the controller reads and writes, as plain values, and
//! their mathematical views.

use vstd::prelude::*;

verus! {

/// The view of an optional string.
pub open spec fn opt_str_view(o: Option<String>) -> Option<Seq<char>> {
    match o {
        Some(s) => Some(s@),
        None => None,
    }
}

/// What a job asks for: the name and the image of the container of its pod.
#[derive(Clone, Debug, PartialEq, Eq)]
pub struct JobSpec {
    pub name: String,
    pub image: String,
}

pub struct JobSpecView {
    pub name: Seq<char>,
    pub image: Seq<char>,
}

impl View for JobSpec {
    type V = JobSpecView;

    open spec fn view(&self) -> JobSpecView {
        JobSpecView { name: self.name@, image: self.image@ }
    }
}

/// A link from a pod back to the object that it belongs to.
#[derive(Clone, Debug, PartialEq, Eq)]
pub struct OwnerReference {
    pub api_version: String,
    pub kind: String,
    pub name: String,
    pub uid: String,
}

pub struct OwnerReferenceView {
    pub api_version: Seq<char>,
    pub kind: Seq<char>,
    pub name: Seq<char>,
    pub uid: Seq<char>,
}

impl View for OwnerReference {
    type V = OwnerReferenceView;

    open spec fn view(&self) -> OwnerReferenceView {
        OwnerReferenceView {
            api_version: self.api_version@,
            kind: self.kind@,
            name: self.name@,
            uid: self.uid@,
        }
    }
}

/// The views of a list of owner references, in order.
pub open spec fn owner_refs_view(refs: Seq<OwnerReference>) -> Seq<OwnerReferenceView> {
    Seq::new(refs.len(), |i: int| refs[i]@)
}

/// The identity of an object. Each part may be absent, as the cluster
/// hands it out.
#[derive(Clone, Debug, PartialEq, Eq)]
pub struct ObjectMeta {
    pub namespace: Option<String>,
    pub name: Option<String>,
    pub uid: Option<String>,
    pub owner_references: Option<Vec<OwnerReference>>,
}

pub struct ObjectMetaView {
    pub namespace: Option<Seq<char>>,
    pub name: Option<Seq<char>>,
    pub uid: Option<Seq<char>>,
    pub owner_references: Option<Seq<OwnerReferenceView>>,
}

impl View for ObjectMeta {
    type V = ObjectMetaView;

    open spec fn view(&self) -> ObjectMetaView {
        ObjectMetaView {
            namespace: opt_str_view(self.namespace),
            name: opt_str_view(self.name),
            uid: opt_str_view(self.uid),
            owner_references: match self.owner_references {
                Some(refs) => Some(owner_refs_view(refs@)),
                None => None,
            },
        }
    }
}

/// The parent object: declared by a user, only read here.
#[derive(Clone, Debug, PartialEq, Eq)]
pub struct Job {
    pub metadata: ObjectMeta,
    pub spec: JobSpec,
}

pub struct JobView {
    pub metadata: ObjectMetaView,
    pub spec: JobSpecView,
}

impl View for Job {
    type V = JobView;

    open spec fn view(&self) -> JobView {
        JobView { metadata: self.metadata@, spec: self.spec@ }
    }
}

/// One container of a pod.
#[derive(Clone, Debug, PartialEq, Eq)]
pub struct Container {
    pub name: String,
    pub image: Option<String>,
}

pub struct ContainerView {
    pub name: Seq<char>,
    pub image: Option<Seq<char>>,
}

impl View for Container {
    type V = ContainerView;

    open spec fn view(&self) -> ContainerView {
        ContainerView { name: self.name@, image: opt_str_view(self.image) }
    }
}

/// What a pod runs.
#[derive(Clone, Debug, PartialEq, Eq)]
pub struct PodSpec {
    pub containers: Vec<Container>,
}

pub struct PodSpecView {
    pub containers: Seq<ContainerView>,
}

impl View for PodSpec {
    type V = PodSpecView;

    open spec fn view(&self) -> PodSpecView {
        PodSpecView { containers: Seq::new(self.containers@.len(), |i: int| self.containers@[i]@) }
    }
}

/// The child object: created and deleted by the controller.
#[derive(Clone, Debug, PartialEq, Eq)]
pub struct Pod {
    pub metadata: ObjectMeta,
    pub spec: Option<PodSpec>,
}

pub struct PodView {
    pub metadata: ObjectMetaView,
    pub spec: Option<PodSpecView>,
}

impl View for Pod {
    type V = PodView;

    open spec fn view(&self) -> PodView {
        PodView {
            metadata: self.metadata@,
            spec: match self.spec {
                Some(s) => Some(s@),
                None => None,
            },
        }
    }
}

/// The views of a list of pods, in order.
pub open spec fn pods_view(pods: Seq<Pod>) -> Seq<PodView> {
    Seq::new(pods.len(), |i: int| pods[i]@)
}

} // verus!
