use kubers_sample::error::Error;
use kubers_sample::manager::Manager;
use kubers_sample::naming::{
    create_tmp_pod_name, object_to_owner_reference, tmp_pod_name_from_sample, NAME_KEY, SUFFIX_LEN, UID_KEY,
};
use kubers_sample::resource::{ObjectMeta, OwnerReference};

fn meta(name: Option<&str>, uid: Option<&str>) -> ObjectMeta {
    ObjectMeta {
        namespace: Some("default".to_string()),
        name: name.map(|s| s.to_string()),
        uid: uid.map(|s| s.to_string()),
        owner_references: None,
    }
}

#[test]
fn tmp_pod_name_has_parent_hyphen_and_six_lowercase_alphanumerics() {
    assert_eq!(SUFFIX_LEN, 6);
    for parent in ["foo", "", "a-b", "Job.With.Dots", "ünï"] {
        for _ in 0..200 {
            let name = create_tmp_pod_name(parent);
            let prefix = format!("{}-", parent);
            assert!(name.starts_with(&prefix));
            let suffix = &name[prefix.len()..];
            assert_eq!(suffix.chars().count(), 6);
            assert!(suffix.chars().all(|c| matches!(c, 'a'..='z' | '0'..='9')), "bad suffix {}", suffix);
        }
    }
}

#[test]
fn tmp_pod_names_differ_between_calls() {
    let names: Vec<String> = (0..50).map(|_| create_tmp_pod_name("foo")).collect();
    let first = &names[0];
    assert!(names.iter().any(|n| n != first));
}

#[test]
fn tmp_pod_name_from_sample_lowers_the_sample() {
    assert_eq!(tmp_pod_name_from_sample("foo", "AbC123"), "foo-abc123");
    assert_eq!(tmp_pod_name_from_sample("foo", "zzzzzz"), "foo-zzzzzz");
    assert_eq!(tmp_pod_name_from_sample("Foo", "XYZ09a"), "Foo-xyz09a");
    assert_eq!(tmp_pod_name_from_sample("", "A"), "-a");
    assert_eq!(tmp_pod_name_from_sample("x", ""), "x-");
}

#[test]
fn owner_reference_carries_name_and_uid() {
    let r = object_to_owner_reference("g/v1".to_string(), "Job".to_string(), meta(Some("foo"), Some("u-1")));
    assert_eq!(
        r,
        Ok(OwnerReference {
            api_version: "g/v1".to_string(),
            kind: "Job".to_string(),
            name: "foo".to_string(),
            uid: "u-1".to_string(),
        })
    );
}

#[test]
fn owner_reference_names_the_missing_field() {
    assert_eq!(NAME_KEY, ".metadata.name");
    assert_eq!(UID_KEY, ".metadata.uid");
    let no_name = object_to_owner_reference("g/v1".to_string(), "Job".to_string(), meta(None, Some("u-1")));
    assert_eq!(no_name, Err(Error::MissingObjectKey { name: ".metadata.name" }));
    let no_uid = object_to_owner_reference("g/v1".to_string(), "Job".to_string(), meta(Some("foo"), None));
    assert_eq!(no_uid, Err(Error::MissingObjectKey { name: ".metadata.uid" }));
    let neither = object_to_owner_reference("g/v1".to_string(), "Job".to_string(), meta(None, None));
    assert_eq!(neither, Err(Error::MissingObjectKey { name: ".metadata.name" }));
}

#[test]
fn manager_reports_what_the_default_registry_holds() {
    let counter = prometheus::IntCounter::new("reconciliations_seen_total", "reconciliations seen").unwrap();
    prometheus::default_registry().register(Box::new(counter.clone())).unwrap();
    counter.inc();
    counter.inc();
    let manager = Manager::new();
    let families = manager.metrics();
    let family = families.iter().find(|f| f.get_name() == "reconciliations_seen_total").unwrap();
    assert_eq!(family.get_metric()[0].get_counter().get_value() as u64, 2);
    let copy = manager;
    assert_eq!(copy.metrics().len(), families.len());
}
