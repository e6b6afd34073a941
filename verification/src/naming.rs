//! Names for new pods, and the link from a pod to the object that owns it.

use crate::error::Error;
use crate::resource::{ObjectMeta, ObjectMetaView, OwnerReference, OwnerReferenceView};
use rand::Rng;
use vstd::prelude::*;
use vstd::string::*;

verus! {

/// The number of random characters at the end of a generated pod name.
pub const SUFFIX_LEN: usize = 6;

/// `c` is one of `A`-`Z`, `a`-`z`, `0`-`9`.
pub open spec fn is_alphanumeric(c: char) -> bool {
    ('A' <= c && c <= 'Z') || ('a' <= c && c <= 'z') || ('0' <= c && c <= '9')
}

/// `c` is one of `a`-`z`, `0`-`9`.
pub open spec fn is_lower_alphanumeric(c: char) -> bool {
    ('a' <= c && c <= 'z') || ('0' <= c && c <= '9')
}

/// The lower-case form of an ASCII capital letter; any other character
/// unchanged.
pub open spec fn ascii_lower(c: char) -> char {
    if 'A' <= c && c <= 'Z' {
        ((c as u8) + 32) as char
    } else {
        c
    }
}

/// `s` with each of its characters in lower case.
pub open spec fn ascii_lower_seq(s: Seq<char>) -> Seq<char> {
    Seq::new(s.len(), |i: int| ascii_lower(s[i]))
}

/// `name` is `parent`, a hyphen, and `SUFFIX_LEN` characters of `a`-`z`, `0`-`9`.
pub open spec fn is_tmp_pod_name(name: Seq<char>, parent: Seq<char>) -> bool {
    &&& name.len() == parent.len() + 1 + SUFFIX_LEN
    &&& name.subrange(0, parent.len() as int) == parent
    &&& name[parent.len() as int] == '-'
    &&& forall|i: int| parent.len() < i < name.len() ==> is_lower_alphanumeric(#[trigger] name[i])
}

/// The pod name made of `parent` and the random characters `sample`.
pub open spec fn tmp_pod_name(parent: Seq<char>, sample: Seq<char>) -> Seq<char> {
    parent + seq!['-'] + ascii_lower_seq(sample)
}

/// `rand::thread_rng().sample_iter(&Alphanumeric)`, its first `len` items
/// collected as characters. Each item is a byte of the distribution's fixed
/// table of the capital letters, the small letters and the digits, so the
/// string has `len` characters, each of them one of those. Which ones is
/// left open: they are random.
#[verifier::external_body]
fn sample_alphanumeric(len: usize) -> (s: String)
    ensures
        s@.len() == len,
        forall|i: int| 0 <= i < s@.len() ==> is_alphanumeric(#[trigger] s@[i]),
{
    rand::thread_rng().sample_iter(&rand::distributions::Alphanumeric).take(len).map(char::from).collect()
}

/// `str::to_ascii_lowercase`: a copy of the string in which `A`-`Z` are
/// replaced by `a`-`z` and every other character is kept.
#[verifier::external_body]
fn to_ascii_lowercase(s: &str) -> (r: String)
    ensures
        r@ == ascii_lower_seq(s@),
{
    s.to_ascii_lowercase()
}

/// The name of a new pod of the object called `s`, given the random
/// characters drawn for it.
pub fn tmp_pod_name_from_sample(s: &str, sample: &str) -> (name: String)
    ensures
        name@ == tmp_pod_name(s@, sample@),
{
    let suffix = to_ascii_lowercase(sample);
    proof {
        reveal_strlit("-");
        assert("-"@ =~= seq!['-']);
    }
    String::from_str(s).concat("-").concat(suffix.as_str())
}

/// A pod name made of alphanumeric random characters is a generated name.
pub proof fn lemma_tmp_pod_name_is_generated(parent: Seq<char>, sample: Seq<char>)
    requires
        sample.len() == SUFFIX_LEN,
        forall|i: int| 0 <= i < sample.len() ==> is_alphanumeric(#[trigger] sample[i]),
    ensures
        is_tmp_pod_name(tmp_pod_name(parent, sample), parent),
{
    let name = tmp_pod_name(parent, sample);
    assert(name.subrange(0, parent.len() as int) =~= parent);
    assert forall|i: int| parent.len() < i < name.len() implies is_lower_alphanumeric(
        #[trigger] name[i],
    ) by {
        let c = sample[i - parent.len() - 1];
        assert(is_alphanumeric(c));
        assert(name[i] == ascii_lower(c));
    }
}

/// Every object name has a generated pod name.
pub proof fn lemma_some_tmp_pod_name(parent: Seq<char>) -> (name: Seq<char>)
    ensures
        is_tmp_pod_name(name, parent),
{
    let sample = Seq::new(SUFFIX_LEN as nat, |i: int| 'a');
    lemma_tmp_pod_name_is_generated(parent, sample);
    tmp_pod_name(parent, sample)
}

/// A fresh name for a pod of the object called `s`: `s`, a hyphen, and six
/// random characters of `a`-`z`, `0`-`9`. Two calls may give the same name.
pub fn create_tmp_pod_name(s: &str) -> (name: String)
    ensures
        is_tmp_pod_name(name@, s@),
{
    let sample = sample_alphanumeric(SUFFIX_LEN);
    proof {
        lemma_tmp_pod_name_is_generated(s@, sample@);
    }
    tmp_pod_name_from_sample(s, sample.as_str())
}

/// The path of an object's name within the object.
pub const NAME_KEY: &'static str = ".metadata.name";

/// The path of an object's uid within the object.
pub const UID_KEY: &'static str = ".metadata.uid";

/// The link to the object with the identity `meta`, of the given API version
/// and kind; or the part of the identity that is missing, the name before
/// the uid.
pub open spec fn owner_reference_of(
    api_version: Seq<char>,
    kind: Seq<char>,
    meta: ObjectMetaView,
) -> Result<OwnerReferenceView, Error> {
    if meta.name is None {
        Err(Error::MissingObjectKey { name: NAME_KEY })
    } else if meta.uid is None {
        Err(Error::MissingObjectKey { name: UID_KEY })
    } else {
        Ok(
            OwnerReferenceView {
                api_version: api_version,
                kind: kind,
                name: meta.name->0,
                uid: meta.uid->0,
            },
        )
    }
}

/// Builds the link that a child carries back to its parent, from the
/// parent's identity. It needs the parent's name and uid, and fails with the
/// path of the first that is missing.
pub fn object_to_owner_reference(api_version: String, kind: String, meta: ObjectMeta) -> (r: Result<
    OwnerReference,
    Error,
>)
    ensures
        match owner_reference_of(api_version@, kind@, meta@) {
            Ok(owner) => r is Ok && r->Ok_0@ == owner,
            Err(e) => r == Err::<OwnerReference, Error>(e),
        },
{
    let ObjectMeta { name, uid, .. } = meta;
    match name {
        None => Err(Error::MissingObjectKey { name: NAME_KEY }),
        Some(name) => match uid {
            None => Err(Error::MissingObjectKey { name: UID_KEY }),
            Some(uid) => Ok(OwnerReference { api_version, kind, name, uid }),
        },
    }
}

} // verus!
