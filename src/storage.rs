//! Values exchanged with the remote object store, and the folder summary
//! derived from its listings.
use vstd::prelude::*;
use vstd::string::*;
use crate::paths::{starts_with_chars, strip_trailing_slashes, trim_trailing_slashes};

verus! {

/// Why a remote store operation failed.
#[derive(Debug, Clone, PartialEq, Eq)]
pub enum S3Error {
    OperationFailed(String),
    FileNotFound(String),
    IoError(String),
    CredentialsExpired(String),
}

/// One object of a listing: its key relative to the user's namespace, its
/// size in bytes and its modification time in seconds since the epoch.
#[derive(Debug, Clone, PartialEq, Eq)]
pub struct S3Object {
    pub key: String,
    pub size: u64,
    pub last_modified: i64,
}

pub struct ObjectView {
    pub key: Seq<char>,
    pub size: u64,
    pub last_modified: i64,
}

pub open spec fn object_view(o: S3Object) -> ObjectView {
    ObjectView { key: o.key@, size: o.size, last_modified: o.last_modified }
}

pub open spec fn object_views(s: Seq<S3Object>) -> Seq<ObjectView> {
    s.map_values(|o: S3Object| object_view(o))
}

/// Total size of the objects of a listing.
pub open spec fn listing_size(s: Seq<ObjectView>) -> nat
    decreases s.len(),
{
    if s.len() == 0 {
        0
    } else {
        listing_size(s.drop_last()) + s.last().size as nat
    }
}

/// Summary of one top-level folder of the user's namespace.
#[derive(Debug, Clone, PartialEq, Eq)]
pub struct CloudFolder {
    pub name: String,
    pub path: String,
    pub total_size: u64,
    pub file_count: usize,
}

impl CloudFolder {
    /// The summary of folder `path` from the listing of its contents: its
    /// name is the path without trailing slashes, its size the sum of the
    /// object sizes and its count the number of objects. `None` when the
    /// sizes add up to more than a `u64` holds.
    pub fn summarize(path: String, objects: &Vec<S3Object>) -> (r: Option<CloudFolder>)
        ensures
            listing_size(object_views(objects@)) <= u64::MAX <==> r is Some,
            r matches Some(f) ==> f.name@ == trim_trailing_slashes(path@) && f.path@ == path@
                && f.total_size == listing_size(object_views(objects@)) && f.file_count
                == objects@.len(),
    {
        let ghost ov = object_views(objects@);
        let mut total: u64 = 0;
        let mut i: usize = 0;
        while i < objects.len()
            invariant
                i <= objects@.len(),
                ov == object_views(objects@),
                total == listing_size(ov.take(i as int)),
            decreases objects@.len() - i,
        {
            proof {
                assert(ov.take(i + 1).drop_last() =~= ov.take(i as int));
            }
            let size = objects[i].size;
            if total > u64::MAX - size {
                proof {
                    lemma_listing_size_prefix(ov, i + 1, ov.len() as int);
                    assert(ov.take(ov.len() as int) =~= ov);
                }
                return None;
            }
            total = total + size;
            i = i + 1;
        }
        proof {
            assert(ov.take(i as int) =~= ov);
        }
        let name = strip_trailing_slashes(path.as_str());
        Some(CloudFolder { name, path, total_size: total, file_count: objects.len() })
    }
}

/// Full store key of `relative` in the namespace `user_prefix`.
pub fn full_key(user_prefix: &str, relative: &str) -> (r: String)
    ensures
        r@ == user_prefix@ + relative@,
{
    let mut r = String::from_str(user_prefix);
    r.append(relative);
    r
}

/// Key relative to the namespace `user_prefix`: the prefix removed when
/// the key starts with it, the key unchanged otherwise.
pub fn relative_key(user_prefix: &str, key: &str) -> (r: String)
    ensures
        user_prefix@.is_prefix_of(key@) ==> r@ == key@.skip(user_prefix@.len() as int),
        !user_prefix@.is_prefix_of(key@) ==> r@ == key@,
{
    if starts_with_chars(key, user_prefix) {
        let rest = key.substring_char(user_prefix.unicode_len(), key.unicode_len());
        proof {
            assert(rest@ =~= key@.skip(user_prefix@.len() as int));
        }
        String::from_str(rest)
    } else {
        String::from_str(key)
    }
}

proof fn lemma_listing_size_prefix(s: Seq<ObjectView>, i: int, j: int)
    requires
        0 <= i <= j <= s.len(),
    ensures
        listing_size(s.take(i)) <= listing_size(s.take(j)),
    decreases j - i,
{
    if i < j {
        lemma_listing_size_prefix(s, i, j - 1);
        assert(s.take(j).drop_last() =~= s.take(j - 1));
    }
}

} // verus!
