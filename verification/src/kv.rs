//! The byte-level key/value layer: one sled tree behind trusted functions.
//!
//! The tree's contents are named by [`kv`]; each function here states over
//! that name exactly what the sled call it relies on does, as its source
//! shows. The merge operator handed to sled only calls the verified
//! [`merge_progress_bytes`].

use vstd::prelude::*;

use crate::codec::dec_progress;
use crate::codec::merge_progress_bytes;
use crate::codec::spec_merged;

verus! {

#[verifier::external_type_specification]
#[verifier::external_body]
pub struct ExSledDb(sled::Db);

#[verifier::external_type_specification]
#[verifier::external_body]
pub struct ExSledError(sled::Error);

/// The contents of the underlying tree: its byte keys and byte values.
pub uninterp spec fn kv(db: sled::Db) -> Map<Seq<u8>, Seq<u8>>;

/// The bytes stored at a key, if any.
pub open spec fn stored_at(m: Map<Seq<u8>, Seq<u8>>, k: Seq<u8>) -> Option<Seq<u8>> {
    if m.dom().contains(k) {
        Some(m[k])
    } else {
        None
    }
}

/// Relies on sled::open: a handle to the tree stored at `path`.
#[verifier::external_body]
pub(crate) fn kv_open(path: &str) -> Result<sled::Db, sled::Error> {
    sled::open(path)
}

/// Relies on sled::Config::open with `temporary` set: a tree at `path` whose
/// files are removed when the last handle drops.
#[verifier::external_body]
pub(crate) fn kv_open_temporary(path: &str) -> Result<sled::Db, sled::Error> {
    sled::Config::new().path(path).temporary(true).open()
}

/// Relies on sled::Tree::get: the value stored at `key`, if any.
#[verifier::external_body]
pub(crate) fn kv_get(db: &sled::Db, key: &[u8]) -> (r: Result<Option<Vec<u8>>, sled::Error>)
    ensures
        r matches Ok(v) ==> (v is Some <==> kv(*db).dom().contains(key@)),
        r matches Ok(Some(b)) ==> kv(*db)[key@] == b@,
{
    match db.get(key) {
        Ok(v) => Ok(v.map(|b| b.to_vec())),
        Err(e) => Err(e),
    }
}

/// Relies on sled::Tree::insert: sets `key` to `value`.
#[verifier::external_body]
pub(crate) fn kv_insert(db: &mut sled::Db, key: &[u8], value: &[u8]) -> (r: Result<
    (),
    sled::Error,
>)
    ensures
        r is Ok ==> kv(*final (db)) == kv(*old(db)).insert(key@, value@),
{
    db.insert(key, value).map(|_| ())
}

/// Relies on sled::Tree::remove: removes `key`, returning the prior value.
#[verifier::external_body]
pub(crate) fn kv_remove(db: &mut sled::Db, key: &[u8]) -> (r: Result<Option<Vec<u8>>, sled::Error>)
    ensures
        r matches Ok(v) ==> kv(*final (db)) == kv(*old(db)).remove(key@),
        r matches Ok(v) ==> (v is Some <==> kv(*old(db)).dom().contains(key@)),
        r matches Ok(Some(b)) ==> kv(*old(db))[key@] == b@,
{
    match db.remove(key) {
        Ok(v) => Ok(v.map(|b| b.to_vec())),
        Err(e) => Err(e),
    }
}

/// Relies on sled::Tree::contains_key.
#[verifier::external_body]
pub(crate) fn kv_contains(db: &sled::Db, key: &[u8]) -> (r: Result<bool, sled::Error>)
    ensures
        r matches Ok(b) ==> b == kv(*db).dom().contains(key@),
{
    db.contains_key(key)
}

/// Relies on sled::Tree::set_merge_operator and sled::Tree::merge: merge
/// atomically replaces the value at `key` with what the configured operator
/// returns for the prior value and `delta`. The operator handed in only calls
/// the verified [`merge_progress_bytes`], whose contract gives the decoding of
/// the new value.
#[verifier::external_body]
pub(crate) fn kv_merge(db: &mut sled::Db, key: &[u8], delta: &[u8]) -> (r: Result<(), sled::Error>)
    ensures
        r is Ok ==> exists|b: Seq<u8>|
            kv(*final (db)) == kv(*old(db)).insert(key@, b) && dec_progress(b) == Some(
                spec_merged(stored_at(kv(*old(db)), key@), delta@),
            ),
{
    db.set_merge_operator(
        |_key: &[u8], old_bytes: Option<&[u8]>, new_bytes: &[u8]|
            Some(merge_progress_bytes(old_bytes, new_bytes)),
    );
    db.merge(key, delta).map(|_| ())
}

/// Relies on sled::Tree::iter: every key/value pair of the tree, each key
/// once.
#[verifier::external_body]
pub(crate) fn kv_entries(db: &sled::Db) -> (r: Result<Vec<(Vec<u8>, Vec<u8>)>, sled::Error>)
    ensures
        r matches Ok(es) ==> forall|i: int|
            0 <= i < es@.len() ==> kv(*db).dom().contains((#[trigger] es@[i]).0@) && kv(
                *db,
            )[es@[i].0@] == es@[i].1@,
        r matches Ok(es) ==> forall|k: Seq<u8>|
            #[trigger] kv(*db).dom().contains(k) ==> exists|i: int|
                0 <= i < es@.len() && (#[trigger] es@[i]).0@ == k,
        r matches Ok(es) ==> forall|i: int, j: int|
            0 <= i < j < es@.len() ==> (#[trigger] es@[i]).0@ != (#[trigger] es@[j]).0@,
{
    let mut out: Vec<(Vec<u8>, Vec<u8>)> = Vec::new();
    for item in db.iter() {
        let (k, v) = item?;
        out.push((k.to_vec(), v.to_vec()));
    }
    Ok(out)
}

/// Relies on chrono::Utc::now: the current time, handed on as Unix seconds.
/// Nothing is assumed of the clock's value.
#[verifier::external_body]
pub(crate) fn now_unix_seconds() -> i64 {
    chrono::Utc::now().timestamp()
}

} // verus!
