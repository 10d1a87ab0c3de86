//! Encoding of what the store persists: a subscriber's progress record (a map
//! from event id to the seconds remaining at the last notification) and the
//! subscriber's key (the decimal text of its chat identifier).
//!
//! The byte form is JSON, produced and read by serde_json behind the trusted
//! functions here; what those bytes decode to is named by `dec_progress` and
//! `dec_chat_key`, and every contract of the store speaks over those names.
//! In verified code a progress record is a list of pairs whose meaning is the
//! map [`pairs_map`] builds from it, later entries winning.

use std::collections::HashMap;

use vstd::prelude::*;

verus! {

/// What serde_json's decoding of a progress record returns for given bytes:
/// the event-id-to-seconds map, or nothing when the bytes are not such a
/// record.
pub uninterp spec fn dec_progress(b: Seq<u8>) -> Option<Map<u64, i64>>;

/// What serde_json's decoding of a subscriber key returns for given bytes:
/// the chat identifier, or nothing when the bytes are not its decimal text.
pub uninterp spec fn dec_chat_key(b: Seq<u8>) -> Option<i64>;

/// The decimal text of a chat identifier, as the bytes used for its store key.
pub uninterp spec fn chat_key(c: i64) -> Seq<u8>;

/// The reserved store key under which the latest event batch lives: the bytes
/// of the text `launches`.
pub open spec fn batch_key() -> Seq<u8> {
    seq![108u8, 97u8, 117u8, 110u8, 99u8, 104u8, 101u8, 115u8]
}

/// The reserved batch key, for callers of the store's byte layer.
pub fn batch_key_bytes() -> (r: Vec<u8>)
    ensures
        r@ == batch_key(),
{
    let r: Vec<u8> = vec![108u8, 97u8, 117u8, 110u8, 99u8, 104u8, 101u8, 115u8];
    proof {
        assert(r@ =~= batch_key());
    }
    r
}

/// The map a list of event/seconds pairs stands for; a later pair for the
/// same event overrides an earlier one.
pub open spec fn pairs_map(s: Seq<(u64, i64)>) -> Map<u64, i64>
    decreases s.len(),
{
    if s.len() == 0 {
        Map::empty()
    } else {
        pairs_map(s.drop_last()).insert(s.last().0, s.last().1)
    }
}

/// The recorded value for one event, if any.
pub open spec fn progress_get(m: Map<u64, i64>, event: u64) -> Option<i64> {
    if m.dom().contains(event) {
        Some(m[event])
    } else {
        None
    }
}

/// A key is in the map exactly when some pair carries it.
pub proof fn lemma_pairs_map_dom(s: Seq<(u64, i64)>, key: u64)
    ensures
        pairs_map(s).dom().contains(key) <==> exists|i: int|
            0 <= i < s.len() && (#[trigger] s[i]).0 == key,
    decreases s.len(),
{
    if s.len() > 0 {
        lemma_pairs_map_dom(s.drop_last(), key);
        if s.last().0 == key {
            assert(s[s.len() - 1].0 == key);
        } else if exists|i: int| 0 <= i < s.len() && (#[trigger] s[i]).0 == key {
            let i = choose|i: int| 0 <= i < s.len() && (#[trigger] s[i]).0 == key;
            assert(s.drop_last()[i] == s[i]);
        }
    }
}

/// The value of a key is the one of its last pair.
pub proof fn lemma_pairs_map_last_match(s: Seq<(u64, i64)>, i: int)
    requires
        0 <= i < s.len(),
        forall|j: int| i < j < s.len() ==> (#[trigger] s[j]).0 != s[i].0,
    ensures
        pairs_map(s).dom().contains(s[i].0),
        pairs_map(s)[s[i].0] == s[i].1,
    decreases s.len(),
{
    if i == s.len() - 1 {
    } else {
        assert(s.drop_last()[i] == s[i]);
        lemma_pairs_map_last_match(s.drop_last(), i);
    }
}

/// Concatenation of pair lists means union of their maps, the right side
/// winning, just as the store's merge does.
pub proof fn lemma_pairs_map_concat(a: Seq<(u64, i64)>, b: Seq<(u64, i64)>)
    ensures
        pairs_map(a + b) == pairs_map(a).union_prefer_right(pairs_map(b)),
    decreases b.len(),
{
    if b.len() == 0 {
        assert(a + b =~= a);
        assert(pairs_map(a).union_prefer_right(pairs_map(b)) =~= pairs_map(a));
    } else {
        lemma_pairs_map_concat(a, b.drop_last());
        assert((a + b).drop_last() =~= a + b.drop_last());
        assert((a + b).last() == b.last());
        assert(pairs_map(a).union_prefer_right(pairs_map(b)) =~= pairs_map(
            a,
        ).union_prefer_right(pairs_map(b.drop_last())).insert(b.last().0, b.last().1));
    }
}

/// Pushing one element adds exactly it to what a sequence contains.
pub(crate) proof fn lemma_push_contains<T>(s: Seq<T>, v: T, x: T)
    ensures
        s.push(v).contains(x) <==> (s.contains(x) || x == v),
{
    if s.contains(x) {
        let i = choose|i: int| 0 <= i < s.len() && s[i] == x;
        assert(s.push(v)[i] == x);
    }
    if x == v {
        assert(s.push(v)[s.len() as int] == x);
    }
    if s.push(v).contains(x) {
        let i = choose|i: int| 0 <= i < s.push(v).len() && s.push(v)[i] == x;
        if i < s.len() {
            assert(s[i] == x);
        }
    }
}

/// Look up the recorded value for one event in a progress record.
pub fn lookup(pairs: &Vec<(u64, i64)>, event: u64) -> (r: Option<i64>)
    ensures
        r == progress_get(pairs_map(pairs@), event),
{
    let mut i: usize = pairs.len();
    while i > 0
        invariant
            0 <= i <= pairs@.len(),
            forall|j: int| i <= j < pairs@.len() ==> (#[trigger] pairs@[j]).0 != event,
        decreases i,
    {
        i = i - 1;
        let (k, v) = pairs[i];
        if k == event {
            proof {
                lemma_pairs_map_last_match(pairs@, i as int);
            }
            return Some(v);
        }
    }
    proof {
        lemma_pairs_map_dom(pairs@, event);
    }
    None
}

/// Relies on serde_json::from_slice reading a JSON object of event ids to
/// seconds (a `HashMap<u64, i64>`); the entries come back in no fixed order.
#[verifier::external_body]
pub(crate) fn decode_progress(b: &[u8]) -> (r: Option<Vec<(u64, i64)>>)
    ensures
        r is Some <==> dec_progress(b@) is Some,
        r matches Some(v) ==> dec_progress(b@) == Some(pairs_map(v@)),
{
    serde_json::from_slice::<HashMap<u64, i64>>(b).ok().map(|m| m.into_iter().collect())
}

/// Relies on serde_json::to_vec writing a JSON object of event ids to seconds
/// (a `HashMap<u64, i64>`, never failing for that type), which
/// serde_json::from_slice reads back as the same map; a later pair for the
/// same event overrides an earlier one, as in `HashMap::from_iter`.
#[verifier::external_body]
pub(crate) fn encode_progress(pairs: &Vec<(u64, i64)>) -> (r: Vec<u8>)
    ensures
        dec_progress(r@) == Some(pairs_map(pairs@)),
{
    let m: HashMap<u64, i64> = pairs.iter().copied().collect();
    serde_json::to_vec(&m).unwrap()
}

/// Relies on i64::to_string of std: the decimal text of the identifier, which
/// serde_json::from_slice reads back as the same JSON integer, and which never
/// spells the reserved batch key.
#[verifier::external_body]
pub(crate) fn encode_chat_key(c: i64) -> (r: Vec<u8>)
    ensures
        r@ == chat_key(c),
        dec_chat_key(r@) == Some(c),
        r@ != batch_key(),
{
    c.to_string().into_bytes()
}

/// Relies on serde_json::from_slice reading a JSON integer.
#[verifier::external_body]
pub(crate) fn decode_chat_key(b: &[u8]) -> (r: Option<i64>)
    ensures
        r == dec_chat_key(b@),
{
    serde_json::from_slice::<i64>(b).ok()
}

/// The progress map some decoded bytes stand for; bytes that are no record,
/// or no bytes at all, stand for the empty one (the fail-open reading of a
/// malformed stored record).
pub open spec fn base_of(d: Option<Map<u64, i64>>) -> Map<u64, i64> {
    match d {
        Some(m) => m,
        None => Map::empty(),
    }
}

/// What the store's merge writes at a key: the union of the maps the prior
/// value and the delta stand for, the delta winning.
pub open spec fn spec_merged(old_bytes: Option<Seq<u8>>, delta: Seq<u8>) -> Map<u64, i64> {
    let old_map = match old_bytes {
        Some(b) => base_of(dec_progress(b)),
        None => Map::empty(),
    };
    old_map.union_prefer_right(base_of(dec_progress(delta)))
}

/// The merge operator of the store: decode both sides fail-open, append, and
/// encode the union.
pub(crate) fn merge_progress_bytes(old_bytes: Option<&[u8]>, delta: &[u8]) -> (r: Vec<u8>)
    ensures
        dec_progress(r@) == Some(
            spec_merged(
                match old_bytes {
                    Some(b) => Some(b@),
                    None => None,
                },
                delta@,
            ),
        ),
{
    let mut merged: Vec<(u64, i64)> = match old_bytes {
        Some(b) => match decode_progress(b) {
            Some(pairs) => pairs,
            None => Vec::new(),
        },
        None => Vec::new(),
    };
    let ghost base: Seq<(u64, i64)> = merged@;
    let mut fresh: Vec<(u64, i64)> = match decode_progress(delta) {
        Some(pairs) => pairs,
        None => Vec::new(),
    };
    let ghost delta_pairs: Seq<(u64, i64)> = fresh@;
    let mut j: usize = 0;
    while j < fresh.len()
        invariant
            0 <= j <= delta_pairs.len(),
            fresh@ == delta_pairs,
            merged@ == base + delta_pairs.take(j as int),
        decreases delta_pairs.len() - j,
    {
        let (k, v) = fresh[j];
        merged.push((k, v));
        proof {
            assert(merged@ =~= base + delta_pairs.take(j + 1));
        }
        j = j + 1;
    }
    proof {
        assert(delta_pairs.take(delta_pairs.len() as int) =~= delta_pairs);
        lemma_pairs_map_concat(base, delta_pairs);
    }
    encode_progress(&merged)
}

/// `a - b` clamped into the range of an `i64`.
pub open spec fn spec_sat_sub(a: i64, b: i64) -> i64 {
    if a - b > i64::MAX {
        i64::MAX
    } else if a - b < i64::MIN {
        i64::MIN
    } else {
        (a - b) as i64
    }
}

/// Subtract, clamping at the ends of the `i64` range.
pub fn sat_sub(a: i64, b: i64) -> (r: i64)
    ensures
        r == spec_sat_sub(a, b),
{
    match a.checked_sub(b) {
        Some(v) => v,
        None => if b < 0 {
            i64::MAX
        } else {
            i64::MIN
        },
    }
}

} // verus!
