//! The event-state store: durable registry of subscribers, their per-event
//! notification progress, and the latest fetched event batch.
//!
//! One sled tree holds everything: one key per subscriber (the decimal text of
//! its chat id) whose value is its encoded progress record, and one reserved
//! key for the batch. The tree stands behind trusted functions; its contents
//! are named by [`kv`], and every operation's contract says exactly how the
//! byte map changes. Progress updates go through sled's atomic merge, whose
//! operator is the verified [`merge_progress_bytes`].

use vstd::prelude::*;

use crate::codec::base_of;
use crate::codec::batch_key;
use crate::codec::batch_key_bytes;
use crate::codec::chat_key;
use crate::codec::dec_chat_key;
use crate::codec::dec_progress;
use crate::codec::decode_chat_key;
use crate::codec::decode_progress;
use crate::codec::encode_chat_key;
use crate::codec::encode_progress;
use crate::codec::lemma_push_contains;
use crate::codec::lookup;
use crate::codec::pairs_map;
use crate::codec::progress_get;
use crate::codec::sat_sub;
use crate::codec::spec_merged;
use crate::codec::spec_sat_sub;
use crate::kv::kv;
use crate::kv::stored_at;
use crate::kv::kv_open;
use crate::kv::kv_open_temporary;
use crate::kv::kv_get;
use crate::kv::kv_insert;
use crate::kv::kv_remove;
use crate::kv::kv_contains;
use crate::kv::kv_merge;
use crate::kv::kv_entries;
use crate::kv::now_unix_seconds;
use crate::sched::due_tier;
use crate::sched::notify_tiers;
use crate::sched::spec_due_tier;
use crate::sched::default_tiers;
use crate::types::RLError;

verus! {

/// The durable store.
#[derive(Debug)]
pub struct Store {
    tree: sled::Db,
}

impl View for Store {
    type V = Map<Seq<u8>, Seq<u8>>;

    closed spec fn view(&self) -> Map<Seq<u8>, Seq<u8>> {
        kv(self.tree)
    }
}

/// The progress map recorded for a chat: what its record decodes to, or the
/// empty map when there is no record or it does not decode (fail-open).
pub open spec fn progress_of(m: Map<Seq<u8>, Seq<u8>>, c: i64) -> Map<u64, i64> {
    match stored_at(m, chat_key(c)) {
        Some(b) => base_of(dec_progress(b)),
        None => Map::empty(),
    }
}

/// How `subscribe` changes the store: the chat's key exists afterwards, its
/// record decodes to the progress it had before (empty when new), and nothing
/// else changes.
pub open spec fn subscribe_post(
    pre: Map<Seq<u8>, Seq<u8>>,
    c: i64,
    post: Map<Seq<u8>, Seq<u8>>,
) -> bool {
    &&& post.dom() == pre.dom().insert(chat_key(c))
    &&& dec_progress(post[chat_key(c)]) == Some(progress_of(pre, c))
    &&& forall|k: Seq<u8>| k != chat_key(c) && pre.dom().contains(k) ==> post[k] == pre[k]
    &&& dec_chat_key(chat_key(c)) == Some(c)
    &&& chat_key(c) != batch_key()
}

/// How `record_notification` changes the store: the chat's record decodes to
/// its prior progress with the one event's seconds overwritten, everything
/// else untouched.
pub open spec fn record_post(
    pre: Map<Seq<u8>, Seq<u8>>,
    c: i64,
    event: u64,
    seconds: i64,
    post: Map<Seq<u8>, Seq<u8>>,
) -> bool {
    &&& post.dom() == pre.dom().insert(chat_key(c))
    &&& dec_progress(post[chat_key(c)]) == Some(progress_of(pre, c).insert(event, seconds))
    &&& forall|k: Seq<u8>| k != chat_key(c) && pre.dom().contains(k) ==> post[k] == pre[k]
    &&& dec_chat_key(chat_key(c)) == Some(c)
    &&& chat_key(c) != batch_key()
}

/// How `unsubscribe` changes the store: the chat's key and record are gone,
/// nothing else changes; removing an absent chat changes nothing.
pub open spec fn unsubscribe_post(
    pre: Map<Seq<u8>, Seq<u8>>,
    c: i64,
    post: Map<Seq<u8>, Seq<u8>>,
) -> bool {
    &&& post == pre.remove(chat_key(c))
    &&& dec_chat_key(chat_key(c)) == Some(c)
    &&& chat_key(c) != batch_key()
}

/// How `replace_chat_id` changes the store. When the old chat has a record, it
/// is removed and lands at the new chat's key: unioned with the record already
/// there (the existing record losing ties), or moved verbatim when the new
/// chat has none. When the old chat has no record, nothing changes.
pub open spec fn migrate_post(
    pre: Map<Seq<u8>, Seq<u8>>,
    old_c: i64,
    new_c: i64,
    moved: bool,
    post: Map<Seq<u8>, Seq<u8>>,
) -> bool {
    let mid = pre.remove(chat_key(old_c));
    &&& dec_chat_key(chat_key(old_c)) == Some(old_c)
    &&& chat_key(old_c) != batch_key()
    &&& moved == pre.dom().contains(chat_key(old_c))
    &&& if !moved {
        post == pre
    } else {
        &&& dec_chat_key(chat_key(new_c)) == Some(new_c)
        &&& chat_key(new_c) != batch_key()
        &&& post.dom() == mid.dom().insert(chat_key(new_c))
        &&& (forall|k: Seq<u8>|
            k != chat_key(new_c) && mid.dom().contains(k) ==> post[k] == mid[k])
        &&& if mid.dom().contains(chat_key(new_c)) {
            dec_progress(post[chat_key(new_c)]) == Some(
                base_of(dec_progress(mid[chat_key(new_c)])).union_prefer_right(
                    base_of(dec_progress(pre[chat_key(old_c)])),
                ),
            )
        } else {
            post[chat_key(new_c)] == pre[chat_key(old_c)]
        }
    }
}

/// A stored entry whose key is a chat's and whose record decodes, for which
/// the scheduler finds a due tier at the given remaining seconds.
pub open spec fn due_entry(
    m: Map<Seq<u8>, Seq<u8>>,
    k: Seq<u8>,
    launch_id: u64,
    until: int,
) -> bool {
    &&& m.dom().contains(k)
    &&& dec_chat_key(k) is Some
    &&& dec_progress(m[k]) is Some
    &&& spec_due_tier(
        default_tiers(),
        progress_get(base_of(dec_progress(m[k])), launch_id),
        until,
    ) is Some
}

/// Whether some stored entry makes this chat due.
pub open spec fn due_chat(m: Map<Seq<u8>, Seq<u8>>, c: i64, launch_id: u64, until: int) -> bool {
    exists|k: Seq<u8>| #[trigger] due_entry(m, k, launch_id, until) && dec_chat_key(k) == Some(c)
}

/// `ids` holds exactly the chats due at `until` seconds before the event.
pub open spec fn due_for_time(
    m: Map<Seq<u8>, Seq<u8>>,
    launch_id: u64,
    ids: Seq<i64>,
    until: int,
) -> bool {
    forall|c: i64| #[trigger] ids.contains(c) <==> due_chat(m, c, launch_id, until)
}

/// The raw keys of the well-formed subscriber records.
pub open spec fn registry_keys(m: Map<Seq<u8>, Seq<u8>>) -> Set<Seq<u8>> {
    m.dom().filter(|k: Seq<u8>| dec_chat_key(k) is Some && dec_progress(m[k]) is Some)
}

/// A row of `iter`'s result reads back one stored record faithfully.
pub open spec fn row_ok(m: Map<Seq<u8>, Seq<u8>>, row: (i64, Vec<(u64, i64)>)) -> bool {
    exists|k: Seq<u8>| #[trigger]
        m.dom().contains(k) && dec_chat_key(k) == Some(row.0) && dec_progress(m[k]) == Some(
            pairs_map(row.1@),
        )
}

/// The record stored under `k` appears among the rows.
pub open spec fn row_covers(
    m: Map<Seq<u8>, Seq<u8>>,
    k: Seq<u8>,
    rows: Seq<(i64, Vec<(u64, i64)>)>,
) -> bool {
    exists|j: int|
        0 <= j < rows.len() && dec_chat_key(k) == Some((#[trigger] rows[j]).0) && dec_progress(
            m[k],
        ) == Some(pairs_map(rows[j].1@))
}

/// Subscribing is idempotent: after a second subscribe for the same chat the
/// registry has the same keys and every chat's progress means the same as
/// after the first.
pub proof fn lemma_subscribe_idempotent(
    d0: Map<Seq<u8>, Seq<u8>>,
    c: i64,
    d1: Map<Seq<u8>, Seq<u8>>,
    d2: Map<Seq<u8>, Seq<u8>>,
)
    requires
        subscribe_post(d0, c, d1),
        subscribe_post(d1, c, d2),
    ensures
        d2.dom() == d1.dom(),
        forall|k: Seq<u8>| k != chat_key(c) && d1.dom().contains(k) ==> d2[k] == d1[k],
        dec_progress(d2[chat_key(c)]) == dec_progress(d1[chat_key(c)]),
        forall|c2: i64| progress_of(d2, c2) == progress_of(d1, c2),
{
    assert(d1.dom().contains(chat_key(c)));
    assert(progress_of(d1, c) == progress_of(d0, c));
    assert(d2.dom() =~= d1.dom());
    assert forall|c2: i64| progress_of(d2, c2) == progress_of(d1, c2) by {
        if chat_key(c2) == chat_key(c) {
        } else {
            assert(d2.dom().contains(chat_key(c2)) == d1.dom().contains(chat_key(c2)));
        }
    }
}

/// Unsubscribing a chat that was never subscribed changes nothing at all; in
/// particular the registry keeps its size.
pub proof fn lemma_unsubscribe_absent_noop(
    d0: Map<Seq<u8>, Seq<u8>>,
    c: i64,
    d1: Map<Seq<u8>, Seq<u8>>,
)
    requires
        unsubscribe_post(d0, c, d1),
        !d0.dom().contains(chat_key(c)),
    ensures
        d1 == d0,
{
    assert(d1 =~= d0);
}

/// Recording notifications for two different events unions them: both stay in
/// the chat's progress, neither overwrites the other.
pub proof fn lemma_record_union(
    d0: Map<Seq<u8>, Seq<u8>>,
    c: i64,
    e1: u64,
    v1: i64,
    d1: Map<Seq<u8>, Seq<u8>>,
    e2: u64,
    v2: i64,
    d2: Map<Seq<u8>, Seq<u8>>,
)
    requires
        record_post(d0, c, e1, v1, d1),
        record_post(d1, c, e2, v2, d2),
        e1 != e2,
    ensures
        dec_progress(d2[chat_key(c)]) == Some(progress_of(d0, c).insert(e1, v1).insert(e2, v2)),
        progress_of(d2, c).dom().contains(e1) && progress_of(d2, c)[e1] == v1,
        progress_of(d2, c).dom().contains(e2) && progress_of(d2, c)[e2] == v2,
{
    assert(d1.dom().contains(chat_key(c)));
    assert(progress_of(d1, c) == progress_of(d0, c).insert(e1, v1));
    assert(d2.dom().contains(chat_key(c)));
}

/// Once a notification's remaining seconds are recorded, the chat's record no
/// longer makes it due for that event while the remaining time stays above
/// every strictly finer tier: one crossing, one notification.
pub proof fn lemma_record_blocks_retier(
    d0: Map<Seq<u8>, Seq<u8>>,
    c: i64,
    event: u64,
    v: i64,
    d1: Map<Seq<u8>, Seq<u8>>,
    until2: int,
)
    requires
        record_post(d0, c, event, v, d1),
        forall|j: int|
            0 <= j < default_tiers().len() && #[trigger] default_tiers()[j] < v ==> until2
                > default_tiers()[j],
    ensures
        !due_entry(d1, chat_key(c), event, until2),
{
    crate::sched::lemma_recorded_blocks_retier(default_tiers(), v, until2);
    let p = progress_of(d0, c).insert(event, v);
    assert(dec_progress(d1[chat_key(c)]) == Some(p));
    assert(progress_get(p, event) == Some(v));
}

/// An unsubscribed chat is gone from the registry: its key is absent, so no
/// later enumeration lists it.
pub proof fn lemma_unsubscribed_not_listed(
    d0: Map<Seq<u8>, Seq<u8>>,
    c: i64,
    d1: Map<Seq<u8>, Seq<u8>>,
)
    requires
        unsubscribe_post(d0, c, d1),
    ensures
        !d1.dom().contains(chat_key(c)),
        !registry_keys(d1).contains(chat_key(c)),
{
}

/// Migration is atomic: afterwards the source key is gone and the destination
/// holds the union of both progress maps, the migrated entries winning ties.
pub proof fn lemma_migrate_atomic(
    d0: Map<Seq<u8>, Seq<u8>>,
    oc: i64,
    nc: i64,
    moved: bool,
    d1: Map<Seq<u8>, Seq<u8>>,
    pa: Map<u64, i64>,
    pb: Map<u64, i64>,
)
    requires
        migrate_post(d0, oc, nc, moved, d1),
        oc != nc,
        d0.dom().contains(chat_key(oc)),
        dec_progress(d0[chat_key(oc)]) == Some(pa),
        d0.dom().contains(chat_key(nc)),
        dec_progress(d0[chat_key(nc)]) == Some(pb),
    ensures
        moved,
        !d1.dom().contains(chat_key(oc)),
        dec_progress(d1[chat_key(nc)]) == Some(pb.union_prefer_right(pa)),
{
    assert(chat_key(oc) != chat_key(nc));
    let mid = d0.remove(chat_key(oc));
    assert(mid.dom().contains(chat_key(nc)));
    assert(mid[chat_key(nc)] == d0[chat_key(nc)]);
    assert(!mid.dom().contains(chat_key(oc)));
}

impl Store {
    /// Open the durable store at `path`. What it already holds is unknown
    /// here; every operation states its effect relative to those contents.
    pub fn open(path: &str) -> Result<Store, RLError> {
        match kv_open(path) {
            Ok(tree) => Ok(Store { tree }),
            Err(_) => Err(RLError::Storage),
        }
    }

    /// Open a store at `path` whose files vanish when the handle drops.
    pub fn open_temporary(path: &str) -> Result<Store, RLError> {
        match kv_open_temporary(path) {
            Ok(tree) => Ok(Store { tree }),
            Err(_) => Err(RLError::Storage),
        }
    }

    /// Register a chat. Idempotent: an existing record keeps its progress.
    pub fn subscribe(&mut self, chat_id: i64) -> (r: Result<(), RLError>)
        ensures
            r is Ok ==> subscribe_post(old(self)@, chat_id, final (self)@),
            r is Err ==> r == Err::<(), RLError>(RLError::Storage),
    {
        let key = encode_chat_key(chat_id);
        let empty: Vec<(u64, i64)> = Vec::new();
        let delta = encode_progress(&empty);
        match kv_merge(&mut self.tree, key.as_slice(), delta.as_slice()) {
            Ok(()) => {
                proof {
                    let pre = old(self)@;
                    let b = choose|b: Seq<u8>|
                        kv(self.tree) == kv(old(self).tree).insert(key@, b) && dec_progress(b)
                            == Some(spec_merged(stored_at(kv(old(self).tree), key@), delta@));
                    assert(pairs_map(empty@) =~= Map::<u64, i64>::empty());
                    assert(spec_merged(stored_at(pre, chat_key(chat_id)), delta@) =~= progress_of(
                        pre,
                        chat_id,
                    ));
                    assert(self@.dom() =~= pre.dom().insert(chat_key(chat_id)));
                }
                Ok(())
            },
            Err(_) => Err(RLError::Storage),
        }
    }

    /// Record that a notification for `launch_id` went out with
    /// `seconds_remaining` seconds left: merged into the chat's record,
    /// overwriting that event's entry and no other.
    pub fn record_notification(&mut self, chat_id: i64, launch_id: u64, seconds_remaining: i64)
        -> (r: Result<(), RLError>)
        ensures
            r is Ok ==> record_post(old(self)@, chat_id, launch_id, seconds_remaining, final (self)@),
            r is Err ==> r == Err::<(), RLError>(RLError::Storage),
    {
        let key = encode_chat_key(chat_id);
        let mut one: Vec<(u64, i64)> = Vec::new();
        one.push((launch_id, seconds_remaining));
        let delta = encode_progress(&one);
        match kv_merge(&mut self.tree, key.as_slice(), delta.as_slice()) {
            Ok(()) => {
                proof {
                    let pre = old(self)@;
                    let b = choose|b: Seq<u8>|
                        kv(self.tree) == kv(old(self).tree).insert(key@, b) && dec_progress(b)
                            == Some(spec_merged(stored_at(kv(old(self).tree), key@), delta@));
                    assert(one@.drop_last() =~= Seq::<(u64, i64)>::empty());
                    assert(pairs_map(Seq::<(u64, i64)>::empty()) =~= Map::<u64, i64>::empty());
                    assert(one@.last() == (launch_id, seconds_remaining));
                    assert(pairs_map(one@) == pairs_map(one@.drop_last()).insert(
                        one@.last().0,
                        one@.last().1,
                    ));
                    assert(pairs_map(one@) =~= Map::<u64, i64>::empty().insert(
                        launch_id,
                        seconds_remaining,
                    ));
                    assert(spec_merged(stored_at(pre, chat_key(chat_id)), delta@) =~= progress_of(
                        pre,
                        chat_id,
                    ).insert(launch_id, seconds_remaining));
                    assert(self@.dom() =~= pre.dom().insert(chat_key(chat_id)));
                }
                Ok(())
            },
            Err(_) => Err(RLError::Storage),
        }
    }

    /// Record a notification for an event scheduled at `t0`, with the seconds
    /// remaining taken from the wall clock now.
    pub fn set_notified(&mut self, chat_id: i64, launch_id: u64, t0: i64) -> (r: Result<
        (),
        RLError,
    >)
        ensures
            r is Ok ==> exists|v: i64| record_post(old(self)@, chat_id, launch_id, v, final (self)@),
            r is Err ==> r == Err::<(), RLError>(RLError::Storage),
    {
        let now = now_unix_seconds();
        let seconds = sat_sub(t0, now);
        self.record_notification(chat_id, launch_id, seconds)
    }

    /// Remove a chat and all its progress. Not an error when absent.
    pub fn unsubscribe(&mut self, chat_id: i64) -> (r: Result<(), RLError>)
        ensures
            r is Ok ==> unsubscribe_post(old(self)@, chat_id, final (self)@),
            r is Err ==> r == Err::<(), RLError>(RLError::Storage),
    {
        let key = encode_chat_key(chat_id);
        match kv_remove(&mut self.tree, key.as_slice()) {
            Ok(_) => Ok(()),
            Err(_) => Err(RLError::Storage),
        }
    }

    /// Move a chat's whole record to a new identifier, unioning with whatever
    /// the new identifier already holds; returns whether the old chat had a
    /// record at all.
    pub fn replace_chat_id(&mut self, old_chat_id: i64, new_chat_id: i64) -> (r: Result<
        bool,
        RLError,
    >)
        ensures
            r matches Ok(moved) ==> migrate_post(old(self)@, old_chat_id, new_chat_id, moved, final (self)@),
            r is Err ==> r == Err::<bool, RLError>(RLError::Storage),
    {
        let old_key = encode_chat_key(old_chat_id);
        let data = match kv_remove(&mut self.tree, old_key.as_slice()) {
            Ok(Some(data)) => data,
            Ok(None) => {
                proof {
                    assert(self@ =~= old(self)@.remove(chat_key(old_chat_id)));
                    assert(self@ =~= old(self)@);
                }
                return Ok(false);
            },
            Err(_) => {
                return Err(RLError::Storage);
            },
        };
        let ghost pre = old(self)@;
        let ghost mid = kv(self.tree);
        let new_key = encode_chat_key(new_chat_id);
        let present = match kv_contains(&self.tree, new_key.as_slice()) {
            Ok(b) => b,
            Err(_) => {
                return Err(RLError::Storage);
            },
        };
        if present {
            match kv_merge(&mut self.tree, new_key.as_slice(), data.as_slice()) {
                Ok(()) => {
                    proof {
                        let b = choose|b: Seq<u8>|
                            kv(self.tree) == mid.insert(new_key@, b) && dec_progress(b) == Some(
                                spec_merged(stored_at(mid, new_key@), data@),
                            );
                        assert(spec_merged(stored_at(mid, chat_key(new_chat_id)), data@) =~= base_of(
                            dec_progress(mid[chat_key(new_chat_id)]),
                        ).union_prefer_right(base_of(dec_progress(pre[chat_key(old_chat_id)]))));
                        assert(self@.dom() =~= mid.dom().insert(chat_key(new_chat_id)));
                    }
                    Ok(true)
                },
                Err(_) => Err(RLError::Storage),
            }
        } else {
            match kv_insert(&mut self.tree, new_key.as_slice(), data.as_slice()) {
                Ok(()) => {
                    proof {
                        assert(self@.dom() =~= mid.dom().insert(chat_key(new_chat_id)));
                    }
                    Ok(true)
                },
                Err(_) => Err(RLError::Storage),
            }
        }
    }

    /// Replace the stored event batch wholesale with the given bytes.
    pub fn set_launches(&mut self, batch: &Vec<u8>) -> (r: Result<(), RLError>)
        ensures
            r is Ok ==> final (self)@ == old(self)@.insert(batch_key(), batch@),
            r is Err ==> r == Err::<(), RLError>(RLError::Storage),
    {
        let key = batch_key_bytes();
        match kv_insert(&mut self.tree, key.as_slice(), batch.as_slice()) {
            Ok(()) => Ok(()),
            Err(_) => Err(RLError::Storage),
        }
    }

    /// The stored event batch's bytes, if a batch was ever stored.
    pub fn get_launches(&self) -> (r: Result<Option<Vec<u8>>, RLError>)
        ensures
            r matches Ok(v) ==> (v is Some <==> self@.dom().contains(batch_key())),
            r matches Ok(Some(b)) ==> b@ == self@[batch_key()],
            r is Err ==> r == Err::<Option<Vec<u8>>, RLError>(RLError::Storage),
    {
        let key = batch_key_bytes();
        match kv_get(&self.tree, key.as_slice()) {
            Ok(v) => Ok(v),
            Err(_) => Err(RLError::Storage),
        }
    }

    /// The chats due for a notification for `launch_id` scheduled at
    /// `launch_t0`, judged at time `now` against the fixed tiers. A malformed
    /// stored record is skipped, never an error.
    #[verifier::loop_isolation(false)]
    pub fn due_subscribers(&self, launch_id: u64, launch_t0: i64, now: i64) -> (r: Result<
        Vec<i64>,
        RLError,
    >)
        ensures
            r matches Ok(ids) ==> due_for_time(
                self@,
                launch_id,
                ids@,
                spec_sat_sub(launch_t0, now) as int,
            ),
            r is Err ==> r == Err::<Vec<i64>, RLError>(RLError::Storage),
    {
        let until = sat_sub(launch_t0, now);
        let tiers = notify_tiers();
        let entries = match kv_entries(&self.tree) {
            Ok(es) => es,
            Err(_) => {
                return Err(RLError::Storage);
            },
        };
        let ghost m = self@;
        let mut ids: Vec<i64> = Vec::new();
        let mut i: usize = 0;
        while i < entries.len()
            invariant
                0 <= i <= entries@.len(),
                forall|c: i64| #[trigger]
                    ids@.contains(c) <==> exists|j: int|
                        0 <= j < i && due_entry(m, (#[trigger] entries@[j]).0@, launch_id, until as int)
                            && dec_chat_key(entries@[j].0@) == Some(c),
            decreases entries@.len() - i,
        {
            let ghost ids_pre = ids@;
            let entry_key = &entries[i].0;
            let entry_val = &entries[i].1;
            let mut pushed: Option<i64> = None;
            match decode_chat_key(entry_key.as_slice()) {
                None => {},
                Some(c) => {
                    match decode_progress(entry_val.as_slice()) {
                        None => {},
                        Some(pairs) => {
                            let last = lookup(&pairs, launch_id);
                            if due_tier(&tiers, last, until).is_some() {
                                ids.push(c);
                                pushed = Some(c);
                            }
                        },
                    }
                },
            }
            proof {
                match pushed {
                Some(c) => {
                    assert(due_entry(m, entries@[i as int].0@, launch_id, until as int));
                    assert forall|d: i64| #[trigger] ids@.contains(d) implies exists|j: int|
                        0 <= j < i + 1 && due_entry(
                            m,
                            (#[trigger] entries@[j]).0@,
                            launch_id,
                            until as int,
                        ) && dec_chat_key(entries@[j].0@) == Some(d) by {
                        lemma_push_contains(ids_pre, c, d);
                        if d == c {
                            assert(due_entry(m, (entries@[i as int]).0@, launch_id, until as int)
                                && dec_chat_key(entries@[i as int].0@) == Some(d));
                        }
                    }
                    assert forall|d: i64|
                        exists|j: int|
                            0 <= j < i + 1 && due_entry(
                                m,
                                (#[trigger] entries@[j]).0@,
                                launch_id,
                                until as int,
                            ) && dec_chat_key(entries@[j].0@) == Some(d) implies #[trigger] ids@.contains(
                        d,
                    ) by {
                        lemma_push_contains(ids_pre, c, d);
                    }
                },
                None => {
                    assert(!due_entry(m, entries@[i as int].0@, launch_id, until as int));
                },
                }
            }
            i = i + 1;
        }
        proof {
            assert forall|c: i64| #[trigger] ids@.contains(c) implies due_chat(
                m,
                c,
                launch_id,
                until as int,
            ) by {
                let j = choose|j: int|
                    0 <= j < entries@.len() && due_entry(
                        m,
                        (#[trigger] entries@[j]).0@,
                        launch_id,
                        until as int,
                    ) && dec_chat_key(entries@[j].0@) == Some(c);
                assert(due_entry(m, entries@[j].0@, launch_id, until as int) && dec_chat_key(
                    entries@[j].0@,
                ) == Some(c));
            }
            assert forall|c: i64| due_chat(m, c, launch_id, until as int) implies #[trigger] ids@.contains(
                c,
            ) by {
                let k = choose|k: Seq<u8>| #[trigger]
                    due_entry(m, k, launch_id, until as int) && dec_chat_key(k) == Some(c);
                let j = choose|j: int| 0 <= j < entries@.len() && (#[trigger] entries@[j]).0@ == k;
                assert(due_entry(m, entries@[j].0@, launch_id, until as int));
            }
        }
        Ok(ids)
    }

    /// The chats due for a notification judged at the wall clock now.
    pub fn get_unnotified(&self, launch_id: u64, launch_t0: i64) -> (r: Result<Vec<i64>, RLError>)
        ensures
            r matches Ok(ids) ==> exists|until: int| #[trigger]
                due_for_time(self@, launch_id, ids@, until),
            r is Err ==> r == Err::<Vec<i64>, RLError>(RLError::Storage),
    {
        let now = now_unix_seconds();
        match self.due_subscribers(launch_id, launch_t0, now) {
            Ok(ids) => {
                proof {
                    assert(due_for_time(
                        self@,
                        launch_id,
                        ids@,
                        spec_sat_sub(launch_t0, now) as int,
                    ));
                }
                Ok(ids)
            },
            Err(_) => Err(RLError::Storage),
        }
    }

    /// Every well-formed subscriber record: the chat id and its decoded
    /// progress. Records whose key or value does not decode are skipped, the
    /// deliberate fail-open reading of corrupt data.
    #[verifier::rlimit(50)]
    #[verifier::loop_isolation(false)]
    pub fn iter(&self) -> (r: Result<Vec<(i64, Vec<(u64, i64)>)>, RLError>)
        ensures
            r matches Ok(rows) ==> forall|j: int|
                0 <= j < rows@.len() ==> row_ok(self@, #[trigger] rows@[j]),
            r matches Ok(rows) ==> forall|k: Seq<u8>|
                self@.dom().contains(k) && dec_chat_key(k) is Some && dec_progress(
                    self@[k],
                ) is Some ==> #[trigger] row_covers(self@, k, rows@),
            r is Err ==> r == Err::<Vec<(i64, Vec<(u64, i64)>)>, RLError>(RLError::Storage),
    {
        let entries = match kv_entries(&self.tree) {
            Ok(es) => es,
            Err(_) => {
                return Err(RLError::Storage);
            },
        };
        let ghost m = self@;
        let mut rows: Vec<(i64, Vec<(u64, i64)>)> = Vec::new();
        let mut i: usize = 0;
        while i < entries.len()
            invariant
                0 <= i <= entries@.len(),
                forall|j: int| 0 <= j < rows@.len() ==> row_ok(m, #[trigger] rows@[j]),
                forall|j: int|
                    0 <= j < i && dec_chat_key((#[trigger] entries@[j]).0@) is Some && dec_progress(
                        m[entries@[j].0@],
                    ) is Some ==> row_covers(m, entries@[j].0@, rows@),
            decreases entries@.len() - i,
        {
            let entry_key = &entries[i].0;
            let entry_val = &entries[i].1;
            match decode_chat_key(entry_key.as_slice()) {
                None => {},
                Some(c) => {
                    match decode_progress(entry_val.as_slice()) {
                        None => {},
                        Some(pairs) => {
                            let ghost rows_pre = rows@;
                            let ghost kk = entries@[i as int].0@;
                            rows.push((c, pairs));
                            proof {
                                let jn = rows_pre.len() as int;
                                assert(rows@[jn].0 == c && rows@[jn].1 == pairs);
                                assert(m.dom().contains(kk) && dec_chat_key(kk) == Some(c)
                                    && dec_progress(m[kk]) == Some(pairs_map(pairs@)));
                                assert(row_ok(m, rows@[jn]));
                                assert(row_covers(m, kk, rows@));
                                assert forall|k2: Seq<u8>| row_covers(m, k2, rows_pre) implies #[trigger] row_covers(
                                    m,
                                    k2,
                                    rows@,
                                ) by {
                                    let j2 = choose|j2: int|
                                        0 <= j2 < rows_pre.len() && dec_chat_key(k2) == Some(
                                            (#[trigger] rows_pre[j2]).0,
                                        ) && dec_progress(m[k2]) == Some(pairs_map(rows_pre[j2].1@));
                                    assert(rows@[j2] == rows_pre[j2]);
                                }
                            }
                        },
                    }
                },
            }
            i = i + 1;
        }
        proof {
            assert forall|k: Seq<u8>|
                m.dom().contains(k) && dec_chat_key(k) is Some && dec_progress(
                    m[k],
                ) is Some implies #[trigger] row_covers(m, k, rows@) by {
                let j = choose|j: int| 0 <= j < entries@.len() && (#[trigger] entries@[j]).0@ == k;
                assert(dec_chat_key(entries@[j].0@) is Some && dec_progress(m[entries@[j].0@]) is Some);
            }
        }
        Ok(rows)
    }

    /// How many well-formed subscriber records the store holds.
    #[verifier::loop_isolation(false)]
    pub fn subscribers_count(&self) -> (r: Result<usize, RLError>)
        ensures
            r matches Ok(n) ==> registry_keys(self@).finite() && n == registry_keys(self@).len(),
            r is Err ==> r == Err::<usize, RLError>(RLError::Storage),
    {
        let entries = match kv_entries(&self.tree) {
            Ok(es) => es,
            Err(_) => {
                return Err(RLError::Storage);
            },
        };
        let ghost m = self@;
        let ghost mut seen: Set<Seq<u8>> = Set::empty();
        let mut count: usize = 0;
        let mut i: usize = 0;
        while i < entries.len()
            invariant
                0 <= i <= entries@.len(),
                seen.finite(),
                count == seen.len(),
                count <= i,
                forall|k: Seq<u8>| #[trigger]
                    seen.contains(k) <==> exists|j: int|
                        0 <= j < i && (#[trigger] entries@[j]).0@ == k && dec_chat_key(
                            entries@[j].0@,
                        ) is Some && dec_progress(m[entries@[j].0@]) is Some,
            decreases entries@.len() - i,
        {
            let entry_key = &entries[i].0;
            let entry_val = &entries[i].1;
            let valid = match decode_chat_key(entry_key.as_slice()) {
                None => false,
                Some(_) => decode_progress(entry_val.as_slice()).is_some(),
            };
            if valid {
                proof {
                    assert(!seen.contains(entries@[i as int].0@));
                    seen = seen.insert(entries@[i as int].0@);
                }
                count = count + 1;
            }
            i = i + 1;
        }
        proof {
            assert(seen =~= registry_keys(m)) by {
                assert forall|k: Seq<u8>| #[trigger] seen.contains(k) implies registry_keys(
                    m,
                ).contains(k) by {}
                assert forall|k: Seq<u8>| #[trigger]
                    registry_keys(m).contains(k) implies seen.contains(k) by {
                    let j = choose|j: int|
                        0 <= j < entries@.len() && (#[trigger] entries@[j]).0@ == k;
                }
            }
        }
        Ok(count)
    }
}

} // verus!
