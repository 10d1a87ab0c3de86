//! The decisions of the notify phase: which deliveries a cycle owes, and what
//! one delivery's classified outcome does to the store.
//!
//! Sending itself is outside work; the shell walks the plan, delivers, and
//! hands each outcome to [`apply_delivery`].

use vstd::prelude::*;

use crate::codec::lemma_push_contains;
use crate::codec::sat_sub;
use crate::codec::spec_sat_sub;
use crate::db::due_chat;
use crate::db::due_for_time;
use crate::db::migrate_post;
use crate::db::record_post;
use crate::db::unsubscribe_post;
use crate::db::Store;
use crate::types::DeliveryStatus;
use crate::types::Launch;
use crate::types::RLError;

verus! {

/// Whether the worker goes on with the cycle's remaining deliveries.
#[derive(Debug, Clone, Copy, PartialEq, Eq, Structural)]
pub enum NotifyStep {
    /// Go on with the next due delivery.
    Continue,
    /// Abandon the remainder of the notify phase; the cycle failed.
    AbortCycle,
}

/// One delivery a cycle owes: a chat, the event, and the seconds remaining
/// that a successful delivery will record.
#[derive(Debug, Clone, Copy, PartialEq, Eq, Structural)]
pub struct PlannedNotification {
    pub chat_id: i64,
    pub launch_id: u64,
    pub seconds_remaining: i64,
}

/// `p` belongs to the plan for launch `i`: that launch has a scheduled
/// instant, carries `p`'s event id and seconds, and `p`'s chat is due for it.
pub open spec fn planned_at(
    m: Map<Seq<u8>, Seq<u8>>,
    launches: Seq<Launch>,
    now: i64,
    i: int,
    p: PlannedNotification,
) -> bool {
    &&& launches[i].id == p.launch_id
    &&& launches[i].t0 matches Some(t0) && p.seconds_remaining == spec_sat_sub(t0, now)
        && due_chat(m, p.chat_id, p.launch_id, spec_sat_sub(t0, now) as int)
}

/// `p` belongs to the plan for some launch of the batch.
pub open spec fn planned(
    m: Map<Seq<u8>, Seq<u8>>,
    launches: Seq<Launch>,
    now: i64,
    p: PlannedNotification,
) -> bool {
    exists|i: int| 0 <= i < launches.len() && #[trigger] planned_at(m, launches, now, i, p)
}

/// Every delivery the batch owes at time `now`: for each launch with a
/// scheduled instant, one entry per due subscriber, with the seconds
/// remaining a success will record.
#[verifier::loop_isolation(false)]
pub fn notification_plan(store: &Store, launches: &Vec<Launch>, now: i64) -> (r: Result<
    Vec<PlannedNotification>,
    RLError,
>)
    ensures
        r matches Ok(plan) ==> forall|j: int|
            0 <= j < plan@.len() ==> planned(store@, launches@, now, #[trigger] plan@[j]),
        r matches Ok(plan) ==> forall|p: PlannedNotification|
            #[trigger] planned(store@, launches@, now, p) ==> plan@.contains(p),
        r is Err ==> r == Err::<Vec<PlannedNotification>, RLError>(RLError::Storage),
{
    let ghost m = store@;
    let mut plan: Vec<PlannedNotification> = Vec::new();
    let mut i: usize = 0;
    while i < launches.len()
        invariant
            0 <= i <= launches@.len(),
            forall|j: int| 0 <= j < plan@.len() ==> planned(m, launches@, now, #[trigger] plan@[j]),
            forall|p: PlannedNotification, ii: int|
                0 <= ii < i && #[trigger] planned_at(m, launches@, now, ii, p) ==> plan@.contains(
                    p,
                ),
        decreases launches@.len() - i,
    {
        let t0 = match launches[i].t0 {
            Some(t0) => t0,
            None => {
                i = i + 1;
                continue ;
            },
        };
        let seconds = sat_sub(t0, now);
        let launch_id = launches[i].id;
        let ids = match store.due_subscribers(launch_id, t0, now) {
            Ok(ids) => ids,
            Err(_) => {
                return Err(RLError::Storage);
            },
        };
        let mut j: usize = 0;
        while j < ids.len()
            invariant
                0 <= j <= ids@.len(),
                forall|jj: int|
                    0 <= jj < plan@.len() ==> planned(m, launches@, now, #[trigger] plan@[jj]),
                forall|p: PlannedNotification, ii: int|
                    0 <= ii < i && #[trigger] planned_at(m, launches@, now, ii, p)
                        ==> plan@.contains(p),
                forall|jj: int|
                    0 <= jj < j ==> plan@.contains(
                        (PlannedNotification {
                            chat_id: #[trigger] ids@[jj],
                            launch_id: launch_id,
                            seconds_remaining: seconds,
                        }),
                    ),
            decreases ids@.len() - j,
        {
            let ghost plan_pre = plan@;
            let p = PlannedNotification {
                chat_id: ids[j],
                launch_id,
                seconds_remaining: seconds,
            };
            plan.push(p);
            proof {
                assert(ids@.contains(ids@[j as int]));
                assert(due_chat(m, p.chat_id, launch_id, spec_sat_sub(t0, now) as int));
                assert(planned_at(m, launches@, now, i as int, p));
                assert(plan@ == plan_pre.push(p));
                assert forall|q: PlannedNotification| plan_pre.contains(q) implies plan@.contains(
                    q,
                ) by {
                    lemma_push_contains(plan_pre, p, q);
                }
                assert(plan@.contains(p)) by {
                    lemma_push_contains(plan_pre, p, p);
                }
            }
            j = j + 1;
        }
        proof {
            assert forall|p: PlannedNotification|
                planned_at(m, launches@, now, i as int, p) implies plan@.contains(p) by {
                assert(due_chat(m, p.chat_id, p.launch_id, spec_sat_sub(t0, now) as int));
                assert(ids@.contains(p.chat_id));
                let jj = choose|jj: int| 0 <= jj < ids@.len() && ids@[jj] == p.chat_id;
                assert(plan@.contains(
                    (PlannedNotification {
                        chat_id: ids@[jj],
                        launch_id: launch_id,
                        seconds_remaining: seconds,
                    }),
                ));
            }
        }
        i = i + 1;
    }
    proof {
        assert forall|p: PlannedNotification| #[trigger]
            planned(m, launches@, now, p) implies plan@.contains(p) by {
            let ii = choose|ii: int|
                0 <= ii < launches@.len() && #[trigger] planned_at(m, launches@, now, ii, p);
        }
    }
    Ok(plan)
}

/// Apply one delivery's classified outcome to the store, as the worker reacts
/// to it: a success records the progress; a permanent failure unsubscribes
/// the chat, surfacing no error to the cycle; a migration moves the chat's
/// record (the notification stays unrecorded, to be retried against the new
/// identifier); a transient failure mutates nothing and abandons the rest of
/// the notify phase.
pub fn apply_delivery(
    store: &mut Store,
    chat_id: i64,
    launch_id: u64,
    seconds_remaining: i64,
    outcome: DeliveryStatus,
) -> (r: Result<NotifyStep, RLError>)
    ensures
        r matches Ok(step) ==> match outcome {
            DeliveryStatus::Success => record_post(
                old(store)@,
                chat_id,
                launch_id,
                seconds_remaining,
                final (store)@,
            ) && step == NotifyStep::Continue,
            DeliveryStatus::Permanent => unsubscribe_post(old(store)@, chat_id, final (store)@)
                && step == NotifyStep::Continue,
            DeliveryStatus::Migrated(new_chat_id) => step == NotifyStep::Continue && exists|
                moved: bool,
            | #[trigger] migrate_post(old(store)@, chat_id, new_chat_id, moved, final (store)@),
            DeliveryStatus::Transient => final (store)@ == old(store)@ && step
                == NotifyStep::AbortCycle,
        },
        r is Err ==> r == Err::<NotifyStep, RLError>(RLError::Storage),
{
    match outcome {
        DeliveryStatus::Success => {
            match store.record_notification(chat_id, launch_id, seconds_remaining) {
                Ok(()) => Ok(NotifyStep::Continue),
                Err(_) => Err(RLError::Storage),
            }
        },
        DeliveryStatus::Permanent => {
            match store.unsubscribe(chat_id) {
                Ok(()) => Ok(NotifyStep::Continue),
                Err(_) => Err(RLError::Storage),
            }
        },
        DeliveryStatus::Migrated(new_chat_id) => {
            match store.replace_chat_id(chat_id, new_chat_id) {
                Ok(_) => Ok(NotifyStep::Continue),
                Err(_) => Err(RLError::Storage),
            }
        },
        DeliveryStatus::Transient => Ok(NotifyStep::AbortCycle),
    }
}

} // verus!
