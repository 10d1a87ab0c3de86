//! The notification scheduler: pure decision logic that, given the fixed
//! descending list of threshold tiers, the seconds-remaining value recorded at
//! the last notification (if any), and the seconds until the event, decides
//! whether a subscriber is due for a notification and at which tier.

use vstd::prelude::*;

verus! {

/// The fixed threshold tiers, longest to shortest: one day, one hour, fifteen
/// minutes, in seconds.
pub open spec fn default_tiers() -> Seq<i64> {
    seq![86400i64, 3600i64, 900i64]
}

/// The fixed threshold tiers as a vector.
pub fn notify_tiers() -> (r: Vec<i64>)
    ensures
        r@ == default_tiers(),
{
    let r: Vec<i64> = vec![86400i64, 3600i64, 900i64];
    proof {
        assert(r@ =~= default_tiers());
    }
    r
}

/// Which tier, if any, a subscriber is due at: the first tier in the list that
/// was not already covered by the last recorded value and that the remaining
/// time has reached. A subscriber with no recorded value was never notified,
/// so no tier is skipped for it.
pub open spec fn spec_due_tier(tiers: Seq<i64>, last: Option<i64>, until_launch: int) -> Option<i64>
    decreases tiers.len(),
{
    if tiers.len() == 0 {
        None
    } else {
        let t = tiers[0];
        if (last matches Some(l) && l <= t) {
            spec_due_tier(tiers.drop_first(), last, until_launch)
        } else if until_launch <= t {
            Some(t)
        } else {
            spec_due_tier(tiers.drop_first(), last, until_launch)
        }
    }
}

/// Decide whether a notification is due, returning the matched tier.
///
/// `last` is the seconds-remaining value recorded when the subscriber was last
/// notified for this event; `None` means it was never notified.
pub fn due_tier(tiers: &Vec<i64>, last: Option<i64>, until_launch: i64) -> (r: Option<i64>)
    ensures
        r == spec_due_tier(tiers@, last, until_launch as int),
{
    proof {
        assert(tiers@.skip(0) =~= tiers@);
    }
    let mut i: usize = 0;
    while i < tiers.len()
        invariant
            0 <= i <= tiers@.len(),
            spec_due_tier(tiers@, last, until_launch as int) == spec_due_tier(
                tiers@.skip(i as int),
                last,
                until_launch as int,
            ),
        decreases tiers@.len() - i,
    {
        let t = tiers[i];
        let skipped = match last {
            Some(l) => l <= t,
            None => false,
        };
        proof {
            assert(tiers@.skip(i as int).drop_first() =~= tiers@.skip(i + 1));
        }
        if !skipped && until_launch <= t {
            return Some(t);
        }
        i = i + 1;
    }
    None
}

/// A matched tier is one of the list, the remaining time has reached it, and
/// it lies strictly under whatever was recorded: crossing a threshold is
/// notified at most once.
pub proof fn lemma_due_tier_sound(tiers: Seq<i64>, last: Option<i64>, until: int)
    ensures
        spec_due_tier(tiers, last, until) matches Some(t) ==> tiers.contains(t) && until <= t && (
        last matches Some(l) ==> t < l),
    decreases tiers.len(),
{
    if tiers.len() > 0 {
        lemma_due_tier_sound(tiers.drop_first(), last, until);
        match spec_due_tier(tiers, last, until) {
            Some(t) => {
                if spec_due_tier(tiers.drop_first(), last, until) == Some(t) {
                    let i = choose|i: int|
                        0 <= i < tiers.drop_first().len() && tiers.drop_first()[i] == t;
                    assert(tiers[i + 1] == t);
                } else {
                    assert(tiers[0] == t);
                }
            },
            None => {},
        }
    }
}

/// While the remaining time still exceeds every tier, nobody is due.
pub proof fn lemma_not_due_above_all_tiers(tiers: Seq<i64>, last: Option<i64>, until: int)
    requires
        forall|j: int| 0 <= j < tiers.len() ==> until > #[trigger] tiers[j],
    ensures
        spec_due_tier(tiers, last, until) is None,
    decreases tiers.len(),
{
    if tiers.len() > 0 {
        assert(forall|j: int|
            0 <= j < tiers.drop_first().len() ==> until > #[trigger] tiers.drop_first()[j]);
        lemma_not_due_above_all_tiers(tiers.drop_first(), last, until);
    }
}

/// Once a notification's remaining seconds `v` are recorded, no tier matches
/// again until the remaining time falls to some tier finer than `v`: the tier
/// just notified cannot fire twice.
pub proof fn lemma_recorded_blocks_retier(tiers: Seq<i64>, v: i64, until: int)
    requires
        forall|j: int| 0 <= j < tiers.len() && #[trigger] tiers[j] < v ==> until > tiers[j],
    ensures
        spec_due_tier(tiers, Some(v), until) is None,
    decreases tiers.len(),
{
    if tiers.len() > 0 {
        assert(forall|j: int|
            0 <= j < tiers.drop_first().len() && #[trigger] tiers.drop_first()[j] < v ==> until
                > tiers.drop_first()[j]) by {
            assert(forall|j: int|
                0 <= j < tiers.drop_first().len() ==> tiers.drop_first()[j] == #[trigger] tiers[j
                    + 1]);
        }
        lemma_recorded_blocks_retier(tiers.drop_first(), v, until);
        assert(tiers[0] == tiers[0]);
    }
}

} // verus!
