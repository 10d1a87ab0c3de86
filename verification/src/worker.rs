//! Decision logic of the polling worker: the phase machine that drives
//! fetch/update/notify cycles with backoff, the clock-aligned wait before the
//! next cycle, and the escalation of repeated shutdown interrupts.
//!
//! The waits, the fetch and the deliveries themselves are outside work; the
//! unverified shell performs them and feeds the observed outcome back in as a
//! [`WorkerEvent`].

use vstd::prelude::*;

verus! {

/// Delay before a failed cycle is retried, in seconds.
pub const BACKOFF_SECONDS: u64 = 60;

/// The poll alignment granularity: cycles start on whole-minute boundaries.
pub const ALIGN_MILLIS: u64 = 60000;

/// Phase of the polling worker.
#[derive(Debug, Clone, Copy, PartialEq, Eq, Structural)]
pub enum WorkerPhase {
    /// About to start a cycle.
    Idle,
    /// A feed fetch is in flight.
    Fetching,
    /// The fresh batch is being persisted.
    Updating,
    /// Due subscribers are being notified.
    Notifying,
    /// Waiting for the next whole-minute boundary.
    Sleeping,
    /// A cycle failed; waiting the fixed backoff delay before refetching.
    Backoff,
    /// Cancellation was observed during a wait; the worker exits.
    Terminal,
}

/// What the worker observed since the last transition.
#[derive(Debug, Clone, Copy, PartialEq, Eq, Structural)]
pub enum WorkerEvent {
    /// A new cycle begins.
    CycleStarted,
    /// The feed returned a batch.
    FetchSucceeded,
    /// Transport or payload-format failure while fetching.
    FetchFailed,
    /// The batch was persisted.
    UpdateSucceeded,
    /// The store refused the batch write.
    UpdateFailed,
    /// Every due notification was attempted and recorded.
    NotifyCompleted,
    /// A transient delivery or a store failure abandoned the notify phase.
    NotifyAborted,
    /// The current wait ran to its end.
    WaitElapsed,
    /// Cancellation was observed during the current wait.
    CancelObserved,
}

/// The phase the worker enters when `event` is observed in `phase`.
///
/// Failures of any step lead to `Backoff`; cancellation is only observed
/// during the `Sleeping` and `Backoff` waits and leads to `Terminal`; an
/// event that cannot be observed in a phase leaves the phase unchanged.
pub open spec fn spec_worker_step(phase: WorkerPhase, event: WorkerEvent) -> WorkerPhase {
    match (phase, event) {
        (WorkerPhase::Idle, WorkerEvent::CycleStarted) => WorkerPhase::Fetching,
        (WorkerPhase::Fetching, WorkerEvent::FetchSucceeded) => WorkerPhase::Updating,
        (WorkerPhase::Fetching, WorkerEvent::FetchFailed) => WorkerPhase::Backoff,
        (WorkerPhase::Updating, WorkerEvent::UpdateSucceeded) => WorkerPhase::Notifying,
        (WorkerPhase::Updating, WorkerEvent::UpdateFailed) => WorkerPhase::Backoff,
        (WorkerPhase::Notifying, WorkerEvent::NotifyCompleted) => WorkerPhase::Sleeping,
        (WorkerPhase::Notifying, WorkerEvent::NotifyAborted) => WorkerPhase::Backoff,
        (WorkerPhase::Sleeping, WorkerEvent::WaitElapsed) => WorkerPhase::Idle,
        (WorkerPhase::Sleeping, WorkerEvent::CancelObserved) => WorkerPhase::Terminal,
        (WorkerPhase::Backoff, WorkerEvent::WaitElapsed) => WorkerPhase::Fetching,
        (WorkerPhase::Backoff, WorkerEvent::CancelObserved) => WorkerPhase::Terminal,
        _ => phase,
    }
}

/// Advance the worker's phase machine by one observed event.
pub fn worker_step(phase: WorkerPhase, event: WorkerEvent) -> (next: WorkerPhase)
    ensures
        next == spec_worker_step(phase, event),
{
    match (phase, event) {
        (WorkerPhase::Idle, WorkerEvent::CycleStarted) => WorkerPhase::Fetching,
        (WorkerPhase::Fetching, WorkerEvent::FetchSucceeded) => WorkerPhase::Updating,
        (WorkerPhase::Fetching, WorkerEvent::FetchFailed) => WorkerPhase::Backoff,
        (WorkerPhase::Updating, WorkerEvent::UpdateSucceeded) => WorkerPhase::Notifying,
        (WorkerPhase::Updating, WorkerEvent::UpdateFailed) => WorkerPhase::Backoff,
        (WorkerPhase::Notifying, WorkerEvent::NotifyCompleted) => WorkerPhase::Sleeping,
        (WorkerPhase::Notifying, WorkerEvent::NotifyAborted) => WorkerPhase::Backoff,
        (WorkerPhase::Sleeping, WorkerEvent::WaitElapsed) => WorkerPhase::Idle,
        (WorkerPhase::Sleeping, WorkerEvent::CancelObserved) => WorkerPhase::Terminal,
        (WorkerPhase::Backoff, WorkerEvent::WaitElapsed) => WorkerPhase::Fetching,
        (WorkerPhase::Backoff, WorkerEvent::CancelObserved) => WorkerPhase::Terminal,
        _ => phase,
    }
}

/// Milliseconds from `now_millis` to the next boundary that is a whole
/// multiple of `granularity_millis`: the wait that aligns cycle starts to the
/// clock. A moment exactly on a boundary waits a full granule.
pub fn millis_until_boundary(now_millis: u64, granularity_millis: u64) -> (r: u64)
    requires
        granularity_millis > 0,
    ensures
        0 < r <= granularity_millis,
        (now_millis + r) % (granularity_millis as int) == 0,
{
    let m = now_millis % granularity_millis;
    let r = granularity_millis - m;
    proof {
        let g = granularity_millis as int;
        let n = now_millis as int;
        let q = n / g;
        vstd::arithmetic::div_mod::lemma_fundamental_div_mod(n, g);
        vstd::arithmetic::div_mod::lemma_mod_multiples_basic(q + 1, g);
        assert(n + r == (q + 1) * g) by (nonlinear_arith)
            requires
                n == g * q + n % g && r == g - n % g,
        ;
    }
    r
}

/// Milliseconds from `now_millis` until the start of the next whole minute.
pub fn millis_until_next_minute(now_millis: u64) -> (r: u64)
    ensures
        0 < r <= ALIGN_MILLIS,
        (now_millis + r) % (ALIGN_MILLIS as int) == 0,
{
    millis_until_boundary(now_millis, ALIGN_MILLIS)
}

/// What one shutdown interrupt requests.
#[derive(Debug, Clone, Copy, PartialEq, Eq, Structural)]
pub enum ShutdownSignal {
    /// Request a graceful stop: running waits are abandoned cleanly.
    Graceful,
    /// Advisory only: a stop is already pending; nothing more is raised.
    Advisory,
    /// Raise the force-stop signal, preempting anything still running.
    Force,
}

/// What the `n`-th external interrupt (counted from 1) requests: the first
/// asks for a graceful stop, the second is advisory, the third forces a stop,
/// and the pattern repeats.
pub open spec fn spec_shutdown_signal(n: u64) -> ShutdownSignal {
    if n % 3 == 1 {
        ShutdownSignal::Graceful
    } else if n % 3 == 2 {
        ShutdownSignal::Advisory
    } else {
        ShutdownSignal::Force
    }
}

/// Classify the `n`-th external interrupt.
pub fn shutdown_signal(n: u64) -> (r: ShutdownSignal)
    requires
        n >= 1,
    ensures
        r == spec_shutdown_signal(n),
{
    let m = n % 3;
    if m == 1 {
        ShutdownSignal::Graceful
    } else if m == 2 {
        ShutdownSignal::Advisory
    } else {
        ShutdownSignal::Force
    }
}

} // verus!
