//! Supervision of one synchronization handshake, raced against a deadline.

use crate::reputation::{ReputationStore, ReputationView};
use vstd::prelude::*;

verus! {

/// Deadline for a handshake to complete, in milliseconds.
pub const HANDSHAKE_DEADLINE_MS: u64 = 10_000;

/// How a handshake ended.
#[derive(Clone, Copy, Debug, PartialEq, Eq, Structural)]
pub enum HandshakeOutcome {
    Succeeded,
    Failed,
    TimedOut,
}

/// State of a supervised handshake.
#[derive(Clone, Copy, Debug, PartialEq, Eq, Structural)]
pub enum HandshakePhase {
    Started,
    Finished(HandshakeOutcome),
}

/// What the supervisor observes while a handshake runs.
#[derive(Clone, Copy, Debug, PartialEq, Eq, Structural)]
pub enum HandshakeEvent {
    /// The backend reported a completed handshake.
    Completed,
    /// The backend reported an error.
    BackendError,
    /// The deadline elapsed first.
    DeadlineElapsed,
}

pub open spec fn outcome_of(event: HandshakeEvent) -> HandshakeOutcome {
    match event {
        HandshakeEvent::Completed => HandshakeOutcome::Succeeded,
        HandshakeEvent::BackendError => HandshakeOutcome::Failed,
        HandshakeEvent::DeadlineElapsed => HandshakeOutcome::TimedOut,
    }
}

pub open spec fn next_phase(phase: HandshakePhase, event: HandshakeEvent) -> HandshakePhase {
    match phase {
        HandshakePhase::Started => HandshakePhase::Finished(outcome_of(event)),
        HandshakePhase::Finished(o) => HandshakePhase::Finished(o),
    }
}

/// Whether an outcome counts against the address.
pub open spec fn counts_as_failure(outcome: HandshakeOutcome) -> bool {
    outcome != HandshakeOutcome::Succeeded
}

/// The reputation after an outcome for `a` at time `now`.
pub open spec fn after_outcome(
    v: ReputationView,
    a: u128,
    outcome: HandshakeOutcome,
    now: u64,
) -> ReputationView {
    if counts_as_failure(outcome) {
        v.after_failure(a, now)
    } else {
        v.after_success(a)
    }
}

/// Moves a handshake on by one event; the first event decides, and a finished
/// handshake stays as it ended.
pub fn advance(phase: HandshakePhase, event: HandshakeEvent) -> (r: HandshakePhase)
    ensures
        r == next_phase(phase, event),
{
    match phase {
        HandshakePhase::Started => {
            let outcome = match event {
                HandshakeEvent::Completed => HandshakeOutcome::Succeeded,
                HandshakeEvent::BackendError => HandshakeOutcome::Failed,
                HandshakeEvent::DeadlineElapsed => HandshakeOutcome::TimedOut,
            };
            HandshakePhase::Finished(outcome)
        },
        HandshakePhase::Finished(o) => HandshakePhase::Finished(o),
    }
}

/// Reports a finished handshake to the ban policy: a success rehabilitates the
/// address, a failure or a timeout counts one failed attempt. Returns whether
/// a ban was imposed.
pub fn settle(store: &mut ReputationStore, addr: u128, outcome: HandshakeOutcome, now: u64) -> (r:
    bool)
    requires
        old(store).wf(),
    ensures
        final(store).wf(),
        final(store)@ == after_outcome(old(store)@, addr, outcome, now),
        r == (counts_as_failure(outcome) && old(store)@.failure_bans(addr)),
{
    match outcome {
        HandshakeOutcome::Succeeded => {
            store.record_success(addr);
            false
        },
        _ => store.record_failure(addr, now),
    }
}

/// A timeout counts exactly as a protocol failure does.
pub proof fn lemma_timeout_counts_as_failure(v: ReputationView, a: u128, now: u64)
    ensures
        after_outcome(v, a, HandshakeOutcome::TimedOut, now) == after_outcome(
            v,
            a,
            HandshakeOutcome::Failed,
            now,
        ),
        after_outcome(v, a, HandshakeOutcome::TimedOut, now) == v.after_failure(a, now),
{
}

} // verus!
