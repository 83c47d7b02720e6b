//! Triage of an accepted connection: the ban gate first, then the sniffed
//! protocol decides where the stream goes.

use crate::reputation::{Admission, ReputationStore};
use crate::sniff::{classification, classify, Sniffed};
use vstd::prelude::*;

verus! {

/// What to do next with an accepted connection.
#[derive(Clone, Copy, Debug, PartialEq, Eq, Structural)]
pub enum ConnectionAction {
    /// Drop it without reading or recording anything.
    Drop,
    /// Peek at the stream again: the bytes so far do not decide.
    PeekAgain,
    /// Serve a single text request, then close.
    ServeText,
    /// Hand the unconsumed stream to the synchronization backend.
    StartHandshake,
}

pub open spec fn action_for(s: Sniffed) -> ConnectionAction {
    match s {
        Sniffed::Closed => ConnectionAction::Drop,
        Sniffed::NeedMore => ConnectionAction::PeekAgain,
        Sniffed::TextRequest => ConnectionAction::ServeText,
        Sniffed::SyncHandshake => ConnectionAction::StartHandshake,
    }
}

/// Whether a connection from `addr` at time `now` may proceed to sniffing.
/// A rejection changes nothing; an admission may evict an expired ban.
pub fn passes_gate(store: &mut ReputationStore, addr: u128, now: u64) -> (r: bool)
    requires
        old(store).wf(),
    ensures
        final(store).wf(),
        r == (old(store)@.verdict(addr, now) == Admission::Admit),
        final(store)@ == old(store)@.after_check(addr, now),
        !r ==> final(store)@ == old(store)@,
{
    match store.check(addr, now) {
        Admission::Admit => true,
        Admission::Reject { .. } => false,
    }
}

/// Where an admitted connection goes, given the bytes peeked from it so far.
/// A peer that closed before sending anything is dropped.
pub fn route_connection(prefix: &[u8]) -> (r: ConnectionAction)
    ensures
        r == action_for(classification(prefix@)),
        prefix@.len() == 0 ==> r == ConnectionAction::Drop,
{
    match classify(prefix) {
        Sniffed::Closed => ConnectionAction::Drop,
        Sniffed::NeedMore => ConnectionAction::PeekAgain,
        Sniffed::TextRequest => ConnectionAction::ServeText,
        Sniffed::SyncHandshake => ConnectionAction::StartHandshake,
    }
}

} // verus!
