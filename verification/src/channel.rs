//! The hand-off of snapshots from the sampler to the table.
//!
//! The channel has one slot. Publishing replaces whatever is in it, so the
//! sampler never waits; polling empties it, so the consumer sees each
//! snapshot at most once and only ever the newest.

use crate::model::get_all_processes;
use crate::model::sampled;
use crate::model::views;
use crate::model::BrtProcess;
use crate::model::RawProcess;
use crate::model::SystemInfo;
use vstd::prelude::*;

verus! {

/// A single-slot channel that keeps the newest snapshot.
pub struct RefreshChannel {
    pub pending: Option<Vec<BrtProcess>>,
}

/// The slot after a snapshot was published into it, whatever it held.
pub open spec fn published(pending: Option<Vec<BrtProcess>>, snapshot: Vec<BrtProcess>) -> Option<
    Vec<BrtProcess>,
> {
    Some(snapshot)
}

/// What a poll hands out, and the slot it leaves behind.
pub open spec fn polled(pending: Option<Vec<BrtProcess>>) -> (
    Option<Vec<BrtProcess>>,
    Option<Vec<BrtProcess>>,
) {
    (pending, None)
}

impl RefreshChannel {
    /// A channel with nothing pending.
    pub fn new() -> (channel: RefreshChannel)
        ensures
            channel.pending is None,
    {
        RefreshChannel { pending: None }
    }

    /// Whether a snapshot waits to be polled.
    pub fn is_pending(&self) -> (waiting: bool)
        ensures
            waiting == self.pending is Some,
    {
        self.pending.is_some()
    }

    /// Puts a snapshot into the slot. A snapshot that was still waiting is
    /// discarded.
    pub fn publish(&mut self, snapshot: Vec<BrtProcess>)
        ensures
            final(self).pending == published(old(self).pending, snapshot),
    {
        self.pending = Some(snapshot);
    }

    /// Takes the waiting snapshot, if there is one, and leaves the slot
    /// empty.
    pub fn poll(&mut self) -> (snapshot: Option<Vec<BrtProcess>>)
        ensures
            snapshot == polled(old(self).pending).0,
            final(self).pending == polled(old(self).pending).1,
    {
        self.pending.take()
    }
}

/// Completes one sampling cycle. When the processes could be listed, the
/// records of the pass are published and the result is `true`. When listing
/// them failed altogether, nothing is published, whatever waits in the
/// channel stays there, and the result is `false`.
pub fn sample_once(
    listing: Option<&Vec<Option<RawProcess>>>,
    sys: &SystemInfo,
    channel: &mut RefreshChannel,
) -> (done: bool)
    ensures
        done == listing is Some,
        match listing {
            Some(raw) => final(channel).pending is Some && views(final(channel).pending->0@)
                == sampled(raw@, *sys),
            None => final(channel).pending == old(channel).pending,
        },
{
    match listing {
        Some(raw) => {
            let snapshot = get_all_processes(raw, sys);
            channel.publish(snapshot);
            true
        },
        None => false,
    }
}

/// Of two snapshots published in a row, the consumer sees only the second:
/// the next poll hands out the second, and the poll after it nothing.
pub proof fn lemma_latest_wins(
    pending: Option<Vec<BrtProcess>>,
    first: Vec<BrtProcess>,
    second: Vec<BrtProcess>,
)
    ensures
        polled(published(published(pending, first), second)).0 == Some(second),
        polled(polled(published(published(pending, first), second)).1).0 is None,
{
}

} // verus!
