use vstd::prelude::*;

use crate::drain::{drain_batch_ok, drain_into, id_set};
use crate::record::Quote;
use crate::seen::SeenTracker;
use crate::wake::WakeEvent;

verus! {

/// The action a query worker takes in response to one wake-channel receive.
#[derive(Debug)]
pub enum WorkerStep {
    /// A drain ran: forward these records, in this order, to delivery.
    Deliver(Vec<Quote>),
    /// No signal was pending; keep waiting.
    Idle,
    /// The wake channel is closed and drained: terminate cleanly. This is
    /// the worker's only exit and is not an error.
    Terminated,
}

/// The query worker's whole decision logic for one received wake event,
/// given the store snapshot a drain would read.
///
/// On a signal it drains: the batch to forward is exactly the snapshot's
/// not-yet-seen records in ascending-id order, and the snapshot's ids are
/// merged into the seen set. When the channel reports closed it terminates
/// cleanly, delivering nothing and touching nothing. The seen set never
/// shrinks.
pub fn worker_step(seen: &mut SeenTracker, ev: WakeEvent, snapshot: Vec<Quote>) -> (step:
    WorkerStep)
    ensures
        ev is Signal ==> (step matches WorkerStep::Deliver(batch) && drain_batch_ok(
            snapshot@,
            old(seen)@,
            batch@,
        ) && final(seen)@ == old(seen)@.union(id_set(snapshot@))),
        ev is WouldBlock ==> step is Idle && *final(seen) == *old(seen),
        ev is Closed ==> step is Terminated && *final(seen) == *old(seen),
        old(seen)@.subset_of(final(seen)@),
{
    match ev {
        WakeEvent::Signal => {
            let batch = drain_into(seen, snapshot);
            WorkerStep::Deliver(batch)
        },
        WakeEvent::WouldBlock => WorkerStep::Idle,
        WakeEvent::Closed => WorkerStep::Terminated,
    }
}

} // verus!
