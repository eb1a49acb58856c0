use vstd::prelude::*;

verus! {

/// Capacity of the wake channel. One signal being drained plus two queued is
/// already more than enough, because any drain observes every change made
/// before it ran; a larger buffer would only waste memory.
pub const WAKE_CAPACITY: usize = 3;

/// What one non-blocking push of a wake signal observed.
#[derive(Debug, Clone, Copy, PartialEq, Eq, Structural)]
pub enum PushOutcome {
    /// The signal was enqueued: a drain will follow.
    Queued,
    /// The channel is full: the push is dropped silently, because a pending
    /// signal already guarantees a future drain that will observe the same
    /// change.
    Full,
    /// The producer side is closed: the push is dropped. During an ordered
    /// shutdown this is expected; for the fallback poller it is fatal (see
    /// `poller_reaction`).
    Closed,
}

/// What the single consumer of the wake channel observes on one receive.
#[derive(Debug, Clone, Copy, PartialEq, Eq, Structural)]
pub enum WakeEvent {
    /// A pending signal was taken: the store may have changed.
    Signal,
    /// No signal is pending and every producer is gone: normal shutdown.
    Closed,
    /// No signal is pending but producers remain: the consumer would block.
    WouldBlock,
}

/// Model of the bounded many-producer, single-consumer wake channel.
///
/// A wake signal carries no payload, so the whole channel state is how many
/// signals are pending and whether the producer side has been closed. A push
/// onto a full or closed channel is dropped silently: a pending signal
/// already guarantees a future drain that will observe the same change, and
/// a closed channel means shutdown is in progress.
pub struct WakeChannel {
    pub pending: usize,
    pub closed: bool,
}

impl WakeChannel {
    /// At most `WAKE_CAPACITY` signals are ever pending.
    pub open spec fn wf(&self) -> bool {
        self.pending <= WAKE_CAPACITY
    }

    /// The channel state after one non-blocking push.
    pub open spec fn notified(self) -> WakeChannel {
        if self.closed || self.pending >= WAKE_CAPACITY {
            self
        } else {
            WakeChannel { pending: (self.pending + 1) as usize, closed: self.closed }
        }
    }

    /// An open channel with no signal pending.
    pub fn new() -> (r: WakeChannel)
        ensures
            r.wf(),
            r.pending == 0,
            !r.closed,
    {
        WakeChannel { pending: 0, closed: false }
    }

    /// One non-blocking push of a wake signal, as a change source performs
    /// it: never blocks, and a push onto a full or closed channel is
    /// dropped. Reports which of the three cases held.
    pub fn notify(&mut self) -> (outcome: PushOutcome)
        requires
            old(self).wf(),
        ensures
            final(self).wf(),
            *final(self) == old(self).notified(),
            outcome == PushOutcome::Queued <==> !old(self).closed && old(self).pending
                < WAKE_CAPACITY,
            outcome == PushOutcome::Closed <==> old(self).closed,
            outcome == PushOutcome::Full <==> !old(self).closed && old(self).pending
                >= WAKE_CAPACITY,
    {
        if self.closed {
            PushOutcome::Closed
        } else if self.pending < WAKE_CAPACITY {
            self.pending = self.pending + 1;
            PushOutcome::Queued
        } else {
            PushOutcome::Full
        }
    }

    /// Close the producer side: the sole termination signal for the
    /// consumer. Signals already pending stay receivable.
    pub fn close(&mut self)
        ensures
            final(self).closed,
            final(self).pending == old(self).pending,
            old(self).wf() ==> final(self).wf(),
    {
        self.closed = true;
    }

    /// One receive by the single consumer. A pending signal is taken;
    /// otherwise a closed channel reports `Closed` — normal shutdown, not an
    /// error — and an open one would block.
    pub fn recv(&mut self) -> (ev: WakeEvent)
        requires
            old(self).wf(),
        ensures
            final(self).wf(),
            final(self).closed == old(self).closed,
            old(self).pending > 0 ==> ev == WakeEvent::Signal && final(self).pending == old(self).pending - 1,
            old(self).pending == 0 && old(self).closed ==> ev == WakeEvent::Closed && *final(self) == *old(self),
            old(self).pending == 0 && !old(self).closed ==> ev == WakeEvent::WouldBlock && *final(self) == *old(self),
    {
        if self.pending > 0 {
            self.pending = self.pending - 1;
            WakeEvent::Signal
        } else if self.closed {
            WakeEvent::Closed
        } else {
            WakeEvent::WouldBlock
        }
    }
}

/// The fallback interval poller's decision for one push outcome. A queued
/// push, or one dropped because the channel was full, needs nothing: a
/// drain is pending either way. A closed channel means the worker that
/// owns the receiving side is gone; outside an ordered shutdown that is a
/// silently dead pipeline, worse than a loud one, so the poller must raise
/// a fatal shutdown request — the returned flag says to raise it.
pub fn poller_reaction(outcome: PushOutcome) -> (fatal: bool)
    ensures
        fatal <==> outcome == PushOutcome::Closed,
{
    match outcome {
        PushOutcome::Closed => true,
        PushOutcome::Queued => false,
        PushOutcome::Full => false,
    }
}

/// The channel state after `k` non-blocking pushes in a row.
pub open spec fn notified_k(w: WakeChannel, k: nat) -> WakeChannel
    decreases k,
{
    if k == 0 {
        w
    } else {
        notified_k(w, (k - 1) as nat).notified()
    }
}

/// However many signals producers push, a well-formed channel keeps at most
/// `WAKE_CAPACITY` of them pending, and pushing never closes the channel.
pub proof fn lemma_notify_bounded(w: WakeChannel, k: nat)
    requires
        w.wf(),
    ensures
        notified_k(w, k).wf(),
        notified_k(w, k).closed == w.closed,
    decreases k,
{
    if k > 0 {
        lemma_notify_bounded(w, (k - 1) as nat);
    }
}

} // verus!
