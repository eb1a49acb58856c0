use quotebot::record::Quote;
use quotebot::seen::SeenTracker;
use quotebot::wake::{poller_reaction, PushOutcome, WakeChannel, WakeEvent, WAKE_CAPACITY};
use quotebot::worker::{worker_step, WorkerStep};

fn q(id: i64, text: &str) -> Quote {
    Quote { id, text: text.to_string(), tags: None }
}

fn deliver_ids(step: WorkerStep) -> Vec<i64> {
    match step {
        WorkerStep::Deliver(batch) => batch.iter().map(|r| r.id).collect(),
        WorkerStep::Idle => panic!("expected a drain, worker stayed idle"),
        WorkerStep::Terminated => panic!("expected a drain, worker terminated"),
    }
}

#[test]
fn startup_snapshot_is_seen_and_nothing_delivered() {
    // Scenario: the store starts with ids {1,2,3}; the worker initializes its
    // seen set from that snapshot; no drain fires, so nothing is delivered.
    let initial = vec![q(1, "one"), q(2, "two"), q(3, "three")];
    let mut seen = SeenTracker::from_snapshot(&initial);
    assert!(seen.contains(1) && seen.contains(2) && seen.contains(3));
    assert!(!seen.contains(4));

    let mut wake = WakeChannel::new();
    let ev = wake.recv();
    assert_eq!(ev, WakeEvent::WouldBlock);
    let step = worker_step(&mut seen, ev, Vec::new());
    assert!(matches!(step, WorkerStep::Idle));
    assert!(seen.contains(1) && seen.contains(2) && seen.contains(3));
}

#[test]
fn one_append_one_signal_one_delivery() {
    // Scenario: id 4 is appended and one wake signal sent; exactly one
    // record, id 4, is delivered and the seen set becomes {1,2,3,4}.
    let initial = vec![q(1, "one"), q(2, "two"), q(3, "three")];
    let mut seen = SeenTracker::from_snapshot(&initial);
    let mut wake = WakeChannel::new();
    assert_eq!(wake.notify(), PushOutcome::Queued);

    let snapshot = vec![q(1, "one"), q(2, "two"), q(3, "three"), q(4, "four")];
    let ev = wake.recv();
    assert_eq!(ev, WakeEvent::Signal);
    let ids = deliver_ids(worker_step(&mut seen, ev, snapshot));
    assert_eq!(ids, vec![4]);
    assert!(seen.contains(4));
    assert_eq!(wake.recv(), WakeEvent::WouldBlock);
}

#[test]
fn signals_during_drain_coalesce_into_one_delivering_drain() {
    // Scenario: ids 5 and 6 are appended while a drain is already running,
    // and three wake signals arrive in the interim; exactly one further
    // drain delivers [5, 6], in that order.
    let initial = vec![q(1, "one"), q(2, "two"), q(3, "three"), q(4, "four")];
    let mut seen = SeenTracker::from_snapshot(&initial);
    let mut wake = WakeChannel::new();
    assert_eq!(wake.notify(), PushOutcome::Queued);
    assert_eq!(wake.notify(), PushOutcome::Queued);
    assert_eq!(wake.notify(), PushOutcome::Queued);

    let snapshot = vec![
        q(1, "one"),
        q(2, "two"),
        q(3, "three"),
        q(4, "four"),
        q(6, "six"),
        q(5, "five"),
    ];
    let ev = wake.recv();
    assert_eq!(ev, WakeEvent::Signal);
    let ids = deliver_ids(worker_step(&mut seen, ev, snapshot.clone()));
    assert_eq!(ids, vec![5, 6]);

    // The two leftover coalesced signals re-check the same store and must
    // deliver nothing.
    let mut extra = 0;
    loop {
        let ev = wake.recv();
        if ev != WakeEvent::Signal {
            break;
        }
        let ids = deliver_ids(worker_step(&mut seen, ev, snapshot.clone()));
        extra += ids.len();
    }
    assert_eq!(extra, 0);
}

#[test]
fn closing_with_nothing_pending_terminates_cleanly() {
    // Scenario: the wake channel's producer side is closed with no pending
    // signal; the worker exits on its next receive, delivering nothing and
    // raising no error.
    let initial = vec![q(1, "one")];
    let mut seen = SeenTracker::from_snapshot(&initial);
    let mut wake = WakeChannel::new();
    wake.close();
    let ev = wake.recv();
    assert_eq!(ev, WakeEvent::Closed);
    let step = worker_step(&mut seen, ev, Vec::new());
    assert!(matches!(step, WorkerStep::Terminated));
    assert!(seen.contains(1));
}

#[test]
fn pending_signals_survive_close_then_terminate() {
    // Closing stops producers but already-pending signals are still drained
    // before the worker observes closure.
    let mut wake = WakeChannel::new();
    assert_eq!(wake.notify(), PushOutcome::Queued);
    assert_eq!(wake.notify(), PushOutcome::Queued);
    wake.close();
    assert_eq!(wake.notify(), PushOutcome::Closed);
    assert_eq!(wake.recv(), WakeEvent::Signal);
    assert_eq!(wake.recv(), WakeEvent::Signal);
    assert_eq!(wake.recv(), WakeEvent::Closed);
}

#[test]
fn wake_channel_drops_signals_beyond_capacity() {
    let mut wake = WakeChannel::new();
    for _ in 0..WAKE_CAPACITY {
        assert_eq!(wake.notify(), PushOutcome::Queued);
    }
    assert_eq!(wake.notify(), PushOutcome::Full);
    assert_eq!(wake.notify(), PushOutcome::Full);
    let mut received = 0;
    while wake.recv() == WakeEvent::Signal {
        received += 1;
    }
    assert_eq!(received, WAKE_CAPACITY);
}

#[test]
fn each_new_id_delivered_exactly_once_across_drains() {
    // Two drains: the first delivers the appended ids once each; the second,
    // over the same store, redelivers none of them.
    let initial = vec![q(1, "one"), q(2, "two")];
    let mut seen = SeenTracker::from_snapshot(&initial);
    let grown = vec![q(1, "one"), q(2, "two"), q(3, "three"), q(4, "four")];
    let ids = deliver_ids(worker_step(&mut seen, WakeEvent::Signal, grown.clone()));
    assert_eq!(ids, vec![3, 4]);
    let ids = deliver_ids(worker_step(&mut seen, WakeEvent::Signal, grown));
    assert_eq!(ids, Vec::<i64>::new());
}

#[test]
fn empty_drain_changes_nothing() {
    // A drain with zero newly appended records delivers nothing and leaves
    // the seen set as it was.
    let initial = vec![q(1, "one"), q(2, "two"), q(3, "three")];
    let mut seen = SeenTracker::from_snapshot(&initial);
    let ids = deliver_ids(worker_step(&mut seen, WakeEvent::Signal, initial.clone()));
    assert_eq!(ids, Vec::<i64>::new());
    for id in 1..=3 {
        assert!(seen.contains(id));
    }
    assert!(!seen.contains(0) && !seen.contains(4));
}

#[test]
fn delivered_batch_is_strictly_ascending() {
    let mut seen = SeenTracker::new();
    let snapshot = vec![q(9, "nine"), q(5, "five"), q(7, "seven"), q(1, "one")];
    let batch = match worker_step(&mut seen, WakeEvent::Signal, snapshot) {
        WorkerStep::Deliver(batch) => batch,
        _ => panic!("expected a drain"),
    };
    let ids: Vec<i64> = batch.iter().map(|r| r.id).collect();
    assert_eq!(ids, vec![1, 5, 7, 9]);
    assert_eq!(batch[1].text, "five");
}

#[test]
fn duplicate_id_rows_yield_one_delivery() {
    // The store's primary key makes duplicate ids impossible, but the drain
    // still guarantees at most one delivery per id.
    let mut seen = SeenTracker::new();
    let snapshot = vec![q(4, "first"), q(4, "second")];
    let ids = deliver_ids(worker_step(&mut seen, WakeEvent::Signal, snapshot));
    assert_eq!(ids, vec![4]);
}

#[test]
fn fallback_poller_is_fatal_only_on_a_closed_channel() {
    // A push dropped on a full channel is harmless — a drain is already
    // pending — but a closed channel outside shutdown means the worker is
    // gone, and the poller must raise a fatal shutdown request.
    let mut wake = WakeChannel::new();
    for _ in 0..WAKE_CAPACITY {
        assert!(!poller_reaction(wake.notify()));
    }
    assert!(!poller_reaction(wake.notify()));
    wake.close();
    assert!(poller_reaction(wake.notify()));
    assert!(!poller_reaction(PushOutcome::Queued));
    assert!(!poller_reaction(PushOutcome::Full));
    assert!(poller_reaction(PushOutcome::Closed));
}

#[test]
fn observe_is_idempotent() {
    let mut seen = SeenTracker::new();
    seen.observe(10);
    seen.observe(10);
    assert!(seen.contains(10));
    assert!(!seen.contains(11));
}
