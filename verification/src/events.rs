//! Bounded, in-memory cluster events with a live feed.

use std::collections::VecDeque;

use tokio::sync::broadcast;
use vstd::prelude::*;

use crate::text::{borrowed_text, copy_optional_text, optional_text, same_text};

verus! {

/// Maximum number of historical events retained in memory.
pub const EVENT_BUFFER_CAP: usize = 1024;

/// Number of events that the live feed holds for a slow subscriber.
pub const LIVE_FEED_CAPACITY: usize = 256;

/// The sending half of tokio's broadcast channel.
#[verifier::external_type_specification]
#[verifier::external_body]
#[verifier::reject_recursive_types(T)]
pub struct ExBroadcastSender<T>(tokio::sync::broadcast::Sender<T>);

/// The receiving half of tokio's broadcast channel.
#[verifier::external_type_specification]
#[verifier::external_body]
#[verifier::reject_recursive_types(T)]
pub struct ExBroadcastReceiver<T>(tokio::sync::broadcast::Receiver<T>);

/// A cluster event suitable for display and streaming.
#[derive(Debug, PartialEq, Eq)]
pub struct ClusterEvent {
    /// Monotonically increasing process-local sequence number.
    pub sequence: u64,
    /// Unix timestamp in seconds.
    pub timestamp: u64,
    /// Kind of lifecycle event.
    pub kind: EventKind,
    /// Event severity.
    pub severity: EventSeverity,
    /// Related app, when applicable.
    pub app: Option<String>,
    /// Related namespace, when applicable.
    pub namespace: Option<String>,
    /// Related node, when applicable.
    pub node: Option<String>,
    /// Human-readable description.
    pub message: String,
}

impl Clone for ClusterEvent {
    fn clone(&self) -> (r: Self)
        ensures
            r == *self,
    {
        ClusterEvent {
            sequence: self.sequence,
            timestamp: self.timestamp,
            kind: self.kind,
            severity: self.severity,
            app: copy_optional_text(&self.app),
            namespace: copy_optional_text(&self.namespace),
            node: copy_optional_text(&self.node),
            message: self.message.clone(),
        }
    }
}

/// Categories of events that the agent emits.
#[derive(Debug, Clone, Copy, PartialEq, Eq, Structural)]
pub enum EventKind {
    /// A deployment completed or failed.
    Deploy,
    /// An instance restarted.
    Restart,
    /// Instance health changed.
    Health,
    /// An app stopped.
    Stop,
    /// A job completed successfully.
    JobCompleted,
    /// A job exhausted its retries.
    JobFailed,
    /// An alert changed state.
    Alert,
    /// A fault was injected or cleared.
    Fault,
}

/// Importance of an event.
#[derive(Debug, Clone, Copy, PartialEq, Eq, Structural)]
pub enum EventSeverity {
    /// Normal operation.
    Info,
    /// Degraded operation that deserves attention.
    Warning,
    /// Operation failed or service is unavailable.
    Critical,
}

impl EventSeverity {
    /// Severities in ascending importance.
    pub open spec fn rank(self) -> int {
        match self {
            EventSeverity::Info => 0,
            EventSeverity::Warning => 1,
            EventSeverity::Critical => 2,
        }
    }

    /// Whether this severity is at least as important as another.
    pub fn at_least(self, other: EventSeverity) -> (r: bool)
        ensures
            r == (self.rank() >= other.rank()),
    {
        match (self, other) {
            (EventSeverity::Critical, _) => true,
            (EventSeverity::Warning, EventSeverity::Critical) => false,
            (EventSeverity::Warning, _) => true,
            (EventSeverity::Info, EventSeverity::Info) => true,
            (EventSeverity::Info, _) => false,
        }
    }
}

/// Whether an event is about an app, if one is asked for, and important
/// enough, if a level is asked for.
pub open spec fn event_matches(
    event: ClusterEvent,
    app: Option<Seq<char>>,
    min_severity: Option<EventSeverity>,
) -> bool {
    &&& app is Some ==> optional_text(event.app) == app
    &&& min_severity is Some ==> event.severity.rank() >= min_severity->0.rank()
}

/// The last `count` items of a sequence, or all of a shorter one.
pub open spec fn last_of(events: Seq<ClusterEvent>, count: int) -> Seq<ClusterEvent> {
    if events.len() <= count {
        events
    } else {
        events.skip(events.len() - count)
    }
}

/// A history with one event more, without its oldest event if it was full.
pub open spec fn with_event(
    history: Seq<ClusterEvent>,
    event: ClusterEvent,
) -> Seq<ClusterEvent> {
    if history.len() == EVENT_BUFFER_CAP {
        history.skip(1).push(event)
    } else {
        history.push(event)
    }
}

/// The events that a feed took, oldest first.
pub uninterp spec fn sent(
    live: tokio::sync::broadcast::Sender<ClusterEvent>,
) -> Seq<ClusterEvent>;

/// How many events a feed had taken when a receiver subscribed to it: the
/// receiver's first event is the one after them.
pub uninterp spec fn starts_at(
    receiver: tokio::sync::broadcast::Receiver<ClusterEvent>,
) -> nat;

/// `tokio::sync::broadcast::channel` makes a channel of the given capacity,
/// which it requires to be positive and at most half of `usize::MAX`. The
/// channel took nothing yet. The first receiver is dropped.
#[verifier::external_body]
fn open_feed(capacity: usize) -> (r: broadcast::Sender<ClusterEvent>)
    requires
        0 < capacity <= usize::MAX / 2,
    ensures
        sent(r) == Seq::<ClusterEvent>::empty(),
{
    broadcast::channel(capacity).0
}

/// `tokio::sync::broadcast::Sender::send` stores one event for the receivers
/// that are subscribed, or, where there is none, stores nothing and says so.
/// Whether there is one is not claimed: receivers come and go on other
/// threads.
#[verifier::external_body]
fn publish(live: &mut broadcast::Sender<ClusterEvent>, event: ClusterEvent) -> (r: bool)
    ensures
        r ==> sent(*final(live)) == sent(*old(live)).push(event),
        !r ==> sent(*final(live)) == sent(*old(live)),
{
    live.send(event).is_ok()
}

/// `tokio::sync::broadcast::Sender::subscribe` makes a receiver of the events
/// that the feed takes from now on: it starts at the sender's position. It
/// panics only where a quarter of `usize::MAX` receivers are subscribed, more
/// than memory holds.
#[verifier::external_body]
fn new_subscriber(live: &broadcast::Sender<ClusterEvent>) -> (r: broadcast::Receiver<ClusterEvent>)
    ensures
        starts_at(r) == sent(*live).len(),
{
    live.subscribe()
}

/// A bounded event history with a live broadcast feed.
pub struct EventStore {
    buffer: VecDeque<ClusterEvent>,
    next_sequence: u64,
    live: broadcast::Sender<ClusterEvent>,
}

impl EventStore {
    /// The retained events, oldest first.
    pub closed spec fn history(&self) -> Seq<ClusterEvent> {
        self.buffer@
    }

    /// The sequence number of the next event.
    pub closed spec fn next(&self) -> u64 {
        self.next_sequence
    }

    /// The events that the live feed took, oldest first: those that were
    /// recorded while somebody was subscribed.
    pub closed spec fn feed(&self) -> Seq<ClusterEvent> {
        sent(self.live)
    }

    /// The history is bounded, its sequence numbers do not decrease, and none
    /// exceeds the next one.
    pub open spec fn wf(&self) -> bool {
        &&& self.history().len() <= EVENT_BUFFER_CAP
        &&& forall|i: int, j: int|
            0 <= i < j < self.history().len() ==> (#[trigger] self.history()[i]).sequence <= (
            #[trigger] self.history()[j]).sequence
        &&& forall|i: int|
            0 <= i < self.history().len() ==> (#[trigger] self.history()[i]).sequence
                <= self.next()
        &&& self.next() < u64::MAX ==> forall|i: int, j: int|
            0 <= i < j < self.history().len() ==> (#[trigger] self.history()[i]).sequence < (
            #[trigger] self.history()[j]).sequence
        &&& self.next() < u64::MAX ==> forall|i: int|
            0 <= i < self.history().len() ==> (#[trigger] self.history()[i]).sequence < self.next()
    }

    /// An empty store, whose first event will have sequence number one.
    pub fn new() -> (r: Self)
        ensures
            r.wf(),
            r.history() == Seq::<ClusterEvent>::empty(),
            r.next() == 1,
            r.feed() == Seq::<ClusterEvent>::empty(),
    {
        EventStore {
            buffer: VecDeque::with_capacity(EVENT_BUFFER_CAP),
            next_sequence: 1,
            live: open_feed(LIVE_FEED_CAPACITY),
        }
    }

    /// Record an event, returning its assigned sequence number.
    ///
    /// The event also goes to the live feed, which takes it if anybody is
    /// subscribed.
    pub fn record(
        &mut self,
        timestamp: u64,
        kind: EventKind,
        severity: EventSeverity,
        app: Option<String>,
        namespace: Option<String>,
        node: Option<String>,
        message: String,
    ) -> (r: u64)
        requires
            old(self).wf(),
        ensures
            final(self).wf(),
            r == old(self).next(),
            final(self).next() == if r == u64::MAX {
                u64::MAX
            } else {
                (r + 1) as u64
            },
            final(self).history() == with_event(
                old(self).history(),
                ClusterEvent {
                    sequence: r,
                    timestamp,
                    kind,
                    severity,
                    app,
                    namespace,
                    node,
                    message,
                },
            ),
            final(self).feed() == old(self).feed() || final(self).feed() == old(
                self,
            ).feed().push(final(self).history().last()),
    {
        let sequence = self.next_sequence;
        self.next_sequence = self.next_sequence.saturating_add(1);
        let event = ClusterEvent {
            sequence,
            timestamp,
            kind,
            severity,
            app,
            namespace,
            node,
            message,
        };
        if self.buffer.len() == EVENT_BUFFER_CAP {
            let _ = self.buffer.pop_front();
            proof {
                assert(self.buffer@ =~= old(self).history().skip(1));
            }
        }
        self.buffer.push_back(event.clone());
        let _ = publish(&mut self.live, event);
        sequence
    }

    /// Return the latest matching events in chronological order, at most
    /// `limit` of them.
    pub fn recent(
        &self,
        limit: usize,
        app: Option<&str>,
        min_severity: Option<EventSeverity>,
    ) -> (r: Vec<ClusterEvent>)
        requires
            self.wf(),
        ensures
            r@ == last_of(
                self.history().filter(
                    |e: ClusterEvent| event_matches(e, borrowed_text(app), min_severity),
                ),
                limit as int,
            ),
    {
        let ghost wanted = |e: ClusterEvent|
            event_matches(e, borrowed_text(app), min_severity);
        let ghost all = self.history();
        let mut kept: Vec<ClusterEvent> = Vec::new();
        let mut i: usize = 0;
        proof {
            assert(all.take(0).filter(wanted) =~= Seq::<ClusterEvent>::empty()) by {
                reveal(Seq::filter);
            }
        }
        while i < self.buffer.len()
            invariant
                i <= self.buffer.len(),
                all == self.buffer@,
                wanted == (|e: ClusterEvent| event_matches(e, borrowed_text(app), min_severity)),
                kept@ == all.take(i as int).filter(wanted),
            decreases self.buffer.len() - i,
        {
            let event = &self.buffer[i];
            let about = match app {
                Some(name) => match &event.app {
                    Some(own) => same_text(own.as_str(), name),
                    None => false,
                },
                None => true,
            };
            let important = match min_severity {
                Some(level) => event.severity.at_least(level),
                None => true,
            };
            proof {
                assert(all.take(i as int + 1).drop_last() == all.take(i as int));
                assert(all.take(i as int + 1).last() == *event);
                reveal(Seq::filter);
            }
            if about && important {
                kept.push(event.clone());
            }
            i = i + 1;
        }
        proof {
            assert(all.take(all.len() as int) == all);
        }
        if kept.len() <= limit {
            return kept;
        }
        let drop: usize = kept.len() - limit;
        let mut out: Vec<ClusterEvent> = Vec::new();
        let mut k: usize = drop;
        while k < kept.len()
            invariant
                drop <= k <= kept.len(),
                out@ == kept@.subrange(drop as int, k as int),
            decreases kept.len() - k,
        {
            out.push(kept[k].clone());
            proof {
                assert(kept@.subrange(drop as int, k as int + 1) == kept@.subrange(
                    drop as int,
                    k as int,
                ).push(kept@[k as int]));
            }
            k = k + 1;
        }
        proof {
            assert(out@ =~= kept@.skip(drop as int));
        }
        out
    }

    /// Subscribe to events recorded after this call.
    pub fn subscribe(&self) -> (r: broadcast::Receiver<ClusterEvent>)
        ensures
            starts_at(r) == self.feed().len(),
    {
        new_subscriber(&self.live)
    }
}

impl Default for EventStore {
    fn default() -> (r: Self)
        ensures
            r.wf(),
            r.history() == Seq::<ClusterEvent>::empty(),
            r.next() == 1,
            r.feed() == Seq::<ClusterEvent>::empty(),
    {
        EventStore::new()
    }
}

/// The events of a feed that come after a receiver's start. A receiver that
/// falls behind by more than the feed's capacity loses the oldest of them.
pub open spec fn after_start(feed: Seq<ClusterEvent>, start: nat) -> Seq<ClusterEvent> {
    feed.skip(start as int)
}

/// Nothing that a feed took before a receiver subscribed comes after the
/// receiver's start, and everything that it took since does, in order.
pub proof fn subscribers_start_at_the_end(before: Seq<ClusterEvent>, events: Seq<ClusterEvent>)
    ensures
        after_start(before, before.len()) == Seq::<ClusterEvent>::empty(),
        after_start(before + events, before.len()) == events,
{
    assert(after_start(before, before.len()) =~= Seq::<ClusterEvent>::empty());
    assert(after_start(before + events, before.len()) =~= events);
}

/// The history with a run of events recorded one after the other.
pub open spec fn with_events(
    history: Seq<ClusterEvent>,
    events: Seq<ClusterEvent>,
) -> Seq<ClusterEvent>
    decreases events.len(),
{
    if events.len() == 0 {
        history
    } else {
        with_event(with_events(history, events.drop_last()), events.last())
    }
}

/// However many events are recorded, the store retains exactly the latest
/// ones, as many as the bound allows, in the order of recording.
pub proof fn history_is_the_latest_events(
    history: Seq<ClusterEvent>,
    events: Seq<ClusterEvent>,
)
    requires
        history.len() <= EVENT_BUFFER_CAP,
    ensures
        with_events(history, events) == last_of(history + events, EVENT_BUFFER_CAP as int),
    decreases events.len(),
{
    if events.len() == 0 {
        assert(history + events =~= history);
    } else {
        history_is_the_latest_events(history, events.drop_last());
        assert(history + events =~= (history + events.drop_last()).push(events.last()));
        assert(with_events(history, events) =~= last_of(
            history + events,
            EVENT_BUFFER_CAP as int,
        ));
    }
}

} // verus!
