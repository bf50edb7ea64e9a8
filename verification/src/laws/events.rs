//! What the event store keeps and shows.

use vstd::prelude::*;

use crate::events::{event_matches, starts_at, ClusterEvent, EventKind, EventSeverity, EventStore};
use crate::text::borrowed_text;

verus! {

/// Severity rises from information to warning to critical.
pub proof fn severity_rises_to_critical(a: EventSeverity, b: EventSeverity, r: bool)
    requires
        call_ensures(EventSeverity::at_least, (a, b), r),
    ensures
        r <==> a is Critical || b is Info || (a is Warning && b is Warning),
{
}

/// A new store is empty and counts from one.
pub proof fn new_stores_count_from_one(r: EventStore)
    requires
        call_ensures(EventStore::new, (), r),
    ensures
        r.history().len() == 0,
        r.next() == 1,
        r.feed().len() == 0,
{
}

/// An event is recorded with the next number and as it was told, behind all that
/// are kept; of more than 1024 the first goes.
pub proof fn events_are_kept_as_they_were_told(
    store: &mut EventStore,
    timestamp: u64,
    kind: EventKind,
    severity: EventSeverity,
    app: Option<String>,
    namespace: Option<String>,
    node: Option<String>,
    message: String,
    r: u64,
)
    requires
        call_ensures(
            EventStore::record,
            (store, timestamp, kind, severity, app, namespace, node, message),
            r,
        ),
    ensures
        r == old(store).next(),
        r < u64::MAX ==> final(store).next() == r + 1,
        r == u64::MAX ==> final(store).next() == u64::MAX,
        ({
            let event = ClusterEvent {
                sequence: r,
                timestamp,
                kind,
                severity,
                app,
                namespace,
                node,
                message,
            };
            &&& old(store).history().len() != 1024 ==> final(store).history() == old(
                store,
            ).history().push(event)
            &&& old(store).history().len() == 1024 ==> final(store).history() == old(
                store,
            ).history().skip(1).push(event)
            &&& final(store).feed() == old(store).feed() || final(store).feed() == old(
                store,
            ).feed().push(event)
        }),
{
}

/// Whether an event is one that is asked for: of the application, where one is
/// named, and at least of the severity, where one is.
pub open spec fn is_asked_for(
    event: ClusterEvent,
    app: Option<&str>,
    least: Option<EventSeverity>,
) -> bool {
    &&& app matches Some(name) ==> (event.app matches Some(of) && of@ == name@)
    &&& least matches Some(severity) ==> event.severity is Critical || severity is Info || (
    event.severity is Warning && severity is Warning)
}

/// The recent events are the last of those that are asked for, in their order, as
/// many as are wanted.
pub proof fn recent_events_are_the_last_asked_for(
    store: &EventStore,
    limit: usize,
    app: Option<&str>,
    least: Option<EventSeverity>,
    r: Vec<ClusterEvent>,
)
    requires
        call_ensures(EventStore::recent, (store, limit, app, least), r),
    ensures
        ({
            let all = store.history().filter(|e: ClusterEvent| is_asked_for(e, app, least));
            &&& all.len() <= limit ==> r@ == all
            &&& all.len() > limit ==> r@.len() == limit && forall|i: int|
                0 <= i < limit ==> #[trigger] r@[i] == all[all.len() - limit + i]
        }),
{
    let a = |e: ClusterEvent| event_matches(e, borrowed_text(app), least);
    let b = |e: ClusterEvent| is_asked_for(e, app, least);
    assert forall|e: ClusterEvent| #[trigger] a(e) == b(e) by {}
    assert(a =~= b);
}

/// A subscriber hears what is sent from then on.
pub proof fn subscribers_hear_what_comes(
    store: &EventStore,
    r: tokio::sync::broadcast::Receiver<ClusterEvent>,
)
    requires
        call_ensures(EventStore::subscribe, (store,), r),
    ensures
        starts_at(r) == store.feed().len(),
{
}

} // verus!
