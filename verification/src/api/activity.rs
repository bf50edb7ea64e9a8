//! The cluster's events as they are listed and replayed.

use vstd::prelude::*;

use crate::access::{caller, is_unconfined, require_unscoped, AuthContext, Denial};
use crate::events::{event_matches, last_of, ClusterEvent, EventSeverity, EventStore};
use crate::reply::{refused, Refusal, Status};
use crate::text::borrowed_text;

verus! {

/// How many events a list holds where the request does not say.
pub const LISTED_EVENTS: usize = 100;

/// How many past events a live stream starts with.
pub const REPLAYED_EVENTS: usize = 50;

/// The events that a list holds, of a store if there is one.
pub open spec fn listed_events(
    store: Option<&EventStore>,
    limit: Option<usize>,
    app: Option<Seq<char>>,
    min_severity: Option<EventSeverity>,
) -> Seq<ClusterEvent> {
    match store {
        None => Seq::empty(),
        Some(store) => last_of(
            store.history().filter(|e: ClusterEvent| event_matches(e, app, min_severity)),
            match limit {
                Some(limit) => limit as int,
                None => LISTED_EVENTS as int,
            },
        ),
    }
}

/// List the latest events. They are of every app, so a confined caller is
/// refused.
pub fn list_events(
    auth: Option<&AuthContext>,
    store: Option<&EventStore>,
    limit: Option<usize>,
    app: Option<&str>,
    min_severity: Option<EventSeverity>,
) -> (r: Result<Vec<ClusterEvent>, Refusal>)
    requires
        store is Some ==> store->0.wf(),
    ensures
        if !is_unconfined(caller(auth)) {
            refused(r, Status::Forbidden, Denial::Confined.text())
        } else {
            r is Ok && r->Ok_0@ == listed_events(store, limit, borrowed_text(app), min_severity)
        },
{
    match require_unscoped(auth) {
        Err(denial) => {
            return Err(denial.refusal());
        },
        Ok(()) => {},
    }
    let limit: usize = match limit {
        Some(limit) => limit,
        None => LISTED_EVENTS,
    };
    match store {
        None => Ok(Vec::new()),
        Some(store) => Ok(store.recent(limit, app, min_severity)),
    }
}

/// The past events that a live stream starts with.
pub fn replay_events(store: &EventStore) -> (r: Vec<ClusterEvent>)
    requires
        store.wf(),
    ensures
        r@ == last_of(store.history(), REPLAYED_EVENTS as int),
{
    let r = store.recent(REPLAYED_EVENTS, None, None);
    proof {
        every_event_matches(store.history());
    }
    r
}

proof fn every_event_matches(events: Seq<ClusterEvent>)
    ensures
        events.filter(|e: ClusterEvent| event_matches(e, None, None)) == events,
    decreases events.len(),
{
    reveal(Seq::filter);
    if events.len() > 0 {
        every_event_matches(events.drop_last());
        assert(events.drop_last().push(events.last()) =~= events);
    }
}

} // verus!
