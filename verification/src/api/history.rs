//! Deploy history and rolling back.

use vstd::prelude::*;
use vstd::string::*;

use crate::reply::{refuse, refused, Refusal, Status};
use crate::text::{optional_text, same_text};

verus! {

/// What is known of a past deploy. Entries come oldest first.
#[derive(Debug)]
pub struct DeployRecord {
    /// Name of the app.
    pub app: String,
    /// Namespace of the app.
    pub namespace: String,
    /// Whether it was completed.
    pub completed: bool,
    /// Whether the specification that was deployed is kept.
    pub has_spec: bool,
}

/// Whether a deploy was of an app.
pub open spec fn is_deploy_of(
    record: DeployRecord,
    app: Seq<char>,
    namespace: Seq<char>,
) -> bool {
    record.app@ == app && record.namespace@ == namespace
}

/// Whether a deploy of an app was completed and can be repeated.
pub open spec fn can_be_repeated(
    record: DeployRecord,
    app: Seq<char>,
    namespace: Seq<char>,
) -> bool {
    is_deploy_of(record, app, namespace) && record.completed && record.has_spec
}

/// Where the deploys of an app stand in a history, in order.
pub open spec fn deploys_of(
    history: Seq<DeployRecord>,
    app: Seq<char>,
    namespace: Seq<char>,
) -> Seq<usize>
    decreases history.len(),
{
    if history.len() == 0 {
        Seq::empty()
    } else {
        let before = deploys_of(history.drop_last(), app, namespace);
        if is_deploy_of(history.last(), app, namespace) {
            before.push((history.len() - 1) as usize)
        } else {
            before
        }
    }
}

/// The namespace that a query asks for.
pub open spec fn asked_namespace(namespace: Option<Seq<char>>) -> Seq<char> {
    match namespace {
        Some(namespace) => namespace,
        None => "default"@,
    }
}

/// Choose the namespace that a query asks for.
pub fn query_namespace(namespace: Option<String>) -> (r: String)
    ensures
        r@ == asked_namespace(optional_text(namespace)),
{
    match namespace {
        Some(namespace) => namespace,
        None => "default".to_owned(),
    }
}

/// Find the deploys of an app: of its name, and in its namespace, since apps
/// of one name in two namespaces have nothing to do with each other.
pub fn deploy_history(history: &Vec<DeployRecord>, app: &str, namespace: &str) -> (r: Vec<usize>)
    ensures
        r@ == deploys_of(history@, app@, namespace@),
{
    let mut found: Vec<usize> = Vec::new();
    let mut i: usize = 0;
    proof {
        assert(history@.take(0) =~= Seq::<DeployRecord>::empty());
    }
    while i < history.len()
        invariant
            i <= history.len(),
            found@ == deploys_of(history@.take(i as int), app@, namespace@),
        decreases history.len() - i,
    {
        proof {
            assert(history@.take(i as int + 1).drop_last() =~= history@.take(i as int));
            assert(history@.take(i as int + 1).last() == history@[i as int]);
        }
        if same_text(history[i].app.as_str(), app) && same_text(
            history[i].namespace.as_str(),
            namespace,
        ) {
            found.push(i);
        }
        i = i + 1;
    }
    proof {
        assert(history@.take(history@.len() as int) =~= history@);
    }
    found
}

/// Where the deploys of a name stand in a history, in order, whatever their
/// namespace.
pub open spec fn deploys_named(history: Seq<DeployRecord>, app: Seq<char>) -> Seq<usize>
    decreases history.len(),
{
    if history.len() == 0 {
        Seq::empty()
    } else {
        let before = deploys_named(history.drop_last(), app);
        if history.last().app@ == app {
            before.push((history.len() - 1) as usize)
        } else {
            before
        }
    }
}

/// Find the deploys that the page of an app shows: those of its name.
pub fn page_history(history: &Vec<DeployRecord>, app: &str) -> (r: Vec<usize>)
    ensures
        r@ == deploys_named(history@, app@),
{
    let mut found: Vec<usize> = Vec::new();
    let mut i: usize = 0;
    proof {
        assert(history@.take(0) =~= Seq::<DeployRecord>::empty());
    }
    while i < history.len()
        invariant
            i <= history.len(),
            found@ == deploys_named(history@.take(i as int), app@),
        decreases history.len() - i,
    {
        proof {
            assert(history@.take(i as int + 1).drop_last() =~= history@.take(i as int));
            assert(history@.take(i as int + 1).last() == history@[i as int]);
        }
        if same_text(history[i].app.as_str(), app) {
            found.push(i);
        }
        i = i + 1;
    }
    proof {
        assert(history@.take(history@.len() as int) =~= history@);
    }
    found
}

/// A deploy shows in the history of an app exactly where it was of the app.
pub proof fn history_keeps_namespaces_apart(
    history: Seq<DeployRecord>,
    app: Seq<char>,
    namespace: Seq<char>,
    at: usize,
)
    requires
        history.len() <= usize::MAX,
    ensures
        deploys_of(history, app, namespace).contains(at) <==> at < history.len() && is_deploy_of(
            history[at as int],
            app,
            namespace,
        ),
    decreases history.len(),
{
    if history.len() > 0 {
        let rest = history.drop_last();
        let before = deploys_of(rest, app, namespace);
        let all = deploys_of(history, app, namespace);
        let last = (history.len() - 1) as usize;
        history_keeps_namespaces_apart(rest, app, namespace, at);
        if is_deploy_of(history.last(), app, namespace) {
            assert(all == before.push(last));
            assert(all[before.len() as int] == last);
            if before.contains(at) {
                let k = choose|k: int| 0 <= k < before.len() && before[k] == at;
                assert(all[k] == at);
            }
            if all.contains(at) && at != last {
                let k = choose|k: int| 0 <= k < all.len() && all[k] == at;
                assert(before[k] == at);
            }
        }
        if at < last {
            assert(rest[at as int] == history[at as int]);
        }
    }
}

/// The newest deploy before a place that can be repeated, if there is one.
pub open spec fn newest_before(
    history: Seq<DeployRecord>,
    end: int,
    app: Seq<char>,
    namespace: Seq<char>,
) -> Option<int>
    decreases end,
{
    if end <= 0 {
        None
    } else if can_be_repeated(history[end - 1], app, namespace) {
        Some(end - 1)
    } else {
        newest_before(history, end - 1, app, namespace)
    }
}

/// The deploy that a rollback repeats: the newest before the current one,
/// which is the newest of all.
pub open spec fn rollback_target_of(
    history: Seq<DeployRecord>,
    app: Seq<char>,
    namespace: Seq<char>,
) -> Option<int> {
    match newest_before(history, history.len() as int, app, namespace) {
        Some(current) => newest_before(history, current, app, namespace),
        None => None,
    }
}

fn find_newest_before(
    history: &Vec<DeployRecord>,
    end: usize,
    app: &str,
    namespace: &str,
) -> (r: Option<usize>)
    requires
        end <= history@.len(),
    ensures
        (match r {
            Some(at) => Some(at as int),
            None => None,
        }) == newest_before(history@, end as int, app@, namespace@),
        r is Some ==> r->0 < end,
{
    let mut i: usize = end;
    while i > 0
        invariant
            i <= end <= history@.len(),
            newest_before(history@, i as int, app@, namespace@) == newest_before(
                history@,
                end as int,
                app@,
                namespace@,
            ),
        decreases i,
    {
        i = i - 1;
        let record = &history[i];
        if same_text(record.app.as_str(), app) && same_text(record.namespace.as_str(), namespace)
            && record.completed && record.has_spec {
            return Some(i);
        }
    }
    None
}

/// Choose the deploy that a rollback repeats, out of the history if there is
/// one.
pub fn rollback_target(
    history: Option<&Vec<DeployRecord>>,
    app: &str,
    namespace: &str,
) -> (r: Result<usize, Refusal>)
    ensures
        match history {
            None => refused(r, Status::ServiceUnavailable, "deploy history unavailable"@),
            Some(history) => match rollback_target_of(history@, app@, namespace@) {
                Some(at) => r is Ok && r->Ok_0 == at,
                None => refused(
                    r,
                    Status::NotFound,
                    "no previous successful deploy to roll "@ + app@ + " back to"@,
                ),
            },
        },
{
    let list = match history {
        None => {
            return Err(refuse(Status::ServiceUnavailable, "deploy history unavailable"));
        },
        Some(list) => list,
    };
    match find_newest_before(list, list.len(), app, namespace) {
        Some(current) => match find_newest_before(list, current, app, namespace) {
            Some(target) => {
                return Ok(target);
            },
            None => {},
        },
        None => {},
    }
    let mut error: String = "no previous successful deploy to roll ".to_owned();
    error.append(app);
    error.append(" back to");
    Err(Refusal { status: Status::NotFound, error })
}

proof fn newest_is_newest(
    history: Seq<DeployRecord>,
    end: int,
    app: Seq<char>,
    namespace: Seq<char>,
)
    requires
        0 <= end <= history.len(),
    ensures
        match newest_before(history, end, app, namespace) {
            Some(at) => 0 <= at < end && can_be_repeated(history[at], app, namespace) && forall|
                i: int,
            |
                at < i < end ==> !can_be_repeated(#[trigger] history[i], app, namespace),
            None => forall|i: int|
                0 <= i < end ==> !can_be_repeated(#[trigger] history[i], app, namespace),
        },
    decreases end,
{
    if end > 0 {
        newest_is_newest(history, end - 1, app, namespace);
    }
}

/// A rollback goes back exactly one completed deploy of the same app: exactly
/// one later deploy could be repeated, which is the current version.
pub proof fn rollback_goes_back_one(
    history: Seq<DeployRecord>,
    app: Seq<char>,
    namespace: Seq<char>,
)
    requires
        rollback_target_of(history, app, namespace) is Some,
    ensures
        ({
            let target = rollback_target_of(history, app, namespace)->0;
            &&& 0 <= target < history.len()
            &&& can_be_repeated(history[target], app, namespace)
            &&& exists|current: int|
                target < current < history.len() && #[trigger] can_be_repeated(
                    history[current],
                    app,
                    namespace,
                ) && forall|i: int|
                    target < i < history.len() && i != current ==> !can_be_repeated(
                        #[trigger] history[i],
                        app,
                        namespace,
                    )
        }),
{
    newest_is_newest(history, history.len() as int, app, namespace);
    let current = newest_before(history, history.len() as int, app, namespace)->0;
    newest_is_newest(history, current, app, namespace);
    let target = rollback_target_of(history, app, namespace)->0;
    assert(target < current && can_be_repeated(history[current], app, namespace));
    assert forall|i: int| target < i < history.len() && i != current implies !can_be_repeated(
        #[trigger] history[i],
        app,
        namespace,
    ) by {
        if i < current {
        } else {
        }
    }
}

/// What came of asking the agent for its deploys.
#[derive(Debug)]
pub enum DeployQuery<T> {
    /// The agent did not take the question, or gave no answer.
    Unavailable,
    /// The agent did not answer in time.
    TimedOut,
    /// The agent's answer.
    Done(T),
}

/// Answer a question for the agent's deploys.
pub fn deploy_operation_snapshot<T>(query: DeployQuery<T>) -> (r: Result<T, Refusal>)
    ensures
        match query {
            DeployQuery::Unavailable => refused(
                r,
                Status::ServiceUnavailable,
                "agent unavailable"@,
            ),
            DeployQuery::TimedOut => refused(
                r,
                Status::GatewayTimeout,
                "agent deploy-state query timed out"@,
            ),
            DeployQuery::Done(snapshot) => r == Ok::<T, Refusal>(snapshot),
        },
{
    match query {
        DeployQuery::Unavailable => Err(refuse(Status::ServiceUnavailable, "agent unavailable")),
        DeployQuery::TimedOut => Err(
            refuse(Status::GatewayTimeout, "agent deploy-state query timed out"),
        ),
        DeployQuery::Done(snapshot) => Ok(snapshot),
    }
}

} // verus!
