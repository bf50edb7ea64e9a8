//! Log queries over the nodes that run an app.

use vstd::prelude::*;
use vstd::string::*;

use crate::access::{caller, is_unconfined, require_unscoped, AuthContext, Denial};
use crate::membership::{find_member, member_position, NodeMembershipInfo};
use crate::reply::{refuse, refused, ClusterHttp, Refusal, Status};
use crate::text::strings;

verus! {

/// A node to ask, and where it is.
#[derive(Debug)]
pub struct NodeUrl {
    /// Name of the node.
    pub node_id: String,
    /// Base URL of its API.
    pub url: String,
}

/// A node to ask as its facts.
pub ghost struct Asked {
    /// Node.
    pub node_id: Seq<char>,
    /// Base URL.
    pub url: Seq<char>,
}

impl View for NodeUrl {
    type V = Asked;

    open spec fn view(&self) -> Asked {
        Asked { node_id: self.node_id@, url: self.url@ }
    }
}

/// The facts of each node in a list.
pub open spec fn asked(list: Seq<NodeUrl>) -> Seq<Asked> {
    list.map_values(|n: NodeUrl| n@)
}

/// The nodes of a list that can be asked, and those that cannot, in order.
pub open spec fn reachable(
    nodes: Seq<Seq<char>>,
    members: Seq<NodeMembershipInfo>,
    http: ClusterHttp,
) -> (Seq<Asked>, Seq<Seq<char>>)
    decreases nodes.len(),
{
    if nodes.len() == 0 {
        (Seq::empty(), Seq::empty())
    } else {
        let (known, lost) = reachable(nodes.drop_last(), members, http);
        let node = nodes.last();
        match member_position(members, node) {
            Some(at) => (
                known.push(
                    Asked { node_id: node, url: http.url_text(members[at].address@, ""@) },
                ),
                lost,
            ),
            None => (known, lost.push(node)),
        }
    }
}

/// Find the nodes that can be asked, and name those that cannot.
pub fn resolve_nodes(
    nodes: &Vec<String>,
    members: &Vec<NodeMembershipInfo>,
    http: &ClusterHttp,
) -> (r: (Vec<NodeUrl>, Vec<String>))
    ensures
        (asked(r.0@), strings(r.1@)) == reachable(strings(nodes@), members@, *http),
{
    let ghost all = strings(nodes@);
    let mut known: Vec<NodeUrl> = Vec::new();
    let mut lost: Vec<String> = Vec::new();
    let mut i: usize = 0;
    proof {
        assert(asked(known@) =~= Seq::<Asked>::empty());
        assert(strings(lost@) =~= Seq::<Seq<char>>::empty());
        assert(all.take(0) =~= Seq::<Seq<char>>::empty());
    }
    while i < nodes.len()
        invariant
            i <= nodes.len(),
            all == strings(nodes@),
            (asked(known@), strings(lost@)) == reachable(all.take(i as int), members@, *http),
        decreases nodes.len() - i,
    {
        let node = &nodes[i];
        let ghost k = known@;
        let ghost l = lost@;
        proof {
            assert(all.take(i as int + 1).drop_last() =~= all.take(i as int));
            assert(all.take(i as int + 1).last() == node@);
        }
        match find_member(members, node.as_str()) {
            Some(at) => {
                let found = NodeUrl {
                    node_id: node.clone(),
                    url: http.url(members[at].address.as_str(), ""),
                };
                let ghost fact = found@;
                known.push(found);
                proof {
                    assert(asked(known@) =~= asked(k).push(fact));
                }
            },
            None => {
                lost.push(node.clone());
                proof {
                    assert(strings(lost@) =~= strings(l).push(node@));
                }
            },
        }
        i = i + 1;
    }
    proof {
        assert(all.take(all.len() as int) =~= all);
    }
    (known, lost)
}

/// Every node of a list is asked or named as lost.
pub proof fn every_node_is_asked_or_named(
    nodes: Seq<Seq<char>>,
    members: Seq<NodeMembershipInfo>,
    http: ClusterHttp,
)
    ensures
        reachable(nodes, members, http).0.len() + reachable(nodes, members, http).1.len()
            == nodes.len(),
    decreases nodes.len(),
{
    if nodes.len() > 0 {
        every_node_is_asked_or_named(nodes.drop_last(), members, http);
    }
}

/// The last items of a list, as many as are asked for.
pub open spec fn tail_of<T>(entries: Seq<T>, tail: Option<usize>) -> Seq<T> {
    match tail {
        Some(count) => if entries.len() > count {
            entries.skip(entries.len() - count)
        } else {
            entries
        },
        None => entries,
    }
}

/// Keep the last entries of a merged answer.
pub fn keep_tail<T>(entries: Vec<T>, tail: Option<usize>) -> (r: Vec<T>)
    ensures
        r@ == tail_of(entries@, tail),
{
    let mut all = entries;
    match tail {
        Some(count) => {
            if all.len() > count {
                let at: usize = all.len() - count;
                let kept = all.split_off(at);
                proof {
                    assert(kept@ =~= entries@.skip(at as int));
                }
                return kept;
            }
        },
        None => {},
    }
    all
}

/// Where a log query is answered.
#[derive(Debug)]
pub enum LogRoute {
    /// From the store of this node.
    Local,
    /// No node runs the app, so there is nothing.
    Nowhere,
    /// From these nodes; the others could not be found.
    FanOut {
        /// The nodes to ask.
        nodes: Vec<NodeUrl>,
        /// The nodes that could not be found.
        lost: Vec<String>,
    },
}

/// Decide where a log query is answered: on every node that the council has
/// placed the app on, or here where there is no council or no membership.
pub fn log_route(
    placed: Option<&Vec<String>>,
    members: Option<&Vec<NodeMembershipInfo>>,
    http: &ClusterHttp,
) -> (r: LogRoute)
    ensures
        if placed is None || members is None {
            r is Local
        } else if placed->0@.len() == 0 {
            r is Nowhere
        } else {
            r matches LogRoute::FanOut { nodes, lost } && (asked(nodes@), strings(lost@))
                == reachable(strings(placed->0@), members->0@, *http)
        },
{
    match (placed, members) {
        (Some(placed), Some(members)) => {
            if placed.len() == 0 {
                return LogRoute::Nowhere;
            }
            let (nodes, lost) = resolve_nodes(placed, members, http);
            LogRoute::FanOut { nodes, lost }
        },
        _ => LogRoute::Local,
    }
}

/// The answer to a log query over nodes.
#[derive(Debug)]
pub struct LogAnswer<T> {
    /// The entries, merged by time.
    pub entries: Vec<T>,
    /// How many nodes run the app.
    pub node_count: usize,
    /// Nodes that did not answer.
    pub unresponsive: Vec<String>,
}

/// Assemble the answer of a log query over nodes: the tail is cut after the
/// merge, and every node that was lost or failed is named.
pub fn assemble_logs<T>(
    entries: Vec<T>,
    asked_nodes: usize,
    lost: Vec<String>,
    failed: Vec<String>,
    tail: Option<usize>,
) -> (r: LogAnswer<T>)
    requires
        asked_nodes + lost@.len() <= usize::MAX,
    ensures
        r.entries@ == tail_of(entries@, tail),
        r.node_count == asked_nodes + lost@.len(),
        r.unresponsive@ == lost@ + failed@,
{
    let node_count: usize = asked_nodes + lost.len();
    let mut unresponsive = lost;
    let mut more = failed;
    unresponsive.append(&mut more);
    LogAnswer { entries: keep_tail(entries, tail), node_count, unresponsive }
}

/// Require the query of raw access to the logs.
pub fn require_sql(query: Option<String>) -> (r: Result<String, Refusal>)
    ensures
        match query {
            Some(sql) => r == Ok::<String, Refusal>(sql),
            None => refused(
                r,
                Status::BadRequest,
                "missing 'q' query parameter"@,
            ),
        },
{
    match query {
        Some(sql) => Ok(sql),
        None => Err(refuse(Status::BadRequest, "missing 'q' query parameter")),
    }
}

/// What becomes of a raw query of the logs.
#[derive(Debug)]
pub enum RawQuery {
    /// There is no store, as the answer says.
    Disabled(String),
    /// The statement to run.
    Run(String),
}

/// Decide what becomes of a raw query: it reads the logs of every app, so a
/// confined caller is refused.
pub fn raw_query(auth: Option<&AuthContext>, enabled: bool, query: Option<String>) -> (r: Result<
    RawQuery,
    Refusal,
>)
    ensures
        if !is_unconfined(caller(auth)) {
            refused(r, Status::Forbidden, Denial::Confined.text())
        } else if !enabled {
            r matches Ok(RawQuery::Disabled(words)) && words@ == "log store not enabled"@
        } else {
            match query {
                Some(sql) => r == Ok::<RawQuery, Refusal>(RawQuery::Run(sql)),
                None => refused(r, Status::BadRequest, "missing 'q' query parameter"@),
            }
        },
{
    match require_unscoped(auth) {
        Err(denial) => {
            return Err(denial.refusal());
        },
        Ok(()) => {},
    }
    if !enabled {
        return Ok(RawQuery::Disabled("log store not enabled".to_owned()));
    }
    match require_sql(query) {
        Err(refusal) => Err(refusal),
        Ok(sql) => Ok(RawQuery::Run(sql)),
    }
}

/// The status of a failed raw query: a rejected one is the caller's fault.
pub fn log_sql_status(rejected: bool) -> (r: Status)
    ensures
        r == if rejected {
            Status::BadRequest
        } else {
            Status::InternalServerError
        },
{
    if rejected {
        Status::BadRequest
    } else {
        Status::InternalServerError
    }
}

} // verus!
