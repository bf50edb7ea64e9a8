//! What is shown, listed and passed on.

use vstd::prelude::*;

use crate::access::AuthContext;
use crate::api::activity::{list_events, replay_events};
use crate::api::audit::{
    cleared_all_audit, cleared_audit, healed_audit, injected_audit, partition_audit, FaultAudit,
    InjectedFault,
};
use crate::api::commit::{
    answer_placements, assignments_of, cluster_apply, count_placements, describe_write,
    leader_api_url, placed_on, relay_step, ApplyEvent, ClusterRoute, CommitRun, CouncilLeader,
    Handed, NodeAssignment, PlannedWrite, RelayStep, ScheduledApp,
};
use crate::api::dashboard::{
    all_placed_on, app_charts, app_page_state, apps_of, dashboard_node_count,
    gather_dashboard_nodes, node_charts, node_page, page_state, shown_state,
    statuses_to_dashboard_apps, worst_state, ChartConfig, DashboardApp, DashboardNode, NodePage,
};
use crate::api::forwarding::{
    announced_length_fits, chunk_fits, forward_apply, forward_batch, forward_build_status,
    forward_stop, forward_test_lease_request, send_node_request, Forwarded,
};
use crate::api::history::{
    deploy_history, deploy_operation_snapshot, deploys_of, deploys_named, newest_before,
    page_history, query_namespace, rollback_target, DeployQuery, DeployRecord,
};
use crate::api::leases::CouncilWrite;
use crate::api::logs::{
    asked, assemble_logs, keep_tail, log_route, log_sql_status, raw_query, reachable, require_sql,
    resolve_nodes, Asked, LogAnswer, LogRoute, NodeUrl, RawQuery,
};
use crate::api::metrics::{
    app_label, app_metrics_nodes, app_samples_sql, cluster_metrics, escape_sql_literal, escaped,
    every_live_voter_is_asked, local_metrics, metrics_read, query_window, resolve_council_urls,
    rollup_read, samples_sql, sql_literal, voter_urls, ClusterMetrics, LocalMetrics, MetricsRead,
    Window,
};
use crate::api::routes::{route_access, Access};
use crate::api::webhook::{
    answer_delivery, header_branch, header_delivery_id, read_delivery, take_text, Delivery, Header,
    Proof,
};
use crate::events::{ClusterEvent, EventSeverity, EventStore};
use crate::instances::InstanceStatus;
use crate::laws::access::{credentials, has_no_scope};
use crate::laws::batch::members_are_found_by_name;
use crate::laws::events::is_asked_for;
use crate::membership::{member_position, NodeMembershipInfo};
use crate::policy::ApiRole;
use crate::reply::{ClusterHttp, Refusal, Status};
use crate::text::{borrowed_text, decimal_text, joined, strings};
use crate::value::map_meaning;

verus! {

/// Events are listed for those without a scope: the last hundred, or as many as are
/// wanted, of those that are asked for.
pub proof fn events_are_listed_as_asked_for(
    auth: Option<&AuthContext>,
    store: Option<&EventStore>,
    limit: Option<usize>,
    app: Option<&str>,
    least: Option<EventSeverity>,
    r: Result<Vec<ClusterEvent>, Refusal>,
)
    requires
        call_ensures(list_events, (auth, store, limit, app, least), r),
    ensures
        r is Ok <==> has_no_scope(auth),
        r matches Err(e) ==> e.status is Forbidden,
        r matches Ok(listed) ==> match store {
            None => listed@.len() == 0,
            Some(kept) => {
                let all = kept.history().filter(|e: ClusterEvent| is_asked_for(e, app, least));
                let most = match limit {
                    Some(n) => n as int,
                    None => 100,
                };
                &&& all.len() <= most ==> listed@ == all
                &&& all.len() > most ==> listed@ == all.skip(all.len() - most)
            },
        },
{
    credentials(auth, ApiRole::ReadOnly, Seq::empty(), Seq::empty());
    let a = |e: ClusterEvent| crate::events::event_matches(e, borrowed_text(app), least);
    let b = |e: ClusterEvent| is_asked_for(e, app, least);
    assert forall|e: ClusterEvent| #[trigger] a(e) == b(e) by {}
    assert(a =~= b);
}

/// The last fifty events are replayed.
pub proof fn the_last_fifty_events_are_replayed(store: &EventStore, r: Vec<ClusterEvent>)
    requires
        call_ensures(replay_events, (store,), r),
    ensures
        store.history().len() <= 50 ==> r@ == store.history(),
        store.history().len() > 50 ==> r@ == store.history().skip(store.history().len() - 50),
{
}

/// A fault that was injected is audited with its number, kind, time, and what it
/// was aimed at.
pub proof fn injected_faults_are_audited(fault: InjectedFault, principal: &str, r: FaultAudit)
    requires
        call_ensures(injected_audit, (fault, principal), r),
    ensures
        r.action@ == "fault.injected"@ && r.principal@ == principal@ && r.severity is Warning
            && r.node == fault.target_node,
        fault.target_service@.len() == 0 ==> r.app is None,
        fault.target_service@.len() > 0 ==> r.app == Some(fault.target_service),
        ({
            let details = map_meaning(r.details);
            &&& details.dom().contains("fault_id"@) && details["fault_id"@] == decimal_text(
                fault.id as nat,
            )
            &&& details.dom().contains("fault_type"@) && details["fault_type"@]
                == fault.requested_kind@
            &&& details.dom().contains("duration_seconds"@) && details["duration_seconds"@]
                == decimal_text(fault.duration_seconds as nat)
            &&& details.dom().contains("target_instance"@) <==> fault.target_instance is Some
            &&& fault.target_instance matches Some(of) ==> details["target_instance"@] == of@
            &&& details.dom().contains("reason"@) <==> fault.reason is Some
            &&& fault.reason matches Some(why) ==> details["reason"@] == why@
        }),
        r.message@ == "fault "@ + decimal_text(fault.id as nat) + " ("@ + fault.kind@
            + ") injected for "@ + decimal_text(fault.duration_seconds as nat)
            + "s by principal "@ + principal@,
{
    names_of_details();
}

proof fn names_of_details()
    ensures
        "fault_id"@.len() == 8,
        "fault_type"@.len() == 10,
        "duration_seconds"@.len() == 16,
        "target_instance"@.len() == 15,
        "reason"@.len() == 6,
        "peers"@.len() == 5,
{
    reveal_strlit("fault_id");
    reveal_strlit("fault_type");
    reveal_strlit("duration_seconds");
    reveal_strlit("target_instance");
    reveal_strlit("reason");
    reveal_strlit("peers");
}

/// Faults that were cleared are audited with what was cleared, as information.
pub proof fn cleared_faults_are_audited(
    id: u64,
    node: Option<String>,
    principal: &str,
    one: FaultAudit,
    service: Option<String>,
    words: &str,
    all: FaultAudit,
    healed: FaultAudit,
)
    requires
        call_ensures(cleared_audit, (id, node, principal), one),
        call_ensures(cleared_all_audit, (service, words, principal), all),
        call_ensures(healed_audit, (words, principal), healed),
    ensures
        one.action@ == "fault.cleared"@ && one.severity is Info && one.app is None && one.node
            == node && one.principal@ == principal@,
        map_meaning(one.details).dom().contains("fault_id"@) && map_meaning(
            one.details,
        )["fault_id"@] == decimal_text(id as nat),
        one.message@ == "fault "@ + decimal_text(id as nat) + " cleared by principal "@
            + principal@,
        all.severity is Info && all.app == service && all.node is None && all.principal@
            == principal@ && all.message@ == words@ + " by principal "@ + principal@,
        service is None ==> all.action@ == "fault.cleared-all-workload"@,
        service matches Some(name) ==> all.action@ == "fault.cleared-by-service"@ && map_meaning(
            all.details,
        ).dom().contains("target_service"@) && map_meaning(all.details)["target_service"@] == name@,
        healed.action@ == "fault.cleared-council-partition"@ && healed.severity is Info
            && healed.app is None && healed.node is None && healed.principal@ == principal@
            && healed.message@ == words@ + " by principal "@ + principal@,
{
}

/// A partition is audited with the peers it parts.
pub proof fn partitions_are_audited(
    id: u64,
    peers: &Vec<String>,
    seconds: u64,
    words: &str,
    principal: &str,
    r: FaultAudit,
)
    requires
        call_ensures(partition_audit, (id, peers, seconds, words, principal), r),
    ensures
        r.action@ == "fault.injected"@ && r.severity is Warning && r.app is None && r.node is None
            && r.principal@ == principal@ && r.message@ == words@ + " by principal "@ + principal@,
        ({
            let details = map_meaning(r.details);
            &&& details.dom().contains("fault_type"@) && details["fault_type"@]
                == "CouncilPartition"@
            &&& details.dom().contains("duration_seconds"@) && details["duration_seconds"@]
                == decimal_text(seconds as nat)
            &&& details.dom().contains("peers"@) && details["peers"@] == joined(
                strings(peers@),
                ","@,
            )
            &&& details.dom().contains("fault_id"@) && details["fault_id"@] == decimal_text(
                id as nat,
            )
        }),
{
    names_of_details();
}

/// A manifest is committed by the leader where it is valid; others pass it on, with
/// the caller's credentials where it is leased, the cluster's where they have
/// them, and none otherwise.
pub proof fn manifests_are_committed_by_the_leader(
    is_leader: bool,
    leader: Option<String>,
    leased: bool,
    token: bool,
    validity: &Result<(), String>,
    r: Result<ClusterRoute, Refusal>,
)
    requires
        call_ensures(cluster_apply, (is_leader, leader, leased, token, validity), r),
    ensures
        (r matches Ok(route) && route is Commit) <==> is_leader && *validity is Ok,
        is_leader ==> (*validity matches Err(error) ==> (r matches Err(e) && e.status is BadRequest
            && e.error@ == error@)),
        !is_leader && leader is None ==> (r matches Err(e) && e.status is ServiceUnavailable),
        !is_leader ==> (leader matches Some(at) ==> (r matches Ok(
            ClusterRoute::Forward { url, credentials },
        ) && url@ == at@ + "/v1/apply"@ && (credentials is Caller <==> leased) && (
        credentials is Service <==> !leased && token))),
{
}

/// A write is labelled by what it writes.
pub proof fn writes_are_labelled(write: &PlannedWrite, r: String)
    requires
        call_ensures(describe_write, (write,), r),
    ensures
        *write matches PlannedWrite::App(name) ==> r@ == "app "@ + name@,
        *write matches PlannedWrite::Namespace(name) ==> r@ == "namespace "@ + name@,
        *write matches PlannedWrite::Permission(name) ==> r@ == "permission "@ + name@,
        *write matches PlannedWrite::LeasedApp(name) ==> r@ == "leased app "@ + name@,
        *write matches PlannedWrite::LeasedNamespace(name) ==> r@ == "leased namespace "@ + name@,
        *write is Other ==> r@ == "resource"@,
{
}

/// A commit counts what was committed and stops at the first write that was not.
pub proof fn commits_stop_at_the_first_failure(
    run: &mut CommitRun,
    write: &PlannedWrite,
    outcome: CouncilWrite,
    label: String,
    r: ApplyEvent,
)
    requires
        call_ensures(CommitRun::record, (run, write, outcome), r),
        call_ensures(describe_write, (write,), label),
    ensures
        outcome is Committed ==> final(run).committed == old(run).committed + 1 && !final(
            run).stopped && (r matches ApplyEvent::Progress(text) && text@ == label@
            + ": committed to the cluster"@),
        !(outcome is Committed) ==> final(run).committed == old(run).committed && final(
            run).stopped && r is Error,
        outcome matches CouncilWrite::Refused(why) ==> (r matches ApplyEvent::Error(text) && text@
            == label@ + ": refused by the cluster: "@ + why@),
        outcome matches CouncilWrite::Failed(why) ==> (r matches ApplyEvent::Error(text) && text@
            == label@ + ": raft write failed: "@ + why@),
{
}

/// A commit begins with nothing committed, stopped where it was refused, and ends
/// by what it committed or the jobs that are left to this node.
pub proof fn commits_begin_and_end(
    refusal: Option<String>,
    begun: (CommitRun, Option<ApplyEvent>),
    run: &CommitRun,
    jobs: usize,
    r: ApplyEvent,
)
    requires
        call_ensures(CommitRun::begin, (refusal,), begun),
        call_ensures(CommitRun::finish, (run, jobs), r),
    ensures
        begun.0.committed == 0,
        begun.0.stopped <==> refusal is Some,
        refusal is None ==> begun.1 is None,
        refusal matches Some(why) ==> (begun.1 matches Some(ApplyEvent::Error(text)) && text@
            == why@),
        jobs == 0 ==> (r matches ApplyEvent::Complete(n) && n == run.committed),
        jobs > 0 ==> (r matches ApplyEvent::Progress(text) && text@ == decimal_text(jobs as nat)
            + " job(s) deploying on this node (jobs are not cluster-scheduled yet)"@),
{
}

/// The leader is asked at its address as a member, or at its host and the port of
/// the API where it is none.
pub proof fn leaders_are_asked_at_their_address(
    leader: Option<&CouncilLeader>,
    members: Option<&Vec<NodeMembershipInfo>>,
    http: &ClusterHttp,
    port: u16,
    r: Option<String>,
)
    requires
        call_ensures(leader_api_url, (leader, members, http, port), r),
    ensures
        r is Some <==> leader is Some,
        r matches Some(url) ==> {
            let scheme = if http.tls {
                "https://"@
            } else {
                "http://"@
            };
            let known = members matches Some(list) && exists|i: int|
                0 <= i < list@.len() && (#[trigger] list@[i]).node_id@ == leader->0.name@;
            &&& !known ==> url@ == scheme + (leader->0.host@ + ":"@ + decimal_text(port as nat))
            &&& known ==> exists|i: int|
                0 <= i < members->0@.len() && (#[trigger] members->0@[i]).node_id@
                    == leader->0.name@ && url@ == scheme + members->0@[i].address@ && forall|j: int|
                    0 <= j < i ==> (#[trigger] members->0@[j]).node_id@ != leader->0.name@
        },
{
    reveal_strlit("");
    if leader is Some {
        let name = leader->0.name@;
        let scheme = if http.tls {
            "https://"@
        } else {
            "http://"@
        };
        let host = leader->0.host@ + ":"@ + decimal_text(port as nat);
        assert(scheme + host + ""@ =~= scheme + host);
        if members is Some {
            members_are_found_by_name(members->0@, name);
            if member_position(members->0@, name) is Some {
                let at = member_position(members->0@, name)->0;
                let address = members->0@[at].address@;
                assert(scheme + address + ""@ =~= scheme + address);
                assert(members->0@[at].node_id@ == name);
            }
        }
    }
}

/// What ends a deployment releases it unless nobody listens, and waits only where
/// there is no room.
pub proof fn terminal_events_release(terminal: bool, handed: Handed, r: RelayStep)
    requires
        call_ensures(relay_step, (terminal, handed), r),
    ensures
        r.release <==> terminal && (handed is Taken || handed is Full),
        r.wait <==> terminal && handed is Full,
{
}

/// A placement more on a node counts one more there, and none elsewhere.
pub proof fn placements_are_counted_one_by_one(
    nodes: &Vec<String>,
    node: &str,
    r: usize,
    more: &Vec<String>,
    last: String,
    n: usize,
)
    requires
        call_ensures(count_placements, (nodes, node), r),
        call_ensures(count_placements, (more, node), n),
        more@ == nodes@.push(last),
    ensures
        nodes@.len() == 0 ==> r == 0,
        last@ == node@ ==> n == r + 1,
        last@ != node@ ==> n == r,
{
    assert(more@.drop_last() =~= nodes@);
}

proof fn assigned(apps: Seq<ScheduledApp>, node: Seq<char>, i: int)
    requires
        0 <= i < apps.len(),
        apps[i].has_spec,
        0 < placed_on(apps[i].nodes@, node) <= u32::MAX,
    ensures
        exists|k: int|
            0 <= k < assignments_of(apps, node).len() && (#[trigger] assignments_of(
                apps,
                node,
            )[k]).name == apps[i].name && assignments_of(apps, node)[k].namespace
                == apps[i].namespace && assignments_of(apps, node)[k].replicas == placed_on(
                apps[i].nodes@,
                node,
            ),
    decreases apps.len(),
{
    let end = apps.len() - 1;
    let rest = apps.drop_last();
    let before = assignments_of(rest, node);
    let all = assignments_of(apps, node);
    if i < end {
        assert(rest[i] == apps[i]);
        assigned(rest, node, i);
        let k = choose|k: int|
            0 <= k < before.len() && (#[trigger] before[k]).name == apps[i].name
                && before[k].namespace == apps[i].namespace && before[k].replicas == placed_on(
                apps[i].nodes@,
                node,
            );
        assert(all[k] == before[k]);
    } else {
        assert(all[before.len() as int].name == apps[i].name);
    }
}

proof fn assigned_from(apps: Seq<ScheduledApp>, node: Seq<char>)
    ensures
        forall|k: int|
            0 <= k < assignments_of(apps, node).len() ==> assigned_for(
                #[trigger] assignments_of(apps, node)[k],
                apps,
                node,
            ),
    decreases apps.len(),
{
    if apps.len() > 0 {
        let rest = apps.drop_last();
        let before = assignments_of(rest, node);
        let all = assignments_of(apps, node);
        assigned_from(rest, node);
        assert forall|k: int| 0 <= k < all.len() implies assigned_for(
            #[trigger] all[k],
            apps,
            node,
        ) by {
            if k < before.len() {
                assert(all[k] == before[k]);
                assert(assigned_for(before[k], rest, node));
                let i = choose|i: int|
                    0 <= i < rest.len() && (#[trigger] rest[i]).has_spec && rest[i].name
                        == all[k].name && rest[i].namespace == all[k].namespace && (placed_on(
                        rest[i].nodes@,
                        node,
                    ) <= u32::MAX ==> all[k].replicas == placed_on(rest[i].nodes@, node));
                assert(apps[i] == rest[i]);
            } else {
                assert(apps[apps.len() - 1].name == all[k].name);
            }
        }
    }
}

/// Whether an assignment is that of an application that is to run on a node.
pub open spec fn assigned_for(
    assignment: NodeAssignment,
    apps: Seq<ScheduledApp>,
    node: Seq<char>,
) -> bool {
    assignment.replicas > 0 && exists|i: int|
        0 <= i < apps.len() && (#[trigger] apps[i]).has_spec && apps[i].name == assignment.name
            && apps[i].namespace == assignment.namespace && (placed_on(apps[i].nodes@, node)
            <= u32::MAX ==> assignment.replicas == placed_on(apps[i].nodes@, node))
}

/// A node is assigned every application with a specification that is placed on it,
/// as many replicas as are placed there, and nothing else.
pub proof fn nodes_are_assigned_what_is_placed_on_them(
    apps: Option<&Vec<ScheduledApp>>,
    node: &str,
    r: Result<Vec<NodeAssignment>, Refusal>,
    i: int,
    k: int,
)
    requires
        call_ensures(answer_placements, (apps, node), r),
    ensures
        r is Ok <==> apps is Some,
        r matches Err(e) ==> e.status is ServiceUnavailable,
        r matches Ok(given) ==> (0 <= k < given@.len() ==> assigned_for(
            given@[k],
            apps->0@,
            node@,
        )) && (0 <= i < apps->0@.len() && apps->0@[i].has_spec && 0 < placed_on(
            apps->0@[i].nodes@,
            node@,
        ) <= u32::MAX ==> exists|m: int|
            0 <= m < given@.len() && (#[trigger] given@[m]).name == apps->0@[i].name
                && given@[m].namespace == apps->0@[i].namespace && given@[m].replicas == placed_on(
                apps->0@[i].nodes@,
                node@,
            )),
{
    if apps is Some {
        assigned_from(apps->0@, node@);
        if 0 <= i < apps->0@.len() && apps->0@[i].has_spec && 0 < placed_on(
            apps->0@[i].nodes@,
            node@,
        ) <= u32::MAX {
            assigned(apps->0@, node@, i);
        }
    }
}

proof fn last_not_running(instances: Seq<InstanceStatus>)
    ensures
        (forall|i: int| 0 <= i < instances.len() ==> (#[trigger] instances[i]).state@
            == "running"@) ==> worst_state(instances) == "running"@,
        forall|i: int|
            0 <= i < instances.len() && (#[trigger] instances[i]).state@ != "running"@ && (forall|
                j: int,
            |
                i < j < instances.len() ==> (#[trigger] instances[j]).state@ == "running"@)
                ==> worst_state(instances) == instances[i].state@,
    decreases instances.len(),
{
    if instances.len() > 0 {
        let rest = instances.drop_last();
        let end = instances.len() - 1;
        last_not_running(rest);
        assert forall|i: int| 0 <= i < end implies #[trigger] instances[i] == rest[i] by {}
        if forall|i: int| 0 <= i < instances.len() ==> (#[trigger] instances[i]).state@
            == "running"@ {
            assert(instances[end].state@ == "running"@);
            assert forall|i: int| 0 <= i < rest.len() implies (#[trigger] rest[i]).state@
                == "running"@ by {
                assert(instances[i].state@ == "running"@);
            }
        }
        assert forall|i: int|
            0 <= i < instances.len() && (#[trigger] instances[i]).state@ != "running"@ && (forall|
                j: int,
            |
                i < j < instances.len() ==> (#[trigger] instances[j]).state@
                    == "running"@) implies worst_state(instances) == instances[i].state@ by {
            if i < end {
                assert(instances[end].state@ == "running"@);
                assert(rest[i].state@ != "running"@);
                assert forall|j: int| i < j < rest.len() implies (#[trigger] rest[j]).state@
                    == "running"@ by {
                    assert(instances[j].state@ == "running"@);
                }
            }
        }
    }
}

/// An application runs where all its instances do; else its state is that of the
/// last that does not.
pub proof fn applications_run_where_all_instances_do(
    instances: &Vec<InstanceStatus>,
    r: String,
    i: int,
)
    requires
        call_ensures(shown_state, (instances,), r),
    ensures
        (forall|i: int| 0 <= i < instances@.len() ==> (#[trigger] instances@[i]).state@
            == "running"@) ==> r@ == "running"@,
        0 <= i < instances@.len() && instances@[i].state@ != "running"@ && (forall|j: int|
            i < j < instances@.len() ==> (#[trigger] instances@[j]).state@ == "running"@) ==> r@
            == instances@[i].state@,
{
    last_not_running(instances@);
}

proof fn first_not_running(instances: Seq<InstanceStatus>)
    ensures
        instances.len() == 0 ==> page_state(instances) == "unknown"@,
        instances.len() > 0 && (forall|i: int|
            0 <= i < instances.len() ==> (#[trigger] instances[i]).state@ == "running"@)
            ==> page_state(instances) == "running"@,
        forall|i: int|
            0 <= i < instances.len() && (#[trigger] instances[i]).state@ != "running"@ && (forall|
                j: int,
            |
                0 <= j < i ==> (#[trigger] instances[j]).state@ == "running"@) ==> page_state(
                instances,
            ) == instances[i].state@,
    decreases instances.len(),
{
    if instances.len() > 0 {
        let rest = instances.skip(1);
        first_not_running(rest);
        assert forall|i: int| 0 < i < instances.len() implies #[trigger] instances[i] == rest[i
            - 1] by {}
        if forall|i: int| 0 <= i < instances.len() ==> (#[trigger] instances[i]).state@
            == "running"@ {
            assert(instances[0].state@ == "running"@);
            assert forall|i: int| 0 <= i < rest.len() implies (#[trigger] rest[i]).state@
                == "running"@ by {
                assert(instances[i + 1].state@ == "running"@);
            }
        }
        assert forall|i: int|
            0 <= i < instances.len() && (#[trigger] instances[i]).state@ != "running"@ && (forall|
                j: int,
            |
                0 <= j < i ==> (#[trigger] instances[j]).state@ == "running"@) implies page_state(
            instances,
        ) == instances[i].state@ by {
            if i > 0 {
                assert(instances[0].state@ == "running"@);
                assert(rest[i - 1].state@ != "running"@);
                assert forall|j: int| 0 <= j < i - 1 implies (#[trigger] rest[j]).state@
                    == "running"@ by {
                    assert(instances[j + 1].state@ == "running"@);
                }
            }
        }
    }
}

/// The page of an application shows the state of the first instance that does not
/// run, that all run, or that it is unknown.
pub proof fn pages_show_the_first_that_does_not_run(
    instances: &Vec<InstanceStatus>,
    r: String,
    i: int,
)
    requires
        call_ensures(app_page_state, (instances,), r),
    ensures
        instances@.len() == 0 ==> r@ == "unknown"@,
        instances@.len() > 0 && (forall|i: int|
            0 <= i < instances@.len() ==> (#[trigger] instances@[i]).state@ == "running"@) ==> r@
            == "running"@,
        0 <= i < instances@.len() && instances@[i].state@ != "running"@ && (forall|j: int|
            0 <= j < i ==> (#[trigger] instances@[j]).state@ == "running"@) ==> r@
            == instances@[i].state@,
{
    first_not_running(instances@);
}

proof fn apps_are_named(statuses: Seq<InstanceStatus>)
    ensures
        forall|k: int|
            0 <= k < apps_of(statuses).len() ==> exists|i: int|
                0 <= i < statuses.len() && (#[trigger] statuses[i]).app_name@ == (
                #[trigger] apps_of(statuses)[k]).app@ && statuses[i].namespace@ == apps_of(
                    statuses,
                )[k].namespace@,
    decreases statuses.len(),
{
    if statuses.len() > 0 {
        let rest = statuses.drop_last();
        let before = apps_of(rest);
        let all = apps_of(statuses);
        apps_are_named(rest);
        assert forall|k: int| 0 <= k < all.len() implies exists|i: int|
            0 <= i < statuses.len() && (#[trigger] statuses[i]).app_name@ == (
            #[trigger] all[k]).app@ && statuses[i].namespace@ == all[k].namespace@ by {
            if k < before.len() {
                assert(all[k] == before[k]);
                let i = choose|i: int|
                    0 <= i < rest.len() && (#[trigger] rest[i]).app_name@ == before[k].app@
                        && rest[i].namespace@ == before[k].namespace@;
                assert(statuses[i] == rest[i]);
            } else {
                assert(statuses[statuses.len() - 1].app_name@ == all[k].app@);
            }
        }
    }
}

/// The dashboard has one row for each application that has an instance, with as
/// many as it has and its state, and none for any other.
pub proof fn each_application_has_one_row(
    statuses: &Vec<InstanceStatus>,
    r: Vec<DashboardApp>,
    i: int,
    k: int,
)
    requires
        call_ensures(statuses_to_dashboard_apps, (statuses,), r),
    ensures
        0 <= i < statuses@.len() ==> exists|m: int|
            0 <= m < r@.len() && (#[trigger] r@[m]).name@ == statuses@[i].app_name@
                && r@[m].namespace@ == statuses@[i].namespace@,
        forall|m: int, n: int|
            0 <= m < n < r@.len() ==> !((#[trigger] r@[m]).name@ == (#[trigger] r@[n]).name@
                && r@[m].namespace@ == r@[n].namespace@),
        0 <= k < r@.len() ==> {
            let own = statuses@.filter(
                |s: InstanceStatus|
                    s.app_name@ == r@[k].name@ && s.namespace@ == r@[k].namespace@,
            );
            &&& r@[k].instances_running == own.len() && r@[k].instances_desired == own.len()
            &&& r@[k].state@ == worst_state(own)
            &&& exists|j: int|
                0 <= j < statuses@.len() && (#[trigger] statuses@[j]).app_name@ == r@[k].name@
                    && statuses@[j].namespace@ == r@[k].namespace@
        },
{
    let keys = apps_of(statuses@);
    let rows = crate::api::dashboard::shown_rows(r@);
    let wanted = crate::api::dashboard::app_rows(statuses@);
    assert(rows == wanted);
    assert(rows.len() == r@.len() && wanted.len() == keys.len());
    crate::api::dashboard::every_app_has_one_row(statuses@);
    apps_are_named(statuses@);
    assert forall|m: int| 0 <= m < r@.len() implies (#[trigger] r@[m])@
        == crate::api::dashboard::row_of(statuses@, keys[m]) by {
        assert(rows[m] == wanted[m]);
    }
    if 0 <= i < statuses@.len() {
        let m = choose|m: int|
            0 <= m < keys.len() && crate::api::dashboard::names(keys[m], statuses@[i]);
        assert(r@[m]@ == crate::api::dashboard::row_of(statuses@, keys[m]));
        assert(r@[m].name@ == statuses@[i].app_name@);
    }
    assert forall|m: int, n: int| 0 <= m < n < r@.len() implies !((#[trigger] r@[m]).name@ == (
    #[trigger] r@[n]).name@ && r@[m].namespace@ == r@[n].namespace@) by {
        assert(r@[m]@ == crate::api::dashboard::row_of(statuses@, keys[m]));
        assert(r@[n]@ == crate::api::dashboard::row_of(statuses@, keys[n]));
        assert(!crate::api::dashboard::same_app(keys[m], keys[n]));
    }
    if 0 <= k < r@.len() {
        assert(r@[k]@ == crate::api::dashboard::row_of(statuses@, keys[k]));
        let a = |s: InstanceStatus|
            crate::instances::belongs(s, keys[k].app@, keys[k].namespace@);
        let b = |s: InstanceStatus|
            s.app_name@ == r@[k].name@ && s.namespace@ == r@[k].namespace@;
        assert(r@[k].name@ == keys[k].app@ && r@[k].namespace@ == keys[k].namespace@);
        assert(a =~= b);
        assert(keys[k] == apps_of(statuses@)[k]);
    }
}

/// The dashboard shows each member as alive, with what is placed on it, and counts
/// this node where it knows of none.
pub proof fn each_member_is_shown(
    members: Option<&Vec<NodeMembershipInfo>>,
    apps: &Vec<ScheduledApp>,
    r: Vec<DashboardNode>,
    count: usize,
)
    requires
        call_ensures(gather_dashboard_nodes, (members, apps), r),
        call_ensures(dashboard_node_count, (&r,), count),
    ensures
        members is None ==> r@.len() == 0,
        members matches Some(list) ==> r@.len() == list@.len() && forall|i: int|
            0 <= i < r@.len() ==> (#[trigger] r@[i]).name == list@[i].node_id && r@[i].state@
                == "alive"@ && r@[i].app_count == all_placed_on(apps@, list@[i].node_id@),
        r@.len() > 0 ==> count == r@.len(),
        r@.len() == 0 ==> count == 1,
{
    if members is Some {
        assert forall|i: int| 0 <= i < r@.len() implies (#[trigger] r@[i]).name
            == members->0@[i].node_id && r@[i].state@ == "alive"@ && r@[i].app_count
            == all_placed_on(apps@, members->0@[i].node_id@) by {
            assert(crate::api::dashboard::shows_member(r@[i], members->0@[i], apps@));
        }
    }
}

/// What is placed on a node is what each application places there.
pub proof fn node_counts_add_up(apps: Seq<ScheduledApp>, app: ScheduledApp, node: Seq<char>)
    ensures
        all_placed_on(Seq::<ScheduledApp>::empty(), node) == 0,
        all_placed_on(apps.push(app), node) == all_placed_on(apps, node) + placed_on(
            app.nodes@,
            node,
        ),
{
    assert(apps.push(app).drop_last() =~= apps);
}

/// The page of a node is alive where it is this node or a member, and shows its
/// instances where it is this node.
pub proof fn node_pages_are_alive_for_members(
    name: &str,
    own: Option<&String>,
    members: Option<&Vec<NodeMembershipInfo>>,
    r: NodePage,
)
    requires
        call_ensures(node_page, (name, own, members), r),
    ensures
        r.shows_instances <==> (own matches Some(of) && of@ == name@),
        ({
            let alive = (own matches Some(of) && of@ == name@) || (members matches Some(list)
                && exists|i: int|
                0 <= i < list@.len() && (#[trigger] list@[i]).node_id@ == name@);
            &&& alive ==> r.state@ == "alive"@
            &&& !alive ==> r.state@ == "unknown"@
        }),
{
}

/// Charts show CPU and memory over the last hour, and refresh every ten seconds.
pub proof fn charts_show_the_last_hour(
    app: &str,
    namespace: &str,
    r: Vec<ChartConfig>,
    node: Vec<ChartConfig>,
)
    requires
        call_ensures(app_charts, (app, namespace), r),
        call_ensures(node_charts, (), node),
    ensures
        r@.len() == 2 && node@.len() == 2,
        forall|i: int|
            0 <= i < 2 ==> (#[trigger] r@[i]).refresh_secs == 10 && r@[i].range_secs == 3600,
        forall|i: int|
            0 <= i < 2 ==> (#[trigger] node@[i]).refresh_secs == 10 && node@[i].range_secs == 3600,
        r@[0].endpoint@ == "/v1/metrics/app/"@ + app@ + "/"@ + namespace@
            + "?name=process_cpu_percent"@ && r@[0].title@ == "CPU Usage"@ && r@[0].y_label@ == "%"@,
        r@[1].endpoint@ == "/v1/metrics/app/"@ + app@ + "/"@ + namespace@
            + "?name=process_memory_bytes"@ && r@[1].title@ == "Memory Usage"@ && r@[1].y_label@
            == "bytes"@,
        node@[0].endpoint@ == "/v1/metrics?name=node_cpu_usage_percent"@ && node@[0].title@
            == "CPU Usage"@ && node@[0].y_label@ == "%"@,
        node@[1].endpoint@ == "/v1/metrics?name=node_memory_used_bytes"@ && node@[1].title@
            == "Memory Usage"@ && node@[1].y_label@ == "bytes"@,
{
}

/// An answer is passed on up to sixty-four kibibytes.
pub proof fn answers_are_passed_on_up_to_a_limit(
    kept: usize,
    chunk: usize,
    more: bool,
    announced: Option<u64>,
    fits: bool,
)
    requires
        call_ensures(chunk_fits, (kept, chunk), more),
        call_ensures(announced_length_fits, (announced,), fits),
    ensures
        more <==> kept + chunk <= 65_536,
        fits <==> (announced matches Some(length) ==> length <= 65_536),
{
}

/// An answer of a peer is passed on in its status; what timed out is a timeout of
/// the gateway, and what failed or is too long a bad one.
pub proof fn peers_answers_are_passed_on(
    node: &str,
    operation: &str,
    forwarded: Forwarded,
    r: Result<u16, Refusal>,
    lease: Result<u16, Refusal>,
)
    requires
        call_ensures(send_node_request, (node, operation, forwarded), r),
        call_ensures(forward_test_lease_request, (forwarded,), lease),
    ensures
        r is Ok <==> forwarded is Answered,
        lease is Ok <==> forwarded is Answered,
        forwarded matches Forwarded::Answered(code) ==> {
            let passed: u16 = if 100 <= code <= 999 {
                code
            } else {
                502
            };
            r == Ok::<u16, Refusal>(passed) && lease == Ok::<u16, Refusal>(passed)
        },
        r matches Err(e) ==> if forwarded is SendTimedOut || forwarded is ReadTimedOut {
            e.status is GatewayTimeout
        } else {
            e.status is BadGateway
        },
        lease matches Err(e) ==> if forwarded is SendTimedOut || forwarded is ReadTimedOut {
            e.status is GatewayTimeout
        } else {
            e.status is BadGateway
        },
        forwarded matches Forwarded::SendFailed(error) ==> (r matches Err(e) && e.error@
            == "failed to forward node "@ + operation@ + " to "@ + node@ + ": "@ + error@),
        forwarded matches Forwarded::ReadFailed(error) ==> (r matches Err(e) && e.error@
            == "failed to read node "@ + operation@ + " response from "@ + node@ + ": "@ + error@),
{
}

/// What is passed on to the leader or a builder is answered as it was there, but a
/// deployment that was taken always as a success; what was not sent is a bad
/// gateway.
pub proof fn passed_on_requests_are_answered_as_there(
    sent: Result<u16, String>,
    apply: Result<u16, Refusal>,
    stop: Result<u16, Refusal>,
    batch: Result<u16, Refusal>,
    build: Result<u16, Refusal>,
)
    requires
        call_ensures(forward_apply, (sent,), apply),
        call_ensures(forward_stop, (sent,), stop),
        call_ensures(forward_batch, (sent,), batch),
        call_ensures(forward_build_status, (sent,), build),
    ensures
        sent matches Ok(code) ==> {
            let passed: u16 = if 100 <= code <= 999 {
                code
            } else {
                502
            };
            apply == Ok::<u16, Refusal>(200) && stop == Ok::<u16, Refusal>(passed) && batch == Ok::<
                u16,
                Refusal,
            >(passed) && build == Ok::<u16, Refusal>(passed)
        },
        sent matches Err(error) ==> (apply matches Err(e) && e.status is BadGateway && e.error@
            == "failed to forward apply to the leader: "@ + error@) && (stop matches Err(e)
            && e.status is BadGateway && e.error@ == "failed to forward stop to the leader: "@
            + error@) && (batch matches Err(e) && e.status is BadGateway && e.error@
            == "leader forward failed: "@ + error@) && (build matches Err(e)
            && e.status is BadGateway && e.error@ == "builder unreachable: "@ + error@),
{
}

/// The namespace is the default where none is asked for.
pub proof fn namespaces_default(namespace: Option<String>, r: String)
    requires
        call_ensures(query_namespace, (namespace,), r),
    ensures
        namespace matches Some(name) ==> r@ == name@,
        namespace is None ==> r@ == "default"@,
{
}

proof fn deploys_are_all(
    history: Seq<DeployRecord>,
    app: Seq<char>,
    namespace: Seq<char>,
)
    requires
        history.len() <= usize::MAX,
    ensures
        forall|k: int|
            0 <= k < deploys_of(history, app, namespace).len() ==> (#[trigger] deploys_of(
                history,
                app,
                namespace,
            )[k]) < history.len() && history[deploys_of(history, app, namespace)[k] as int].app@
                == app && history[deploys_of(history, app, namespace)[k] as int].namespace@
                == namespace,
        forall|j: int, k: int|
            0 <= j < k < deploys_of(history, app, namespace).len() ==> (#[trigger] deploys_of(
                history,
                app,
                namespace,
            )[j]) < (#[trigger] deploys_of(history, app, namespace)[k]),
    decreases history.len(),
{
    if history.len() > 0 {
        let rest = history.drop_last();
        let end = history.len() - 1;
        deploys_are_all(rest, app, namespace);
        assert forall|i: int| 0 <= i < rest.len() implies #[trigger] history[i] == rest[i] by {}
        let before = deploys_of(rest, app, namespace);
        let all = deploys_of(history, app, namespace);
        assert forall|k: int| 0 <= k < all.len() implies (#[trigger] all[k]) < history.len()
            && history[all[k] as int].app@ == app && history[all[k] as int].namespace@
            == namespace by {
            if k < before.len() {
                assert(all[k] == before[k]);
            } else {
                assert(all[k] == end as usize);
            }
        }
        assert forall|j: int, k: int| 0 <= j < k < all.len() implies (#[trigger] all[j]) < (
        #[trigger] all[k]) by {
            assert(all[j] == before[j]);
            if k < before.len() {
                assert(all[k] == before[k]);
            } else {
                assert(all[k] == end as usize);
            }
        }
    }
}

proof fn named_deploys_are_in_order(history: Seq<DeployRecord>, app: Seq<char>)
    requires
        history.len() <= usize::MAX,
    ensures
        forall|k: int|
            0 <= k < deploys_named(history, app).len() ==> (#[trigger] deploys_named(
                history,
                app,
            )[k]) < history.len() && history[deploys_named(history, app)[k] as int].app@ == app,
        forall|j: int, k: int|
            0 <= j < k < deploys_named(history, app).len() ==> (#[trigger] deploys_named(
                history,
                app,
            )[j]) < (#[trigger] deploys_named(history, app)[k]),
    decreases history.len(),
{
    if history.len() > 0 {
        let rest = history.drop_last();
        let end = history.len() - 1;
        named_deploys_are_in_order(rest, app);
        assert forall|i: int| 0 <= i < rest.len() implies #[trigger] history[i] == rest[i] by {}
        let before = deploys_named(rest, app);
        let all = deploys_named(history, app);
        assert forall|k: int| 0 <= k < all.len() implies (#[trigger] all[k]) < history.len()
            && history[all[k] as int].app@ == app by {
            if k < before.len() {
                assert(all[k] == before[k]);
            } else {
                assert(all[k] == end as usize);
            }
        }
        assert forall|j: int, k: int| 0 <= j < k < all.len() implies (#[trigger] all[j]) < (
        #[trigger] all[k]) by {
            assert(all[j] == before[j]);
            if k < before.len() {
                assert(all[k] == before[k]);
            } else {
                assert(all[k] == end as usize);
            }
        }
    }
}

proof fn named_deploys_are_all(history: Seq<DeployRecord>, app: Seq<char>, at: usize)
    requires
        history.len() <= usize::MAX,
        at < history.len(),
        history[at as int].app@ == app,
    ensures
        deploys_named(history, app).contains(at),
    decreases history.len(),
{
    let rest = history.drop_last();
    let end = history.len() - 1;
    let before = deploys_named(rest, app);
    let all = deploys_named(history, app);
    if at < end {
        assert(rest[at as int] == history[at as int]);
        named_deploys_are_all(rest, app, at);
        let k = choose|k: int| 0 <= k < before.len() && before[k] == at;
        assert(all[k] == at);
    } else {
        assert(all[before.len() as int] == at);
    }
}

/// The history of an application is all its deployments in its namespace, in their
/// order; its page has those of every namespace.
pub proof fn histories_are_all_deployments_in_order(
    history: &Vec<DeployRecord>,
    app: &str,
    namespace: &str,
    r: Vec<usize>,
    page: Vec<usize>,
    at: usize,
)
    requires
        history@.len() <= usize::MAX,
        call_ensures(deploy_history, (history, app, namespace), r),
        call_ensures(page_history, (history, app), page),
    ensures
        r@.contains(at) <==> at < history@.len() && history@[at as int].app@ == app@
            && history@[at as int].namespace@ == namespace@,
        page@.contains(at) <==> at < history@.len() && history@[at as int].app@ == app@,
        forall|j: int, k: int|
            0 <= j < k < r@.len() ==> (#[trigger] r@[j]) < (#[trigger] r@[k]),
        forall|j: int, k: int|
            0 <= j < k < page@.len() ==> (#[trigger] page@[j]) < (#[trigger] page@[k]),
{
    deploys_are_all(history@, app@, namespace@);
    named_deploys_are_in_order(history@, app@);
    crate::api::history::history_keeps_namespaces_apart(history@, app@, namespace@, at);
    if at < history@.len() && history@[at as int].app@ == app@ {
        named_deploys_are_all(history@, app@, at);
    }
}

/// Whether a deployment succeeded and can be repeated.
pub open spec fn is_repeatable(
    record: DeployRecord,
    app: Seq<char>,
    namespace: Seq<char>,
) -> bool {
    record.app@ == app && record.namespace@ == namespace && record.completed && record.has_spec
}

proof fn newest(history: Seq<DeployRecord>, end: int, app: Seq<char>, namespace: Seq<char>)
    requires
        0 <= end <= history.len(),
    ensures
        match newest_before(history, end, app, namespace) {
            Some(at) => 0 <= at < end && is_repeatable(history[at], app, namespace) && forall|
                i: int,
            |
                at < i < end ==> !is_repeatable(#[trigger] history[i], app, namespace),
            None => forall|i: int|
                0 <= i < end ==> !is_repeatable(#[trigger] history[i], app, namespace),
        },
    decreases end,
{
    if end > 0 && !is_repeatable(history[end - 1], app, namespace) {
        newest(history, end - 1, app, namespace);
    }
}

/// A rollback goes to the last deployment but one that succeeded and can be
/// repeated; without two there is none.
pub proof fn rollbacks_go_to_the_last_but_one(
    history: Option<&Vec<DeployRecord>>,
    app: &str,
    namespace: &str,
    r: Result<usize, Refusal>,
)
    requires
        call_ensures(rollback_target, (history, app, namespace), r),
    ensures
        history is None ==> (r matches Err(e) && e.status is ServiceUnavailable),
        history matches Some(all) ==> {
            &&& r is Ok <==> exists|i: int, j: int|
                0 <= i < j < all@.len() && is_repeatable(
                    #[trigger] all@[i],
                    app@,
                    namespace@,
                ) && is_repeatable(#[trigger] all@[j], app@, namespace@)
            &&& r matches Err(e) ==> e.status is NotFound
            &&& r matches Ok(at) ==> at < all@.len() && is_repeatable(
                all@[at as int],
                app@,
                namespace@,
            ) && exists|j: int|
                at < j < all@.len() && is_repeatable(#[trigger] all@[j], app@, namespace@)
                    && forall|k: int|
                    at < k < all@.len() && k != j ==> !is_repeatable(
                        #[trigger] all@[k],
                        app@,
                        namespace@,
                    )
        },
{
    if history is Some {
        let all = history->0@;
        let end = all.len() as int;
        newest(all, end, app@, namespace@);
        if newest_before(all, end, app@, namespace@) is Some {
            let j = newest_before(all, end, app@, namespace@)->0;
            newest(all, j, app@, namespace@);
            if newest_before(all, j, app@, namespace@) is Some {
                let i = newest_before(all, j, app@, namespace@)->0;
                assert(is_repeatable(all[i], app@, namespace@) && is_repeatable(
                    all[j],
                    app@,
                    namespace@,
                ));
            } else if exists|a: int, b: int|
                0 <= a < b < all.len() && is_repeatable(#[trigger] all[a], app@, namespace@)
                    && is_repeatable(#[trigger] all[b], app@, namespace@) {
                let (a, b) = choose|a: int, b: int|
                    0 <= a < b < all.len() && is_repeatable(#[trigger] all[a], app@, namespace@)
                        && is_repeatable(#[trigger] all[b], app@, namespace@);
                assert(b <= j);
                assert(!is_repeatable(all[a], app@, namespace@));
            }
        }
    }
}

/// A snapshot of deployments is passed on; without one the agent is unavailable, or
/// has timed out.
pub proof fn deploy_snapshots_are_passed_on<T>(query: DeployQuery<T>, r: Result<T, Refusal>)
    requires
        call_ensures(deploy_operation_snapshot, (query,), r),
    ensures
        query matches DeployQuery::Done(snapshot) ==> r == Ok::<T, Refusal>(snapshot),
        query is Unavailable ==> (r matches Err(e) && e.status is ServiceUnavailable),
        query is TimedOut ==> (r matches Err(e) && e.status is GatewayTimeout),
{
}

/// Whether a node is asked at the address of the first member of its name.
pub open spec fn is_asked_at(
    asked: Asked,
    node: Seq<char>,
    members: Seq<NodeMembershipInfo>,
    http: ClusterHttp,
) -> bool {
    asked.node_id == node && exists|m: int|
        0 <= m < members.len() && (#[trigger] members[m]).node_id@ == node && asked.url == (
        if http.tls {
            "https://"@
        } else {
            "http://"@
        }) + members[m].address@ && forall|j: int|
            0 <= j < m ==> (#[trigger] members[j]).node_id@ != node
}

/// Whether a name is that of a member.
pub open spec fn is_known(members: Seq<NodeMembershipInfo>, node: Seq<char>) -> bool {
    exists|m: int| 0 <= m < members.len() && (#[trigger] members[m]).node_id@ == node
}

/// The nodes that are asked of one node more are those before, and it where it is a
/// member; where it is not, it is named as lost.
pub proof fn nodes_are_asked_where_known(
    nodes: Seq<Seq<char>>,
    node: Seq<char>,
    members: Seq<NodeMembershipInfo>,
    http: ClusterHttp,
)
    ensures
        reachable(Seq::<Seq<char>>::empty(), members, http) == (
            Seq::<Asked>::empty(),
            Seq::<Seq<char>>::empty(),
        ),
        ({
            let (known, lost) = reachable(nodes, members, http);
            let (more, gone) = reachable(nodes.push(node), members, http);
            &&& is_known(members, node) ==> gone == lost && more.len() == known.len() + 1
                && more.drop_last() == known && is_asked_at(
                more[more.len() - 1],
                node,
                members,
                http,
            )
            &&& !is_known(members, node) ==> more == known && gone == lost.push(node)
        }),
{
    members_are_found_by_name(members, node);
    assert(nodes.push(node).drop_last() =~= nodes);
    let (known, lost) = reachable(nodes, members, http);
    let (more, gone) = reachable(nodes.push(node), members, http);
    if member_position(members, node) is Some {
        let at = member_position(members, node)->0;
        assert(members[at].node_id@ == node);
        reveal_strlit("");
        let scheme = if http.tls {
            "https://"@
        } else {
            "http://"@
        };
        assert(scheme + members[at].address@ + ""@ =~= scheme + members[at].address@);
        assert(more.drop_last() =~= known);
    }
}

/// Logs are asked for here without placements or membership, nowhere where nothing
/// is placed, and else of every node that is known.
pub proof fn logs_are_asked_for_where_they_are(
    placed: Option<&Vec<String>>,
    members: Option<&Vec<NodeMembershipInfo>>,
    http: &ClusterHttp,
    r: LogRoute,
)
    requires
        call_ensures(log_route, (placed, members, http), r),
    ensures
        r is Local <==> placed is None || members is None,
        r is Nowhere <==> (placed matches Some(nodes) && nodes@.len() == 0) && members is Some,
        r matches LogRoute::FanOut { nodes, lost } ==> asked(nodes@) == reachable(
            strings(placed->0@),
            members->0@,
            *http,
        ).0 && strings(lost@) == reachable(strings(placed->0@), members->0@, *http).1,
{
}

/// Nodes are resolved as they can be reached.
pub proof fn nodes_are_resolved_as_reachable(
    nodes: &Vec<String>,
    members: &Vec<NodeMembershipInfo>,
    http: &ClusterHttp,
    r: (Vec<NodeUrl>, Vec<String>),
)
    requires
        call_ensures(resolve_nodes, (nodes, members, http), r),
    ensures
        r.0@.len() + r.1@.len() == nodes@.len(),
        asked(r.0@) == reachable(strings(nodes@), members@, *http).0,
        strings(r.1@) == reachable(strings(nodes@), members@, *http).1,
{
    crate::api::logs::every_node_is_asked_or_named(strings(nodes@), members@, *http);
    assert(asked(r.0@).len() == r.0@.len());
    assert(strings(r.1@).len() == r.1@.len());
    assert(strings(nodes@).len() == nodes@.len());
}

/// The tail of a list is its last entries, as many as are wanted.
pub proof fn tails_are_the_last_entries<T>(entries: Vec<T>, tail: Option<usize>, r: Vec<T>)
    requires
        call_ensures(keep_tail, (entries, tail), r),
    ensures
        tail is None ==> r@ == entries@,
        tail matches Some(n) ==> (entries@.len() <= n ==> r@ == entries@) && (entries@.len() > n
            ==> r@.len() == n && forall|i: int|
            0 <= i < n ==> #[trigger] r@[i] == entries@[entries@.len() - n + i]),
{
}

/// An answer of logs counts the nodes asked and lost, and names those that did not
/// answer.
pub proof fn log_answers_name_the_silent<T>(
    entries: Vec<T>,
    asked_nodes: usize,
    lost: Vec<String>,
    failed: Vec<String>,
    tail: Option<usize>,
    r: LogAnswer<T>,
    kept: Vec<T>,
)
    requires
        call_ensures(assemble_logs, (entries, asked_nodes, lost, failed, tail), r),
        call_ensures(keep_tail, (entries, tail), kept),
    ensures
        r.entries@ == kept@,
        r.node_count == asked_nodes + lost@.len(),
        r.unresponsive@ == lost@ + failed@,
{
}

/// A raw query of logs is for those without a scope, where logs are kept and a
/// statement is given.
pub proof fn raw_queries_are_for_those_without_a_scope(
    auth: Option<&AuthContext>,
    enabled: bool,
    query: Option<String>,
    r: Result<RawQuery, Refusal>,
    required: Result<String, Refusal>,
    rejected: bool,
    status: Status,
)
    requires
        call_ensures(raw_query, (auth, enabled, query), r),
        call_ensures(require_sql, (query,), required),
        call_ensures(log_sql_status, (rejected,), status),
    ensures
        !has_no_scope(auth) ==> (r matches Err(e) && e.status is Forbidden),
        has_no_scope(auth) && !enabled ==> (r matches Ok(RawQuery::Disabled(_))),
        has_no_scope(auth) && enabled ==> match query {
            Some(sql) => r == Ok::<RawQuery, Refusal>(RawQuery::Run(sql)),
            None => r matches Err(e) && e.status is BadRequest,
        },
        required is Ok <==> query is Some,
        required matches Ok(sql) ==> query == Some(sql),
        rejected ==> status is BadRequest,
        !rejected ==> status is InternalServerError,
{
    credentials(auth, ApiRole::ReadOnly, Seq::empty(), Seq::empty());
}

/// A window is what was asked for, from the beginning to the last instant.
pub proof fn windows_are_what_was_asked_for(start: Option<u64>, end: Option<u64>, r: Window)
    requires
        call_ensures(query_window, (start, end), r),
    ensures
        start matches Some(from) ==> r.start == from,
        start is None ==> r.start == 0,
        end is None ==> r.end == 9_223_372_036_854_775_807,
        end matches Some(to) ==> (to <= 9_223_372_036_854_775_807 ==> r.end == to) && (to
            > 9_223_372_036_854_775_807 ==> r.end == 9_223_372_036_854_775_807),
{
}

/// A text is escaped character by character, each quote by another.
pub proof fn quotes_are_doubled(s: &str, r: String, more: &str, c: char, longer: String, q: String)
    requires
        call_ensures(escape_sql_literal, (s,), r),
        call_ensures(escape_sql_literal, (more,), longer),
        call_ensures(sql_literal, (s,), q),
        more@ == s@.push(c),
    ensures
        s@.len() == 0 ==> r@.len() == 0,
        c == '\'' ==> longer@ == r@ + seq!['\'', '\''],
        c != '\'' ==> longer@ == r@.push(c),
        q@ == seq!['\''] + r@ + seq!['\''],
{
    assert(more@.drop_last() =~= s@);
    assert(r@ + seq!['\'', '\''] =~= r@.push('\'').push('\''));
}

/// Samples are read by name, application and window, in the order of time.
pub proof fn samples_are_read_by_name_app_and_window(
    name: Option<&str>,
    app: Option<&str>,
    window: &Window,
    r: String,
)
    requires
        call_ensures(samples_sql, (name, app, window), r),
    ensures
        r@ == "SELECT timestamp, metric_name, labels, value FROM metrics WHERE "@ + ((match name {
            Some(n) => "metric_name = "@ + (seq!['\''] + escaped(n@) + seq!['\'']) + " AND "@,
            None => ""@,
        }) + (match app {
            Some(a) => "labels LIKE "@ + (seq!['\''] + escaped("%\""@ + a@ + "\"%"@) + seq!['\''])
                + " AND "@,
            None => ""@,
        })) + ("timestamp >= "@ + decimal_text(window.start as nat) + " AND timestamp <= "@
            + decimal_text(window.end as nat)) + " ORDER BY timestamp LIMIT 10000"@,
{
}

/// A metric is read by its name alone where only that is asked for; any other
/// reading is a statement, and a star is any name.
pub proof fn metrics_are_read_by_name_where_that_suffices(
    name: Option<&str>,
    app: Option<&str>,
    window: &Window,
    r: MetricsRead,
    any: String,
    all: String,
)
    requires
        call_ensures(metrics_read, (name, app, window), r),
        call_ensures(samples_sql, (None::<&str>, app, window), any),
        call_ensures(samples_sql, (name, app, window), all),
    ensures
        ({
            let starred = name matches Some(n) && n@ == "*"@;
            &&& r is Named <==> name is Some && !starred && app is None
            &&& r matches MetricsRead::Named(named, during) ==> named@ == name->0@ && during
                == *window
            &&& r matches MetricsRead::Statement(sql) ==> if starred || name is None {
                sql@ == any@
            } else {
                sql@ == all@
            }
        }),
{
}

/// The samples of an application are those of its label, its namespace before its
/// name.
pub proof fn applications_are_labelled_by_namespace_and_name(
    app: &str,
    namespace: &str,
    name: Option<&str>,
    window: &Window,
    label: String,
    r: String,
    of: &str,
    samples: String,
)
    requires
        call_ensures(app_label, (app, namespace), label),
        call_ensures(app_samples_sql, (app, namespace, name, window), r),
        of@ == label@,
        call_ensures(samples_sql, (name, Some(of), window), samples),
    ensures
        label@ == namespace@ + "/"@ + app@,
        r@ == samples@,
{
}

/// Rollups are read by name, or summed by time, name and labels.
pub proof fn rollups_are_read_by_name_or_summed(
    name: Option<&str>,
    window: &Window,
    r: MetricsRead,
)
    requires
        call_ensures(rollup_read, (name, window), r),
    ensures
        r is Named <==> name is Some,
        r matches MetricsRead::Named(named, during) ==> named@ == name->0@ && during == *window,
        r matches MetricsRead::Statement(sql) ==> sql@
            == "SELECT timestamp, metric_name, labels, SUM(sum_val) as total_sum FROM rollups WHERE "@
            + ("timestamp >= "@ + decimal_text(window.start as nat) + " AND timestamp <= "@
            + decimal_text(window.end as nat))
            + " GROUP BY timestamp, metric_name, labels ORDER BY timestamp LIMIT 10000"@,
{
}

/// The council is asked at the address of every member that votes, and of nobody
/// else; without voters among the members it is not asked.
pub proof fn voters_are_asked_at_their_address(
    voters: Option<&Vec<u64>>,
    members: Option<&Vec<NodeMembershipInfo>>,
    http: &ClusterHttp,
    r: Option<Vec<String>>,
    url: Seq<char>,
)
    requires
        call_ensures(resolve_council_urls, (voters, members, http), r),
    ensures
        r is Some <==> (voters matches Some(ids) && members matches Some(list) && exists|i: int|
            0 <= i < list@.len() && ids@.contains((#[trigger] list@[i]).raft_id)),
        r matches Some(urls) ==> (strings(urls@).contains(url) <==> exists|i: int|
            0 <= i < members->0@.len() && voters->0@.contains((#[trigger] members->0@[i]).raft_id)
                && url == (if http.tls {
                "https://"@
            } else {
                "http://"@
            }) + members->0@[i].address@),
{
    if voters is Some && members is Some {
        let list = members->0@;
        let ids = voters->0@;
        let scheme = if http.tls {
            "https://"@
        } else {
            "http://"@
        };
        reveal_strlit("");
        assert forall|i: int| 0 <= i < list.len() implies http.url_text(
            (#[trigger] list[i]).address@,
            ""@,
        ) == scheme + list[i].address@ by {
            assert(scheme + list[i].address@ + ""@ =~= scheme + list[i].address@);
        }
        let urls = voter_urls(list, ids, *http);
        every_live_voter_is_asked(list, ids, *http, url);
        if urls.len() > 0 {
            every_live_voter_is_asked(list, ids, *http, urls[0]);
            assert(urls.contains(urls[0]));
        }
        if exists|i: int| 0 <= i < list.len() && ids.contains((#[trigger] list[i]).raft_id) {
            let i = choose|i: int|
                0 <= i < list.len() && ids.contains((#[trigger] list[i]).raft_id);
            every_live_voter_is_asked(list, ids, *http, http.url_text(list[i].address@, ""@));
        }
    }
}

/// The metrics of an application are asked of the nodes it is placed on that are
/// known.
pub proof fn application_metrics_are_asked_of_its_nodes(
    placed: Option<&Vec<String>>,
    members: Option<&Vec<NodeMembershipInfo>>,
    http: &ClusterHttp,
    r: Vec<NodeUrl>,
)
    requires
        call_ensures(app_metrics_nodes, (placed, members, http), r),
    ensures
        placed is None || members is None ==> r@.len() == 0,
        placed is Some && members is Some ==> asked(r@) == reachable(
            strings(placed->0@),
            members->0@,
            *http,
        ).0,
{
    assert(asked(r@).len() == r@.len());
}

/// Metrics are for those without a scope: here where they are kept, and of the
/// council where that can be asked.
pub proof fn metrics_are_for_those_without_a_scope(
    auth: Option<&AuthContext>,
    enabled: bool,
    name: Option<&str>,
    app: Option<&str>,
    window: &Window,
    r: Result<LocalMetrics, Refusal>,
    read: MetricsRead,
    voters: Option<&Vec<u64>>,
    members: Option<&Vec<NodeMembershipInfo>>,
    http: &ClusterHttp,
    cluster: Result<ClusterMetrics, Refusal>,
    urls: Option<Vec<String>>,
)
    requires
        call_ensures(local_metrics, (auth, enabled, name, app, window), r),
        call_ensures(metrics_read, (name, app, window), read),
        call_ensures(cluster_metrics, (auth, voters, members, http, enabled), cluster),
        call_ensures(resolve_council_urls, (voters, members, http), urls),
    ensures
        r is Ok <==> has_no_scope(auth),
        cluster is Ok <==> has_no_scope(auth),
        r matches Ok(local) ==> (local is Read <==> enabled),
        r matches Ok(LocalMetrics::Read(MetricsRead::Named(named, during))) ==> (
        read matches MetricsRead::Named(n, d) && n@ == named@ && d == during),
        r matches Ok(LocalMetrics::Read(MetricsRead::Statement(sql))) ==> (
        read matches MetricsRead::Statement(s) && s@ == sql@),
        cluster matches Ok(how) ==> (how is FanOut <==> urls is Some) && (how is Local
            <==> urls is None && enabled) && (how is Unconfigured <==> urls is None && !enabled),
        cluster matches Ok(ClusterMetrics::FanOut(to)) ==> (urls matches Some(all) && strings(to@)
            == strings(all@)),
{
    credentials(auth, ApiRole::ReadOnly, Seq::empty(), Seq::empty());
}

/// Health, the version, the keys, static files, joining and webhooks are public;
/// sessions are for logging in; all else needs a token.
pub proof fn routes_need_a_token_unless_public(path: &str, r: Access)
    requires
        call_ensures(route_access, (path,), r),
    ensures
        path@ == "/v1/health"@ || path@ == "/v1/version"@ || path@ == "/v1/identity/jwks"@ || path@
            == "/ui/static/{*path}"@ || path@ == "/v1/cluster/join"@ || path@ == "/v1/cluster/ca"@
            || path@ == "/v1/gitops/webhook"@ <==> r is Public,
        r is Login ==> path@ == "/ui/login"@ || path@ == "/ui/session"@ || path@ == "/ui/logout"@,
        path@ == "/ui/login"@ || path@ == "/ui/session"@ || path@ == "/ui/logout"@ ==> r is Login
            || r is Public,
{
}

/// The header of a delivery is taken where it can be read: the first host's where
/// it is there at all; the branch is the main one where none is named.
pub proof fn deliveries_are_known_by_their_headers(
    header: Header,
    text: Option<String>,
    github: Header,
    gitlab: Header,
    id: Option<String>,
    branch: Header,
    r: String,
)
    requires
        call_ensures(take_text, (header,), text),
        call_ensures(header_delivery_id, (github, gitlab), id),
        call_ensures(header_branch, (branch,), r),
    ensures
        header matches Header::Text(t) ==> text == Some(t),
        !(header is Text) ==> text is None,
        github matches Header::Text(t) ==> id == Some(t),
        github is Unreadable ==> id is None,
        github is Missing ==> match gitlab {
            Header::Text(t) => id == Some(t),
            _ => id is None,
        },
        branch matches Header::Text(t) ==> r@ == t@,
        !(branch is Text) ==> r@ == "main"@,
{
}

/// A delivery is read exactly where somebody listens and there is a secret: by the
/// secret where it is sent, and else by its signature.
pub proof fn deliveries_are_proved_by_secret_or_signature(
    listening: bool,
    secret: bool,
    token: Header,
    signature: Header,
    id: Option<String>,
    branch: String,
    r: Result<Delivery, Refusal>,
)
    requires
        call_ensures(read_delivery, (listening, secret, token, signature, id, branch), r),
    ensures
        r is Ok <==> listening && secret,
        r matches Err(e) ==> e.status is ServiceUnavailable,
        r matches Ok(delivery) ==> delivery.delivery_id == id && delivery.branch == branch
            && match delivery.proof_of_origin {
            Proof::SharedSecret(sent) => token == Header::Text(sent),
            Proof::Signature(signed) => !(token is Text) && match signature {
                Header::Text(t) => signed == Some(t),
                _ => signed is None,
            },
        },
{
}

/// A delivery that passes is accepted; one that does not is unauthorised, or one
/// too many where the words say so.
pub proof fn deliveries_are_accepted_where_they_pass(
    checked: Result<(), String>,
    r: Result<Status, Refusal>,
)
    requires
        call_ensures(answer_delivery, (checked,), r),
    ensures
        checked is Ok ==> (r matches Ok(status) && status is Accepted),
        checked matches Err(words) ==> (r matches Err(e) && e.error@ == words@ && (
        e.status is TooManyRequests <==> exists|a: Seq<char>, b: Seq<char>|
            words@ == #[trigger] (a + "rate limit"@ + b)) && (e.status is TooManyRequests
            || e.status is Unauthorized)),
{
    if checked is Err {
        let w = checked->Err_0@;
        let p = "rate limit"@;
        if crate::text::occurs(p, w) {
            let i = choose|i: int|
                0 <= i <= w.len() - p.len() && #[trigger] w.subrange(i, i + p.len()) == p;
            assert(w =~= w.take(i) + p + w.skip(i + p.len()));
        }
        if exists|a: Seq<char>, b: Seq<char>| w == #[trigger] (a + p + b) {
            let (a, b) = choose|a: Seq<char>, b: Seq<char>| w == #[trigger] (a + p + b);
            let i = a.len() as int;
            assert(w.subrange(i, i + p.len()) =~= p);
        }
    }
}

} // verus!
