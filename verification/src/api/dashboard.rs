//! What the dashboard shows.

use vstd::prelude::*;
use vstd::string::*;

use crate::api::commit::{count_placements, placed_on, placed_on_bounded, ScheduledApp};
use crate::instances::{belongs, belongs_to, instances_of, pick_instances, InstanceStatus};
use crate::membership::{find_member, is_member, NodeMembershipInfo};
use crate::text::same_text;

verus! {

/// An app by its name and namespace.
#[derive(Debug)]
pub struct AppKey {
    /// Name of the app.
    pub app: String,
    /// Namespace of the app.
    pub namespace: String,
}

/// Whether a key names the app of an instance.
pub open spec fn names(key: AppKey, status: InstanceStatus) -> bool {
    belongs(status, key.app@, key.namespace@)
}

/// Whether two keys name the same app.
pub open spec fn same_app(a: AppKey, b: AppKey) -> bool {
    a.app@ == b.app@ && a.namespace@ == b.namespace@
}

/// The apps of some instances, each once, as they first appear.
pub open spec fn apps_of(statuses: Seq<InstanceStatus>) -> Seq<AppKey>
    decreases statuses.len(),
{
    if statuses.len() == 0 {
        Seq::empty()
    } else {
        let before = apps_of(statuses.drop_last());
        let status = statuses.last();
        if exists|k: int| 0 <= k < before.len() && names(#[trigger] before[k], status) {
            before
        } else {
            before.push(AppKey { app: status.app_name, namespace: status.namespace })
        }
    }
}

/// The state that stands for some instances of an app in a list: that of the
/// last which does not run, if there is one.
pub open spec fn worst_state(instances: Seq<InstanceStatus>) -> Seq<char>
    decreases instances.len(),
{
    if instances.len() == 0 {
        "running"@
    } else if instances.last().state@ != "running"@ {
        instances.last().state@
    } else {
        worst_state(instances.drop_last())
    }
}

/// Tell the state that stands for some instances of an app in a list.
pub fn shown_state(instances: &Vec<InstanceStatus>) -> (r: String)
    ensures
        r@ == worst_state(instances@),
{
    let mut i: usize = instances.len();
    proof {
        assert(instances@.take(i as int) =~= instances@);
    }
    while i > 0
        invariant
            i <= instances.len(),
            worst_state(instances@.take(i as int)) == worst_state(instances@),
        decreases i,
    {
        proof {
            assert(instances@.take(i as int).last() == instances@[i as int - 1]);
            assert(instances@.take(i as int).drop_last() =~= instances@.take(i as int - 1));
        }
        i = i - 1;
        if !same_text(instances[i].state.as_str(), "running") {
            return instances[i].state.clone();
        }
    }
    "running".to_owned()
}

/// A row of the dashboard's apps.
#[derive(Debug)]
pub struct DashboardApp {
    /// Name of the app.
    pub name: String,
    /// Namespace of the app.
    pub namespace: String,
    /// Instances that there are.
    pub instances_running: usize,
    /// Instances that there should be, as far as this node knows.
    pub instances_desired: usize,
    /// State of the app.
    pub state: String,
}

/// A row of the dashboard's apps as its facts.
pub ghost struct AppRow {
    /// Name.
    pub name: Seq<char>,
    /// Namespace.
    pub namespace: Seq<char>,
    /// Instances that there are.
    pub running: nat,
    /// Instances that there should be.
    pub desired: nat,
    /// State.
    pub state: Seq<char>,
}

impl View for DashboardApp {
    type V = AppRow;

    open spec fn view(&self) -> AppRow {
        AppRow {
            name: self.name@,
            namespace: self.namespace@,
            running: self.instances_running as nat,
            desired: self.instances_desired as nat,
            state: self.state@,
        }
    }
}

/// The row of an app.
pub open spec fn row_of(statuses: Seq<InstanceStatus>, key: AppKey) -> AppRow {
    let own = instances_of(statuses, key.app@, key.namespace@);
    AppRow {
        name: key.app@,
        namespace: key.namespace@,
        running: own.len(),
        desired: own.len(),
        state: worst_state(own),
    }
}

/// The rows of all apps.
pub open spec fn app_rows(statuses: Seq<InstanceStatus>) -> Seq<AppRow> {
    apps_of(statuses).map_values(|key: AppKey| row_of(statuses, key))
}

/// The facts of each row in a list.
pub open spec fn shown_rows(rows: Seq<DashboardApp>) -> Seq<AppRow> {
    rows.map_values(|row: DashboardApp| row@)
}

fn is_listed(keys: &Vec<AppKey>, status: &InstanceStatus) -> (r: bool)
    ensures
        r == exists|k: int| 0 <= k < keys@.len() && names(#[trigger] keys@[k], *status),
{
    let mut i: usize = 0;
    while i < keys.len()
        invariant
            i <= keys.len(),
            forall|k: int| 0 <= k < i ==> !names(#[trigger] keys@[k], *status),
        decreases keys.len() - i,
    {
        if belongs_to(status, keys[i].app.as_str(), keys[i].namespace.as_str()) {
            proof {
                assert(names(keys@[i as int], *status));
            }
            return true;
        }
        i = i + 1;
    }
    false
}

fn list_apps(statuses: &Vec<InstanceStatus>) -> (r: Vec<AppKey>)
    ensures
        r@ == apps_of(statuses@),
{
    let mut keys: Vec<AppKey> = Vec::new();
    let mut i: usize = 0;
    proof {
        assert(statuses@.take(0) =~= Seq::<InstanceStatus>::empty());
    }
    while i < statuses.len()
        invariant
            i <= statuses.len(),
            keys@ == apps_of(statuses@.take(i as int)),
        decreases statuses.len() - i,
    {
        proof {
            assert(statuses@.take(i as int + 1).drop_last() =~= statuses@.take(i as int));
            assert(statuses@.take(i as int + 1).last() == statuses@[i as int]);
        }
        if !is_listed(&keys, &statuses[i]) {
            keys.push(
                AppKey {
                    app: statuses[i].app_name.clone(),
                    namespace: statuses[i].namespace.clone(),
                },
            );
        }
        i = i + 1;
    }
    proof {
        assert(statuses@.take(statuses@.len() as int) =~= statuses@);
    }
    keys
}

/// Build the rows of the dashboard's apps from the instances on this node: one
/// for each app in each namespace.
pub fn statuses_to_dashboard_apps(statuses: &Vec<InstanceStatus>) -> (r: Vec<DashboardApp>)
    ensures
        shown_rows(r@) == app_rows(statuses@),
{
    let keys = list_apps(statuses);
    let mut rows: Vec<DashboardApp> = Vec::new();
    let mut i: usize = 0;
    while i < keys.len()
        invariant
            i <= keys.len(),
            keys@ == apps_of(statuses@),
            rows@.len() == i,
            forall|k: int|
                0 <= k < i ==> (#[trigger] rows@[k])@ == row_of(statuses@, keys@[k]),
        decreases keys.len() - i,
    {
        let key = &keys[i];
        let own = pick_instances(statuses, key.app.as_str(), key.namespace.as_str());
        let row = DashboardApp {
            name: key.app.clone(),
            namespace: key.namespace.clone(),
            instances_running: own.len(),
            instances_desired: own.len(),
            state: shown_state(&own),
        };
        proof {
            assert(row@ == row_of(statuses@, keys@[i as int]));
        }
        rows.push(row);
        i = i + 1;
    }
    proof {
        assert(shown_rows(rows@) =~= app_rows(statuses@));
    }
    rows
}

/// Every instance is counted in the row of its app, and no app has two rows.
pub proof fn every_app_has_one_row(statuses: Seq<InstanceStatus>)
    ensures
        forall|i: int|
            0 <= i < statuses.len() ==> exists|k: int|
                0 <= k < apps_of(statuses).len() && names(
                    apps_of(statuses)[k],
                    #[trigger] statuses[i],
                ),
        forall|j: int, k: int|
            0 <= j < k < apps_of(statuses).len() ==> !same_app(
                #[trigger] apps_of(statuses)[j],
                #[trigger] apps_of(statuses)[k],
            ),
    decreases statuses.len(),
{
    if statuses.len() > 0 {
        let rest = statuses.drop_last();
        let before = apps_of(rest);
        let all = apps_of(statuses);
        let status = statuses.last();
        every_app_has_one_row(rest);
        assert forall|i: int| 0 <= i < statuses.len() implies exists|k: int|
            0 <= k < all.len() && names(all[k], #[trigger] statuses[i]) by {
            if i < rest.len() {
                assert(rest[i] == statuses[i]);
                let k = choose|k: int| 0 <= k < before.len() && names(before[k], rest[i]);
                assert(all[k] == before[k]);
                assert(names(all[k], statuses[i]));
            } else if exists|k: int| 0 <= k < before.len() && names(#[trigger] before[k], status) {
                let k = choose|k: int| 0 <= k < before.len() && names(#[trigger] before[k], status);
                assert(names(all[k], statuses[i]));
            } else {
                assert(names(all[all.len() - 1], statuses[i]));
            }
        }
        assert forall|j: int, k: int| 0 <= j < k < all.len() implies !same_app(
            #[trigger] all[j],
            #[trigger] all[k],
        ) by {
            assert(all[j] == before[j]);
            if k < before.len() {
                assert(all[k] == before[k]);
            } else {
                assert(!names(before[j], status));
            }
        }
    }
}

/// A row of the dashboard's nodes.
#[derive(Debug)]
pub struct DashboardNode {
    /// Name of the node.
    pub name: String,
    /// State of the node.
    pub state: String,
    /// Replicas placed on it.
    pub app_count: usize,
}

/// How many replicas of all apps are placed on a node.
pub open spec fn all_placed_on(apps: Seq<ScheduledApp>, node: Seq<char>) -> nat
    decreases apps.len(),
{
    if apps.len() == 0 {
        0
    } else {
        all_placed_on(apps.drop_last(), node) + placed_on(apps.last().nodes@, node)
    }
}

/// How many placements there are in all.
pub open spec fn all_placements(apps: Seq<ScheduledApp>) -> nat
    decreases apps.len(),
{
    if apps.len() == 0 {
        0
    } else {
        all_placements(apps.drop_last()) + apps.last().nodes@.len()
    }
}

proof fn placed_within_all(apps: Seq<ScheduledApp>, node: Seq<char>, i: int)
    requires
        0 <= i <= apps.len(),
    ensures
        all_placed_on(apps.take(i), node) <= all_placements(apps.take(i)) <= all_placements(apps),
    decreases apps.len() - i, i,
{
    if i < apps.len() {
        placed_within_all(apps, node, i + 1);
        assert(apps.take(i + 1).drop_last() =~= apps.take(i));
    } else {
        assert(apps.take(i) =~= apps);
    }
    placed_on_within(apps.take(i), node);
}

proof fn placed_on_within(apps: Seq<ScheduledApp>, node: Seq<char>)
    ensures
        all_placed_on(apps, node) <= all_placements(apps),
    decreases apps.len(),
{
    if apps.len() > 0 {
        placed_on_within(apps.drop_last(), node);
        placed_on_bounded(apps.last().nodes@, node);
    }
}

fn count_on_node(apps: &Vec<ScheduledApp>, node: &str) -> (r: usize)
    requires
        all_placements(apps@) <= usize::MAX,
    ensures
        r == all_placed_on(apps@, node@),
{
    let mut count: usize = 0;
    let mut i: usize = 0;
    proof {
        assert(apps@.take(0) =~= Seq::<ScheduledApp>::empty());
    }
    while i < apps.len()
        invariant
            all_placements(apps@) <= usize::MAX,
            i <= apps.len(),
            count == all_placed_on(apps@.take(i as int), node@),
        decreases apps.len() - i,
    {
        proof {
            assert(apps@.take(i as int + 1).drop_last() =~= apps@.take(i as int));
            assert(apps@.take(i as int + 1).last() == apps@[i as int]);
            placed_within_all(apps@, node@, i as int + 1);
        }
        count = count + count_placements(&apps[i].nodes, node);
        i = i + 1;
    }
    proof {
        assert(apps@.take(apps@.len() as int) =~= apps@);
    }
    count
}

/// Whether a row shows a member with the replicas that are placed on it.
pub open spec fn shows_member(
    row: DashboardNode,
    member: NodeMembershipInfo,
    apps: Seq<ScheduledApp>,
) -> bool {
    &&& row.name == member.node_id
    &&& row.state@ == "alive"@
    &&& row.app_count == all_placed_on(apps, member.node_id@)
}

/// Build the rows of the dashboard's nodes: one for each live member, with the
/// replicas that are placed on it. Without a membership there are none.
pub fn gather_dashboard_nodes(
    members: Option<&Vec<NodeMembershipInfo>>,
    apps: &Vec<ScheduledApp>,
) -> (r: Vec<DashboardNode>)
    requires
        all_placements(apps@) <= usize::MAX,
    ensures
        match members {
            None => r@.len() == 0,
            Some(members) => r@.len() == members@.len() && forall|i: int|
                0 <= i < r@.len() ==> shows_member(#[trigger] r@[i], members@[i], apps@),
        },
{
    let mut rows: Vec<DashboardNode> = Vec::new();
    let list = match members {
        None => {
            return rows;
        },
        Some(list) => list,
    };
    let mut i: usize = 0;
    while i < list.len()
        invariant
            all_placements(apps@) <= usize::MAX,
            i <= list.len(),
            rows@.len() == i,
            forall|k: int| 0 <= k < i ==> shows_member(#[trigger] rows@[k], list@[k], apps@),
        decreases list.len() - i,
    {
        rows.push(
            DashboardNode {
                name: list[i].node_id.clone(),
                state: "alive".to_owned(),
                app_count: count_on_node(apps, list[i].node_id.as_str()),
            },
        );
        i = i + 1;
    }
    rows
}

/// How many nodes the dashboard counts: the rows, or this node alone.
pub fn dashboard_node_count(nodes: &Vec<DashboardNode>) -> (r: usize)
    ensures
        r == if nodes@.len() == 0 {
            1
        } else {
            nodes@.len()
        },
{
    if nodes.len() == 0 {
        1
    } else {
        nodes.len()
    }
}

/// The state of an app on its own page: unknown without instances, that of the
/// first which does not run if there is one, else running.
pub open spec fn page_state(instances: Seq<InstanceStatus>) -> Seq<char>
    decreases instances.len(),
{
    if instances.len() == 0 {
        "unknown"@
    } else if instances[0].state@ != "running"@ {
        instances[0].state@
    } else if instances.len() == 1 {
        "running"@
    } else {
        page_state(instances.skip(1))
    }
}

/// Tell the state of an app on its own page.
pub fn app_page_state(instances: &Vec<InstanceStatus>) -> (r: String)
    ensures
        r@ == page_state(instances@),
{
    if instances.len() == 0 {
        return "unknown".to_owned();
    }
    let mut i: usize = 0;
    proof {
        assert(instances@.skip(0) =~= instances@);
    }
    while i < instances.len()
        invariant
            i <= instances.len(),
            instances@.len() > 0,
            i < instances.len() ==> page_state(instances@.skip(i as int)) == page_state(
                instances@,
            ),
            i == instances.len() ==> page_state(instances@) == "running"@,
        decreases instances.len() - i,
    {
        proof {
            assert(instances@.skip(i as int)[0] == instances@[i as int]);
            assert(instances@.skip(i as int).skip(1) =~= instances@.skip(i as int + 1));
        }
        if !same_text(instances[i].state.as_str(), "running") {
            return instances[i].state.clone();
        }
        i = i + 1;
    }
    "running".to_owned()
}

/// An app runs on its page exactly where it has instances and its row shows
/// that all of them run.
pub proof fn page_and_row_agree_on_running(instances: Seq<InstanceStatus>)
    requires
        instances.len() > 0,
    ensures
        page_state(instances) == "running"@ <==> worst_state(instances) == "running"@,
{
    reveal_strlit("running");
    reveal_strlit("unknown");
    all_run(instances);
    all_run_backwards(instances);
}

proof fn all_run(instances: Seq<InstanceStatus>)
    requires
        instances.len() > 0,
    ensures
        page_state(instances) == "running"@ <==> forall|i: int|
            0 <= i < instances.len() ==> (#[trigger] instances[i]).state@ == "running"@,
    decreases instances.len(),
{
    if instances.len() > 1 {
        let rest = instances.skip(1);
        all_run(rest);
        if page_state(instances) == "running"@ {
            assert forall|i: int| 0 <= i < instances.len() implies (
            #[trigger] instances[i]).state@ == "running"@ by {
                if i > 0 {
                    assert(rest[i - 1] == instances[i]);
                }
            }
        }
        if forall|i: int|
            0 <= i < instances.len() ==> (#[trigger] instances[i]).state@ == "running"@ {
            assert(instances[0].state@ == "running"@);
            assert forall|i: int| 0 <= i < rest.len() implies (#[trigger] rest[i]).state@
                == "running"@ by {
                assert(rest[i] == instances[i + 1]);
            }
        }
    } else {
        assert(instances[0].state@ == "running"@ ==> page_state(instances) == "running"@);
    }
}

proof fn all_run_backwards(instances: Seq<InstanceStatus>)
    ensures
        worst_state(instances) == "running"@ <==> forall|i: int|
            0 <= i < instances.len() ==> (#[trigger] instances[i]).state@ == "running"@,
    decreases instances.len(),
{
    if instances.len() > 0 {
        let rest = instances.drop_last();
        all_run_backwards(rest);
        let last = instances.len() - 1;
        assert(instances[last] == instances.last());
        if worst_state(instances) == "running"@ {
            assert forall|i: int| 0 <= i < instances.len() implies (
            #[trigger] instances[i]).state@ == "running"@ by {
                if i < last {
                    assert(rest[i] == instances[i]);
                }
            }
        }
        if forall|i: int|
            0 <= i < instances.len() ==> (#[trigger] instances[i]).state@ == "running"@ {
            assert forall|i: int| 0 <= i < rest.len() implies (#[trigger] rest[i]).state@
                == "running"@ by {
                assert(rest[i] == instances[i]);
            }
        }
    }
}

/// The page of a node.
#[derive(Debug)]
pub struct NodePage {
    /// State of the node.
    pub state: String,
    /// Whether the instances of this node are shown.
    pub shows_instances: bool,
}

/// Describe the page of a node. A node is alive if it is this one or a member.
/// Only this node knows its instances, so they are shown on its own page and
/// on no other's.
pub fn node_page(
    name: &str,
    self_name: Option<&String>,
    members: Option<&Vec<NodeMembershipInfo>>,
) -> (r: NodePage)
    ensures
        r.shows_instances == (self_name is Some && self_name->0@ == name@),
        r.state@ == if r.shows_instances || (members is Some && is_member(members->0@, name@)) {
            "alive"@
        } else {
            "unknown"@
        },
{
    let is_self: bool = match self_name {
        Some(own) => same_text(own.as_str(), name),
        None => false,
    };
    let in_membership: bool = match members {
        Some(list) => find_member(list, name).is_some(),
        None => false,
    };
    NodePage {
        state: if is_self || in_membership {
            "alive".to_owned()
        } else {
            "unknown".to_owned()
        },
        shows_instances: is_self,
    }
}

/// A chart of a page.
#[derive(Debug)]
pub struct ChartConfig {
    /// Where its samples come from.
    pub endpoint: String,
    /// Title of the chart.
    pub title: String,
    /// Unit of its values.
    pub y_label: String,
    /// Seconds between two readings.
    pub refresh_secs: u64,
    /// Seconds that it shows.
    pub range_secs: u64,
}

/// Whether a chart shows a metric by the hour, read every ten seconds.
pub open spec fn is_chart(
    chart: ChartConfig,
    endpoint: Seq<char>,
    title: Seq<char>,
    unit: Seq<char>,
) -> bool {
    &&& chart.endpoint@ == endpoint
    &&& chart.title@ == title
    &&& chart.y_label@ == unit
    &&& chart.refresh_secs == 10
    &&& chart.range_secs == 3600
}

fn chart(endpoint: String, title: &str, unit: &str) -> (r: ChartConfig)
    ensures
        is_chart(r, endpoint@, title@, unit@),
{
    ChartConfig {
        endpoint,
        title: title.to_owned(),
        y_label: unit.to_owned(),
        refresh_secs: 10,
        range_secs: 3600,
    }
}

/// The charts of an app's page: its processor and its memory.
pub fn app_charts(app: &str, namespace: &str) -> (r: Vec<ChartConfig>)
    ensures
        r@.len() == 2,
        is_chart(
            r@[0],
            "/v1/metrics/app/"@ + app@ + "/"@ + namespace@ + "?name=process_cpu_percent"@,
            "CPU Usage"@,
            "%"@,
        ),
        is_chart(
            r@[1],
            "/v1/metrics/app/"@ + app@ + "/"@ + namespace@ + "?name=process_memory_bytes"@,
            "Memory Usage"@,
            "bytes"@,
        ),
{
    let mut base: String = "/v1/metrics/app/".to_owned();
    base.append(app);
    base.append("/");
    base.append(namespace);
    let mut cpu: String = base.clone();
    cpu.append("?name=process_cpu_percent");
    let mut memory: String = base;
    memory.append("?name=process_memory_bytes");
    vec![chart(cpu, "CPU Usage", "%"), chart(memory, "Memory Usage", "bytes")]
}

/// The charts of a node's page: its processor and its memory.
pub fn node_charts() -> (r: Vec<ChartConfig>)
    ensures
        r@.len() == 2,
        is_chart(r@[0], "/v1/metrics?name=node_cpu_usage_percent"@, "CPU Usage"@, "%"@),
        is_chart(
            r@[1],
            "/v1/metrics?name=node_memory_used_bytes"@,
            "Memory Usage"@,
            "bytes"@,
        ),
{
    vec![
        chart("/v1/metrics?name=node_cpu_usage_percent".to_owned(), "CPU Usage", "%"),
        chart("/v1/metrics?name=node_memory_used_bytes".to_owned(), "Memory Usage", "bytes"),
    ]
}

} // verus!
