//! Audit records of faults that were injected or cleared.

use vstd::prelude::*;
use vstd::string::*;

use crate::events::EventSeverity;
use crate::ordered_map::OrderedMap;
use crate::text::{decimal, decimal_text, join, joined, strings};
use crate::value::map_meaning;

verus! {

/// What is recorded of a fault.
#[derive(Debug)]
pub struct FaultAudit {
    /// What was done.
    pub action: String,
    /// Credential that did it.
    pub principal: String,
    /// How much it matters.
    pub severity: EventSeverity,
    /// App that it was done to.
    pub app: Option<String>,
    /// Node that it was done to.
    pub node: Option<String>,
    /// Particulars, by name.
    pub details: OrderedMap<String, String>,
    /// The record in words.
    pub message: String,
}

fn put(details: &mut OrderedMap<String, String>, name: &str, value: String)
    requires
        old(details).wf(),
    ensures
        final(details).wf(),
        map_meaning(*final(details)) == map_meaning(*old(details)).insert(name@, value@),
{
    let ghost before = map_meaning(*details);
    let key: String = name.to_owned();
    details.insert(key, value);
    proof {
        assert(map_meaning(*details) =~= before.insert(name@, value@));
    }
}

fn no_details() -> (r: OrderedMap<String, String>)
    ensures
        r.wf(),
        map_meaning(r) == Map::<Seq<char>, Seq<char>>::empty(),
{
    let r: OrderedMap<String, String> = OrderedMap::new();
    proof {
        assert(map_meaning(r) =~= Map::<Seq<char>, Seq<char>>::empty());
    }
    r
}

/// An injected fault, as the agent sums it up.
#[derive(Debug)]
pub struct InjectedFault {
    /// Identifier of the fault.
    pub id: u64,
    /// Its kind as the agent names it.
    pub kind: String,
    /// Its kind as the request names it.
    pub requested_kind: String,
    /// How long it lasts, in seconds.
    pub duration_seconds: u64,
    /// Service that it acts on, or nothing.
    pub target_service: String,
    /// Instance that it acts on.
    pub target_instance: Option<String>,
    /// Node that it acts on.
    pub target_node: Option<String>,
    /// Why it was injected.
    pub reason: Option<String>,
}

/// The particulars of an injected fault.
pub open spec fn injected_details(fault: InjectedFault) -> Map<Seq<char>, Seq<char>> {
    let basic = Map::<Seq<char>, Seq<char>>::empty().insert(
        "fault_id"@,
        decimal_text(fault.id as nat),
    ).insert("fault_type"@, fault.requested_kind@).insert(
        "duration_seconds"@,
        decimal_text(fault.duration_seconds as nat),
    );
    let with_instance = match fault.target_instance {
        Some(instance) => basic.insert("target_instance"@, instance@),
        None => basic,
    };
    match fault.reason {
        Some(reason) => with_instance.insert("reason"@, reason@),
        None => with_instance,
    }
}

/// Record an injected fault, in the name of the authenticated caller.
pub fn injected_audit(fault: InjectedFault, principal: &str) -> (r: FaultAudit)
    ensures
        r.action@ == "fault.injected"@,
        r.principal@ == principal@,
        r.severity == EventSeverity::Warning,
        r.app == (if fault.target_service@.len() == 0 {
            None
        } else {
            Some(fault.target_service)
        }),
        r.node == fault.target_node,
        r.details.wf(),
        map_meaning(r.details) == injected_details(fault),
        r.message@ == "fault "@ + decimal_text(fault.id as nat) + " ("@ + fault.kind@
            + ") injected for "@ + decimal_text(fault.duration_seconds as nat)
            + "s by principal "@ + principal@,
{
    let mut message: String = "fault ".to_owned();
    message.append(decimal(fault.id).as_str());
    message.append(" (");
    message.append(fault.kind.as_str());
    message.append(") injected for ");
    message.append(decimal(fault.duration_seconds).as_str());
    message.append("s by principal ");
    message.append(principal);
    let mut details = no_details();
    put(&mut details, "fault_id", decimal(fault.id));
    put(&mut details, "fault_type", fault.requested_kind);
    put(&mut details, "duration_seconds", decimal(fault.duration_seconds));
    match fault.target_instance {
        Some(instance) => put(&mut details, "target_instance", instance),
        None => {},
    }
    match fault.reason {
        Some(reason) => put(&mut details, "reason", reason),
        None => {},
    }
    let app: Option<String> = if fault.target_service.as_str().is_empty() {
        None
    } else {
        Some(fault.target_service)
    };
    FaultAudit {
        action: "fault.injected".to_owned(),
        principal: principal.to_owned(),
        severity: EventSeverity::Warning,
        app,
        node: fault.target_node,
        details,
        message,
    }
}

/// Record a cleared fault.
pub fn cleared_audit(fault_id: u64, node: Option<String>, principal: &str) -> (r: FaultAudit)
    ensures
        r.action@ == "fault.cleared"@,
        r.principal@ == principal@,
        r.severity == EventSeverity::Info,
        r.app is None,
        r.node == node,
        r.details.wf(),
        map_meaning(r.details) == Map::<Seq<char>, Seq<char>>::empty().insert(
            "fault_id"@,
            decimal_text(fault_id as nat),
        ),
        r.message@ == "fault "@ + decimal_text(fault_id as nat) + " cleared by principal "@
            + principal@,
{
    let mut message: String = "fault ".to_owned();
    message.append(decimal(fault_id).as_str());
    message.append(" cleared by principal ");
    message.append(principal);
    let mut details = no_details();
    put(&mut details, "fault_id", decimal(fault_id));
    FaultAudit {
        action: "fault.cleared".to_owned(),
        principal: principal.to_owned(),
        severity: EventSeverity::Info,
        app: None,
        node,
        details,
        message,
    }
}

/// What an agent said, and who asked.
pub open spec fn said_for(words: Seq<char>, principal: Seq<char>) -> Seq<char> {
    words + " by principal "@ + principal
}

fn said(words: &str, principal: &str) -> (r: String)
    ensures
        r@ == said_for(words@, principal@),
{
    let mut out: String = words.to_owned();
    out.append(" by principal ");
    out.append(principal);
    out
}

/// Record that many faults were cleared: those of a service, or every workload
/// fault.
pub fn cleared_all_audit(service: Option<String>, words: &str, principal: &str) -> (r: FaultAudit)
    ensures
        r.action@ == if service is Some {
            "fault.cleared-by-service"@
        } else {
            "fault.cleared-all-workload"@
        },
        r.principal@ == principal@,
        r.severity == EventSeverity::Info,
        r.app == service,
        r.node is None,
        r.details.wf(),
        map_meaning(r.details) == (match service {
            Some(name) => Map::<Seq<char>, Seq<char>>::empty().insert("target_service"@, name@),
            None => Map::<Seq<char>, Seq<char>>::empty(),
        }),
        r.message@ == said_for(words@, principal@),
{
    let mut details = no_details();
    let action: String = match &service {
        Some(name) => {
            put(&mut details, "target_service", name.clone());
            "fault.cleared-by-service".to_owned()
        },
        None => "fault.cleared-all-workload".to_owned(),
    };
    FaultAudit {
        action,
        principal: principal.to_owned(),
        severity: EventSeverity::Info,
        app: service,
        node: None,
        details,
        message: said(words, principal),
    }
}

/// Record an injected partition of the council.
pub fn partition_audit(
    fault_id: u64,
    peers: &Vec<String>,
    duration_seconds: u64,
    words: &str,
    principal: &str,
) -> (r: FaultAudit)
    ensures
        r.action@ == "fault.injected"@,
        r.principal@ == principal@,
        r.severity == EventSeverity::Warning,
        r.app is None,
        r.node is None,
        r.details.wf(),
        map_meaning(r.details) == Map::<Seq<char>, Seq<char>>::empty().insert(
            "fault_type"@,
            "CouncilPartition"@,
        ).insert("duration_seconds"@, decimal_text(duration_seconds as nat)).insert(
            "peers"@,
            joined(strings(peers@), ","@),
        ).insert("fault_id"@, decimal_text(fault_id as nat)),
        r.message@ == said_for(words@, principal@),
{
    let mut details = no_details();
    put(&mut details, "fault_type", "CouncilPartition".to_owned());
    put(&mut details, "duration_seconds", decimal(duration_seconds));
    put(&mut details, "peers", join(peers, ","));
    put(&mut details, "fault_id", decimal(fault_id));
    FaultAudit {
        action: "fault.injected".to_owned(),
        principal: principal.to_owned(),
        severity: EventSeverity::Warning,
        app: None,
        node: None,
        details,
        message: said(words, principal),
    }
}

/// Record that the partitions of the council were healed.
pub fn healed_audit(words: &str, principal: &str) -> (r: FaultAudit)
    ensures
        r.action@ == "fault.cleared-council-partition"@,
        r.principal@ == principal@,
        r.severity == EventSeverity::Info,
        r.app is None,
        r.node is None,
        r.details.wf(),
        map_meaning(r.details) == Map::<Seq<char>, Seq<char>>::empty(),
        r.message@ == said_for(words@, principal@),
{
    FaultAudit {
        action: "fault.cleared-council-partition".to_owned(),
        principal: principal.to_owned(),
        severity: EventSeverity::Info,
        app: None,
        node: None,
        details: no_details(),
        message: said(words, principal),
    }
}

} // verus!
