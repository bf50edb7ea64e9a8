//! What a consumer of cluster endpoints owns.

use bun::consumer_owners::{
    validate_transition, ConsumerChecks, ConsumerIdentity, ConsumerOwnership, ConsumerPhase,
    ConsumerPublication, ConsumerReceipt, PublicationChecks, ReceiptPhase, MAX_PUBLICATIONS,
};
use bun::ordered_map::OrderedMap;
use bun::services::{
    AllowList, BackendInstance, CatalogBackend, CatalogService, EndpointCatalog,
    EndpointWithdrawalInstruction, IngressAssignment, IpAddress, ServiceEntry, WithdrawnService,
};
use bun::value::Value;

fn publication(generation: u64) -> ConsumerPublication {
    ConsumerPublication {
        generation,
        catalog: EndpointCatalog { services: OrderedMap::new() },
        effective_services: Vec::new(),
        ingress: Vec::new(),
    }
}

fn owner() -> ConsumerOwnership {
    ConsumerOwnership {
        identity: ConsumerIdentity { node_id: "consumer".to_string(), cluster_identity: [7; 32] },
        publications: vec![publication(1), publication(2)],
        phase: ConsumerPhase::Active,
        receipts: OrderedMap::new(),
    }
}

/// `127.128.0.9`.
const VIP: u32 = 2_139_095_049;

fn web_service() -> CatalogService {
    CatalogService {
        vip: VIP,
        port: 8080,
        backends: vec![CatalogBackend {
            execution: None,
            node_id: "producer".to_string(),
            node_ip: IpAddress::V4(0x0a00_0001),
            host_port: 30001,
            healthy: true,
        }],
    }
}

fn web_catalog() -> EndpointCatalog {
    let mut services = OrderedMap::new();
    services.insert("default__web".to_string(), web_service());
    EndpointCatalog { services }
}

fn withdrawal(generation: u64) -> EndpointWithdrawalInstruction {
    let mut services = OrderedMap::new();
    services.insert(
        "default__web".to_string(),
        WithdrawnService { service: web_service(), retire_vip: false },
    );
    EndpointWithdrawalInstruction { generation, services }
}

#[test]
fn consumer_compaction_keeps_the_published_view_and_generation_fence() {
    let old = owner();
    let mut compact = old.duplicate();
    compact.publications.remove(0);
    assert!(validate_transition(Some(&old), Some(&compact)).is_ok());
    let mut dropped_current = old.duplicate();
    dropped_current.publications.pop();
    assert!(
        validate_transition(Some(&old), Some(&dropped_current)).is_err(),
        "compaction forgot the published view"
    );
    let mut emptied = old.duplicate();
    emptied.publications.clear();
    assert!(validate_transition(Some(&old), Some(&emptied)).is_err());
    let mut withdrawing = old.duplicate();
    withdrawing.phase = ConsumerPhase::Withdrawing;
    assert!(validate_transition(Some(&old), Some(&withdrawing)).is_ok());
    let mut withdrawn = withdrawing.duplicate();
    withdrawn.phase = ConsumerPhase::Withdrawn;
    assert!(validate_transition(Some(&withdrawing), Some(&withdrawn)).is_ok());
    compact.phase = ConsumerPhase::Publishing;
    assert!(validate_transition(Some(&withdrawn), Some(&compact)).is_ok());
    compact.publications[0].generation = 1;
    assert!(validate_transition(Some(&withdrawn), Some(&compact)).is_err());
    assert!(validate_transition(Some(&old), Some(&withdrawn)).is_err());
}

#[test]
fn in_place_publication_appends_exactly_one_view() {
    let old = owner();
    let mut next = old.duplicate();
    next.phase = ConsumerPhase::Publishing;
    let mut third = next.publications[1].copy();
    third.generation = 3;
    next.publications.push(third.copy());
    assert!(validate_transition(Some(&old), Some(&next)).is_ok());
    let mut replaced = next.duplicate();
    replaced.publications.remove(0);
    assert!(
        validate_transition(Some(&old), Some(&replaced)).is_err(),
        "publishing in place forgot a view that may hold requests"
    );
    let mut two = next.duplicate();
    two.publications.push(third);
    assert!(validate_transition(Some(&old), Some(&two)).is_err());
}

#[test]
fn receipt_waits_until_no_retained_view_exposes_the_withdrawal() {
    let mut old = owner();
    old.publications[0].catalog = web_catalog();
    old.publications[1].generation = 3;
    old.receipts.insert(
        2,
        ConsumerReceipt { withdrawal: withdrawal(2), phase: ReceiptPhase::Pending },
    );
    let mut cleared = old.duplicate();
    cleared.receipts.clear();
    assert!(validate_transition(Some(&old), Some(&cleared)).is_err());
    let mut early = old.duplicate();
    early.receipts.entries[0].1.phase = ReceiptPhase::Ready;
    assert!(
        validate_transition(Some(&old), Some(&early)).is_err(),
        "a retained view still exposes the withdrawn backend"
    );
    let mut compacted = early.duplicate();
    compacted.publications.remove(0);
    assert!(validate_transition(Some(&old), Some(&compacted)).is_ok());
    let mut acknowledged = compacted.duplicate();
    acknowledged.receipts.clear();
    assert!(validate_transition(Some(&compacted), Some(&acknowledged)).is_ok());
}

#[test]
fn full_withdrawal_still_proves_receipts() {
    let mut old = owner();
    old.receipts.insert(
        1,
        ConsumerReceipt { withdrawal: withdrawal(1), phase: ReceiptPhase::Pending },
    );
    old.phase = ConsumerPhase::Withdrawn;
    let mut next = old.duplicate();
    next.receipts.entries[0].1.phase = ReceiptPhase::Ready;
    assert!(validate_transition(Some(&old), Some(&next)).is_ok());
}

#[test]
fn ownership_starts_freely_but_never_ends() {
    let old = owner();
    assert!(validate_transition(None, None).is_ok());
    assert!(validate_transition(None, Some(&old)).is_ok());
    assert!(validate_transition(Some(&old), None).is_err());
    assert!(validate_transition(Some(&old), Some(&old)).is_ok());
    let mut moved = old.duplicate();
    moved.identity.cluster_identity[31] = 8;
    assert!(validate_transition(Some(&old), Some(&moved)).is_err());
}

#[test]
fn new_receipts_begin_pending() {
    let old = owner();
    let mut next = old.duplicate();
    next.receipts
        .insert(2, ConsumerReceipt { withdrawal: withdrawal(2), phase: ReceiptPhase::Ready });
    assert!(validate_transition(Some(&old), Some(&next)).is_err());
    next.receipts.entries[0].1.phase = ReceiptPhase::Pending;
    assert!(validate_transition(Some(&old), Some(&next)).is_ok());
    let mut changed = next.duplicate();
    changed.receipts.entries[0].1.withdrawal.generation = 9;
    assert!(validate_transition(Some(&next), Some(&changed)).is_err());
}

#[test]
fn withdrawals_meet_views_by_endpoint_or_retired_address() {
    let mut view = publication(1);
    assert!(!view.intersects(&withdrawal(2)));
    view.catalog = web_catalog();
    assert!(view.intersects(&withdrawal(2)));
    view.catalog.services.entries[0].1.backends[0].host_port = 30002;
    assert!(!view.intersects(&withdrawal(2)));
    let mut retiring = withdrawal(2);
    retiring.services.entries[0].1.retire_vip = true;
    view.effective_services.push(entry("local", VIP));
    assert!(view.intersects(&retiring));
}

fn entry(name: &str, vip: u32) -> ServiceEntry {
    ServiceEntry {
        namespace: "default".to_string(),
        app_name: name.to_string(),
        vip,
        port: 8080,
        app_id: vip,
        allow_from: AllowList(None),
        backends: vec![BackendInstance {
            instance_id: format!("default__{name}-0"),
            node_ip: IpAddress::V4(0x0a00_0001),
            host_port: 30001,
            healthy: true,
            local: false,
        }],
    }
}

fn sound(owner: &ConsumerOwnership) -> ConsumerChecks {
    ConsumerChecks {
        node_id: Ok(()),
        receipts: owner.receipts.entries.iter().map(|_| Ok(())).collect(),
        publications: owner
            .publications
            .iter()
            .map(|_| PublicationChecks {
                allocations: Ok(()),
                snapshot: Ok(()),
                routing: Ok(()),
                remote: Vec::new(),
            })
            .collect(),
    }
}

#[test]
fn sound_ownership_is_accepted() {
    let owner = owner();
    assert!(owner.validate(&sound(&owner)).is_ok());
}

#[test]
fn each_fault_of_an_ownership_is_refused() {
    let mut checks = sound(&owner());
    checks.node_id = Err("not a node name".to_string());
    assert_eq!(owner().validate(&checks).unwrap_err(), "not a node name");

    let mut crowded = owner();
    crowded.publications = (0..=MAX_PUBLICATIONS as u64).map(|i| publication(i + 1)).collect();
    assert_eq!(
        crowded.validate(&sound(&crowded)).unwrap_err(),
        "consumer publication capacity exhausted"
    );

    let mut regressed = owner();
    regressed.publications[1].generation = 0;
    assert_eq!(
        regressed.validate(&sound(&regressed)).unwrap_err(),
        "consumer catalogue generation regressed or changed"
    );

    let mut uncommitted = owner();
    uncommitted.publications[0].generation = 0;
    uncommitted.publications[0].catalog = web_catalog();
    assert_eq!(
        uncommitted.validate(&sound(&uncommitted)).unwrap_err(),
        "nonempty catalogue has no committed generation"
    );

    let mut current = owner();
    current.receipts.insert(
        2,
        ConsumerReceipt { withdrawal: withdrawal(2), phase: ReceiptPhase::Pending },
    );
    assert_eq!(
        current.validate(&sound(&current)).unwrap_err(),
        "invalid consumer withdrawal generation"
    );
    current.publications[1].generation = 3;
    assert!(current.validate(&sound(&current)).is_ok());
    let mut checks = sound(&current);
    checks.receipts[0] = Err("bad allocation".to_string());
    assert_eq!(current.validate(&checks).unwrap_err(), "bad allocation");

    let mut checks = sound(&owner());
    checks.publications[1].routing = Err("route conflict".to_string());
    assert_eq!(owner().validate(&checks).unwrap_err(), "route conflict");

    let mut checks = sound(&owner());
    checks.publications[0].remote = vec![entry("web", VIP)];
    assert!(owner().validate(&checks).is_err(), "a remote service is missing from the view");

    let mut twice = owner();
    let assignment = || IngressAssignment {
        namespace: "default".to_string(),
        name: "web".to_string(),
        config: "{}".to_string(),
    };
    twice.publications[0].ingress = vec![assignment(), assignment()];
    assert_eq!(
        twice.validate(&sound(&twice)).unwrap_err(),
        "duplicate consumer ingress assignment"
    );
}

#[test]
fn views_hold_every_remote_service() {
    let mut full = owner();
    full.publications[0].catalog = web_catalog();
    full.publications[0].effective_services = vec![entry("local", 5), entry("web", VIP)];
    full.publications[1].catalog = web_catalog();
    full.publications[1].effective_services = vec![entry("web", VIP)];
    let mut checks = sound(&full);
    checks.publications[0].remote = vec![entry("web", VIP)];
    checks.publications[1].remote = vec![entry("web", VIP)];
    assert!(full.validate(&checks).is_ok());
    full.publications[1].effective_services[0].backends.clear();
    assert!(full.validate(&checks).is_err());
}
