//! The journal of discovery ownership.

use bun::consumer_owners::{
    ConsumerChecks, ConsumerIdentity, ConsumerOwnership, ConsumerPhase, ConsumerPublication,
    PublicationChecks,
};
use bun::discovery_owners::{
    admit_claim, admit_directory, check_directory, check_size, open_inventory, CheckpointRead,
    ClaimOutcome, DirectoryFacts, DirectoryOutcome, DiscoveryInventory, DiscoveryJournal,
    InventoryChecks, NetworkReference, NetworkReferenceState, OpenError, OpenErrorKind,
    PortMapping, ReferenceOwner, ReferencePhase, RuntimeLaunch, ServiceOwner, ServicePhase,
    CHECKPOINT_LIMIT, CHECKPOINT_SCHEMA,
};
use bun::ordered_map::OrderedMap;
use bun::services::{
    AllowList, BackendInstance, CatalogBackend, CatalogService, EndpointCatalog, IpAddress,
    RuntimeExecution, ServiceEntry, ServiceId,
};
use bun::value::Value;

const LOCALHOST: IpAddress = IpAddress::V4(0x7f00_0001);

fn shown(inventory: &DiscoveryInventory) -> String {
    format!("{inventory:?}")
}

fn empty() -> DiscoveryInventory {
    DiscoveryInventory { services: Vec::new(), references: Vec::new(), consumer: None }
}

fn remote_service(host_port: u16) -> ServiceEntry {
    ServiceEntry {
        namespace: "default".to_string(),
        app_name: "remote".to_string(),
        vip: 0x7f80_0010,
        port: 8080,
        app_id: 0x7f80_0010,
        allow_from: AllowList(None),
        backends: vec![BackendInstance {
            instance_id: "default__remote-0".to_string(),
            node_ip: IpAddress::V4(0xc000_020a),
            host_port,
            healthy: true,
            local: false,
        }],
    }
}

fn consumer_snapshot(generation: u64, host_port: u16) -> ConsumerPublication {
    let mut services = OrderedMap::new();
    services.insert(
        "default__remote".to_string(),
        CatalogService {
            vip: 0x7f80_0010,
            port: 8080,
            backends: vec![CatalogBackend {
                execution: Some(RuntimeExecution {
                    instance_id: "default__remote-0".to_string(),
                    generation: format!("{host_port:064x}"),
                }),
                node_id: "producer".to_string(),
                node_ip: IpAddress::V4(0xc000_020a),
                host_port,
                healthy: true,
            }],
        },
    );
    ConsumerPublication {
        generation,
        catalog: EndpointCatalog { services },
        effective_services: vec![remote_service(host_port)],
        ingress: Vec::new(),
    }
}

fn consumer_inventory() -> DiscoveryInventory {
    DiscoveryInventory {
        services: Vec::new(),
        references: Vec::new(),
        consumer: Some(ConsumerOwnership {
            identity: ConsumerIdentity { node_id: "reader".to_string(), cluster_identity: [42; 32] },
            publications: vec![consumer_snapshot(1, 30001), consumer_snapshot(2, 30002)],
            phase: ConsumerPhase::Withdrawing,
            receipts: OrderedMap::new(),
        }),
    }
}

fn consumer(inventory: &mut DiscoveryInventory) -> &mut ConsumerOwnership {
    inventory.consumer.as_mut().unwrap()
}

/// The services that a catalogue gives a reader.
fn remote_of(publication: &ConsumerPublication) -> Vec<ServiceEntry> {
    publication
        .catalog
        .services
        .entries
        .iter()
        .map(|(_, service)| {
            let mut entry = remote_service(service.backends[0].host_port);
            entry.backends = service
                .backends
                .iter()
                .map(|backend| BackendInstance {
                    instance_id: "default__remote-0".to_string(),
                    node_ip: backend.node_ip,
                    host_port: backend.host_port,
                    healthy: backend.healthy,
                    local: false,
                })
                .collect();
            entry
        })
        .collect()
}

/// Whether no two services of a map share an identity or an address.
fn snapshot(services: &[&ServiceEntry]) -> Result<(), String> {
    for (i, a) in services.iter().enumerate() {
        for b in &services[i + 1..] {
            if a.vip == b.vip || (a.namespace == b.namespace && a.app_name == b.app_name) {
                return Err("conflicting service snapshot".to_string());
            }
        }
    }
    Ok(())
}

fn checks_of(inventory: &DiscoveryInventory) -> InventoryChecks {
    let owned: Vec<&ServiceEntry> = inventory.services.iter().map(|owner| &owner.entry).collect();
    InventoryChecks {
        consumer: inventory.consumer.as_ref().map(|owner| ConsumerChecks {
            node_id: if owner.identity.node_id.is_empty() {
                Err("invalid node name".to_string())
            } else {
                Ok(())
            },
            receipts: owner.receipts.entries.iter().map(|_| Ok(())).collect(),
            publications: owner
                .publications
                .iter()
                .map(|publication| PublicationChecks {
                    allocations: Ok(()),
                    snapshot: snapshot(&publication.effective_services.iter().collect::<Vec<_>>()),
                    routing: Ok(()),
                    remote: remote_of(publication),
                })
                .collect(),
        }),
        snapshot: snapshot(&owned),
    }
}

const PRIVATE: DirectoryFacts = DirectoryFacts { directory: true, mode: 0o40700, owned: true };

fn fresh() -> DiscoveryJournal {
    let missing = CheckpointRead::NotFound("no such file".to_string());
    DiscoveryJournal::open(&DirectoryOutcome::Created(PRIVATE), &ClaimOutcome::Taken, missing)
        .unwrap()
}

fn claimed(claim: ClaimOutcome, read: CheckpointRead) -> Result<DiscoveryJournal, OpenError> {
    DiscoveryJournal::open(&DirectoryOutcome::Existing(PRIVATE), &claim, read)
}

fn stored(inventory: DiscoveryInventory) -> CheckpointRead {
    let checks = checks_of(&inventory);
    CheckpointRead::Found { schema: CHECKPOINT_SCHEMA, inventory, checks }
}

fn save(journal: &mut DiscoveryJournal, next: DiscoveryInventory) -> Result<(), String> {
    let checks = checks_of(&next);
    journal.save(next, &checks)?;
    journal.written(true);
    Ok(())
}

fn reopen(journal: &DiscoveryJournal) -> DiscoveryJournal {
    claimed(ClaimOutcome::Taken, stored(journal.inventory().duplicate())).unwrap()
}

fn reconcile(
    journal: &DiscoveryJournal,
    launches: Vec<RuntimeLaunch>,
) -> Result<DiscoveryInventory, String> {
    journal.reconcile_runtime_inventory(&launches, &checks_of(journal.inventory()))
}

#[test]
fn consumer_publications_retain_original_generations_and_effective_views_after_reopening() {
    let expected = shown(&consumer_inventory());
    let mut journal = fresh();
    save(&mut journal, consumer_inventory()).unwrap();
    let journal = reopen(&journal);
    assert_eq!(shown(journal.inventory()), expected);
    assert!(
        reconcile(&journal, Vec::new()).is_err(),
        "standalone recovery must not ignore remote consumer ownership"
    );
    assert_eq!(CHECKPOINT_SCHEMA, 4);
}

#[test]
fn consumer_ownership_refuses_lost_rewritten_rebound_and_stale_history_atomically() {
    let mut journal = fresh();
    save(&mut journal, consumer_inventory()).unwrap();
    let original = shown(&consumer_inventory());
    let mutations: &[fn(&mut DiscoveryInventory)] = &[
        |v| v.consumer = None,
        |v| consumer(v).identity.node_id = "another-reader".to_string(),
        |v| consumer(v).identity.cluster_identity = [43; 32],
        |v| {
            consumer(v).publications.remove(0);
        },
        |v| {
            consumer(v).publications.pop();
        },
        |v| consumer(v).publications[0] = consumer_snapshot(1, 31001),
        |v| consumer(v).publications.push(consumer_snapshot(1, 30001)),
        |v| consumer(v).publications.push(consumer_snapshot(2, 31002)),
    ];
    for mutate in mutations {
        let mut candidate = consumer_inventory();
        mutate(&mut candidate);
        assert!(save(&mut journal, candidate).is_err());
        assert!(journal.to_write().is_none());
        assert_eq!(shown(journal.inventory()), original);
    }
    let mut next = consumer_inventory();
    consumer(&mut next).publications.push(consumer_snapshot(3, 30003));
    let expected = shown(&next);
    save(&mut journal, next).unwrap();
    assert_eq!(shown(journal.inventory()), expected);
}

#[test]
fn consumer_ownership_rejects_invalid_or_uncorrelated_effective_views_and_capacity_overflow() {
    let mutations: &[fn(&mut DiscoveryInventory)] = &[
        |v| consumer(v).identity.node_id = String::new(),
        |v| consumer(v).publications[0].generation = 0,
        |v| consumer(v).publications[0].effective_services.clear(),
        |v| consumer(v).publications[0].effective_services[0].port = 9090,
        |v| consumer(v).publications[0].effective_services[0].backends.clear(),
        |v| {
            let mut alias = consumer(v).publications[0].effective_services[0].copy();
            alias.app_name = "alias".to_string();
            consumer(v).publications[0].effective_services.push(alias);
        },
        |v| {
            consumer(v).publications = (0..1025).map(|_| consumer_snapshot(1, 30001)).collect();
        },
    ];
    for mutate in mutations {
        let mut journal = fresh();
        let mut candidate = consumer_inventory();
        mutate(&mut candidate);
        assert!(save(&mut journal, candidate).is_err());
        assert_eq!(shown(journal.inventory()), shown(&empty()));
    }
}

#[test]
fn consumer_retains_local_changes_within_one_generation_and_empty_initial_catalogue() {
    let mut journal = fresh();
    let mut next = consumer_inventory();
    consumer(&mut next).publications = vec![ConsumerPublication {
        generation: 0,
        catalog: EndpointCatalog { services: OrderedMap::new() },
        effective_services: Vec::new(),
        ingress: Vec::new(),
    }];
    save(&mut journal, next.duplicate()).unwrap();
    let mut publication = consumer_snapshot(1, 30001);
    consumer(&mut next).publications.push(publication.copy());
    save(&mut journal, next.duplicate()).unwrap();
    publication.effective_services.push(ServiceEntry {
        namespace: "default".to_string(),
        app_name: "local".to_string(),
        vip: 0x7f80_0020,
        port: 9000,
        app_id: 0x7f80_0020,
        allow_from: AllowList(None),
        backends: Vec::new(),
    });
    consumer(&mut next).publications.push(publication);
    save(&mut journal, next.duplicate()).unwrap();
    assert_eq!(shown(journal.inventory()), shown(&next));
}

#[test]
fn consumer_bounds_total_exposures_even_below_publication_capacity() {
    let mut journal = fresh();
    let mut publication = consumer_snapshot(1, 30001);
    let service = &mut publication.catalog.services.entries[0].1;
    let backend = service.backends[0].copy();
    service.backends = (0..32)
        .map(|offset| {
            let mut backend = backend.copy();
            backend.host_port += offset;
            backend
        })
        .collect();
    publication.effective_services = remote_of(&publication);
    let mut next = consumer_inventory();
    // Each attempt retains two service records and 64 backend records.
    consumer(&mut next).publications = (0..993).map(|_| publication.copy()).collect();
    assert!(save(&mut journal, next).unwrap_err().contains("exposure capacity"));
    assert_eq!(shown(journal.inventory()), shown(&empty()));
}

#[test]
fn consumer_failed_write_preserves_previous_evidence_and_fences_the_writer() {
    let mut journal = fresh();
    save(&mut journal, consumer_inventory()).unwrap();
    let mut next = consumer_inventory();
    consumer(&mut next).publications.push(consumer_snapshot(3, 30003));
    let checks = checks_of(&next);
    journal.save(next.duplicate(), &checks).unwrap();
    assert_eq!(journal.to_write().map(shown), Some(shown(&next)));
    journal.written(false);
    assert_eq!(shown(journal.inventory()), shown(&consumer_inventory()));
    assert!(save(&mut journal, next).is_err());
    let recovered = reopen(&journal);
    assert_eq!(shown(recovered.inventory()), shown(&consumer_inventory()));
}

const VIP: u32 = 0x7f80_0005;

fn inventory() -> DiscoveryInventory {
    let id = ServiceId::new("default", "api-g5");
    DiscoveryInventory {
        consumer: None,
        services: vec![ServiceOwner {
            executions: OrderedMap::new(),
            entry: ServiceEntry {
                namespace: "default".to_string(),
                app_name: "api-g5".to_string(),
                vip: VIP,
                port: 8080,
                app_id: VIP,
                allow_from: AllowList(Some(vec!["default/client".to_string()])),
                backends: Vec::new(),
            },
            phase: ServicePhase::Owned,
        }],
        references: vec![ReferenceOwner {
            service: id,
            reference: NetworkReference {
                instance_id: "default__api-g5-0".to_string(),
                generation: "0123456789abcdef0123456789abcdef".to_string(),
                container_index: 2,
            },
            phase: ReferencePhase::Held,
        }],
    }
}

fn original_reference() -> NetworkReference {
    inventory().references.remove(0).reference
}

fn runtime_launch(reference: NetworkReferenceState) -> RuntimeLaunch {
    let original = original_reference();
    let generation_of = |reference: &NetworkReference| format!("runc:{}", reference.generation);
    let reference_generation = match &reference {
        NetworkReferenceState::Held(reference) => generation_of(reference),
        NetworkReferenceState::Released(reference) => generation_of(reference),
    };
    RuntimeLaunch {
        generation: generation_of(&original),
        instance_id: original.instance_id,
        network_reference: Some(reference),
        reference_generation,
        has_cgroup: true,
        cgroup_services: vec![ServiceId::new("default", "api-g5")],
        port_mapping: Some(PortMapping { host_port: 20000, container_port: 8080 }),
    }
}

fn backend(node_ip: IpAddress, host_port: u16) -> BackendInstance {
    BackendInstance {
        instance_id: "default__api-g5-0".to_string(),
        node_ip,
        host_port,
        healthy: true,
        local: false,
    }
}

#[test]
fn recovery_correlates_rootless_publications_to_original_execution_generations() {
    let rootless = || {
        let mut launch = runtime_launch(NetworkReferenceState::Held(original_reference()));
        launch.network_reference = None;
        launch
    };
    let mut journal = fresh();
    let mut saved = inventory();
    saved.references.clear();
    let owner = &mut saved.services[0];
    owner.entry.backends.push(backend(LOCALHOST, 20000));
    owner.executions.insert("default__api-g5-0".to_string(), rootless().generation);
    save(&mut journal, saved).unwrap();
    reconcile(&journal, vec![rootless()]).unwrap();
    let mut changed = rootless();
    changed.generation = "runc:replacement".to_string();
    assert!(reconcile(&journal, vec![changed]).is_err());
    assert!(reconcile(&journal, Vec::new()).is_err());
}

#[test]
fn recovery_recovers_a_runtime_hold_saved_before_discovery_acknowledgement() {
    let mut journal = fresh();
    let mut saved = inventory();
    let reference = saved.references.remove(0);
    save(&mut journal, saved).unwrap();
    let held = runtime_launch(NetworkReferenceState::Held(original_reference()));
    let recovered = reconcile(&journal, vec![held]).unwrap();
    assert_eq!(recovered.references.len(), 1, "original hold was lost between journals");
    assert!(recovered.references[0].reference.same(&reference.reference));
    assert!(recovered.references[0].service.same(&reference.service));
    assert_eq!(recovered.references[0].phase, ReferencePhase::Held);
    assert!(
        journal.inventory().references.is_empty(),
        "correlation mutated durable state before acknowledgement"
    );
}

#[test]
fn recovery_refuses_missing_changed_or_prematurely_released_runtime_ownership() {
    let mut journal = fresh();
    save(&mut journal, inventory()).unwrap();
    let held = || runtime_launch(NetworkReferenceState::Held(original_reference()));
    assert!(reconcile(&journal, vec![held()]).is_ok());
    assert!(reconcile(&journal, Vec::new()).is_err(), "missing original runtime accepted");
    let mut changed = original_reference();
    changed.container_index += 1;
    let changed = runtime_launch(NetworkReferenceState::Held(changed));
    assert!(reconcile(&journal, vec![changed]).is_err());
    let released = runtime_launch(NetworkReferenceState::Released(original_reference()));
    assert!(
        reconcile(&journal, vec![released]).is_err(),
        "runtime release had no discovery permission"
    );
    assert!(
        reconcile(&journal, vec![held(), held()]).is_err(),
        "duplicate runtime identities accepted"
    );
}

#[test]
fn recovery_requires_original_service_and_cgroup_for_an_unacknowledged_hold() {
    let mut journal = fresh();
    let mut saved = inventory();
    saved.references.clear();
    let launch = || runtime_launch(NetworkReferenceState::Held(original_reference()));
    assert!(reconcile(&journal, vec![launch()]).is_err(), "missing original service accepted");
    save(&mut journal, saved).unwrap();
    let mut wrong = launch();
    wrong.cgroup_services = vec![ServiceId::new("default", "api")];
    assert!(
        reconcile(&journal, vec![wrong]).is_err(),
        "ambiguous instance text replaced original service evidence"
    );
    let mut without = launch();
    without.has_cgroup = false;
    assert!(reconcile(&journal, vec![without]).is_err());
    assert!(reconcile(&journal, vec![launch()]).is_ok());
}

#[test]
fn recovery_refuses_published_backends_without_their_original_hold() {
    let mut journal = fresh();
    let mut saved = inventory();
    saved.references.clear();
    saved.services[0].entry.backends.push(backend(IpAddress::V4(0x0a00_0004), 8080));
    save(&mut journal, saved).unwrap();
    let launch = || runtime_launch(NetworkReferenceState::Held(original_reference()));
    assert!(reconcile(&journal, vec![launch()]).is_ok());
    let mut without = launch();
    without.network_reference = None;
    assert!(reconcile(&journal, vec![without]).is_err());
}

#[test]
fn recovery_refuses_a_fingerprint_from_another_runtime_generation() {
    let mut journal = fresh();
    save(&mut journal, inventory()).unwrap();
    let mut launch = runtime_launch(NetworkReferenceState::Held(original_reference()));
    launch.generation = "process:another-private-generation".to_string();
    assert!(reconcile(&journal, vec![launch]).is_err());
    assert_eq!(shown(journal.inventory()), shown(&inventory()));
}

#[test]
fn recovery_preserves_release_permission_until_physical_acknowledgement() {
    let mut journal = fresh();
    let mut saved = inventory();
    saved.references[0].phase = ReferencePhase::ReleaseAuthorised;
    save(&mut journal, saved).unwrap();
    for state in [
        NetworkReferenceState::Held(original_reference()),
        NetworkReferenceState::Released(original_reference()),
    ] {
        let recovered = reconcile(&journal, vec![runtime_launch(state)]).unwrap();
        assert_eq!(recovered.references[0].phase, ReferencePhase::ReleaseAuthorised);
    }
}

#[test]
fn recovery_only_adds_holds_and_repeats() {
    let mut journal = fresh();
    let mut saved = inventory();
    saved.references.clear();
    save(&mut journal, saved).unwrap();
    let launch = || runtime_launch(NetworkReferenceState::Held(original_reference()));
    let recovered = reconcile(&journal, vec![launch()]).unwrap();
    save(&mut journal, recovered.duplicate()).unwrap();
    let again = reconcile(&journal, vec![launch()]).unwrap();
    assert_eq!(shown(&again), shown(&recovered));
}

#[test]
fn cluster_recovery_needs_the_original_enrolment() {
    let mut journal = fresh();
    save(&mut journal, consumer_inventory()).unwrap();
    let checks = checks_of(journal.inventory());
    let identity = |node_id: &str| ConsumerIdentity {
        node_id: node_id.to_string(),
        cluster_identity: [42; 32],
    };
    let none: Vec<RuntimeLaunch> = Vec::new();
    assert!(journal
        .reconcile_consumer_runtime_inventory(&none, &identity("reader"), &checks)
        .is_ok());
    assert_eq!(
        journal
            .reconcile_consumer_runtime_inventory(&none, &identity("another"), &checks)
            .unwrap_err(),
        "original consumer enrolment identity is missing"
    );
}

#[test]
fn original_allocations_and_release_permissions_survive_reopening() {
    let mut owner = fresh();
    let mut original = inventory();
    original.services[0].entry.vip = 0x7f80_0c22;
    original.services[0].entry.app_id = 0x7f80_0c22;
    save(&mut owner, original.duplicate()).unwrap();
    let mut owner = reopen(&owner);
    assert_eq!(shown(owner.inventory()), shown(&original));
    original.references[0].phase = ReferencePhase::ReleaseAuthorised;
    save(&mut owner, original).unwrap();
    let mut owner = reopen(&owner);
    assert_eq!(owner.inventory().references[0].phase, ReferencePhase::ReleaseAuthorised);
    let mut done = owner.inventory().duplicate();
    done.references.clear();
    done.services[0].phase = ServicePhase::Withdrawn;
    save(&mut owner, done).unwrap();
    save(&mut owner, empty()).unwrap();
}

#[test]
fn held_owners_cannot_be_forgotten_replaced_or_reactivated() {
    let mut owner = fresh();
    save(&mut owner, inventory()).unwrap();
    assert!(save(&mut owner, empty()).is_err());
    let mut changed = inventory();
    changed.services[0].entry.port += 1;
    assert!(save(&mut owner, changed).is_err());
    let mut changed = inventory();
    changed.references[0].reference.container_index += 1;
    assert!(save(&mut owner, changed).is_err());
    let mut released = inventory();
    released.references[0].phase = ReferencePhase::ReleaseAuthorised;
    save(&mut owner, released).unwrap();
    assert!(save(&mut owner, inventory()).is_err());
}

#[test]
fn conflicting_or_malformed_inventory_is_refused_before_writing() {
    let mut owner = fresh();
    save(&mut owner, inventory()).unwrap();
    let corrupt: &[fn(&mut DiscoveryInventory)] = &[
        |next| next.services.push(inventory().services.remove(0)),
        |next| next.references.push(inventory().references.remove(0)),
        |next| next.references[0].service = ServiceId::new("other", "api"),
        |next| next.references[0].reference.instance_id = "default__api-0".to_string(),
        |next| next.references[0].reference.container_index = 509,
        |next| next.references[0].reference.generation = "invalid".to_string(),
    ];
    for corrupt in corrupt {
        let mut next = inventory();
        corrupt(&mut next);
        assert!(owner.check(&next, &checks_of(&next)).is_err());
        assert!(save(&mut owner, next).is_err());
        assert!(owner.to_write().is_none());
        assert_eq!(shown(owner.inventory()), shown(&inventory()));
    }
}

#[test]
fn missing_corrupt_or_future_checkpoint_never_means_empty_ownership() {
    let found = |schema: u32| CheckpointRead::Found {
        schema,
        inventory: empty(),
        checks: checks_of(&empty()),
    };
    for read in [
        CheckpointRead::NotFound("no such file".to_string()),
        CheckpointRead::Failed("unexpected end of input".to_string()),
        found(1),
        found(99),
    ] {
        assert!(claimed(ClaimOutcome::Taken, read).is_err());
    }
    assert!(claimed(ClaimOutcome::Taken, found(CHECKPOINT_SCHEMA)).is_ok());
}

#[test]
fn a_checkpoint_in_a_new_directory_has_lost_its_claim() {
    let found = CheckpointRead::Found {
        schema: CHECKPOINT_SCHEMA,
        inventory: inventory(),
        checks: checks_of(&inventory()),
    };
    assert_eq!(
        open_inventory(true, found).unwrap_err(),
        "discovery checkpoint lost its original claim"
    );
    let missing = CheckpointRead::NotFound("no such file".to_string());
    assert_eq!(shown(&open_inventory(true, missing).unwrap()), shown(&empty()));
}

#[test]
fn concurrent_writers_refuse_until_the_original_claim_is_dropped() {
    let owner = fresh();
    let read = || stored(owner.inventory().duplicate());
    let error = claimed(ClaimOutcome::Busy, read()).unwrap_err();
    assert_eq!(error.kind, OpenErrorKind::WouldBlock);
    assert_eq!(error.error, "discovery owner is busy");
    assert!(claimed(ClaimOutcome::Taken, read()).is_ok());
}

#[test]
fn lost_claim_remains_refused_across_repeated_recovery_attempts() {
    let mut owner = fresh();
    save(&mut owner, inventory()).unwrap();
    for _ in 0..3 {
        let lost = ClaimOutcome::Failed("no such file".to_string());
        let error = claimed(lost, stored(owner.inventory().duplicate())).unwrap_err();
        assert_eq!(error.kind, OpenErrorKind::Other);
        assert_eq!(error.error, "no such file");
    }
}

#[test]
fn redirected_or_nonprivate_storage_is_refused() {
    for error in ["too many levels of symbolic links", "discovery file is not private"] {
        let read = CheckpointRead::Failed(error.to_string());
        assert_eq!(claimed(ClaimOutcome::Taken, read).unwrap_err().error, error);
    }
}

#[test]
fn journals_are_refused_by_directory_then_claim_then_checkpoint() {
    let open = |directory: DirectoryOutcome, claim: ClaimOutcome| {
        let unread = CheckpointRead::Failed("unreadable".to_string());
        DiscoveryJournal::open(&directory, &claim, unread).unwrap_err().error
    };
    let shared = DirectoryFacts { directory: true, mode: 0o40755, owned: true };
    let failed = || DirectoryOutcome::Failed("no parent".to_string());
    assert_eq!(open(failed(), ClaimOutcome::Busy), "no parent");
    for directory in [DirectoryOutcome::Created(shared), DirectoryOutcome::Existing(shared)] {
        assert_eq!(open(directory, ClaimOutcome::Busy), "discovery directory is not private");
    }
    let existing = || DirectoryOutcome::Existing(PRIVATE);
    assert_eq!(open(existing(), ClaimOutcome::Busy), "discovery owner is busy");
    assert_eq!(open(existing(), ClaimOutcome::Failed("redirected".to_string())), "redirected");
    assert_eq!(open(existing(), ClaimOutcome::Taken), "unreadable");
    assert!(!admit_directory(&existing()).unwrap());
    assert!(admit_directory(&DirectoryOutcome::Created(PRIVATE)).unwrap());
    assert!(admit_claim(&ClaimOutcome::Taken).is_ok());
    assert!(admit_claim(&ClaimOutcome::Busy).is_err());
}

#[test]
fn failed_publication_fences_the_writer_until_recovery() {
    let mut owner = fresh();
    save(&mut owner, inventory()).unwrap();
    owner.save(inventory(), &checks_of(&inventory())).unwrap();
    owner.written(false);
    assert!(save(&mut owner, inventory()).is_err());
    assert_eq!(
        reconcile(&owner, Vec::new()).unwrap_err(),
        "discovery checkpoint is uncertain"
    );
    let mut recovered = reopen(&owner);
    save(&mut recovered, inventory()).unwrap();
}

#[test]
fn storage_must_be_private_and_bounded() {
    let facts = |directory: bool, mode: u32, owned: bool| DirectoryFacts { directory, mode, owned };
    assert!(check_directory(facts(true, 0o40700, true)).is_ok());
    assert!(check_directory(facts(false, 0o40700, true)).is_err());
    assert!(check_directory(facts(true, 0o40755, true)).is_err());
    assert!(check_directory(facts(true, 0o40700, false)).is_err());
    assert!(check_size(CHECKPOINT_LIMIT).is_ok());
    assert!(check_size(CHECKPOINT_LIMIT + 1).is_err());
}
