//! The checkpoint of egress policies.

use bun::egress_owners::{
    boot_id, check_file, check_size, load, persist, recover, validate, CheckpointFile,
    EgressBinding, EgressError, KernelBootId, OciSpec, Owner, OwnersRead, PolicyPhase,
    RuntimeKind, CHECKPOINT_SCHEMA, MAX_CHECKPOINT_BYTES,
};
use bun::ordered_map::OrderedMap;

fn binding() -> EgressBinding {
    EgressBinding {
        phase: PolicyPhase::Owned,
        cgroup_id: 42,
        allow: vec!["203.0.113.1:443".to_string()],
        runtime: RuntimeKind::Runc,
        original_spec: OciSpec {
            cgroups_path: Some("/reliaburger/default/web/0".to_string()),
            document: "{}".to_string(),
        },
        boot_id: KernelBootId([1; 16]),
    }
}

fn owners() -> OrderedMap<String, EgressBinding> {
    let mut owners = OrderedMap::new();
    owners.insert("default__web-0".to_string(), binding());
    owners
}

fn shown(owners: &OrderedMap<String, EgressBinding>) -> String {
    format!("{owners:?}")
}

#[test]
fn original_policy_ownership_survives_checkpoint_replacement() {
    assert!(load(CHECKPOINT_SCHEMA, Vec::new()).unwrap().len() == 0);
    let written = persist(owners()).unwrap();
    assert_eq!(shown(&load(CHECKPOINT_SCHEMA, written).unwrap()), shown(&owners()));
    let written = persist(OrderedMap::new()).unwrap();
    assert!(load(CHECKPOINT_SCHEMA, written).unwrap().len() == 0);
}

#[test]
fn damaged_or_duplicate_policy_inventory_refuses_recovery() {
    let mut written = persist(owners()).unwrap();
    written.push(Owner { instance_id: "default__web-0".to_string(), binding: binding() });
    assert_eq!(load(CHECKPOINT_SCHEMA, written).unwrap_err(), EgressError::DuplicateIdentity);
    let written = persist(owners()).unwrap();
    assert_eq!(load(2, written).unwrap_err(), EgressError::UnsupportedSchema);
}

#[test]
fn invalid_policy_identity_never_replaces_the_original_inventory() {
    let written = persist(owners()).unwrap();
    let mut invalid = owners();
    invalid.entries[0].1.cgroup_id = 0;
    assert!(persist(invalid).is_err());
    assert_eq!(shown(&load(CHECKPOINT_SCHEMA, written).unwrap()), shown(&owners()));
}

#[test]
fn owners_are_written_by_instance() {
    let mut all = owners();
    all.insert("default__api-0".to_string(), binding());
    let names: Vec<_> = persist(all).unwrap().into_iter().map(|o| o.instance_id).collect();
    assert_eq!(names, vec!["default__api-0", "default__web-0"]);
}

#[test]
fn each_fault_of_a_binding_is_refused() {
    assert!(validate(&owners()).is_ok());
    let faults: &[fn(&mut EgressBinding)] = &[
        |b| b.cgroup_id = 0,
        |b| b.boot_id = KernelBootId([0; 16]),
        |b| b.original_spec.cgroups_path = None,
    ];
    for fault in faults {
        let mut all = owners();
        fault(&mut all.entries[0].1);
        assert_eq!(validate(&all).unwrap_err(), EgressError::InvalidOwnership);
    }
}

#[test]
fn checkpoints_are_private_regular_files() {
    let file = || CheckpointFile {
        regular: true,
        length: 10,
        mode: 0o100600,
        owned: true,
        links: 1,
    };
    assert!(check_file(file()).is_ok());
    let redirected = CheckpointFile { regular: false, ..file() };
    assert_eq!(check_file(redirected).unwrap_err(), EgressError::InvalidFile);
    let long = CheckpointFile { length: MAX_CHECKPOINT_BYTES + 1, ..file() };
    assert_eq!(check_file(long).unwrap_err(), EgressError::InvalidFile);
    let public = CheckpointFile { mode: 0o100644, ..file() };
    assert_eq!(check_file(public).unwrap_err(), EgressError::NotPrivate);
    let foreign = CheckpointFile { owned: false, ..file() };
    assert_eq!(check_file(foreign).unwrap_err(), EgressError::NotPrivate);
    let linked = CheckpointFile { links: 2, ..file() };
    assert_eq!(check_file(linked).unwrap_err(), EgressError::NotPrivate);
    assert!(check_size(MAX_CHECKPOINT_BYTES).is_ok());
    assert_eq!(check_size(MAX_CHECKPOINT_BYTES + 1).unwrap_err(), EgressError::TooLarge);
}

#[test]
fn boot_identities_are_read_exactly() {
    let id = boot_id("01234567-89ab-cdef-0123-456789ABCDEF\n").unwrap();
    assert_eq!(
        id.0,
        [0x01, 0x23, 0x45, 0x67, 0x89, 0xab, 0xcd, 0xef, 0x01, 0x23, 0x45, 0x67, 0x89, 0xab, 0xcd, 0xef]
    );
    assert_eq!(
        boot_id("00000000-0000-0000-0000-000000000000").unwrap_err(),
        EgressError::UnavailableBootId
    );
    for malformed in ["", "01234567-89ab-cdef-0123-456789abcdeg", "0123456789abcdef0123456789abcdef"] {
        assert_eq!(boot_id(malformed).unwrap_err(), EgressError::InvalidBootId);
    }
}

#[test]
fn only_a_missing_checkpoint_means_no_owners() {
    assert_eq!(recover(OwnersRead::Missing).unwrap().len(), 0);
    let failed = OwnersRead::Failed("unexpected end of input".to_string());
    assert_eq!(recover(failed).unwrap_err(), "unexpected end of input");
    let found = |schema: u32| OwnersRead::Found { schema, owners: persist(owners()).unwrap() };
    assert_eq!(shown(&recover(found(CHECKPOINT_SCHEMA)).unwrap()), shown(&owners()));
    assert_eq!(recover(found(2)).unwrap_err(), "unsupported egress ownership schema");
    let mut twice = persist(owners()).unwrap();
    twice.push(Owner { instance_id: "default__web-0".to_string(), binding: binding() });
    let twice = OwnersRead::Found { schema: CHECKPOINT_SCHEMA, owners: twice };
    assert_eq!(recover(twice).unwrap_err(), "duplicate egress ownership identity");
    let nameless = Owner { instance_id: String::new(), binding: binding() };
    let invalid = OwnersRead::Found { schema: CHECKPOINT_SCHEMA, owners: vec![nameless] };
    assert_eq!(recover(invalid).unwrap_err(), "invalid durable egress ownership");
}

#[test]
fn errors_say_what_is_wrong() {
    for (error, words) in [
        (EgressError::InvalidFile, "invalid egress ownership checkpoint file"),
        (EgressError::NotPrivate, "egress ownership checkpoint is not private"),
        (EgressError::TooLarge, "egress ownership checkpoint is too large"),
        (EgressError::InvalidBootId, "kernel boot identity is invalid"),
        (EgressError::UnavailableBootId, "kernel boot identity is unavailable"),
    ] {
        assert_eq!(error.words(), words);
    }
}
