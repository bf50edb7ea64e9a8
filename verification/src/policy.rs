//! Server-owned policy for diagnostic and test operations.

use vstd::prelude::*;

use crate::text::copy_strings;

verus! {

/// Role of an API credential, in ascending authority.
#[derive(Debug, Clone, Copy, PartialEq, Eq, Structural)]
pub enum ApiRole {
    /// May read.
    ReadOnly,
    /// May also deploy.
    Deployer,
    /// May also administer.
    Admin,
}

/// A class of diagnostic or test operations.
#[derive(Debug, Clone, Copy, PartialEq, Eq, Structural)]
pub enum OperationPermission {
    /// Read diagnostics.
    ReadDiagnostics,
    /// Provision isolated test workloads.
    ProvisionIsolatedWorkloads,
    /// Inject faults into workloads.
    InjectWorkloadFaults,
    /// Change the state of nodes.
    AlterNodeState,
    /// Saturate the capacity of nodes.
    SaturateCapacity,
    /// Probe a destination outside the cluster.
    ProbeExternalDestination,
}

/// The least role that each class of operations asks for, by its name.
#[derive(Debug)]
pub struct MinimumRoles {
    /// For reading diagnostics.
    pub read_diagnostics: String,
    /// For provisioning isolated workloads.
    pub provision_isolated_workloads: String,
    /// For injecting workload faults.
    pub inject_workload_faults: String,
    /// For altering node state.
    pub alter_node_state: String,
    /// For saturating capacity.
    pub saturate_capacity: String,
    /// For probing external destinations.
    pub probe_external_destination: String,
}

impl MinimumRoles {
    /// The least role of a class of operations.
    pub open spec fn role_of(self, operation: OperationPermission) -> String {
        match operation {
            OperationPermission::ReadDiagnostics => self.read_diagnostics,
            OperationPermission::ProvisionIsolatedWorkloads => self.provision_isolated_workloads,
            OperationPermission::InjectWorkloadFaults => self.inject_workload_faults,
            OperationPermission::AlterNodeState => self.alter_node_state,
            OperationPermission::SaturateCapacity => self.saturate_capacity,
            OperationPermission::ProbeExternalDestination => self.probe_external_destination,
        }
    }

    /// A copy of the least role of a class of operations.
    pub fn minimum_role(&self, operation: OperationPermission) -> (r: String)
        ensures
            r == self.role_of(operation),
    {
        match operation {
            OperationPermission::ReadDiagnostics => self.read_diagnostics.clone(),
            OperationPermission::ProvisionIsolatedWorkloads => {
                self.provision_isolated_workloads.clone()
            },
            OperationPermission::InjectWorkloadFaults => self.inject_workload_faults.clone(),
            OperationPermission::AlterNodeState => self.alter_node_state.clone(),
            OperationPermission::SaturateCapacity => self.saturate_capacity.clone(),
            OperationPermission::ProbeExternalDestination => {
                self.probe_external_destination.clone()
            },
        }
    }
}

impl Clone for MinimumRoles {
    fn clone(&self) -> (r: Self)
        ensures
            r == *self,
    {
        MinimumRoles {
            read_diagnostics: self.read_diagnostics.clone(),
            provision_isolated_workloads: self.provision_isolated_workloads.clone(),
            inject_workload_faults: self.inject_workload_faults.clone(),
            alter_node_state: self.alter_node_state.clone(),
            saturate_capacity: self.saturate_capacity.clone(),
            probe_external_destination: self.probe_external_destination.clone(),
        }
    }
}

impl Default for MinimumRoles {
    fn default() -> (r: Self)
        ensures
            forall|operation: OperationPermission| (#[trigger] r.role_of(operation))@.len() == 0,
    {
        MinimumRoles {
            read_diagnostics: String::new(),
            provision_isolated_workloads: String::new(),
            inject_workload_faults: String::new(),
            alter_node_state: String::new(),
            saturate_capacity: String::new(),
            probe_external_destination: String::new(),
        }
    }
}

/// What the server allows diagnostics and tests to do.
#[derive(Debug)]
pub struct ClusterTestPolicy {
    /// Whether the cluster's safety class is a protected one.
    pub protected: bool,
    /// Classes of operations that the server allows.
    pub allowed_operations: Vec<OperationPermission>,
    /// Whether a protected cluster may be changed all the same.
    pub allow_protected_mutation: bool,
    /// Longest lease of test resources, in seconds.
    pub max_lease_seconds: u64,
    /// External destinations that may be probed.
    pub external_probe_allowlist: Vec<String>,
    /// Least role of each class of operations.
    pub minimum_roles: MinimumRoles,
}

impl ClusterTestPolicy {
    /// Whether the server allows a class of operations.
    pub open spec fn allows(self, operation: OperationPermission) -> bool {
        self.allowed_operations@.contains(operation)
    }

    /// Whether two policies say the same.
    pub open spec fn agrees(self, other: ClusterTestPolicy) -> bool {
        &&& self.protected == other.protected
        &&& self.allowed_operations@ == other.allowed_operations@
        &&& self.allow_protected_mutation == other.allow_protected_mutation
        &&& self.max_lease_seconds == other.max_lease_seconds
        &&& self.external_probe_allowlist@ == other.external_probe_allowlist@
        &&& self.minimum_roles == other.minimum_roles
    }

    /// Whether the server allows a class of operations.
    pub fn is_allowed(&self, operation: OperationPermission) -> (r: bool)
        ensures
            r == self.allows(operation),
    {
        let mut i: usize = 0;
        while i < self.allowed_operations.len()
            invariant
                i <= self.allowed_operations.len(),
                forall|j: int| 0 <= j < i ==> self.allowed_operations@[j] != operation,
            decreases self.allowed_operations.len() - i,
        {
            if self.allowed_operations[i] == operation {
                return true;
            }
            i = i + 1;
        }
        false
    }
}

impl Clone for ClusterTestPolicy {
    fn clone(&self) -> (r: Self)
        ensures
            r.agrees(*self),
    {
        let mut allowed_operations: Vec<OperationPermission> = Vec::new();
        let mut i: usize = 0;
        while i < self.allowed_operations.len()
            invariant
                i <= self.allowed_operations.len(),
                allowed_operations@ == self.allowed_operations@.take(i as int),
            decreases self.allowed_operations.len() - i,
        {
            allowed_operations.push(self.allowed_operations[i]);
            proof {
                assert(self.allowed_operations@.take(i as int + 1)
                    == self.allowed_operations@.take(i as int).push(
                    self.allowed_operations@[i as int],
                ));
            }
            i = i + 1;
        }
        proof {
            assert(self.allowed_operations@.take(self.allowed_operations@.len() as int)
                == self.allowed_operations@);
        }
        ClusterTestPolicy {
            protected: self.protected,
            allowed_operations,
            allow_protected_mutation: self.allow_protected_mutation,
            max_lease_seconds: self.max_lease_seconds,
            external_probe_allowlist: copy_strings(&self.external_probe_allowlist),
            minimum_roles: self.minimum_roles.clone(),
        }
    }
}

/// Whether a policy allows nothing and names nothing.
pub open spec fn is_blank_policy(policy: ClusterTestPolicy) -> bool {
    &&& !policy.protected
    &&& policy.allowed_operations@.len() == 0
    &&& !policy.allow_protected_mutation
    &&& policy.max_lease_seconds == 0
    &&& policy.external_probe_allowlist@.len() == 0
    &&& forall|operation: OperationPermission|
        (#[trigger] policy.minimum_roles.role_of(operation))@.len() == 0
}

impl Default for ClusterTestPolicy {
    fn default() -> (r: Self)
        ensures
            is_blank_policy(r),
    {
        ClusterTestPolicy {
            protected: false,
            allowed_operations: Vec::new(),
            allow_protected_mutation: false,
            max_lease_seconds: 0,
            external_probe_allowlist: Vec::new(),
            minimum_roles: MinimumRoles::default(),
        }
    }
}

/// Server policy for one class of operations.
#[derive(Debug)]
pub struct OperationPolicyEvidence {
    /// The class of operations.
    pub operation: OperationPermission,
    /// Whether the server allows it.
    pub server_allowed: bool,
    /// Whether it may run on this cluster, given its safety class.
    pub protected_cluster_allowed: bool,
    /// The least role that it asks for.
    pub minimum_role: String,
    /// Whether the caller must acknowledge it.
    pub acknowledgement_required: bool,
}

/// The classes of operations in the order in which policy lists them.
pub open spec fn operation_at(i: int) -> OperationPermission {
    if i == 0 {
        OperationPermission::ReadDiagnostics
    } else if i == 1 {
        OperationPermission::ProvisionIsolatedWorkloads
    } else if i == 2 {
        OperationPermission::InjectWorkloadFaults
    } else if i == 3 {
        OperationPermission::AlterNodeState
    } else if i == 4 {
        OperationPermission::SaturateCapacity
    } else {
        OperationPermission::ProbeExternalDestination
    }
}

/// What policy says of a class of operations.
///
/// Reading is always allowed. Anything else needs the server's permission, and
/// on a protected cluster also permission to change it. Faults, node changes
/// and saturation ask for an acknowledgement.
pub open spec fn policy_of(
    policy: ClusterTestPolicy,
    operation: OperationPermission,
) -> OperationPolicyEvidence {
    let reads = operation == OperationPermission::ReadDiagnostics;
    OperationPolicyEvidence {
        operation,
        server_allowed: reads || policy.allows(operation),
        protected_cluster_allowed: reads || !policy.protected || policy.allow_protected_mutation,
        minimum_role: policy.minimum_roles.role_of(operation),
        acknowledgement_required: operation == OperationPermission::InjectWorkloadFaults
            || operation == OperationPermission::AlterNodeState || operation
            == OperationPermission::SaturateCapacity,
    }
}

/// What policy says of every class of operations, in order.
pub open spec fn policy_list(policy: ClusterTestPolicy) -> Seq<OperationPolicyEvidence> {
    Seq::new(6, |i: int| policy_of(policy, operation_at(i)))
}

fn operation_evidence(
    policy: &ClusterTestPolicy,
    operation: OperationPermission,
) -> (r: OperationPolicyEvidence)
    ensures
        r == policy_of(*policy, operation),
{
    let mutates_or_probes = operation != OperationPermission::ReadDiagnostics;
    OperationPolicyEvidence {
        operation,
        server_allowed: !mutates_or_probes || policy.is_allowed(operation),
        protected_cluster_allowed: !mutates_or_probes || !policy.protected
            || policy.allow_protected_mutation,
        minimum_role: policy.minimum_roles.minimum_role(operation),
        acknowledgement_required: matches!(
            operation,
            OperationPermission::InjectWorkloadFaults | OperationPermission::AlterNodeState
                | OperationPermission::SaturateCapacity
        ),
    }
}

/// List what policy says of every class of operations.
pub fn operation_policy(policy: &ClusterTestPolicy) -> (r: Vec<OperationPolicyEvidence>)
    ensures
        r@ == policy_list(*policy),
{
    let mut list: Vec<OperationPolicyEvidence> = Vec::new();
    list.push(operation_evidence(policy, OperationPermission::ReadDiagnostics));
    list.push(operation_evidence(policy, OperationPermission::ProvisionIsolatedWorkloads));
    list.push(operation_evidence(policy, OperationPermission::InjectWorkloadFaults));
    list.push(operation_evidence(policy, OperationPermission::AlterNodeState));
    list.push(operation_evidence(policy, OperationPermission::SaturateCapacity));
    list.push(operation_evidence(policy, OperationPermission::ProbeExternalDestination));
    proof {
        assert(list@ =~= policy_list(*policy));
    }
    list
}

/// Every class of operations is listed exactly once.
pub proof fn every_operation_is_listed_once(
    policy: ClusterTestPolicy,
    operation: OperationPermission,
) -> (at: int)
    ensures
        0 <= at < policy_list(policy).len(),
        policy_list(policy)[at].operation == operation,
        forall|i: int|
            0 <= i < policy_list(policy).len() && i != at ==> (#[trigger] policy_list(
                policy,
            )[i]).operation != operation,
{
    match operation {
        OperationPermission::ReadDiagnostics => 0,
        OperationPermission::ProvisionIsolatedWorkloads => 1,
        OperationPermission::InjectWorkloadFaults => 2,
        OperationPermission::AlterNodeState => 3,
        OperationPermission::SaturateCapacity => 4,
        OperationPermission::ProbeExternalDestination => 5,
    }
}

} // verus!
