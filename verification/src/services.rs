//! Services, their backends, the catalogue of endpoints and withdrawals.

use vstd::prelude::*;
use vstd::string::*;

use crate::ordered_map::OrderedMap;
use crate::text::{copy_strings, same_strings, same_text, strings};
use crate::value::{
    copy_list, copy_map, copy_optional, entry_views, optional_view, same_list, same_map,
    same_optional, views, Value,
};

verus! {

/// Address of a host.
#[derive(Debug, Clone, Copy, PartialEq, Eq, Structural)]
pub enum IpAddress {
    /// IPv4, as a number.
    V4(u32),
    /// IPv6, as a number.
    V6(u128),
}

/// Namespace-qualified identity of a service.
#[derive(Debug)]
pub struct ServiceId {
    /// Namespace of the service.
    pub namespace: String,
    /// Name of the service.
    pub name: String,
}

/// A service's identity as its namespace and name.
pub ghost struct ServiceName {
    /// Namespace.
    pub namespace: Seq<char>,
    /// Name.
    pub name: Seq<char>,
}

impl View for ServiceId {
    type V = ServiceName;

    open spec fn view(&self) -> ServiceName {
        ServiceName { namespace: self.namespace@, name: self.name@ }
    }
}

impl Value for ServiceId {
    fn same(&self, other: &ServiceId) -> (r: bool) {
        same_text(self.namespace.as_str(), other.namespace.as_str()) && same_text(
            self.name.as_str(),
            other.name.as_str(),
        )
    }

    fn copy(&self) -> (r: ServiceId) {
        ServiceId { namespace: self.namespace.clone(), name: self.name.clone() }
    }
}

/// The qualified text of a service's identity.
pub open spec fn qualified_text(id: ServiceName) -> Seq<char> {
    id.namespace + "__"@ + id.name
}

impl ServiceId {
    /// The identity of a service in a namespace.
    pub fn new(namespace: &str, name: &str) -> (r: Self)
        ensures
            r@ == (ServiceName { namespace: namespace@, name: name@ }),
    {
        ServiceId { namespace: namespace.to_owned(), name: name.to_owned() }
    }

    /// The identity as one text.
    pub fn qualified(&self) -> (r: String)
        ensures
            r@ == qualified_text(self@),
    {
        let mut out: String = self.namespace.clone();
        out.append("__");
        out.append(self.name.as_str());
        out
    }
}

/// A backend of a service.
#[derive(Debug)]
pub struct BackendInstance {
    /// Instance that serves.
    pub instance_id: String,
    /// Host that it runs on.
    pub node_ip: IpAddress,
    /// Port on that host.
    pub host_port: u16,
    /// Whether it passes its probes.
    pub healthy: bool,
    /// Whether it runs on this node.
    pub local: bool,
}

/// A backend as its facts.
pub ghost struct Backend {
    /// Instance.
    pub instance_id: Seq<char>,
    /// Host.
    pub node_ip: IpAddress,
    /// Port.
    pub host_port: u16,
    /// Health.
    pub healthy: bool,
    /// Locality.
    pub local: bool,
}

impl View for BackendInstance {
    type V = Backend;

    open spec fn view(&self) -> Backend {
        Backend {
            instance_id: self.instance_id@,
            node_ip: self.node_ip,
            host_port: self.host_port,
            healthy: self.healthy,
            local: self.local,
        }
    }
}

impl Value for BackendInstance {
    fn same(&self, other: &BackendInstance) -> (r: bool) {
        same_text(self.instance_id.as_str(), other.instance_id.as_str()) && self.node_ip
            == other.node_ip && self.host_port == other.host_port && self.healthy == other.healthy
            && self.local == other.local
    }

    fn copy(&self) -> (r: BackendInstance) {
        BackendInstance {
            instance_id: self.instance_id.clone(),
            node_ip: self.node_ip,
            host_port: self.host_port,
            healthy: self.healthy,
            local: self.local,
        }
    }
}

/// A list of names that may be left out.
#[derive(Debug)]
pub struct AllowList(pub Option<Vec<String>>);

impl View for AllowList {
    type V = Option<Seq<Seq<char>>>;

    open spec fn view(&self) -> Option<Seq<Seq<char>>> {
        match self.0 {
            Some(list) => Some(strings(list@)),
            None => None,
        }
    }
}

impl Value for AllowList {
    fn same(&self, other: &AllowList) -> (r: bool) {
        match (&self.0, &other.0) {
            (Some(a), Some(b)) => same_strings(a, b),
            (None, None) => true,
            _ => false,
        }
    }

    fn copy(&self) -> (r: AllowList) {
        match &self.0 {
            Some(list) => AllowList(Some(copy_strings(list))),
            None => AllowList(None),
        }
    }
}

/// A service with its allocation and backends.
#[derive(Debug)]
pub struct ServiceEntry {
    /// Namespace of the service.
    pub namespace: String,
    /// Name of the service.
    pub app_name: String,
    /// Virtual address, as a number.
    pub vip: u32,
    /// Port of the service.
    pub port: u16,
    /// Identity of the destination in the data path.
    pub app_id: u32,
    /// Callers that may connect; anyone if left out.
    pub allow_from: AllowList,
    /// Its backends.
    pub backends: Vec<BackendInstance>,
}

/// A service as its facts.
pub ghost struct Service {
    /// Namespace.
    pub namespace: Seq<char>,
    /// Name.
    pub app_name: Seq<char>,
    /// Virtual address.
    pub vip: u32,
    /// Port.
    pub port: u16,
    /// Destination identity.
    pub app_id: u32,
    /// Callers.
    pub allow_from: Option<Seq<Seq<char>>>,
    /// Backends.
    pub backends: Seq<Backend>,
}

impl Service {
    /// The service's identity.
    pub open spec fn id(self) -> ServiceName {
        ServiceName { namespace: self.namespace, name: self.app_name }
    }

    /// Whether some backend is a given instance.
    pub open spec fn has_instance(self, instance_id: Seq<char>) -> bool {
        exists|i: int|
            0 <= i < self.backends.len() && (#[trigger] self.backends[i]).instance_id
                == instance_id
    }
}

impl View for ServiceEntry {
    type V = Service;

    open spec fn view(&self) -> Service {
        Service {
            namespace: self.namespace@,
            app_name: self.app_name@,
            vip: self.vip,
            port: self.port,
            app_id: self.app_id,
            allow_from: self.allow_from@,
            backends: views(self.backends@),
        }
    }
}

impl Value for ServiceEntry {
    fn same(&self, other: &ServiceEntry) -> (r: bool) {
        same_text(self.namespace.as_str(), other.namespace.as_str()) && same_text(
            self.app_name.as_str(),
            other.app_name.as_str(),
        ) && self.vip == other.vip && self.port == other.port && self.app_id == other.app_id
            && self.allow_from.same(&other.allow_from) && same_list(
            &self.backends,
            &other.backends,
        )
    }

    fn copy(&self) -> (r: ServiceEntry) {
        ServiceEntry {
            namespace: self.namespace.clone(),
            app_name: self.app_name.clone(),
            vip: self.vip,
            port: self.port,
            app_id: self.app_id,
            allow_from: self.allow_from.copy(),
            backends: copy_list(&self.backends),
        }
    }
}

impl ServiceEntry {
    /// Whether the entry is the service of an identity.
    pub fn is_service(&self, namespace: &str, name: &str) -> (r: bool)
        ensures
            r == (self@.id() == (ServiceName { namespace: namespace@, name: name@ })),
    {
        same_text(self.namespace.as_str(), namespace) && same_text(self.app_name.as_str(), name)
    }

    /// Whether some backend is a given instance.
    pub fn serves_from(&self, instance_id: &str) -> (r: bool)
        ensures
            r == self@.has_instance(instance_id@),
    {
        let mut i: usize = 0;
        while i < self.backends.len()
            invariant
                i <= self.backends.len(),
                forall|j: int|
                    0 <= j < i ==> (#[trigger] self@.backends[j]).instance_id != instance_id@,
            decreases self.backends.len() - i,
        {
            proof {
                assert(self@.backends[i as int] == self.backends@[i as int]@);
            }
            if same_text(self.backends[i].instance_id.as_str(), instance_id) {
                return true;
            }
            i = i + 1;
        }
        false
    }
}

/// Execution that a remote backend belongs to.
#[derive(Debug)]
pub struct RuntimeExecution {
    /// Its instance.
    pub instance_id: String,
    /// Fingerprint of its generation.
    pub generation: String,
}

/// An execution as its facts.
pub ghost struct Execution {
    /// Instance.
    pub instance_id: Seq<char>,
    /// Generation.
    pub generation: Seq<char>,
}

impl View for RuntimeExecution {
    type V = Execution;

    open spec fn view(&self) -> Execution {
        Execution { instance_id: self.instance_id@, generation: self.generation@ }
    }
}

impl Value for RuntimeExecution {
    fn same(&self, other: &RuntimeExecution) -> (r: bool) {
        same_text(self.instance_id.as_str(), other.instance_id.as_str()) && same_text(
            self.generation.as_str(),
            other.generation.as_str(),
        )
    }

    fn copy(&self) -> (r: RuntimeExecution) {
        RuntimeExecution {
            instance_id: self.instance_id.clone(),
            generation: self.generation.clone(),
        }
    }
}

/// A backend that the catalogue lists.
#[derive(Debug)]
pub struct CatalogBackend {
    /// Original execution, where it is known.
    pub execution: Option<RuntimeExecution>,
    /// Node that runs it.
    pub node_id: String,
    /// Host that it runs on.
    pub node_ip: IpAddress,
    /// Port on that host.
    pub host_port: u16,
    /// Whether it passes its probes.
    pub healthy: bool,
}

/// A catalogued backend as its facts.
pub ghost struct Endpoint {
    /// Execution.
    pub execution: Option<Execution>,
    /// Node.
    pub node_id: Seq<char>,
    /// Host.
    pub node_ip: IpAddress,
    /// Port.
    pub host_port: u16,
    /// Health.
    pub healthy: bool,
}

impl View for CatalogBackend {
    type V = Endpoint;

    open spec fn view(&self) -> Endpoint {
        Endpoint {
            execution: optional_view(self.execution),
            node_id: self.node_id@,
            node_ip: self.node_ip,
            host_port: self.host_port,
            healthy: self.healthy,
        }
    }
}

impl Value for CatalogBackend {
    fn same(&self, other: &CatalogBackend) -> (r: bool) {
        same_optional(&self.execution, &other.execution) && same_text(
            self.node_id.as_str(),
            other.node_id.as_str(),
        ) && self.node_ip == other.node_ip && self.host_port == other.host_port && self.healthy
            == other.healthy
    }

    fn copy(&self) -> (r: CatalogBackend) {
        CatalogBackend {
            execution: copy_optional(&self.execution),
            node_id: self.node_id.clone(),
            node_ip: self.node_ip,
            host_port: self.host_port,
            healthy: self.healthy,
        }
    }
}

/// A service that the catalogue lists.
#[derive(Debug)]
pub struct CatalogService {
    /// Virtual address, as a number.
    pub vip: u32,
    /// Port of the service.
    pub port: u16,
    /// Its backends.
    pub backends: Vec<CatalogBackend>,
}

/// A catalogued service as its facts.
pub ghost struct Listing {
    /// Virtual address.
    pub vip: u32,
    /// Port.
    pub port: u16,
    /// Backends.
    pub backends: Seq<Endpoint>,
}

impl View for CatalogService {
    type V = Listing;

    open spec fn view(&self) -> Listing {
        Listing { vip: self.vip, port: self.port, backends: views(self.backends@) }
    }
}

impl Value for CatalogService {
    fn same(&self, other: &CatalogService) -> (r: bool) {
        self.vip == other.vip && self.port == other.port && same_list(
            &self.backends,
            &other.backends,
        )
    }

    fn copy(&self) -> (r: CatalogService) {
        CatalogService { vip: self.vip, port: self.port, backends: copy_list(&self.backends) }
    }
}

/// The committed catalogue of endpoints, by qualified service name.
#[derive(Debug)]
pub struct EndpointCatalog {
    /// The services.
    pub services: OrderedMap<String, CatalogService>,
}

impl View for EndpointCatalog {
    type V = Seq<(Seq<char>, Listing)>;

    open spec fn view(&self) -> Seq<(Seq<char>, Listing)> {
        entry_views(self.services)
    }
}

impl Value for EndpointCatalog {
    fn same(&self, other: &EndpointCatalog) -> (r: bool) {
        same_map(&self.services, &other.services)
    }

    fn copy(&self) -> (r: EndpointCatalog) {
        EndpointCatalog { services: copy_map(&self.services) }
    }
}

/// A service that a withdrawal removes.
#[derive(Debug)]
pub struct WithdrawnService {
    /// What is removed of it.
    pub service: CatalogService,
    /// Whether its virtual address retires too.
    pub retire_vip: bool,
}

/// A withdrawn service as its facts.
pub ghost struct Removal {
    /// What is removed.
    pub service: Listing,
    /// Whether the address retires.
    pub retire_vip: bool,
}

impl View for WithdrawnService {
    type V = Removal;

    open spec fn view(&self) -> Removal {
        Removal { service: self.service@, retire_vip: self.retire_vip }
    }
}

impl Value for WithdrawnService {
    fn same(&self, other: &WithdrawnService) -> (r: bool) {
        self.service.same(&other.service) && self.retire_vip == other.retire_vip
    }

    fn copy(&self) -> (r: WithdrawnService) {
        WithdrawnService { service: self.service.copy(), retire_vip: self.retire_vip }
    }
}

/// An instruction to withdraw endpoints.
#[derive(Debug)]
pub struct EndpointWithdrawalInstruction {
    /// Generation that removed them.
    pub generation: u64,
    /// What is removed, by qualified service name.
    pub services: OrderedMap<String, WithdrawnService>,
}

/// A withdrawal as its facts.
pub ghost struct Withdrawal {
    /// Generation.
    pub generation: u64,
    /// Removals, by service.
    pub services: Seq<(Seq<char>, Removal)>,
}

impl View for EndpointWithdrawalInstruction {
    type V = Withdrawal;

    open spec fn view(&self) -> Withdrawal {
        Withdrawal { generation: self.generation, services: entry_views(self.services) }
    }
}

impl Value for EndpointWithdrawalInstruction {
    fn same(&self, other: &EndpointWithdrawalInstruction) -> (r: bool) {
        self.generation == other.generation && same_map(&self.services, &other.services)
    }

    fn copy(&self) -> (r: EndpointWithdrawalInstruction) {
        EndpointWithdrawalInstruction {
            generation: self.generation,
            services: copy_map(&self.services),
        }
    }
}

/// Ingress configuration of a service.
#[derive(Debug)]
pub struct IngressAssignment {
    /// Namespace of the service.
    pub namespace: String,
    /// Name of the service.
    pub name: String,
    /// Its configuration as a document.
    pub config: String,
}

/// An ingress assignment as its facts.
pub ghost struct Ingress {
    /// Service.
    pub service: ServiceName,
    /// Configuration.
    pub config: Seq<char>,
}

impl View for IngressAssignment {
    type V = Ingress;

    open spec fn view(&self) -> Ingress {
        Ingress {
            service: ServiceName { namespace: self.namespace@, name: self.name@ },
            config: self.config@,
        }
    }
}

impl Value for IngressAssignment {
    fn same(&self, other: &IngressAssignment) -> (r: bool) {
        same_text(self.namespace.as_str(), other.namespace.as_str()) && same_text(
            self.name.as_str(),
            other.name.as_str(),
        ) && same_text(self.config.as_str(), other.config.as_str())
    }

    fn copy(&self) -> (r: IngressAssignment) {
        IngressAssignment {
            namespace: self.namespace.clone(),
            name: self.name.clone(),
            config: self.config.clone(),
        }
    }
}

} // verus!
