//! Original cluster publication attempts retained until confirmed withdrawal.

use vstd::prelude::*;
use vstd::string::*;

use crate::ordered_map::{key_index, OrderedMap};
use crate::services::{
    CatalogBackend, CatalogService, Endpoint, EndpointCatalog, EndpointWithdrawalInstruction,
    Ingress, IngressAssignment, Listing, Removal, Service, ServiceEntry, ServiceName, Withdrawal,
    WithdrawnService,
};
use crate::text::same_text;
use crate::value::{copy_list, entry_views, same_list, same_optional, same_part, views, Value};

verus! {

/// Most publications, and most receipts, that are retained.
pub const MAX_PUBLICATIONS: usize = 1024;

/// Most exposures that are retained.
pub const MAX_EXPOSURES: usize = 65_536;

/// Stable enrolment identity; a rotating certificate is not a cluster
/// identity.
#[derive(Debug)]
pub struct ConsumerIdentity {
    /// Enrolled consumer responsible for these publication attempts.
    pub node_id: String,
    /// Fingerprint of the cluster trust identity established at enrolment.
    pub cluster_identity: [u8; 32],
}

/// An enrolment identity as its facts.
pub ghost struct Identity {
    /// Node.
    pub node_id: Seq<char>,
    /// Cluster.
    pub cluster_identity: Seq<u8>,
}

impl View for ConsumerIdentity {
    type V = Identity;

    open spec fn view(&self) -> Identity {
        Identity { node_id: self.node_id@, cluster_identity: self.cluster_identity@ }
    }
}

impl Value for ConsumerIdentity {
    fn same(&self, other: &ConsumerIdentity) -> (r: bool) {
        if !same_text(self.node_id.as_str(), other.node_id.as_str()) {
            return false;
        }
        let mut i: usize = 0;
        while i < 32
            invariant
                i <= 32,
                forall|j: int| 0 <= j < i ==> self.cluster_identity@[j]
                    == other.cluster_identity@[j],
            decreases 32 - i,
        {
            if self.cluster_identity[i] != other.cluster_identity[i] {
                return false;
            }
            i = i + 1;
        }
        proof {
            assert(self.cluster_identity@ =~= other.cluster_identity@);
        }
        true
    }

    fn copy(&self) -> (r: ConsumerIdentity) {
        ConsumerIdentity { node_id: self.node_id.clone(), cluster_identity: self.cluster_identity }
    }
}

/// One attempted publication, including the original remote executions.
#[derive(Debug)]
pub struct ConsumerPublication {
    /// Committed catalogue generation; zero can represent only an empty
    /// catalogue.
    pub generation: u64,
    /// Original committed catalogue.
    pub catalog: EndpointCatalog,
    /// Actual proposed merged local and remote service view.
    pub effective_services: Vec<ServiceEntry>,
    /// Original ingress configuration for this attempted view.
    pub ingress: Vec<IngressAssignment>,
}

/// A publication as its facts.
pub ghost struct Publication {
    /// Generation.
    pub generation: u64,
    /// Catalogue, by service.
    pub catalog: Seq<(Seq<char>, Listing)>,
    /// Effective services.
    pub effective: Seq<Service>,
    /// Ingress.
    pub ingress: Seq<Ingress>,
}

impl View for ConsumerPublication {
    type V = Publication;

    open spec fn view(&self) -> Publication {
        Publication {
            generation: self.generation,
            catalog: self.catalog@,
            effective: views(self.effective_services@),
            ingress: views(self.ingress@),
        }
    }
}

impl Value for ConsumerPublication {
    fn same(&self, other: &ConsumerPublication) -> (r: bool) {
        self.generation == other.generation && self.catalog.same(&other.catalog) && same_list(
            &self.effective_services,
            &other.effective_services,
        ) && same_list(&self.ingress, &other.ingress)
    }

    fn copy(&self) -> (r: ConsumerPublication) {
        ConsumerPublication {
            generation: self.generation,
            catalog: self.catalog.copy(),
            effective_services: copy_list(&self.effective_services),
            ingress: copy_list(&self.ingress),
        }
    }
}

/// Whether a catalogued endpoint is one that a withdrawal removes: the same
/// place, and the same execution where the withdrawal names one.
pub open spec fn removes_endpoint(original: Endpoint, candidate: Endpoint) -> bool {
    &&& candidate.node_id == original.node_id
    &&& candidate.node_ip == original.node_ip
    &&& candidate.host_port == original.host_port
    &&& original.execution is None || candidate.execution == original.execution
}

/// Whether a catalogued service still lists an endpoint that is removed.
pub open spec fn lists_removed(listing: Listing, removal: Removal) -> bool {
    exists|i: int, j: int|
        0 <= i < listing.backends.len() && 0 <= j < removal.service.backends.len()
            && removes_endpoint(
            #[trigger] removal.service.backends[j],
            #[trigger] listing.backends[i],
        )
}

/// Whether a view still uses a virtual address that is retired.
pub open spec fn uses_retired_address(effective: Seq<Service>, removal: Removal) -> bool {
    removal.retire_vip && exists|i: int|
        0 <= i < effective.len() && (#[trigger] effective[i]).vip == removal.service.vip
}

/// Whether some catalogued service still lists an endpoint that is removed.
pub open spec fn catalog_lists_removed(
    catalog: Seq<(Seq<char>, Listing)>,
    removal: Removal,
) -> bool {
    exists|i: int| 0 <= i < catalog.len() && lists_removed((#[trigger] catalog[i]).1, removal)
}

/// Whether a publication still exposes what one removal removes.
pub open spec fn exposes_removal(publication: Publication, removal: Removal) -> bool {
    uses_retired_address(publication.effective, removal) || catalog_lists_removed(
        publication.catalog,
        removal,
    )
}

/// Whether a publication still exposes anything that a withdrawal removes.
pub open spec fn exposes(publication: Publication, withdrawal: Withdrawal) -> bool {
    exists|i: int|
        0 <= i < withdrawal.services.len() && exposes_removal(
            publication,
            (#[trigger] withdrawal.services[i]).1,
        )
}

fn endpoint_is_removed(original: &CatalogBackend, candidate: &CatalogBackend) -> (r: bool)
    ensures
        r == removes_endpoint(original@, candidate@),
{
    same_text(candidate.node_id.as_str(), original.node_id.as_str()) && candidate.node_ip
        == original.node_ip && candidate.host_port == original.host_port && (
    original.execution.is_none() || same_optional(&candidate.execution, &original.execution))
}

fn any_endpoint_removed(service: &CatalogService, removed: &WithdrawnService) -> (r: bool)
    ensures
        r == lists_removed(service@, removed@),
{
    let mut i: usize = 0;
    while i < service.backends.len()
        invariant
            i <= service.backends.len(),
            forall|a: int, b: int|
                0 <= a < i && 0 <= b < removed@.service.backends.len() ==> !removes_endpoint(
                    #[trigger] removed@.service.backends[b],
                    #[trigger] service@.backends[a],
                ),
        decreases service.backends.len() - i,
    {
        let mut j: usize = 0;
        while j < removed.service.backends.len()
            invariant
                i < service.backends.len(),
                j <= removed.service.backends.len(),
                forall|b: int|
                    0 <= b < j ==> !removes_endpoint(
                        #[trigger] removed@.service.backends[b],
                        service@.backends[i as int],
                    ),
            decreases removed.service.backends.len() - j,
        {
            proof {
                assert(removed@.service.backends[j as int] == removed.service.backends@[j as int]@);
                assert(service@.backends[i as int] == service.backends@[i as int]@);
            }
            if endpoint_is_removed(&removed.service.backends[j], &service.backends[i]) {
                return true;
            }
            j = j + 1;
        }
        i = i + 1;
    }
    false
}

impl ConsumerPublication {
    fn exposes_removed(&self, removed: &WithdrawnService) -> (r: bool)
        ensures
            r == exposes_removal(self@, removed@),
    {
        if removed.retire_vip {
            let mut i: usize = 0;
            while i < self.effective_services.len()
                invariant
                    i <= self.effective_services.len(),
                    removed.retire_vip,
                    forall|j: int|
                        0 <= j < i ==> (#[trigger] self@.effective[j]).vip
                            != removed@.service.vip,
                decreases self.effective_services.len() - i,
            {
                proof {
                    assert(self@.effective[i as int] == self.effective_services@[i as int]@);
                }
                if self.effective_services[i].vip == removed.service.vip {
                    return true;
                }
                i = i + 1;
            }
        }
        let mut k: usize = 0;
        while k < self.catalog.services.entries.len()
            invariant
                k <= self.catalog.services.entries.len(),
                !uses_retired_address(self@.effective, removed@),
                forall|j: int|
                    0 <= j < k ==> !lists_removed((#[trigger] self@.catalog[j]).1, removed@),
            decreases self.catalog.services.entries.len() - k,
        {
            proof {
                assert(self@.catalog[k as int].1 == self.catalog.services.entries@[k as int].1@);
            }
            if any_endpoint_removed(&self.catalog.services.entries[k].1, removed) {
                return true;
            }
            k = k + 1;
        }
        false
    }

    /// Whether this view still exposes anything the withdrawal removes.
    pub fn intersects(&self, withdrawal: &EndpointWithdrawalInstruction) -> (r: bool)
        ensures
            r == exposes(self@, withdrawal@),
    {
        let mut i: usize = 0;
        while i < withdrawal.services.entries.len()
            invariant
                i <= withdrawal.services.entries.len(),
                forall|j: int|
                    0 <= j < i ==> !exposes_removal(
                        self@,
                        (#[trigger] withdrawal@.services[j]).1,
                    ),
            decreases withdrawal.services.entries.len() - i,
        {
            proof {
                assert(withdrawal@.services[i as int].1
                    == withdrawal.services.entries@[i as int].1@);
            }
            if self.exposes_removed(&withdrawal.services.entries[i].1) {
                return true;
            }
            i = i + 1;
        }
        false
    }
}

/// Durable permission for replacing a consumer's published view.
///
/// The publications are every view that may still be exposed: the newest one
/// in the kernel and userspace, earlier ones through requests that captured
/// their backends.
#[derive(Debug, Clone, Copy, PartialEq, Eq, Structural)]
pub enum ConsumerPhase {
    /// The newest publication may have partially reached its readers.
    Publishing,
    /// The newest publication is complete; earlier ones may still hold
    /// requests.
    Active,
    /// No replacement may publish until original exposures have drained.
    Withdrawing,
    /// Every original exposure has withdrawn; compaction is permitted.
    Withdrawn,
}

impl Default for ConsumerPhase {
    fn default() -> (r: Self)
        ensures
            r == ConsumerPhase::Withdrawing,
    {
        ConsumerPhase::Withdrawing
    }
}

/// Receipt progress; only ready receipts may be sent or forgotten.
#[derive(Debug, Clone, Copy, PartialEq, Eq, Structural)]
pub enum ReceiptPhase {
    /// Original exposures still require local withdrawal proof.
    Pending,
    /// Original exposures are withdrawn; retry until acknowledged.
    Ready,
}

/// Exact original instruction retained across lost responses and restarts.
#[derive(Debug)]
pub struct ConsumerReceipt {
    /// Original committed withdrawal, including its destinations.
    pub withdrawal: EndpointWithdrawalInstruction,
    /// Whether local withdrawal has been confirmed.
    pub phase: ReceiptPhase,
}

/// A receipt as its facts.
pub ghost struct Receipt {
    /// Withdrawal.
    pub withdrawal: Withdrawal,
    /// Progress.
    pub phase: ReceiptPhase,
}

impl View for ConsumerReceipt {
    type V = Receipt;

    open spec fn view(&self) -> Receipt {
        Receipt { withdrawal: self.withdrawal@, phase: self.phase }
    }
}

impl Value for ConsumerReceipt {
    fn same(&self, other: &ConsumerReceipt) -> (r: bool) {
        self.withdrawal.same(&other.withdrawal) && self.phase == other.phase
    }

    fn copy(&self) -> (r: ConsumerReceipt) {
        ConsumerReceipt { withdrawal: self.withdrawal.copy(), phase: self.phase }
    }
}

/// Bounded, append-only evidence. Saving this state does not prove publication
/// or drainage.
#[derive(Debug)]
pub struct ConsumerOwnership {
    /// Identity that must perform or recover these obligations.
    pub identity: ConsumerIdentity,
    /// Original attempts, including attempts whose completion is uncertain.
    pub publications: Vec<ConsumerPublication>,
    /// Current publication or withdrawal permission.
    pub phase: ConsumerPhase,
    /// Original instructions awaiting local proof or a confirmed receipt.
    pub receipts: OrderedMap<u64, ConsumerReceipt>,
}

/// A consumer's ownership as its facts.
pub ghost struct Ownership {
    /// Identity.
    pub identity: Identity,
    /// Attempts, oldest first.
    pub publications: Seq<Publication>,
    /// Permission.
    pub phase: ConsumerPhase,
    /// Receipts, by generation.
    pub receipts: Map<u64, Receipt>,
    /// Receipts in ascending generation.
    pub listed: Seq<(u64, Receipt)>,
}

impl View for ConsumerOwnership {
    type V = Ownership;

    open spec fn view(&self) -> Ownership {
        Ownership {
            identity: self.identity@,
            publications: views(self.publications@),
            phase: self.phase,
            receipts: self.receipts@.map_values(|r: ConsumerReceipt| r@),
            listed: self.receipts.entries@.map_values(|e: (u64, ConsumerReceipt)| (e.0, e.1@)),
        }
    }
}

/// What a check says: nothing, or a complaint.
pub open spec fn complaint_of(r: Result<(), String>) -> Option<Seq<char>> {
    match r {
        Ok(()) => None,
        Err(text) => Some(text@),
    }
}

fn complain(text: &str) -> (r: Result<(), String>)
    ensures
        complaint_of(r) == Some(text@),
{
    Err(text.to_owned())
}

/// What the service map and the routing table say of a publication.
#[derive(Debug)]
pub struct PublicationChecks {
    /// Whether the catalogue's allocations are sound.
    pub allocations: Result<(), String>,
    /// Whether the effective services form a service map.
    pub snapshot: Result<(), String>,
    /// Whether routes can be built of the effective services and the ingress.
    pub routing: Result<(), String>,
    /// The services that the catalogue gives this consumer.
    pub remote: Vec<ServiceEntry>,
}

/// What the surrounding agent says of an ownership.
#[derive(Debug)]
pub struct ConsumerChecks {
    /// Whether the consumer's name is a node name.
    pub node_id: Result<(), String>,
    /// Whether the allocations of each receipt's withdrawal are sound.
    pub receipts: Vec<Result<(), String>>,
    /// What is said of each publication.
    pub publications: Vec<PublicationChecks>,
}

/// The exposures of a catalogue: each service, and each of its backends.
pub open spec fn catalog_exposures(catalog: Seq<(Seq<char>, Listing)>) -> nat
    decreases catalog.len(),
{
    if catalog.len() == 0 {
        0
    } else {
        catalog_exposures(catalog.drop_last()) + 1 + catalog.last().1.backends.len()
    }
}

/// The exposures of a service view.
pub open spec fn effective_exposures(effective: Seq<Service>) -> nat
    decreases effective.len(),
{
    if effective.len() == 0 {
        0
    } else {
        effective_exposures(effective.drop_last()) + 1 + effective.last().backends.len()
    }
}

/// The exposures of a withdrawal.
pub open spec fn withdrawal_exposures(services: Seq<(Seq<char>, Removal)>) -> nat
    decreases services.len(),
{
    if services.len() == 0 {
        0
    } else {
        withdrawal_exposures(services.drop_last()) + 1
            + services.last().1.service.backends.len()
    }
}

proof fn catalog_exposures_grow(catalog: Seq<(Seq<char>, Listing)>, i: int)
    requires
        0 <= i <= catalog.len(),
    ensures
        catalog_exposures(catalog.take(i)) <= catalog_exposures(catalog),
    decreases catalog.len() - i,
{
    if i < catalog.len() {
        catalog_exposures_grow(catalog, i + 1);
        assert(catalog.take(i + 1).drop_last() =~= catalog.take(i));
    } else {
        assert(catalog.take(i) =~= catalog);
    }
}

proof fn effective_exposures_grow(effective: Seq<Service>, i: int)
    requires
        0 <= i <= effective.len(),
    ensures
        effective_exposures(effective.take(i)) <= effective_exposures(effective),
    decreases effective.len() - i,
{
    if i < effective.len() {
        effective_exposures_grow(effective, i + 1);
        assert(effective.take(i + 1).drop_last() =~= effective.take(i));
    } else {
        assert(effective.take(i) =~= effective);
    }
}

proof fn withdrawal_exposures_grow(services: Seq<(Seq<char>, Removal)>, i: int)
    requires
        0 <= i <= services.len(),
    ensures
        withdrawal_exposures(services.take(i)) <= withdrawal_exposures(services),
    decreases services.len() - i,
{
    if i < services.len() {
        withdrawal_exposures_grow(services, i + 1);
        assert(services.take(i + 1).drop_last() =~= services.take(i));
    } else {
        assert(services.take(i) =~= services);
    }
}

fn add_exposure(count: usize, backends: usize) -> (r: Option<usize>)
    requires
        count <= MAX_EXPOSURES,
    ensures
        r is Some <==> count + 1 + backends <= MAX_EXPOSURES,
        r is Some ==> r->0 == count + 1 + backends,
{
    if count >= MAX_EXPOSURES || backends > MAX_EXPOSURES - count - 1 {
        None
    } else {
        Some(count + 1 + backends)
    }
}

fn add_catalog(count: usize, catalog: &EndpointCatalog) -> (r: Option<usize>)
    requires
        count <= MAX_EXPOSURES,
    ensures
        r is Some <==> count + catalog_exposures(catalog@) <= MAX_EXPOSURES,
        r is Some ==> r->0 == count + catalog_exposures(catalog@),
{
    let mut total: usize = count;
    let mut i: usize = 0;
    proof {
        assert(catalog@.take(0) =~= Seq::<(Seq<char>, Listing)>::empty());
    }
    while i < catalog.services.entries.len()
        invariant
            i <= catalog.services.entries.len(),
            total <= MAX_EXPOSURES,
            total == count + catalog_exposures(catalog@.take(i as int)),
        decreases catalog.services.entries.len() - i,
    {
        proof {
            assert(catalog@.take(i as int + 1).drop_last() =~= catalog@.take(i as int));
            assert(catalog@.take(i as int + 1).last().1
                == catalog.services.entries@[i as int].1@);
            catalog_exposures_grow(catalog@, i as int + 1);
            assert(views(catalog.services.entries@[i as int].1.backends@).len()
                == catalog.services.entries@[i as int].1.backends@.len());
        }
        match add_exposure(total, catalog.services.entries[i].1.backends.len()) {
            Some(more) => {
                total = more;
            },
            None => {
                return None;
            },
        }
        i = i + 1;
    }
    proof {
        assert(catalog@.take(catalog@.len() as int) =~= catalog@);
    }
    Some(total)
}

fn add_effective(count: usize, effective: &Vec<ServiceEntry>) -> (r: Option<usize>)
    requires
        count <= MAX_EXPOSURES,
    ensures
        r is Some <==> count + effective_exposures(views(effective@)) <= MAX_EXPOSURES,
        r is Some ==> r->0 == count + effective_exposures(views(effective@)),
{
    let ghost all = views(effective@);
    let mut total: usize = count;
    let mut i: usize = 0;
    proof {
        assert(all.take(0) =~= Seq::<Service>::empty());
    }
    while i < effective.len()
        invariant
            i <= effective.len(),
            all == views(effective@),
            total <= MAX_EXPOSURES,
            total == count + effective_exposures(all.take(i as int)),
        decreases effective.len() - i,
    {
        proof {
            assert(all.take(i as int + 1).drop_last() =~= all.take(i as int));
            assert(all.take(i as int + 1).last() == effective@[i as int]@);
            effective_exposures_grow(all, i as int + 1);
            assert(views(effective@[i as int].backends@).len()
                == effective@[i as int].backends@.len());
        }
        match add_exposure(total, effective[i].backends.len()) {
            Some(more) => {
                total = more;
            },
            None => {
                return None;
            },
        }
        i = i + 1;
    }
    proof {
        assert(all.take(all.len() as int) =~= all);
    }
    Some(total)
}

fn add_withdrawal(count: usize, withdrawal: &EndpointWithdrawalInstruction) -> (r: Option<usize>)
    requires
        count <= MAX_EXPOSURES,
    ensures
        r is Some <==> count + withdrawal_exposures(withdrawal@.services) <= MAX_EXPOSURES,
        r is Some ==> r->0 == count + withdrawal_exposures(withdrawal@.services),
{
    let ghost all = withdrawal@.services;
    let mut total: usize = count;
    let mut i: usize = 0;
    proof {
        assert(all.take(0) =~= Seq::<(Seq<char>, Removal)>::empty());
    }
    while i < withdrawal.services.entries.len()
        invariant
            i <= withdrawal.services.entries.len(),
            all == withdrawal@.services,
            total <= MAX_EXPOSURES,
            total == count + withdrawal_exposures(all.take(i as int)),
        decreases withdrawal.services.entries.len() - i,
    {
        proof {
            assert(all.take(i as int + 1).drop_last() =~= all.take(i as int));
            assert(all.take(i as int + 1).last().1
                == withdrawal.services.entries@[i as int].1@);
            withdrawal_exposures_grow(all, i as int + 1);
            assert(views(withdrawal.services.entries@[i as int].1.service.backends@).len()
                == withdrawal.services.entries@[i as int].1.service.backends@.len());
        }
        match add_exposure(total, withdrawal.services.entries[i].1.service.backends.len()) {
            Some(more) => {
                total = more;
            },
            None => {
                return None;
            },
        }
        i = i + 1;
    }
    proof {
        assert(all.take(all.len() as int) =~= all);
    }
    Some(total)
}

/// The first service of an identity in a view, if there is one.
pub open spec fn resolved(effective: Seq<Service>, id: ServiceName) -> Option<Service>
    decreases effective.len(),
{
    if effective.len() == 0 {
        None
    } else if effective[0].id() == id {
        Some(effective[0])
    } else {
        resolved(effective.skip(1), id)
    }
}

/// Whether a service stands for an expected one: at the same address and port,
/// with all of its backends.
pub open spec fn covers(actual: Service, expected: Service) -> bool {
    &&& actual.vip == expected.vip
    &&& actual.port == expected.port
    &&& forall|i: int|
        0 <= i < expected.backends.len() ==> actual.backends.contains(
            #[trigger] expected.backends[i],
        )
}

/// The complaint about a view that does not show every expected service, in
/// the order of the expected ones.
pub open spec fn remote_complaint(
    effective: Seq<Service>,
    remote: Seq<Service>,
) -> Option<Seq<char>>
    decreases remote.len(),
{
    if remote.len() == 0 {
        None
    } else {
        match remote_complaint(effective, remote.drop_last()) {
            Some(complaint) => Some(complaint),
            None => match resolved(effective, remote.last().id()) {
                None => Some("effective view omits a catalogue service"@),
                Some(actual) => if covers(actual, remote.last()) {
                    None
                } else {
                    Some("effective view conflicts with original catalogue"@)
                },
            },
        }
    }
}

/// Whether two assignments are of one service.
pub open spec fn repeats_ingress(ingress: Seq<Ingress>) -> bool {
    exists|i: int, j: int|
        0 <= i < j < ingress.len() && (#[trigger] ingress[i]).service == (
        #[trigger] ingress[j]).service
}

/// The complaint about a publication, given the exposures before it; or the
/// exposures with it.
pub open spec fn publication_check(
    publication: Publication,
    checks: PublicationChecks,
    exposures: nat,
) -> Result<nat, Seq<char>> {
    let total = exposures + catalog_exposures(publication.catalog) + effective_exposures(
        publication.effective,
    );
    if total > MAX_EXPOSURES {
        Err("consumer exposure capacity exhausted"@)
    } else if checks.allocations is Err {
        Err(checks.allocations->Err_0@)
    } else if publication.generation == 0 && publication.catalog.len() > 0 {
        Err("nonempty catalogue has no committed generation"@)
    } else if checks.snapshot is Err {
        Err(checks.snapshot->Err_0@)
    } else if repeats_ingress(publication.ingress) {
        Err("duplicate consumer ingress assignment"@)
    } else if checks.routing is Err {
        Err(checks.routing->Err_0@)
    } else {
        match remote_complaint(publication.effective, views(checks.remote@)) {
            Some(complaint) => Err(complaint),
            None => Ok(total),
        }
    }
}

/// Whether a receipt's generation is one that the last publication overtook,
/// and its withdrawal that of this generation, with something to withdraw.
pub open spec fn sound_receipt(
    generation: u64,
    receipt: Receipt,
    publications: Seq<Publication>,
) -> bool {
    &&& generation != 0
    &&& generation == receipt.withdrawal.generation
    &&& publications.len() > 0
    &&& generation < publications.last().generation
    &&& receipt.withdrawal.services.len() > 0
}

/// The exposures of the first receipts, or the first complaint about them.
pub open spec fn receipts_check(
    receipts: Seq<(u64, Receipt)>,
    checks: Seq<Result<(), String>>,
    publications: Seq<Publication>,
) -> Result<nat, Seq<char>>
    decreases receipts.len(),
{
    if receipts.len() == 0 {
        Ok(0)
    } else {
        match receipts_check(receipts.drop_last(), checks, publications) {
            Err(complaint) => Err(complaint),
            Ok(exposures) => {
                let (generation, receipt) = receipts.last();
                let check = checks[receipts.len() - 1];
                let total = exposures + withdrawal_exposures(receipt.withdrawal.services);
                if !sound_receipt(generation, receipt, publications) {
                    Err("invalid consumer withdrawal generation"@)
                } else if check is Err {
                    Err(check->Err_0@)
                } else if total > MAX_EXPOSURES {
                    Err("consumer exposure capacity exhausted"@)
                } else {
                    Ok(total)
                }
            },
        }
    }
}

/// The exposures with the first publications, or the first complaint about
/// them.
pub open spec fn publications_check(
    publications: Seq<Publication>,
    checks: Seq<PublicationChecks>,
    exposures: nat,
) -> Result<nat, Seq<char>>
    decreases publications.len(),
{
    if publications.len() == 0 {
        Ok(exposures)
    } else {
        match publications_check(publications.drop_last(), checks, exposures) {
            Err(complaint) => Err(complaint),
            Ok(before) => publication_check(
                publications.last(),
                checks[publications.len() - 1],
                before,
            ),
        }
    }
}

/// Whether one publication may follow another: its generation is no older, and
/// within one generation the catalogue is the same.
pub open spec fn follows(before: Publication, after: Publication) -> bool {
    before.generation <= after.generation && (before.generation == after.generation
        ==> before.catalog == after.catalog)
}

/// Whether each publication may follow the one before it.
pub open spec fn generations_in_order(publications: Seq<Publication>) -> bool {
    forall|i: int|
        0 <= i < publications.len() - 1 ==> follows(
            #[trigger] publications[i],
            publications[i + 1],
        )
}

/// The complaint about an ownership, if there is one.
pub open spec fn ownership_complaint(owner: Ownership, checks: ConsumerChecks) -> Option<
    Seq<char>,
> {
    let publications = owner.publications;
    if checks.node_id is Err {
        Some(checks.node_id->Err_0@)
    } else if publications.len() > MAX_PUBLICATIONS || owner.listed.len() > MAX_PUBLICATIONS {
        Some("consumer publication capacity exhausted"@)
    } else {
        match receipts_check(owner.listed, checks.receipts@, publications) {
            Err(complaint) => Some(complaint),
            Ok(exposures) => match publications_check(
                publications,
                checks.publications@,
                exposures,
            ) {
                Err(complaint) => Some(complaint),
                Ok(_) => if generations_in_order(publications) {
                    None
                } else {
                    Some("consumer catalogue generation regressed or changed"@)
                },
            },
        }
    }
}

/// Whether the checks are those of an ownership: one for each receipt and one
/// for each publication.
pub open spec fn checks_fit(owner: Ownership, checks: ConsumerChecks) -> bool {
    checks.receipts@.len() == owner.listed.len() && checks.publications@.len()
        == owner.publications.len()
}

fn find_service<'a>(effective: &'a Vec<ServiceEntry>, namespace: &str, name: &str) -> (r: Option<
    &'a ServiceEntry,
>)
    ensures
        (match r {
            Some(entry) => Some(entry@),
            None => None,
        }) == resolved(
            views(effective@),
            ServiceName { namespace: namespace@, name: name@ },
        ),
{
    let ghost all = views(effective@);
    let ghost id = ServiceName { namespace: namespace@, name: name@ };
    let mut i: usize = 0;
    proof {
        assert(all.skip(0) =~= all);
    }
    while i < effective.len()
        invariant
            i <= effective.len(),
            all == views(effective@),
            id == (ServiceName { namespace: namespace@, name: name@ }),
            resolved(all, id) == resolved(all.skip(i as int), id),
        decreases effective.len() - i,
    {
        proof {
            assert(all.skip(i as int)[0] == effective@[i as int]@);
            assert(all.skip(i as int).skip(1) =~= all.skip(i as int + 1));
        }
        if effective[i].is_service(namespace, name) {
            return Some(&effective[i]);
        }
        i = i + 1;
    }
    None
}

fn service_covers(actual: &ServiceEntry, expected: &ServiceEntry) -> (r: bool)
    ensures
        r == covers(actual@, expected@),
{
    if actual.vip != expected.vip || actual.port != expected.port {
        return false;
    }
    let mut i: usize = 0;
    while i < expected.backends.len()
        invariant
            i <= expected.backends.len(),
            actual.vip == expected.vip,
            actual.port == expected.port,
            forall|j: int|
                0 <= j < i ==> actual@.backends.contains(#[trigger] expected@.backends[j]),
        decreases expected.backends.len() - i,
    {
        let mut found: bool = false;
        let mut k: usize = 0;
        while k < actual.backends.len()
            invariant
                i < expected.backends.len(),
                k <= actual.backends.len(),
                found ==> actual@.backends.contains(expected@.backends[i as int]),
                !found ==> forall|m: int|
                    0 <= m < k ==> #[trigger] actual@.backends[m]
                        != expected@.backends[i as int],
            decreases actual.backends.len() - k,
        {
            proof {
                assert(actual@.backends[k as int] == actual.backends@[k as int]@);
                assert(expected@.backends[i as int] == expected.backends@[i as int]@);
            }
            if actual.backends[k].same(&expected.backends[i]) {
                found = true;
            }
            k = k + 1;
        }
        if !found {
            proof {
                let missing = expected@.backends[i as int];
                if actual@.backends.contains(missing) {
                    let m = choose|m: int|
                        0 <= m < actual@.backends.len() && actual@.backends[m] == missing;
                    assert(actual@.backends[m] != missing);
                }
            }
            return false;
        }
        i = i + 1;
    }
    true
}

fn check_remote(effective: &Vec<ServiceEntry>, remote: &Vec<ServiceEntry>) -> (r: Result<
    (),
    String,
>)
    ensures
        complaint_of(r) == remote_complaint(views(effective@), views(remote@)),
{
    let ghost all = views(remote@);
    let ghost shown = views(effective@);
    let mut i: usize = 0;
    proof {
        assert(all.take(0) =~= Seq::<Service>::empty());
    }
    while i < remote.len()
        invariant
            i <= remote.len(),
            all == views(remote@),
            shown == views(effective@),
            remote_complaint(shown, all.take(i as int)) is None,
        decreases remote.len() - i,
    {
        let expected = &remote[i];
        proof {
            assert(all.take(i as int + 1).drop_last() =~= all.take(i as int));
            assert(all.take(i as int + 1).last() == expected@);
            if remote_complaint(shown, all.take(i as int + 1)) is Some {
                remote_complaint_stays(shown, all, i as int + 1);
            }
        }
        match find_service(effective, expected.namespace.as_str(), expected.app_name.as_str()) {
            None => {
                return complain("effective view omits a catalogue service");
            },
            Some(actual) => {
                if !service_covers(actual, expected) {
                    return complain("effective view conflicts with original catalogue");
                }
            },
        }
        i = i + 1;
    }
    proof {
        assert(all.take(all.len() as int) =~= all);
    }
    Ok(())
}

proof fn remote_complaint_stays(effective: Seq<Service>, remote: Seq<Service>, i: int)
    requires
        0 <= i <= remote.len(),
        remote_complaint(effective, remote.take(i)) is Some,
    ensures
        remote_complaint(effective, remote) == remote_complaint(effective, remote.take(i)),
    decreases remote.len() - i,
{
    if i < remote.len() {
        assert(remote.take(i + 1).drop_last() =~= remote.take(i));
        remote_complaint_stays(effective, remote, i + 1);
    } else {
        assert(remote.take(i) =~= remote);
    }
}

fn has_repeated_ingress(ingress: &Vec<IngressAssignment>) -> (r: bool)
    ensures
        r == repeats_ingress(views(ingress@)),
{
    let ghost all = views(ingress@);
    let mut j: usize = 0;
    while j < ingress.len()
        invariant
            j <= ingress.len(),
            all == views(ingress@),
            forall|a: int, b: int|
                0 <= a < b < j ==> (#[trigger] all[a]).service != (#[trigger] all[b]).service,
        decreases ingress.len() - j,
    {
        let mut i: usize = 0;
        while i < j
            invariant
                i <= j,
                j < ingress.len(),
                all == views(ingress@),
                forall|a: int| 0 <= a < i ==> (#[trigger] all[a]).service != all[j as int].service,
            decreases j - i,
        {
            proof {
                assert(all[i as int] == ingress@[i as int]@);
                assert(all[j as int] == ingress@[j as int]@);
            }
            if same_text(ingress[i].namespace.as_str(), ingress[j].namespace.as_str())
                && same_text(ingress[i].name.as_str(), ingress[j].name.as_str()) {
                return true;
            }
            i = i + 1;
        }
        j = j + 1;
    }
    false
}

fn check_publication(
    publication: &ConsumerPublication,
    checks: &PublicationChecks,
    exposures: usize,
) -> (r: Result<usize, String>)
    requires
        exposures <= MAX_EXPOSURES,
    ensures
        match publication_check(publication@, *checks, exposures as nat) {
            Ok(total) => r is Ok && r->Ok_0 == total && total <= MAX_EXPOSURES,
            Err(complaint) => r is Err && r->Err_0@ == complaint,
        },
{
    let with_catalog = match add_catalog(exposures, &publication.catalog) {
        Some(count) => count,
        None => {
            return Err("consumer exposure capacity exhausted".to_owned());
        },
    };
    let total = match add_effective(with_catalog, &publication.effective_services) {
        Some(count) => count,
        None => {
            return Err("consumer exposure capacity exhausted".to_owned());
        },
    };
    match &checks.allocations {
        Err(text) => {
            return Err(text.clone());
        },
        Ok(()) => {},
    }
    if publication.generation == 0 && publication.catalog.services.len() > 0 {
        return Err("nonempty catalogue has no committed generation".to_owned());
    }
    match &checks.snapshot {
        Err(text) => {
            return Err(text.clone());
        },
        Ok(()) => {},
    }
    if has_repeated_ingress(&publication.ingress) {
        return Err("duplicate consumer ingress assignment".to_owned());
    }
    match &checks.routing {
        Err(text) => {
            return Err(text.clone());
        },
        Ok(()) => {},
    }
    match check_remote(&publication.effective_services, &checks.remote) {
        Err(text) => Err(text),
        Ok(()) => Ok(total),
    }
}

proof fn receipts_check_stays(
    receipts: Seq<(u64, Receipt)>,
    checks: Seq<Result<(), String>>,
    publications: Seq<Publication>,
    i: int,
)
    requires
        0 <= i <= receipts.len(),
        receipts_check(receipts.take(i), checks, publications) is Err,
    ensures
        receipts_check(receipts, checks, publications) == receipts_check(
            receipts.take(i),
            checks,
            publications,
        ),
    decreases receipts.len() - i,
{
    if i < receipts.len() {
        assert(receipts.take(i + 1).drop_last() =~= receipts.take(i));
        receipts_check_stays(receipts, checks, publications, i + 1);
    } else {
        assert(receipts.take(i) =~= receipts);
    }
}

proof fn publications_check_stays(
    publications: Seq<Publication>,
    checks: Seq<PublicationChecks>,
    exposures: nat,
    i: int,
)
    requires
        0 <= i <= publications.len(),
        publications_check(publications.take(i), checks, exposures) is Err,
    ensures
        publications_check(publications, checks, exposures) == publications_check(
            publications.take(i),
            checks,
            exposures,
        ),
    decreases publications.len() - i,
{
    if i < publications.len() {
        assert(publications.take(i + 1).drop_last() =~= publications.take(i));
        publications_check_stays(publications, checks, exposures, i + 1);
    } else {
        assert(publications.take(i) =~= publications);
    }
}

impl ConsumerOwnership {
    fn check_receipts(&self, checks: &ConsumerChecks) -> (r: Result<usize, String>)
        requires
            checks_fit(self@, *checks),
        ensures
            match receipts_check(self@.listed, checks.receipts@, views(self.publications@)) {
                Ok(total) => r is Ok && r->Ok_0 == total && total <= MAX_EXPOSURES,
                Err(complaint) => r is Err && r->Err_0@ == complaint,
            },
    {
        let ghost receipts = self@.listed;
        let ghost publications = views(self.publications@);
        let mut exposures: usize = 0;
        let mut i: usize = 0;
        proof {
            assert(receipts.take(0) =~= Seq::<(u64, Receipt)>::empty());
        }
        while i < self.receipts.entries.len()
            invariant
                checks_fit(self@, *checks),
                i <= self.receipts.entries.len(),
                receipts == self@.listed,
                publications == views(self.publications@),
                exposures <= MAX_EXPOSURES,
                receipts_check(receipts.take(i as int), checks.receipts@, publications) == Ok::<
                    nat,
                    Seq<char>,
                >(exposures as nat),
            decreases self.receipts.entries.len() - i,
        {
            let generation: u64 = self.receipts.entries[i].0;
            let receipt = &self.receipts.entries[i].1;
            proof {
                assert(receipts.take(i as int + 1).drop_last() =~= receipts.take(i as int));
                assert(receipts.take(i as int + 1).last() == receipts[i as int]);
                assert(receipts[i as int] == (generation, receipt@));
                if receipts_check(
                    receipts.take(i as int + 1),
                    checks.receipts@,
                    publications,
                ) is Err {
                    receipts_check_stays(receipts, checks.receipts@, publications, i as int + 1);
                }
                assert(entry_views(receipt.withdrawal.services).len()
                    == receipt.withdrawal.services.entries@.len());
            }
            let count: usize = self.publications.len();
            let overtaken: bool = count > 0 && generation < self.publications[count
                - 1].generation;
            proof {
                if count > 0 {
                    assert(publications.last() == self.publications@[count - 1]@);
                }
            }
            if generation == 0 || generation != receipt.withdrawal.generation || !overtaken
                || receipt.withdrawal.services.len() == 0 {
                return Err("invalid consumer withdrawal generation".to_owned());
            }
            match &checks.receipts[i] {
                Err(text) => {
                    return Err(text.clone());
                },
                Ok(()) => {},
            }
            match add_withdrawal(exposures, &receipt.withdrawal) {
                Some(total) => {
                    exposures = total;
                },
                None => {
                    return Err("consumer exposure capacity exhausted".to_owned());
                },
            }
            i = i + 1;
        }
        proof {
            assert(receipts.take(receipts.len() as int) =~= receipts);
        }
        Ok(exposures)
    }

    fn check_generations(&self) -> (r: bool)
        ensures
            r == generations_in_order(views(self.publications@)),
    {
        let ghost all = views(self.publications@);
        if self.publications.len() < 2 {
            return true;
        }
        let mut i: usize = 0;
        while i < self.publications.len() - 1
            invariant
                self.publications.len() >= 2,
                i <= self.publications.len() - 1,
                all == views(self.publications@),
                forall|j: int| 0 <= j < i ==> follows(#[trigger] all[j], all[j + 1]),
            decreases self.publications.len() - i,
        {
            let before = &self.publications[i];
            let after = &self.publications[i + 1];
            proof {
                assert(all[i as int] == before@);
                assert(all[i as int + 1] == after@);
            }
            if after.generation < before.generation || (after.generation == before.generation
                && !after.catalog.same(&before.catalog)) {
                proof {
                    assert(!follows(all[i as int], all[i as int + 1]));
                }
                return false;
            }
            i = i + 1;
        }
        true
    }

    /// Check that an ownership is sound, given what the surrounding agent says
    /// of its parts.
    pub fn validate(&self, checks: &ConsumerChecks) -> (r: Result<(), String>)
        requires
            checks_fit(self@, *checks),
        ensures
            complaint_of(r) == ownership_complaint(self@, *checks),
    {
        match &checks.node_id {
            Err(text) => {
                return Err(text.clone());
            },
            Ok(()) => {},
        }
        proof {
            assert(views(self.publications@).len() == self.publications@.len());
        }
        if self.publications.len() > MAX_PUBLICATIONS || self.receipts.len() > MAX_PUBLICATIONS {
            return complain("consumer publication capacity exhausted");
        }
        let start: usize = match self.check_receipts(checks) {
            Ok(total) => total,
            Err(text) => {
                return Err(text);
            },
        };
        let ghost publications = views(self.publications@);
        let mut exposures: usize = start;
        let mut i: usize = 0;
        proof {
            assert(publications.take(0) =~= Seq::<Publication>::empty());
        }
        while i < self.publications.len()
            invariant
                checks_fit(self@, *checks),
                checks.node_id is Ok,
                publications.len() <= MAX_PUBLICATIONS,
                self@.listed.len() <= MAX_PUBLICATIONS,
                i <= self.publications.len(),
                publications == views(self.publications@),
                receipts_check(self@.listed, checks.receipts@, publications) == Ok::<
                    nat,
                    Seq<char>,
                >(start as nat),
                exposures <= MAX_EXPOSURES,
                publications_check(
                    publications.take(i as int),
                    checks.publications@,
                    start as nat,
                ) == Ok::<nat, Seq<char>>(exposures as nat),
            decreases self.publications.len() - i,
        {
            proof {
                assert(publications.take(i as int + 1).drop_last() =~= publications.take(
                    i as int,
                ));
                assert(publications.take(i as int + 1).last() == self.publications@[i as int]@);
                if publications_check(
                    publications.take(i as int + 1),
                    checks.publications@,
                    start as nat,
                ) is Err {
                    publications_check_stays(
                        publications,
                        checks.publications@,
                        start as nat,
                        i as int + 1,
                    );
                }
            }
            match check_publication(&self.publications[i], &checks.publications[i], exposures) {
                Ok(total) => {
                    exposures = total;
                },
                Err(text) => {
                    return Err(text);
                },
            }
            i = i + 1;
        }
        proof {
            assert(publications.take(publications.len() as int) =~= publications);
        }
        if self.check_generations() {
            Ok(())
        } else {
            complain("consumer catalogue generation regressed or changed")
        }
    }
}

/// Whether a consumer's permission may change from one phase to another.
pub open spec fn phase_may_follow(before: ConsumerPhase, after: ConsumerPhase) -> bool {
    match before {
        ConsumerPhase::Active => after == ConsumerPhase::Active || after
            == ConsumerPhase::Publishing || after == ConsumerPhase::Withdrawing,
        ConsumerPhase::Publishing => after == ConsumerPhase::Publishing || after
            == ConsumerPhase::Active || after == ConsumerPhase::Withdrawing,
        ConsumerPhase::Withdrawing => after == ConsumerPhase::Withdrawing || after
            == ConsumerPhase::Withdrawn,
        ConsumerPhase::Withdrawn => after == ConsumerPhase::Withdrawn || after
            == ConsumerPhase::Publishing || after == ConsumerPhase::Withdrawing,
    }
}

/// Whether a list begins with another.
pub open spec fn begins_with(list: Seq<Publication>, start: Seq<Publication>) -> bool {
    start.len() <= list.len() && list.subrange(0, start.len() as int) == start
}

/// Whether a list ends with another.
pub open spec fn finishes_with(list: Seq<Publication>, end: Seq<Publication>) -> bool {
    end.len() <= list.len() && list.subrange(list.len() - end.len(), list.len() as int) == end
}

/// The complaint about the publications of a successor, if there is one.
///
/// An active consumer that publishes appends exactly one view; one that stays
/// active may compact to a suffix. A withdrawn consumer keeps its generation
/// fence. Otherwise the history is retained, and only a withdrawing successor
/// may add to it.
pub open spec fn history_complaint(previous: Ownership, next: Ownership) -> Option<Seq<char>> {
    let before = previous.publications;
    let after = next.publications;
    if previous.phase == ConsumerPhase::Active && next.phase == ConsumerPhase::Publishing {
        if after.len() != before.len() + 1 || !begins_with(after, before) {
            Some("original consumer publication history must be retained"@)
        } else {
            None
        }
    } else if previous.phase == ConsumerPhase::Active && next.phase == ConsumerPhase::Active {
        if after != before && (after.len() == 0 || !finishes_with(before, after)) {
            Some("consumer compaction must keep the published view"@)
        } else {
            None
        }
    } else if previous.phase == ConsumerPhase::Withdrawn {
        if before.len() == 0 {
            None
        } else if after.len() == 0 {
            Some("consumer generation fence cannot be forgotten"@)
        } else if !follows(before.last(), after.last()) {
            Some("consumer generation fence regressed or changed"@)
        } else {
            None
        }
    } else if !begins_with(after, before) || (next.phase != ConsumerPhase::Withdrawing && after
        != before) {
        Some("original consumer publication history must be retained"@)
    } else {
        None
    }
}

/// Whether a pending receipt may become ready: after a full withdrawal, or
/// once no view that may still be exposed shows what the withdrawal removes.
pub open spec fn proven(previous: Ownership, next: Ownership, withdrawal: Withdrawal) -> bool {
    if previous.phase == ConsumerPhase::Withdrawn && next.phase == ConsumerPhase::Withdrawn {
        true
    } else if previous.phase == ConsumerPhase::Active && next.phase == ConsumerPhase::Active {
        forall|i: int|
            0 <= i < next.publications.len() ==> !exposes(
                #[trigger] next.publications[i],
                withdrawal,
            )
    } else {
        false
    }
}

/// Whether a receipt is properly kept or dropped: it keeps its instruction, and
/// advances only with proof; only a ready one may be dropped.
pub open spec fn receipt_kept(previous: Ownership, next: Ownership, generation: u64) -> bool {
    let receipt = previous.receipts[generation];
    if next.receipts.dom().contains(generation) {
        let retained = next.receipts[generation];
        retained.withdrawal == receipt.withdrawal && (retained.phase == receipt.phase || (
        receipt.phase == ReceiptPhase::Pending && proven(previous, next, receipt.withdrawal)))
    } else {
        receipt.phase == ReceiptPhase::Ready
    }
}

/// Whether every receipt is properly kept or dropped.
pub open spec fn receipts_kept(previous: Ownership, next: Ownership) -> bool {
    forall|generation: u64| #[trigger]
        previous.receipts.dom().contains(generation) ==> receipt_kept(previous, next, generation)
}

/// Whether every new receipt begins pending.
pub open spec fn new_receipts_pending(previous: Ownership, next: Ownership) -> bool {
    forall|generation: u64| #[trigger]
        next.receipts.dom().contains(generation) && !previous.receipts.dom().contains(generation)
            ==> next.receipts[generation].phase == ReceiptPhase::Pending
}

/// The complaint about a successor of an ownership, if there is one.
pub open spec fn transition_complaint(
    previous: Option<Ownership>,
    next: Option<Ownership>,
) -> Option<Seq<char>> {
    if previous is None {
        None
    } else if next is None {
        Some("consumer ownership cannot be forgotten"@)
    } else {
        let before = previous->0;
        let after = next->0;
        if after.identity != before.identity {
            Some("consumer enrolment identity changed"@)
        } else if !phase_may_follow(before.phase, after.phase) {
            Some("consumer withdrawal permission is missing"@)
        } else if history_complaint(before, after) is Some {
            history_complaint(before, after)
        } else if !receipts_kept(before, after) {
            Some("original consumer receipt has no withdrawal or acknowledgement permission"@)
        } else if !new_receipts_pending(before, after) {
            Some("new consumer receipt has no withdrawal proof"@)
        } else {
            None
        }
    }
}

fn publications_begin_with(list: &Vec<ConsumerPublication>, start: &Vec<ConsumerPublication>) -> (r:
    bool)
    ensures
        r == begins_with(views(list@), views(start@)),
{
    start.len() <= list.len() && same_part(list, 0, start)
}

fn publications_finish_with(list: &Vec<ConsumerPublication>, end: &Vec<ConsumerPublication>) -> (r:
    bool)
    ensures
        r == finishes_with(views(list@), views(end@)),
{
    end.len() <= list.len() && same_part(list, list.len() - end.len(), end)
}

fn check_history(previous: &ConsumerOwnership, next: &ConsumerOwnership) -> (r: Result<
    (),
    String,
>)
    ensures
        complaint_of(r) == history_complaint(previous@, next@),
{
    let before = &previous.publications;
    let after = &next.publications;
    proof {
        assert(views(before@).len() == before@.len());
        assert(views(after@).len() == after@.len());
    }
    match (previous.phase, next.phase) {
        (ConsumerPhase::Active, ConsumerPhase::Publishing) => {
            if after.len() == 0 || after.len() - 1 != before.len() || !publications_begin_with(
                after,
                before,
            ) {
                return complain("original consumer publication history must be retained");
            }
            Ok(())
        },
        (ConsumerPhase::Active, ConsumerPhase::Active) => {
            if !same_list(after, before) && (after.len() == 0 || !publications_finish_with(
                before,
                after,
            )) {
                return complain("consumer compaction must keep the published view");
            }
            Ok(())
        },
        (ConsumerPhase::Withdrawn, _) => {
            if before.len() == 0 {
                return Ok(());
            }
            if after.len() == 0 {
                return complain("consumer generation fence cannot be forgotten");
            }
            let last = &before[before.len() - 1];
            let next_last = &after[after.len() - 1];
            proof {
                assert(views(before@).last() == last@);
                assert(views(after@).last() == next_last@);
            }
            if next_last.generation < last.generation || (next_last.generation == last.generation
                && !next_last.catalog.same(&last.catalog)) {
                return complain("consumer generation fence regressed or changed");
            }
            Ok(())
        },
        (_, after_phase) => {
            if !publications_begin_with(after, before) || (after_phase
                != ConsumerPhase::Withdrawing && !same_list(after, before)) {
                return complain("original consumer publication history must be retained");
            }
            Ok(())
        },
    }
}

fn receipt_proven(
    previous: &ConsumerOwnership,
    next: &ConsumerOwnership,
    withdrawal: &EndpointWithdrawalInstruction,
) -> (r: bool)
    ensures
        r == proven(previous@, next@, withdrawal@),
{
    match (previous.phase, next.phase) {
        (ConsumerPhase::Withdrawn, ConsumerPhase::Withdrawn) => true,
        (ConsumerPhase::Active, ConsumerPhase::Active) => {
            let mut i: usize = 0;
            while i < next.publications.len()
                invariant
                    i <= next.publications.len(),
                    previous.phase == ConsumerPhase::Active,
                    next.phase == ConsumerPhase::Active,
                    forall|j: int|
                        0 <= j < i ==> !exposes(#[trigger] next@.publications[j], withdrawal@),
                decreases next.publications.len() - i,
            {
                proof {
                    assert(next@.publications[i as int] == next.publications@[i as int]@);
                }
                if next.publications[i].intersects(withdrawal) {
                    return false;
                }
                i = i + 1;
            }
            true
        },
        _ => false,
    }
}

fn check_receipts_kept(previous: &ConsumerOwnership, next: &ConsumerOwnership) -> (r: bool)
    requires
        previous.receipts.wf(),
        next.receipts.wf(),
    ensures
        r == receipts_kept(previous@, next@),
{
    let mut i: usize = 0;
    while i < previous.receipts.entries.len()
        invariant
            previous.receipts.wf(),
            next.receipts.wf(),
            i <= previous.receipts.entries.len(),
            forall|j: int|
                0 <= j < i ==> receipt_kept(
                    previous@,
                    next@,
                    (#[trigger] previous.receipts.entries@[j]).0,
                ),
        decreases previous.receipts.entries.len() - i,
    {
        let generation: u64 = previous.receipts.entries[i].0;
        let receipt = &previous.receipts.entries[i].1;
        proof {
            previous.receipts.entry_is_value(i as int);
            assert(previous@.receipts.dom().contains(generation));
            assert(previous@.receipts[generation] == receipt@);
        }
        let kept: bool = match next.receipts.get(&generation) {
            None => receipt.phase == ReceiptPhase::Ready,
            Some(retained) => retained.withdrawal.same(&receipt.withdrawal) && (retained.phase
                == receipt.phase || (receipt.phase == ReceiptPhase::Pending && receipt_proven(
                previous,
                next,
                &receipt.withdrawal,
            ))),
        };
        if !kept {
            return false;
        }
        i = i + 1;
    }
    proof {
        assert forall|generation: u64| #[trigger]
            previous@.receipts.dom().contains(generation) implies receipt_kept(
            previous@,
            next@,
            generation,
        ) by {
            let k = key_index(previous.receipts.entries@, generation);
            assert(previous.receipts@.dom().contains(generation));
            assert(receipt_kept(previous@, next@, previous.receipts.entries@[k].0));
        }
    }
    true
}

fn check_new_receipts(previous: &ConsumerOwnership, next: &ConsumerOwnership) -> (r: bool)
    requires
        previous.receipts.wf(),
        next.receipts.wf(),
    ensures
        r == new_receipts_pending(previous@, next@),
{
    let mut i: usize = 0;
    while i < next.receipts.entries.len()
        invariant
            previous.receipts.wf(),
            next.receipts.wf(),
            i <= next.receipts.entries.len(),
            forall|j: int|
                0 <= j < i ==> previous@.receipts.dom().contains(
                    (#[trigger] next.receipts.entries@[j]).0,
                ) || next.receipts.entries@[j].1.phase == ReceiptPhase::Pending,
        decreases next.receipts.entries.len() - i,
    {
        let generation: u64 = next.receipts.entries[i].0;
        proof {
            next.receipts.entry_is_value(i as int);
            assert(next@.receipts.dom().contains(generation));
            assert(next@.receipts[generation] == next.receipts.entries@[i as int].1@);
        }
        if !previous.receipts.contains_key(&generation) && next.receipts.entries[i].1.phase
            != ReceiptPhase::Pending {
            return false;
        }
        i = i + 1;
    }
    proof {
        assert forall|generation: u64| #[trigger]
            next@.receipts.dom().contains(generation) && !previous@.receipts.dom().contains(
                generation,
            ) implies next@.receipts[generation].phase == ReceiptPhase::Pending by {
            let k = key_index(next.receipts.entries@, generation);
            assert(next.receipts@.dom().contains(generation));
            next.receipts.entry_is_value(k);
            assert(next.receipts.entries@[k].0 == generation);
        }
    }
    true
}

fn allows(before: ConsumerPhase, after: ConsumerPhase) -> (r: bool)
    ensures
        r == phase_may_follow(before, after),
{
    matches!(
        (before, after),
        (
            ConsumerPhase::Active,
            ConsumerPhase::Active | ConsumerPhase::Publishing | ConsumerPhase::Withdrawing,
        ) | (
            ConsumerPhase::Publishing,
            ConsumerPhase::Publishing | ConsumerPhase::Active | ConsumerPhase::Withdrawing,
        ) | (
            ConsumerPhase::Withdrawing,
            ConsumerPhase::Withdrawing | ConsumerPhase::Withdrawn,
        ) | (
            ConsumerPhase::Withdrawn,
            ConsumerPhase::Withdrawn | ConsumerPhase::Publishing | ConsumerPhase::Withdrawing,
        )
    )
}

/// The facts of an ownership that may not be there.
pub open spec fn ownership_view(owner: Option<&ConsumerOwnership>) -> Option<Ownership> {
    match owner {
        Some(owner) => Some(owner@),
        None => None,
    }
}

/// Check that an ownership may replace another.
pub fn validate_transition(
    previous: Option<&ConsumerOwnership>,
    next: Option<&ConsumerOwnership>,
) -> (r: Result<(), String>)
    requires
        previous is Some ==> previous->0.receipts.wf(),
        next is Some ==> next->0.receipts.wf(),
    ensures
        complaint_of(r) == transition_complaint(ownership_view(previous), ownership_view(next)),
{
    let previous = match previous {
        None => {
            return Ok(());
        },
        Some(previous) => previous,
    };
    let next = match next {
        None => {
            return complain("consumer ownership cannot be forgotten");
        },
        Some(next) => next,
    };
    if !next.identity.same(&previous.identity) {
        return complain("consumer enrolment identity changed");
    }
    if !allows(previous.phase, next.phase) {
        return complain("consumer withdrawal permission is missing");
    }
    match check_history(previous, next) {
        Err(text) => {
            return Err(text);
        },
        Ok(()) => {},
    }
    if !check_receipts_kept(previous, next) {
        return complain(
            "original consumer receipt has no withdrawal or acknowledgement permission",
        );
    }
    if !check_new_receipts(previous, next) {
        return complain("new consumer receipt has no withdrawal proof");
    }
    Ok(())
}

impl ConsumerOwnership {
    /// Another ownership of the same facts.
    pub fn duplicate(&self) -> (r: Self)
        requires
            self.receipts.wf(),
        ensures
            r@ == self@,
            r.receipts.wf(),
            r.receipts.entries@.len() == self.receipts.entries@.len(),
    {
        let mut entries: Vec<(u64, ConsumerReceipt)> = Vec::new();
        let mut i: usize = 0;
        while i < self.receipts.entries.len()
            invariant
                i <= self.receipts.entries.len(),
                entries@.len() == i,
                forall|j: int|
                    0 <= j < i ==> (#[trigger] entries@[j]).0 == self.receipts.entries@[j].0
                        && entries@[j].1@ == self.receipts.entries@[j].1@,
            decreases self.receipts.entries.len() - i,
        {
            entries.push((self.receipts.entries[i].0, self.receipts.entries[i].1.copy()));
            i = i + 1;
        }
        let receipts = OrderedMap { entries };
        proof {
            let e = self.receipts.entries@;
            let f = receipts.entries@;
            assert forall|a: int, b: int| 0 <= a < b < f.len() implies (
            #[trigger] f[a]).0 < (#[trigger] f[b]).0 by {
                assert(<u64 as crate::ordered_map::Key>::less(
                    crate::ordered_map::Key::value(&e[a].0),
                    crate::ordered_map::Key::value(&e[b].0),
                ));
                assert(e[a].0 < e[b].0);
            }
            assert(receipts.wf());
            let old_map = self.receipts@.map_values(|r: ConsumerReceipt| r@);
            let new_map = receipts@.map_values(|r: ConsumerReceipt| r@);
            assert forall|g: u64| new_map.dom().contains(g) == old_map.dom().contains(g) by {
                if receipts@.dom().contains(g) {
                    let k = key_index(f, g);
                    self.receipts.entry_is_value(k);
                    assert(e[k].0 == g);
                }
                if self.receipts@.dom().contains(g) {
                    let k = key_index(e, g);
                    receipts.entry_is_value(k);
                    assert(f[k].0 == g);
                }
            }
            assert forall|g: u64| old_map.dom().contains(g) implies new_map[g]
                == old_map[g] by {
                let k = key_index(e, g);
                assert(self.receipts@.dom().contains(g));
                self.receipts.entry_is_value(k);
                receipts.entry_is_value(k);
                assert(f[k].0 == g);
            }
            assert(new_map =~= old_map);
            assert(f.map_values(|e: (u64, ConsumerReceipt)| (e.0, e.1@)) =~= e.map_values(
                |e: (u64, ConsumerReceipt)| (e.0, e.1@),
            ));
        }
        ConsumerOwnership {
            identity: self.identity.copy(),
            publications: copy_list(&self.publications),
            phase: self.phase,
            receipts,
        }
    }
}

/// Whether each ownership of a history may replace the one before it.
pub open spec fn lawful_history(history: Seq<Ownership>) -> bool {
    forall|i: int|
        0 <= i < history.len() - 1 ==> transition_complaint(
            Some(#[trigger] history[i]),
            Some(history[i + 1]),
        ) is None
}

/// An enrolment identity never changes, however long the history.
pub proof fn identity_never_changes(history: Seq<Ownership>, i: int)
    requires
        lawful_history(history),
        0 <= i < history.len(),
    ensures
        history[i].identity == history[0].identity,
    decreases i,
{
    if i > 0 {
        identity_never_changes(history, i - 1);
        assert(transition_complaint(Some(history[i - 1]), Some(history[i - 1 + 1])) is None);
    }
}

/// Once there is an ownership, it can only be replaced, never forgotten.
pub proof fn ownership_is_never_forgotten(previous: Ownership)
    ensures
        transition_complaint(Some(previous), None) is Some,
{
}

/// In every lawful step whose successor lists its generations in order, the
/// newest generation never goes back, and within one generation the newest
/// catalogue stays the same.
pub proof fn newest_generation_never_regresses(previous: Ownership, next: Ownership)
    requires
        transition_complaint(Some(previous), Some(next)) is None,
        generations_in_order(next.publications),
        previous.publications.len() > 0,
    ensures
        next.publications.len() > 0,
        follows(previous.publications.last(), next.publications.last()),
{
    let before = previous.publications;
    let after = next.publications;
    let n = before.len() as int;
    if begins_with(after, before) {
        assert(after.subrange(0, n)[n - 1] == after[n - 1]);
        assert(before.last() == after[n - 1]);
        in_order_to_the_end(after, n - 1);
    } else if previous.phase == ConsumerPhase::Active && next.phase == ConsumerPhase::Active {
        if after != before {
            assert(before.subrange(n - after.len(), n).last() == before.last());
        }
    }
}

proof fn in_order_to_the_end(publications: Seq<Publication>, i: int)
    requires
        generations_in_order(publications),
        0 <= i < publications.len(),
    ensures
        follows(publications[i], publications.last()),
    decreases publications.len() - i,
{
    if i < publications.len() - 1 {
        in_order_to_the_end(publications, i + 1);
        assert(follows(publications[i], publications[i + 1]));
    }
}

/// While a consumer stays active, its published view stays the newest one.
pub proof fn compaction_keeps_the_published_view(previous: Ownership, next: Ownership)
    requires
        transition_complaint(Some(previous), Some(next)) is None,
        previous.phase == ConsumerPhase::Active,
        next.phase == ConsumerPhase::Active,
        previous.publications.len() > 0,
    ensures
        next.publications.len() > 0,
        next.publications.last() == previous.publications.last(),
        next.publications.len() <= previous.publications.len(),
{
    let before = previous.publications;
    let after = next.publications;
    if after != before {
        let n = before.len() as int;
        assert(before.subrange(n - after.len(), n).last() == before.last());
    }
}

/// Publishing in place keeps every view that may hold requests, and adds one.
pub proof fn publishing_keeps_every_view(previous: Ownership, next: Ownership, i: int)
    requires
        transition_complaint(Some(previous), Some(next)) is None,
        previous.phase == ConsumerPhase::Active,
        next.phase == ConsumerPhase::Publishing,
        0 <= i < previous.publications.len(),
    ensures
        next.publications.len() == previous.publications.len() + 1,
        next.publications[i] == previous.publications[i],
{
    let n = previous.publications.len() as int;
    assert(next.publications.subrange(0, n)[i] == next.publications[i]);
}

/// A pending receipt is never dropped, never changed, and becomes ready only
/// when its withdrawal is proven.
pub proof fn pending_receipts_wait_for_proof(
    previous: Ownership,
    next: Ownership,
    generation: u64,
)
    requires
        transition_complaint(Some(previous), Some(next)) is None,
        previous.receipts.dom().contains(generation),
        previous.receipts[generation].phase == ReceiptPhase::Pending,
    ensures
        next.receipts.dom().contains(generation),
        next.receipts[generation].withdrawal == previous.receipts[generation].withdrawal,
        next.receipts[generation].phase == ReceiptPhase::Ready ==> proven(
            previous,
            next,
            previous.receipts[generation].withdrawal,
        ),
{
    assert(receipt_kept(previous, next, generation));
}

/// A ready receipt came from a pending one in an earlier step: no receipt is
/// ready when it first appears.
pub proof fn no_receipt_begins_ready(previous: Ownership, next: Ownership, generation: u64)
    requires
        transition_complaint(Some(previous), Some(next)) is None,
        next.receipts.dom().contains(generation),
        next.receipts[generation].phase == ReceiptPhase::Ready,
    ensures
        previous.receipts.dom().contains(generation),
{
}

/// A receipt that becomes ready while the consumer stays active is of a
/// withdrawal that no retained view exposes.
pub proof fn ready_receipts_are_not_exposed(
    previous: Ownership,
    next: Ownership,
    generation: u64,
    i: int,
)
    requires
        transition_complaint(Some(previous), Some(next)) is None,
        previous.phase == ConsumerPhase::Active,
        next.phase == ConsumerPhase::Active,
        previous.receipts.dom().contains(generation),
        previous.receipts[generation].phase == ReceiptPhase::Pending,
        next.receipts.dom().contains(generation),
        next.receipts[generation].phase == ReceiptPhase::Ready,
        0 <= i < next.publications.len(),
    ensures
        !exposes(next.publications[i], next.receipts[generation].withdrawal),
{
    assert(receipt_kept(previous, next, generation));
}

} // verus!
