//! Exclusive durable discovery ownership, independent of runtime adoption.
//!
//! The journal decides which inventories may be saved and recovered. Its
//! caller establishes kernel and remote withdrawal and runtime release; a
//! saved record alone cannot establish those external facts.

use vstd::prelude::*;
use vstd::string::*;

use crate::codec::is_hex_digit;
use crate::consumer_owners::{
    checks_fit, complaint_of, ownership_complaint, transition_complaint, ConsumerChecks,
    ConsumerIdentity, ConsumerOwnership, Ownership,
};
use crate::ordered_map::{key_index, OrderedMap};
use crate::services::{qualified_text, Backend, Service, ServiceEntry, ServiceId, ServiceName};
use crate::text::{
    decimal, decimal_reads_back, decimal_text, digits_value, from_chars, is_digit, is_unsigned,
    parse_unsigned, same_text, slice_of, to_chars, unsigned_digits,
};
use crate::value::{copy_list, copy_map, map_meaning, same_entries_same_meaning, views, Value};

verus! {

/// Largest checkpoint that is written, in bytes.
pub const CHECKPOINT_LIMIT: u64 = 16_777_216;

/// Format of the checkpoint.
pub const CHECKPOINT_SCHEMA: u32 = 4;

/// Number of address allocations of a node.
pub const CONTAINER_INDEX_LIMIT: u32 = 509;

/// Whether the original service can still have published routes or grants.
#[derive(Debug, Clone, Copy, PartialEq, Eq, Structural)]
pub enum ServicePhase {
    /// Publication, or its attempt, still requires confirmed withdrawal.
    Owned,
    /// Withdrawal is confirmed; the allocation remains reserved.
    Withdrawn,
}

/// Exact service allocation and its remaining publication obligation.
#[derive(Debug)]
pub struct ServiceOwner {
    /// Original executions for backends without an address hold, by instance.
    pub executions: OrderedMap<String, String>,
    /// Original allocation and attempted backends.
    pub entry: ServiceEntry,
    /// Withdrawal evidence established by the publisher.
    pub phase: ServicePhase,
}

/// A service owner as its facts.
pub ghost struct Owner {
    /// Executions, by instance.
    pub executions: Map<Seq<char>, Seq<char>>,
    /// Allocation and backends.
    pub entry: Service,
    /// Withdrawal.
    pub phase: ServicePhase,
}

impl View for ServiceOwner {
    type V = Owner;

    open spec fn view(&self) -> Owner {
        Owner {
            executions: map_meaning(self.executions),
            entry: self.entry@,
            phase: self.phase,
        }
    }
}

/// Whether discovery still prevents release of a runtime address.
#[derive(Debug, Clone, Copy, PartialEq, Eq, Structural)]
pub enum ReferencePhase {
    /// At least one publication obligation still retains this address.
    Held,
    /// Withdrawal was confirmed; the runtime may release.
    ReleaseAuthorised,
}

/// Original address allocation of a runtime generation.
#[derive(Debug)]
pub struct NetworkReference {
    /// Instance that holds the address.
    pub instance_id: String,
    /// Generation of the runtime.
    pub generation: String,
    /// Allocation on the node.
    pub container_index: u32,
}

/// An address allocation as its facts.
pub ghost struct Address {
    /// Instance.
    pub instance_id: Seq<char>,
    /// Generation.
    pub generation: Seq<char>,
    /// Allocation.
    pub container_index: u32,
}

impl View for NetworkReference {
    type V = Address;

    open spec fn view(&self) -> Address {
        Address {
            instance_id: self.instance_id@,
            generation: self.generation@,
            container_index: self.container_index,
        }
    }
}

impl Value for NetworkReference {
    fn same(&self, other: &NetworkReference) -> (r: bool) {
        same_text(self.instance_id.as_str(), other.instance_id.as_str()) && same_text(
            self.generation.as_str(),
            other.generation.as_str(),
        ) && self.container_index == other.container_index
    }

    fn copy(&self) -> (r: NetworkReference) {
        NetworkReference {
            instance_id: self.instance_id.clone(),
            generation: self.generation.clone(),
            container_index: self.container_index,
        }
    }
}

/// Original runtime generation associated with its publishing service.
#[derive(Debug)]
pub struct ReferenceOwner {
    /// Namespace-qualified service identity.
    pub service: ServiceId,
    /// Original address allocation and runtime generation.
    pub reference: NetworkReference,
    /// Durable permission precedes the runtime's release.
    pub phase: ReferencePhase,
}

/// A reference owner as its facts.
pub ghost struct Reference {
    /// Service.
    pub service: ServiceName,
    /// Address.
    pub reference: Address,
    /// Permission.
    pub phase: ReferencePhase,
}

impl View for ReferenceOwner {
    type V = Reference;

    open spec fn view(&self) -> Reference {
        Reference {
            service: self.service@,
            reference: self.reference@,
            phase: self.phase,
        }
    }
}

impl Value for ReferenceOwner {
    fn same(&self, other: &ReferenceOwner) -> (r: bool) {
        self.service.same(&other.service) && self.reference.same(&other.reference) && self.phase
            == other.phase
    }

    fn copy(&self) -> (r: ReferenceOwner) {
        ReferenceOwner {
            service: self.service.copy(),
            reference: self.reference.copy(),
            phase: self.phase,
        }
    }
}

/// Complete local inventory, including attempted publication and pending
/// releases.
#[derive(Debug)]
pub struct DiscoveryInventory {
    /// Allocations retained until their entire withdrawal completes.
    pub services: Vec<ServiceOwner>,
    /// Held references and release permissions not yet confirmed.
    pub references: Vec<ReferenceOwner>,
    /// Original cluster publication attempts of the enrolled consumer.
    pub consumer: Option<ConsumerOwnership>,
}

/// An inventory as its facts.
pub ghost struct Inventory {
    /// Service owners.
    pub services: Seq<Owner>,
    /// Reference owners.
    pub references: Seq<Reference>,
    /// Consumer.
    pub consumer: Option<Ownership>,
}

/// The facts of each service owner in a list.
pub open spec fn owners(list: Seq<ServiceOwner>) -> Seq<Owner> {
    list.map_values(|o: ServiceOwner| o@)
}

impl View for DiscoveryInventory {
    type V = Inventory;

    open spec fn view(&self) -> Inventory {
        Inventory {
            services: owners(self.services@),
            references: views(self.references@),
            consumer: match self.consumer {
                Some(owner) => Some(owner@),
                None => None,
            },
        }
    }
}

impl DiscoveryInventory {
    /// The maps of the inventory are in key order.
    pub open spec fn wf(&self) -> bool {
        &&& forall|i: int|
            0 <= i < self.services@.len() ==> (#[trigger] self.services@[i]).executions.wf()
        &&& self.consumer matches Some(owner) ==> owner.receipts.wf()
    }
}

impl Default for DiscoveryInventory {
    fn default() -> (r: Self)
        ensures
            r.wf(),
            r@ == (Inventory {
                services: Seq::empty(),
                references: Seq::empty(),
                consumer: None,
            }),
    {
        let r = DiscoveryInventory {
            services: Vec::new(),
            references: Vec::new(),
            consumer: None,
        };
        proof {
            assert(owners(r.services@) =~= Seq::<Owner>::empty());
            assert(views(r.references@) =~= Seq::<Reference>::empty());
        }
        r
    }
}

/// What the surrounding agent says of an inventory.
#[derive(Debug)]
pub struct InventoryChecks {
    /// What is said of the consumer, if there is one.
    pub consumer: Option<ConsumerChecks>,
    /// Whether the service entries form a service map.
    pub snapshot: Result<(), String>,
}

/// Whether the checks are those of an inventory.
pub open spec fn inventory_checks_fit(inventory: Inventory, checks: InventoryChecks) -> bool {
    match inventory.consumer {
        Some(owner) => checks.consumer is Some && checks_fit(owner, checks.consumer->0),
        None => true,
    }
}

/// The last service owner of an identity, if there is one.
pub open spec fn owner_of(services: Seq<Owner>, id: ServiceName) -> Option<Owner>
    decreases services.len(),
{
    if services.len() == 0 {
        None
    } else if services.last().entry.id() == id {
        Some(services.last())
    } else {
        owner_of(services.drop_last(), id)
    }
}

/// Whether a text is a number of at most `max` as it is written.
pub open spec fn canonical(s: Seq<char>, max: nat) -> bool {
    is_unsigned(s, max) && decimal_text(digits_value(unsigned_digits(s))) == s
}

/// Whether a text is a generation and an ordinal joined by a hyphen.
pub open spec fn generation_and_ordinal(s: Seq<char>) -> bool {
    exists|k: int|
        0 <= k < s.len() && #[trigger] s[k] == '-' && canonical(s.take(k), u64::MAX as nat)
            && canonical(s.skip(k + 1), u32::MAX as nat)
}

/// Whether a text ends the identifier of an instance: an ordinal, or a `g`
/// with a generation and an ordinal.
pub open spec fn is_instance_suffix(suffix: Seq<char>) -> bool {
    canonical(suffix, u32::MAX as nat) || (suffix.len() > 0 && suffix[0] == 'g'
        && generation_and_ordinal(suffix.skip(1)))
}

/// Whether an identifier is one of an instance of a service.
pub open spec fn is_instance_of(instance_id: Seq<char>, service: ServiceName) -> bool {
    let prefix = qualified_text(service) + "-"@;
    instance_id.len() >= prefix.len() && instance_id.take(prefix.len() as int) == prefix
        && is_instance_suffix(instance_id.skip(prefix.len() as int))
}

/// Whether a text is the generation of a runtime: thirty-two hexadecimal
/// digits.
pub open spec fn is_runtime_generation(s: Seq<char>) -> bool {
    s.len() == 32 && forall|i: int| 0 <= i < 32 ==> is_hex_digit(#[trigger] s[i])
}

/// Whether a reference conflicts with an earlier one: it is of the same
/// instance, or has the same allocation.
pub open spec fn conflicts(earlier: Seq<Reference>, reference: Address) -> bool {
    exists|i: int|
        0 <= i < earlier.len() && ((#[trigger] earlier[i]).reference.instance_id
            == reference.instance_id || earlier[i].reference.container_index
            == reference.container_index)
}

/// Whether a reference is sound, given its service and the earlier ones.
pub open spec fn sound_reference(
    owner: Reference,
    service: Owner,
    earlier: Seq<Reference>,
) -> bool {
    &&& is_instance_of(owner.reference.instance_id, owner.service)
    &&& is_runtime_generation(owner.reference.generation)
    &&& owner.reference.container_index < CONTAINER_INDEX_LIMIT
    &&& !conflicts(earlier, owner.reference)
    &&& owner.phase == ReferencePhase::ReleaseAuthorised ==> !service.entry.has_instance(
        owner.reference.instance_id,
    )
}

/// The first complaint about a list of references, if there is one.
pub open spec fn references_complaint(
    references: Seq<Reference>,
    services: Seq<Owner>,
) -> Option<Seq<char>>
    decreases references.len(),
{
    if references.len() == 0 {
        None
    } else {
        let earlier = references.drop_last();
        let owner = references.last();
        match references_complaint(earlier, services) {
            Some(complaint) => Some(complaint),
            None => match owner_of(services, owner.service) {
                None => Some("network reference has no service owner"@),
                Some(service) => if sound_reference(owner, service, earlier) {
                    None
                } else {
                    Some("invalid or conflicting discovery network reference"@)
                },
            },
        }
    }
}

/// Whether an owner's executions are all of published backends.
pub open spec fn executions_published(owner: Owner) -> bool {
    forall|instance: Seq<char>| #[trigger]
        owner.executions.dom().contains(instance) ==> owner.entry.has_instance(instance)
}

/// The complaint about an inventory, if there is one.
pub open spec fn inventory_complaint(
    inventory: Inventory,
    checks: InventoryChecks,
) -> Option<Seq<char>> {
    if inventory.consumer is Some && ownership_complaint(
        inventory.consumer->0,
        checks.consumer->0,
    ) is Some {
        ownership_complaint(inventory.consumer->0, checks.consumer->0)
    } else if checks.snapshot is Err {
        Some(checks.snapshot->Err_0@)
    } else if exists|i: int|
        0 <= i < inventory.services.len() && (#[trigger] inventory.services[i]).phase
            == ServicePhase::Withdrawn && inventory.services[i].entry.backends.len() > 0 {
        Some("withdrawn service still contains backends"@)
    } else if exists|i: int|
        0 <= i < inventory.services.len() && !executions_published(
            #[trigger] inventory.services[i],
        ) {
        Some("execution witness has no published backend"@)
    } else {
        references_complaint(inventory.references, inventory.services)
    }
}

fn find_owner<'a>(services: &'a Vec<ServiceOwner>, id: &ServiceId) -> (r: Option<&'a ServiceOwner>)
    ensures
        (match r {
            Some(owner) => Some(owner@),
            None => None,
        }) == owner_of(owners(services@), id@),
        r is Some ==> exists|i: int| 0 <= i < services@.len() && services@[i] == *r->0,
{
    let ghost all = owners(services@);
    let mut i: usize = services.len();
    proof {
        assert(all.take(i as int) =~= all);
    }
    while i > 0
        invariant
            i <= services.len(),
            all == owners(services@),
            owner_of(all, id@) == owner_of(all.take(i as int), id@),
        decreases i,
    {
        proof {
            assert(all.take(i as int).drop_last() =~= all.take(i - 1));
            assert(all.take(i as int).last() == services@[i - 1]@);
        }
        if services[i - 1].entry.is_service(id.namespace.as_str(), id.name.as_str()) {
            return Some(&services[i - 1]);
        }
        i = i - 1;
    }
    None
}

fn is_canonical(s: &Vec<char>, max: u64) -> (r: bool)
    ensures
        r == canonical(s@, max as nat),
{
    match parse_unsigned(s, max) {
        Some(value) => same_text(decimal(value).as_str(), from_chars(s).as_str()),
        None => false,
    }
}

proof fn canonical_is_digits(s: Seq<char>, max: nat, i: int)
    requires
        canonical(s, max),
        0 <= i < s.len(),
    ensures
        is_digit(s[i]),
{
    decimal_reads_back(digits_value(unsigned_digits(s)));
}

fn is_generation_and_ordinal(s: &Vec<char>) -> (r: bool)
    ensures
        r == generation_and_ordinal(s@),
{
    let mut k: usize = 0;
    while k < s.len() && s[k] != '-'
        invariant
            k <= s.len(),
            forall|j: int| 0 <= j < k ==> s@[j] != '-',
        decreases s.len() - k,
    {
        k = k + 1;
    }
    if k >= s.len() {
        return false;
    }
    let generation = slice_of(s, 0, k);
    let ordinal = slice_of(s, k + 1, s.len());
    proof {
        assert(generation@ =~= s@.take(k as int));
        assert(ordinal@ =~= s@.skip(k as int + 1));
    }
    let r = is_canonical(&generation, u64::MAX) && is_canonical(&ordinal, u32::MAX as u64);
    proof {
        if generation_and_ordinal(s@) {
            let m = choose|m: int|
                0 <= m < s@.len() && #[trigger] s@[m] == '-' && canonical(
                    s@.take(m),
                    u64::MAX as nat,
                ) && canonical(s@.skip(m + 1), u32::MAX as nat);
            assert(m >= k);
            if m > k {
                canonical_is_digits(s@.take(m), u64::MAX as nat, k as int);
                assert(s@.take(m)[k as int] == '-');
            }
        }
        if r {
            assert(s@[k as int] == '-');
        }
    }
    r
}

fn suffix_is_valid(suffix: &Vec<char>) -> (r: bool)
    ensures
        r == is_instance_suffix(suffix@),
{
    if is_canonical(suffix, u32::MAX as u64) {
        return true;
    }
    if suffix.len() == 0 || suffix[0] != 'g' {
        return false;
    }
    let rest = slice_of(suffix, 1, suffix.len());
    proof {
        assert(rest@ =~= suffix@.skip(1));
    }
    is_generation_and_ordinal(&rest)
}

fn instance_is_of(instance_id: &String, service: &ServiceId) -> (r: bool)
    ensures
        r == is_instance_of(instance_id@, service@),
{
    let mut prefix: String = service.qualified();
    prefix.append("-");
    let p = to_chars(prefix.as_str());
    let id = to_chars(instance_id.as_str());
    if id.len() < p.len() {
        return false;
    }
    let start = slice_of(&id, 0, p.len());
    proof {
        assert(start@ =~= instance_id@.take(p@.len() as int));
    }
    if !same_text(from_chars(&start).as_str(), prefix.as_str()) {
        return false;
    }
    let suffix = slice_of(&id, p.len(), id.len());
    proof {
        assert(suffix@ =~= instance_id@.skip(p@.len() as int));
    }
    suffix_is_valid(&suffix)
}

fn generation_is_valid(generation: &String) -> (r: bool)
    ensures
        r == is_runtime_generation(generation@),
{
    let chars = to_chars(generation.as_str());
    if chars.len() != 32 {
        return false;
    }
    let mut i: usize = 0;
    while i < 32
        invariant
            chars@ == generation@,
            chars.len() == 32,
            i <= 32,
            forall|j: int| 0 <= j < i ==> is_hex_digit(#[trigger] generation@[j]),
        decreases 32 - i,
    {
        let c: char = chars[i];
        if !(('0' <= c && c <= '9') || ('a' <= c && c <= 'f') || ('A' <= c && c <= 'F')) {
            proof {
                assert(!is_hex_digit(generation@[i as int]));
            }
            return false;
        }
        i = i + 1;
    }
    true
}

fn reference_conflicts(references: &Vec<ReferenceOwner>, count: usize, at: usize) -> (r: bool)
    requires
        count <= references@.len(),
        at < references@.len(),
    ensures
        r == conflicts(views(references@).take(count as int), references@[at as int].reference@),
{
    let ghost earlier = views(references@).take(count as int);
    let mut i: usize = 0;
    while i < count
        invariant
            count <= references@.len(),
            at < references@.len(),
            i <= count,
            earlier == views(references@).take(count as int),
            forall|j: int|
                0 <= j < i ==> !((#[trigger] earlier[j]).reference.instance_id
                    == references@[at as int].reference@.instance_id
                    || earlier[j].reference.container_index
                    == references@[at as int].reference@.container_index),
        decreases count - i,
    {
        proof {
            assert(earlier[i as int] == references@[i as int]@);
        }
        if same_text(
            references[i].reference.instance_id.as_str(),
            references[at].reference.instance_id.as_str(),
        ) || references[i].reference.container_index == references[at].reference.container_index {
            return true;
        }
        i = i + 1;
    }
    false
}

proof fn references_complaint_stays(references: Seq<Reference>, services: Seq<Owner>, i: int)
    requires
        0 <= i <= references.len(),
        references_complaint(references.take(i), services) is Some,
    ensures
        references_complaint(references, services) == references_complaint(
            references.take(i),
            services,
        ),
    decreases references.len() - i,
{
    if i < references.len() {
        assert(references.take(i + 1).drop_last() =~= references.take(i));
        references_complaint_stays(references, services, i + 1);
    } else {
        assert(references.take(i) =~= references);
    }
}

fn check_references(inventory: &DiscoveryInventory) -> (r: Result<(), String>)
    ensures
        complaint_of(r) == references_complaint(inventory@.references, inventory@.services),
{
    let ghost all = inventory@.references;
    let ghost services = inventory@.services;
    let mut i: usize = 0;
    proof {
        assert(all.take(0) =~= Seq::<Reference>::empty());
    }
    while i < inventory.references.len()
        invariant
            i <= inventory.references.len(),
            all == views(inventory.references@),
            services == owners(inventory.services@),
            all == inventory@.references,
            services == inventory@.services,
            references_complaint(all.take(i as int), services) is None,
        decreases inventory.references.len() - i,
    {
        let owner = &inventory.references[i];
        proof {
            assert(all.take(i as int + 1).drop_last() =~= all.take(i as int));
            assert(all.take(i as int + 1).last() == owner@);
            if references_complaint(all.take(i as int + 1), services) is Some {
                references_complaint_stays(all, services, i as int + 1);
            }
        }
        match find_owner(&inventory.services, &owner.service) {
            None => {
                return Err("network reference has no service owner".to_owned());
            },
            Some(service) => {
                if !instance_is_of(&owner.reference.instance_id, &owner.service)
                    || !generation_is_valid(&owner.reference.generation)
                    || owner.reference.container_index >= CONTAINER_INDEX_LIMIT
                    || reference_conflicts(&inventory.references, i, i) || (owner.phase
                    == ReferencePhase::ReleaseAuthorised && service.entry.serves_from(
                    owner.reference.instance_id.as_str(),
                )) {
                    return Err(
                        "invalid or conflicting discovery network reference".to_owned(),
                    );
                }
            },
        }
        i = i + 1;
    }
    proof {
        assert(all.take(all.len() as int) =~= all);
    }
    Ok(())
}

fn executions_are_published(owner: &ServiceOwner) -> (r: bool)
    requires
        owner.executions.wf(),
    ensures
        r == executions_published(owner@),
{
    let mut i: usize = 0;
    while i < owner.executions.entries.len()
        invariant
            owner.executions.wf(),
            i <= owner.executions.entries.len(),
            forall|j: int|
                0 <= j < i ==> owner@.entry.has_instance(
                    (#[trigger] owner.executions.entries@[j]).0@,
                ),
        decreases owner.executions.entries.len() - i,
    {
        if !owner.entry.serves_from(owner.executions.entries[i].0.as_str()) {
            proof {
                owner.executions.entry_is_value(i as int);
                assert(owner@.executions.dom().contains(owner.executions.entries@[i as int].0@));
            }
            return false;
        }
        i = i + 1;
    }
    proof {
        assert forall|instance: Seq<char>| #[trigger]
            owner@.executions.dom().contains(instance) implies owner@.entry.has_instance(
            instance,
        ) by {
            assert(owner.executions@.dom().contains(instance));
            let k = key_index(owner.executions.entries@, instance);
            assert(owner@.entry.has_instance(owner.executions.entries@[k].0@));
        }
    }
    true
}

/// Check that an inventory is sound, given what the surrounding agent says of
/// its parts.
pub fn validate(inventory: &DiscoveryInventory, checks: &InventoryChecks) -> (r: Result<
    (),
    String,
>)
    requires
        inventory.wf(),
        inventory_checks_fit(inventory@, *checks),
    ensures
        complaint_of(r) == inventory_complaint(inventory@, *checks),
{
    match &inventory.consumer {
        Some(owner) => match &checks.consumer {
            Some(consumer_checks) => match owner.validate(consumer_checks) {
                Err(text) => {
                    return Err(text);
                },
                Ok(()) => {},
            },
            None => {},
        },
        None => {},
    }
    match &checks.snapshot {
        Err(text) => {
            return Err(text.clone());
        },
        Ok(()) => {},
    }
    let ghost services = inventory@.services;
    let mut i: usize = 0;
    while i < inventory.services.len()
        invariant
            i <= inventory.services.len(),
            checks.snapshot is Ok,
            !(inventory@.consumer is Some && ownership_complaint(
                inventory@.consumer->0,
                checks.consumer->0,
            ) is Some),
            services == inventory@.services,
            forall|j: int|
                0 <= j < i ==> !((#[trigger] services[j]).phase == ServicePhase::Withdrawn
                    && services[j].entry.backends.len() > 0),
        decreases inventory.services.len() - i,
    {
        proof {
            assert(services[i as int] == inventory.services@[i as int]@);
            assert(views(inventory.services@[i as int].entry.backends@).len()
                == inventory.services@[i as int].entry.backends@.len());
        }
        if inventory.services[i].phase == ServicePhase::Withdrawn
            && inventory.services[i].entry.backends.len() > 0 {
            return Err("withdrawn service still contains backends".to_owned());
        }
        i = i + 1;
    }
    let mut k: usize = 0;
    while k < inventory.services.len()
        invariant
            inventory.wf(),
            k <= inventory.services.len(),
            checks.snapshot is Ok,
            !(inventory@.consumer is Some && ownership_complaint(
                inventory@.consumer->0,
                checks.consumer->0,
            ) is Some),
            services == inventory@.services,
            forall|j: int|
                0 <= j < services.len() ==> !((#[trigger] services[j]).phase
                    == ServicePhase::Withdrawn && services[j].entry.backends.len() > 0),
            forall|j: int| 0 <= j < k ==> executions_published(#[trigger] services[j]),
        decreases inventory.services.len() - k,
    {
        proof {
            assert(services[k as int] == inventory.services@[k as int]@);
        }
        if !executions_are_published(&inventory.services[k]) {
            return Err("execution witness has no published backend".to_owned());
        }
        k = k + 1;
    }
    check_references(inventory)
}

/// Whether a successor keeps the executions of the backends that it still
/// publishes.
pub open spec fn executions_kept(original: Owner, successor: Owner) -> bool {
    forall|instance: Seq<char>| #[trigger]
        original.executions.dom().contains(instance) && successor.entry.has_instance(instance)
            ==> successor.executions.dom().contains(instance)
            && successor.executions[instance] == original.executions[instance]
}

/// Whether a service allocation is properly kept or retired: it keeps its
/// address and port, is never reactivated, and retires only once withdrawn.
pub open spec fn allocation_kept(original: Owner, successor: Option<Owner>) -> bool {
    match successor {
        Some(owner) => owner.entry.vip == original.entry.vip && owner.entry.port
            == original.entry.port && (original.phase == ServicePhase::Owned || owner.phase
            == ServicePhase::Withdrawn),
        None => original.phase == ServicePhase::Withdrawn,
    }
}

/// The first complaint about what becomes of a list of services, if there is
/// one.
pub open spec fn services_complaint(previous: Seq<Owner>, next: Seq<Owner>) -> Option<Seq<char>>
    decreases previous.len(),
{
    if previous.len() == 0 {
        None
    } else {
        let original = previous.last();
        let successor = owner_of(next, original.entry.id());
        match services_complaint(previous.drop_last(), next) {
            Some(complaint) => Some(complaint),
            None => if successor is Some && !executions_kept(original, successor->0) {
                Some("published execution changed without withdrawal"@)
            } else if !allocation_kept(original, successor) {
                Some("original service allocation has not retired"@)
            } else {
                None
            },
        }
    }
}

/// The last reference of an instance, if there is one.
pub open spec fn reference_of(
    references: Seq<Reference>,
    instance_id: Seq<char>,
) -> Option<Reference>
    decreases references.len(),
{
    if references.len() == 0 {
        None
    } else if references.last().reference.instance_id == instance_id {
        Some(references.last())
    } else {
        reference_of(references.drop_last(), instance_id)
    }
}

/// Whether a reference is properly kept or retired: it keeps its address and
/// service, its release permission is never taken back, and it retires only
/// with that permission.
pub open spec fn reference_kept(original: Reference, successor: Option<Reference>) -> bool {
    match successor {
        Some(owner) => owner.reference == original.reference && owner.service
            == original.service && (original.phase == ReferencePhase::Held || owner.phase
            == ReferencePhase::ReleaseAuthorised),
        None => original.phase == ReferencePhase::ReleaseAuthorised,
    }
}

/// Whether every reference is properly kept or retired.
pub open spec fn references_kept(previous: Seq<Reference>, next: Seq<Reference>) -> bool {
    forall|i: int|
        0 <= i < previous.len() ==> reference_kept(
            #[trigger] previous[i],
            reference_of(next, previous[i].reference.instance_id),
        )
}

/// The complaint about a successor of an inventory, if there is one.
pub open spec fn successor_complaint(previous: Inventory, next: Inventory) -> Option<Seq<char>> {
    if transition_complaint(previous.consumer, next.consumer) is Some {
        transition_complaint(previous.consumer, next.consumer)
    } else if services_complaint(previous.services, next.services) is Some {
        services_complaint(previous.services, next.services)
    } else if !references_kept(previous.references, next.references) {
        Some("original network reference has not retired"@)
    } else {
        None
    }
}

fn executions_are_kept(original: &ServiceOwner, successor: &ServiceOwner) -> (r: bool)
    requires
        original.executions.wf(),
        successor.executions.wf(),
    ensures
        r == executions_kept(original@, successor@),
{
    let mut i: usize = 0;
    while i < original.executions.entries.len()
        invariant
            original.executions.wf(),
            successor.executions.wf(),
            i <= original.executions.entries.len(),
            forall|j: int|
                0 <= j < i && successor@.entry.has_instance(
                    (#[trigger] original.executions.entries@[j]).0@,
                ) ==> successor@.executions.dom().contains(original.executions.entries@[j].0@)
                    && successor@.executions[original.executions.entries@[j].0@]
                    == original.executions.entries@[j].1@,
        decreases original.executions.entries.len() - i,
    {
        let instance = &original.executions.entries[i].0;
        let generation = &original.executions.entries[i].1;
        proof {
            original.executions.entry_is_value(i as int);
            assert(original@.executions.dom().contains(instance@));
            assert(original@.executions[instance@] == generation@);
        }
        if successor.entry.serves_from(instance.as_str()) {
            let kept: bool = match successor.executions.get(instance) {
                Some(own) => same_text(own.as_str(), generation.as_str()),
                None => false,
            };
            if !kept {
                return false;
            }
        }
        i = i + 1;
    }
    proof {
        assert forall|instance: Seq<char>| #[trigger]
            original@.executions.dom().contains(instance) && successor@.entry.has_instance(
                instance,
            ) implies successor@.executions.dom().contains(instance)
            && successor@.executions[instance] == original@.executions[instance] by {
            assert(original.executions@.dom().contains(instance));
            let k = key_index(original.executions.entries@, instance);
            original.executions.entry_is_value(k);
            assert(original.executions.entries@[k].0@ == instance);
        }
    }
    true
}

proof fn services_complaint_stays(previous: Seq<Owner>, next: Seq<Owner>, i: int)
    requires
        0 <= i <= previous.len(),
        services_complaint(previous.take(i), next) is Some,
    ensures
        services_complaint(previous, next) == services_complaint(previous.take(i), next),
    decreases previous.len() - i,
{
    if i < previous.len() {
        assert(previous.take(i + 1).drop_last() =~= previous.take(i));
        services_complaint_stays(previous, next, i + 1);
    } else {
        assert(previous.take(i) =~= previous);
    }
}

fn check_services(previous: &DiscoveryInventory, next: &DiscoveryInventory) -> (r: Result<
    (),
    String,
>)
    requires
        previous.wf(),
        next.wf(),
    ensures
        complaint_of(r) == services_complaint(previous@.services, next@.services),
{
    let ghost all = previous@.services;
    let ghost new = next@.services;
    let mut i: usize = 0;
    proof {
        assert(all.take(0) =~= Seq::<Owner>::empty());
    }
    while i < previous.services.len()
        invariant
            previous.wf(),
            next.wf(),
            i <= previous.services.len(),
            all == previous@.services,
            new == next@.services,
            services_complaint(all.take(i as int), new) is None,
        decreases previous.services.len() - i,
    {
        let original = &previous.services[i];
        proof {
            assert(all.take(i as int + 1).drop_last() =~= all.take(i as int));
            assert(all.take(i as int + 1).last() == original@);
            if services_complaint(all.take(i as int + 1), new) is Some {
                services_complaint_stays(all, new, i as int + 1);
            }
        }
        let id = ServiceId::new(
            original.entry.namespace.as_str(),
            original.entry.app_name.as_str(),
        );
        match find_owner(&next.services, &id) {
            Some(successor) => {
                if !executions_are_kept(original, successor) {
                    return Err("published execution changed without withdrawal".to_owned());
                }
                if successor.entry.vip != original.entry.vip || successor.entry.port
                    != original.entry.port || !(original.phase == ServicePhase::Owned
                    || successor.phase == ServicePhase::Withdrawn) {
                    return Err("original service allocation has not retired".to_owned());
                }
            },
            None => {
                if original.phase != ServicePhase::Withdrawn {
                    return Err("original service allocation has not retired".to_owned());
                }
            },
        }
        i = i + 1;
    }
    proof {
        assert(all.take(all.len() as int) =~= all);
    }
    Ok(())
}

fn find_reference<'a>(references: &'a Vec<ReferenceOwner>, instance_id: &str) -> (r: Option<
    &'a ReferenceOwner,
>)
    ensures
        (match r {
            Some(owner) => Some(owner@),
            None => None,
        }) == reference_of(views(references@), instance_id@),
{
    let ghost all = views(references@);
    let mut i: usize = references.len();
    proof {
        assert(all.take(i as int) =~= all);
    }
    while i > 0
        invariant
            i <= references.len(),
            all == views(references@),
            reference_of(all, instance_id@) == reference_of(all.take(i as int), instance_id@),
        decreases i,
    {
        proof {
            assert(all.take(i as int).drop_last() =~= all.take(i - 1));
            assert(all.take(i as int).last() == references@[i - 1]@);
        }
        if same_text(references[i - 1].reference.instance_id.as_str(), instance_id) {
            return Some(&references[i - 1]);
        }
        i = i - 1;
    }
    None
}

fn references_are_kept(
    previous: &Vec<ReferenceOwner>,
    next: &Vec<ReferenceOwner>,
) -> (r: bool)
    ensures
        r == references_kept(views(previous@), views(next@)),
{
    let ghost all = views(previous@);
    let mut i: usize = 0;
    while i < previous.len()
        invariant
            i <= previous.len(),
            all == views(previous@),
            forall|j: int|
                0 <= j < i ==> reference_kept(
                    #[trigger] all[j],
                    reference_of(views(next@), all[j].reference.instance_id),
                ),
        decreases previous.len() - i,
    {
        let original = &previous[i];
        proof {
            assert(all[i as int] == original@);
        }
        let kept: bool = match find_reference(
            next,
            original.reference.instance_id.as_str(),
        ) {
            Some(successor) => successor.reference.same(&original.reference)
                && successor.service.same(&original.service) && (original.phase
                == ReferencePhase::Held || successor.phase == ReferencePhase::ReleaseAuthorised),
            None => original.phase == ReferencePhase::ReleaseAuthorised,
        };
        if !kept {
            return false;
        }
        i = i + 1;
    }
    true
}

/// Check that an inventory may replace another.
pub fn validate_transition(previous: &DiscoveryInventory, next: &DiscoveryInventory) -> (r: Result<
    (),
    String,
>)
    requires
        previous.wf(),
        next.wf(),
    ensures
        complaint_of(r) == successor_complaint(previous@, next@),
{
    match crate::consumer_owners::validate_transition(
        previous.consumer.as_ref(),
        next.consumer.as_ref(),
    ) {
        Err(text) => {
            return Err(text);
        },
        Ok(()) => {},
    }
    match check_services(previous, next) {
        Err(text) => {
            return Err(text);
        },
        Ok(()) => {},
    }
    if !references_are_kept(&previous.references, &next.references) {
        return Err("original network reference has not retired".to_owned());
    }
    Ok(())
}

/// Ports of a launch.
#[derive(Debug, Clone, Copy, PartialEq, Eq, Structural)]
pub struct PortMapping {
    /// Port on the host.
    pub host_port: u16,
    /// Port of the workload.
    pub container_port: u16,
}

/// What the runtime says of an address.
#[derive(Debug)]
pub enum NetworkReferenceState {
    /// It is held.
    Held(NetworkReference),
    /// It was released.
    Released(NetworkReference),
}

/// A launch as the runtime lists it.
#[derive(Debug)]
pub struct RuntimeLaunch {
    /// Instance that was launched.
    pub instance_id: String,
    /// Fingerprint of the launch's generation.
    pub generation: String,
    /// Address of the launch, if it has one.
    pub network_reference: Option<NetworkReferenceState>,
    /// Fingerprint of the generation that the address is of.
    pub reference_generation: String,
    /// Whether the launch has a cgroup on the host.
    pub has_cgroup: bool,
    /// Services whose instance of this name would run in the launch's cgroup.
    pub cgroup_services: Vec<ServiceId>,
    /// Ports of the launch, if it has any.
    pub port_mapping: Option<PortMapping>,
}

/// The address of a launch.
pub ghost struct Network {
    /// Whether it was released.
    pub released: bool,
    /// The address.
    pub address: Address,
}

/// A launch as its facts.
pub ghost struct Launch {
    /// Instance.
    pub instance_id: Seq<char>,
    /// Generation.
    pub generation: Seq<char>,
    /// Its address.
    pub network: Option<Network>,
    /// Generation of the address.
    pub reference_generation: Seq<char>,
    /// Whether there is a cgroup.
    pub has_cgroup: bool,
    /// Services that the cgroup may be of.
    pub cgroup_services: Seq<ServiceName>,
    /// Ports.
    pub port_mapping: Option<PortMapping>,
}

impl View for RuntimeLaunch {
    type V = Launch;

    open spec fn view(&self) -> Launch {
        Launch {
            instance_id: self.instance_id@,
            generation: self.generation@,
            network: match self.network_reference {
                Some(NetworkReferenceState::Held(reference)) => Some(
                    Network { released: false, address: reference@ },
                ),
                Some(NetworkReferenceState::Released(reference)) => Some(
                    Network { released: true, address: reference@ },
                ),
                None => None,
            },
            reference_generation: self.reference_generation@,
            has_cgroup: self.has_cgroup,
            cgroup_services: views(self.cgroup_services@),
            port_mapping: self.port_mapping,
        }
    }
}

/// The facts of each launch in a list.
pub open spec fn launch_list(list: Seq<RuntimeLaunch>) -> Seq<Launch> {
    list.map_values(|l: RuntimeLaunch| l@)
}

/// Whether an owned service is the one that a launch is of, by port and
/// cgroup.
pub open spec fn matches_launch(owner: Owner, launch: Launch, port: u16) -> bool {
    owner.phase == ServicePhase::Owned && owner.entry.port == port
        && launch.cgroup_services.contains(owner.entry.id())
}

/// The services that a launch may be of.
pub open spec fn launch_candidates(services: Seq<Owner>, launch: Launch, port: u16) -> Seq<Owner> {
    services.filter(|o: Owner| matches_launch(o, launch, port))
}

/// The one service that a launch is of, or why there is none.
pub open spec fn launch_service(services: Seq<Owner>, launch: Launch) -> Result<
    ServiceName,
    Seq<char>,
> {
    if !launch.has_cgroup {
        Err("runtime reference has no original cgroup identity"@)
    } else if launch.port_mapping is None {
        Err("runtime reference has no original service port"@)
    } else {
        let found = launch_candidates(services, launch, launch.port_mapping->0.container_port);
        if found.len() == 0 {
            Err("runtime reference has no matching original service"@)
        } else if found.len() > 1 {
            Err("runtime reference has ambiguous service ownership"@)
        } else {
            Ok(found[0].entry.id())
        }
    }
}

fn cgroup_may_be_of(launch: &RuntimeLaunch, namespace: &str, name: &str) -> (r: bool)
    ensures
        r == launch@.cgroup_services.contains(
            ServiceName { namespace: namespace@, name: name@ },
        ),
{
    let ghost all = views(launch.cgroup_services@);
    let ghost id = ServiceName { namespace: namespace@, name: name@ };
    let mut i: usize = 0;
    while i < launch.cgroup_services.len()
        invariant
            i <= launch.cgroup_services.len(),
            all == views(launch.cgroup_services@),
            id == (ServiceName { namespace: namespace@, name: name@ }),
            forall|j: int| 0 <= j < i ==> all[j] != id,
        decreases launch.cgroup_services.len() - i,
    {
        let own = &launch.cgroup_services[i];
        proof {
            assert(all[i as int] == own@);
        }
        if same_text(own.namespace.as_str(), namespace) && same_text(own.name.as_str(), name) {
            proof {
                assert(all[i as int] == id);
            }
            return true;
        }
        i = i + 1;
    }
    false
}

/// Find the one service that a launch is of. Structured ownership decides,
/// never the text of the instance's name.
pub fn service_for_launch(services: &Vec<ServiceOwner>, launch: &RuntimeLaunch) -> (r: Result<
    ServiceId,
    String,
>)
    ensures
        match launch_service(owners(services@), launch@) {
            Ok(id) => r is Ok && r->Ok_0@ == id,
            Err(complaint) => r is Err && r->Err_0@ == complaint,
        },
{
    if !launch.has_cgroup {
        return Err("runtime reference has no original cgroup identity".to_owned());
    }
    let port: u16 = match launch.port_mapping {
        None => {
            return Err("runtime reference has no original service port".to_owned());
        },
        Some(mapping) => mapping.container_port,
    };
    let ghost all = owners(services@);
    let ghost fits = |o: Owner| matches_launch(o, launch@, port);
    let mut count: usize = 0;
    let mut first: usize = 0;
    let mut i: usize = 0;
    proof {
        reveal(Seq::filter);
        assert(all.take(0).filter(fits) =~= Seq::<Owner>::empty());
    }
    while i < services.len()
        invariant
            i <= services.len(),
            all == owners(services@),
            fits == (|o: Owner| matches_launch(o, launch@, port)),
            count <= i,
            count == all.take(i as int).filter(fits).len(),
            count > 0 ==> first < i && all.take(i as int).filter(fits)[0] == all[first as int],
        decreases services.len() - i,
    {
        let owner = &services[i];
        let ghost before = all.take(i as int).filter(fits);
        proof {
            reveal(Seq::filter);
            assert(all.take(i as int + 1).drop_last() =~= all.take(i as int));
            assert(all.take(i as int + 1).last() == owner@);
        }
        if owner.phase == ServicePhase::Owned && owner.entry.port == port && cgroup_may_be_of(
            launch,
            owner.entry.namespace.as_str(),
            owner.entry.app_name.as_str(),
        ) {
            if count == 0 {
                first = i;
            }
            count = count + 1;
            proof {
                assert(all.take(i as int + 1).filter(fits) =~= before.push(owner@));
            }
        }
        i = i + 1;
    }
    proof {
        assert(all.take(all.len() as int) =~= all);
    }
    if count == 0 {
        return Err("runtime reference has no matching original service".to_owned());
    }
    if count > 1 {
        return Err("runtime reference has ambiguous service ownership".to_owned());
    }
    Ok(
        ServiceId::new(
            services[first].entry.namespace.as_str(),
            services[first].entry.app_name.as_str(),
        ),
    )
}

/// Whether a list has a launch of an instance.
pub open spec fn has_launch(launches: Seq<Launch>, instance_id: Seq<char>) -> bool {
    exists|i: int| 0 <= i < launches.len() && (#[trigger] launches[i]).instance_id == instance_id
}

/// The first launch of an instance, if there is one.
pub open spec fn launch_of(launches: Seq<Launch>, instance_id: Seq<char>) -> Option<Launch>
    decreases launches.len(),
{
    if launches.len() == 0 {
        None
    } else if launches[0].instance_id == instance_id {
        Some(launches[0])
    } else {
        launch_of(launches.skip(1), instance_id)
    }
}

fn find_launch<'a>(launches: &'a Vec<RuntimeLaunch>, instance_id: &str) -> (r: Option<
    &'a RuntimeLaunch,
>)
    ensures
        (match r {
            Some(launch) => Some(launch@),
            None => None,
        }) == launch_of(launch_list(launches@), instance_id@),
{
    let ghost all = launch_list(launches@);
    let mut i: usize = 0;
    proof {
        assert(all.skip(0) =~= all);
    }
    while i < launches.len()
        invariant
            i <= launches.len(),
            all == launch_list(launches@),
            launch_of(all, instance_id@) == launch_of(all.skip(i as int), instance_id@),
        decreases launches.len() - i,
    {
        proof {
            assert(all.skip(i as int)[0] == launches@[i as int]@);
            assert(all.skip(i as int).skip(1) =~= all.skip(i as int + 1));
        }
        if same_text(launches[i].instance_id.as_str(), instance_id) {
            return Some(&launches[i]);
        }
        i = i + 1;
    }
    None
}

/// The first complaint about a list of launches, if there is one: an instance
/// is listed once, and an address is of its own launch.
pub open spec fn launches_complaint(launches: Seq<Launch>) -> Option<Seq<char>>
    decreases launches.len(),
{
    if launches.len() == 0 {
        None
    } else {
        let earlier = launches.drop_last();
        let launch = launches.last();
        match launches_complaint(earlier) {
            Some(complaint) => Some(complaint),
            None => if has_launch(earlier, launch.instance_id) {
                Some("duplicate runtime launch identity"@)
            } else if launch.network is Some && (launch.network->0.address.instance_id
                != launch.instance_id || launch.generation != launch.reference_generation) {
                Some("runtime reference belongs to another instance or generation"@)
            } else {
                None
            },
        }
    }
}

proof fn launches_complaint_stays(launches: Seq<Launch>, i: int)
    requires
        0 <= i <= launches.len(),
        launches_complaint(launches.take(i)) is Some,
    ensures
        launches_complaint(launches) == launches_complaint(launches.take(i)),
    decreases launches.len() - i,
{
    if i < launches.len() {
        assert(launches.take(i + 1).drop_last() =~= launches.take(i));
        launches_complaint_stays(launches, i + 1);
    } else {
        assert(launches.take(i) =~= launches);
    }
}

fn launched_before(launches: &Vec<RuntimeLaunch>, count: usize, instance_id: &str) -> (r: bool)
    requires
        count <= launches@.len(),
    ensures
        r == has_launch(launch_list(launches@).take(count as int), instance_id@),
{
    let ghost earlier = launch_list(launches@).take(count as int);
    let mut i: usize = 0;
    while i < count
        invariant
            count <= launches@.len(),
            i <= count,
            earlier == launch_list(launches@).take(count as int),
            forall|j: int| 0 <= j < i ==> (#[trigger] earlier[j]).instance_id != instance_id@,
        decreases count - i,
    {
        proof {
            assert(earlier[i as int] == launches@[i as int]@);
        }
        if same_text(launches[i].instance_id.as_str(), instance_id) {
            return true;
        }
        i = i + 1;
    }
    false
}

fn check_launches(launches: &Vec<RuntimeLaunch>) -> (r: Result<(), String>)
    ensures
        complaint_of(r) == launches_complaint(launch_list(launches@)),
{
    let ghost all = launch_list(launches@);
    let mut i: usize = 0;
    proof {
        assert(all.take(0) =~= Seq::<Launch>::empty());
    }
    while i < launches.len()
        invariant
            i <= launches.len(),
            all == launch_list(launches@),
            launches_complaint(all.take(i as int)) is None,
        decreases launches.len() - i,
    {
        let launch = &launches[i];
        proof {
            assert(all.take(i as int + 1).drop_last() =~= all.take(i as int));
            assert(all.take(i as int + 1).last() == launch@);
            if launches_complaint(all.take(i as int + 1)) is Some {
                launches_complaint_stays(all, i as int + 1);
            }
        }
        if launched_before(launches, i, launch.instance_id.as_str()) {
            return Err("duplicate runtime launch identity".to_owned());
        }
        match &launch.network_reference {
            Some(NetworkReferenceState::Held(reference))
            | Some(NetworkReferenceState::Released(reference)) => {
                if !same_text(reference.instance_id.as_str(), launch.instance_id.as_str())
                    || !same_text(
                    launch.generation.as_str(),
                    launch.reference_generation.as_str(),
                ) {
                    return Err(
                        "runtime reference belongs to another instance or generation".to_owned(),
                    );
                }
            },
            None => {},
        }
        i = i + 1;
    }
    proof {
        assert(all.take(all.len() as int) =~= all);
    }
    Ok(())
}

/// The complaint about a reference against the launches, if there is one.
pub open spec fn reference_complaint(
    owner: Reference,
    services: Seq<Owner>,
    launches: Seq<Launch>,
) -> Option<Seq<char>> {
    match launch_of(launches, owner.reference.instance_id) {
        None => Some("original runtime reference is missing"@),
        Some(launch) => match launch.network {
            None => Some("original runtime reference is missing"@),
            Some(network) => if network.address != owner.reference || (network.released
                && owner.phase != ReferencePhase::ReleaseAuthorised) {
                Some("original runtime reference conflicts with discovery ownership"@)
            } else {
                match launch_service(services, launch) {
                    Err(complaint) => Some(complaint),
                    Ok(id) => if id != owner.service {
                        Some("runtime specification conflicts with original service"@)
                    } else {
                        None
                    },
                }
            },
        },
    }
}

/// The first complaint about the references against the launches.
pub open spec fn correlation_complaint(
    references: Seq<Reference>,
    services: Seq<Owner>,
    launches: Seq<Launch>,
) -> Option<Seq<char>>
    decreases references.len(),
{
    if references.len() == 0 {
        None
    } else {
        match correlation_complaint(references.drop_last(), services, launches) {
            Some(complaint) => Some(complaint),
            None => reference_complaint(references.last(), services, launches),
        }
    }
}

proof fn correlation_complaint_stays(
    references: Seq<Reference>,
    services: Seq<Owner>,
    launches: Seq<Launch>,
    i: int,
)
    requires
        0 <= i <= references.len(),
        correlation_complaint(references.take(i), services, launches) is Some,
    ensures
        correlation_complaint(references, services, launches) == correlation_complaint(
            references.take(i),
            services,
            launches,
        ),
    decreases references.len() - i,
{
    if i < references.len() {
        assert(references.take(i + 1).drop_last() =~= references.take(i));
        correlation_complaint_stays(references, services, launches, i + 1);
    } else {
        assert(references.take(i) =~= references);
    }
}

fn check_reference(
    owner: &ReferenceOwner,
    services: &Vec<ServiceOwner>,
    launches: &Vec<RuntimeLaunch>,
) -> (r: Result<(), String>)
    ensures
        complaint_of(r) == reference_complaint(
            owner@,
            owners(services@),
            launch_list(launches@),
        ),
{
    let launch = match find_launch(launches, owner.reference.instance_id.as_str()) {
        None => {
            return Err("original runtime reference is missing".to_owned());
        },
        Some(launch) => launch,
    };
    let (reference, released) = match &launch.network_reference {
        Some(NetworkReferenceState::Held(reference)) => (reference, false),
        Some(NetworkReferenceState::Released(reference)) => (reference, true),
        None => {
            return Err("original runtime reference is missing".to_owned());
        },
    };
    if !reference.same(&owner.reference) || (released && owner.phase
        != ReferencePhase::ReleaseAuthorised) {
        return Err("original runtime reference conflicts with discovery ownership".to_owned());
    }
    match service_for_launch(services, launch) {
        Err(text) => Err(text),
        Ok(id) => {
            if !id.same(&owner.service) {
                return Err("runtime specification conflicts with original service".to_owned());
            }
            Ok(())
        },
    }
}

fn check_correlation(inventory: &DiscoveryInventory, launches: &Vec<RuntimeLaunch>) -> (r: Result<
    (),
    String,
>)
    ensures
        complaint_of(r) == correlation_complaint(
            inventory@.references,
            inventory@.services,
            launch_list(launches@),
        ),
{
    let ghost all = inventory@.references;
    let ghost services = inventory@.services;
    let ghost listed = launch_list(launches@);
    let mut i: usize = 0;
    proof {
        assert(all.take(0) =~= Seq::<Reference>::empty());
    }
    while i < inventory.references.len()
        invariant
            i <= inventory.references.len(),
            all == inventory@.references,
            services == inventory@.services,
            listed == launch_list(launches@),
            correlation_complaint(all.take(i as int), services, listed) is None,
        decreases inventory.references.len() - i,
    {
        proof {
            assert(all.take(i as int + 1).drop_last() =~= all.take(i as int));
            assert(all.take(i as int + 1).last() == inventory.references@[i as int]@);
            if correlation_complaint(all.take(i as int + 1), services, listed) is Some {
                correlation_complaint_stays(all, services, listed, i as int + 1);
            }
        }
        match check_reference(&inventory.references[i], &inventory.services, launches) {
            Err(text) => {
                return Err(text);
            },
            Ok(()) => {},
        }
        i = i + 1;
    }
    proof {
        assert(all.take(all.len() as int) =~= all);
    }
    Ok(())
}

/// The references with a hold for every launch that holds an address which no
/// reference is of; or why a hold has no service.
pub open spec fn with_holds(
    references: Seq<Reference>,
    services: Seq<Owner>,
    launches: Seq<Launch>,
) -> Result<Seq<Reference>, Seq<char>>
    decreases launches.len(),
{
    if launches.len() == 0 {
        Ok(references)
    } else {
        let launch = launches.last();
        match with_holds(references, services, launches.drop_last()) {
            Err(complaint) => Err(complaint),
            Ok(before) => if launch.network is None || launch.network->0.released || reference_of(
                before,
                launch.instance_id,
            ) is Some {
                Ok(before)
            } else {
                match launch_service(services, launch) {
                    Err(complaint) => Err(complaint),
                    Ok(id) => Ok(
                        before.push(
                            Reference {
                                service: id,
                                reference: launch.network->0.address,
                                phase: ReferencePhase::Held,
                            },
                        ),
                    ),
                }
            },
        }
    }
}

proof fn with_holds_stays(
    references: Seq<Reference>,
    services: Seq<Owner>,
    launches: Seq<Launch>,
    i: int,
)
    requires
        0 <= i <= launches.len(),
        with_holds(references, services, launches.take(i)) is Err,
    ensures
        with_holds(references, services, launches) == with_holds(
            references,
            services,
            launches.take(i),
        ),
    decreases launches.len() - i,
{
    if i < launches.len() {
        assert(launches.take(i + 1).drop_last() =~= launches.take(i));
        with_holds_stays(references, services, launches, i + 1);
    } else {
        assert(launches.take(i) =~= launches);
    }
}

fn recover_holds(
    references: Vec<ReferenceOwner>,
    services: &Vec<ServiceOwner>,
    launches: &Vec<RuntimeLaunch>,
) -> (r: Result<Vec<ReferenceOwner>, String>)
    ensures
        match with_holds(views(references@), owners(services@), launch_list(launches@)) {
            Ok(all) => r is Ok && views(r->Ok_0@) == all,
            Err(complaint) => r is Err && r->Err_0@ == complaint,
        },
{
    let ghost start = views(references@);
    let ghost all = launch_list(launches@);
    let ghost owned = owners(services@);
    let mut out = references;
    let mut i: usize = 0;
    proof {
        assert(all.take(0) =~= Seq::<Launch>::empty());
    }
    while i < launches.len()
        invariant
            i <= launches.len(),
            start == views(references@),
            all == launch_list(launches@),
            owned == owners(services@),
            with_holds(start, owned, all.take(i as int)) == Ok::<Seq<Reference>, Seq<char>>(
                views(out@),
            ),
        decreases launches.len() - i,
    {
        let launch = &launches[i];
        let ghost before = out@;
        proof {
            assert(all.take(i as int + 1).drop_last() =~= all.take(i as int));
            assert(all.take(i as int + 1).last() == launch@);
            if with_holds(start, owned, all.take(i as int + 1)) is Err {
                with_holds_stays(start, owned, all, i as int + 1);
            }
        }
        match &launch.network_reference {
            Some(NetworkReferenceState::Held(reference)) => {
                if find_reference(&out, launch.instance_id.as_str()).is_none() {
                    match service_for_launch(services, launch) {
                        Err(text) => {
                            return Err(text);
                        },
                        Ok(service) => {
                            let owner = ReferenceOwner {
                                service,
                                reference: reference.copy(),
                                phase: ReferencePhase::Held,
                            };
                            let ghost added = owner@;
                            out.push(owner);
                            proof {
                                assert(views(out@) =~= views(before).push(added));
                            }
                        },
                    }
                }
            },
            _ => {},
        }
        i = i + 1;
    }
    proof {
        assert(all.take(all.len() as int) =~= all);
    }
    Ok(out)
}

/// Whether a backend's original execution still runs: the same generation,
/// without an address, on the same ports, and of the same service.
pub open spec fn execution_runs(
    owner: Owner,
    backend: Backend,
    services: Seq<Owner>,
    launches: Seq<Launch>,
) -> bool {
    let launch = launch_of(launches, backend.instance_id);
    &&& owner.executions.dom().contains(backend.instance_id)
    &&& launch is Some
    &&& launch->0.network is None
    &&& launch->0.generation == owner.executions[backend.instance_id]
    &&& launch->0.port_mapping is Some
    &&& launch->0.port_mapping->0.host_port == backend.host_port
    &&& launch->0.port_mapping->0.container_port == owner.entry.port
    &&& launch_service(services, launch->0) == Ok::<ServiceName, Seq<char>>(owner.entry.id())
}

/// Whether a backend's address is held for its service.
pub open spec fn address_held(
    owner: Owner,
    backend: Backend,
    references: Seq<Reference>,
) -> bool {
    exists|i: int|
        0 <= i < references.len() && (#[trigger] references[i]).reference.instance_id
            == backend.instance_id && references[i].service == owner.entry.id()
            && references[i].phase == ReferencePhase::Held
}

/// Whether every backend of a service runs or is held.
pub open spec fn backends_accounted(
    owner: Owner,
    references: Seq<Reference>,
    services: Seq<Owner>,
    launches: Seq<Launch>,
) -> bool {
    forall|i: int|
        0 <= i < owner.entry.backends.len() ==> execution_runs(
            owner,
            #[trigger] owner.entry.backends[i],
            services,
            launches,
        ) || address_held(owner, owner.entry.backends[i], references)
}

/// Whether every backend of every service runs or is held.
pub open spec fn all_accounted(
    references: Seq<Reference>,
    services: Seq<Owner>,
    launches: Seq<Launch>,
) -> bool {
    forall|i: int|
        0 <= i < services.len() ==> backends_accounted(
            #[trigger] services[i],
            references,
            services,
            launches,
        )
}

fn is_address_held(owner: &ServiceOwner, instance_id: &str, references: &Vec<ReferenceOwner>) -> (r:
    bool)
    ensures
        r == exists|i: int|
            0 <= i < references@.len() && (#[trigger] views(references@)[i]).reference.instance_id
                == instance_id@ && views(references@)[i].service == owner@.entry.id()
                && views(references@)[i].phase == ReferencePhase::Held,
{
    let ghost all = views(references@);
    let mut i: usize = 0;
    while i < references.len()
        invariant
            i <= references.len(),
            all == views(references@),
            forall|j: int|
                0 <= j < i ==> !((#[trigger] all[j]).reference.instance_id == instance_id@
                    && all[j].service == owner@.entry.id() && all[j].phase
                    == ReferencePhase::Held),
        decreases references.len() - i,
    {
        let reference = &references[i];
        proof {
            assert(all[i as int] == reference@);
        }
        if same_text(reference.reference.instance_id.as_str(), instance_id)
            && owner.entry.is_service(
            reference.service.namespace.as_str(),
            reference.service.name.as_str(),
        ) && reference.phase == ReferencePhase::Held {
            return true;
        }
        i = i + 1;
    }
    false
}

fn does_execution_run(
    owner: &ServiceOwner,
    backend: &crate::services::BackendInstance,
    services: &Vec<ServiceOwner>,
    launches: &Vec<RuntimeLaunch>,
) -> (r: bool)
    requires
        owner.executions.wf(),
    ensures
        r == execution_runs(owner@, backend@, owners(services@), launch_list(launches@)),
{
    let generation = match owner.executions.get(&backend.instance_id) {
        None => {
            return false;
        },
        Some(generation) => generation,
    };
    let launch = match find_launch(launches, backend.instance_id.as_str()) {
        None => {
            return false;
        },
        Some(launch) => launch,
    };
    if launch.network_reference.is_some() || !same_text(
        launch.generation.as_str(),
        generation.as_str(),
    ) {
        return false;
    }
    match launch.port_mapping {
        None => {
            return false;
        },
        Some(mapping) => {
            if mapping.host_port != backend.host_port || mapping.container_port
                != owner.entry.port {
                return false;
            }
        },
    }
    match service_for_launch(services, launch) {
        Ok(id) => owner.entry.is_service(id.namespace.as_str(), id.name.as_str()),
        Err(_) => false,
    }
}

fn check_backends(
    services: &Vec<ServiceOwner>,
    references: &Vec<ReferenceOwner>,
    launches: &Vec<RuntimeLaunch>,
) -> (r: bool)
    requires
        forall|i: int|
            0 <= i < services@.len() ==> (#[trigger] services@[i]).executions.wf(),
    ensures
        r == all_accounted(views(references@), owners(services@), launch_list(launches@)),
{
    let ghost owned = owners(services@);
    let ghost refs = views(references@);
    let ghost listed = launch_list(launches@);
    let mut i: usize = 0;
    while i < services.len()
        invariant
            forall|i: int|
                0 <= i < services@.len() ==> (#[trigger] services@[i]).executions.wf(),
            i <= services.len(),
            owned == owners(services@),
            refs == views(references@),
            listed == launch_list(launches@),
            forall|j: int|
                0 <= j < i ==> backends_accounted(#[trigger] owned[j], refs, owned, listed),
        decreases services.len() - i,
    {
        let owner = &services[i];
        let mut k: usize = 0;
        while k < owner.entry.backends.len()
            invariant
                i < services.len(),
                *owner == services@[i as int],
                owner.executions.wf(),
                k <= owner.entry.backends.len(),
                owned == owners(services@),
                refs == views(references@),
                listed == launch_list(launches@),
                forall|j: int|
                    0 <= j < k ==> execution_runs(
                        owner@,
                        #[trigger] owner@.entry.backends[j],
                        owned,
                        listed,
                    ) || address_held(owner@, owner@.entry.backends[j], refs),
            decreases owner.entry.backends.len() - k,
        {
            let backend = &owner.entry.backends[k];
            proof {
                assert(owner@.entry.backends[k as int] == backend@);
                assert(refs.len() == references@.len());
            }
            if !does_execution_run(owner, backend, services, launches) && !is_address_held(
                owner,
                backend.instance_id.as_str(),
                references,
            ) {
                proof {
                    assert(!address_held(owner@, owner@.entry.backends[k as int], refs));
                    assert(owned[i as int] == owner@);
                    assert(!backends_accounted(owned[i as int], refs, owned, listed));
                }
                return false;
            }
            proof {
                if !execution_runs(owner@, backend@, owned, listed) {
                    assert(address_held(owner@, owner@.entry.backends[k as int], refs));
                }
            }
            k = k + 1;
        }
        proof {
            assert(owned[i as int] == owner@);
        }
        i = i + 1;
    }
    true
}

fn copy_owner(owner: &ServiceOwner) -> (r: ServiceOwner)
    requires
        owner.executions.wf(),
    ensures
        r@ == owner@,
        r.executions.wf(),
{
    let executions = copy_map(&owner.executions);
    proof {
        same_entries_same_meaning(executions, owner.executions);
    }
    ServiceOwner { executions, entry: owner.entry.copy(), phase: owner.phase }
}

impl DiscoveryInventory {
    /// Another inventory of the same facts.
    pub fn duplicate(&self) -> (r: Self)
        requires
            self.wf(),
        ensures
            r.wf(),
            r@ == self@,
    {
        let mut services: Vec<ServiceOwner> = Vec::new();
        let mut i: usize = 0;
        while i < self.services.len()
            invariant
                self.wf(),
                i <= self.services.len(),
                services@.len() == i,
                forall|j: int|
                    0 <= j < i ==> (#[trigger] services@[j])@ == self.services@[j]@
                        && services@[j].executions.wf(),
            decreases self.services.len() - i,
        {
            services.push(copy_owner(&self.services[i]));
            i = i + 1;
        }
        proof {
            assert(owners(services@) =~= owners(self.services@));
        }
        let consumer = match &self.consumer {
            Some(owner) => Some(owner.duplicate()),
            None => None,
        };
        DiscoveryInventory { services, references: copy_list(&self.references), consumer }
    }
}

/// The inventory that recovery arrives at, or why it is refused.
pub open spec fn reconciled(
    inventory: Inventory,
    launches: Seq<Launch>,
    checks: InventoryChecks,
) -> Result<Inventory, Seq<char>> {
    if launches_complaint(launches) is Some {
        Err(launches_complaint(launches)->0)
    } else if correlation_complaint(
        inventory.references,
        inventory.services,
        launches,
    ) is Some {
        Err(correlation_complaint(inventory.references, inventory.services, launches)->0)
    } else {
        match with_holds(inventory.references, inventory.services, launches) {
            Err(complaint) => Err(complaint),
            Ok(references) => {
                let next = Inventory {
                    services: inventory.services,
                    references,
                    consumer: inventory.consumer,
                };
                if !all_accounted(references, inventory.services, launches) {
                    Err("published backend has no original runtime hold"@)
                } else if inventory_complaint(next, checks) is Some {
                    Err(inventory_complaint(next, checks)->0)
                } else if successor_complaint(inventory, next) is Some {
                    Err(successor_complaint(inventory, next)->0)
                } else {
                    Ok(next)
                }
            },
        }
    }
}

/// Whether a result is what recovery arrives at.
pub open spec fn recovers(
    r: Result<DiscoveryInventory, String>,
    expected: Result<Inventory, Seq<char>>,
) -> bool {
    match expected {
        Ok(next) => r is Ok && r->Ok_0@ == next && r->Ok_0.wf(),
        Err(complaint) => r is Err && r->Err_0@ == complaint,
    }
}

/// One exclusive writer of the inventory. A write whose outcome is not known
/// fences the writer.
#[derive(Debug)]
pub struct DiscoveryJournal {
    inventory: DiscoveryInventory,
    pending: Option<DiscoveryInventory>,
    uncertain: bool,
}

/// What was read of the checkpoint.
#[derive(Debug)]
pub enum CheckpointRead {
    /// There is no checkpoint, as the error says.
    NotFound(String),
    /// It could not be read.
    Failed(String),
    /// It was read.
    Found {
        /// Its format.
        schema: u32,
        /// Its inventory.
        inventory: DiscoveryInventory,
        /// What the surrounding agent says of the inventory.
        checks: InventoryChecks,
    },
}

/// What the file system says of the journal's directory.
#[derive(Debug, Clone, Copy, PartialEq, Eq, Structural)]
pub struct DirectoryFacts {
    /// Whether it is a directory.
    pub directory: bool,
    /// Its permission bits.
    pub mode: u32,
    /// Whether the running user owns it.
    pub owned: bool,
}

/// Whether a directory is one that only its owner can use.
pub open spec fn is_private(facts: DirectoryFacts) -> bool {
    facts.directory && facts.mode % 0o1000 == 0o700 && facts.owned
}

/// Check that the journal's directory is private.
pub fn check_directory(facts: DirectoryFacts) -> (r: Result<(), String>)
    ensures
        complaint_of(r) == if is_private(facts) {
            None
        } else {
            Some("discovery directory is not private"@)
        },
{
    if facts.directory && facts.mode % 0o1000 == 0o700 && facts.owned {
        Ok(())
    } else {
        Err("discovery directory is not private".to_owned())
    }
}

/// Check that a checkpoint is short enough to be written.
pub fn check_size(length: u64) -> (r: Result<(), String>)
    ensures
        complaint_of(r) == if length > CHECKPOINT_LIMIT {
            Some("discovery checkpoint exceeds size limit"@)
        } else {
            None
        },
{
    if length > CHECKPOINT_LIMIT {
        Err("discovery checkpoint exceeds size limit".to_owned())
    } else {
        Ok(())
    }
}

/// The inventory of a checkpoint that was read, or why it is refused.
pub open spec fn read_complaint(
    schema: u32,
    inventory: Inventory,
    checks: InventoryChecks,
) -> Option<Seq<char>> {
    if schema != CHECKPOINT_SCHEMA {
        Some("unsupported discovery checkpoint schema"@)
    } else {
        inventory_complaint(inventory, checks)
    }
}

/// Take the inventory of a checkpoint of the current format, if it is sound.
pub fn read_checkpoint(
    schema: u32,
    inventory: DiscoveryInventory,
    checks: &InventoryChecks,
) -> (r: Result<DiscoveryInventory, String>)
    requires
        inventory.wf(),
        inventory_checks_fit(inventory@, *checks),
    ensures
        match read_complaint(schema, inventory@, *checks) {
            None => r == Ok::<DiscoveryInventory, String>(inventory),
            Some(complaint) => r is Err && r->Err_0@ == complaint,
        },
{
    if schema != CHECKPOINT_SCHEMA {
        return Err("unsupported discovery checkpoint schema".to_owned());
    }
    match validate(&inventory, checks) {
        Err(text) => Err(text),
        Ok(()) => Ok(inventory),
    }
}

/// The inventory that a checkpoint opens a journal on, or why it is refused.
pub open spec fn checkpoint_answer(fresh: bool, read: CheckpointRead) -> Result<
    Inventory,
    Seq<char>,
> {
    match read {
        CheckpointRead::NotFound(error) => if fresh {
            Ok(no_ownership())
        } else {
            Err(error@)
        },
        CheckpointRead::Failed(error) => Err(error@),
        CheckpointRead::Found { schema, inventory, checks } => match read_complaint(
            schema,
            inventory@,
            checks,
        ) {
            Some(complaint) => Err(complaint),
            None => if fresh {
                Err("discovery checkpoint lost its original claim"@)
            } else {
                Ok(inventory@)
            },
        },
    }
}

/// The inventory of a node that owns nothing.
pub open spec fn no_ownership() -> Inventory {
    Inventory { services: Seq::empty(), references: Seq::empty(), consumer: None }
}

/// Decide what a journal is opened on.
///
/// Only a newly created directory may initialise ownership, and a checkpoint
/// in one has lost its claim. A missing, unreadable or refused checkpoint in an
/// established directory never means that nothing is owned.
pub fn open_inventory(fresh: bool, read: CheckpointRead) -> (r: Result<DiscoveryInventory, String>)
    requires
        read matches CheckpointRead::Found { inventory, checks, .. } ==> inventory.wf()
            && inventory_checks_fit(inventory@, checks),
    ensures
        match checkpoint_answer(fresh, read) {
            Ok(inventory) => r is Ok && r->Ok_0.wf() && r->Ok_0@ == inventory,
            Err(complaint) => r is Err && r->Err_0@ == complaint,
        },
{
    match read {
        CheckpointRead::NotFound(error) => if fresh {
            Ok(DiscoveryInventory::default())
        } else {
            Err(error)
        },
        CheckpointRead::Failed(error) => Err(error),
        CheckpointRead::Found { schema, inventory, checks } => match read_checkpoint(
            schema,
            inventory,
            &checks,
        ) {
            Err(text) => Err(text),
            Ok(inventory) => if fresh {
                Err("discovery checkpoint lost its original claim".to_owned())
            } else {
                Ok(inventory)
            },
        },
    }
}

/// What came of making the journal's directory.
#[derive(Debug)]
pub enum DirectoryOutcome {
    /// It could neither be made nor looked at.
    Failed(String),
    /// It was made, and is as it says.
    Created(DirectoryFacts),
    /// It was there already, and is as it says.
    Existing(DirectoryFacts),
}

/// What came of claiming the journal.
#[derive(Debug)]
pub enum ClaimOutcome {
    /// The claim's file is missing or redirected, is not private, or could not
    /// be locked.
    Failed(String),
    /// Another writer holds it.
    Busy,
    /// It was taken.
    Taken,
}

/// Whether a journal that cannot be opened may be opened later as it is.
#[derive(Debug, Clone, Copy, PartialEq, Eq, Structural)]
pub enum OpenErrorKind {
    /// Another writer holds the journal.
    WouldBlock,
    /// Anything else.
    Other,
}

/// Why a journal is not opened.
#[derive(Debug)]
pub struct OpenError {
    /// What kind of error it is.
    pub kind: OpenErrorKind,
    /// What it says.
    pub error: String,
}

impl View for OpenError {
    type V = (OpenErrorKind, Seq<char>);

    open spec fn view(&self) -> (OpenErrorKind, Seq<char>) {
        (self.kind, self.error@)
    }
}

/// Whether the journal's directory is new, or why it is refused.
pub open spec fn directory_answer(outcome: DirectoryOutcome) -> Result<
    bool,
    (OpenErrorKind, Seq<char>),
> {
    match outcome {
        DirectoryOutcome::Failed(error) => Err((OpenErrorKind::Other, error@)),
        DirectoryOutcome::Created(facts) => if is_private(facts) {
            Ok(true)
        } else {
            Err((OpenErrorKind::Other, "discovery directory is not private"@))
        },
        DirectoryOutcome::Existing(facts) => if is_private(facts) {
            Ok(false)
        } else {
            Err((OpenErrorKind::Other, "discovery directory is not private"@))
        },
    }
}

/// Decide whether the journal's directory is used, and say whether it is new.
pub fn admit_directory(outcome: &DirectoryOutcome) -> (r: Result<bool, OpenError>)
    ensures
        match directory_answer(*outcome) {
            Ok(fresh) => r == Ok::<bool, OpenError>(fresh),
            Err(refusal) => r is Err && r->Err_0@ == refusal,
        },
{
    let (facts, fresh) = match outcome {
        DirectoryOutcome::Failed(error) => {
            return Err(OpenError { kind: OpenErrorKind::Other, error: error.clone() });
        },
        DirectoryOutcome::Created(facts) => (*facts, true),
        DirectoryOutcome::Existing(facts) => (*facts, false),
    };
    match check_directory(facts) {
        Err(error) => Err(OpenError { kind: OpenErrorKind::Other, error }),
        Ok(()) => Ok(fresh),
    }
}

/// Why a claim is not held, if it is not.
pub open spec fn claim_refusal(outcome: ClaimOutcome) -> Option<(OpenErrorKind, Seq<char>)> {
    match outcome {
        ClaimOutcome::Failed(error) => Some((OpenErrorKind::Other, error@)),
        ClaimOutcome::Busy => Some((OpenErrorKind::WouldBlock, "discovery owner is busy"@)),
        ClaimOutcome::Taken => None,
    }
}

/// Decide whether the claim is held. A missing claim is never made again in an
/// established directory, since the next recovery would trust it as original.
pub fn admit_claim(outcome: &ClaimOutcome) -> (r: Result<(), OpenError>)
    ensures
        match claim_refusal(*outcome) {
            None => r is Ok,
            Some(refusal) => r is Err && r->Err_0@ == refusal,
        },
{
    match outcome {
        ClaimOutcome::Failed(error) => Err(
            OpenError { kind: OpenErrorKind::Other, error: error.clone() },
        ),
        ClaimOutcome::Busy => Err(
            OpenError {
                kind: OpenErrorKind::WouldBlock,
                error: "discovery owner is busy".to_owned(),
            },
        ),
        ClaimOutcome::Taken => Ok(()),
    }
}

/// The inventory that a journal is opened on, or why it is refused: by its
/// directory, then by its claim, then by its checkpoint.
pub open spec fn opening(
    directory: DirectoryOutcome,
    claim: ClaimOutcome,
    read: CheckpointRead,
) -> Result<Inventory, (OpenErrorKind, Seq<char>)> {
    match directory_answer(directory) {
        Err(refusal) => Err(refusal),
        Ok(fresh) => match claim_refusal(claim) {
            Some(refusal) => Err(refusal),
            None => match checkpoint_answer(fresh, read) {
                Err(complaint) => Err((OpenErrorKind::Other, complaint)),
                Ok(inventory) => Ok(inventory),
            },
        },
    }
}

impl DiscoveryJournal {
    /// The retained inventory.
    pub closed spec fn retained(&self) -> Inventory {
        self.inventory@
    }

    /// The inventory that is being written, if there is one.
    pub closed spec fn writing(&self) -> Option<Inventory> {
        match self.pending {
            Some(next) => Some(next@),
            None => None,
        }
    }

    /// Whether the outcome of a write is not known.
    pub closed spec fn fenced(&self) -> bool {
        self.uncertain
    }

    /// Whatever is written or retained is in key order, and a write fences.
    pub closed spec fn wf(&self) -> bool {
        &&& self.inventory.wf()
        &&& self.pending matches Some(next) ==> next.wf() && self.uncertain
    }

    /// Open the complete inventory under an exclusive claim.
    ///
    /// Only a newly created directory may initialise ownership, and the empty
    /// inventory is then to be written. Missing established state and
    /// incompatible formats refuse.
    pub fn open(
        directory: &DirectoryOutcome,
        claim: &ClaimOutcome,
        read: CheckpointRead,
    ) -> (r: Result<Self, OpenError>)
        requires
            read matches CheckpointRead::Found { inventory, checks, .. } ==> inventory.wf()
                && inventory_checks_fit(inventory@, checks),
        ensures
            match opening(*directory, *claim, read) {
                Ok(inventory) => {
                    &&& r is Ok
                    &&& r->Ok_0.wf()
                    &&& r->Ok_0.retained() == inventory
                    &&& !r->Ok_0.fenced()
                    &&& r->Ok_0.writing() is None
                },
                Err(refusal) => r is Err && r->Err_0@ == refusal,
            },
    {
        let fresh: bool = match admit_directory(directory) {
            Err(refusal) => {
                return Err(refusal);
            },
            Ok(fresh) => fresh,
        };
        match admit_claim(claim) {
            Err(refusal) => {
                return Err(refusal);
            },
            Ok(()) => {},
        }
        match open_inventory(fresh, read) {
            Err(error) => Err(OpenError { kind: OpenErrorKind::Other, error }),
            Ok(inventory) => Ok(DiscoveryJournal { inventory, pending: None, uncertain: false }),
        }
    }

    /// Read retained evidence; this does not authorise publication.
    pub fn inventory(&self) -> (r: &DiscoveryInventory)
        requires
            self.wf(),
        ensures
            r@ == self.retained(),
            r.wf(),
    {
        &self.inventory
    }

    /// The inventory that is to be written, if there is one.
    pub fn to_write(&self) -> (r: Option<&DiscoveryInventory>)
        requires
            self.wf(),
        ensures
            (match r {
                Some(next) => Some(next@),
                None => None,
            }) == self.writing(),
    {
        self.pending.as_ref()
    }

    /// Refuse a candidate that the journal would reject, without a write.
    pub fn check(&self, next: &DiscoveryInventory, checks: &InventoryChecks) -> (r: Result<
        (),
        String,
    >)
        requires
            self.wf(),
            next.wf(),
            inventory_checks_fit(next@, *checks),
        ensures
            complaint_of(r) == if inventory_complaint(next@, *checks) is Some {
                inventory_complaint(next@, *checks)
            } else {
                successor_complaint(self.retained(), next@)
            },
    {
        match validate(next, checks) {
            Err(text) => {
                return Err(text);
            },
            Ok(()) => {},
        }
        validate_transition(&self.inventory, next)
    }

    /// Begin to save the entire successor.
    ///
    /// On success the journal is fenced until the outcome of the write is
    /// recorded; a refused successor changes nothing.
    pub fn save(&mut self, next: DiscoveryInventory, checks: &InventoryChecks) -> (r: Result<
        (),
        String,
    >)
        requires
            old(self).wf(),
            next.wf(),
            inventory_checks_fit(next@, *checks),
        ensures
            final(self).wf(),
            final(self).retained() == old(self).retained(),
            complaint_of(r) == if old(self).fenced() {
                Some("discovery persistence is uncertain; reopen to recover"@)
            } else if inventory_complaint(next@, *checks) is Some {
                inventory_complaint(next@, *checks)
            } else {
                successor_complaint(old(self).retained(), next@)
            },
            r is Ok ==> final(self).fenced() && final(self).writing() == Some(next@),
            r is Err ==> final(self).fenced() == old(self).fenced() && final(self).writing()
                == old(self).writing(),
    {
        if self.uncertain {
            return Err("discovery persistence is uncertain; reopen to recover".to_owned());
        }
        match self.check(&next, checks) {
            Err(text) => {
                return Err(text);
            },
            Ok(()) => {},
        }
        self.uncertain = true;
        self.pending = Some(next);
        Ok(())
    }

    /// Record the outcome of the write: a confirmed write is retained and lifts
    /// the fence; after any other the original obligations and the fence stay.
    pub fn written(&mut self, confirmed: bool)
        requires
            old(self).wf(),
        ensures
            final(self).wf(),
            final(self).writing() is None,
            if confirmed && old(self).writing() is Some {
                final(self).retained() == old(self).writing()->0 && !final(self).fenced()
            } else {
                final(self).retained() == old(self).retained() && final(self).fenced() == old(
                    self,
                ).fenced()
            },
    {
        let pending = self.pending.take();
        match pending {
            Some(next) => {
                if confirmed {
                    self.inventory = next;
                    self.uncertain = false;
                }
            },
            None => {},
        }
    }

    fn reconcile_original_runtime_inventory(
        &self,
        launches: &Vec<RuntimeLaunch>,
        checks: &InventoryChecks,
    ) -> (r: Result<DiscoveryInventory, String>)
        requires
            self.wf(),
            inventory_checks_fit(self.retained(), *checks),
        ensures
            recovers(
                r,
                if self.fenced() {
                    Err("discovery checkpoint is uncertain"@)
                } else {
                    reconciled(self.retained(), launch_list(launches@), *checks)
                },
            ),
    {
        if self.uncertain {
            return Err("discovery checkpoint is uncertain".to_owned());
        }
        match check_launches(launches) {
            Err(text) => {
                return Err(text);
            },
            Ok(()) => {},
        }
        match check_correlation(&self.inventory, launches) {
            Err(text) => {
                return Err(text);
            },
            Ok(()) => {},
        }
        let copy = self.inventory.duplicate();
        let references = match recover_holds(copy.references, &copy.services, launches) {
            Err(text) => {
                return Err(text);
            },
            Ok(references) => references,
        };
        let next = DiscoveryInventory { services: copy.services, references, consumer: copy.consumer };
        if !check_backends(&next.services, &next.references, launches) {
            return Err("published backend has no original runtime hold".to_owned());
        }
        match validate(&next, checks) {
            Err(text) => {
                return Err(text);
            },
            Ok(()) => {},
        }
        match validate_transition(&self.inventory, &next) {
            Err(text) => Err(text),
            Ok(()) => Ok(next),
        }
    }

    /// Correlate exact runtime address evidence before any recovery.
    ///
    /// The caller supplies the complete runtime inventory. Nothing is changed
    /// here: the result is to be saved.
    pub fn reconcile_runtime_inventory(
        &self,
        launches: &Vec<RuntimeLaunch>,
        checks: &InventoryChecks,
    ) -> (r: Result<DiscoveryInventory, String>)
        requires
            self.wf(),
            inventory_checks_fit(self.retained(), *checks),
        ensures
            recovers(
                r,
                if self.retained().consumer is Some {
                    Err("consumer ownership requires cluster recovery reconciliation"@)
                } else if self.fenced() {
                    Err("discovery checkpoint is uncertain"@)
                } else {
                    reconciled(self.retained(), launch_list(launches@), *checks)
                },
            ),
    {
        if self.inventory.consumer.is_some() {
            return Err("consumer ownership requires cluster recovery reconciliation".to_owned());
        }
        self.reconcile_original_runtime_inventory(launches, checks)
    }

    /// Correlate local runtime ownership after the caller verified the
    /// consumer's enrolment.
    pub fn reconcile_consumer_runtime_inventory(
        &self,
        launches: &Vec<RuntimeLaunch>,
        identity: &ConsumerIdentity,
        checks: &InventoryChecks,
    ) -> (r: Result<DiscoveryInventory, String>)
        requires
            self.wf(),
            inventory_checks_fit(self.retained(), *checks),
        ensures
            recovers(
                r,
                if self.retained().consumer is None || self.retained().consumer->0.identity
                    != identity@ {
                    Err("original consumer enrolment identity is missing"@)
                } else if self.fenced() {
                    Err("discovery checkpoint is uncertain"@)
                } else {
                    reconciled(self.retained(), launch_list(launches@), *checks)
                },
            ),
    {
        let same: bool = match &self.inventory.consumer {
            Some(owner) => owner.identity.same(identity),
            None => false,
        };
        if !same {
            return Err("original consumer enrolment identity is missing".to_owned());
        }
        self.reconcile_original_runtime_inventory(launches, checks)
    }
}

proof fn services_step(previous: Seq<Owner>, next: Seq<Owner>, i: int)
    requires
        services_complaint(previous, next) is None,
        0 <= i < previous.len(),
    ensures
        allocation_kept(previous[i], owner_of(next, previous[i].entry.id())),
        owner_of(next, previous[i].entry.id()) matches Some(successor) ==> executions_kept(
            previous[i],
            successor,
        ),
    decreases previous.len(),
{
    if i < previous.len() - 1 {
        services_step(previous.drop_last(), next, i);
    }
}

/// An established journal opens only under its claim and on a sound checkpoint
/// of the current format, and then on exactly the stored inventory: nothing else
/// is ever taken for empty ownership.
pub proof fn established_journals_open_on_what_was_stored(
    facts: DirectoryFacts,
    claim: ClaimOutcome,
    read: CheckpointRead,
)
    requires
        opening(DirectoryOutcome::Existing(facts), claim, read) is Ok,
    ensures
        is_private(facts),
        claim is Taken,
        read matches CheckpointRead::Found { schema, inventory, checks } && schema
            == CHECKPOINT_SCHEMA && inventory_complaint(inventory@, checks) is None && opening(
            DirectoryOutcome::Existing(facts),
            claim,
            read,
        ) == Ok::<Inventory, (OpenErrorKind, Seq<char>)>(inventory@),
{
}

/// While another writer holds the claim, a journal in a private directory is
/// refused as busy, whatever its checkpoint.
pub proof fn claimed_journals_refuse_a_second_writer(
    facts: DirectoryFacts,
    created: bool,
    read: CheckpointRead,
)
    requires
        is_private(facts),
    ensures
        opening(
            if created {
                DirectoryOutcome::Created(facts)
            } else {
                DirectoryOutcome::Existing(facts)
            },
            ClaimOutcome::Busy,
            read,
        ) == Err::<Inventory, (OpenErrorKind, Seq<char>)>(
            (OpenErrorKind::WouldBlock, "discovery owner is busy"@),
        ),
{
}

/// An inventory that the journal accepted for writing opens the journal again,
/// as it was written, once it is read back under the claim.
pub proof fn saved_inventories_open_again(
    facts: DirectoryFacts,
    saved: Inventory,
    inventory: DiscoveryInventory,
    checks: InventoryChecks,
)
    requires
        is_private(facts),
        inventory_complaint(saved, checks) is None,
        inventory@ == saved,
    ensures
        opening(
            DirectoryOutcome::Existing(facts),
            ClaimOutcome::Taken,
            CheckpointRead::Found { schema: CHECKPOINT_SCHEMA, inventory, checks },
        ) == Ok::<Inventory, (OpenErrorKind, Seq<char>)>(saved),
{
}

/// Only a newly created directory starts with nothing owned, and only where it
/// holds no checkpoint.
pub proof fn only_new_directories_start_empty(
    facts: DirectoryFacts,
    claim: ClaimOutcome,
    read: CheckpointRead,
)
    requires
        opening(DirectoryOutcome::Created(facts), claim, read) is Ok,
    ensures
        claim is Taken,
        read is NotFound,
        opening(DirectoryOutcome::Created(facts), claim, read) == Ok::<
            Inventory,
            (OpenErrorKind, Seq<char>),
        >(no_ownership()),
{
}

/// In every lawful step an owned service keeps its virtual address and port; it
/// cannot disappear before its withdrawal, and a withdrawn one is never
/// reactivated.
pub proof fn allocations_outlive_their_publication(previous: Inventory, next: Inventory, i: int)
    requires
        successor_complaint(previous, next) is None,
        0 <= i < previous.services.len(),
    ensures
        ({
            let original = previous.services[i];
            let successor = owner_of(next.services, original.entry.id());
            &&& original.phase == ServicePhase::Owned ==> successor is Some
            &&& successor is Some ==> successor->0.entry.vip == original.entry.vip
                && successor->0.entry.port == original.entry.port
            &&& successor is Some && original.phase == ServicePhase::Withdrawn
                ==> successor->0.phase == ServicePhase::Withdrawn
        }),
{
    services_step(previous.services, next.services, i);
}

/// In every lawful step a published execution stays what it was for as long as
/// its backend is published.
pub proof fn published_executions_do_not_change(
    previous: Inventory,
    next: Inventory,
    i: int,
    instance: Seq<char>,
)
    requires
        successor_complaint(previous, next) is None,
        0 <= i < previous.services.len(),
        previous.services[i].executions.dom().contains(instance),
        owner_of(next.services, previous.services[i].entry.id()) is Some,
        owner_of(next.services, previous.services[i].entry.id())->0.entry.has_instance(instance),
    ensures
        ({
            let successor = owner_of(next.services, previous.services[i].entry.id())->0;
            successor.executions.dom().contains(instance) && successor.executions[instance]
                == previous.services[i].executions[instance]
        }),
{
    services_step(previous.services, next.services, i);
}

/// In every lawful step a held address cannot be forgotten, replaced or moved
/// to another service, and a release permission is never taken back.
pub proof fn references_outlive_their_hold(previous: Inventory, next: Inventory, i: int)
    requires
        successor_complaint(previous, next) is None,
        0 <= i < previous.references.len(),
    ensures
        ({
            let original = previous.references[i];
            let successor = reference_of(next.references, original.reference.instance_id);
            &&& original.phase == ReferencePhase::Held ==> successor is Some
            &&& successor is Some ==> successor->0.reference == original.reference
                && successor->0.service == original.service
            &&& successor is Some && original.phase == ReferencePhase::ReleaseAuthorised
                ==> successor->0.phase == ReferencePhase::ReleaseAuthorised
        }),
{
    assert(reference_kept(
        previous.references[i],
        reference_of(next.references, previous.references[i].reference.instance_id),
    ));
}

/// A consumer's ownership can be replaced but never dropped from the inventory.
pub proof fn consumers_stay_in_the_inventory(previous: Inventory, next: Inventory)
    requires
        successor_complaint(previous, next) is None,
        previous.consumer is Some,
    ensures
        next.consumer is Some,
        next.consumer->0.identity == previous.consumer->0.identity,
{
}

/// No two references of a sound inventory are of one instance or share an
/// allocation.
pub proof fn references_are_exclusive(
    references: Seq<Reference>,
    services: Seq<Owner>,
    i: int,
    j: int,
)
    requires
        references_complaint(references, services) is None,
        0 <= i < j < references.len(),
    ensures
        references[i].reference.instance_id != references[j].reference.instance_id,
        references[i].reference.container_index != references[j].reference.container_index,
    decreases references.len(),
{
    let earlier = references.drop_last();
    if j < references.len() - 1 {
        references_are_exclusive(earlier, services, i, j);
    } else {
        assert(!conflicts(earlier, references.last().reference));
        assert(earlier[i] == references[i]);
    }
}

/// Recovery keeps every reference as it was, in place, adds only holds, and
/// leaves services and consumer alone.
pub proof fn recovery_only_adds_holds(
    inventory: Inventory,
    launches: Seq<Launch>,
    checks: InventoryChecks,
)
    requires
        reconciled(inventory, launches, checks) is Ok,
    ensures
        ({
            let next = reconciled(inventory, launches, checks)->Ok_0;
            &&& next.services == inventory.services
            &&& next.consumer == inventory.consumer
            &&& next.references.len() >= inventory.references.len()
            &&& forall|i: int|
                0 <= i < inventory.references.len() ==> #[trigger] next.references[i]
                    == inventory.references[i]
            &&& forall|i: int|
                inventory.references.len() <= i < next.references.len() ==> (
                #[trigger] next.references[i]).phase == ReferencePhase::Held
        }),
{
    holds_extend(inventory.references, inventory.services, launches);
}

proof fn holds_extend(references: Seq<Reference>, services: Seq<Owner>, launches: Seq<Launch>)
    requires
        with_holds(references, services, launches) is Ok,
    ensures
        ({
            let after = with_holds(references, services, launches)->Ok_0;
            &&& after.len() >= references.len()
            &&& forall|i: int|
                0 <= i < references.len() ==> #[trigger] after[i] == references[i]
            &&& forall|i: int|
                references.len() <= i < after.len() ==> (#[trigger] after[i]).phase
                    == ReferencePhase::Held
        }),
    decreases launches.len(),
{
    if launches.len() > 0 {
        holds_extend(references, services, launches.drop_last());
    }
}

proof fn reference_is_found(references: Seq<Reference>, i: int)
    requires
        0 <= i < references.len(),
        forall|a: int, b: int|
            0 <= a < b < references.len() ==> (#[trigger] references[a]).reference.instance_id != (
            #[trigger] references[b]).reference.instance_id,
    ensures
        reference_of(references, references[i].reference.instance_id) == Some(references[i]),
    decreases references.len(),
{
    if i < references.len() - 1 {
        assert(references[i].reference.instance_id != references[references.len()
            - 1].reference.instance_id);
        let shorter = references.drop_last();
        assert forall|a: int, b: int| 0 <= a < b < shorter.len() implies (
        #[trigger] shorter[a]).reference.instance_id != (
        #[trigger] shorter[b]).reference.instance_id by {
            assert(references[a].reference.instance_id != references[b].reference.instance_id);
        }
        reference_is_found(shorter, i);
    }
}

proof fn sound_references_keep_themselves(references: Seq<Reference>, services: Seq<Owner>)
    requires
        references_complaint(references, services) is None,
    ensures
        references_kept(references, references),
{
    assert forall|a: int, b: int| 0 <= a < b < references.len() implies (
    #[trigger] references[a]).reference.instance_id != (
    #[trigger] references[b]).reference.instance_id by {
        references_are_exclusive(references, services, a, b);
    }
    assert forall|i: int| 0 <= i < references.len() implies reference_kept(
        #[trigger] references[i],
        reference_of(references, references[i].reference.instance_id),
    ) by {
        reference_is_found(references, i);
    }
}

proof fn launch_is_found(launches: Seq<Launch>, i: int)
    requires
        launches_complaint(launches) is None,
        0 <= i < launches.len(),
    ensures
        launch_of(launches, launches[i].instance_id) == Some(launches[i]),
{
    assert forall|a: int, b: int| 0 <= a < b < launches.len() implies (
    #[trigger] launches[a]).instance_id != (#[trigger] launches[b]).instance_id by {
        launches_are_distinct(launches, a, b);
    }
    found_from(launches, i);
}

proof fn found_from(launches: Seq<Launch>, i: int)
    requires
        0 <= i < launches.len(),
        forall|a: int, b: int|
            0 <= a < b < launches.len() ==> (#[trigger] launches[a]).instance_id != (
            #[trigger] launches[b]).instance_id,
    ensures
        launch_of(launches, launches[i].instance_id) == Some(launches[i]),
    decreases i,
{
    if i > 0 {
        assert(launches[0].instance_id != launches[i].instance_id);
        let rest = launches.skip(1);
        assert forall|a: int, b: int| 0 <= a < b < rest.len() implies (
        #[trigger] rest[a]).instance_id != (#[trigger] rest[b]).instance_id by {
            assert(launches[a + 1].instance_id != launches[b + 1].instance_id);
        }
        found_from(rest, i - 1);
        assert(rest[i - 1] == launches[i]);
    }
}

proof fn launches_are_distinct(launches: Seq<Launch>, a: int, b: int)
    requires
        launches_complaint(launches) is None,
        0 <= a < b < launches.len(),
    ensures
        launches[a].instance_id != launches[b].instance_id,
    decreases launches.len(),
{
    let earlier = launches.drop_last();
    if b < launches.len() - 1 {
        launches_are_distinct(earlier, a, b);
    } else {
        assert(!has_launch(earlier, launches.last().instance_id));
        assert(earlier[a] == launches[a]);
    }
}

proof fn launch_owns_its_address(launches: Seq<Launch>, i: int)
    requires
        launches_complaint(launches) is None,
        0 <= i < launches.len(),
        launches[i].network is Some,
    ensures
        launches[i].network->0.address.instance_id == launches[i].instance_id,
    decreases launches.len(),
{
    if i < launches.len() - 1 {
        launch_owns_its_address(launches.drop_last(), i);
    }
}

proof fn reference_of_push(references: Seq<Reference>, added: Reference, instance_id: Seq<char>)
    ensures
        reference_of(references.push(added), instance_id) == if added.reference.instance_id
            == instance_id {
            Some(added)
        } else {
            reference_of(references, instance_id)
        },
{
    assert(references.push(added).drop_last() =~= references);
}

/// The holds that recovery adds correlate with the launches, and after it every
/// launch that holds an address has a reference.
proof fn holds_correlate(
    references: Seq<Reference>,
    services: Seq<Owner>,
    launches: Seq<Launch>,
    count: int,
)
    requires
        launches_complaint(launches) is None,
        0 <= count <= launches.len(),
        correlation_complaint(references, services, launches) is None,
        with_holds(references, services, launches.take(count)) is Ok,
    ensures
        ({
            let after = with_holds(references, services, launches.take(count))->Ok_0;
            &&& correlation_complaint(after, services, launches) is None
            &&& forall|i: int|
                0 <= i < count && (#[trigger] launches[i]).network is Some
                    && !launches[i].network->0.released ==> reference_of(
                    after,
                    launches[i].instance_id,
                ) is Some
        }),
    decreases count,
{
    if count > 0 {
        let shorter = launches.take(count).drop_last();
        assert(shorter =~= launches.take(count - 1));
        holds_correlate(references, services, launches, count - 1);
        let before = with_holds(references, services, launches.take(count - 1))->Ok_0;
        let after = with_holds(references, services, launches.take(count))->Ok_0;
        let launch = launches[count - 1];
        assert(launches.take(count).last() == launch);
        if launch.network is Some && !launch.network->0.released && reference_of(
            before,
            launch.instance_id,
        ) is None {
            let added = Reference {
                service: launch_service(services, launch)->Ok_0,
                reference: launch.network->0.address,
                phase: ReferencePhase::Held,
            };
            assert(after == before.push(added));
            assert(after.drop_last() =~= before);
            launch_owns_its_address(launches, count - 1);
            launch_is_found(launches, count - 1);
            assert forall|i: int|
                0 <= i < count && (#[trigger] launches[i]).network is Some
                    && !launches[i].network->0.released implies reference_of(
                after,
                launches[i].instance_id,
            ) is Some by {
                reference_of_push(before, added, launches[i].instance_id);
            }
        }
    } else {
        assert(launches.take(0) =~= Seq::<Launch>::empty());
    }
}

proof fn nothing_to_hold(
    references: Seq<Reference>,
    services: Seq<Owner>,
    launches: Seq<Launch>,
    count: int,
)
    requires
        0 <= count <= launches.len(),
        forall|i: int|
            0 <= i < launches.len() && (#[trigger] launches[i]).network is Some
                && !launches[i].network->0.released ==> reference_of(
                references,
                launches[i].instance_id,
            ) is Some,
    ensures
        with_holds(references, services, launches.take(count)) == Ok::<
            Seq<Reference>,
            Seq<char>,
        >(references),
    decreases count,
{
    if count > 0 {
        assert(launches.take(count).drop_last() =~= launches.take(count - 1));
        assert(launches.take(count).last() == launches[count - 1]);
        nothing_to_hold(references, services, launches, count - 1);
    } else {
        assert(launches.take(0) =~= Seq::<Launch>::empty());
    }
}

/// Recovery is complete at once: recovering from the same launches again gives
/// the same inventory.
pub proof fn recovery_is_idempotent(
    inventory: Inventory,
    launches: Seq<Launch>,
    checks: InventoryChecks,
)
    requires
        reconciled(inventory, launches, checks) is Ok,
    ensures
        reconciled(
            reconciled(inventory, launches, checks)->Ok_0,
            launches,
            checks,
        ) == reconciled(inventory, launches, checks),
{
    let next = reconciled(inventory, launches, checks)->Ok_0;
    let n = launches.len() as int;
    assert(launches.take(n) =~= launches);
    holds_correlate(inventory.references, inventory.services, launches, n);
    nothing_to_hold(next.references, next.services, launches, n);
    sound_references_keep_themselves(next.references, next.services);
}

} // verus!
