//! Which inventories of discovery ownership are kept, and what recovery makes of
//! them.

use vstd::prelude::*;

use crate::discovery_owners::{
    allocation_kept, canonical, conflicts, executions_kept, executions_published,
    generation_and_ordinal, inventory_complaint, is_instance_of, is_instance_suffix,
    is_runtime_generation, owner_of, reference_kept, reference_of, references_complaint,
    references_kept, services_complaint, sound_reference, successor_complaint, validate,
    validate_transition, DiscoveryInventory, Inventory, InventoryChecks, Owner, Reference,
};
use crate::laws::consumer_owners::{
    lawful_steps, ownership_is_sound, sound_ownership, step_is_lawful,
};
use crate::services::ServiceName;
use crate::text::{decimal_reads_back, decimal_text, digits_value, is_digit, unsigned_digits};

verus! {

/// Whether a text is a number of at most `max`, written in decimal.
pub open spec fn is_written_number(s: Seq<char>, max: nat) -> bool {
    exists|n: nat| n <= max && s == #[trigger] decimal_text(n)
}

proof fn canonical_numbers(s: Seq<char>, max: nat)
    ensures
        canonical(s, max) <==> is_written_number(s, max),
{
    if canonical(s, max) {
        let n = digits_value(unsigned_digits(s));
        assert(s == decimal_text(n));
    }
    if is_written_number(s, max) {
        let n = choose|n: nat| n <= max && s == #[trigger] decimal_text(n);
        decimal_reads_back(n);
        assert(is_digit(s[0]));
        assert(unsigned_digits(s) == s);
    }
}

/// The name of an instance of a service: its number in the service, or the
/// service's generation and its number in that.
pub open spec fn is_named_instance(instance_id: Seq<char>, service: ServiceName) -> bool {
    let name = service.namespace + "__"@ + service.name;
    (exists|n: u32| instance_id == name + "-"@ + #[trigger] decimal_text(n as nat)) || (
    exists|g: u64, n: u32|
        instance_id == name + "-g"@ + #[trigger] decimal_text(g as nat) + "-"@
            + #[trigger] decimal_text(n as nat))
}

proof fn suffixes_are_numbers(suffix: Seq<char>)
    ensures
        is_instance_suffix(suffix) <==> is_written_number(suffix, u32::MAX as nat) || exists|
            k: int,
        |
            0 <= k < suffix.len() - 1 && suffix[0] == 'g' && #[trigger] suffix[k + 1] == '-'
                && is_written_number(suffix.subrange(1, k + 1), u64::MAX as nat)
                && is_written_number(suffix.skip(k + 2), u32::MAX as nat),
{
    canonical_numbers(suffix, u32::MAX as nat);
    let s = suffix.skip(1);
    assert forall|k: int| 0 <= k < s.len() && suffix.len() > 0 implies (canonical(
        #[trigger] s.take(k),
        u64::MAX as nat,
    ) <==> is_written_number(suffix.subrange(1, k + 1), u64::MAX as nat)) && (canonical(
        s.skip(k + 1),
        u32::MAX as nat,
    ) <==> is_written_number(suffix.skip(k + 2), u32::MAX as nat)) by {
        canonical_numbers(s.take(k), u64::MAX as nat);
        canonical_numbers(s.skip(k + 1), u32::MAX as nat);
        assert(s.take(k) =~= suffix.subrange(1, k + 1));
        assert(s.skip(k + 1) =~= suffix.skip(k + 2));
    }
    if suffix.len() > 0 && suffix[0] == 'g' && generation_and_ordinal(s) {
        let k = choose|k: int|
            0 <= k < s.len() && #[trigger] s[k] == '-' && canonical(s.take(k), u64::MAX as nat)
                && canonical(s.skip(k + 1), u32::MAX as nat);
        assert(s.take(k) == s.take(k));
        assert(suffix[k + 1] == '-');
    }
    if exists|k: int|
        0 <= k < suffix.len() - 1 && suffix[0] == 'g' && #[trigger] suffix[k + 1] == '-'
            && is_written_number(suffix.subrange(1, k + 1), u64::MAX as nat) && is_written_number(
            suffix.skip(k + 2),
            u32::MAX as nat,
        ) {
        let k = choose|k: int|
            0 <= k < suffix.len() - 1 && suffix[0] == 'g' && #[trigger] suffix[k + 1] == '-'
                && is_written_number(suffix.subrange(1, k + 1), u64::MAX as nat)
                && is_written_number(suffix.skip(k + 2), u32::MAX as nat);
        assert(s.take(k) == s.take(k));
        assert(s[k] == '-');
    }
}

proof fn written_number(s: Seq<char>, max: nat) -> (n: nat)
    requires
        is_written_number(s, max),
    ensures
        n <= max,
        s == decimal_text(n),
{
    choose|n: nat| n <= max && s == #[trigger] decimal_text(n)
}

proof fn numbered_instance(instance_id: Seq<char>, service: ServiceName, ordinal: Seq<char>)
    requires
        is_written_number(ordinal, u32::MAX as nat),
        instance_id == service.namespace + "__"@ + service.name + "-"@ + ordinal,
    ensures
        is_instance_of(instance_id, service),
{
    let prefix = service.namespace + "__"@ + service.name + "-"@;
    let at = prefix.len() as int;
    assert(instance_id.take(at) =~= prefix);
    assert(instance_id.skip(at) =~= ordinal);
    canonical_numbers(ordinal, u32::MAX as nat);
}

proof fn generation_instance(
    instance_id: Seq<char>,
    service: ServiceName,
    generation: Seq<char>,
    ordinal: Seq<char>,
)
    requires
        is_written_number(generation, u64::MAX as nat),
        is_written_number(ordinal, u32::MAX as nat),
        instance_id == service.namespace + "__"@ + service.name + "-g"@ + generation + "-"@
            + ordinal,
    ensures
        is_instance_of(instance_id, service),
{
    reveal_strlit("-");
    reveal_strlit("-g");
    assert("-"@ =~= seq!['-']);
    assert("-g"@ =~= seq!['-', 'g']);
    let prefix = service.namespace + "__"@ + service.name + "-"@;
    let at = prefix.len() as int;
    let suffix = seq!['g'] + generation + seq!['-'] + ordinal;
    assert(instance_id.take(at) =~= prefix);
    assert(instance_id.skip(at) =~= suffix);
    let k = generation.len() as int;
    assert(suffix[k + 1] == '-');
    assert(suffix.subrange(1, k + 1) =~= generation);
    assert(suffix.skip(k + 2) =~= ordinal);
    suffixes_are_numbers(suffix);
}

proof fn instance_has_a_number(instance_id: Seq<char>, service: ServiceName)
    requires
        is_instance_of(instance_id, service),
    ensures
        is_named_instance(instance_id, service),
{
    reveal_strlit("-");
    reveal_strlit("-g");
    assert("-"@ =~= seq!['-']);
    assert("-g"@ =~= seq!['-', 'g']);
    let name = service.namespace + "__"@ + service.name;
    let prefix = name + "-"@;
    let at = prefix.len() as int;
    let suffix = instance_id.skip(at);
    assert(instance_id =~= prefix + suffix);
    suffixes_are_numbers(suffix);
    if is_written_number(suffix, u32::MAX as nat) {
        let n = written_number(suffix, u32::MAX as nat);
        let m = n as u32;
        assert(instance_id == name + "-"@ + decimal_text(m as nat));
    } else {
        let k = choose|k: int|
            0 <= k < suffix.len() - 1 && suffix[0] == 'g' && #[trigger] suffix[k + 1] == '-'
                && is_written_number(suffix.subrange(1, k + 1), u64::MAX as nat)
                && is_written_number(suffix.skip(k + 2), u32::MAX as nat);
        let first = suffix.subrange(1, k + 1);
        let second = suffix.skip(k + 2);
        assert(suffix =~= seq!['g'] + first + seq!['-'] + second);
        assert(instance_id =~= name + "-g"@ + first + "-"@ + second);
        let g = written_number(first, u64::MAX as nat);
        let n = written_number(second, u32::MAX as nat);
        let generation = g as u64;
        let ordinal = n as u32;
        assert(instance_id == name + "-g"@ + decimal_text(generation as nat) + "-"@ + decimal_text(
            ordinal as nat,
        ));
    }
}

proof fn instance_names(instance_id: Seq<char>, service: ServiceName)
    ensures
        is_instance_of(instance_id, service) <==> is_named_instance(instance_id, service),
{
    let name = service.namespace + "__"@ + service.name;
    if is_instance_of(instance_id, service) {
        instance_has_a_number(instance_id, service);
    }
    if exists|n: u32| instance_id == name + "-"@ + #[trigger] decimal_text(n as nat) {
        let n = choose|n: u32| instance_id == name + "-"@ + #[trigger] decimal_text(n as nat);
        let ordinal = decimal_text(n as nat);
        assert(is_written_number(ordinal, u32::MAX as nat));
        numbered_instance(instance_id, service, ordinal);
    }
    if exists|g: u64, n: u32|
        instance_id == name + "-g"@ + #[trigger] decimal_text(g as nat) + "-"@
            + #[trigger] decimal_text(n as nat) {
        let (g, n) = choose|g: u64, n: u32|
            instance_id == name + "-g"@ + #[trigger] decimal_text(g as nat) + "-"@
                + #[trigger] decimal_text(n as nat);
        let generation = decimal_text(g as nat);
        let ordinal = decimal_text(n as nat);
        assert(is_written_number(generation, u64::MAX as nat));
        assert(is_written_number(ordinal, u32::MAX as nat));
        generation_instance(instance_id, service, generation, ordinal);
    }
}

/// The instances of a service are those of its numbers, with a generation or
/// without, and nothing else.
pub proof fn instances_are_named_by_number(
    service: ServiceName,
    generation: u64,
    ordinal: u32,
    instance_id: Seq<char>,
)
    ensures
        is_instance_of(
            service.namespace + "__"@ + service.name + "-"@ + decimal_text(ordinal as nat),
            service,
        ),
        is_instance_of(
            service.namespace + "__"@ + service.name + "-g"@ + decimal_text(generation as nat)
                + "-"@ + decimal_text(ordinal as nat),
            service,
        ),
        is_instance_of(instance_id, service) ==> is_named_instance(instance_id, service),
{
    let name = service.namespace + "__"@ + service.name;
    let plain = name + "-"@ + decimal_text(ordinal as nat);
    let full = name + "-g"@ + decimal_text(generation as nat) + "-"@ + decimal_text(
        ordinal as nat,
    );
    assert(is_named_instance(plain, service));
    assert(is_named_instance(full, service));
    instance_names(plain, service);
    instance_names(full, service);
    instance_names(instance_id, service);
}

/// Whether a service is the last in a list under its name.
pub open spec fn is_last_of(services: Seq<Owner>, at: int, name: ServiceName) -> bool {
    0 <= at < services.len() && services[at].entry.namespace == name.namespace
        && services[at].entry.app_name == name.name && forall|j: int|
        at < j < services.len() ==> !((#[trigger] services[j]).entry.namespace == name.namespace
            && services[j].entry.app_name == name.name)
}

proof fn owner_is_last(services: Seq<Owner>, name: ServiceName)
    ensures
        owner_of(services, name) is Some <==> exists|at: int|
            #[trigger] is_last_of(services, at, name),
        forall|at: int| #[trigger]
            is_last_of(services, at, name) ==> owner_of(services, name) == Some(services[at]),
        owner_of(services, name) is None ==> forall|j: int|
            0 <= j < services.len() ==> !((#[trigger] services[j]).entry.namespace == name.namespace
                && services[j].entry.app_name == name.name),
    decreases services.len(),
{
    if services.len() > 0 {
        let rest = services.drop_last();
        let last = services[services.len() - 1];
        owner_is_last(rest, name);
        if last.entry.id() == name {
            assert(is_last_of(services, services.len() - 1, name));
            assert forall|at: int| #[trigger] is_last_of(services, at, name) implies owner_of(
                services,
                name,
            ) == Some(services[at]) by {
                if at < services.len() - 1 {
                    assert(services[services.len() - 1].entry.namespace == name.namespace);
                }
            }
        } else {
            assert(!(last.entry.namespace == name.namespace && last.entry.app_name == name.name));
            assert forall|at: int| #[trigger]
                is_last_of(services, at, name) <==> is_last_of(rest, at, name) by {
                if is_last_of(services, at, name) {
                    assert(at < rest.len());
                    assert(rest[at] == services[at]);
                    assert forall|j: int| at < j < rest.len() implies !((
                    #[trigger] rest[j]).entry.namespace == name.namespace
                        && rest[j].entry.app_name == name.name) by {
                        assert(rest[j] == services[j]);
                    }
                }
                if is_last_of(rest, at, name) {
                    assert(rest[at] == services[at]);
                    assert forall|j: int| at < j < services.len() implies !((
                    #[trigger] services[j]).entry.namespace == name.namespace
                        && services[j].entry.app_name == name.name) by {
                        if j < rest.len() {
                            assert(rest[j] == services[j]);
                        }
                    }
                }
            }
            if owner_of(rest, name) is Some {
                let at = choose|at: int| #[trigger] is_last_of(rest, at, name);
                assert(is_last_of(services, at, name));
            }
            if owner_of(services, name) is None {
                assert forall|j: int| 0 <= j < services.len() implies !((
                #[trigger] services[j]).entry.namespace == name.namespace
                    && services[j].entry.app_name == name.name) by {
                    if j < rest.len() {
                        assert(rest[j] == services[j]);
                    }
                }
            }
            if exists|at: int| #[trigger] is_last_of(services, at, name) {
                let at = choose|at: int| #[trigger] is_last_of(services, at, name);
                assert(is_last_of(rest, at, name));
            }
        }
    }
}

/// Whether a text is thirty-two hexadecimal digits.
pub open spec fn is_hex_generation(s: Seq<char>) -> bool {
    s.len() == 32 && forall|i: int|
        0 <= i < 32 ==> (48 <= #[trigger] (s[i] as int) <= 57 || 65 <= s[i] as int <= 70 || 97
            <= s[i] as int <= 102)
}

proof fn generations_are_hex(s: Seq<char>)
    ensures
        is_runtime_generation(s) <==> is_hex_generation(s),
{
    if is_runtime_generation(s) {
        assert forall|i: int| 0 <= i < 32 implies (48 <= #[trigger] (s[i] as int) <= 57 || 65
            <= s[i] as int <= 70 || 97 <= s[i] as int <= 102) by {
            assert(crate::codec::is_hex_digit(s[i]));
        }
    }
    if is_hex_generation(s) {
        assert forall|i: int| 0 <= i < 32 implies crate::codec::is_hex_digit(#[trigger] s[i]) by {
            assert(48 <= s[i] as int <= 57 || 65 <= s[i] as int <= 70 || 97 <= s[i] as int <= 102);
        }
    }
}

/// Whether a reference is owned soundly: by the last service of its name, of
/// which it is an instance, with a runtime generation and an index of a
/// container; and once its release is authorised, it is published no more.
pub open spec fn reference_is_sound(reference: Reference, services: Seq<Owner>) -> bool {
    exists|at: int| #[trigger]
        is_last_of(services, at, reference.service) && is_named_instance(
            reference.reference.instance_id,
            reference.service,
        ) && is_hex_generation(reference.reference.generation)
            && reference.reference.container_index < 509 && (reference.phase is ReleaseAuthorised
            ==> forall|b: int|
            0 <= b < services[at].entry.backends.len() ==> (
            #[trigger] services[at].entry.backends[b]).instance_id
                != reference.reference.instance_id)
}

/// Whether references are all sound, and no two share an instance or an index.
pub open spec fn references_are_sound(references: Seq<Reference>, services: Seq<Owner>) -> bool {
    &&& forall|i: int|
        0 <= i < references.len() ==> reference_is_sound(#[trigger] references[i], services)
    &&& forall|i: int, j: int|
        0 <= i < j < references.len() ==> (#[trigger] references[i]).reference.instance_id != (
        #[trigger] references[j]).reference.instance_id && references[i].reference.container_index
            != references[j].reference.container_index
}

proof fn sound_reference_is_sound(
    owner: Reference,
    services: Seq<Owner>,
)
    ensures
        reference_is_sound(owner, services) <==> owner_of(services, owner.service) is Some
            && sound_reference(owner, owner_of(services, owner.service)->0, Seq::empty()),
{
    owner_is_last(services, owner.service);
    instance_names(owner.reference.instance_id, owner.service);
    generations_are_hex(owner.reference.generation);
    let found = owner_of(services, owner.service);
    if found is Some {
        let at = choose|at: int| #[trigger] is_last_of(services, at, owner.service);
        assert(found == Some(services[at]));
        let entry = services[at].entry;
        if reference_is_sound(owner, services) {
            let k = choose|at: int| #[trigger]
                is_last_of(services, at, owner.service) && is_named_instance(
                    owner.reference.instance_id,
                    owner.service,
                ) && is_hex_generation(owner.reference.generation)
                    && owner.reference.container_index < 509 && (owner.phase is ReleaseAuthorised
                    ==> forall|b: int|
                    0 <= b < services[at].entry.backends.len() ==> (
                    #[trigger] services[at].entry.backends[b]).instance_id
                        != owner.reference.instance_id);
            assert(found == Some(services[k]));
        }
    }
}

proof fn exactly_sound_references(references: Seq<Reference>, services: Seq<Owner>)
    ensures
        references_complaint(references, services) is None <==> references_are_sound(
            references,
            services,
        ),
    decreases references.len(),
{
    if references.len() > 0 {
        let earlier = references.drop_last();
        let owner = references[references.len() - 1];
        exactly_sound_references(earlier, services);
        sound_reference_is_sound(owner, services);
        let found = owner_of(services, owner.service);
        assert(references.last() == owner);
        assert(!conflicts(Seq::empty(), owner.reference));
        if references_complaint(references, services) is None {
            assert(reference_is_sound(owner, services));
            assert forall|i: int| 0 <= i < references.len() implies reference_is_sound(
                #[trigger] references[i],
                services,
            ) by {
                if i < earlier.len() {
                    assert(earlier[i] == references[i]);
                }
            }
            assert forall|i: int, j: int| 0 <= i < j < references.len() implies (
            #[trigger] references[i]).reference.instance_id != (
            #[trigger] references[j]).reference.instance_id
                && references[i].reference.container_index
                != references[j].reference.container_index by {
                assert(earlier[i] == references[i]);
                if j < earlier.len() {
                    assert(earlier[j] == references[j]);
                }
            }
        }
        if references_are_sound(references, services) {
            assert forall|i: int| 0 <= i < earlier.len() implies reference_is_sound(
                #[trigger] earlier[i],
                services,
            ) by {
                assert(earlier[i] == references[i]);
            }
            assert forall|i: int, j: int| 0 <= i < j < earlier.len() implies (
            #[trigger] earlier[i]).reference.instance_id != (
            #[trigger] earlier[j]).reference.instance_id && earlier[i].reference.container_index
                != earlier[j].reference.container_index by {
                assert(earlier[i] == references[i] && earlier[j] == references[j]);
            }
            assert(reference_is_sound(references[references.len() - 1], services));
            assert(!conflicts(earlier, owner.reference)) by {
                if conflicts(earlier, owner.reference) {
                    let i = choose|i: int|
                        0 <= i < earlier.len() && ((#[trigger] earlier[i]).reference.instance_id
                            == owner.reference.instance_id || earlier[i].reference.container_index
                            == owner.reference.container_index);
                    assert(earlier[i] == references[i]);
                    assert(references[i].reference.instance_id != references[references.len()
                        - 1].reference.instance_id);
                }
            }
        }
    }
}

/// Whether an inventory is sound.
pub open spec fn inventory_is_sound(inventory: Inventory, checks: InventoryChecks) -> bool {
    &&& inventory.consumer matches Some(owner) ==> ownership_is_sound(owner, checks.consumer->0)
    &&& checks.snapshot is Ok
    &&& forall|i: int|
        0 <= i < inventory.services.len() && (#[trigger] inventory.services[i]).phase is Withdrawn
            ==> inventory.services[i].entry.backends.len() == 0
    &&& forall|i: int, instance: Seq<char>|
        0 <= i < inventory.services.len() && #[trigger] inventory.services[i].executions.dom().contains(
            instance,
        ) ==> exists|b: int|
            0 <= b < inventory.services[i].entry.backends.len() && (
            #[trigger] inventory.services[i].entry.backends[b]).instance_id == instance
    &&& references_are_sound(inventory.references, inventory.services)
}

/// There is no complaint of an inventory exactly where it is sound.
pub proof fn sound_inventories(inventory: Inventory, checks: InventoryChecks)
    ensures
        inventory_complaint(inventory, checks) is None <==> inventory_is_sound(inventory, checks),
{
    exactly_sound_references(inventory.references, inventory.services);
    if inventory.consumer is Some {
        sound_ownership(inventory.consumer->0, checks.consumer->0);
    }
    let published = forall|i: int, instance: Seq<char>|
        0 <= i < inventory.services.len() && #[trigger] inventory.services[i].executions.dom().contains(
            instance,
        ) ==> exists|b: int|
            0 <= b < inventory.services[i].entry.backends.len() && (
            #[trigger] inventory.services[i].entry.backends[b]).instance_id == instance;
    let each = forall|i: int|
        0 <= i < inventory.services.len() ==> executions_published(
            #[trigger] inventory.services[i],
        );
    assert(published == each) by {
        if published {
            assert forall|i: int| 0 <= i < inventory.services.len() implies executions_published(
                #[trigger] inventory.services[i],
            ) by {
                let owner = inventory.services[i];
                assert forall|instance: Seq<char>| #[trigger]
                    owner.executions.dom().contains(instance) implies owner.entry.has_instance(
                    instance,
                ) by {
                    assert(inventory.services[i].executions.dom().contains(instance));
                }
            }
        }
        if each {
            assert forall|i: int, instance: Seq<char>|
                0 <= i < inventory.services.len()
                    && #[trigger] inventory.services[i].executions.dom().contains(
                    instance,
                ) implies exists|b: int|
                0 <= b < inventory.services[i].entry.backends.len() && (
                #[trigger] inventory.services[i].entry.backends[b]).instance_id == instance by {
                assert(executions_published(inventory.services[i]));
                assert(inventory.services[i].entry.has_instance(instance));
            }
        }
    }
}

/// An inventory is accepted exactly where it is sound.
pub proof fn exactly_sound_inventories_are_accepted(
    inventory: &DiscoveryInventory,
    checks: &InventoryChecks,
    r: Result<(), String>,
)
    requires
        call_ensures(validate, (inventory, checks), r),
    ensures
        r is Ok <==> inventory_is_sound(inventory@, *checks),
{
    sound_inventories(inventory@, *checks);
}

/// An inventory whose only reference is an instance of its only service, by
/// number or by generation and number, with a generation of thirty-two
/// hexadecimal digits and an index of a container, is accepted.
pub proof fn one_instance_of_one_service_is_accepted(
    inventory: &DiscoveryInventory,
    checks: &InventoryChecks,
    generation: u64,
    ordinal: u32,
    r: Result<(), String>,
)
    requires
        call_ensures(validate, (inventory, checks), r),
        inventory@.consumer is None,
        checks.snapshot is Ok,
        inventory@.services.len() == 1,
        inventory@.services[0].phase is Owned,
        inventory@.services[0].executions == Map::<Seq<char>, Seq<char>>::empty(),
        inventory@.references.len() == 1,
        inventory@.references[0].phase is Held,
        inventory@.references[0].service.namespace == inventory@.services[0].entry.namespace,
        inventory@.references[0].service.name == inventory@.services[0].entry.app_name,
        is_hex_generation(inventory@.references[0].reference.generation),
        inventory@.references[0].reference.container_index < 509,
        ({
            let entry = inventory@.services[0].entry;
            let name = entry.namespace + "__"@ + entry.app_name;
            let id = inventory@.references[0].reference.instance_id;
            id == name + "-"@ + decimal_text(ordinal as nat) || id == name + "-g"@ + decimal_text(
                generation as nat,
            ) + "-"@ + decimal_text(ordinal as nat)
        }),
    ensures
        r is Ok,
{
    sound_inventories(inventory@, *checks);
    let reference = inventory@.references[0];
    assert(is_last_of(inventory@.services, 0, reference.service));
    assert(is_named_instance(reference.reference.instance_id, reference.service));
    assert(reference_is_sound(reference, inventory@.services));
}

/// Whether what a service owned is carried over to the last of its name: it keeps
/// its address and port, stays withdrawn once it is, and keeps the execution of
/// whatever is still published. Only what is withdrawn may go.
pub open spec fn service_is_carried(original: Owner, next: Seq<Owner>) -> bool {
    let name = ServiceName { namespace: original.entry.namespace, name: original.entry.app_name };
    if exists|at: int| #[trigger] is_last_of(next, at, name) {
        exists|at: int| #[trigger]
            is_last_of(next, at, name) && next[at].entry.vip == original.entry.vip
                && next[at].entry.port == original.entry.port && (original.phase is Withdrawn
                ==> next[at].phase is Withdrawn) && (forall|instance: Seq<char>, b: int|
                #[trigger] original.executions.dom().contains(instance) && 0 <= b
                    < next[at].entry.backends.len() && (
                #[trigger] next[at].entry.backends[b]).instance_id == instance
                    ==> next[at].executions.dom().contains(instance)
                    && next[at].executions[instance] == original.executions[instance])
    } else {
        original.phase is Withdrawn
    }
}

proof fn carried_services(original: Owner, next: Seq<Owner>)
    ensures
        service_is_carried(original, next) <==> allocation_kept(
            original,
            owner_of(next, original.entry.id()),
        ) && (owner_of(next, original.entry.id()) is Some ==> executions_kept(
            original,
            owner_of(next, original.entry.id())->0,
        )),
{
    let name = original.entry.id();
    owner_is_last(next, name);
    let found = owner_of(next, name);
    if found is Some {
        let at = choose|at: int| #[trigger] is_last_of(next, at, name);
        assert(found == Some(next[at]));
        let successor = next[at];
        let kept = forall|instance: Seq<char>, b: int|
            #[trigger] original.executions.dom().contains(instance) && 0 <= b
                < successor.entry.backends.len() && (
            #[trigger] successor.entry.backends[b]).instance_id == instance
                ==> successor.executions.dom().contains(instance) && successor.executions[instance]
                == original.executions[instance];
        assert(kept == executions_kept(original, successor)) by {
            if kept {
                assert forall|instance: Seq<char>| #[trigger]
                    original.executions.dom().contains(instance) && successor.entry.has_instance(
                        instance,
                    ) implies successor.executions.dom().contains(instance)
                    && successor.executions[instance] == original.executions[instance] by {
                    let b = choose|i: int|
                        0 <= i < successor.entry.backends.len() && (
                        #[trigger] successor.entry.backends[i]).instance_id == instance;
                    assert(successor.entry.backends[b].instance_id == instance);
                }
            }
            if executions_kept(original, successor) {
                assert forall|instance: Seq<char>, b: int|
                    #[trigger] original.executions.dom().contains(instance) && 0 <= b
                        < successor.entry.backends.len() && (
                    #[trigger] successor.entry.backends[b]).instance_id
                        == instance implies successor.executions.dom().contains(instance)
                    && successor.executions[instance] == original.executions[instance] by {
                    assert(successor.entry.has_instance(instance));
                }
            }
        }
        if service_is_carried(original, next) {
            let k = choose|at: int| #[trigger]
                is_last_of(next, at, name) && next[at].entry.vip == original.entry.vip
                    && next[at].entry.port == original.entry.port && (original.phase is Withdrawn
                    ==> next[at].phase is Withdrawn) && (forall|instance: Seq<char>, b: int|
                    #[trigger] original.executions.dom().contains(instance) && 0 <= b
                        < next[at].entry.backends.len() && (
                    #[trigger] next[at].entry.backends[b]).instance_id == instance
                        ==> next[at].executions.dom().contains(instance)
                        && next[at].executions[instance] == original.executions[instance]);
            assert(found == Some(next[k]));
        }
    }
}

proof fn all_carried_services(previous: Seq<Owner>, next: Seq<Owner>)
    ensures
        services_complaint(previous, next) is None <==> forall|i: int|
            0 <= i < previous.len() ==> service_is_carried(#[trigger] previous[i], next),
    decreases previous.len(),
{
    if previous.len() > 0 {
        let rest = previous.drop_last();
        let last = previous[previous.len() - 1];
        all_carried_services(rest, next);
        carried_services(last, next);
        assert(previous.last() == last);
        if services_complaint(previous, next) is None {
            assert forall|i: int| 0 <= i < previous.len() implies service_is_carried(
                #[trigger] previous[i],
                next,
            ) by {
                if i < rest.len() {
                    assert(rest[i] == previous[i]);
                }
            }
        }
        if forall|i: int| 0 <= i < previous.len() ==> service_is_carried(
            #[trigger] previous[i],
            next,
        ) {
            assert forall|i: int| 0 <= i < rest.len() implies service_is_carried(
                #[trigger] rest[i],
                next,
            ) by {
                assert(rest[i] == previous[i]);
            }
            assert(service_is_carried(previous[previous.len() - 1], next));
        }
    }
}

/// Whether a reference is the last in a list of its instance.
pub open spec fn is_last_reference(
    references: Seq<Reference>,
    at: int,
    instance_id: Seq<char>,
) -> bool {
    0 <= at < references.len() && references[at].reference.instance_id == instance_id
        && forall|j: int|
        at < j < references.len() ==> (#[trigger] references[j]).reference.instance_id
            != instance_id
}

/// The reference found for an instance is the last of it.
pub proof fn reference_is_last(references: Seq<Reference>, id: Seq<char>)
    ensures
        reference_of(references, id) is Some <==> exists|at: int|
            #[trigger] is_last_reference(references, at, id),
        forall|at: int| #[trigger]
            is_last_reference(references, at, id) ==> reference_of(references, id) == Some(
                references[at],
            ),
        reference_of(references, id) is None <==> forall|j: int|
            0 <= j < references.len() ==> (#[trigger] references[j]).reference.instance_id != id,
    decreases references.len(),
{
    if references.len() > 0 {
        let rest = references.drop_last();
        let end = references.len() - 1;
        reference_is_last(rest, id);
        if references[end].reference.instance_id == id {
            assert(is_last_reference(references, end, id));
            assert forall|at: int| #[trigger]
                is_last_reference(references, at, id) implies reference_of(references, id) == Some(
                references[at],
            ) by {
                if at < end {
                    assert(references[end].reference.instance_id == id);
                }
            }
        } else {
            assert forall|at: int| #[trigger]
                is_last_reference(references, at, id) <==> is_last_reference(rest, at, id) by {
                if is_last_reference(references, at, id) {
                    assert(at < rest.len());
                    assert forall|j: int| at < j < rest.len() implies (
                    #[trigger] rest[j]).reference.instance_id != id by {
                        assert(rest[j] == references[j]);
                    }
                }
                if is_last_reference(rest, at, id) {
                    assert forall|j: int| at < j < references.len() implies (
                    #[trigger] references[j]).reference.instance_id != id by {
                        if j < end {
                            assert(rest[j] == references[j]);
                        }
                    }
                }
            }
            if reference_of(rest, id) is Some {
                let at = choose|at: int| #[trigger] is_last_reference(rest, at, id);
                assert(is_last_reference(references, at, id));
                assert(references[at].reference.instance_id == id);
            } else {
                assert forall|j: int| 0 <= j < references.len() implies (
                #[trigger] references[j]).reference.instance_id != id by {
                    if j < end {
                        assert(rest[j] == references[j]);
                    }
                }
            }
            if exists|at: int| #[trigger] is_last_reference(references, at, id) {
                let at = choose|at: int| #[trigger] is_last_reference(references, at, id);
                assert(is_last_reference(rest, at, id));
            }
        }
    }
}

/// Whether a reference is carried over to the last of its instance: unchanged,
/// with its release authorised once it is. Only what is so may go.
pub open spec fn reference_is_carried(original: Reference, next: Seq<Reference>) -> bool {
    let id = original.reference.instance_id;
    if exists|at: int| #[trigger] is_last_reference(next, at, id) {
        exists|at: int| #[trigger]
            is_last_reference(next, at, id) && next[at].reference == original.reference
                && next[at].service == original.service && (original.phase is ReleaseAuthorised
                ==> next[at].phase is ReleaseAuthorised)
    } else {
        original.phase is ReleaseAuthorised
    }
}

proof fn carried_references(original: Reference, next: Seq<Reference>)
    ensures
        reference_is_carried(original, next) <==> reference_kept(
            original,
            reference_of(next, original.reference.instance_id),
        ),
{
    let id = original.reference.instance_id;
    reference_is_last(next, id);
    if reference_of(next, id) is Some {
        let at = choose|at: int| #[trigger] is_last_reference(next, at, id);
        assert(reference_of(next, id) == Some(next[at]));
        if reference_is_carried(original, next) {
            let k = choose|at: int| #[trigger]
                is_last_reference(next, at, id) && next[at].reference == original.reference
                    && next[at].service == original.service && (original.phase is ReleaseAuthorised
                    ==> next[at].phase is ReleaseAuthorised);
            assert(reference_of(next, id) == Some(next[k]));
        }
    }
}

/// Whether an inventory may come after another.
pub open spec fn inventory_may_follow(previous: Inventory, next: Inventory) -> bool {
    &&& previous.consumer matches Some(owner) ==> next.consumer is Some && step_is_lawful(
        owner,
        next.consumer->0,
    )
    &&& forall|i: int|
        0 <= i < previous.services.len() ==> service_is_carried(
            #[trigger] previous.services[i],
            next.services,
        )
    &&& forall|i: int|
        0 <= i < previous.references.len() ==> reference_is_carried(
            #[trigger] previous.references[i],
            next.references,
        )
}

/// There is no complaint of a successor exactly where it may follow.
pub proof fn lawful_successors(previous: Inventory, next: Inventory)
    ensures
        successor_complaint(previous, next) is None <==> inventory_may_follow(previous, next),
{
    if previous.consumer is Some && next.consumer is Some {
        lawful_steps(previous.consumer->0, next.consumer->0);
    }
    all_carried_services(previous.services, next.services);
    let kept = forall|i: int|
        0 <= i < previous.references.len() ==> reference_is_carried(
            #[trigger] previous.references[i],
            next.references,
        );
    assert(kept == references_kept(previous.references, next.references)) by {
        if kept {
            assert forall|i: int| 0 <= i < previous.references.len() implies reference_kept(
                #[trigger] previous.references[i],
                reference_of(next.references, previous.references[i].reference.instance_id),
            ) by {
                carried_references(previous.references[i], next.references);
            }
        }
        if references_kept(previous.references, next.references) {
            assert forall|i: int| 0 <= i < previous.references.len() implies reference_is_carried(
                #[trigger] previous.references[i],
                next.references,
            ) by {
                carried_references(previous.references[i], next.references);
            }
        }
    }
}

/// A change of inventory is accepted exactly where the new one may come after the
/// old.
pub proof fn exactly_lawful_successors_are_accepted(
    previous: &DiscoveryInventory,
    next: &DiscoveryInventory,
    r: Result<(), String>,
)
    requires
        call_ensures(validate_transition, (previous, next), r),
    ensures
        r is Ok <==> inventory_may_follow(previous@, next@),
{
    lawful_successors(previous@, next@);
}

/// Anything may come after an empty inventory, and after a standalone one whose
/// services and references are told apart, itself may.
pub proof fn inventories_may_grow_and_stay(
    previous: &DiscoveryInventory,
    next: &DiscoveryInventory,
    r: Result<(), String>,
)
    requires
        call_ensures(validate_transition, (previous, next), r),
    ensures
        previous@.consumer is None && previous@.services.len() == 0
            && previous@.references.len() == 0 ==> r is Ok,
        previous@ == next@ && previous@.consumer is None && (forall|i: int, j: int|
            0 <= i < j < previous@.services.len() ==> (#[trigger] previous@.services[i]).entry.id()
                != (#[trigger] previous@.services[j]).entry.id()) && (forall|i: int, j: int|
            0 <= i < j < previous@.references.len() ==> (
            #[trigger] previous@.references[i]).reference.instance_id != (
            #[trigger] previous@.references[j]).reference.instance_id) ==> r is Ok,
{
    lawful_successors(previous@, next@);
    let before = previous@;
    if before == next@ && before.consumer is None && (forall|i: int, j: int|
        0 <= i < j < before.services.len() ==> (#[trigger] before.services[i]).entry.id() != (
        #[trigger] before.services[j]).entry.id()) && (forall|i: int, j: int|
        0 <= i < j < before.references.len() ==> (
        #[trigger] before.references[i]).reference.instance_id != (
        #[trigger] before.references[j]).reference.instance_id) {
        assert forall|i: int| 0 <= i < before.services.len() implies service_is_carried(
            #[trigger] before.services[i],
            before.services,
        ) by {
            let name = before.services[i].entry.id();
            assert forall|j: int| i < j < before.services.len() implies !((
            #[trigger] before.services[j]).entry.namespace == name.namespace
                && before.services[j].entry.app_name == name.name) by {
                assert(before.services[i].entry.id() != before.services[j].entry.id());
            }
            assert(is_last_of(before.services, i, name));
        }
        assert forall|i: int| 0 <= i < before.references.len() implies reference_is_carried(
            #[trigger] before.references[i],
            before.references,
        ) by {
            assert(is_last_reference(
                before.references,
                i,
                before.references[i].reference.instance_id,
            ));
        }
    }
}

} // verus!
