//! Durable egress ownership published before any kernel policy mutation.

use vstd::prelude::*;

use crate::codec::{decode_hex16, hex16_bytes, is_hex_digit};
use crate::ordered_map::{key_index, Key, OrderedMap};
use crate::text::{from_chars, pieces, split_on, texts, to_chars, trim, trimmed};

verus! {

/// Largest checkpoint that is read or written, in bytes.
pub const MAX_CHECKPOINT_BYTES: u64 = 16_777_216;

/// Format of the checkpoint.
pub const CHECKPOINT_SCHEMA: u32 = 1;

/// Kernel identity, independent of the agent process or any workload.
#[derive(Debug, Clone, Copy)]
pub struct KernelBootId(pub [u8; 16]);

/// Positive cleanup evidence survives until the adoption record is removed.
#[derive(Debug, Clone, Copy, PartialEq, Eq, Structural)]
pub enum PolicyPhase {
    /// Kernel cleanup remains an obligation of this original owner.
    Owned,
    /// Kernel cleanup is confirmed; adoption metadata may still remain.
    Retired,
}

/// Runtime that executes an instance.
#[derive(Debug, Clone, Copy, PartialEq, Eq, Structural)]
pub enum RuntimeKind {
    /// OCI runtime with kernel cgroups.
    Runc,
    /// Any other runtime.
    Other,
}

/// Original launch input, of which recovery reads the cgroup path.
#[derive(Debug)]
pub struct OciSpec {
    /// Path of the cgroup that the launch asked for.
    pub cgroups_path: Option<String>,
    /// The complete launch input as a document.
    pub document: String,
}

/// Original authority for one instance's kernel policy, independent of
/// adoption.
#[derive(Debug)]
pub struct EgressBinding {
    /// Whether this owner still has a kernel cleanup obligation.
    pub phase: PolicyPhase,
    /// Original kernel cgroup identity, retained even after runtime deletion.
    pub cgroup_id: u64,
    /// Original allowlist, re-resolved periodically while the instance lives.
    pub allow: Vec<String>,
    /// Runtime responsible for proving execution and retirement.
    pub runtime: RuntimeKind,
    /// Original launch input.
    pub original_spec: OciSpec,
    /// Kernel boot identity; cgroup numbers cannot be compared across boots.
    pub boot_id: KernelBootId,
}

/// One owner as the checkpoint lists it.
#[derive(Debug)]
pub struct Owner {
    /// Instance that the policy belongs to.
    pub instance_id: String,
    /// Its original binding.
    pub binding: EgressBinding,
}

/// What the file system says of a checkpoint file.
#[derive(Debug, Clone, Copy)]
pub struct CheckpointFile {
    /// Whether it is a regular file.
    pub regular: bool,
    /// Its length in bytes.
    pub length: u64,
    /// Its permission bits.
    pub mode: u32,
    /// Whether the running user owns it.
    pub owned: bool,
    /// How many names it has.
    pub links: u64,
}

/// Why an ownership inventory is refused.
#[derive(Debug, Clone, Copy, PartialEq, Eq, Structural)]
pub enum EgressError {
    /// An owner's identity or binding is malformed.
    InvalidOwnership,
    /// The checkpoint is not a regular file, or is too long.
    InvalidFile,
    /// Other users could read or replace the checkpoint.
    NotPrivate,
    /// The checkpoint's contents are too long.
    TooLarge,
    /// The checkpoint has another format.
    UnsupportedSchema,
    /// The checkpoint lists an instance twice.
    DuplicateIdentity,
    /// The kernel's boot identity does not have the form of one.
    InvalidBootId,
    /// The kernel's boot identity is all zeros.
    UnavailableBootId,
}

impl EgressError {
    /// What the error says.
    pub open spec fn text(self) -> Seq<char> {
        match self {
            EgressError::InvalidOwnership => "invalid durable egress ownership"@,
            EgressError::InvalidFile => "invalid egress ownership checkpoint file"@,
            EgressError::NotPrivate => "egress ownership checkpoint is not private"@,
            EgressError::TooLarge => "egress ownership checkpoint is too large"@,
            EgressError::UnsupportedSchema => "unsupported egress ownership schema"@,
            EgressError::DuplicateIdentity => "duplicate egress ownership identity"@,
            EgressError::InvalidBootId => "kernel boot identity is invalid"@,
            EgressError::UnavailableBootId => "kernel boot identity is unavailable"@,
        }
    }

    /// Say the error in words.
    pub fn words(self) -> (r: String)
        ensures
            r@ == self.text(),
    {
        match self {
            EgressError::InvalidOwnership => "invalid durable egress ownership".to_owned(),
            EgressError::InvalidFile => "invalid egress ownership checkpoint file".to_owned(),
            EgressError::NotPrivate => "egress ownership checkpoint is not private".to_owned(),
            EgressError::TooLarge => "egress ownership checkpoint is too large".to_owned(),
            EgressError::UnsupportedSchema => "unsupported egress ownership schema".to_owned(),
            EgressError::DuplicateIdentity => "duplicate egress ownership identity".to_owned(),
            EgressError::InvalidBootId => "kernel boot identity is invalid".to_owned(),
            EgressError::UnavailableBootId => "kernel boot identity is unavailable".to_owned(),
        }
    }
}

/// Whether a character may stand in an instance's identity.
pub open spec fn is_identity_char(c: char) -> bool {
    ('0' <= c && c <= '9') || ('a' <= c && c <= 'z') || ('A' <= c && c <= 'Z') || c == '_' || c
        == '-'
}

/// Whether a text can be an instance's identity.
pub open spec fn is_identity(id: Seq<char>) -> bool {
    id.len() > 0 && forall|i: int| 0 <= i < id.len() ==> is_identity_char(#[trigger] id[i])
}

/// Whether a path starts at the root and never climbs to a parent.
pub open spec fn is_rooted_path(path: Seq<char>) -> bool {
    path.len() > 0 && path[0] == '/' && !pieces(path, '/').contains(seq!['.', '.'])
}

/// Whether an owner can stand in the inventory.
pub open spec fn valid_owner(id: Seq<char>, binding: EgressBinding) -> bool {
    &&& is_identity(id)
    &&& binding.cgroup_id != 0
    &&& !all_zero(binding.boot_id.0@)
    &&& binding.allow@.len() > 0
    &&& forall|i: int| 0 <= i < binding.allow@.len() ==> (#[trigger] binding.allow@[i])@.len() > 0
    &&& binding.original_spec.cgroups_path matches Some(path) && is_rooted_path(path@)
}

/// Whether every byte is zero.
pub open spec fn all_zero(bytes: Seq<u8>) -> bool {
    forall|i: int| 0 <= i < bytes.len() ==> #[trigger] bytes[i] == 0
}

/// Whether every owner of an inventory can stand in it.
pub open spec fn valid_owners(owners: Map<Seq<char>, EgressBinding>) -> bool {
    forall|id: Seq<char>| #[trigger]
        owners.dom().contains(id) ==> valid_owner(id, owners[id])
}

fn identity_is_valid(id: &String) -> (r: bool)
    ensures
        r == is_identity(id@),
{
    let chars = to_chars(id.as_str());
    if chars.len() == 0 {
        return false;
    }
    let mut i: usize = 0;
    while i < chars.len()
        invariant
            chars@ == id@,
            i <= chars.len(),
            forall|j: int| 0 <= j < i ==> is_identity_char(#[trigger] id@[j]),
        decreases chars.len() - i,
    {
        let c: char = chars[i];
        if !(('0' <= c && c <= '9') || ('a' <= c && c <= 'z') || ('A' <= c && c <= 'Z') || c == '_'
            || c == '-') {
            proof {
                assert(!is_identity_char(id@[i as int]));
            }
            return false;
        }
        i = i + 1;
    }
    true
}

fn path_is_rooted(path: &String) -> (r: bool)
    ensures
        r == is_rooted_path(path@),
{
    let chars = to_chars(path.as_str());
    if chars.len() == 0 || chars[0] != '/' {
        return false;
    }
    let components = split_on(&chars, '/');
    let ghost parent = seq!['.', '.'];
    let mut i: usize = 0;
    while i < components.len()
        invariant
            chars@ == path@,
            chars@.len() > 0,
            chars@[0] == '/',
            parent == seq!['.', '.'],
            texts(components@) == pieces(path@, '/'),
            i <= components.len(),
            forall|j: int| 0 <= j < i ==> texts(components@)[j] != parent,
        decreases components.len() - i,
    {
        let component = &components[i];
        proof {
            assert(texts(components@)[i as int] == component@);
        }
        if component.len() == 2 && component[0] == '.' && component[1] == '.' {
            proof {
                assert(component@ =~= parent);
                assert(pieces(path@, '/')[i as int] == parent);
            }
            return false;
        }
        proof {
            assert(parent[0] == '.' && parent[1] == '.');
        }
        i = i + 1;
    }
    true
}

fn is_all_zero(bytes: &[u8; 16]) -> (r: bool)
    ensures
        r == all_zero(bytes@),
{
    let mut i: usize = 0;
    while i < 16
        invariant
            i <= 16,
            forall|j: int| 0 <= j < i ==> #[trigger] bytes@[j] == 0,
        decreases 16 - i,
    {
        if bytes[i] != 0 {
            proof {
                assert(bytes@[i as int] != 0);
            }
            return false;
        }
        i = i + 1;
    }
    true
}

fn owner_is_valid(id: &String, binding: &EgressBinding) -> (r: bool)
    ensures
        r == valid_owner(id@, *binding),
{
    if !identity_is_valid(id) || binding.cgroup_id == 0 || is_all_zero(&binding.boot_id.0)
        || binding.allow.len() == 0 {
        return false;
    }
    let mut i: usize = 0;
    while i < binding.allow.len()
        invariant
            i <= binding.allow.len(),
            forall|j: int| 0 <= j < i ==> (#[trigger] binding.allow@[j])@.len() > 0,
        decreases binding.allow.len() - i,
    {
        if binding.allow[i].as_str().is_empty() {
            return false;
        }
        i = i + 1;
    }
    match &binding.original_spec.cgroups_path {
        Some(path) => path_is_rooted(path),
        None => false,
    }
}

/// Check every owner of an inventory.
pub fn validate(owners: &OrderedMap<String, EgressBinding>) -> (r: Result<(), EgressError>)
    requires
        owners.wf(),
    ensures
        r is Ok <==> valid_owners(owners@),
        r is Err ==> r->Err_0 == EgressError::InvalidOwnership,
{
    let mut i: usize = 0;
    while i < owners.entries.len()
        invariant
            owners.wf(),
            i <= owners.entries.len(),
            forall|j: int|
                0 <= j < i ==> valid_owner(
                    (#[trigger] owners.entries@[j]).0@,
                    owners.entries@[j].1,
                ),
        decreases owners.entries.len() - i,
    {
        let entry = &owners.entries[i];
        if !owner_is_valid(&entry.0, &entry.1) {
            proof {
                owners.entry_is_value(i as int);
                assert(owners@.dom().contains(entry.0@));
            }
            return Err(EgressError::InvalidOwnership);
        }
        i = i + 1;
    }
    proof {
        assert forall|id: Seq<char>| #[trigger] owners@.dom().contains(id) implies valid_owner(
            id,
            owners@[id],
        ) by {
            let k = key_index(owners.entries@, id);
            owners.entry_is_value(k);
        }
    }
    Ok(())
}

/// Decide whether a checkpoint file may be read: a private regular file of
/// bounded length with a single name.
pub fn check_file(file: CheckpointFile) -> (r: Result<(), EgressError>)
    ensures
        r == (if !file.regular || file.length > MAX_CHECKPOINT_BYTES {
            Err(EgressError::InvalidFile)
        } else if file.mode % 0o1000 != 0o600 || !file.owned || file.links != 1 {
            Err(EgressError::NotPrivate)
        } else {
            Ok::<(), EgressError>(())
        }),
{
    if !file.regular || file.length > MAX_CHECKPOINT_BYTES {
        return Err(EgressError::InvalidFile);
    }
    if file.mode % 0o1000 != 0o600 || !file.owned || file.links != 1 {
        return Err(EgressError::NotPrivate);
    }
    Ok(())
}

/// Decide whether the contents of a checkpoint are short enough.
pub fn check_size(length: u64) -> (r: Result<(), EgressError>)
    ensures
        r is Ok <==> length <= MAX_CHECKPOINT_BYTES,
        r is Err ==> r->Err_0 == EgressError::TooLarge,
{
    if length > MAX_CHECKPOINT_BYTES {
        Err(EgressError::TooLarge)
    } else {
        Ok(())
    }
}

/// Whether some instance is listed twice.
pub open spec fn lists_twice(owners: Seq<Owner>) -> bool {
    exists|i: int, j: int|
        0 <= i < j < owners.len() && (#[trigger] owners[i]).instance_id@ == (
        #[trigger] owners[j]).instance_id@
}

/// The inventory that a list of owners stands for.
pub open spec fn inventory_of(owners: Seq<Owner>) -> Map<Seq<char>, EgressBinding>
    decreases owners.len(),
{
    if owners.len() == 0 {
        Map::empty()
    } else {
        inventory_of(owners.drop_last()).insert(owners.last().instance_id@, owners.last().binding)
    }
}

/// Whether an instance is listed.
pub open spec fn lists(owners: Seq<Owner>, id: Seq<char>) -> bool {
    exists|i: int| 0 <= i < owners.len() && (#[trigger] owners[i]).instance_id@ == id
}

proof fn inventory_domain(owners: Seq<Owner>, id: Seq<char>)
    ensures
        inventory_of(owners).dom().contains(id) <==> lists(owners, id),
    decreases owners.len(),
{
    if owners.len() > 0 {
        let rest = owners.drop_last();
        inventory_domain(rest, id);
        if lists(rest, id) {
            let i = choose|i: int| 0 <= i < rest.len() && (#[trigger] rest[i]).instance_id@ == id;
            assert(owners[i].instance_id@ == id);
        }
        if owners.last().instance_id@ == id {
            assert(owners[owners.len() - 1].instance_id@ == id);
        }
        if lists(owners, id) {
            let i = choose|i: int|
                0 <= i < owners.len() && (#[trigger] owners[i]).instance_id@ == id;
            if i < rest.len() {
                assert(rest[i].instance_id@ == id);
            }
        }
    }
}

/// Read every original owner of a checkpoint before adoption or kernel
/// cleanup. An unknown format, an instance listed twice or a malformed owner
/// refuses the whole inventory.
pub fn load(schema: u32, owners: Vec<Owner>) -> (r: Result<
    OrderedMap<String, EgressBinding>,
    EgressError,
>)
    ensures
        schema != CHECKPOINT_SCHEMA ==> r == Err::<OrderedMap<String, EgressBinding>, EgressError>(
            EgressError::UnsupportedSchema,
        ),
        schema == CHECKPOINT_SCHEMA && lists_twice(owners@) ==> r == Err::<
            OrderedMap<String, EgressBinding>,
            EgressError,
        >(EgressError::DuplicateIdentity),
        schema == CHECKPOINT_SCHEMA && !lists_twice(owners@) && !valid_owners(
            inventory_of(owners@),
        ) ==> r == Err::<OrderedMap<String, EgressBinding>, EgressError>(
            EgressError::InvalidOwnership,
        ),
        schema == CHECKPOINT_SCHEMA && !lists_twice(owners@) && valid_owners(
            inventory_of(owners@),
        ) ==> r is Ok && r->Ok_0.wf() && r->Ok_0@ == inventory_of(owners@),
{
    if schema != CHECKPOINT_SCHEMA {
        return Err(EgressError::UnsupportedSchema);
    }
    let ghost all = owners@;
    let total: usize = owners.len();
    let mut rest = owners;
    let mut table: OrderedMap<String, EgressBinding> = OrderedMap::new();
    let mut count: usize = 0;
    proof {
        assert(all.take(0) =~= Seq::<Owner>::empty());
        assert(all.skip(0) =~= all);
    }
    while rest.len() > 0
        invariant
            schema == CHECKPOINT_SCHEMA,
            all == owners@,
            all.len() == total,
            count + rest@.len() == all.len(),
            rest@ == all.skip(count as int),
            table.wf(),
            table@ == inventory_of(all.take(count as int)),
            !lists_twice(all.take(count as int)),
        decreases rest.len(),
    {
        let owner = rest.remove(0);
        let ghost before = all.take(count as int);
        let ghost after = all.take(count as int + 1);
        proof {
            assert(owner == all[count as int]);
            assert(after.drop_last() =~= before);
            assert(after.last() == owner);
            assert(rest@ =~= all.skip(count as int + 1));
            inventory_domain(before, owner.instance_id@);
        }
        if table.contains_key(&owner.instance_id) {
            proof {
                let i = choose|i: int|
                    0 <= i < before.len() && (#[trigger] before[i]).instance_id@
                        == owner.instance_id@;
                assert(all[i].instance_id@ == all[count as int].instance_id@);
                assert(lists_twice(all));
            }
            return Err(EgressError::DuplicateIdentity);
        }
        proof {
            if lists_twice(after) {
                let (i, j) = choose|i: int, j: int|
                    0 <= i < j < after.len() && (#[trigger] after[i]).instance_id@ == (
                    #[trigger] after[j]).instance_id@;
                if j < count {
                    assert(before[i].instance_id@ == before[j].instance_id@);
                } else {
                    assert(before[i].instance_id@ == owner.instance_id@);
                }
            }
        }
        table.insert(owner.instance_id, owner.binding);
        count = count + 1;
    }
    proof {
        assert(all.take(count as int) =~= all);
    }
    match validate(&table) {
        Ok(()) => Ok(table),
        Err(error) => Err(error),
    }
}

/// What was read of the checkpoint.
#[derive(Debug)]
pub enum OwnersRead {
    /// There is no checkpoint.
    Missing,
    /// It could not be read, or may not be.
    Failed(String),
    /// It was read.
    Found {
        /// Its format.
        schema: u32,
        /// The owners that it lists.
        owners: Vec<Owner>,
    },
}

/// The inventory that recovery starts from, or why it is refused.
pub open spec fn recovered(read: OwnersRead) -> Result<Map<Seq<char>, EgressBinding>, Seq<char>> {
    match read {
        OwnersRead::Missing => Ok(Map::empty()),
        OwnersRead::Failed(error) => Err(error@),
        OwnersRead::Found { schema, owners } => if schema != CHECKPOINT_SCHEMA {
            Err(EgressError::UnsupportedSchema.text())
        } else if lists_twice(owners@) {
            Err(EgressError::DuplicateIdentity.text())
        } else if !valid_owners(inventory_of(owners@)) {
            Err(EgressError::InvalidOwnership.text())
        } else {
            Ok(inventory_of(owners@))
        },
    }
}

/// Recover every original owner. Only a missing checkpoint means that there is
/// none; an invalid or partial inventory refuses recovery.
pub fn recover(read: OwnersRead) -> (r: Result<OrderedMap<String, EgressBinding>, String>)
    ensures
        match recovered(read) {
            Ok(owners) => r is Ok && r->Ok_0.wf() && r->Ok_0@ == owners,
            Err(error) => r is Err && r->Err_0@ == error,
        },
{
    match read {
        OwnersRead::Missing => Ok(OrderedMap::new()),
        OwnersRead::Failed(error) => Err(error),
        OwnersRead::Found { schema, owners } => match load(schema, owners) {
            Ok(owners) => Ok(owners),
            Err(error) => Err(error.words()),
        },
    }
}

/// A checkpoint that is there is never taken for no owners, unless it lists
/// none: whatever recovery accepts has every listed instance in it.
pub proof fn listed_owners_are_recovered(schema: u32, owners: Vec<Owner>, i: int)
    requires
        recovered(OwnersRead::Found { schema, owners }) is Ok,
        0 <= i < owners@.len(),
    ensures
        schema == CHECKPOINT_SCHEMA,
        ({
            let inventory = recovered(OwnersRead::Found { schema, owners })->Ok_0;
            inventory.dom().contains(owners@[i].instance_id@)
                && inventory[owners@[i].instance_id@] == owners@[i].binding
        }),
{
    inventory_domain(owners@, owners@[i].instance_id@);
    inventory_values(owners@);
}

/// List the owners of an inventory, in the order of their identities, for a
/// checkpoint that replaces the previous one. A malformed owner refuses the
/// whole inventory.
pub fn persist(owners: OrderedMap<String, EgressBinding>) -> (r: Result<Vec<Owner>, EgressError>)
    requires
        owners.wf(),
    ensures
        r is Ok <==> valid_owners(owners@),
        r is Err ==> r->Err_0 == EgressError::InvalidOwnership,
        r is Ok ==> inventory_of(r->Ok_0@) == owners@ && !lists_twice(r->Ok_0@) && r->Ok_0@.len()
            == owners.entries@.len() && forall|i: int|
            0 <= i < r->Ok_0@.len() ==> (#[trigger] r->Ok_0@[i]).instance_id@
                == owners.entries@[i].0@ && r->Ok_0@[i].binding == owners.entries@[i].1,
{
    match validate(&owners) {
        Ok(()) => {},
        Err(error) => {
            return Err(error);
        },
    }
    let ghost all = owners.entries@;
    let ghost table = owners@;
    let mut rest = owners.entries;
    let mut list: Vec<Owner> = Vec::new();
    proof {
        assert(all.skip(0) =~= all);
    }
    while rest.len() > 0
        invariant
            list@.len() + rest@.len() == all.len(),
            rest@ == all.skip(list@.len() as int),
            forall|i: int|
                0 <= i < list@.len() ==> (#[trigger] list@[i]).instance_id@ == all[i].0@
                    && list@[i].binding == all[i].1,
        decreases rest.len(),
    {
        let ghost n = list@.len() as int;
        let (instance_id, binding) = rest.remove(0);
        proof {
            assert((instance_id, binding) == all[n]);
            assert(rest@ =~= all.skip(n + 1));
        }
        list.push(Owner { instance_id, binding });
    }
    proof {
        listed_inventory(owners, list@);
    }
    Ok(list)
}

/// The list of a map's entries stands for the map, and lists no instance
/// twice.
proof fn listed_inventory(owners: OrderedMap<String, EgressBinding>, list: Seq<Owner>)
    requires
        owners.wf(),
        list.len() == owners.entries@.len(),
        forall|i: int|
            0 <= i < list.len() ==> (#[trigger] list[i]).instance_id@ == owners.entries@[i].0@
                && list[i].binding == owners.entries@[i].1,
    ensures
        inventory_of(list) == owners@,
        !lists_twice(list),
{
    let e = owners.entries@;
    assert forall|i: int, j: int| 0 <= i < j < list.len() implies (#[trigger] list[i]).instance_id@
        != (#[trigger] list[j]).instance_id@ by {
        assert(<String as Key>::less(e[i].0.value(), e[j].0.value()));
        <String as Key>::order_laws(e[i].0@, e[i].0@, e[i].0@);
    }
    inventory_values(list);
    assert forall|id: Seq<char>| inventory_of(list).dom().contains(id) == owners@.dom().contains(
        id,
    ) by {
        inventory_domain(list, id);
        if inventory_of(list).dom().contains(id) {
            let i = choose|i: int| 0 <= i < list.len() && (#[trigger] list[i]).instance_id@ == id;
            owners.entry_is_value(i);
        }
        if owners@.dom().contains(id) {
            let i = key_index(e, id);
            assert(list[i].instance_id@ == id);
        }
    }
    assert forall|id: Seq<char>| owners@.dom().contains(id) implies inventory_of(list)[id]
        == owners@[id] by {
        let i = key_index(e, id);
        owners.entry_is_value(i);
        assert(list[i].instance_id@ == id);
    }
    assert(inventory_of(list) =~= owners@);
}

proof fn inventory_values(list: Seq<Owner>)
    requires
        !lists_twice(list),
    ensures
        forall|i: int|
            0 <= i < list.len() ==> inventory_of(list)[(#[trigger] list[i]).instance_id@]
                == list[i].binding,
    decreases list.len(),
{
    if list.len() > 0 {
        let rest = list.drop_last();
        assert(!lists_twice(rest)) by {
            if lists_twice(rest) {
                let (i, j) = choose|i: int, j: int|
                    0 <= i < j < rest.len() && (#[trigger] rest[i]).instance_id@ == (
                    #[trigger] rest[j]).instance_id@;
                assert(list[i].instance_id@ == list[j].instance_id@);
            }
        }
        inventory_values(rest);
        assert forall|i: int| 0 <= i < list.len() implies inventory_of(list)[(
        #[trigger] list[i]).instance_id@] == list[i].binding by {
            if i < rest.len() {
                assert(rest[i] == list[i]);
                assert(list[i].instance_id@ != list[list.len() - 1].instance_id@);
            }
        }
    }
}

/// Whether a text has the form of a kernel boot identity: thirty-two
/// hexadecimal digits in five groups joined by hyphens.
pub open spec fn is_boot_id(text: Seq<char>) -> bool {
    text.len() == 36 && forall|i: int|
        0 <= i < 36 ==> if i == 8 || i == 13 || i == 18 || i == 23 {
            #[trigger] text[i] == '-'
        } else {
            is_hex_digit(text[i])
        }
}

/// The digits of a boot identity, without the hyphens.
pub open spec fn boot_id_digits(text: Seq<char>) -> Seq<char> {
    text.subrange(0, 8) + text.subrange(9, 13) + text.subrange(14, 18) + text.subrange(19, 23)
        + text.subrange(24, 36)
}

/// Read the identity of the running kernel from the text that it reports.
pub fn boot_id(value: &str) -> (r: Result<KernelBootId, EgressError>)
    ensures
        !is_boot_id(trimmed(value@)) ==> r == Err::<KernelBootId, EgressError>(
            EgressError::InvalidBootId,
        ),
        is_boot_id(trimmed(value@)) && all_zero(hex16_bytes(boot_id_digits(trimmed(value@))))
            ==> r == Err::<KernelBootId, EgressError>(EgressError::UnavailableBootId),
        is_boot_id(trimmed(value@)) && !all_zero(hex16_bytes(boot_id_digits(trimmed(value@))))
            ==> r is Ok && r->Ok_0.0@ == hex16_bytes(boot_id_digits(trimmed(value@))),
{
    let text = trim(&to_chars(value));
    if text.len() != 36 {
        return Err(EgressError::InvalidBootId);
    }
    let mut digits: Vec<char> = Vec::new();
    let mut i: usize = 0;
    while i < 36
        invariant
            text@ == trimmed(value@),
            text.len() == 36,
            i <= 36,
            forall|j: int|
                0 <= j < i ==> if j == 8 || j == 13 || j == 18 || j == 23 {
                    #[trigger] text@[j] == '-'
                } else {
                    is_hex_digit(text@[j])
                },
            digits@.len() == i - hyphens_before(i as int),
            forall|j: int| 0 <= j < digits@.len() ==> is_hex_digit(#[trigger] digits@[j]),
            forall|j: int|
                0 <= j < i && !(j == 8 || j == 13 || j == 18 || j == 23)
                    ==> #[trigger] text@[j] == digits@[j - hyphens_before(j)],
        decreases 36 - i,
    {
        let c: char = text[i];
        if i == 8 || i == 13 || i == 18 || i == 23 {
            if c != '-' {
                return Err(EgressError::InvalidBootId);
            }
        } else {
            if !(('0' <= c && c <= '9') || ('a' <= c && c <= 'f') || ('A' <= c && c <= 'F')) {
                proof {
                    assert(!is_hex_digit(text@[i as int]));
                }
                return Err(EgressError::InvalidBootId);
            }
            digits.push(c);
        }
        i = i + 1;
    }
    proof {
        assert(digits@ =~= boot_id_digits(text@)) by {
            assert forall|k: int| 0 <= k < 32 implies digits@[k] == boot_id_digits(text@)[k] by {
                let j = if k < 8 {
                    k
                } else if k < 12 {
                    k + 1
                } else if k < 16 {
                    k + 2
                } else if k < 20 {
                    k + 3
                } else {
                    k + 4
                };
                assert(text@[j] == digits@[j - hyphens_before(j)]);
            }
        }
    }
    match decode_hex16(from_chars(&digits).as_str()) {
        Ok(bytes) => {
            if is_all_zero(&bytes) {
                Err(EgressError::UnavailableBootId)
            } else {
                Ok(KernelBootId(bytes))
            }
        },
        Err(()) => Err(EgressError::InvalidBootId),
    }
}

/// How many hyphens a boot identity has before a position.
spec fn hyphens_before(i: int) -> int {
    if i <= 8 {
        0
    } else if i <= 13 {
        1
    } else if i <= 18 {
        2
    } else if i <= 23 {
        3
    } else {
        4
    }
}

/// A persisted inventory is read back as it was: the list that `persist`
/// makes of an inventory loads, and as the same inventory.
pub proof fn persisted_inventory_loads(
    owners: OrderedMap<String, EgressBinding>,
    list: Seq<Owner>,
)
    requires
        owners.wf(),
        valid_owners(owners@),
        list.len() == owners.entries@.len(),
        forall|i: int|
            0 <= i < list.len() ==> (#[trigger] list[i]).instance_id@ == owners.entries@[i].0@
                && list[i].binding == owners.entries@[i].1,
    ensures
        !lists_twice(list),
        valid_owners(inventory_of(list)),
        inventory_of(list) == owners@,
{
    listed_inventory(owners, list);
}

} // verus!
