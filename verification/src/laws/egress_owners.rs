//! Which egress ownership is kept and recovered.

use vstd::prelude::*;

use crate::codec::hex16_bytes;
use crate::egress_owners::{
    boot_id, boot_id_digits, check_file, check_size, inventory_of, is_boot_id, is_identity,
    lists_twice, load, persist, recover, valid_owner, valid_owners, validate, CheckpointFile,
    EgressBinding, EgressError, KernelBootId, Owner, OwnersRead,
};
use crate::ordered_map::OrderedMap;
use crate::text::{pieces, trimmed};

verus! {

/// Whether a binding is owned soundly: by an identity of letters, digits, dashes
/// and underscores, for a control group at a path from the root that does not go
/// up, since a known boot, and with something allowed, none of it empty.
pub open spec fn is_sound(id: Seq<char>, binding: EgressBinding) -> bool {
    &&& id.len() > 0
    &&& forall|i: int|
        0 <= i < id.len() ==> {
            let c = #[trigger] id[i] as int;
            48 <= c <= 57 || 65 <= c <= 90 || 97 <= c <= 122 || c == 95 || c == 45
        }
    &&& binding.cgroup_id > 0
    &&& exists|i: int| 0 <= i < 16 && #[trigger] binding.boot_id.0@[i] != 0
    &&& binding.allow@.len() > 0
    &&& forall|i: int| 0 <= i < binding.allow@.len() ==> (#[trigger] binding.allow@[i])@.len() > 0
    &&& binding.original_spec.cgroups_path matches Some(path) && path@.len() > 0 && path@[0] == '/'
        && forall|i: int|
        0 <= i < pieces(path@, '/').len() ==> #[trigger] pieces(path@, '/')[i] != seq!['.', '.']
}

proof fn sound_owners(id: Seq<char>, binding: EgressBinding)
    ensures
        valid_owner(id, binding) <==> is_sound(id, binding),
{
    if is_identity(id) {
        assert forall|i: int| 0 <= i < id.len() implies {
            let c = #[trigger] id[i] as int;
            48 <= c <= 57 || 65 <= c <= 90 || 97 <= c <= 122 || c == 95 || c == 45
        } by {
            assert(crate::egress_owners::is_identity_char(id[i]));
        }
    }
    if is_sound(id, binding) {
        assert forall|i: int| 0 <= i < id.len() implies crate::egress_owners::is_identity_char(
            #[trigger] id[i],
        ) by {
            let c = id[i] as int;
            assert(48 <= c <= 57 || 65 <= c <= 90 || 97 <= c <= 122 || c == 95 || c == 45);
        }
        let path = binding.original_spec.cgroups_path->0@;
        if pieces(path, '/').contains(seq!['.', '.']) {
            let i = choose|i: int|
                0 <= i < pieces(path, '/').len() && pieces(path, '/')[i] == seq!['.', '.'];
            assert(pieces(path, '/')[i] != seq!['.', '.']);
        }
        let at = choose|i: int| 0 <= i < 16 && #[trigger] binding.boot_id.0@[i] != 0;
        assert(!crate::egress_owners::all_zero(binding.boot_id.0@)) by {
            if crate::egress_owners::all_zero(binding.boot_id.0@) {
                assert(binding.boot_id.0@[at] == 0);
            }
        }
    }
    if valid_owner(id, binding) {
        let path = binding.original_spec.cgroups_path->0@;
        assert forall|i: int| 0 <= i < pieces(path, '/').len() implies #[trigger] pieces(
            path,
            '/',
        )[i] != seq!['.', '.'] by {
            if pieces(path, '/')[i] == seq!['.', '.'] {
                assert(pieces(path, '/').contains(seq!['.', '.']));
            }
        }
        assert(binding.boot_id.0@.len() == 16);
    }
}

/// Owners are valid exactly where each is sound.
pub proof fn exactly_sound_owners_are_valid(
    owners: &OrderedMap<String, EgressBinding>,
    r: Result<(), EgressError>,
)
    requires
        call_ensures(validate, (owners,), r),
    ensures
        r is Ok <==> forall|id: Seq<char>| #[trigger]
            owners@.dom().contains(id) ==> is_sound(id, owners@[id]),
        r matches Err(e) ==> e is InvalidOwnership,
{
    all_sound(owners@);
}

proof fn all_sound(owners: Map<Seq<char>, EgressBinding>)
    ensures
        valid_owners(owners) <==> forall|id: Seq<char>| #[trigger]
            owners.dom().contains(id) ==> is_sound(id, owners[id]),
{
    if valid_owners(owners) {
        assert forall|id: Seq<char>| #[trigger] owners.dom().contains(id) implies is_sound(
            id,
            owners[id],
        ) by {
            sound_owners(id, owners[id]);
        }
    }
    if forall|id: Seq<char>| #[trigger]
        owners.dom().contains(id) ==> is_sound(id, owners[id]) {
        assert forall|id: Seq<char>| #[trigger] owners.dom().contains(id) implies valid_owner(
            id,
            owners[id],
        ) by {
            sound_owners(id, owners[id]);
        }
    }
}

/// A checkpoint is a file of at most sixteen mebibytes that nobody but its owner
/// may read or write, under one name.
pub proof fn checkpoints_are_private_files(
    file: CheckpointFile,
    r: Result<(), EgressError>,
    length: u64,
    sized: Result<(), EgressError>,
)
    requires
        call_ensures(check_file, (file,), r),
        call_ensures(check_size, (length,), sized),
    ensures
        r is Ok <==> file.regular && file.length <= 16 * 1024 * 1024 && file.mode % 512 == 384
            && file.owned && file.links == 1,
        r matches Err(e) ==> (e is InvalidFile <==> !file.regular || file.length > 16 * 1024
            * 1024) && (e is InvalidFile || e is NotPrivate),
        sized is Ok <==> length <= 16 * 1024 * 1024,
        sized matches Err(e) ==> e is TooLarge,
{
}

/// Whether two owners of a list have one identity.
pub open spec fn some_twice(owners: Seq<Owner>) -> bool {
    exists|i: int, j: int|
        0 <= i < j < owners.len() && (#[trigger] owners[i]).instance_id@ == (
        #[trigger] owners[j]).instance_id@
}

/// Whether every owner of a list is sound.
pub open spec fn all_are_sound(owners: Seq<Owner>) -> bool {
    forall|i: int|
        0 <= i < owners.len() ==> is_sound(
            (#[trigger] owners[i]).instance_id@,
            owners[i].binding,
        )
}

/// Whether an inventory is made of just the owners of a list.
pub open spec fn holds_just(inventory: Map<Seq<char>, EgressBinding>, owners: Seq<Owner>) -> bool {
    &&& forall|i: int|
        0 <= i < owners.len() ==> inventory.dom().contains((#[trigger] owners[i]).instance_id@)
            && inventory[owners[i].instance_id@] == owners[i].binding
    &&& forall|id: Seq<char>| #[trigger]
        inventory.dom().contains(id) ==> exists|i: int|
            0 <= i < owners.len() && (#[trigger] owners[i]).instance_id@ == id
}

proof fn inventories_hold_just_their_owners(owners: Seq<Owner>)
    requires
        !some_twice(owners),
    ensures
        holds_just(inventory_of(owners), owners),
    decreases owners.len(),
{
    if owners.len() > 0 {
        let rest = owners.drop_last();
        let end = owners.len() - 1;
        assert(!some_twice(rest)) by {
            if some_twice(rest) {
                let (i, j) = choose|i: int, j: int|
                    0 <= i < j < rest.len() && (#[trigger] rest[i]).instance_id@ == (
                    #[trigger] rest[j]).instance_id@;
                assert(owners[i].instance_id@ == owners[j].instance_id@);
            }
        }
        inventories_hold_just_their_owners(rest);
        assert(owners.last() == owners[end]);
        assert forall|i: int| 0 <= i < owners.len() implies inventory_of(owners).dom().contains(
            (#[trigger] owners[i]).instance_id@,
        ) && inventory_of(owners)[owners[i].instance_id@] == owners[i].binding by {
            if i < end {
                assert(rest[i] == owners[i]);
                assert(owners[i].instance_id@ != owners[end].instance_id@);
            }
        }
        assert forall|id: Seq<char>| #[trigger]
            inventory_of(owners).dom().contains(id) implies exists|i: int|
            0 <= i < owners.len() && (#[trigger] owners[i]).instance_id@ == id by {
            if id == owners[end].instance_id@ {
            } else {
                let i = choose|i: int|
                    0 <= i < rest.len() && (#[trigger] rest[i]).instance_id@ == id;
                assert(owners[i].instance_id@ == id);
            }
        }
    }
}

proof fn soundness_is_of_each(owners: Seq<Owner>)
    requires
        !some_twice(owners),
    ensures
        valid_owners(inventory_of(owners)) <==> all_are_sound(owners),
{
    let inventory = inventory_of(owners);
    inventories_hold_just_their_owners(owners);
    all_sound(inventory);
    if valid_owners(inventory) {
        assert forall|i: int| 0 <= i < owners.len() implies is_sound(
            (#[trigger] owners[i]).instance_id@,
            owners[i].binding,
        ) by {
            assert(inventory.dom().contains(owners[i].instance_id@));
        }
    }
    if all_are_sound(owners) {
        assert forall|id: Seq<char>| #[trigger] inventory.dom().contains(id) implies is_sound(
            id,
            inventory[id],
        ) by {
            let i = choose|i: int|
                0 <= i < owners.len() && (#[trigger] owners[i]).instance_id@ == id;
            assert(is_sound(owners[i].instance_id@, owners[i].binding));
        }
    }
}

/// A list is loaded exactly where its schema is the first, no identity is in it
/// twice and every owner is sound, and then into just those owners.
pub proof fn exactly_sound_lists_are_loaded(
    schema: u32,
    owners: Vec<Owner>,
    r: Result<OrderedMap<String, EgressBinding>, EgressError>,
)
    requires
        call_ensures(load, (schema, owners), r),
    ensures
        r is Ok <==> schema == 1 && !some_twice(owners@) && all_are_sound(owners@),
        r matches Ok(map) ==> holds_just(map@, owners@),
        r matches Err(e) ==> (e is UnsupportedSchema <==> schema != 1) && (e is DuplicateIdentity
            <==> schema == 1 && some_twice(owners@)) && (e is UnsupportedSchema
            || e is DuplicateIdentity || e is InvalidOwnership),
{
    assert(some_twice(owners@) == lists_twice(owners@));
    if !some_twice(owners@) {
        soundness_is_of_each(owners@);
        inventories_hold_just_their_owners(owners@);
    }
}

/// Nothing is recovered of nothing; what was found is recovered as it is loaded,
/// and refused with its words.
pub proof fn recovery_is_of_what_was_found(
    read: OwnersRead,
    r: Result<OrderedMap<String, EgressBinding>, String>,
)
    requires
        call_ensures(recover, (read,), r),
    ensures
        read is Missing ==> (r matches Ok(map) && map@.dom() == Set::<Seq<char>>::empty()),
        read matches OwnersRead::Failed(error) ==> (r matches Err(why) && why@ == error@),
        read matches OwnersRead::Found { schema, owners } ==> {
            &&& r is Ok <==> schema == 1 && !some_twice(owners@) && all_are_sound(owners@)
            &&& r matches Ok(map) ==> holds_just(map@, owners@)
            &&& schema != 1 ==> (r matches Err(why) && why@
                == "unsupported egress ownership schema"@)
            &&& schema == 1 && some_twice(owners@) ==> (r matches Err(why) && why@
                == "duplicate egress ownership identity"@)
            &&& schema == 1 && !some_twice(owners@) && !all_are_sound(owners@) ==> (r matches Err(
                why,
            ) && why@ == "invalid durable egress ownership"@)
        },
{
    if read is Found {
        let owners = read->owners;
        assert(some_twice(owners@) == lists_twice(owners@));
        if !some_twice(owners@) {
            soundness_is_of_each(owners@);
            inventories_hold_just_their_owners(owners@);
        }
    }
}

/// What is persisted loads again: owners are written exactly where all are sound,
/// each once.
pub proof fn persisted_owners_load_again(
    owners: OrderedMap<String, EgressBinding>,
    r: Result<Vec<Owner>, EgressError>,
    loaded: Result<OrderedMap<String, EgressBinding>, EgressError>,
)
    requires
        call_ensures(persist, (owners,), r),
        r is Ok ==> call_ensures(load, (1u32, r->Ok_0), loaded),
    ensures
        r is Ok <==> forall|id: Seq<char>| #[trigger]
            owners@.dom().contains(id) ==> is_sound(id, owners@[id]),
        r matches Err(e) ==> e is InvalidOwnership,
        r matches Ok(list) ==> !some_twice(list@) && holds_just(owners@, list@) && (
        loaded matches Ok(again) && again@ == owners@),
{
    all_sound(owners@);
    if r is Ok {
        let list = r->Ok_0@;
        assert(some_twice(list) == lists_twice(list));
        inventories_hold_just_their_owners(list);
    }
}

/// Whether a text is the identity of a boot: thirty-two hexadecimal digits in
/// groups of eight, four, four, four and twelve, with dashes between them.
pub open spec fn is_boot_identity(text: Seq<char>) -> bool {
    text.len() == 36 && forall|i: int|
        0 <= i < 36 ==> {
            let c = #[trigger] text[i] as int;
            if i == 8 || i == 13 || i == 18 || i == 23 {
                c == 45
            } else {
                48 <= c <= 57 || 65 <= c <= 70 || 97 <= c <= 102
            }
        }
}

proof fn boot_identities(text: Seq<char>)
    ensures
        is_boot_id(text) <==> is_boot_identity(text),
{
    if is_boot_id(text) {
        assert forall|i: int| 0 <= i < 36 implies {
            let c = #[trigger] text[i] as int;
            if i == 8 || i == 13 || i == 18 || i == 23 {
                c == 45
            } else {
                48 <= c <= 57 || 65 <= c <= 70 || 97 <= c <= 102
            }
        } by {
            assert(if i == 8 || i == 13 || i == 18 || i == 23 {
                text[i] == '-'
            } else {
                crate::codec::is_hex_digit(text[i])
            });
        }
    }
    if is_boot_identity(text) {
        assert forall|i: int| 0 <= i < 36 implies if i == 8 || i == 13 || i == 18 || i == 23 {
            #[trigger] text[i] == '-'
        } else {
            crate::codec::is_hex_digit(text[i])
        } by {
            let c = text[i] as int;
            assert(if i == 8 || i == 13 || i == 18 || i == 23 {
                c == 45
            } else {
                48 <= c <= 57 || 65 <= c <= 70 || 97 <= c <= 102
            });
        }
    }
}

/// What a hexadecimal digit is worth.
pub open spec fn hex_worth(c: char) -> int {
    if c as int <= 57 {
        c as int - 48
    } else if c as int <= 70 {
        c as int - 55
    } else {
        c as int - 87
    }
}

/// The place in a boot identity of one of its digits.
pub open spec fn place_of_digit(k: int) -> int {
    if k < 8 {
        k
    } else if k < 12 {
        k + 1
    } else if k < 16 {
        k + 2
    } else if k < 20 {
        k + 3
    } else {
        k + 4
    }
}

/// A boot is known by the sixteen bytes of its identity, two digits each, the
/// white space around it aside. An identity of zeros is no identity.
pub proof fn boots_are_known_by_their_bytes(value: &str, r: Result<KernelBootId, EgressError>)
    requires
        call_ensures(boot_id, (value,), r),
    ensures
        !is_boot_identity(trimmed(value@)) ==> (r matches Err(e) && e is InvalidBootId),
        r matches Ok(id) ==> is_boot_identity(trimmed(value@)) && id.0@.len() == 16 && (
        forall|i: int|
            0 <= i < 16 ==> #[trigger] id.0@[i] as int == 16 * hex_worth(
                trimmed(value@)[place_of_digit(2 * i)],
            ) + hex_worth(trimmed(value@)[place_of_digit(2 * i + 1)])) && exists|i: int|
            0 <= i < 16 && #[trigger] id.0@[i] != 0,
        is_boot_identity(trimmed(value@)) && r is Err ==> r->Err_0 is UnavailableBootId
            && forall|k: int|
            0 <= k < 32 ==> #[trigger] trimmed(value@)[place_of_digit(k)] == '0',
{
    let text = trimmed(value@);
    boot_identities(text);
    if is_boot_id(text) {
        let digits = boot_id_digits(text);
        let bytes = hex16_bytes(digits);
        assert forall|k: int| 0 <= k < 32 implies #[trigger] digits[k] == text[place_of_digit(
            k,
        )] by {}
        assert forall|k: int| 0 <= k < 32 implies crate::codec::hex_value(#[trigger] digits[k])
            == hex_worth(text[place_of_digit(k)]) && 0 <= hex_worth(text[place_of_digit(k)])
            <= 15 by {
            assert(digits[k] == text[place_of_digit(k)]);
            let c = text[place_of_digit(k)] as int;
            assert(48 <= c <= 57 || 65 <= c <= 70 || 97 <= c <= 102);
        }
        assert forall|i: int| 0 <= i < 16 implies #[trigger] bytes[i] as int == 16 * hex_worth(
            text[place_of_digit(2 * i)],
        ) + hex_worth(text[place_of_digit(2 * i + 1)]) by {
            let a = digits[2 * i];
            let b = digits[2 * i + 1];
            assert(crate::codec::hex_value(a) == hex_worth(text[place_of_digit(2 * i)]));
            assert(crate::codec::hex_value(b) == hex_worth(text[place_of_digit(2 * i + 1)]));
        }
        if r is Err {
            assert forall|k: int| 0 <= k < 32 implies #[trigger] text[place_of_digit(k)]
                == '0' by {
                let i = k / 2;
                assert(bytes[i] == 0);
                assert(bytes[i] as int == 16 * hex_worth(text[place_of_digit(2 * i)]) + hex_worth(
                    text[place_of_digit(2 * i + 1)],
                ));
                assert(0 <= hex_worth(text[place_of_digit(2 * i)])) by {
                    let d = digits[2 * i];
                    assert(crate::codec::hex_value(d) == hex_worth(text[place_of_digit(2 * i)]));
                }
                assert(0 <= hex_worth(text[place_of_digit(2 * i + 1)])) by {
                    let d = digits[2 * i + 1];
                    assert(crate::codec::hex_value(d) == hex_worth(
                        text[place_of_digit(2 * i + 1)],
                    ));
                }
                assert(hex_worth(text[place_of_digit(k)]) == 0);
                let c = text[place_of_digit(k)] as int;
                assert(48 <= c <= 57 || 65 <= c <= 70 || 97 <= c <= 102);
            }
        } else {
            assert(!crate::egress_owners::all_zero(bytes));
        }
    }
}

/// Each error has its words.
pub proof fn errors_have_their_words(e: EgressError, r: String)
    requires
        call_ensures(EgressError::words, (e,), r),
    ensures
        e is InvalidOwnership ==> r@ == "invalid durable egress ownership"@,
        e is InvalidFile ==> r@ == "invalid egress ownership checkpoint file"@,
        e is NotPrivate ==> r@ == "egress ownership checkpoint is not private"@,
        e is TooLarge ==> r@ == "egress ownership checkpoint is too large"@,
        e is UnsupportedSchema ==> r@ == "unsupported egress ownership schema"@,
        e is DuplicateIdentity ==> r@ == "duplicate egress ownership identity"@,
        e is InvalidBootId ==> r@ == "kernel boot identity is invalid"@,
        e is UnavailableBootId ==> r@ == "kernel boot identity is unavailable"@,
{
}

} // verus!
