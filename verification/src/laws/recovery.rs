//! How a journal is opened, written and brought together with what runs.

use vstd::prelude::*;

use crate::consumer_owners::ConsumerIdentity;
use crate::discovery_owners::{
    address_held, admit_claim, admit_directory, all_accounted, backends_accounted, check_directory,
    check_size, correlation_complaint, execution_runs, has_launch, launch_candidates, launch_list,
    launch_of, launch_service, launches_complaint, matches_launch, open_inventory, owners,
    read_checkpoint, reconciled, reference_complaint, reference_of, service_for_launch, with_holds,
    CheckpointRead, ClaimOutcome, DirectoryFacts, DirectoryOutcome, DiscoveryInventory,
    DiscoveryJournal, Inventory, InventoryChecks, Launch, OpenError, Owner, Reference,
    ReferencePhase, RuntimeLaunch, ServiceOwner,
};
use crate::laws::discovery_owners::{
    inventory_is_sound, inventory_may_follow, lawful_successors, reference_is_last,
    sound_inventories,
};
use crate::services::{Backend, ServiceId, ServiceName};

verus! {

/// Whether an item of a list is the only one of a kind.
pub open spec fn is_only<T>(list: Seq<T>, at: int, kind: spec_fn(T) -> bool) -> bool {
    0 <= at < list.len() && kind(list[at]) && forall|j: int|
        0 <= j < list.len() && kind(#[trigger] list[j]) ==> j == at
}

proof fn filtered_alone<T>(list: Seq<T>, kind: spec_fn(T) -> bool)
    ensures
        list.filter(kind).len() == 0 <==> forall|j: int|
            0 <= j < list.len() ==> !kind(#[trigger] list[j]),
        list.filter(kind).len() == 1 <==> exists|at: int| #[trigger] is_only(list, at, kind),
        forall|at: int| #[trigger]
            is_only(list, at, kind) ==> list.filter(kind).len() == 1 && list.filter(kind)[0]
                == list[at],
    decreases list.len(),
{
    reveal(Seq::filter);
    if list.len() > 0 {
        let rest = list.drop_last();
        let end = list.len() - 1;
        filtered_alone(rest, kind);
        let none = forall|j: int| 0 <= j < list.len() ==> !kind(#[trigger] list[j]);
        let none_before = forall|j: int| 0 <= j < rest.len() ==> !kind(#[trigger] rest[j]);
        assert(none == (none_before && !kind(list[end]))) by {
            if none {
                assert forall|j: int| 0 <= j < rest.len() implies !kind(#[trigger] rest[j]) by {
                    assert(rest[j] == list[j]);
                }
                assert(!kind(list[end]));
            }
            if none_before && !kind(list[end]) {
                assert forall|j: int| 0 <= j < list.len() implies !kind(#[trigger] list[j]) by {
                    if j < end {
                        assert(rest[j] == list[j]);
                    }
                }
            }
        }
        if kind(list[end]) {
            assert(list.filter(kind) == rest.filter(kind).push(list[end]));
            if none_before {
                assert(is_only(list, end, kind)) by {
                    assert forall|j: int| 0 <= j < list.len() && kind(
                        #[trigger] list[j],
                    ) implies j == end by {
                        if j < end {
                            assert(rest[j] == list[j]);
                        }
                    }
                }
            }
            assert forall|at: int| #[trigger] is_only(list, at, kind) implies at == end
                && none_before by {
                assert(kind(list[end]));
                assert forall|j: int| 0 <= j < rest.len() implies !kind(#[trigger] rest[j]) by {
                    assert(rest[j] == list[j]);
                }
            }
        } else {
            assert(list.filter(kind) == rest.filter(kind));
            assert forall|at: int| #[trigger]
                is_only(list, at, kind) <==> is_only(rest, at, kind) by {
                if is_only(list, at, kind) {
                    assert(at < end);
                    assert(rest[at] == list[at]);
                    assert forall|j: int| 0 <= j < rest.len() && kind(
                        #[trigger] rest[j],
                    ) implies j == at by {
                        assert(rest[j] == list[j]);
                    }
                }
                if is_only(rest, at, kind) {
                    assert(rest[at] == list[at]);
                    assert forall|j: int| 0 <= j < list.len() && kind(
                        #[trigger] list[j],
                    ) implies j == at by {
                        if j < end {
                            assert(rest[j] == list[j]);
                        }
                    }
                }
            }
            if exists|at: int| #[trigger] is_only(rest, at, kind) {
                let at = choose|at: int| #[trigger] is_only(rest, at, kind);
                assert(is_only(list, at, kind));
                assert(rest[at] == list[at]);
            }
            if exists|at: int| #[trigger] is_only(list, at, kind) {
                let at = choose|at: int| #[trigger] is_only(list, at, kind);
                assert(is_only(rest, at, kind));
            }
        }
    } else {
        assert(list.filter(kind).len() == 0);
    }
}

/// Whether a launch may be of a service: one that is owned, at the port of the
/// container and among those of the launch's control group.
pub open spec fn may_be_of(launch: Launch, owner: Owner) -> bool {
    owner.phase is Owned && owner.entry.port == launch.port_mapping->0.container_port && exists|
        i: int,
    |
        0 <= i < launch.cgroup_services.len() && (#[trigger] launch.cgroup_services[i]).namespace
            == owner.entry.namespace && launch.cgroup_services[i].name == owner.entry.app_name
}

/// The services that a launch may be of.
pub open spec fn candidates_of(launch: Launch) -> spec_fn(Owner) -> bool {
    |owner: Owner| may_be_of(launch, owner)
}

/// Whether a launch is of a service: the only one that it may be of.
pub open spec fn launched_for(services: Seq<Owner>, launch: Launch, name: ServiceName) -> bool {
    launch.has_cgroup && launch.port_mapping is Some && exists|at: int| #[trigger]
        is_only(services, at, candidates_of(launch))
            && services[at].entry.namespace == name.namespace && services[at].entry.app_name
            == name.name
}

proof fn candidates(services: Seq<Owner>, launch: Launch)
    requires
        launch.port_mapping is Some,
    ensures
        launch_candidates(services, launch, launch.port_mapping->0.container_port)
            == services.filter(candidates_of(launch)),
{
    let port = launch.port_mapping->0.container_port;
    let a = |o: Owner| matches_launch(o, launch, port);
    let b = candidates_of(launch);
    assert forall|o: Owner| #[trigger] a(o) == b(o) by {
        if launch.cgroup_services.contains(o.entry.id()) {
            let i = choose|i: int|
                0 <= i < launch.cgroup_services.len() && launch.cgroup_services[i]
                    == o.entry.id();
            assert(launch.cgroup_services[i].namespace == o.entry.namespace);
        }
        if may_be_of(launch, o) {
            let i = choose|i: int|
                0 <= i < launch.cgroup_services.len() && (
                #[trigger] launch.cgroup_services[i]).namespace == o.entry.namespace
                    && launch.cgroup_services[i].name == o.entry.app_name;
            assert(launch.cgroup_services[i] == o.entry.id());
        }
    }
    assert(a =~= b);
}

proof fn launches_are_of_one_service(services: Seq<Owner>, launch: Launch)
    ensures
        launch_service(services, launch) is Ok <==> launch.has_cgroup && launch.port_mapping is Some
            && exists|at: int|
            #[trigger] is_only(services, at, candidates_of(launch)),
        forall|name: ServiceName| #[trigger]
            launched_for(services, launch, name) <==> launch_service(services, launch) == Ok::<
                ServiceName,
                Seq<char>,
            >(name),
{
    if launch.has_cgroup && launch.port_mapping is Some {
        candidates(services, launch);
        let kind = candidates_of(launch);
        filtered_alone(services, kind);
        assert forall|name: ServiceName| #[trigger]
            launched_for(services, launch, name) <==> launch_service(services, launch) == Ok::<
                ServiceName,
                Seq<char>,
            >(name) by {
            if launched_for(services, launch, name) {
                let at = choose|at: int| #[trigger]
                    is_only(services, at, kind) && services[at].entry.namespace == name.namespace
                        && services[at].entry.app_name == name.name;
                assert(services[at].entry.id() == name);
            }
            if launch_service(services, launch) == Ok::<ServiceName, Seq<char>>(name) {
                let at = choose|at: int| #[trigger] is_only(services, at, kind);
                assert(services[at].entry.id() == name);
            }
        }
    }
}

/// A launch is found to be of the only service that it may be of, and refused
/// where it has no control group, no port, no such service or more than one.
pub proof fn launches_are_found_a_service_of_their_own(
    services: &Vec<ServiceOwner>,
    launch: &RuntimeLaunch,
    r: Result<ServiceId, String>,
)
    requires
        call_ensures(service_for_launch, (services, launch), r),
    ensures
        r is Ok <==> launch@.has_cgroup && launch@.port_mapping is Some && exists|at: int|
            #[trigger] is_only(owners(services@), at, candidates_of(launch@)),
        r matches Ok(id) ==> launched_for(owners(services@), launch@, id@),
        !launch@.has_cgroup ==> (r matches Err(why) && why@
            == "runtime reference has no original cgroup identity"@),
        launch@.has_cgroup && launch@.port_mapping is None ==> (r matches Err(why) && why@
            == "runtime reference has no original service port"@),
        launch@.has_cgroup && launch@.port_mapping is Some && (forall|i: int|
            0 <= i < owners(services@).len() ==> !may_be_of(
                launch@,
                #[trigger] owners(services@)[i],
            )) ==> (r matches Err(why) && why@
            == "runtime reference has no matching original service"@),
        launch@.has_cgroup && launch@.port_mapping is Some && (exists|i: int, j: int|
            0 <= i < j < owners(services@).len() && may_be_of(
                launch@,
                #[trigger] owners(services@)[i],
            ) && may_be_of(launch@, #[trigger] owners(services@)[j])) ==> (r matches Err(why)
            && why@ == "runtime reference has ambiguous service ownership"@),
{
    let all = owners(services@);
    launches_are_of_one_service(all, launch@);
    if launch@.has_cgroup && launch@.port_mapping is Some {
        candidates(all, launch@);
        let kind = candidates_of(launch@);
        filtered_alone(all, kind);
        if r is Ok {
            assert(launched_for(all, launch@, r->Ok_0@));
        }
        if forall|i: int| 0 <= i < all.len() ==> !may_be_of(launch@, #[trigger] all[i]) {
            assert forall|i: int| 0 <= i < all.len() implies !kind(#[trigger] all[i]) by {
                assert(!may_be_of(launch@, all[i]));
            }
        }
        if exists|i: int, j: int|
            0 <= i < j < all.len() && may_be_of(launch@, #[trigger] all[i]) && may_be_of(
                launch@,
                #[trigger] all[j],
            ) {
            let (i, j) = choose|i: int, j: int|
                0 <= i < j < all.len() && may_be_of(launch@, #[trigger] all[i]) && may_be_of(
                    launch@,
                    #[trigger] all[j],
                );
            assert(kind(all[i]) && kind(all[j]));
            assert forall|at: int| !#[trigger] is_only(all, at, kind) by {
                if is_only(all, at, kind) {
                    assert(kind(all[i]) ==> i == at);
                    assert(kind(all[j]) ==> j == at);
                }
            }
        }
    }
}

/// Whether launches are sound: each of an instance of its own, and with no
/// address but its own.
pub open spec fn launches_are_sound(launches: Seq<Launch>) -> bool {
    &&& forall|i: int, j: int|
        0 <= i < j < launches.len() ==> (#[trigger] launches[i]).instance_id != (
        #[trigger] launches[j]).instance_id
    &&& forall|i: int|
        0 <= i < launches.len() && (#[trigger] launches[i]).network is Some
            ==> launches[i].network->0.address.instance_id == launches[i].instance_id
            && launches[i].generation == launches[i].reference_generation
}

proof fn sound_launches(launches: Seq<Launch>)
    ensures
        launches_complaint(launches) is None <==> launches_are_sound(launches),
    decreases launches.len(),
{
    if launches.len() > 0 {
        let earlier = launches.drop_last();
        let end = launches.len() - 1;
        let launch = launches[end];
        sound_launches(earlier);
        assert(launches.last() == launch);
        if launches_complaint(launches) is None {
            assert forall|i: int, j: int| 0 <= i < j < launches.len() implies (
            #[trigger] launches[i]).instance_id != (#[trigger] launches[j]).instance_id by {
                assert(earlier[i] == launches[i]);
                if j < end {
                    assert(earlier[j] == launches[j]);
                }
            }
            assert forall|i: int|
                0 <= i < launches.len() && (
                #[trigger] launches[i]).network is Some implies launches[i].network->0.address.instance_id
                == launches[i].instance_id && launches[i].generation
                == launches[i].reference_generation by {
                if i < end {
                    assert(earlier[i] == launches[i]);
                }
            }
        }
        if launches_are_sound(launches) {
            assert forall|i: int, j: int| 0 <= i < j < earlier.len() implies (
            #[trigger] earlier[i]).instance_id != (#[trigger] earlier[j]).instance_id by {
                assert(earlier[i] == launches[i] && earlier[j] == launches[j]);
            }
            assert forall|i: int|
                0 <= i < earlier.len() && (
                #[trigger] earlier[i]).network is Some implies earlier[i].network->0.address.instance_id
                == earlier[i].instance_id && earlier[i].generation
                == earlier[i].reference_generation by {
                assert(earlier[i] == launches[i]);
            }
            if has_launch(earlier, launch.instance_id) {
                let i = choose|i: int|
                    0 <= i < earlier.len() && (#[trigger] earlier[i]).instance_id
                        == launch.instance_id;
                assert(launches[i].instance_id != launches[end].instance_id);
            }
        }
    }
}

/// Whether a launch is the first in a list of its instance.
pub open spec fn is_first_launch(launches: Seq<Launch>, at: int, instance_id: Seq<char>) -> bool {
    0 <= at < launches.len() && launches[at].instance_id == instance_id && forall|j: int|
        0 <= j < at ==> (#[trigger] launches[j]).instance_id != instance_id
}

proof fn launch_is_first(launches: Seq<Launch>, id: Seq<char>)
    ensures
        launch_of(launches, id) is Some <==> exists|at: int|
            #[trigger] is_first_launch(launches, at, id),
        forall|at: int| #[trigger]
            is_first_launch(launches, at, id) ==> launch_of(launches, id) == Some(launches[at]),
    decreases launches.len(),
{
    if launches.len() > 0 {
        let rest = launches.skip(1);
        launch_is_first(rest, id);
        if launches[0].instance_id == id {
            assert(is_first_launch(launches, 0, id));
            assert forall|at: int| #[trigger] is_first_launch(launches, at, id) implies at == 0 by {
                if at > 0 {
                    assert(launches[0].instance_id == id);
                }
            }
        } else {
            assert forall|at: int| #[trigger]
                is_first_launch(launches, at, id) <==> is_first_launch(rest, at - 1, id) by {
                if is_first_launch(launches, at, id) {
                    assert(at > 0);
                    assert(rest[at - 1] == launches[at]);
                    assert forall|j: int| 0 <= j < at - 1 implies (#[trigger] rest[j]).instance_id
                        != id by {
                        assert(rest[j] == launches[j + 1]);
                    }
                }
                if is_first_launch(rest, at - 1, id) {
                    assert(rest[at - 1] == launches[at]);
                    assert forall|j: int| 0 <= j < at implies (
                    #[trigger] launches[j]).instance_id != id by {
                        if j > 0 {
                            assert(rest[j - 1] == launches[j]);
                        }
                    }
                }
            }
            if launch_of(rest, id) is Some {
                let at = choose|at: int| #[trigger] is_first_launch(rest, at, id);
                let k = at + 1;
                assert(is_first_launch(rest, k - 1, id));
                assert(is_first_launch(launches, k, id));
            }
            assert forall|at: int| #[trigger] is_first_launch(launches, at, id) implies launch_of(
                launches,
                id,
            ) == Some(launches[at]) by {
                assert(is_first_launch(rest, at - 1, id));
                assert(rest[at - 1] == launches[at]);
            }
            if exists|at: int| #[trigger] is_first_launch(launches, at, id) {
                let at = choose|at: int| #[trigger] is_first_launch(launches, at, id);
                assert(is_first_launch(rest, at - 1, id));
            }
        }
    }
}

/// Whether an owned reference is that of what runs: the launch of its instance
/// has its address, held unless the release was authorised, and is of its
/// service.
pub open spec fn reference_runs(
    owner: Reference,
    services: Seq<Owner>,
    launches: Seq<Launch>,
) -> bool {
    exists|at: int| #[trigger]
        is_first_launch(launches, at, owner.reference.instance_id) && launches[at].network is Some
            && launches[at].network->0.address == owner.reference && (
        launches[at].network->0.released ==> owner.phase is ReleaseAuthorised) && launched_for(
            services,
            launches[at],
            owner.service,
        )
}

proof fn running_references(owner: Reference, services: Seq<Owner>, launches: Seq<Launch>)
    ensures
        reference_complaint(owner, services, launches) is None <==> reference_runs(
            owner,
            services,
            launches,
        ),
{
    let id = owner.reference.instance_id;
    launch_is_first(launches, id);
    if launch_of(launches, id) is Some {
        let at = choose|at: int| #[trigger] is_first_launch(launches, at, id);
        assert(launch_of(launches, id) == Some(launches[at]));
        launches_are_of_one_service(services, launches[at]);
        assert(launched_for(services, launches[at], owner.service) <==> launch_service(
            services,
            launches[at],
        ) == Ok::<ServiceName, Seq<char>>(owner.service));
        if reference_runs(owner, services, launches) {
            let k = choose|at: int| #[trigger]
                is_first_launch(launches, at, owner.reference.instance_id)
                    && launches[at].network is Some && launches[at].network->0.address
                    == owner.reference && (launches[at].network->0.released
                    ==> owner.phase is ReleaseAuthorised) && launched_for(
                    services,
                    launches[at],
                    owner.service,
                );
            assert(launch_of(launches, id) == Some(launches[k]));
        }
    }
}

proof fn all_running_references(
    references: Seq<Reference>,
    services: Seq<Owner>,
    launches: Seq<Launch>,
)
    ensures
        correlation_complaint(references, services, launches) is None <==> forall|i: int|
            0 <= i < references.len() ==> reference_runs(
                #[trigger] references[i],
                services,
                launches,
            ),
    decreases references.len(),
{
    if references.len() > 0 {
        let rest = references.drop_last();
        let end = references.len() - 1;
        all_running_references(rest, services, launches);
        running_references(references[end], services, launches);
        assert(references.last() == references[end]);
        if correlation_complaint(references, services, launches) is None {
            assert forall|i: int| 0 <= i < references.len() implies reference_runs(
                #[trigger] references[i],
                services,
                launches,
            ) by {
                if i < end {
                    assert(rest[i] == references[i]);
                }
            }
        }
        if forall|i: int| 0 <= i < references.len() ==> reference_runs(
            #[trigger] references[i],
            services,
            launches,
        ) {
            assert forall|i: int| 0 <= i < rest.len() implies reference_runs(
                #[trigger] rest[i],
                services,
                launches,
            ) by {
                assert(rest[i] == references[i]);
            }
            assert(reference_runs(references[end], services, launches));
        }
    }
}

/// Whether a launch holds an address that no reference owns.
pub open spec fn holds_unowned(references: Seq<Reference>, launch: Launch) -> bool {
    launch.network is Some && !launch.network->0.released && forall|i: int|
        0 <= i < references.len() ==> (#[trigger] references[i]).reference.instance_id
            != launch.instance_id
}

/// The launches that hold an address that no reference owns.
pub open spec fn unowned(references: Seq<Reference>, launches: Seq<Launch>) -> Seq<Launch> {
    launches.filter(|launch: Launch| holds_unowned(references, launch))
}

/// Whether references are those there were, and behind them one held for each
/// address that was held without one.
pub open spec fn holds_are_added(
    before: Seq<Reference>,
    services: Seq<Owner>,
    held: Seq<Launch>,
    after: Seq<Reference>,
) -> bool {
    &&& after.len() == before.len() + held.len()
    &&& forall|i: int| 0 <= i < before.len() ==> #[trigger] after[i] == before[i]
    &&& forall|i: int|
        0 <= i < held.len() ==> {
            let launch = #[trigger] held[i];
            let added = after[before.len() + i];
            added.phase is Held && added.reference == launch.network->0.address && launched_for(
                services,
                launch,
                added.service,
            )
        }
}

proof fn adding_holds(
    references: Seq<Reference>,
    services: Seq<Owner>,
    launches: Seq<Launch>,
    count: int,
)
    requires
        launches_are_sound(launches),
        0 <= count <= launches.len(),
    ensures
        forall|after: Seq<Reference>| #[trigger]
            holds_are_added(references, services, unowned(references, launches.take(count)), after)
                <==> with_holds(references, services, launches.take(count)) == Ok::<
                Seq<Reference>,
                Seq<char>,
            >(after),
    decreases count,
{
    reveal(Seq::filter);
    let part = launches.take(count);
    let held = unowned(references, part);
    if count == 0 {
        assert(part =~= Seq::<Launch>::empty());
        assert(held =~= Seq::<Launch>::empty());
        assert forall|after: Seq<Reference>| #[trigger]
            holds_are_added(references, services, held, after) <==> after == references by {
            if holds_are_added(references, services, held, after) {
                assert(after =~= references);
            }
        }
    } else {
        let before = launches.take(count - 1);
        let launch = launches[count - 1];
        let kind = |launch: Launch| holds_unowned(references, launch);
        adding_holds(references, services, launches, count - 1);
        assert(part.drop_last() =~= before);
        assert(part.last() == launch);
        let earlier = unowned(references, before);
        assert(held == if kind(launch) {
            earlier.push(launch)
        } else {
            earlier
        });
        launches_are_of_one_service(services, launch);
        let was = with_holds(references, services, before);
        assert forall|after: Seq<Reference>| #[trigger]
            holds_are_added(references, services, held, after) <==> with_holds(
                references,
                services,
                part,
            ) == Ok::<Seq<Reference>, Seq<char>>(after) by {
            if was is Ok {
                let prior = was->Ok_0;
                assert(holds_are_added(references, services, earlier, prior));
                known_instances(references, services, launches, count, prior);
                if holds_unowned(references, launch) {
                    adding_one(references, services, earlier, launch, prior, after);
                    if with_holds(references, services, part) is Ok {
                        let id = launch_service(services, launch)->Ok_0;
                        assert(launched_for(services, launch, id));
                    }
                }
            } else if holds_are_added(references, services, held, after) {
                let cut = if kind(launch) {
                    after.drop_last()
                } else {
                    after
                };
                assert(holds_are_added(references, services, earlier, cut)) by {
                    assert forall|i: int| 0 <= i < earlier.len() implies {
                        let launch = #[trigger] earlier[i];
                        let added = cut[references.len() + i];
                        added.phase is Held && added.reference == launch.network->0.address
                            && launched_for(services, launch, added.service)
                    } by {
                        assert(held[i] == earlier[i]);
                    }
                }
            }
        }
    }
}

proof fn adding_one(
    references: Seq<Reference>,
    services: Seq<Owner>,
    earlier: Seq<Launch>,
    launch: Launch,
    prior: Seq<Reference>,
    after: Seq<Reference>,
)
    requires
        holds_are_added(references, services, earlier, prior),
        forall|other: Seq<Reference>| #[trigger]
            holds_are_added(references, services, earlier, other) ==> other == prior,
    ensures
        holds_are_added(references, services, earlier.push(launch), after) <==> exists|
            name: ServiceName,
        |
            #[trigger] launched_for(services, launch, name) && after == prior.push(
                Reference {
                    service: name,
                    reference: launch.network->0.address,
                    phase: ReferencePhase::Held,
                },
            ),
{
    let held = earlier.push(launch);
    let end = references.len() + earlier.len();
    if holds_are_added(references, services, held, after) {
        let cut = after.drop_last();
        assert forall|i: int| 0 <= i < earlier.len() implies {
            let launch = #[trigger] earlier[i];
            let added = cut[references.len() + i];
            added.phase is Held && added.reference == launch.network->0.address && launched_for(
                services,
                launch,
                added.service,
            )
        } by {
            assert(held[i] == earlier[i]);
        }
        assert(holds_are_added(references, services, earlier, cut));
        assert(held[earlier.len() as int] == launch);
        let added = after[end as int];
        assert(launched_for(services, launch, added.service));
        assert(added == (Reference {
            service: added.service,
            reference: launch.network->0.address,
            phase: ReferencePhase::Held,
        }));
        assert(after =~= prior.push(added));
    }
    if exists|name: ServiceName|
        #[trigger] launched_for(services, launch, name) && after == prior.push(
            Reference {
                service: name,
                reference: launch.network->0.address,
                phase: ReferencePhase::Held,
            },
        ) {
        assert forall|i: int| 0 <= i < held.len() implies {
            let launch = #[trigger] held[i];
            let added = after[references.len() + i];
            added.phase is Held && added.reference == launch.network->0.address && launched_for(
                services,
                launch,
                added.service,
            )
        } by {
            if i < earlier.len() {
                assert(held[i] == earlier[i]);
                assert(after[references.len() + i] == prior[references.len() + i]);
            }
        }
    }
}

proof fn known_instances(
    references: Seq<Reference>,
    services: Seq<Owner>,
    launches: Seq<Launch>,
    count: int,
    prior: Seq<Reference>,
)
    requires
        launches_are_sound(launches),
        0 < count <= launches.len(),
        holds_are_added(
            references,
            services,
            unowned(references, launches.take(count - 1)),
            prior,
        ),
    ensures
        reference_of(prior, launches[count - 1].instance_id) is None <==> forall|i: int|
            0 <= i < references.len() ==> (#[trigger] references[i]).reference.instance_id
                != launches[count - 1].instance_id,
{
    let id = launches[count - 1].instance_id;
    let before = launches.take(count - 1);
    let held = unowned(references, before);
    reference_is_last(prior, id);
    let kind = |launch: Launch| holds_unowned(references, launch);
    if reference_of(prior, id) is None {
        assert forall|i: int| 0 <= i < references.len() implies (
        #[trigger] references[i]).reference.instance_id != id by {
            assert(prior[i] == references[i]);
        }
    }
    if forall|i: int| 0 <= i < references.len() ==> (
    #[trigger] references[i]).reference.instance_id != id {
        assert forall|j: int| 0 <= j < prior.len() implies (
        #[trigger] prior[j]).reference.instance_id != id by {
            if j < references.len() {
                assert(prior[j] == references[j]);
            } else {
                let k = j - references.len();
                let launch = held[k];
                assert(prior[references.len() + k] == prior[j]);
                let m = from_list(before, kind, k);
                assert(launches[m] == before[m]);
                assert(launches[m].instance_id != launches[count - 1].instance_id);
                assert(launches[m].network is Some);
            }
        }
    }
}

proof fn from_list(list: Seq<Launch>, kind: spec_fn(Launch) -> bool, k: int) -> (m: int)
    requires
        0 <= k < list.filter(kind).len(),
    ensures
        0 <= m < list.len(),
        list[m] == list.filter(kind)[k],
        kind(list[m]),
    decreases list.len(),
{
    reveal(Seq::filter);
    let rest = list.drop_last();
    if k < rest.filter(kind).len() {
        from_list(rest, kind, k)
    } else {
        list.len() - 1
    }
}

/// Whether a published backend is accounted for: by an execution that runs at its
/// ports for the service, or by a reference that is held.
pub open spec fn backend_is_accounted(
    owner: Owner,
    backend: Backend,
    references: Seq<Reference>,
    services: Seq<Owner>,
    launches: Seq<Launch>,
) -> bool {
    let id = backend.instance_id;
    let name = ServiceName { namespace: owner.entry.namespace, name: owner.entry.app_name };
    (owner.executions.dom().contains(id) && exists|at: int| #[trigger]
        is_first_launch(launches, at, id) && launches[at].network is None
            && launches[at].generation == owner.executions[id] && launches[at].port_mapping is Some
            && launches[at].port_mapping->0.host_port == backend.host_port
            && launches[at].port_mapping->0.container_port == owner.entry.port && launched_for(
            services,
            launches[at],
            name,
        )) || (exists|i: int|
        0 <= i < references.len() && (#[trigger] references[i]).reference.instance_id == id
            && references[i].service == name && references[i].phase is Held)
}

proof fn accounted_backends(
    owner: Owner,
    backend: Backend,
    references: Seq<Reference>,
    services: Seq<Owner>,
    launches: Seq<Launch>,
)
    ensures
        backend_is_accounted(owner, backend, references, services, launches) <==> execution_runs(
            owner,
            backend,
            services,
            launches,
        ) || address_held(owner, backend, references),
{
    let id = backend.instance_id;
    let name = owner.entry.id();
    launch_is_first(launches, id);
    if launch_of(launches, id) is Some {
        let at = choose|at: int| #[trigger] is_first_launch(launches, at, id);
        assert(launch_of(launches, id) == Some(launches[at]));
        launches_are_of_one_service(services, launches[at]);
        assert(launched_for(services, launches[at], name) <==> launch_service(
            services,
            launches[at],
        ) == Ok::<ServiceName, Seq<char>>(name));
        if exists|at: int| #[trigger]
            is_first_launch(launches, at, id) && launches[at].network is None
                && launches[at].generation == owner.executions[id]
                && launches[at].port_mapping is Some && launches[at].port_mapping->0.host_port
                == backend.host_port && launches[at].port_mapping->0.container_port
                == owner.entry.port && launched_for(services, launches[at], name) {
            let k = choose|at: int| #[trigger]
                is_first_launch(launches, at, id) && launches[at].network is None
                    && launches[at].generation == owner.executions[id]
                    && launches[at].port_mapping is Some && launches[at].port_mapping->0.host_port
                    == backend.host_port && launches[at].port_mapping->0.container_port
                    == owner.entry.port && launched_for(services, launches[at], name);
            assert(launch_of(launches, id) == Some(launches[k]));
        }
    }
}

/// Whether every published backend is accounted for.
pub open spec fn backends_are_accounted(
    references: Seq<Reference>,
    services: Seq<Owner>,
    launches: Seq<Launch>,
) -> bool {
    forall|i: int, b: int|
        0 <= i < services.len() && 0 <= b < services[i].entry.backends.len()
            ==> backend_is_accounted(
            services[i],
            #[trigger] services[i].entry.backends[b],
            references,
            services,
            launches,
        )
}

proof fn all_accounted_backends(
    references: Seq<Reference>,
    services: Seq<Owner>,
    launches: Seq<Launch>,
)
    ensures
        all_accounted(references, services, launches) <==> backends_are_accounted(
            references,
            services,
            launches,
        ),
{
    if all_accounted(references, services, launches) {
        assert forall|i: int, b: int|
            0 <= i < services.len() && 0 <= b
                < services[i].entry.backends.len() implies backend_is_accounted(
            services[i],
            #[trigger] services[i].entry.backends[b],
            references,
            services,
            launches,
        ) by {
            assert(backends_accounted(services[i], references, services, launches));
            accounted_backends(
                services[i],
                services[i].entry.backends[b],
                references,
                services,
                launches,
            );
        }
    }
    if backends_are_accounted(references, services, launches) {
        assert forall|i: int| 0 <= i < services.len() implies backends_accounted(
            #[trigger] services[i],
            references,
            services,
            launches,
        ) by {
            let owner = services[i];
            assert forall|b: int| 0 <= b < owner.entry.backends.len() implies execution_runs(
                owner,
                #[trigger] owner.entry.backends[b],
                services,
                launches,
            ) || address_held(owner, owner.entry.backends[b], references) by {
                assert(backend_is_accounted(
                    services[i],
                    services[i].entry.backends[b],
                    references,
                    services,
                    launches,
                ));
                accounted_backends(
                    owner,
                    owner.entry.backends[b],
                    references,
                    services,
                    launches,
                );
            }
        }
    }
}

/// Whether an inventory is what recovery makes of another and of what runs.
pub open spec fn is_recovered(
    inventory: Inventory,
    launches: Seq<Launch>,
    checks: InventoryChecks,
    next: Inventory,
) -> bool {
    &&& launches_are_sound(launches)
    &&& forall|i: int|
        0 <= i < inventory.references.len() ==> reference_runs(
            #[trigger] inventory.references[i],
            inventory.services,
            launches,
        )
    &&& next.services == inventory.services
    &&& next.consumer == inventory.consumer
    &&& holds_are_added(
        inventory.references,
        inventory.services,
        unowned(inventory.references, launches),
        next.references,
    )
    &&& backends_are_accounted(next.references, next.services, launches)
    &&& inventory_is_sound(next, checks)
    &&& inventory_may_follow(inventory, next)
}

proof fn recovered(
    inventory: Inventory,
    launches: Seq<Launch>,
    checks: InventoryChecks,
    next: Inventory,
)
    ensures
        reconciled(inventory, launches, checks) == Ok::<Inventory, Seq<char>>(next)
            <==> is_recovered(inventory, launches, checks, next),
{
    sound_launches(launches);
    all_running_references(inventory.references, inventory.services, launches);
    if launches_are_sound(launches) {
        adding_holds(inventory.references, inventory.services, launches, launches.len() as int);
        assert(launches.take(launches.len() as int) =~= launches);
        let result = with_holds(inventory.references, inventory.services, launches);
        assert(holds_are_added(
            inventory.references,
            inventory.services,
            unowned(inventory.references, launches),
            next.references,
        ) <==> result == Ok::<Seq<Reference>, Seq<char>>(next.references));
        all_accounted_backends(next.references, inventory.services, launches);
        sound_inventories(next, checks);
        lawful_successors(inventory, next);
        if result is Ok {
            let made = Inventory {
                services: inventory.services,
                references: result->Ok_0,
                consumer: inventory.consumer,
            };
            if next.services == inventory.services && next.consumer == inventory.consumer
                && next.references == result->Ok_0 {
                assert(made == next);
            }
        }
    }
}

/// A standalone journal recovers exactly what its inventory and what runs come
/// to, and refuses where they come to nothing, where it is fenced, and where a
/// consumer owns a view.
pub proof fn recovery_is_what_runs_and_is_owned(
    journal: &DiscoveryJournal,
    launches: &Vec<RuntimeLaunch>,
    checks: &InventoryChecks,
    r: Result<DiscoveryInventory, String>,
    next: Inventory,
)
    requires
        call_ensures(
            DiscoveryJournal::reconcile_runtime_inventory,
            (journal, launches, checks),
            r,
        ),
    ensures
        (r matches Ok(found) && found@ == next) <==> journal.retained().consumer is None
            && !journal.fenced() && is_recovered(
            journal.retained(),
            launch_list(launches@),
            *checks,
            next,
        ),
        journal.retained().consumer is Some ==> (r matches Err(why) && why@
            == "consumer ownership requires cluster recovery reconciliation"@),
        journal.retained().consumer is None && journal.fenced() ==> (r matches Err(why) && why@
            == "discovery checkpoint is uncertain"@),
{
    recovered(journal.retained(), launch_list(launches@), *checks, next);
}

/// The journal of a consumer recovers in the same way, for that consumer alone.
pub proof fn recovery_is_for_the_enrolled_consumer(
    journal: &DiscoveryJournal,
    launches: &Vec<RuntimeLaunch>,
    identity: &ConsumerIdentity,
    checks: &InventoryChecks,
    r: Result<DiscoveryInventory, String>,
    next: Inventory,
)
    requires
        call_ensures(
            DiscoveryJournal::reconcile_consumer_runtime_inventory,
            (journal, launches, identity, checks),
            r,
        ),
    ensures
        (r matches Ok(found) && found@ == next) <==> (journal.retained().consumer matches Some(
            owner,
        ) && owner.identity == identity@) && !journal.fenced() && is_recovered(
            journal.retained(),
            launch_list(launches@),
            *checks,
            next,
        ),
        !(journal.retained().consumer matches Some(owner) && owner.identity == identity@) ==> (
        r matches Err(why) && why@ == "original consumer enrolment identity is missing"@),
{
    recovered(journal.retained(), launch_list(launches@), *checks, next);
}

/// A directory is private where it is one, of this owner, that nobody else may
/// read, write or enter.
pub proof fn directories_are_private_to_their_owner(facts: DirectoryFacts, r: Result<(), String>)
    requires
        call_ensures(check_directory, (facts,), r),
    ensures
        r is Ok <==> facts.directory && facts.owned && facts.mode % 512 == 448,
        r matches Err(why) ==> why@ == "discovery directory is not private"@,
{
}

/// A checkpoint has at most sixteen mebibytes.
pub proof fn checkpoints_have_sixteen_mebibytes(length: u64, r: Result<(), String>)
    requires
        call_ensures(check_size, (length,), r),
    ensures
        r is Ok <==> length <= 16 * 1024 * 1024,
        r matches Err(why) ==> why@ == "discovery checkpoint exceeds size limit"@,
{
}

/// Whether a directory may hold a journal, and is new.
pub open spec fn is_admitted(outcome: DirectoryOutcome, fresh: bool) -> bool {
    match outcome {
        DirectoryOutcome::Failed(_) => false,
        DirectoryOutcome::Created(facts) => fresh && facts.directory && facts.owned && facts.mode
            % 512 == 448,
        DirectoryOutcome::Existing(facts) => !fresh && facts.directory && facts.owned && facts.mode
            % 512 == 448,
    }
}

/// A directory is admitted exactly where it is private, and is new exactly where
/// it was created.
pub proof fn private_directories_are_admitted(
    outcome: &DirectoryOutcome,
    r: Result<bool, OpenError>,
    fresh: bool,
)
    requires
        call_ensures(admit_directory, (outcome,), r),
    ensures
        r == Ok::<bool, OpenError>(fresh) <==> is_admitted(*outcome, fresh),
        r matches Err(e) ==> e.kind is Other && match *outcome {
            DirectoryOutcome::Failed(why) => e.error@ == why@,
            _ => e.error@ == "discovery directory is not private"@,
        },
{
}

/// A claim is admitted exactly where it was taken; where another has it, the
/// refusal is of the kind to try again.
pub proof fn taken_claims_are_admitted(outcome: &ClaimOutcome, r: Result<(), OpenError>)
    requires
        call_ensures(admit_claim, (outcome,), r),
    ensures
        r is Ok <==> outcome is Taken,
        r matches Err(e) ==> (e.kind is WouldBlock <==> outcome is Busy),
        r is Err && outcome is Busy ==> r->Err_0.error@ == "discovery owner is busy"@,
        outcome matches ClaimOutcome::Failed(why) ==> (r matches Err(e) && e.error@ == why@),
{
}

/// A checkpoint is read exactly where its schema is the fourth and its inventory
/// is sound, and is then read as it is.
pub proof fn sound_checkpoints_are_read(
    schema: u32,
    inventory: DiscoveryInventory,
    checks: &InventoryChecks,
    r: Result<DiscoveryInventory, String>,
)
    requires
        call_ensures(read_checkpoint, (schema, inventory, checks), r),
    ensures
        r is Ok <==> schema == 4 && inventory_is_sound(inventory@, *checks),
        r matches Ok(read) ==> read == inventory,
        schema != 4 ==> (r matches Err(why) && why@ == "unsupported discovery checkpoint schema"@),
{
    sound_inventories(inventory@, *checks);
}

/// A journal opens exactly where its directory is private, its claim is taken,
/// and it is either new, without a checkpoint, or has a sound one. It then
/// retains what was stored, or nothing, and is neither fenced nor writing.
pub proof fn journals_open_on_what_was_stored(
    directory: &DirectoryOutcome,
    claim: &ClaimOutcome,
    read: CheckpointRead,
    r: Result<DiscoveryJournal, OpenError>,
)
    requires
        call_ensures(DiscoveryJournal::open, (directory, claim, read), r),
    ensures
        r is Ok <==> claim is Taken && ((is_admitted(*directory, true) && read is NotFound) || (
        is_admitted(*directory, false) && (read matches CheckpointRead::Found {
            schema,
            inventory,
            checks,
        } && schema == 4 && inventory_is_sound(inventory@, checks)))),
        r matches Ok(journal) ==> {
            &&& !journal.fenced()
            &&& journal.writing() is None
            &&& read is NotFound ==> journal.retained().services.len() == 0
                && journal.retained().references.len() == 0 && journal.retained().consumer is None
            &&& read matches CheckpointRead::Found { inventory, .. } ==> journal.retained()
                == inventory@
        },
        r matches Err(e) ==> (e.kind is WouldBlock <==> claim is Busy && (is_admitted(
            *directory,
            true,
        ) || is_admitted(*directory, false))),
{
    if read is Found {
        let inventory = read->inventory;
        let checks = read->checks;
        sound_inventories(inventory@, checks);
    }
}

/// An inventory that is opened is what was stored, or empty where the journal is
/// new, and a new journal with a checkpoint is refused, as is an old one without.
pub proof fn inventories_open_as_stored(
    fresh: bool,
    read: CheckpointRead,
    r: Result<DiscoveryInventory, String>,
)
    requires
        call_ensures(open_inventory, (fresh, read), r),
    ensures
        r is Ok <==> (fresh && read is NotFound) || (!fresh && (read matches CheckpointRead::Found {
            schema,
            inventory,
            checks,
        } && schema == 4 && inventory_is_sound(inventory@, checks))),
        r matches Ok(opened) ==> (read matches CheckpointRead::Found { inventory, .. }
            ==> opened@ == inventory@) && (read is NotFound ==> opened@.services.len() == 0
            && opened@.references.len() == 0 && opened@.consumer is None),
        read matches CheckpointRead::Failed(why) ==> (r matches Err(e) && e@ == why@),
        !fresh ==> (read matches CheckpointRead::NotFound(why) ==> (r matches Err(e) && e@ == why@)),
{
    if read is Found {
        let inventory = read->inventory;
        let checks = read->checks;
        sound_inventories(inventory@, checks);
    }
}

/// A journal begins to save exactly what is sound and may follow what it retains,
/// while it is not fenced. It is then fenced until the write is confirmed, and
/// retains what it did.
pub proof fn journals_save_what_may_follow(
    journal: &mut DiscoveryJournal,
    next: DiscoveryInventory,
    checks: &InventoryChecks,
    r: Result<(), String>,
)
    requires
        call_ensures(DiscoveryJournal::save, (journal, next, checks), r),
    ensures
        r is Ok <==> !old(journal).fenced() && inventory_is_sound(next@, *checks)
            && inventory_may_follow(old(journal).retained(), next@),
        final(journal).retained() == old(journal).retained(),
        r is Ok ==> final(journal).fenced() && final(journal).writing() == Some(next@),
        r is Err ==> final(journal).fenced() == old(journal).fenced() && final(journal).writing()
            == old(journal).writing(),
        old(journal).fenced() ==> (r matches Err(why) && why@
            == "discovery persistence is uncertain; reopen to recover"@),
{
    sound_inventories(next@, *checks);
    lawful_successors(journal.retained(), next@);
}

/// A confirmed write is retained and lifts the fence; one that is not leaves what
/// was retained, and the fence.
pub proof fn confirmed_writes_are_retained(journal: &mut DiscoveryJournal, confirmed: bool)
    requires
        call_ensures(DiscoveryJournal::written, (journal, confirmed), ()),
    ensures
        final(journal).writing() is None,
        confirmed ==> (old(journal).writing() matches Some(next) ==> final(journal).retained()
            == next && !final(journal).fenced()),
        !confirmed || old(journal).writing() is None ==> final(journal).retained() == old(
            journal,
        ).retained() && final(journal).fenced() == old(journal).fenced(),
{
}

/// Checking says beforehand what saving would, but for the fence, and what is
/// retained and to be written can be had.
pub proof fn journals_show_what_they_hold(
    journal: &DiscoveryJournal,
    next: &DiscoveryInventory,
    checks: &InventoryChecks,
    r: Result<(), String>,
    retained: &DiscoveryInventory,
    writing: Option<&DiscoveryInventory>,
)
    requires
        call_ensures(DiscoveryJournal::check, (journal, next, checks), r),
        call_ensures(DiscoveryJournal::inventory, (journal,), retained),
        call_ensures(DiscoveryJournal::to_write, (journal,), writing),
    ensures
        r is Ok <==> inventory_is_sound(next@, *checks) && inventory_may_follow(
            journal.retained(),
            next@,
        ),
        retained@ == journal.retained(),
        writing is Some <==> journal.writing() is Some,
        writing matches Some(pending) ==> journal.writing() == Some(pending@),
{
    sound_inventories(next@, *checks);
    lawful_successors(journal.retained(), next@);
}

} // verus!
