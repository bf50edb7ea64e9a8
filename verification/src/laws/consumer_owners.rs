//! Which changes of a consumer's published view are lawful.

use vstd::prelude::*;

use crate::consumer_owners::{
    begins_with, catalog_exposures, catalog_lists_removed, covers, effective_exposures, exposes,
    exposes_removal, finishes_with, follows, generations_in_order, history_complaint, lists_removed,
    ownership_complaint, phase_may_follow, publications_check, receipt_kept, receipts_check,
    receipts_kept, remote_complaint, removes_endpoint, repeats_ingress, resolved,
    transition_complaint, uses_retired_address, validate_transition, withdrawal_exposures,
    ConsumerChecks, ConsumerOwnership, ConsumerPhase, ConsumerPublication, Ownership, Publication,
    PublicationChecks, Receipt, ReceiptPhase,
};
use crate::services::{
    Endpoint, EndpointWithdrawalInstruction, Listing, Removal, Service, ServiceName, Withdrawal,
};
use crate::value::views;

verus! {

/// Whether a phase can come directly after another: withdrawing may begin at any
/// time and is the only way to be withdrawn, only a publication leads to a new
/// view, and a publication begins anew or from an active or a withdrawn one.
pub open spec fn step_is_permitted(before: ConsumerPhase, after: ConsumerPhase) -> bool {
    match after {
        ConsumerPhase::Withdrawing => true,
        ConsumerPhase::Withdrawn => before is Withdrawing || before is Withdrawn,
        ConsumerPhase::Active => before is Publishing || before is Active,
        ConsumerPhase::Publishing => !(before is Withdrawing),
    }
}

/// Whether a list starts with another.
pub open spec fn starts_with(list: Seq<Publication>, start: Seq<Publication>) -> bool {
    start.len() <= list.len() && forall|i: int|
        0 <= i < start.len() ==> #[trigger] list[i] == start[i]
}

/// Whether a list is the end of another.
pub open spec fn is_end_of(end: Seq<Publication>, list: Seq<Publication>) -> bool {
    end.len() <= list.len() && forall|i: int|
        0 <= i < end.len() ==> #[trigger] end[i] == list[list.len() - end.len() + i]
}

/// Whether the history of publications is carried over a step as it must be.
pub open spec fn history_is_carried(before: Ownership, after: Ownership) -> bool {
    match (before.phase, after.phase) {
        (ConsumerPhase::Active, ConsumerPhase::Publishing) => starts_with(
            after.publications,
            before.publications,
        ) && after.publications.len() == before.publications.len() + 1,
        (ConsumerPhase::Active, ConsumerPhase::Active) => after.publications == before.publications
            || (after.publications.len() > 0 && is_end_of(after.publications, before.publications)),
        (ConsumerPhase::Withdrawn, _) => before.publications.len() == 0 || (
        after.publications.len() > 0 && before.publications.last().generation
            <= after.publications.last().generation && (before.publications.last().generation
            == after.publications.last().generation ==> before.publications.last().catalog
            == after.publications.last().catalog)),
        (_, ConsumerPhase::Withdrawing) => starts_with(after.publications, before.publications),
        (_, _) => after.publications == before.publications,
    }
}

/// Whether an endpoint is one that a withdrawal takes away.
pub open spec fn is_taken_away(gone: Endpoint, listed: Endpoint) -> bool {
    gone.node_id == listed.node_id && gone.node_ip == listed.node_ip && gone.host_port
        == listed.host_port && (gone.execution is Some ==> gone.execution == listed.execution)
}

/// Whether a publication still shows what a withdrawal takes away: a virtual
/// address that is retired, or an endpoint.
pub open spec fn still_shows(publication: Publication, withdrawal: Withdrawal) -> bool {
    (exists|s: int, e: int|
        0 <= s < withdrawal.services.len() && 0 <= e < publication.effective.len() && (
        #[trigger] withdrawal.services[s]).1.retire_vip && (
        #[trigger] publication.effective[e]).vip == withdrawal.services[s].1.service.vip) || (
    exists|s: int, b: int, c: int, d: int|
        0 <= s < withdrawal.services.len() && 0 <= b
            < withdrawal.services[s].1.service.backends.len() && 0 <= c < publication.catalog.len()
            && 0 <= d < publication.catalog[c].1.backends.len() && is_taken_away(
            #[trigger] withdrawal.services[s].1.service.backends[b],
            #[trigger] publication.catalog[c].1.backends[d],
        ))
}

proof fn exposure_is_shown(publication: Publication, withdrawal: Withdrawal)
    ensures
        exposes(publication, withdrawal) <==> still_shows(publication, withdrawal),
{
    if exposes(publication, withdrawal) {
        let s = choose|s: int|
            0 <= s < withdrawal.services.len() && exposes_removal(
                publication,
                (#[trigger] withdrawal.services[s]).1,
            );
        let removal = withdrawal.services[s].1;
        if uses_retired_address(publication.effective, removal) {
            let e = choose|e: int|
                0 <= e < publication.effective.len() && (#[trigger] publication.effective[e]).vip
                    == removal.service.vip;
            assert(withdrawal.services[s].1.retire_vip && publication.effective[e].vip
                == withdrawal.services[s].1.service.vip);
        } else {
            assert(catalog_lists_removed(publication.catalog, removal));
            let c = choose|c: int|
                0 <= c < publication.catalog.len() && lists_removed(
                    (#[trigger] publication.catalog[c]).1,
                    removal,
                );
            let (d, b) = choose|d: int, b: int|
                0 <= d < publication.catalog[c].1.backends.len() && 0 <= b
                    < removal.service.backends.len() && removes_endpoint(
                    #[trigger] removal.service.backends[b],
                    #[trigger] publication.catalog[c].1.backends[d],
                );
            assert(is_taken_away(
                withdrawal.services[s].1.service.backends[b],
                publication.catalog[c].1.backends[d],
            ));
        }
    }
    if still_shows(publication, withdrawal) {
        if exists|s: int, e: int|
            0 <= s < withdrawal.services.len() && 0 <= e < publication.effective.len() && (
            #[trigger] withdrawal.services[s]).1.retire_vip && (
            #[trigger] publication.effective[e]).vip == withdrawal.services[s].1.service.vip {
            let (s, e) = choose|s: int, e: int|
                0 <= s < withdrawal.services.len() && 0 <= e < publication.effective.len() && (
                #[trigger] withdrawal.services[s]).1.retire_vip && (
                #[trigger] publication.effective[e]).vip == withdrawal.services[s].1.service.vip;
            assert(uses_retired_address(publication.effective, withdrawal.services[s].1));
            assert(exposes_removal(publication, withdrawal.services[s].1));
        } else {
            let (s, b, c, d) = choose|s: int, b: int, c: int, d: int|
                0 <= s < withdrawal.services.len() && 0 <= b
                    < withdrawal.services[s].1.service.backends.len() && 0 <= c
                    < publication.catalog.len() && 0 <= d
                    < publication.catalog[c].1.backends.len() && is_taken_away(
                    #[trigger] withdrawal.services[s].1.service.backends[b],
                    #[trigger] publication.catalog[c].1.backends[d],
                );
            let removal = withdrawal.services[s].1;
            assert(removes_endpoint(
                removal.service.backends[b],
                publication.catalog[c].1.backends[d],
            ));
            assert(lists_removed(publication.catalog[c].1, removal));
            assert(catalog_lists_removed(publication.catalog, removal));
            assert(exposes_removal(publication, withdrawal.services[s].1));
        }
    }
}

/// A publication intersects a withdrawal exactly where it still shows something
/// that is taken away.
pub proof fn intersections_are_what_is_still_shown(
    publication: &ConsumerPublication,
    withdrawal: &EndpointWithdrawalInstruction,
    r: bool,
)
    requires
        call_ensures(ConsumerPublication::intersects, (publication, withdrawal), r),
    ensures
        r <==> still_shows(publication@, withdrawal@),
{
    exposure_is_shown(publication@, withdrawal@);
}

/// Whether a receipt is carried over a step as it must be: it keeps its
/// withdrawal, becomes ready only when nothing shows what it withdraws any
/// more, and goes only once it was ready.
pub open spec fn receipt_is_carried(before: Ownership, after: Ownership, generation: u64) -> bool {
    let old_receipt = before.receipts[generation];
    let new_receipt = after.receipts[generation];
    if !after.receipts.dom().contains(generation) {
        old_receipt.phase is Ready
    } else if new_receipt.withdrawal != old_receipt.withdrawal {
        false
    } else if new_receipt.phase == old_receipt.phase {
        true
    } else if old_receipt.phase is Ready {
        false
    } else if before.phase is Withdrawn {
        after.phase is Withdrawn
    } else {
        before.phase is Active && after.phase is Active && forall|i: int|
            0 <= i < after.publications.len() ==> !still_shows(
                #[trigger] after.publications[i],
                old_receipt.withdrawal,
            )
    }
}

/// Whether a step is lawful.
pub open spec fn step_is_lawful(before: Ownership, after: Ownership) -> bool {
    &&& after.identity == before.identity
    &&& step_is_permitted(before.phase, after.phase)
    &&& history_is_carried(before, after)
    &&& forall|generation: u64| #[trigger]
        before.receipts.dom().contains(generation) ==> receipt_is_carried(
            before,
            after,
            generation,
        )
    &&& forall|generation: u64| #[trigger]
        after.receipts.dom().contains(generation) && !before.receipts.dom().contains(generation)
            ==> after.receipts[generation].phase is Pending
}

proof fn prefixes(list: Seq<Publication>, part: Seq<Publication>)
    ensures
        begins_with(list, part) <==> starts_with(list, part),
        finishes_with(list, part) <==> is_end_of(part, list),
{
    if begins_with(list, part) {
        assert forall|i: int| 0 <= i < part.len() implies #[trigger] list[i] == part[i] by {
            assert(list.subrange(0, part.len() as int)[i] == part[i]);
        }
    }
    if starts_with(list, part) {
        assert(list.subrange(0, part.len() as int) =~= part);
    }
    let from = list.len() - part.len();
    if finishes_with(list, part) {
        assert forall|i: int| 0 <= i < part.len() implies #[trigger] part[i] == list[from + i] by {
            assert(list.subrange(from, list.len() as int)[i] == part[i]);
        }
    }
    if is_end_of(part, list) {
        assert(list.subrange(from, list.len() as int) =~= part);
    }
}

/// There is no complaint of a step exactly where it is lawful.
pub proof fn lawful_steps(before: Ownership, after: Ownership)
    ensures
        transition_complaint(Some(before), Some(after)) is None <==> step_is_lawful(before, after),
{
    prefixes(after.publications, before.publications);
    prefixes(before.publications, after.publications);
    assert(phase_may_follow(before.phase, after.phase) <==> step_is_permitted(
        before.phase,
        after.phase,
    ));
    if step_is_permitted(before.phase, after.phase) {
        assert(history_complaint(before, after) is None <==> history_is_carried(before, after));
        assert forall|generation: u64|
            receipt_kept(before, after, generation) == receipt_is_carried(
                before,
                after,
                generation,
            ) by {
            let withdrawal = before.receipts[generation].withdrawal;
            assert forall|i: int| 0 <= i < after.publications.len() implies exposes(
                #[trigger] after.publications[i],
                withdrawal,
            ) == still_shows(after.publications[i], withdrawal) by {
                exposure_is_shown(after.publications[i], withdrawal);
            }
        }
        if receipts_kept(before, after) {
            assert forall|generation: u64| #[trigger]
                before.receipts.dom().contains(generation) implies receipt_is_carried(
                before,
                after,
                generation,
            ) by {
                assert(receipt_kept(before, after, generation));
            }
        }
        if forall|generation: u64| #[trigger]
            before.receipts.dom().contains(generation) ==> receipt_is_carried(
                before,
                after,
                generation,
            ) {
            assert forall|generation: u64| #[trigger]
                before.receipts.dom().contains(generation) implies receipt_kept(
                before,
                after,
                generation,
            ) by {
                assert(receipt_is_carried(before, after, generation));
            }
            assert(receipts_kept(before, after));
        }
    }
}

/// A change of ownership is accepted exactly where its step is lawful. The first
/// ownership is always accepted, and none is ever dropped.
pub proof fn exactly_lawful_steps_are_accepted(
    previous: Option<&ConsumerOwnership>,
    next: Option<&ConsumerOwnership>,
    r: Result<(), String>,
)
    requires
        call_ensures(validate_transition, (previous, next), r),
    ensures
        previous is None ==> r is Ok,
        previous is Some && next is None ==> r is Err,
        previous is Some && next is Some ==> (r is Ok <==> step_is_lawful(
            previous->0@,
            next->0@,
        )),
{
    if previous is Some && next is Some {
        lawful_steps(previous->0@, next->0@);
    }
}

/// The permitted steps are from active to active, publishing and withdrawing; from
/// publishing to publishing, active and withdrawing; from withdrawing to
/// withdrawing and withdrawn; and from withdrawn to withdrawn, publishing and
/// withdrawing. A change by any other is refused, and between ownerships that
/// are otherwise the same any of these is accepted, but for the one from active
/// to publishing, which takes one more publication.
pub proof fn steps_are_permitted_by_phase(
    previous: &ConsumerOwnership,
    next: &ConsumerOwnership,
    r: Result<(), String>,
)
    requires
        call_ensures(validate_transition, (Some(previous), Some(next)), r),
    ensures
        r is Ok ==> match previous.phase {
            ConsumerPhase::Active => next.phase is Active || next.phase is Publishing
                || next.phase is Withdrawing,
            ConsumerPhase::Publishing => next.phase is Publishing || next.phase is Active
                || next.phase is Withdrawing,
            ConsumerPhase::Withdrawing => next.phase is Withdrawing || next.phase is Withdrawn,
            ConsumerPhase::Withdrawn => next.phase is Withdrawn || next.phase is Publishing
                || next.phase is Withdrawing,
        },
        next@.identity == previous@.identity && next@.publications == previous@.publications
            && next@.receipts == previous@.receipts ==> (r is Ok <==> match previous.phase {
            ConsumerPhase::Active => next.phase is Active || next.phase is Withdrawing,
            ConsumerPhase::Publishing => next.phase is Publishing || next.phase is Active
                || next.phase is Withdrawing,
            ConsumerPhase::Withdrawing => next.phase is Withdrawing || next.phase is Withdrawn,
            ConsumerPhase::Withdrawn => next.phase is Withdrawn || next.phase is Publishing
                || next.phase is Withdrawing,
        }),
{
    lawful_steps(previous@, next@);
}

/// Any ownership may stay as it is, and a publication that was begun may be
/// completed, or withdrawn, with nothing else changed.
pub proof fn publications_can_be_completed_and_withdrawn(before: Ownership, after: Ownership)
    requires
        after.identity == before.identity,
        after.publications == before.publications,
        after.receipts == before.receipts,
    ensures
        after.phase == before.phase ==> transition_complaint(Some(before), Some(after)) is None,
        before.phase is Publishing && after.phase is Active ==> transition_complaint(
            Some(before),
            Some(after),
        ) is None,
        after.phase is Withdrawing ==> transition_complaint(Some(before), Some(after)) is None,
        before.phase is Withdrawing && after.phase is Withdrawn ==> transition_complaint(
            Some(before),
            Some(after),
        ) is None,
        before.phase is Withdrawn && after.phase is Publishing ==> transition_complaint(
            Some(before),
            Some(after),
        ) is None,
{
    lawful_steps(before, after);
}

/// An active view may be followed by the publication of one more, whatever it
/// shows.
pub proof fn active_views_can_be_replaced(before: Ownership, after: Ownership, more: Publication)
    requires
        before.phase is Active,
        after.phase is Publishing,
        after.identity == before.identity,
        after.receipts == before.receipts,
        after.publications == before.publications.push(more),
    ensures
        transition_complaint(Some(before), Some(after)) is None,
{
    lawful_steps(before, after);
}

/// An active history may be compacted to any end of it that is not empty.
pub proof fn active_histories_can_be_compacted(before: Ownership, after: Ownership, from: int)
    requires
        before.phase is Active,
        after.phase is Active,
        after.identity == before.identity,
        after.receipts == before.receipts,
        0 <= from < before.publications.len(),
        after.publications == before.publications.skip(from),
    ensures
        transition_complaint(Some(before), Some(after)) is None,
{
    assert(is_end_of(after.publications, before.publications));
    lawful_steps(before, after);
}

/// A pending receipt may become ready once a compacted active view shows nothing
/// of what it withdraws, or while all is withdrawn; a ready one may go, and a
/// new one may come as pending.
pub proof fn receipts_become_ready_and_go(
    before: Ownership,
    after: Ownership,
    generation: u64,
    withdrawal: Withdrawal,
)
    requires
        after.identity == before.identity,
        after.publications == before.publications,
        before.phase == after.phase,
    ensures
        before.phase is Withdrawn && before.receipts.dom().contains(generation)
            && before.receipts[generation] == (Receipt { withdrawal, phase: ReceiptPhase::Pending })
            && after.receipts == before.receipts.insert(
            generation,
            Receipt { withdrawal, phase: ReceiptPhase::Ready },
        ) ==> transition_complaint(Some(before), Some(after)) is None,
        before.phase is Active && before.receipts.dom().contains(generation)
            && before.receipts[generation] == (Receipt { withdrawal, phase: ReceiptPhase::Pending })
            && after.receipts == before.receipts.insert(
            generation,
            Receipt { withdrawal, phase: ReceiptPhase::Ready },
        ) ==> (transition_complaint(Some(before), Some(after)) is None <==> forall|i: int|
            0 <= i < after.publications.len() ==> !still_shows(
                #[trigger] after.publications[i],
                withdrawal,
            )),
        before.receipts.dom().contains(generation) && before.receipts[generation].phase is Ready
            && after.receipts == before.receipts.remove(generation) ==> transition_complaint(
            Some(before),
            Some(after),
        ) is None,
        !before.receipts.dom().contains(generation) && after.receipts == before.receipts.insert(
            generation,
            Receipt { withdrawal, phase: ReceiptPhase::Pending },
        ) ==> transition_complaint(Some(before), Some(after)) is None,
{
    lawful_steps(before, after);
    if before.phase is Active && before.receipts.dom().contains(generation)
        && before.receipts[generation] == (Receipt { withdrawal, phase: ReceiptPhase::Pending })
        && after.receipts == before.receipts.insert(
        generation,
        Receipt { withdrawal, phase: ReceiptPhase::Ready },
    ) {
        if forall|i: int|
            0 <= i < after.publications.len() ==> !still_shows(
                #[trigger] after.publications[i],
                withdrawal,
            ) {
            assert(step_is_lawful(before, after));
        } else if step_is_lawful(before, after) {
            assert(receipt_is_carried(before, after, generation));
        }
    }
}

/// How much a list of entries exposes: one for each, and one for each of its
/// backends.
pub open spec fn exposed(backends: Seq<nat>) -> nat
    decreases backends.len(),
{
    if backends.len() == 0 {
        0
    } else {
        1 + backends[0] + exposed(backends.skip(1))
    }
}

proof fn exposed_push(list: Seq<nat>, more: nat)
    ensures
        exposed(list.push(more)) == exposed(list) + 1 + more,
    decreases list.len(),
{
    let all = list.push(more);
    if list.len() == 0 {
        assert(all.skip(1) =~= Seq::<nat>::empty());
        assert(exposed(all.skip(1)) == 0);
    } else {
        assert(all.skip(1) =~= list.skip(1).push(more));
        exposed_push(list.skip(1), more);
    }
}

/// What a publication exposes, by its catalogue and by its effective view.
pub open spec fn exposed_by(publication: Publication) -> nat {
    exposed(publication.catalog.map_values(|l: (Seq<char>, Listing)| l.1.backends.len()))
        + exposed(publication.effective.map_values(|s: Service| s.backends.len()))
}

/// What a withdrawal exposes.
pub open spec fn exposed_by_withdrawal(withdrawal: Withdrawal) -> nat {
    exposed(
        withdrawal.services.map_values(|r: (Seq<char>, Removal)| r.1.service.backends.len()),
    )
}

proof fn catalog_is_exposed(catalog: Seq<(Seq<char>, Listing)>)
    ensures
        catalog_exposures(catalog) == exposed(
            catalog.map_values(|l: (Seq<char>, Listing)| l.1.backends.len()),
        ),
    decreases catalog.len(),
{
    let count = |l: (Seq<char>, Listing)| l.1.backends.len();
    if catalog.len() > 0 {
        catalog_is_exposed(catalog.drop_last());
        exposed_push(catalog.drop_last().map_values(count), catalog.last().1.backends.len());
        assert(catalog.map_values(count) =~= catalog.drop_last().map_values(count).push(
            catalog.last().1.backends.len(),
        ));
    }
}

proof fn effective_is_exposed(effective: Seq<Service>)
    ensures
        effective_exposures(effective) == exposed(
            effective.map_values(|s: Service| s.backends.len()),
        ),
    decreases effective.len(),
{
    let count = |s: Service| s.backends.len();
    if effective.len() > 0 {
        effective_is_exposed(effective.drop_last());
        exposed_push(effective.drop_last().map_values(count), effective.last().backends.len());
        assert(effective.map_values(count) =~= effective.drop_last().map_values(count).push(
            effective.last().backends.len(),
        ));
    }
}

proof fn withdrawal_is_exposed(services: Seq<(Seq<char>, Removal)>)
    ensures
        withdrawal_exposures(services) == exposed(
            services.map_values(|r: (Seq<char>, Removal)| r.1.service.backends.len()),
        ),
    decreases services.len(),
{
    let count = |r: (Seq<char>, Removal)| r.1.service.backends.len();
    if services.len() > 0 {
        withdrawal_is_exposed(services.drop_last());
        exposed_push(
            services.drop_last().map_values(count),
            services.last().1.service.backends.len(),
        );
        assert(services.map_values(count) =~= services.drop_last().map_values(count).push(
            services.last().1.service.backends.len(),
        ));
    }
}

/// What all receipts expose.
pub open spec fn exposed_by_receipts(receipts: Seq<(u64, Receipt)>) -> nat
    decreases receipts.len(),
{
    if receipts.len() == 0 {
        0
    } else {
        exposed_by_receipts(receipts.drop_last()) + exposed_by_withdrawal(
            receipts.last().1.withdrawal,
        )
    }
}

/// What all publications expose.
pub open spec fn exposed_by_all(publications: Seq<Publication>) -> nat
    decreases publications.len(),
{
    if publications.len() == 0 {
        0
    } else {
        exposed_by_all(publications.drop_last()) + exposed_by(publications.last())
    }
}

/// Whether the effective view of a publication shows a remote service: under the
/// same address and port, with at least its backends, at the first entry of its
/// name.
pub open spec fn shows_remote(effective: Seq<Service>, remote: Service) -> bool {
    exists|i: int|
        0 <= i < effective.len() && (#[trigger] effective[i]).namespace == remote.namespace
            && effective[i].app_name == remote.app_name && effective[i].vip == remote.vip
            && effective[i].port == remote.port && (forall|b: int|
            0 <= b < remote.backends.len() ==> effective[i].backends.contains(
                #[trigger] remote.backends[b],
            )) && forall|j: int|
            0 <= j < i ==> !((#[trigger] effective[j]).namespace == remote.namespace
                && effective[j].app_name == remote.app_name)
}

proof fn resolved_is_first(effective: Seq<Service>, id: ServiceName)
    ensures
        match resolved(effective, id) {
            None => forall|i: int|
                0 <= i < effective.len() ==> !((#[trigger] effective[i]).namespace == id.namespace
                    && effective[i].app_name == id.name),
            Some(found) => exists|i: int|
                0 <= i < effective.len() && #[trigger] effective[i] == found && found.namespace
                    == id.namespace && found.app_name == id.name && forall|j: int|
                    0 <= j < i ==> !((#[trigger] effective[j]).namespace == id.namespace
                        && effective[j].app_name == id.name),
        },
    decreases effective.len(),
{
    if effective.len() > 0 {
        let rest = effective.skip(1);
        resolved_is_first(rest, id);
        if effective[0].id() == id {
            assert(effective[0] == resolved(effective, id)->0);
        } else {
            assert(effective[0].id().namespace != id.namespace || effective[0].id().name
                != id.name);
            match resolved(rest, id) {
                None => {
                    assert forall|i: int| 0 <= i < effective.len() implies !((
                    #[trigger] effective[i]).namespace == id.namespace && effective[i].app_name
                        == id.name) by {
                        if i > 0 {
                            assert(rest[i - 1] == effective[i]);
                        }
                    }
                },
                Some(found) => {
                    let i = choose|i: int|
                        0 <= i < rest.len() && #[trigger] rest[i] == found && found.namespace
                            == id.namespace && found.app_name == id.name && forall|j: int|
                            0 <= j < i ==> !((#[trigger] rest[j]).namespace == id.namespace
                                && rest[j].app_name == id.name);
                    assert(effective[i + 1] == found);
                    assert forall|j: int| 0 <= j < i + 1 implies !((
                    #[trigger] effective[j]).namespace == id.namespace && effective[j].app_name
                        == id.name) by {
                        if j > 0 {
                            assert(rest[j - 1] == effective[j]);
                        }
                    }
                },
            }
        }
    }
}

proof fn remotes_are_shown(effective: Seq<Service>, remote: Seq<Service>)
    ensures
        remote_complaint(effective, remote) is None <==> forall|i: int|
            0 <= i < remote.len() ==> shows_remote(effective, #[trigger] remote[i]),
    decreases remote.len(),
{
    if remote.len() > 0 {
        let rest = remote.drop_last();
        let last = remote.last();
        remotes_are_shown(effective, rest);
        resolved_is_first(effective, last.id());
        let here = match resolved(effective, last.id()) {
            None => false,
            Some(actual) => covers(actual, last),
        };
        assert(here == shows_remote(effective, last)) by {
            if here {
                let actual = resolved(effective, last.id())->0;
                let i = choose|i: int|
                    0 <= i < effective.len() && #[trigger] effective[i] == actual
                        && actual.namespace == last.namespace && actual.app_name == last.app_name
                        && forall|j: int|
                        0 <= j < i ==> !((#[trigger] effective[j]).namespace == last.namespace
                            && effective[j].app_name == last.app_name);
                assert(effective[i].vip == last.vip);
            }
            if shows_remote(effective, last) {
                let i = choose|i: int|
                    0 <= i < effective.len() && (#[trigger] effective[i]).namespace
                        == last.namespace && effective[i].app_name == last.app_name
                        && effective[i].vip == last.vip && effective[i].port == last.port && (
                    forall|b: int|
                        0 <= b < last.backends.len() ==> effective[i].backends.contains(
                            #[trigger] last.backends[b],
                        )) && forall|j: int|
                        0 <= j < i ==> !((#[trigger] effective[j]).namespace == last.namespace
                            && effective[j].app_name == last.app_name);
                let actual = resolved(effective, last.id())->0;
                let k = choose|k: int|
                    0 <= k < effective.len() && #[trigger] effective[k] == actual
                        && actual.namespace == last.namespace && actual.app_name == last.app_name
                        && forall|j: int|
                        0 <= j < k ==> !((#[trigger] effective[j]).namespace == last.namespace
                            && effective[j].app_name == last.app_name);
                assert(i == k);
            }
        }
        assert(remote[remote.len() - 1] == last);
        assert(forall|i: int| 0 <= i < rest.len() ==> #[trigger] remote[i] == rest[i]);
        if remote_complaint(effective, rest) is None && here {
            assert forall|i: int| 0 <= i < remote.len() implies shows_remote(
                effective,
                #[trigger] remote[i],
            ) by {
                if i < rest.len() {
                    assert(remote[i] == rest[i]);
                }
            }
        }
        if forall|i: int|
            0 <= i < remote.len() ==> shows_remote(effective, #[trigger] remote[i]) {
            assert forall|i: int| 0 <= i < rest.len() implies shows_remote(
                effective,
                #[trigger] rest[i],
            ) by {
                assert(remote[i] == rest[i]);
            }
            assert(shows_remote(effective, remote[remote.len() - 1]));
        }
    }
}

/// Whether a publication is sound by itself.
pub open spec fn publication_is_sound(publication: Publication, checks: PublicationChecks) -> bool {
    &&& checks.allocations is Ok && checks.snapshot is Ok && checks.routing is Ok
    &&& publication.generation == 0 ==> publication.catalog.len() == 0
    &&& forall|i: int, j: int|
        0 <= i < j < publication.ingress.len() ==> (#[trigger] publication.ingress[i]).service != (
        #[trigger] publication.ingress[j]).service
    &&& forall|i: int|
        0 <= i < views(checks.remote@).len() ==> shows_remote(
            publication.effective,
            #[trigger] views(checks.remote@)[i],
        )
}

/// Whether a receipt is sound: of an earlier generation than the newest
/// publication, and of something.
pub open spec fn receipt_is_sound(
    generation: u64,
    receipt: Receipt,
    publications: Seq<Publication>,
) -> bool {
    generation > 0 && receipt.withdrawal.generation == generation && publications.len() > 0
        && generation < publications[publications.len() - 1].generation
        && receipt.withdrawal.services.len() > 0
}

proof fn receipts_are_sound(
    receipts: Seq<(u64, Receipt)>,
    checks: Seq<Result<(), String>>,
    publications: Seq<Publication>,
)
    ensures
        receipts_check(receipts, checks, publications) is Ok <==> (forall|i: int|
            0 <= i < receipts.len() ==> receipt_is_sound(
                (#[trigger] receipts[i]).0,
                receipts[i].1,
                publications,
            ) && checks[i] is Ok) && exposed_by_receipts(receipts) <= 65_536,
        receipts_check(receipts, checks, publications) is Ok ==> receipts_check(
            receipts,
            checks,
            publications,
        )->Ok_0 == exposed_by_receipts(receipts),
    decreases receipts.len(),
{
    if receipts.len() > 0 {
        let rest = receipts.drop_last();
        receipts_are_sound(rest, checks, publications);
        withdrawal_is_exposed(receipts.last().1.withdrawal.services);
        assert(receipts[receipts.len() - 1] == receipts.last());
        let all = forall|i: int|
            0 <= i < receipts.len() ==> receipt_is_sound(
                (#[trigger] receipts[i]).0,
                receipts[i].1,
                publications,
            ) && checks[i] is Ok;
        let earlier = forall|i: int|
            0 <= i < rest.len() ==> receipt_is_sound(
                (#[trigger] rest[i]).0,
                rest[i].1,
                publications,
            ) && checks[i] is Ok;
        let last = receipt_is_sound(receipts.last().0, receipts.last().1, publications)
            && checks[receipts.len() - 1] is Ok;
        assert(all == (earlier && last)) by {
            if earlier && last {
                assert forall|i: int| 0 <= i < receipts.len() implies receipt_is_sound(
                    (#[trigger] receipts[i]).0,
                    receipts[i].1,
                    publications,
                ) && checks[i] is Ok by {
                    if i < rest.len() {
                        assert(receipts[i] == rest[i]);
                    }
                }
            }
            if all {
                assert forall|i: int| 0 <= i < rest.len() implies receipt_is_sound(
                    (#[trigger] rest[i]).0,
                    rest[i].1,
                    publications,
                ) && checks[i] is Ok by {
                    assert(receipts[i] == rest[i]);
                }
                assert(receipt_is_sound(
                    receipts[receipts.len() - 1].0,
                    receipts[receipts.len() - 1].1,
                    publications,
                ));
            }
        }
    }
}

proof fn publications_are_sound(
    publications: Seq<Publication>,
    checks: Seq<PublicationChecks>,
    exposures: nat,
)
    requires
        exposures <= 65_536,
    ensures
        publications_check(publications, checks, exposures) is Ok <==> (forall|i: int|
            0 <= i < publications.len() ==> publication_is_sound(
                #[trigger] publications[i],
                checks[i],
            )) && exposures + exposed_by_all(publications) <= 65_536,
        publications_check(publications, checks, exposures) is Ok ==> publications_check(
            publications,
            checks,
            exposures,
        )->Ok_0 == exposures + exposed_by_all(publications),
    decreases publications.len(),
{
    if publications.len() > 0 {
        let rest = publications.drop_last();
        let last = publications.last();
        let check = checks[publications.len() - 1];
        publications_are_sound(rest, checks, exposures);
        catalog_is_exposed(last.catalog);
        effective_is_exposed(last.effective);
        remotes_are_shown(last.effective, views(check.remote@));
        assert(repeats_ingress(last.ingress) <==> !(forall|i: int, j: int|
            0 <= i < j < last.ingress.len() ==> (#[trigger] last.ingress[i]).service != (
            #[trigger] last.ingress[j]).service));
        assert(publications[publications.len() - 1] == last);
        let all = forall|i: int|
            0 <= i < publications.len() ==> publication_is_sound(
                #[trigger] publications[i],
                checks[i],
            );
        let earlier = forall|i: int|
            0 <= i < rest.len() ==> publication_is_sound(#[trigger] rest[i], checks[i]);
        assert(all == (earlier && publication_is_sound(last, check))) by {
            if earlier && publication_is_sound(last, check) {
                assert forall|i: int| 0 <= i < publications.len() implies publication_is_sound(
                    #[trigger] publications[i],
                    checks[i],
                ) by {
                    if i < rest.len() {
                        assert(publications[i] == rest[i]);
                    }
                }
            }
            if all {
                assert forall|i: int| 0 <= i < rest.len() implies publication_is_sound(
                    #[trigger] rest[i],
                    checks[i],
                ) by {
                    assert(publications[i] == rest[i]);
                }
                assert(publication_is_sound(
                    publications[publications.len() - 1],
                    checks[publications.len() - 1],
                ));
            }
        }
    }
}

/// Whether an ownership is sound.
pub open spec fn ownership_is_sound(owner: Ownership, checks: ConsumerChecks) -> bool {
    let publications = owner.publications;
    &&& checks.node_id is Ok
    &&& publications.len() <= 1024 && owner.listed.len() <= 1024
    &&& forall|i: int|
        0 <= i < owner.listed.len() ==> receipt_is_sound(
            (#[trigger] owner.listed[i]).0,
            owner.listed[i].1,
            publications,
        ) && checks.receipts@[i] is Ok
    &&& forall|i: int|
        0 <= i < publications.len() ==> publication_is_sound(
            #[trigger] publications[i],
            checks.publications@[i],
        )
    &&& exposed_by_receipts(owner.listed) + exposed_by_all(publications) <= 65_536
    &&& forall|i: int, j: int|
        0 <= i < j < publications.len() && j == i + 1 ==> (#[trigger] publications[i]).generation
            <= (#[trigger] publications[j]).generation && (publications[i].generation
            == publications[j].generation ==> publications[i].catalog == publications[j].catalog)
}

/// An ownership is accepted exactly where it is sound: within its capacities,
/// with every receipt and publication sound, and its generations in order.
pub proof fn exactly_sound_ownership_is_accepted(
    owner: &ConsumerOwnership,
    checks: &ConsumerChecks,
    r: Result<(), String>,
)
    requires
        call_ensures(ConsumerOwnership::validate, (owner, checks), r),
    ensures
        r is Ok <==> ownership_is_sound(owner@, *checks),
{
    sound_ownership(owner@, *checks);
}

/// There is no complaint of an ownership exactly where it is sound.
pub proof fn sound_ownership(owner: Ownership, checks: ConsumerChecks)
    ensures
        ownership_complaint(owner, checks) is None <==> ownership_is_sound(owner, checks),
{
    let publications = owner.publications;
    receipts_are_sound(owner.listed, checks.receipts@, publications);
    if receipts_check(owner.listed, checks.receipts@, publications) is Ok {
        publications_are_sound(
            publications,
            checks.publications@,
            exposed_by_receipts(owner.listed),
        );
    }
    let ordered = forall|i: int, j: int|
        0 <= i < j < publications.len() && j == i + 1 ==> (#[trigger] publications[i]).generation
            <= (#[trigger] publications[j]).generation && (publications[i].generation
            == publications[j].generation ==> publications[i].catalog == publications[j].catalog);
    assert(ordered == generations_in_order(publications)) by {
        if ordered {
            assert forall|i: int| 0 <= i < publications.len() - 1 implies follows(
                #[trigger] publications[i],
                publications[i + 1],
            ) by {
                let j = i + 1;
                assert(publications[i].generation <= publications[j].generation);
            }
        }
        if generations_in_order(publications) {
            assert forall|i: int, j: int|
                0 <= i < j < publications.len() && j == i + 1 implies (
            #[trigger] publications[i]).generation <= (#[trigger] publications[j]).generation && (
            publications[i].generation == publications[j].generation ==> publications[i].catalog
                == publications[j].catalog) by {
                assert(follows(publications[i], publications[i + 1]));
            }
        }
    }
}

} // verus!
