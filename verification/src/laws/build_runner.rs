//! How builds are routed, run and tracked.

use vstd::prelude::*;

use crate::build_runner::{
    accept_build, build_run, build_status, build_submit_route, context_directory_name,
    find_peer_builder, first_builder, last_lines, lines_of, run_build,
    the_first_capable_peer_is_picked, track_delegated, without_return, BuildProgress, BuildRegistry,
    BuildRoute, BuildState, BuildStatus, BuildStep, BuilderAnswer, ContextFetch, StageOutput,
    StateReport,
};
use crate::membership::NodeMembershipInfo;
use crate::ordered_map::OrderedMap;
use crate::reply::{ClusterHttp, Refusal};
use crate::text::{borrowed_text, decimal_text, joined, pieces, pieces_of_joined};

verus! {

/// A build is registered under the next number, and no other build changes.
pub proof fn builds_are_numbered_in_turn(registry: &mut BuildRegistry, state: BuildState, r: u64)
    requires
        call_ensures(BuildRegistry::register, (registry, state), r),
    ensures
        r == old(registry).last_id() + 1,
        final(registry).last_id() == r,
        final(registry).builds() == old(registry).builds().insert(r, state),
{
}

/// The state that is set of a build is the one that is had of it, and no other
/// build changes.
pub proof fn states_are_had_as_set(registry: &mut BuildRegistry, id: u64, state: BuildState)
    requires
        call_ensures(BuildRegistry::set, (registry, id, state), ()),
    ensures
        final(registry).last_id() == old(registry).last_id(),
        final(registry).builds() == old(registry).builds().insert(id, state),
{
}

/// A build is had where there is one under its number.
pub proof fn builds_are_had_by_number(
    registry: &BuildRegistry,
    id: u64,
    r: Option<BuildState>,
    room: bool,
)
    requires
        call_ensures(BuildRegistry::get, (registry, id), r),
        call_ensures(BuildRegistry::has_room, (registry,), room),
    ensures
        r is Some <==> registry.builds().dom().contains(id),
        r matches Some(state) ==> state == registry.builds()[id],
        room <==> registry.last_id() < u64::MAX,
{
}

/// Whether a member reports that it can build, and is not this node.
pub open spec fn is_peer_builder(
    member: NodeMembershipInfo,
    reports: Map<Seq<char>, StateReport>,
    self_name: Option<&str>,
) -> bool {
    &&& self_name matches Some(name) ==> name@ != member.node_id@
    &&& reports.dom().contains(member.node_id@)
    &&& reports[member.node_id@].has_buildah
}

/// A build is given to the first member that reports that it can build and is not
/// this node, at its address; and to none where there is none.
pub proof fn the_first_peer_that_can_builds(
    members: &Vec<NodeMembershipInfo>,
    reports: &OrderedMap<String, StateReport>,
    self_name: Option<&str>,
    http: &ClusterHttp,
    r: Option<String>,
)
    requires
        call_ensures(find_peer_builder, (members, reports, self_name, http), r),
    ensures
        r is None <==> forall|i: int|
            0 <= i < members@.len() ==> !is_peer_builder(
                #[trigger] members@[i],
                reports@,
                self_name,
            ),
        r matches Some(url) ==> exists|i: int|
            0 <= i < members@.len() && is_peer_builder(
                #[trigger] members@[i],
                reports@,
                self_name,
            ) && url@ == (if http.tls {
                "https://"@
            } else {
                "http://"@
            }) + members@[i].address@ && forall|j: int|
                0 <= j < i ==> !is_peer_builder(#[trigger] members@[j], reports@, self_name),
{
    let name = borrowed_text(self_name);
    the_first_capable_peer_is_picked(members@, reports@, name);
    assert forall|i: int| 0 <= i < members@.len() implies is_peer_builder(
        #[trigger] members@[i],
        reports@,
        self_name,
    ) == crate::build_runner::can_build(members@[i], reports@, name) by {}
    if r is Some {
        let at = first_builder(members@, reports@, name)->0;
        assert(is_peer_builder(members@[at], reports@, self_name));
        reveal_strlit("");
        assert((if http.tls {
            "https://"@
        } else {
            "http://"@
        }) + members@[at].address@ + ""@ =~= (if http.tls {
            "https://"@
        } else {
            "http://"@
        }) + members@[at].address@);
    }
}

/// A build goes on, stage by stage, to the next where the last succeeded, and is
/// then named by its image and tag.
pub proof fn builds_go_on_while_stages_succeed(
    progress: BuildProgress,
    digest: &str,
    name: &str,
    tag: &str,
    timeout: u64,
    r: BuildStep,
)
    requires
        call_ensures(run_build, (progress, digest, name, tag, timeout), r),
    ensures
        (r is FetchContext) <==> (progress matches BuildProgress::Planned(plan) && plan is Ok),
        (r is Extract) <==> (progress matches BuildProgress::Fetched(fetch) && fetch is Read),
        (r is Build) <==> (progress matches BuildProgress::Extracted(done) && done),
        (r is Push) <==> (progress matches BuildProgress::Built(output) && output is Success),
        (r is Sign) <==> (progress matches BuildProgress::Pushed(output) && output is Success),
        progress is Signed ==> (r matches BuildStep::Finish(BuildState::Completed { image })
            && image@ == name@ + ":"@ + tag@),
{
}

/// Whether a build has failed for a reason.
pub open spec fn has_failed(r: BuildStep, why: Seq<char>) -> bool {
    r matches BuildStep::Finish(BuildState::Failed { reason }) && reason@ == why
}

/// A stage that did not succeed fails the build, and the reason says which stage
/// and how.
pub proof fn failed_stages_fail_the_build(
    progress: BuildProgress,
    digest: &str,
    name: &str,
    tag: &str,
    timeout: u64,
    r: BuildStep,
)
    requires
        call_ensures(run_build, (progress, digest, name, tag, timeout), r),
    ensures
        progress matches BuildProgress::Planned(Err(error)) ==> has_failed(
            r,
            "invalid build spec: "@ + error@,
        ),
        progress matches BuildProgress::Fetched(ContextFetch::ReadFailed(error)) ==> has_failed(
            r,
            "context read failed: "@ + error@,
        ),
        progress matches BuildProgress::Fetched(ContextFetch::Missing) ==> has_failed(
            r,
            "context blob "@ + digest@ + " not found in the registry"@,
        ),
        progress matches BuildProgress::Extracted(false) ==> has_failed(
            r,
            "failed to extract build context"@,
        ),
        progress matches BuildProgress::Built(StageOutput::NotStarted(error)) ==> has_failed(
            r,
            "failed to run buildah "@ + "build"@ + ": "@ + error@,
        ),
        progress matches BuildProgress::Pushed(StageOutput::NotStarted(error)) ==> has_failed(
            r,
            "failed to run buildah "@ + "push"@ + ": "@ + error@,
        ),
        progress matches BuildProgress::Built(StageOutput::TimedOut) ==> has_failed(
            r,
            "buildah "@ + "build"@ + " exceeded build_timeout_secs ("@ + decimal_text(
                timeout as nat,
            ) + "s)"@,
        ),
        progress matches BuildProgress::Pushed(StageOutput::TimedOut) ==> has_failed(
            r,
            "buildah "@ + "push"@ + " exceeded build_timeout_secs ("@ + decimal_text(
                timeout as nat,
            ) + "s)"@,
        ),
        progress matches BuildProgress::Built(StageOutput::Exited(errors)) ==> has_failed(
            r,
            "buildah "@ + "build"@ + " failed: "@ + last_lines(errors@, 10),
        ),
        progress matches BuildProgress::Pushed(StageOutput::Exited(errors)) ==> has_failed(
            r,
            "buildah "@ + "push"@ + " failed: "@ + last_lines(errors@, 10),
        ),
{
}

/// Lines end at line feeds, with a carriage return before it or none: the lines of
/// nothing are none, those of a text and a line feed are one more than those
/// before the line, and what is behind the last line feed is a line too.
pub proof fn lines_end_at_line_feeds(before: Seq<char>, line: Seq<char>)
    requires
        !line.contains('\n'),
        before.len() == 0 || before[before.len() - 1] == '\n',
    ensures
        lines_of(Seq::<char>::empty()) == Seq::<Seq<char>>::empty(),
        lines_of(before + line.push('\n')) == lines_of(before).push(
            if line.len() > 0 && line[line.len() - 1] == '\r' {
                line.drop_last()
            } else {
                line
            },
        ),
        line.len() > 0 ==> lines_of(before + line) == lines_of(before).push(line),
{
    assert(lines_of(Seq::<char>::empty()) =~= Seq::<Seq<char>>::empty());
    pieces_without(line);
    let empty = Seq::<char>::empty();
    let all = pieces(before, '\n');
    assert(pieces(empty, '\n') =~= seq![empty]);
    pieces_of_joined(line, empty, '\n');
    assert(line.push('\n') =~= line + seq!['\n'] + empty);
    assert(pieces(line.push('\n'), '\n') =~= seq![line, empty]);
    if before.len() == 0 {
        assert(before =~= empty);
        assert(before + line.push('\n') =~= line.push('\n'));
        assert(before + line =~= line);
        assert(lines_of(before) =~= Seq::<Seq<char>>::empty());
        assert(lines_of(line.push('\n')) =~= seq![without_return(line)]);
        if line.len() > 0 {
            assert(lines_of(line) =~= seq![line]);
        }
    } else {
        let head = before.drop_last();
        assert(before =~= head + seq!['\n'] + empty);
        pieces_of_joined(head, empty, '\n');
        pieces_of_joined(head, line, '\n');
        pieces_of_joined(head, line.push('\n'), '\n');
        let first = pieces(head, '\n');
        assert(all =~= first.push(empty));
        assert(before + line =~= head + seq!['\n'] + line);
        assert(before + line.push('\n') =~= head + seq!['\n'] + line.push('\n'));
        assert(pieces(before + line, '\n') =~= first.push(line));
        assert(pieces(before + line.push('\n'), '\n') =~= first.push(line).push(empty));
        assert(lines_of(before + line.push('\n')) =~= lines_of(before).push(
            without_return(line),
        ));
        if line.len() > 0 {
            assert(lines_of(before + line) =~= lines_of(before).push(line));
        }
    }
}

proof fn pieces_without(line: Seq<char>)
    requires
        !line.contains('\n'),
    ensures
        pieces(line, '\n') == seq![line],
    decreases line.len(),
{
    if line.len() > 0 {
        let rest = line.drop_last();
        assert(line[line.len() - 1] != '\n');
        if rest.contains('\n') {
            let i = choose|i: int| 0 <= i < rest.len() && rest[i] == '\n';
            assert(line[i] == '\n');
        }
        pieces_without(rest);
        assert(rest.push(line[line.len() - 1]) =~= line);
        assert(pieces(line, '\n') =~= seq![line]);
    }
}

/// Of an output the last lines are kept, the last of them first, as many as are
/// wanted.
pub proof fn the_last_lines_come_first(text: Seq<char>, count: int)
    requires
        0 <= count,
    ensures
        ({
            let lines = lines_of(text);
            let kept = if lines.len() <= count {
                lines.len() as int
            } else {
                count
            };
            last_lines(text, count) == joined(
                Seq::new(kept as nat, |i: int| lines[lines.len() - 1 - i]),
                "\n"@,
            )
        }),
{
    let lines = lines_of(text);
    let back = lines.reverse();
    let kept = if lines.len() <= count {
        lines.len() as int
    } else {
        count
    };
    let wanted = Seq::new(kept as nat, |i: int| lines[lines.len() - 1 - i]);
    if back.len() <= count {
        assert(back =~= wanted);
    } else {
        assert(back.take(count) =~= wanted);
    }
}

/// A context is kept in a directory of its digest's name, with dashes for colons.
pub proof fn contexts_are_kept_under_their_digest(digest: &str, r: String)
    requires
        call_ensures(context_directory_name, (digest,), r),
    ensures
        r@.len() == digest@.len(),
        forall|i: int|
            0 <= i < digest@.len() ==> #[trigger] r@[i] == (if digest@[i] == ':' {
                '-'
            } else {
                digest@[i]
            }),
{
}

/// A build is done here where that is possible, by a peer where there is one, and
/// refused as unavailable otherwise.
pub proof fn builds_are_done_here_or_by_a_peer(
    local: bool,
    peer: Option<String>,
    r: Result<BuildRoute, Refusal>,
)
    requires
        call_ensures(build_submit_route, (local, peer), r),
    ensures
        (r matches Ok(route) && route is Local) <==> local,
        !local ==> (peer matches Some(url) ==> (r matches Ok(BuildRoute::Peer(at)) && at == url)),
        r is Err <==> !local && peer is None,
        r matches Err(e) ==> e.status is ServiceUnavailable,
{
}

/// A build with a good digest is accepted as running under the next number; one
/// with a bad digest is refused and changes nothing.
pub proof fn builds_with_good_digests_are_accepted(
    registry: &mut BuildRegistry,
    digest: Result<(), String>,
    r: Result<u64, Refusal>,
)
    requires
        old(registry).last_id() < u64::MAX,
        call_ensures(accept_build, (registry, digest), r),
    ensures
        r is Ok <==> digest is Ok,
        r matches Ok(id) ==> id == old(registry).last_id() + 1 && final(registry).last_id() == id
            && final(registry).builds() == old(registry).builds().insert(id, BuildState::Running),
        digest matches Err(error) ==> *final(registry) == *old(registry) && (r matches Err(e)
            && e.status is BadRequest && e.error@ == "invalid context digest: "@ + error@),
{
}

/// A node runs a build exactly where the digest is good and it can build.
pub proof fn nodes_run_what_they_can_build(
    registry: &mut BuildRegistry,
    digest: Result<(), String>,
    local: bool,
    r: Result<u64, Refusal>,
)
    requires
        old(registry).last_id() < u64::MAX,
        call_ensures(build_run, (registry, digest, local), r),
    ensures
        r is Ok <==> digest is Ok && local,
        r matches Ok(id) ==> id == old(registry).last_id() + 1 && final(registry).last_id() == id
            && final(registry).builds() == old(registry).builds().insert(id, BuildState::Running),
        r matches Err(e) ==> *final(registry) == *old(registry) && (e.status is BadRequest
            <==> digest is Err) && (e.status is BadRequest || e.status is ServiceUnavailable),
{
}

/// A delegated build is tracked exactly where the peer took it, under its number
/// there; whatever else it answers is a bad gateway and changes nothing.
pub proof fn delegated_builds_are_tracked_where_taken(
    registry: &mut BuildRegistry,
    url: String,
    answer: BuilderAnswer,
    r: Result<u64, Refusal>,
)
    requires
        old(registry).last_id() < u64::MAX,
        call_ensures(track_delegated, (registry, url, answer), r),
    ensures
        r is Ok <==> answer is Accepted,
        answer matches BuilderAnswer::Accepted(remote_id) ==> (r matches Ok(id) && id == old(
            registry,
        ).last_id() + 1 && final(registry).last_id() == id && final(registry).builds() == old(
            registry,
        ).builds().insert(id, BuildState::Delegated { url, remote_id })),
        r matches Err(e) ==> *final(registry) == *old(registry) && e.status is BadGateway,
{
}

/// A build that was delegated is asked for where it runs; any other is shown, and
/// one that is not known is not found.
pub proof fn builds_are_shown_where_they_run(
    registry: &BuildRegistry,
    id: u64,
    r: Result<BuildStatus, Refusal>,
)
    requires
        call_ensures(build_status, (registry, id), r),
    ensures
        r is Ok <==> registry.builds().dom().contains(id),
        r matches Err(e) ==> e.status is NotFound && e.error@ == "build "@ + decimal_text(id as nat)
            + " not found"@,
        r matches Ok(BuildStatus::Shown(state)) ==> state == registry.builds()[id] && !(
        state is Delegated),
        r matches Ok(BuildStatus::Proxied(at)) ==> (registry.builds()[id] matches
            BuildState::Delegated { url, remote_id } && at@ == url@ + "/v1/build/"@ + decimal_text(
            remote_id as nat,
        )),
{
}

} // verus!
