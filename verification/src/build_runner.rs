//! Asynchronous image builds.
//!
//! A submitted build is answered with an identifier at once; a registry keeps
//! its state. A node that cannot build delegates to a peer that reported it
//! can.

use std::collections::HashMap;

use vstd::prelude::*;
use vstd::std_specs::hash::*;
use vstd::string::*;

use crate::membership::NodeMembershipInfo;
use crate::ordered_map::OrderedMap;
use crate::reply::{
    numbered, refuse, refuse_because, refused, with_number, ClusterHttp, Refusal, Status,
};
use crate::text::{
    borrowed_text, decimal, decimal_text, from_chars, join, joined, pieces, same_text, slice_of,
    split_on, strings, texts, to_chars,
};

verus! {

/// A build as it is submitted.
#[derive(Debug)]
pub struct BuildSubmitRequest {
    /// Name of the build.
    pub name: String,
    /// Digest of the build's context.
    pub context_digest: String,
    /// Port of the registry that holds the context.
    pub registry_port: u16,
    /// The build's specification as a document.
    pub spec: String,
}

/// Lifecycle of one tracked build.
#[derive(Debug)]
pub enum BuildState {
    /// The runner is fetching context, building or pushing.
    Running,
    /// Built, pushed and, in a cluster, signed.
    Completed {
        /// The image.
        image: String,
    },
    /// Some stage failed.
    Failed {
        /// The last useful output.
        reason: String,
    },
    /// Delegated to a peer builder; status reads go there.
    Delegated {
        /// Where the peer is.
        url: String,
        /// The peer's identifier of the build.
        remote_id: u64,
    },
}

impl Clone for BuildState {
    fn clone(&self) -> (r: Self)
        ensures
            r == *self,
    {
        match self {
            BuildState::Running => BuildState::Running,
            BuildState::Completed { image } => BuildState::Completed { image: image.clone() },
            BuildState::Failed { reason } => BuildState::Failed { reason: reason.clone() },
            BuildState::Delegated { url, remote_id } => BuildState::Delegated {
                url: url.clone(),
                remote_id: *remote_id,
            },
        }
    }
}

/// Node-local build registry: each build lives where it was submitted.
#[derive(Debug)]
pub struct BuildRegistry {
    next_id: u64,
    builds: HashMap<u64, BuildState>,
}

impl BuildRegistry {
    /// The tracked builds.
    pub closed spec fn builds(&self) -> Map<u64, BuildState> {
        self.builds@
    }

    /// The identifier that was given out last.
    pub closed spec fn last_id(&self) -> u64 {
        self.next_id
    }

    /// Every tracked build has an identifier that was given out.
    pub open spec fn only_given_ids(&self) -> bool {
        forall|id: u64| #[trigger] self.builds().dom().contains(id) ==> id <= self.last_id()
    }

    /// Whether another build can be numbered.
    pub fn has_room(&self) -> (r: bool)
        ensures
            r == (self.last_id() < u64::MAX),
    {
        self.next_id < u64::MAX
    }

    /// Track a new build and give out its identifier.
    pub fn register(&mut self, state: BuildState) -> (r: u64)
        requires
            old(self).last_id() < u64::MAX,
        ensures
            r == old(self).last_id() + 1,
            final(self).last_id() == r,
            final(self).builds() == old(self).builds().insert(r, state),
            old(self).only_given_ids() ==> final(self).only_given_ids(),
            old(self).only_given_ids() ==> !old(self).builds().dom().contains(r),
    {
        broadcast use group_hash_axioms;

        self.next_id = self.next_id + 1;
        let _ = self.builds.insert(self.next_id, state);
        self.next_id
    }

    /// Set the state of a build.
    pub fn set(&mut self, id: u64, state: BuildState)
        ensures
            final(self).last_id() == old(self).last_id(),
            final(self).builds() == old(self).builds().insert(id, state),
            old(self).only_given_ids() && id <= old(self).last_id()
                ==> final(self).only_given_ids(),
    {
        broadcast use group_hash_axioms;

        let ghost before = self.builds();
        let _ = self.builds.insert(id, state);
        proof {
            if old(self).only_given_ids() && id <= old(self).last_id() {
                assert forall|other: u64| #[trigger]
                    self.builds().dom().contains(other) implies other <= self.last_id() by {
                    assert(other == id || before.dom().contains(other));
                }
            }
        }
    }

    /// The state of a build, if it is tracked.
    pub fn get(&self, id: u64) -> (r: Option<BuildState>)
        ensures
            r == if self.builds().dom().contains(id) {
                Some(self.builds()[id])
            } else {
                None
            },
    {
        broadcast use group_hash_axioms;

        match self.builds.get(&id) {
            Some(state) => Some(state.clone()),
            None => None,
        }
    }
}

impl Default for BuildRegistry {
    fn default() -> (r: Self)
        ensures
            r.builds() == Map::<u64, BuildState>::empty(),
            r.last_id() == 0,
            r.only_given_ids(),
    {
        BuildRegistry { next_id: 0, builds: HashMap::new() }
    }
}

/// What a node last reported of itself.
#[derive(Debug, Clone, Copy)]
pub struct StateReport {
    /// Whether it can build images.
    pub has_buildah: bool,
    /// What it has and has committed.
    pub resource_usage: ResourceUsage,
}

/// What a node has and has committed.
#[derive(Debug, Clone, Copy)]
pub struct ResourceUsage {
    /// All of its CPU, in thousandths of a core.
    pub cpu_total_millicores: u32,
    /// Committed CPU, in thousandths of a core.
    pub cpu_used_millicores: u32,
    /// All of its memory, in MiB.
    pub memory_total_mb: u32,
    /// Committed memory, in MiB.
    pub memory_used_mb: u32,
}

/// Whether a member is another node that reported it can build.
pub open spec fn can_build(
    member: NodeMembershipInfo,
    reports: Map<Seq<char>, StateReport>,
    self_name: Option<Seq<char>>,
) -> bool {
    &&& self_name != Some(member.node_id@)
    &&& reports.dom().contains(member.node_id@)
    &&& reports[member.node_id@].has_buildah
}

/// The first member that can build, if there is one.
pub open spec fn first_builder(
    members: Seq<NodeMembershipInfo>,
    reports: Map<Seq<char>, StateReport>,
    self_name: Option<Seq<char>>,
) -> Option<int>
    decreases members.len(),
{
    if members.len() == 0 {
        None
    } else {
        match first_builder(members.drop_last(), reports, self_name) {
            Some(at) => Some(at),
            None => if can_build(members.last(), reports, self_name) {
                Some(members.len() - 1)
            } else {
                None
            },
        }
    }
}

proof fn first_builder_stays(
    members: Seq<NodeMembershipInfo>,
    reports: Map<Seq<char>, StateReport>,
    self_name: Option<Seq<char>>,
    i: int,
)
    requires
        0 <= i <= members.len(),
        first_builder(members.take(i), reports, self_name) is Some,
    ensures
        first_builder(members, reports, self_name) == first_builder(
            members.take(i),
            reports,
            self_name,
        ),
    decreases members.len() - i,
{
    if i < members.len() {
        assert(members.take(i + 1).drop_last() =~= members.take(i));
        first_builder_stays(members, reports, self_name, i + 1);
    } else {
        assert(members.take(i) =~= members);
    }
}

/// Pick a peer builder: the first other member whose latest report says it can
/// build. Returns its API base URL.
pub fn find_peer_builder(
    members: &Vec<NodeMembershipInfo>,
    reports: &OrderedMap<String, StateReport>,
    self_name: Option<&str>,
    cluster_http: &ClusterHttp,
) -> (r: Option<String>)
    requires
        reports.wf(),
    ensures
        match first_builder(members@, reports@, borrowed_text(self_name)) {
            Some(at) => r matches Some(url) && url@ == cluster_http.url_text(
                members@[at].address@,
                ""@,
            ),
            None => r is None,
        },
{
    let mut i: usize = 0;
    proof {
        assert(members@.take(0) =~= Seq::<NodeMembershipInfo>::empty());
    }
    while i < members.len()
        invariant
            reports.wf(),
            i <= members.len(),
            first_builder(members@.take(i as int), reports@, borrowed_text(self_name)) is None,
        decreases members.len() - i,
    {
        let member = &members[i];
        proof {
            assert(members@.take(i as int + 1).drop_last() =~= members@.take(i as int));
            assert(members@.take(i as int + 1).last() == *member);
        }
        let is_self = match self_name {
            Some(name) => same_text(member.node_id.as_str(), name),
            None => false,
        };
        let capable = match reports.get(&member.node_id) {
            Some(report) => report.has_buildah,
            None => false,
        };
        if !is_self && capable {
            proof {
                first_builder_stays(
                    members@,
                    reports@,
                    borrowed_text(self_name),
                    i as int + 1,
                );
            }
            return Some(cluster_http.url(member.address.as_str(), ""));
        }
        i = i + 1;
    }
    proof {
        assert(members@.take(members@.len() as int) =~= members@);
    }
    None
}

/// A builder that is picked can build, and no earlier member can.
pub proof fn the_first_capable_peer_is_picked(
    members: Seq<NodeMembershipInfo>,
    reports: Map<Seq<char>, StateReport>,
    self_name: Option<Seq<char>>,
)
    ensures
        ({
            let picked = first_builder(members, reports, self_name);
            &&& picked is Some ==> 0 <= picked->0 < members.len() && can_build(
                members[picked->0],
                reports,
                self_name,
            ) && forall|i: int|
                0 <= i < picked->0 ==> !can_build(#[trigger] members[i], reports, self_name)
            &&& picked is None ==> forall|i: int|
                0 <= i < members.len() ==> !can_build(#[trigger] members[i], reports, self_name)
        }),
    decreases members.len(),
{
    if members.len() > 0 {
        let rest = members.drop_last();
        the_first_capable_peer_is_picked(rest, reports, self_name);
        assert forall|i: int| 0 <= i < rest.len() implies rest[i] == #[trigger] members[i] by {}
        let picked = first_builder(members, reports, self_name);
        if picked is Some {
            assert forall|i: int| 0 <= i < picked->0 implies !can_build(
                #[trigger] members[i],
                reports,
                self_name,
            ) by {
                assert(!can_build(rest[i], reports, self_name));
            }
        } else {
            assert forall|i: int| 0 <= i < members.len() implies !can_build(
                #[trigger] members[i],
                reports,
                self_name,
            ) by {
                if i < rest.len() {
                    assert(!can_build(rest[i], reports, self_name));
                }
            }
        }
    }
}

/// What came of fetching a build's context.
#[derive(Debug)]
pub enum ContextFetch {
    /// It was read.
    Read,
    /// The registry has it, but reading broke off.
    ReadFailed(String),
    /// The registry does not have it.
    Missing,
}

/// What came of a stage of the builder.
#[derive(Debug)]
pub enum StageOutput {
    /// It succeeded, or there was nothing to run.
    Success,
    /// It failed; its error output.
    Exited(String),
    /// It could not be started.
    NotStarted(String),
    /// It took too long.
    TimedOut,
}

/// What a build has come to.
#[derive(Debug)]
pub enum BuildProgress {
    /// The specification was read, or refused.
    Planned(Result<(), String>),
    /// The context was asked for.
    Fetched(ContextFetch),
    /// The context was unpacked, or not.
    Extracted(bool),
    /// The builder ran.
    Built(StageOutput),
    /// The push ran.
    Pushed(StageOutput),
    /// Signing was tried; a failure does not matter.
    Signed,
}

/// What a build does next.
#[derive(Debug)]
pub enum BuildStep {
    /// Fetch the context.
    FetchContext,
    /// Unpack the context.
    Extract,
    /// Run the builder.
    Build,
    /// Push the image.
    Push,
    /// Sign the pushed image.
    Sign,
    /// Record the final state.
    Finish(BuildState),
}

/// The lines of a text. A line ends with a line feed, which a carriage return
/// may precede; the last line need not end.
pub open spec fn lines_of(text: Seq<char>) -> Seq<Seq<char>> {
    let all = pieces(text, '\n');
    let ended = Seq::new(
        (all.len() - 1) as nat,
        |i: int| without_return(all[i]),
    );
    if all.last().len() == 0 {
        ended
    } else {
        ended.push(all.last())
    }
}

/// A line without the carriage return it ends with.
pub open spec fn without_return(line: Seq<char>) -> Seq<char> {
    if line.len() > 0 && line.last() == '\r' {
        line.drop_last()
    } else {
        line
    }
}

/// The last lines of a text, the very last first, joined by line feeds.
pub open spec fn last_lines(text: Seq<char>, count: int) -> Seq<char> {
    let back = lines_of(text).reverse();
    joined(
        if back.len() <= count {
            back
        } else {
            back.take(count)
        },
        "\n"@,
    )
}

fn collect_lines(text: &str) -> (r: Vec<String>)
    ensures
        strings(r@) == lines_of(text@),
{
    let all = split_on(&to_chars(text), '\n');
    let ghost parts = texts(all@);
    let mut out: Vec<String> = Vec::new();
    let last: usize = all.len() - 1;
    let mut i: usize = 0;
    while i < last
        invariant
            i <= last,
            last == all@.len() - 1,
            parts == texts(all@),
            out@.len() == i,
            forall|j: int|
                0 <= j < i ==> (#[trigger] out@[j])@ == without_return(parts[j]),
        decreases last - i,
    {
        let line = &all[i];
        proof {
            assert(parts[i as int] == line@);
        }
        let n: usize = line.len();
        let kept = if n > 0 && line[n - 1] == '\r' {
            slice_of(line, 0, n - 1)
        } else {
            slice_of(line, 0, n)
        };
        proof {
            assert(kept@ =~= without_return(line@));
        }
        out.push(from_chars(&kept));
        i = i + 1;
    }
    let ghost ended = out@;
    proof {
        assert(parts.last() == all@[last as int]@);
        assert(strings(ended) =~= Seq::new(
            (parts.len() - 1) as nat,
            |i: int| without_return(parts[i]),
        ));
    }
    if all[last].len() > 0 {
        out.push(from_chars(&all[last]));
        proof {
            assert(strings(out@) =~= strings(ended).push(parts.last()));
        }
    }
    out
}

fn tail_of(text: &str, count: usize) -> (r: String)
    ensures
        r@ == last_lines(text@, count as int),
{
    let lines = collect_lines(text);
    let ghost back = lines_of(text@).reverse();
    let mut out: Vec<String> = Vec::new();
    let mut i: usize = 0;
    while i < lines.len() && i < count
        invariant
            i <= lines.len(),
            i <= count,
            strings(lines@) == lines_of(text@),
            back == lines_of(text@).reverse(),
            out@.len() == i,
            forall|j: int| 0 <= j < i ==> (#[trigger] out@[j])@ == back[j],
        decreases lines.len() - i,
    {
        let at: usize = lines.len() - 1 - i;
        proof {
            assert(strings(lines@)[at as int] == lines@[at as int]@);
            assert(back[i as int] == lines_of(text@)[at as int]);
        }
        out.push(lines[at].clone());
        i = i + 1;
    }
    proof {
        assert(strings(lines@).len() == lines@.len());
        let want = if back.len() <= count {
            back
        } else {
            back.take(count as int)
        };
        assert(strings(out@) =~= want);
    }
    join(&out, "\n")
}

/// Lines of error output that a failure keeps.
pub const KEPT_ERROR_LINES: usize = 10;

/// Why a stage of the builder failed, if it did.
pub open spec fn stage_failure(
    label: Seq<char>,
    output: StageOutput,
    timeout_secs: u64,
) -> Option<Seq<char>> {
    match output {
        StageOutput::Success => None,
        StageOutput::Exited(stderr) => Some(
            "buildah "@ + label + " failed: "@ + last_lines(
                stderr@,
                KEPT_ERROR_LINES as int,
            ),
        ),
        StageOutput::NotStarted(error) => Some(
            "failed to run buildah "@ + label + ": "@ + error@,
        ),
        StageOutput::TimedOut => Some(
            "buildah "@ + label + " exceeded build_timeout_secs ("@ + decimal_text(
                timeout_secs as nat,
            ) + "s)"@,
        ),
    }
}

fn find_stage_failure(label: &str, output: StageOutput, timeout_secs: u64) -> (r: Option<String>)
    ensures
        (match r {
            Some(reason) => Some(reason@),
            None => None,
        }) == stage_failure(label@, output, timeout_secs),
{
    match output {
        StageOutput::Success => None,
        StageOutput::Exited(stderr) => {
            let mut reason: String = "buildah ".to_owned();
            reason.append(label);
            reason.append(" failed: ");
            reason.append(tail_of(stderr.as_str(), KEPT_ERROR_LINES).as_str());
            Some(reason)
        },
        StageOutput::NotStarted(error) => {
            let mut reason: String = "failed to run buildah ".to_owned();
            reason.append(label);
            reason.append(": ");
            reason.append(error.as_str());
            Some(reason)
        },
        StageOutput::TimedOut => {
            let mut reason: String = "buildah ".to_owned();
            reason.append(label);
            reason.append(" exceeded build_timeout_secs (");
            reason.append(decimal(timeout_secs).as_str());
            reason.append("s)");
            Some(reason)
        },
    }
}

/// Why a build failed at what it has come to, if it did.
pub open spec fn build_failure(
    progress: BuildProgress,
    context_digest: Seq<char>,
    timeout_secs: u64,
) -> Option<Seq<char>> {
    match progress {
        BuildProgress::Planned(Err(error)) => Some("invalid build spec: "@ + error@),
        BuildProgress::Fetched(ContextFetch::ReadFailed(error)) => Some(
            "context read failed: "@ + error@,
        ),
        BuildProgress::Fetched(ContextFetch::Missing) => Some(
            "context blob "@ + context_digest + " not found in the registry"@,
        ),
        BuildProgress::Extracted(false) => Some("failed to extract build context"@),
        BuildProgress::Built(output) => stage_failure("build"@, output, timeout_secs),
        BuildProgress::Pushed(output) => stage_failure("push"@, output, timeout_secs),
        _ => None,
    }
}

/// Whether a step is the next one of a build: the stages come in their order,
/// the first failure ends the build, and signing completes it.
pub open spec fn is_next_step(
    step: BuildStep,
    progress: BuildProgress,
    context_digest: Seq<char>,
    image_name: Seq<char>,
    image_tag: Seq<char>,
    timeout_secs: u64,
) -> bool {
    match build_failure(progress, context_digest, timeout_secs) {
        Some(why) => step matches BuildStep::Finish(BuildState::Failed { reason }) && reason@
            == why,
        None => match progress {
            BuildProgress::Planned(_) => step is FetchContext,
            BuildProgress::Fetched(_) => step is Extract,
            BuildProgress::Extracted(_) => step is Build,
            BuildProgress::Built(_) => step is Push,
            BuildProgress::Pushed(_) => step is Sign,
            BuildProgress::Signed => step matches BuildStep::Finish(
                BuildState::Completed { image },
            ) && image@ == image_name + ":"@ + image_tag,
        },
    }
}

/// Decide what a build does next: fetch the context, unpack it, build, push,
/// sign and record the image, or record why a stage failed.
pub fn run_build(
    progress: BuildProgress,
    context_digest: &str,
    image_name: &str,
    image_tag: &str,
    timeout_secs: u64,
) -> (r: BuildStep)
    ensures
        is_next_step(
            r,
            progress,
            context_digest@,
            image_name@,
            image_tag@,
            timeout_secs,
        ),
{
    match progress {
        BuildProgress::Planned(Ok(())) => BuildStep::FetchContext,
        BuildProgress::Planned(Err(error)) => {
            let mut reason: String = "invalid build spec: ".to_owned();
            reason.append(error.as_str());
            BuildStep::Finish(BuildState::Failed { reason })
        },
        BuildProgress::Fetched(ContextFetch::Read) => BuildStep::Extract,
        BuildProgress::Fetched(ContextFetch::ReadFailed(error)) => {
            let mut reason: String = "context read failed: ".to_owned();
            reason.append(error.as_str());
            BuildStep::Finish(BuildState::Failed { reason })
        },
        BuildProgress::Fetched(ContextFetch::Missing) => {
            let mut reason: String = "context blob ".to_owned();
            reason.append(context_digest);
            reason.append(" not found in the registry");
            BuildStep::Finish(BuildState::Failed { reason })
        },
        BuildProgress::Extracted(true) => BuildStep::Build,
        BuildProgress::Extracted(false) => BuildStep::Finish(
            BuildState::Failed { reason: "failed to extract build context".to_owned() },
        ),
        BuildProgress::Built(output) => match find_stage_failure("build", output, timeout_secs) {
            Some(reason) => BuildStep::Finish(BuildState::Failed { reason }),
            None => BuildStep::Push,
        },
        BuildProgress::Pushed(output) => match find_stage_failure("push", output, timeout_secs) {
            Some(reason) => BuildStep::Finish(BuildState::Failed { reason }),
            None => BuildStep::Sign,
        },
        BuildProgress::Signed => {
            let mut image: String = image_name.to_owned();
            image.append(":");
            image.append(image_tag);
            BuildStep::Finish(BuildState::Completed { image })
        },
    }
}

/// The directory name of a build's context: its digest, with hyphens for
/// colons.
pub open spec fn context_directory(digest: Seq<char>) -> Seq<char> {
    digest.map_values(|c: char| if c == ':' { '-' } else { c })
}

/// Name the directory of a build's context.
pub fn context_directory_name(digest: &str) -> (r: String)
    ensures
        r@ == context_directory(digest@),
{
    let chars = to_chars(digest);
    let mut out: Vec<char> = Vec::new();
    let mut i: usize = 0;
    while i < chars.len()
        invariant
            i <= chars.len(),
            chars@ == digest@,
            out@.len() == i,
            forall|j: int| 0 <= j < i ==> out@[j] == context_directory(digest@)[j],
        decreases chars.len() - i,
    {
        let c: char = chars[i];
        out.push(
            if c == ':' {
                '-'
            } else {
                c
            },
        );
        i = i + 1;
    }
    proof {
        assert(out@ =~= context_directory(digest@));
    }
    from_chars(&out)
}

/// Where a submitted build goes.
#[derive(Debug)]
pub enum BuildRoute {
    /// It is built here.
    Local,
    /// It is delegated to the peer at this URL.
    Peer(String),
}

/// Decide where a submitted build goes: here if this node can build, else to
/// the peer that was found, if one was.
pub fn build_submit_route(local_builder: bool, peer: Option<String>) -> (r: Result<
    BuildRoute,
    Refusal,
>)
    ensures
        local_builder ==> (r matches Ok(BuildRoute::Local)),
        !local_builder && peer is Some ==> (r matches Ok(BuildRoute::Peer(url)) && url == peer->0),
        !local_builder && peer is None ==> refused(r, Status::ServiceUnavailable,
            "no builder available: buildah is not on this node's PATH and no peer reports the capability"@,
        ),
{
    if local_builder {
        return Ok(BuildRoute::Local);
    }
    match peer {
        Some(url) => Ok(BuildRoute::Peer(url)),
        None => Err(
            refuse(
                Status::ServiceUnavailable,
                "no builder available: buildah is not on this node's PATH and no peer reports the capability",
            ),
        ),
    }
}

/// Take on a local build and give out its identifier, unless its context
/// digest is malformed, of which `digest` says why.
pub fn accept_build(registry: &mut BuildRegistry, digest: Result<(), String>) -> (r: Result<
    u64,
    Refusal,
>)
    requires
        old(registry).last_id() < u64::MAX,
    ensures
        match digest {
            Ok(()) => {
                &&& r == Ok::<u64, Refusal>((old(registry).last_id() + 1) as u64)
                &&& final(registry).last_id() == old(registry).last_id() + 1
                &&& final(registry).builds() == old(registry).builds().insert(
                    (old(registry).last_id() + 1) as u64,
                    BuildState::Running,
                )
            },
            Err(error) => {
                &&& refused(r, Status::BadRequest, "invalid context digest: "@ + error@)
                &&& *final(registry) == *old(registry)
            },
        },
{
    match digest {
        Ok(()) => Ok(registry.register(BuildState::Running)),
        Err(error) => Err(
            refuse_because(Status::BadRequest, "invalid context digest: ", error.as_str()),
        ),
    }
}

/// Take on a build that a peer delegated. A malformed digest is refused before
/// anything else, and a node that cannot build refuses.
pub fn build_run(
    registry: &mut BuildRegistry,
    digest: Result<(), String>,
    local_builder: bool,
) -> (r: Result<u64, Refusal>)
    requires
        old(registry).last_id() < u64::MAX,
    ensures
        match digest {
            Err(error) => {
                &&& refused(r, Status::BadRequest, "invalid context digest: "@ + error@)
                &&& *final(registry) == *old(registry)
            },
            Ok(()) => if !local_builder {
                &&& refused(r, Status::ServiceUnavailable,
                    "buildah is not on this node's PATH"@,
                )
                &&& *final(registry) == *old(registry)
            } else {
                &&& r == Ok::<u64, Refusal>((old(registry).last_id() + 1) as u64)
                &&& final(registry).last_id() == old(registry).last_id() + 1
                &&& final(registry).builds() == old(registry).builds().insert(
                    (old(registry).last_id() + 1) as u64,
                    BuildState::Running,
                )
            },
        },
{
    match digest {
        Err(error) => Err(
            refuse_because(Status::BadRequest, "invalid context digest: ", error.as_str()),
        ),
        Ok(()) => {
            if !local_builder {
                return Err(
                    refuse(Status::ServiceUnavailable, "buildah is not on this node's PATH"),
                );
            }
            accept_build(registry, Ok(()))
        },
    }
}

/// What a peer builder answered.
#[derive(Debug)]
pub enum BuilderAnswer {
    /// It could not be reached.
    Unreachable(String),
    /// Its answer could not be read.
    Unreadable(String),
    /// Its answer names no build.
    Rejected(String),
    /// It took the build on under this identifier.
    Accepted(u64),
}

/// Track a delegated build here once the peer took it on, so that its client
/// asks one node.
pub fn track_delegated(
    registry: &mut BuildRegistry,
    peer_url: String,
    answer: BuilderAnswer,
) -> (r: Result<u64, Refusal>)
    requires
        old(registry).last_id() < u64::MAX,
    ensures
        match answer {
            BuilderAnswer::Unreachable(error) => refused(r, Status::BadGateway,
                "builder dispatch failed: "@ + error@,
            ),
            BuilderAnswer::Unreadable(error) => refused(r, Status::BadGateway,
                "builder response: "@ + error@,
            ),
            BuilderAnswer::Rejected(remote) => refused(r, Status::BadGateway,
                "builder rejected the build: "@ + remote@,
            ),
            BuilderAnswer::Accepted(remote_id) => {
                &&& r == Ok::<u64, Refusal>((old(registry).last_id() + 1) as u64)
                &&& final(registry).last_id() == old(registry).last_id() + 1
                &&& final(registry).builds() == old(registry).builds().insert(
                    (old(registry).last_id() + 1) as u64,
                    BuildState::Delegated { url: peer_url, remote_id },
                )
            },
        },
        !(answer is Accepted) ==> *final(registry) == *old(registry),
{
    match answer {
        BuilderAnswer::Unreachable(error) => Err(
            refuse_because(Status::BadGateway, "builder dispatch failed: ", error.as_str()),
        ),
        BuilderAnswer::Unreadable(error) => Err(
            refuse_because(Status::BadGateway, "builder response: ", error.as_str()),
        ),
        BuilderAnswer::Rejected(remote) => Err(
            refuse_because(Status::BadGateway, "builder rejected the build: ", remote.as_str()),
        ),
        BuilderAnswer::Accepted(remote_id) => Ok(
            registry.register(BuildState::Delegated { url: peer_url, remote_id }),
        ),
    }
}

/// Where the state of a build is read.
#[derive(Debug)]
pub enum BuildStatus {
    /// Here.
    Shown(BuildState),
    /// At the peer, under this URL.
    Proxied(String),
}

/// Find the state of a build: a delegated build is asked of its peer.
pub fn build_status(registry: &BuildRegistry, build_id: u64) -> (r: Result<BuildStatus, Refusal>)
    ensures
        if !registry.builds().dom().contains(build_id) {
            refused(r, Status::NotFound,
                "build "@ + decimal_text(build_id as nat) + " not found"@,
            )
        } else {
            match registry.builds()[build_id] {
                BuildState::Delegated { url, remote_id } => r matches Ok(
                    BuildStatus::Proxied(at),
                ) && at@ == url@ + "/v1/build/"@ + decimal_text(remote_id as nat),
                state => r matches Ok(BuildStatus::Shown(shown)) && shown == state,
            }
        },
{
    match registry.get(build_id) {
        Some(BuildState::Delegated { url, remote_id }) => {
            let mut at: String = url;
            at.append(with_number("/v1/build/", remote_id).as_str());
            proof {
                assert(at@ =~= url@ + "/v1/build/"@ + decimal_text(remote_id as nat));
            }
            Ok(BuildStatus::Proxied(at))
        },
        Some(state) => Ok(BuildStatus::Shown(state)),
        None => Err(
            Refusal { status: Status::NotFound, error: numbered("build ", build_id, " not found") },
        ),
    }
}

/// A context directory's name has no path separator, unless the digest has
/// one.
pub proof fn context_directory_adds_no_separator(digest: Seq<char>, i: int)
    requires
        0 <= i < digest.len(),
        digest[i] != '/',
    ensures
        context_directory(digest)[i] != '/',
        context_directory(digest)[i] != ':',
{
}

} // verus!
