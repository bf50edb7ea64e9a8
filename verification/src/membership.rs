//! Live membership and council voters.

use vstd::prelude::*;
use vstd::set_lib::*;

use crate::text::same_text;

verus! {

/// A live member of the cluster.
#[derive(Debug)]
pub struct NodeMembershipInfo {
    /// Name of the node.
    pub node_id: String,
    /// Address of the node's API.
    pub address: String,
    /// Identity of the node as a council voter.
    pub raft_id: u64,
}

impl Clone for NodeMembershipInfo {
    fn clone(&self) -> (r: Self)
        ensures
            r == *self,
    {
        NodeMembershipInfo {
            node_id: self.node_id.clone(),
            address: self.address.clone(),
            raft_id: self.raft_id,
        }
    }
}

/// What the council knows of itself.
#[derive(Debug)]
pub struct CouncilView {
    /// The voters. One that is named twice counts once.
    pub voters: Vec<u64>,
    /// The leader, if one is known.
    pub leader: Option<u64>,
}

/// Whether a node is among the members.
pub open spec fn is_member(members: Seq<NodeMembershipInfo>, node_id: Seq<char>) -> bool {
    exists|i: int| 0 <= i < members.len() && (#[trigger] members[i]).node_id@ == node_id
}

/// The position of the first member with a name, if there is one.
pub open spec fn member_position(
    members: Seq<NodeMembershipInfo>,
    node_id: Seq<char>,
) -> Option<int>
    decreases members.len(),
{
    if members.len() == 0 {
        None
    } else {
        match member_position(members.drop_last(), node_id) {
            Some(at) => Some(at),
            None => if members.last().node_id@ == node_id {
                Some(members.len() - 1)
            } else {
                None
            },
        }
    }
}

/// A membership as a list, if there is one.
pub open spec fn member_list(
    members: Option<&Vec<NodeMembershipInfo>>,
) -> Option<Seq<NodeMembershipInfo>> {
    match members {
        Some(list) => Some(list@),
        None => None,
    }
}

/// A count as a report carries it: its low thirty-two bits.
pub open spec fn carried(count: nat) -> u32 {
    (count % 0x1_0000_0000) as u32
}

/// Cut a count to what a report carries.
pub fn carry(count: usize) -> (r: u32)
    ensures
        r == carried(count as nat),
        count <= u32::MAX ==> r == count,
{
    (count as u64 % 0x1_0000_0000) as u32
}

/// Find the first member with a name.
pub fn find_member(members: &Vec<NodeMembershipInfo>, node_id: &str) -> (r: Option<usize>)
    ensures
        (match r {
            Some(at) => Some(at as int),
            None => None,
        }) == member_position(members@, node_id@),
        r is Some ==> r->0 < members@.len() && members@[r->0 as int].node_id@ == node_id@,
        r is Some <==> is_member(members@, node_id@),
{
    let mut i: usize = 0;
    proof {
        assert(members@.take(0) =~= Seq::<NodeMembershipInfo>::empty());
    }
    while i < members.len()
        invariant
            i <= members.len(),
            member_position(members@.take(i as int), node_id@) is None,
            forall|j: int| 0 <= j < i ==> (#[trigger] members@[j]).node_id@ != node_id@,
        decreases members.len() - i,
    {
        proof {
            assert(members@.take(i as int + 1).drop_last() =~= members@.take(i as int));
            assert(members@.take(i as int + 1).last() == members@[i as int]);
        }
        if same_text(members[i].node_id.as_str(), node_id) {
            proof {
                first_position_stays(members@, node_id@, i as int + 1);
            }
            return Some(i);
        }
        i = i + 1;
    }
    proof {
        assert(members@.take(members@.len() as int) =~= members@);
    }
    None
}

proof fn first_position_stays(members: Seq<NodeMembershipInfo>, node_id: Seq<char>, i: int)
    requires
        0 <= i <= members.len(),
        member_position(members.take(i), node_id) is Some,
    ensures
        member_position(members, node_id) == member_position(members.take(i), node_id),
    decreases members.len() - i,
{
    if i < members.len() {
        assert(members.take(i + 1).drop_last() =~= members.take(i));
        first_position_stays(members, node_id, i + 1);
    } else {
        assert(members.take(i) =~= members);
    }
}

/// How many nodes a membership shows, counting the node itself.
pub open spec fn counted_members(members: Seq<NodeMembershipInfo>, self_id: Seq<char>) -> nat {
    if is_member(members, self_id) {
        members.len()
    } else {
        members.len() + 1
    }
}

/// Count the nodes of a membership and the node itself, up to the largest
/// number that fits.
pub fn count_members(members: &Vec<NodeMembershipInfo>, self_id: &str) -> (r: u32)
    ensures
        r == if counted_members(members@, self_id@) > u32::MAX {
            u32::MAX as nat
        } else {
            counted_members(members@, self_id@)
        },
{
    let listed: bool = find_member(members, self_id).is_some();
    let count: u64 = members.len() as u64;
    if listed {
        if count > u32::MAX as u64 {
            u32::MAX
        } else {
            count as u32
        }
    } else if count >= u32::MAX as u64 {
        u32::MAX
    } else {
        (count + 1) as u32
    }
}

/// The voter identities of the members.
pub open spec fn voter_ids(members: Seq<NodeMembershipInfo>) -> Set<u64> {
    members.map_values(|m: NodeMembershipInfo| m.raft_id).to_set()
}

/// Whether a voter identity is one of a member.
pub fn is_live_voter(members: &Vec<NodeMembershipInfo>, id: u64) -> (r: bool)
    ensures
        r == voter_ids(members@).contains(id),
{
    let ghost ids = members@.map_values(|m: NodeMembershipInfo| m.raft_id);
    let mut i: usize = 0;
    while i < members.len()
        invariant
            i <= members.len(),
            ids == members@.map_values(|m: NodeMembershipInfo| m.raft_id),
            forall|j: int| 0 <= j < i ==> ids[j] != id,
        decreases members.len() - i,
    {
        if members[i].raft_id == id {
            proof {
                assert(ids[i as int] == id);
            }
            return true;
        }
        i = i + 1;
    }
    false
}

/// Whether an identity is a voter's.
pub fn is_voter(voters: &Vec<u64>, id: u64) -> (r: bool)
    ensures
        r == voters@.contains(id),
{
    let mut i: usize = 0;
    while i < voters.len()
        invariant
            i <= voters.len(),
            forall|j: int| 0 <= j < i ==> voters@[j] != id,
        decreases voters.len() - i,
    {
        if voters[i] == id {
            return true;
        }
        i = i + 1;
    }
    false
}

/// Whether a council with a known leader has more than half of its voters
/// among the live nodes.
pub open spec fn live_quorum(voters: Set<u64>, leader: Option<u64>, live: Set<u64>) -> bool {
    voters.len() > 0 && leader is Some && voters.intersect(live).len() > voters.len() / 2
}

/// A count of the voters of a council.
struct Tally {
    /// All of them.
    all: usize,
    /// Those that are live.
    live: usize,
    /// Those that are not.
    missing: usize,
}

spec fn is_tally(tally: Tally, voters: Set<u64>, live: Set<u64>) -> bool {
    &&& tally.all == voters.len()
    &&& tally.live == voters.intersect(live).len()
    &&& tally.missing == voters.difference(live).len()
}

proof fn one_voter_more(voters: Seq<u64>, i: int, live: Set<u64>)
    requires
        0 <= i < voters.len(),
    ensures
        voters.take(i).to_set().finite(),
        voters.take(i + 1).to_set() == voters.take(i).to_set().insert(voters[i]),
        voters.take(i).contains(voters[i]) ==> voters.take(i + 1).to_set() == voters.take(
            i,
        ).to_set(),
        ({
            let before = voters.take(i).to_set();
            let after = voters.take(i + 1).to_set();
            let seen = voters.take(i).contains(voters[i]);
            let alive = live.contains(voters[i]);
            &&& !seen ==> after.len() == before.len() + 1
            &&& !seen && alive ==> after.intersect(live).len() == before.intersect(live).len() + 1
                && after.difference(live) == before.difference(live)
            &&& !seen && !alive ==> after.difference(live).len() == before.difference(live).len()
                + 1 && after.intersect(live) == before.intersect(live)
        }),
{
    broadcast use vstd::seq_lib::seq_to_set_is_finite;

    let earlier = voters.take(i);
    let now = voters.take(i + 1);
    let before = earlier.to_set();
    let after = now.to_set();
    let id = voters[i];
    assert(now =~= earlier.push(id));
    assert(after =~= before.insert(id)) by {
        assert forall|x: u64| after.contains(x) implies before.insert(id).contains(x) by {
            let k = choose|k: int| 0 <= k < now.len() && now[k] == x;
            if k < i {
                assert(earlier[k] == x);
            }
        }
        assert forall|x: u64| before.insert(id).contains(x) implies after.contains(x) by {
            if x == id {
                assert(now[i] == id);
            } else {
                let k = choose|k: int| 0 <= k < earlier.len() && earlier[k] == x;
                assert(now[k] == x);
            }
        }
    }
    if earlier.contains(id) {
        assert(before.insert(id) =~= before);
    } else {
        assert(!before.contains(id));
        if live.contains(id) {
            assert(after.intersect(live) =~= before.intersect(live).insert(id));
            assert(after.difference(live) =~= before.difference(live));
        } else {
            assert(after.difference(live) =~= before.difference(live).insert(id));
            assert(after.intersect(live) =~= before.intersect(live));
        }
    }
}

/// Whether an identity is among the first voters.
fn is_earlier_voter(voters: &Vec<u64>, count: usize, id: u64) -> (r: bool)
    requires
        count <= voters@.len(),
    ensures
        r == voters@.take(count as int).contains(id),
{
    let ghost earlier = voters@.take(count as int);
    let mut i: usize = 0;
    while i < count
        invariant
            i <= count <= voters@.len(),
            earlier == voters@.take(count as int),
            forall|j: int| 0 <= j < i ==> earlier[j] != id,
        decreases count - i,
    {
        if voters[i] == id {
            proof {
                assert(earlier[i as int] == id);
            }
            return true;
        }
        i = i + 1;
    }
    false
}

/// The identities of the live nodes: those of the members, and the node's own
/// if it counts itself.
pub open spec fn live_ids(members: Seq<NodeMembershipInfo>, own: Option<u64>) -> Set<u64> {
    match own {
        Some(id) => voter_ids(members).insert(id),
        None => voter_ids(members),
    }
}

/// Count voters, each once.
fn tally_voters(voters: &Vec<u64>, members: &Vec<NodeMembershipInfo>, own: Option<u64>) -> (r:
    Tally)
    ensures
        is_tally(r, voters@.to_set(), live_ids(members@, own)),
        r.live <= r.all,
        r.all > 0 <==> voters@.len() > 0,
{
    let ghost live = live_ids(members@, own);
    let mut tally = Tally { all: 0, live: 0, missing: 0 };
    let mut i: usize = 0;
    proof {
        assert(voters@.take(0).to_set() =~= Set::<u64>::empty());
        assert(Set::<u64>::empty().intersect(live) =~= Set::<u64>::empty());
        assert(Set::<u64>::empty().difference(live) =~= Set::<u64>::empty());
    }
    while i < voters.len()
        invariant
            i <= voters.len(),
            live == live_ids(members@, own),
            tally.all <= i,
            tally.live + tally.missing == tally.all,
            i > 0 ==> tally.all > 0,
            is_tally(tally, voters@.take(i as int).to_set(), live),
        decreases voters.len() - i,
    {
        let id: u64 = voters[i];
        proof {
            one_voter_more(voters@, i as int, live);
        }
        let known: bool = is_earlier_voter(voters, i, id);
        proof {
            if known {
                assert(i > 0);
            }
        }
        if !known {
            tally.all = tally.all + 1;
            if own == Some(id) || is_live_voter(members, id) {
                tally.live = tally.live + 1;
            } else {
                tally.missing = tally.missing + 1;
            }
        }
        i = i + 1;
    }
    proof {
        assert(voters@.take(voters@.len() as int) =~= voters@);
    }
    tally
}

/// Decide whether the council has a live quorum, the node itself being live.
pub fn council_has_live_quorum(
    council: &CouncilView,
    members: &Vec<NodeMembershipInfo>,
    self_raft_id: u64,
) -> (r: bool)
    ensures
        r == live_quorum(
            council.voters@.to_set(),
            council.leader,
            voter_ids(members@).insert(self_raft_id),
        ),
{
    let tally = tally_voters(&council.voters, members, Some(self_raft_id));
    tally.all > 0 && council.leader.is_some() && tally.live > tally.all / 2
}

/// Count the voters of a council, each once.
pub fn count_voters(council: &CouncilView) -> (r: usize)
    ensures
        r == council.voters@.to_set().len(),
        r > 0 <==> council.voters@.len() > 0,
{
    tally_voters(&council.voters, &Vec::new(), None).all
}

/// Count the voters that no live member accounts for.
pub fn count_unavailable_voters(
    council: &CouncilView,
    members: &Vec<NodeMembershipInfo>,
) -> (r: usize)
    ensures
        r == council.voters@.to_set().difference(voter_ids(members@)).len(),
{
    tally_voters(&council.voters, members, None).missing
}

/// Two groups of live nodes that share none cannot both hold a quorum.
pub proof fn disjoint_groups_do_not_both_have_quorum(
    voters: Set<u64>,
    leader: Option<u64>,
    a: Set<u64>,
    b: Set<u64>,
)
    requires
        voters.finite(),
        a.disjoint(b),
    ensures
        !(live_quorum(voters, leader, a) && live_quorum(voters, leader, b)),
{
    let x = voters.intersect(a);
    let y = voters.intersect(b);
    lemma_len_subset(x, voters);
    lemma_len_subset(y, voters);
    lemma_set_disjoint_lens(x, y);
    assert(x.disjoint(y));
    lemma_len_subset(x + y, voters);
}

/// A node that joins the live nodes never takes a quorum away.
pub proof fn more_live_nodes_keep_quorum(
    voters: Set<u64>,
    leader: Option<u64>,
    live: Set<u64>,
    more: Set<u64>,
)
    requires
        voters.finite(),
        live.subset_of(more),
        live_quorum(voters, leader, live),
    ensures
        live_quorum(voters, leader, more),
{
    lemma_len_subset(voters.intersect(more), voters);
    lemma_len_subset(voters.intersect(live), voters.intersect(more));
}

/// To name a voter twice changes neither the quorum nor the count.
pub proof fn repeated_voters_count_once(voters: Seq<u64>, i: int)
    requires
        0 <= i < voters.len(),
    ensures
        voters.push(voters[i]).to_set() == voters.to_set(),
{
    let more = voters.push(voters[i]);
    assert forall|x: u64| more.to_set().contains(x) implies voters.to_set().contains(x) by {
        let k = choose|k: int| 0 <= k < more.len() && more[k] == x;
        if k < voters.len() {
            assert(voters[k] == x);
        } else {
            assert(voters[i] == x);
        }
    }
    assert forall|x: u64| voters.to_set().contains(x) implies more.to_set().contains(x) by {
        let k = choose|k: int| 0 <= k < voters.len() && voters[k] == x;
        assert(more[k] == x);
    }
    assert(more.to_set() =~= voters.to_set());
}

} // verus!
