//! The majority threshold over a membership.

use vstd::prelude::*;

verus! {

/// The least number of members that is more than half of `members`.
pub open spec fn quorum(members: nat) -> nat {
    members / 2 + 1
}

/// Any two quorums of one membership share a member: together they count
/// more than the membership has.
pub proof fn lemma_quorums_intersect(members: nat)
    ensures
        quorum(members) + quorum(members) > members,
        members > 0 ==> quorum(members) <= members,
{
}

/// The majority threshold over `members` members.
pub fn quorum_size(members: usize) -> (q: usize)
    ensures
        q == quorum(members as nat),
        q >= 1,
{
    members / 2 + 1
}

} // verus!
