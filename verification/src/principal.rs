//! The work of the principal: requests for updates become proposals, and
//! roles are assigned to nodes.

use crate::consensus::ConsensusProposal;
use crate::validation::{uuid_value, Validator};
use vstd::prelude::*;

verus! {

/// A role given to a node.
#[derive(Debug, PartialEq, Eq)]
pub struct RoleAssignment {
    pub node_id: String,
    pub role: String,
}

/// A request to update what the cluster agrees on.
#[derive(Debug, PartialEq, Eq)]
pub struct UpdateRequest {
    pub update_id: String,
    pub content: String,
}

impl Clone for UpdateRequest {
    fn clone(&self) -> (r: Self)
        ensures
            r == *self,
    {
        UpdateRequest { update_id: self.update_id.clone(), content: self.content.clone() }
    }
}

/// Why an update request was not turned into a proposal.
#[derive(Debug, Clone, Copy, PartialEq, Eq, Structural)]
pub enum UpdateError {
    /// The id of the update is no UUID.
    InvalidUpdateId,
}

/// The assignment of `role` to node `node_id`, to be published.
pub fn assign_role(node_id: &str, role: &str) -> (r: RoleAssignment)
    ensures
        r.node_id@ == node_id@,
        r.role@ == role@,
{
    RoleAssignment { node_id: node_id.to_owned(), role: role.to_owned() }
}

/// The proposal that an update request stands for, raised by
/// `proposer_id` in `term`: its id is the update's, its content the
/// update's content. There is none where the id is no UUID.
pub open spec fn proposal_of(update: UpdateRequest, proposer_id: u128, term: u64) -> Result<
    ConsensusProposal,
    UpdateError,
> {
    match uuid_value(update.update_id@) {
        Some(id) => Ok(
            ConsensusProposal { proposal_id: id, content: update.content, proposer_id, term },
        ),
        None => Err(UpdateError::InvalidUpdateId),
    }
}

/// The proposal that an update request stands for, raised by
/// `proposer_id` in `term`.
pub fn process_update_request(update: UpdateRequest, proposer_id: u128, term: u64) -> (r: Result<
    ConsensusProposal,
    UpdateError,
>)
    ensures
        r == proposal_of(update, proposer_id, term),
{
    match Validator::validate_uuid(update.update_id.as_str()) {
        Ok(id) => Ok(
            ConsensusProposal { proposal_id: id, content: update.content, proposer_id, term },
        ),
        Err(_) => Err(UpdateError::InvalidUpdateId),
    }
}

/// Takes a batch of deliveries from the update queue, in order: each is
/// an update request, or nothing where the delivery could not be read.
/// Returns, for each delivery up to the first that could not be read, the
/// proposal to raise or why there is none: there the principal stops, and
/// what follows is left on the queue.
pub fn run(deliveries: &Vec<Option<UpdateRequest>>, proposer_id: u128, term: u64) -> (out: Vec<
    Result<ConsensusProposal, UpdateError>,
>)
    ensures
        out@.len() <= deliveries@.len(),
        out@.len() == deliveries@.len() || deliveries@[out@.len() as int] is None,
        forall|i: int|
            0 <= i < out@.len() ==> ((#[trigger] deliveries@[i]) matches Some(update) && out@[i]
                == proposal_of(update, proposer_id, term)),
{
    let mut out: Vec<Result<ConsensusProposal, UpdateError>> = Vec::new();
    let mut i: usize = 0;
    while i < deliveries.len()
        invariant
            i <= deliveries@.len(),
            out@.len() == i,
            forall|j: int|
                0 <= j < i ==> ((#[trigger] deliveries@[j]) matches Some(update) && out@[j]
                    == proposal_of(update, proposer_id, term)),
        decreases deliveries@.len() - i,
    {
        match &deliveries[i] {
            Some(update) => {
                out.push(process_update_request(update.clone(), proposer_id, term));
            },
            None => {
                return out;
            },
        }
        i = i + 1;
    }
    out
}

} // verus!
