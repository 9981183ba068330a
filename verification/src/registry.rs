//! Opening proposals under ids counted from one, and listing them.

use vstd::prelude::*;
use crate::types::{Address, DAOError, Proposal};

verus! {

/// The number of proposals opened so far: none where the counter is absent.
pub open spec fn opened_spec(count: Option<u64>) -> u64 {
    match count {
        Some(count) => count,
        None => 0,
    }
}

#[verifier::when_used_as_spec(opened_spec)]
pub fn opened(count: Option<u64>) -> (so_far: u64)
    ensures
        so_far == opened_spec(count),
{
    match count {
        Some(count) => count,
        None => 0,
    }
}

/// A proposal as it is opened: active, with nothing voted yet.
pub open spec fn fresh_proposal(
    id: u64,
    creator: Address,
    title: String,
    description: String,
    deadline: u64,
) -> Proposal {
    Proposal { id, title, description, deadline, yes_votes: 0, no_votes: 0, creator, active: true }
}

/// The proposal that a request opens at time `now`: the next id after
/// `count`, unless the deadline is not in the future.
pub open spec fn open_proposal_spec(
    count: Option<u64>,
    now: u64,
    creator: Address,
    title: String,
    description: String,
    deadline: u64,
) -> Result<Proposal, DAOError> {
    if deadline <= now {
        Err(DAOError::ProposalExpired)
    } else {
        Ok(fresh_proposal((opened(count) + 1) as u64, creator, title, description, deadline))
    }
}

/// Decides one request to open a proposal. The record returned is to be kept
/// under its id, and its id is the new count.
pub fn open_proposal(
    count: Option<u64>,
    now: u64,
    creator: Address,
    title: String,
    description: String,
    deadline: u64,
) -> (outcome: Result<Proposal, DAOError>)
    requires
        deadline > now ==> opened(count) < u64::MAX,
    ensures
        outcome == open_proposal_spec(count, now, creator, title, description, deadline),
{
    if deadline <= now {
        return Err(DAOError::ProposalExpired);
    }
    let so_far: u64 = opened(count);
    Ok(
        Proposal {
            id: so_far + 1,
            title,
            description,
            deadline,
            yes_votes: 0,
            no_votes: 0,
            creator,
            active: true,
        },
    )
}

/// As `open_proposal`, for a caller that does not know whether an id is left:
/// `None` where the request would be granted and the counter has run out,
/// else what `open_proposal` decides.
pub fn checked_open_proposal(
    count: Option<u64>,
    now: u64,
    creator: Address,
    title: String,
    description: String,
    deadline: u64,
) -> (outcome: Option<Result<Proposal, DAOError>>)
    ensures
        outcome is None <==> deadline > now && opened(count) == u64::MAX,
        outcome is Some ==> outcome->0 == open_proposal_spec(
            count,
            now,
            creator,
            title,
            description,
            deadline,
        ),
{
    if deadline > now && opened(count) == u64::MAX {
        None
    } else {
        Some(open_proposal(count, now, creator, title, description, deadline))
    }
}

/// The proposal asked for by its id, where `proposal` is what is kept under
/// that id.
pub open spec fn found_spec(proposal: Option<Proposal>) -> Result<Proposal, DAOError> {
    match proposal {
        None => Err(DAOError::InvalidProposal),
        Some(proposal) => Ok(proposal),
    }
}

#[verifier::when_used_as_spec(found_spec)]
pub fn found(proposal: Option<Proposal>) -> (outcome: Result<Proposal, DAOError>)
    ensures
        outcome == found_spec(proposal),
{
    match proposal {
        None => Err(DAOError::InvalidProposal),
        Some(proposal) => Ok(proposal),
    }
}

/// The records that are there, in the order of their slots.
pub open spec fn present_spec(slots: Seq<Option<Proposal>>) -> Seq<Proposal>
    decreases slots.len(),
{
    if slots.len() == 0 {
        Seq::empty()
    } else {
        let before = present_spec(slots.drop_last());
        match slots.last() {
            Some(proposal) => before.push(proposal),
            None => before,
        }
    }
}

/// Where every slot holds a record, the listing is the slots' records, one
/// for one.
pub proof fn lemma_present_of_full(slots: Seq<Option<Proposal>>)
    requires
        forall|i: int| 0 <= i < slots.len() ==> slots[i] is Some,
    ensures
        present_spec(slots).len() == slots.len(),
        forall|i: int| 0 <= i < slots.len() ==> present_spec(slots)[i] == slots[i]->0,
    decreases slots.len(),
{
    if slots.len() > 0 {
        lemma_present_of_full(slots.drop_last());
    }
}

/// Lists the proposals found under the ids `1..=slots.len()`, where slot `i`
/// holds what was found under id `i + 1`. An id without a record is skipped.
pub fn present(slots: &Vec<Option<Proposal>>) -> (found: Vec<Proposal>)
    ensures
        found@ == present_spec(slots@),
{
    let mut found: Vec<Proposal> = Vec::new();
    let mut i: usize = 0;
    while i < slots.len()
        invariant
            i <= slots.len(),
            found@ == present_spec(slots@.take(i as int)),
        decreases slots.len() - i,
    {
        assert(slots@.take(i + 1).drop_last() == slots@.take(i as int));
        match &slots[i] {
            Some(proposal) => {
                found.push(proposal.clone());
            },
            None => {},
        }
        i += 1;
    }
    assert(slots@.take(i as int) == slots@);
    found
}

} // verus!
