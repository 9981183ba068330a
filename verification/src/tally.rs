//! Closing a proposal: quorum against the total supply, then the majority.

use vstd::prelude::*;
use crate::types::{DAOError, Proposal, TokenConfig};

verus! {

/// The participation that a tally must exceed: 51% of the total supply,
/// rounded down.
pub open spec fn quorum_threshold_spec(total_supply: u64) -> u64 {
    (total_supply * 51 / 100) as u64
}

#[verifier::when_used_as_spec(quorum_threshold_spec)]
pub fn quorum_threshold(total_supply: u64) -> (threshold: u64)
    ensures
        threshold == quorum_threshold_spec(total_supply),
        threshold == total_supply * 51 / 100,
{
    let scaled: u128 = total_supply as u128 * 51;
    (scaled / 100) as u64
}

/// Whether the votes cast pass: more than the quorum threshold took part, and
/// yes outweighs no. A tie does not pass.
pub open spec fn passes_spec(yes_votes: u64, no_votes: u64, total_supply: u64) -> bool {
    yes_votes + no_votes > total_supply * 51 / 100 && yes_votes > no_votes
}

#[verifier::when_used_as_spec(passes_spec)]
pub fn passes(yes_votes: u64, no_votes: u64, total_supply: u64) -> (passed: bool)
    ensures
        passed == passes_spec(yes_votes, no_votes, total_supply),
{
    let total_votes: u128 = yes_votes as u128 + no_votes as u128;
    let threshold: u64 = quorum_threshold(total_supply);
    if total_votes <= threshold as u128 {
        false
    } else {
        yes_votes > no_votes
    }
}

/// A proposal after its tally: the same record, no longer active.
pub open spec fn closed(proposal: Proposal) -> Proposal {
    Proposal { active: false, ..proposal }
}

/// The tally of the record under a proposal's id at time `now`: the closed
/// record to write back and whether the proposal passed.
pub open spec fn tally_spec(
    proposal: Option<Proposal>,
    now: u64,
    config: Option<TokenConfig>,
) -> Result<(Proposal, bool), DAOError> {
    if proposal is None {
        Err(DAOError::InvalidProposal)
    } else if now <= proposal->0.deadline {
        Err(DAOError::VotingNotClosed)
    } else if config is None {
        Err(DAOError::NotInitialised)
    } else {
        Ok(
            (
                closed(proposal->0),
                passes_spec(proposal->0.yes_votes, proposal->0.no_votes, config->0.total_supply),
            ),
        )
    }
}

#[verifier::when_used_as_spec(tally_spec)]
pub fn tally(proposal: Option<Proposal>, now: u64, config: Option<TokenConfig>) -> (outcome: Result<
    (Proposal, bool),
    DAOError,
>)
    ensures
        outcome == tally_spec(proposal, now, config),
{
    let mut proposal = match proposal {
        Some(proposal) => proposal,
        None => {
            return Err(DAOError::InvalidProposal);
        },
    };
    if now <= proposal.deadline {
        return Err(DAOError::VotingNotClosed);
    }
    let config = match config {
        Some(config) => config,
        None => {
            return Err(DAOError::NotInitialised);
        },
    };
    let passed = passes(proposal.yes_votes, proposal.no_votes, config.total_supply);
    proposal.active = false;
    Ok((proposal, passed))
}

} // verus!
