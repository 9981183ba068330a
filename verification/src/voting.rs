//! The rules of casting a vote and of releasing locked tokens, stated over the
//! records that a caller has loaded.

use vstd::prelude::*;
use crate::types::{Address, DAOError, Proposal, TokenConfig, Vote};

verus! {

/// A token balance as voting weight: the balance itself where it is a
/// non-negative amount of at most 64 bits, else no valid weight at all.
pub open spec fn spendable_spec(raw: i128) -> Result<u64, DAOError> {
    if 0 <= raw <= u64::MAX {
        Ok(raw as u64)
    } else {
        Err(DAOError::InvalidVote)
    }
}

#[verifier::when_used_as_spec(spendable_spec)]
pub fn spendable(raw: i128) -> (weight: Result<u64, DAOError>)
    ensures
        weight == spendable_spec(raw),
{
    if raw < 0 || raw > u64::MAX as i128 {
        Err(DAOError::InvalidVote)
    } else {
        Ok(raw as u64)
    }
}

/// The amount that a lock record stands for: nothing where there is none.
pub open spec fn locked_amount(locked: Option<u64>) -> u64 {
    match locked {
        Some(amount) => amount,
        None => 0,
    }
}

/// Whether a proposal still takes votes at time `now`.
pub open spec fn accepts_votes(proposal: Proposal, now: u64) -> bool {
    now <= proposal.deadline && proposal.active
}

/// Whether a vote gets as far as the voter's tokens, or why it is turned away
/// before. The reasons are tried in this order, and the first that applies is
/// the one reported.
pub open spec fn eligible_spec(
    proposal: Option<Proposal>,
    now: u64,
    already_voted: bool,
    amount: u64,
) -> Result<(), DAOError> {
    if amount == 0 {
        Err(DAOError::InvalidVote)
    } else if proposal is None {
        Err(DAOError::InvalidProposal)
    } else if !accepts_votes(proposal->0, now) {
        Err(DAOError::ProposalExpired)
    } else if already_voted {
        Err(DAOError::AlreadyVoted)
    } else {
        Ok(())
    }
}

/// Decides whether a vote gets as far as the voter's tokens. Until it does,
/// neither the token settings nor the token ledger need to be there.
pub fn eligible(proposal: &Option<Proposal>, now: u64, already_voted: bool, amount: u64) -> (outcome:
    Result<(), DAOError>)
    ensures
        outcome == eligible_spec(*proposal, now, already_voted, amount),
{
    if amount == 0 {
        return Err(DAOError::InvalidVote);
    }
    match proposal {
        None => Err(DAOError::InvalidProposal),
        Some(proposal) => {
            if now > proposal.deadline || !proposal.active {
                Err(DAOError::ProposalExpired)
            } else if already_voted {
                Err(DAOError::AlreadyVoted)
            } else {
                Ok(())
            }
        },
    }
}

/// A voter's holding as voting weight. `funds` is the voter's token balance,
/// absent while the token settings are.
pub open spec fn holding_spec(funds: Option<i128>) -> Result<u64, DAOError> {
    match funds {
        None => Err(DAOError::NotInitialised),
        Some(raw) => spendable_spec(raw),
    }
}

#[verifier::when_used_as_spec(holding_spec)]
pub fn holding(funds: Option<i128>) -> (weight: Result<u64, DAOError>)
    ensures
        weight == holding_spec(funds),
{
    match funds {
        None => Err(DAOError::NotInitialised),
        Some(raw) => spendable(raw),
    }
}

/// Why a vote is refused, or `None` where it is accepted: for one of the
/// reasons that turn it away early, else because the voter's holding is not
/// there, is no valid weight, or is less than the amount.
///
/// `funds` is the voter's token balance, absent while the token settings are.
pub open spec fn vote_refusal(
    proposal: Option<Proposal>,
    now: u64,
    already_voted: bool,
    funds: Option<i128>,
    amount: u64,
) -> Option<DAOError> {
    match eligible_spec(proposal, now, already_voted, amount) {
        Err(reason) => Some(reason),
        Ok(()) => match holding_spec(funds) {
            Err(reason) => Some(reason),
            Ok(available) => if available < amount {
                Some(DAOError::InsufficientTokens)
            } else {
                None
            },
        },
    }
}

/// The tally that `amount` is added to: yes or no.
pub open spec fn tally_side(proposal: Proposal, is_yes: bool) -> u64 {
    if is_yes {
        proposal.yes_votes
    } else {
        proposal.no_votes
    }
}

/// Whether the sums that an accepted vote writes still fit their 64 bits.
pub open spec fn vote_fits(
    proposal: Option<Proposal>,
    locked: Option<u64>,
    is_yes: bool,
    amount: u64,
) -> bool {
    &&& proposal matches Some(p) ==> tally_side(p, is_yes) + amount <= u64::MAX
    &&& locked_amount(locked) + amount <= u64::MAX
}

/// Tests whether the sums of a vote fit, for a caller that has to know before
/// it asks for the vote to be cast.
pub fn fits(proposal: &Option<Proposal>, locked: Option<u64>, is_yes: bool, amount: u64) -> (fit: bool)
    ensures
        fit == vote_fits(*proposal, locked, is_yes, amount),
{
    let tally_fits = match proposal {
        Some(proposal) => {
            let side: u64 = if is_yes {
                proposal.yes_votes
            } else {
                proposal.no_votes
            };
            amount <= u64::MAX - side
        },
        None => true,
    };
    let held: u64 = match locked {
        Some(held) => held,
        None => 0,
    };
    tally_fits && amount <= u64::MAX - held
}

/// A proposal after `amount` was added to one of its tallies.
pub open spec fn with_vote(proposal: Proposal, is_yes: bool, amount: u64) -> Proposal {
    if is_yes {
        Proposal { yes_votes: (proposal.yes_votes + amount) as u64, ..proposal }
    } else {
        Proposal { no_votes: (proposal.no_votes + amount) as u64, ..proposal }
    }
}

/// What an accepted vote writes: the vote itself, the proposal with its new
/// tally, and the voter's new locked total. The vote's amount is what moves
/// from the voter into custody.
#[derive(Debug, PartialEq, Eq)]
pub struct VoteReceipt {
    pub vote: Vote,
    pub proposal: Proposal,
    pub locked: u64,
}

/// The outcome of one vote: the reason for which it is refused, or what it
/// writes.
pub open spec fn cast_vote_spec(
    proposal: Option<Proposal>,
    now: u64,
    already_voted: bool,
    funds: Option<i128>,
    locked: Option<u64>,
    voter: Address,
    is_yes: bool,
    amount: u64,
) -> Result<VoteReceipt, DAOError> {
    match vote_refusal(proposal, now, already_voted, funds, amount) {
        Some(reason) => Err(reason),
        None => Ok(
            VoteReceipt {
                vote: Vote { voter, amount, is_yes },
                proposal: with_vote(proposal->0, is_yes, amount),
                locked: (locked_amount(locked) + amount) as u64,
            },
        ),
    }
}

/// Decides one vote. `proposal` is the record under the proposal's id,
/// `already_voted` says whether this voter has a vote on it, `funds` is the
/// voter's token balance (absent while the token settings are), and `locked`
/// is the voter's lock record.
pub fn cast_vote(
    proposal: Option<Proposal>,
    now: u64,
    already_voted: bool,
    funds: Option<i128>,
    locked: Option<u64>,
    voter: Address,
    is_yes: bool,
    amount: u64,
) -> (outcome: Result<VoteReceipt, DAOError>)
    requires
        vote_refusal(proposal, now, already_voted, funds, amount) is None ==> vote_fits(
            proposal,
            locked,
            is_yes,
            amount,
        ),
    ensures
        outcome == cast_vote_spec(
            proposal,
            now,
            already_voted,
            funds,
            locked,
            voter,
            is_yes,
            amount,
        ),
{
    match eligible(&proposal, now, already_voted, amount) {
        Ok(()) => {},
        Err(reason) => {
            return Err(reason);
        },
    }
    let mut proposal = match proposal {
        Some(proposal) => proposal,
        None => {
            return Err(DAOError::InvalidProposal);
        },
    };
    let available = match holding(funds) {
        Ok(available) => available,
        Err(reason) => {
            return Err(reason);
        },
    };
    if available < amount {
        return Err(DAOError::InsufficientTokens);
    }
    if is_yes {
        proposal.yes_votes = proposal.yes_votes + amount;
    } else {
        proposal.no_votes = proposal.no_votes + amount;
    }
    let held: u64 = match locked {
        Some(held) => held,
        None => 0,
    };
    Ok(VoteReceipt { vote: Vote { voter, amount, is_yes }, proposal, locked: held + amount })
}

/// As `cast_vote`, for a caller that does not know whether the sums fit:
/// `None` where the vote would be accepted and a sum would not fit, else what
/// `cast_vote` decides.
pub fn checked_cast_vote(
    proposal: Option<Proposal>,
    now: u64,
    already_voted: bool,
    funds: Option<i128>,
    locked: Option<u64>,
    voter: Address,
    is_yes: bool,
    amount: u64,
) -> (outcome: Option<Result<VoteReceipt, DAOError>>)
    ensures
        outcome is None <==> vote_refusal(proposal, now, already_voted, funds, amount) is None
            && !vote_fits(proposal, locked, is_yes, amount),
        outcome is Some ==> outcome->0 == cast_vote_spec(
            proposal,
            now,
            already_voted,
            funds,
            locked,
            voter,
            is_yes,
            amount,
        ),
{
    match eligible(&proposal, now, already_voted, amount) {
        Ok(()) => {},
        Err(reason) => {
            return Some(Err(reason));
        },
    }
    let accepted = match holding(funds) {
        Err(_) => false,
        Ok(available) => available >= amount,
    };
    if accepted && !fits(&proposal, locked, is_yes, amount) {
        None
    } else {
        Some(cast_vote(proposal, now, already_voted, funds, locked, voter, is_yes, amount))
    }
}

/// What a release returns to the voter: the whole lock, or nothing where
/// nothing is locked. Only a release that has tokens to move needs the token
/// settings.
pub open spec fn release_spec(locked: Option<u64>, config: Option<TokenConfig>) -> Result<
    Option<u64>,
    DAOError,
> {
    if locked_amount(locked) == 0 {
        Ok(None)
    } else if config is None {
        Err(DAOError::NotInitialised)
    } else {
        Ok(Some(locked_amount(locked)))
    }
}

/// Decides one release. `Ok(Some(amount))` asks to move `amount` from custody
/// back to the voter and to drop the lock record; `Ok(None)` asks for nothing.
#[verifier::when_used_as_spec(release_spec)]
pub fn release(locked: Option<u64>, config: Option<TokenConfig>) -> (due: Result<
    Option<u64>,
    DAOError,
>)
    ensures
        due == release_spec(locked, config),
{
    let held: u64 = match locked {
        Some(held) => held,
        None => 0,
    };
    if held == 0 {
        Ok(None)
    } else if config.is_none() {
        Err(DAOError::NotInitialised)
    } else {
        Ok(Some(held))
    }
}

} // verus!
