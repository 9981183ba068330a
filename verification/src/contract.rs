//! The operations of governance, each one step of the ledger.

use vstd::prelude::*;
use crate::env::{Env, State};
use crate::registry::{found, open_proposal, opened, present};
use crate::setup::{setup, supply, MEMBER_GRANT};
use crate::tally::tally;
use crate::types::{Address, DAOError, DataKey, Proposal, Record};
use crate::voting::{cast_vote, holding, release};

verus! {

/// Whether an operation did what `expected` says of it: where it is granted,
/// the ledger is left in the new state; where it is refused, the reason is
/// the one expected and the ledger is left as it was.
pub open spec fn lands(
    expected: Result<State, DAOError>,
    before: State,
    after: State,
    result: Result<(), DAOError>,
) -> bool {
    match expected {
        Ok(next) => result is Ok && after == next,
        Err(reason) => result == Err::<(), DAOError>(reason) && after == before,
    }
}

/// As `lands`, for an operation that also answers with a value.
pub open spec fn lands_with<T>(
    expected: Result<(State, T), DAOError>,
    before: State,
    after: State,
    result: Result<T, DAOError>,
) -> bool {
    match expected {
        Ok((next, answer)) => result == Ok::<T, DAOError>(answer) && after == next,
        Err(reason) => result == Err::<T, DAOError>(reason) && after == before,
    }
}

/// The governance organisation. Its operations each take the ledger that it
/// runs on.
pub struct DAOContract;

impl DAOContract {
    /// Sets the organisation up under `admin`: writes the token settings and
    /// grants each member its tokens.
    pub fn initialise(env: &mut Env, admin: Address, members: Vec<Address>) -> (result: Result<
        (),
        DAOError,
    >)
        requires
            old(env).wf(),
            old(env)@.config() is Some || old(env)@.authorized(admin),
            members.len() <= u32::MAX,
            old(env)@.config() is None ==> old(env)@.supply + members.len() * MEMBER_GRANT
                <= i128::MAX,
        ensures
            final(env).wf(),
            lands(old(env)@.initialise(admin, members@), old(env)@, final(env)@, result),
    {
        let charter = match setup(
            env.store.config(),
            env.store.proposal_count(),
            admin,
            members.len() as u32,
        ) {
            Ok(charter) => charter,
            Err(reason) => {
                return Err(reason);
            },
        };
        let ghost next = old(env)@.initialise(admin, members@)->Ok_0;
        env.store.set(DataKey::TokenConfig, Record::Config(charter.config));
        env.store.set(DataKey::ProposalCount, Record::Count(charter.count));
        proof {
            old(env)@.lemma_initialise_consistent(admin, members@);
            assert(env@.records =~= next.records);
            assert(members@.take(0) =~= Seq::<Address>::empty());
        }
        let mut i: usize = 0;
        while i < members.len()
            invariant
                i <= members.len(),
                env.wf(),
                old(env)@.supply + members.len() * MEMBER_GRANT <= i128::MAX,
                env@ == (State {
                    balances: crate::env::granted(old(env)@.balances, members@.take(i as int)),
                    supply: old(env)@.supply + i * MEMBER_GRANT,
                    ..next
                }),
            decreases members.len() - i,
        {
            assert(members@.take(i + 1).drop_last() == members@.take(i as int));
            assert(i * MEMBER_GRANT + MEMBER_GRANT <= members.len() * MEMBER_GRANT) by (nonlinear_arith)
                requires
                    i < members.len(),
            ;
            env.mint(&members[i], MEMBER_GRANT as i128);
            i += 1;
        }
        assert(members@.take(i as int) == members@);
        Ok(())
    }

    /// The token balance of `account` as voting weight.
    pub fn balance(env: &Env, account: Address) -> (result: Result<u64, DAOError>)
        requires
            env.wf(),
        ensures
            result == env@.balance(account),
    {
        let funds = match env.store.config() {
            Some(_) => Some(env.tokens.balance(&account)),
            None => None,
        };
        holding(funds)
    }

    /// The total supply written at setup.
    pub fn total_supply(env: &Env) -> (result: Result<u64, DAOError>)
        requires
            env.wf(),
        ensures
            result == env@.total_supply(),
    {
        supply(env.store.config())
    }

    /// Opens a proposal and answers with its id.
    pub fn create_proposal(
        env: &mut Env,
        creator: Address,
        title: String,
        description: String,
        deadline: u64,
    ) -> (result: Result<u64, DAOError>)
        requires
            old(env).wf(),
            old(env)@.authorized(creator),
            deadline > old(env)@.now ==> opened(old(env)@.count()) < u64::MAX,
        ensures
            final(env).wf(),
            lands_with(
                old(env)@.create_proposal(creator, title, description, deadline),
                old(env)@,
                final(env)@,
                result,
            ),
    {
        let proposal = match open_proposal(
            env.store.proposal_count(),
            env.timestamp,
            creator,
            title,
            description,
            deadline,
        ) {
            Ok(proposal) => proposal,
            Err(reason) => {
                return Err(reason);
            },
        };
        let id: u64 = proposal.id;
        env.store.set(DataKey::Proposal(id), Record::Proposal(proposal));
        env.store.set(DataKey::ProposalCount, Record::Count(id));
        proof {
            old(env)@.lemma_create_proposal_consistent(creator, title, description, deadline);
            let next = old(env)@.create_proposal(creator, title, description, deadline)->Ok_0.0;
            assert(env@.records =~= next.records);
            assert(env@ =~= next);
        }
        Ok(id)
    }

    /// The proposal kept under `proposal_id`.
    pub fn get_proposal(env: &Env, proposal_id: u64) -> (result: Result<Proposal, DAOError>)
        requires
            env.wf(),
        ensures
            result == env@.get_proposal(proposal_id),
    {
        found(env.store.proposal(proposal_id))
    }

    /// The proposals in the order of their ids.
    pub fn list_proposals(env: &Env) -> (result: Result<Vec<Proposal>, DAOError>)
        requires
            env.wf(),
        ensures
            result is Ok,
            result->Ok_0@ == env@.list_proposals(),
    {
        let count: u64 = opened(env.store.proposal_count());
        let mut slots: Vec<Option<Proposal>> = Vec::new();
        let mut id: u64 = 0;
        while id < count
            invariant
                env.wf(),
                id <= count,
                count == opened(env@.count()),
                slots@ == Seq::new(id as nat, |i: int| env@.proposal((i + 1) as u64)),
            decreases count - id,
        {
            id += 1;
            slots.push(env.store.proposal(id));
        }
        assert(slots@ == env@.slots());
        Ok(present(&slots))
    }

    /// Casts `voter`'s vote of weight `amount` on a proposal.
    pub fn vote(env: &mut Env, voter: Address, proposal_id: u64, is_yes: bool, amount: u64) -> (result:
        Result<(), DAOError>)
        requires
            old(env).wf(),
            old(env)@.authorized(voter),
            old(env)@.vote_fits(voter, proposal_id, is_yes, amount),
        ensures
            final(env).wf(),
            lands(old(env)@.vote(voter, proposal_id, is_yes, amount), old(env)@, final(env)@, result),
    {
        proof {
            env.tokens.lemma_view();
            env.tokens.lemma_within_supply(voter);
            assert(env.tokens@[env.contract] == env.tokens.balance_of(env.contract));
            assert(env.tokens@[voter] == env.tokens.balance_of(voter));
        }
        let proposal = env.store.proposal(proposal_id);
        let already_voted = env.store.vote(proposal_id, &voter).is_some();
        let funds = match env.store.config() {
            Some(_) => Some(env.tokens.balance(&voter)),
            None => None,
        };
        let locked = env.store.locked(&voter);
        let receipt = match cast_vote(
            proposal,
            env.timestamp,
            already_voted,
            funds,
            locked,
            voter,
            is_yes,
            amount,
        ) {
            Ok(receipt) => receipt,
            Err(reason) => {
                return Err(reason);
            },
        };
        env.tokens.transfer(&voter, &env.contract, amount as i128);
        env.store.set(DataKey::Vote(proposal_id, voter), Record::Vote(receipt.vote));
        env.store.set(DataKey::Proposal(proposal_id), Record::Proposal(receipt.proposal));
        env.store.set(DataKey::LockedTokens(voter), Record::Locked(receipt.locked));
        proof {
            env.tokens.lemma_view();
            assert(env.tokens@[env.contract] == env.tokens.balance_of(env.contract));
            old(env)@.lemma_vote_consistent(voter, proposal_id, is_yes, amount);
            let next = old(env)@.vote(voter, proposal_id, is_yes, amount)->Ok_0;
            assert(env@.records =~= next.records);
            assert(env@.balances =~= next.balances);
            assert(env@ =~= next);
            assert forall|who: Address| 0 <= #[trigger] env@.balances[who] <= env@.supply by {
                env.tokens.lemma_within_supply(who);
            }
        }
        Ok(())
    }

    /// Closes the proposal under `proposal_id` and says whether it passed.
    pub fn tally_proposal(env: &mut Env, proposal_id: u64) -> (result: Result<bool, DAOError>)
        requires
            old(env).wf(),
        ensures
            final(env).wf(),
            lands_with(old(env)@.tally_proposal(proposal_id), old(env)@, final(env)@, result),
    {
        let (proposal, passed) = match tally(
            env.store.proposal(proposal_id),
            env.timestamp,
            env.store.config(),
        ) {
            Ok(outcome) => outcome,
            Err(reason) => {
                return Err(reason);
            },
        };
        env.store.set(DataKey::Proposal(proposal_id), Record::Proposal(proposal));
        proof {
            old(env)@.lemma_tally_proposal_consistent(proposal_id);
            let next = old(env)@.tally_proposal(proposal_id)->Ok_0.0;
            assert(env@.records =~= next.records);
            assert(env@ =~= next);
        }
        Ok(passed)
    }

    /// Returns to `voter` all that it has locked.
    pub fn unlock_tokens(env: &mut Env, voter: Address) -> (result: Result<(), DAOError>)
        requires
            old(env).wf(),
            old(env)@.authorized(voter),
        ensures
            final(env).wf(),
            lands(old(env)@.unlock_tokens(voter), old(env)@, final(env)@, result),
    {
        let due = match release(env.store.locked(&voter), env.store.config()) {
            Ok(due) => due,
            Err(reason) => {
                return Err(reason);
            },
        };
        let amount: u64 = match due {
            Some(amount) => amount,
            None => {
                return Ok(());
            },
        };
        proof {
            env.tokens.lemma_view();
            env.store.lemma_within_locked_total(DataKey::LockedTokens(voter));
            assert(env.tokens@[env.contract] == env.tokens.balance_of(env.contract));
        }
        env.tokens.transfer(&env.contract, &voter, amount as i128);
        env.store.remove(&DataKey::LockedTokens(voter));
        proof {
            env.tokens.lemma_view();
            assert(env.tokens@[env.contract] == env.tokens.balance_of(env.contract));
            old(env)@.lemma_unlock_tokens_consistent(voter);
            let next = old(env)@.unlock_tokens(voter)->Ok_0;
            assert(env@.records =~= next.records);
            assert(env@.balances =~= next.balances);
            assert(env@ =~= next);
            assert forall|who: Address| 0 <= #[trigger] env@.balances[who] <= env@.supply by {
                env.tokens.lemma_within_supply(who);
            }
        }
        Ok(())
    }
}

} // verus!
