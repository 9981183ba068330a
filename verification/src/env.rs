//! The ledger that governance runs on: the record store, a token ledger, the
//! clock and the identities that have signed. `State` is what it holds, as
//! mathematics; the operations of governance are transitions of `State`.

use vstd::prelude::*;
use crate::registry::{found_spec, open_proposal_spec, opened, present_spec};
use crate::setup::{setup_spec, supply_spec, MEMBER_GRANT};
use crate::store::{config_in, count_in, lock_in, proposal_in, vote_in, Store};
use crate::tally::tally_spec;
use crate::token::{moved, TokenLedger};
use crate::types::{well_kinded, Address, DAOError, DataKey, Proposal, Record, TokenConfig, Vote};
use crate::voting::{cast_vote_spec, holding_spec, release_spec, vote_fits, vote_refusal};

verus! {

/// Balances after each of `members` was granted `MEMBER_GRANT` tokens, one
/// grant for each time a member is listed.
pub open spec fn granted(balances: Map<Address, int>, members: Seq<Address>) -> Map<Address, int>
    decreases members.len(),
{
    if members.len() == 0 {
        balances
    } else {
        let before = granted(balances, members.drop_last());
        before.insert(members.last(), before[members.last()] + MEMBER_GRANT)
    }
}

/// What holds of the records that governance keeps.
pub open spec fn consistent(records: Map<DataKey, Record>) -> bool {
    // each name holds a record of its kind
    &&& forall|key: DataKey| #[trigger]
        records.contains_key(key) ==> well_kinded(key, records[key])
    // the proposals are those under the ids counted so far, each under its own
    &&& forall|id: u64| #[trigger]
        records.contains_key(DataKey::Proposal(id)) <==> 1 <= id <= opened(count_in(records))
    &&& forall|id: u64| (#[trigger] proposal_in(records, id)) matches Some(proposal) ==> proposal.id == id
    // a vote is on a proposal, by its voter, with some weight
    &&& forall|id: u64, voter: Address| (#[trigger] vote_in(records, id, voter)) matches Some(vote) ==> {
        &&& proposal_in(records, id) is Some
        &&& vote.voter == voter
        &&& vote.amount > 0
    }
    // tokens are locked only once the token settings are there
    &&& forall|voter: Address| #[trigger]
        records.contains_key(DataKey::LockedTokens(voter)) ==> config_in(records) is Some
}

/// What the ledger holds.
#[verifier::ext_equal]
pub struct State {
    /// The governance records, each under its name.
    pub records: Map<DataKey, Record>,
    /// Every identity's token balance.
    pub balances: Map<Address, int>,
    /// The sum of all token balances.
    pub supply: int,
    /// The ledger time.
    pub now: u64,
    /// The account that holds locked tokens in custody.
    pub contract: Address,
    /// The identities that have signed.
    pub signers: Set<Address>,
}

impl State {
    /// The token settings, once they are written.
    pub open spec fn config(self) -> Option<TokenConfig> {
        config_in(self.records)
    }

    /// The proposal counter, once it is written.
    pub open spec fn count(self) -> Option<u64> {
        count_in(self.records)
    }

    /// The proposal kept under `id`.
    pub open spec fn proposal(self, id: u64) -> Option<Proposal> {
        proposal_in(self.records, id)
    }

    /// The vote of `voter` on proposal `id`.
    pub open spec fn vote_of(self, id: u64, voter: Address) -> Option<Vote> {
        vote_in(self.records, id, voter)
    }

    /// The lock record of `voter`.
    pub open spec fn lock(self, voter: Address) -> Option<u64> {
        lock_in(self.records, voter)
    }

    /// What `voter` has in custody: nothing where there is no lock record.
    pub open spec fn locked(self, voter: Address) -> u64 {
        crate::voting::locked_amount(self.lock(voter))
    }

    /// The balance that a vote of `voter` is checked against: absent while the
    /// token settings are.
    pub open spec fn funds(self, voter: Address) -> Option<i128> {
        if self.config() is Some {
            Some(self.balances[voter] as i128)
        } else {
            None
        }
    }

    /// Whether `who` may act: it has signed, and it is not the custody account,
    /// which never acts on itself.
    pub open spec fn authorized(self, who: Address) -> bool {
        who != self.contract && self.signers.contains(who)
    }

    /// What holds of every ledger that governance has run on.
    pub open spec fn valid(self) -> bool {
        &&& consistent(self.records)
        &&& self.balances.dom() == Set::<Address>::full()
        &&& forall|who: Address| 0 <= #[trigger] self.balances[who] <= self.supply
        &&& self.supply <= i128::MAX
    }

    /// The ledger before anything happened on it.
    pub open spec fn empty(contract: Address) -> State {
        State {
            records: Map::empty(),
            balances: Map::total(|who: Address| 0int),
            supply: 0,
            now: 0,
            contract,
            signers: Set::empty(),
        }
    }

    /// Setup: writes the token settings, keeps the proposal counter and grants
    /// each member its tokens.
    pub open spec fn initialise(self, admin: Address, members: Seq<Address>) -> Result<
        State,
        DAOError,
    > {
        match setup_spec(self.config(), self.count(), admin, members.len() as u32) {
            Err(reason) => Err(reason),
            Ok(charter) => Ok(
                State {
                    records: self.records.insert(
                        DataKey::TokenConfig,
                        Record::Config(charter.config),
                    ).insert(DataKey::ProposalCount, Record::Count(charter.count)),
                    balances: granted(self.balances, members),
                    supply: self.supply + members.len() * MEMBER_GRANT,
                    ..self
                },
            ),
        }
    }

    /// The balance of `account` as voting weight.
    pub open spec fn balance(self, account: Address) -> Result<u64, DAOError> {
        holding_spec(self.funds(account))
    }

    /// The total supply written at setup.
    pub open spec fn total_supply(self) -> Result<u64, DAOError> {
        supply_spec(self.config())
    }

    /// Opens a proposal under the next id and counts it.
    pub open spec fn create_proposal(
        self,
        creator: Address,
        title: String,
        description: String,
        deadline: u64,
    ) -> Result<(State, u64), DAOError> {
        match open_proposal_spec(self.count(), self.now, creator, title, description, deadline) {
            Err(reason) => Err(reason),
            Ok(proposal) => Ok(
                (
                    State {
                        records: self.records.insert(
                            DataKey::Proposal(proposal.id),
                            Record::Proposal(proposal),
                        ).insert(DataKey::ProposalCount, Record::Count(proposal.id)),
                        ..self
                    },
                    proposal.id,
                ),
            ),
        }
    }

    /// The proposal kept under `id`.
    pub open spec fn get_proposal(self, id: u64) -> Result<Proposal, DAOError> {
        found_spec(self.proposal(id))
    }

    /// What is kept under each of the ids `1..=count`, in that order.
    pub open spec fn slots(self) -> Seq<Option<Proposal>> {
        Seq::new(opened(self.count()) as nat, |i: int| self.proposal((i + 1) as u64))
    }

    /// The proposals in the order of their ids.
    pub open spec fn list_proposals(self) -> Seq<Proposal> {
        present_spec(self.slots())
    }

    /// Why a vote is refused, or `None` where it is accepted.
    pub open spec fn vote_refusal(self, voter: Address, id: u64, amount: u64) -> Option<DAOError> {
        vote_refusal(
            self.proposal(id),
            self.now,
            self.vote_of(id, voter) is Some,
            self.funds(voter),
            amount,
        )
    }

    /// Whether the sums that this vote writes, if it is accepted, fit their
    /// 64 bits.
    pub open spec fn vote_fits(self, voter: Address, id: u64, is_yes: bool, amount: u64) -> bool {
        self.vote_refusal(voter, id, amount) is None ==> vote_fits(
            self.proposal(id),
            self.lock(voter),
            is_yes,
            amount,
        )
    }

    /// A vote: moves the amount from the voter into custody, records the vote,
    /// adds it to the proposal's tally and to the voter's lock.
    pub open spec fn vote(self, voter: Address, id: u64, is_yes: bool, amount: u64) -> Result<
        State,
        DAOError,
    > {
        match cast_vote_spec(
            self.proposal(id),
            self.now,
            self.vote_of(id, voter) is Some,
            self.funds(voter),
            self.lock(voter),
            voter,
            is_yes,
            amount,
        ) {
            Err(reason) => Err(reason),
            Ok(receipt) => Ok(
                State {
                    records: self.records.insert(
                        DataKey::Vote(id, voter),
                        Record::Vote(receipt.vote),
                    ).insert(DataKey::Proposal(id), Record::Proposal(receipt.proposal)).insert(
                        DataKey::LockedTokens(voter),
                        Record::Locked(receipt.locked),
                    ),
                    balances: moved(self.balances, voter, self.contract, amount as int),
                    ..self
                },
            ),
        }
    }

    /// A tally: closes the proposal and says whether it passed.
    pub open spec fn tally_proposal(self, id: u64) -> Result<(State, bool), DAOError> {
        match tally_spec(self.proposal(id), self.now, self.config()) {
            Err(reason) => Err(reason),
            Ok((proposal, passed)) => Ok(
                (
                    State {
                        records: self.records.insert(
                            DataKey::Proposal(id),
                            Record::Proposal(proposal),
                        ),
                        ..self
                    },
                    passed,
                ),
            ),
        }
    }

    /// A release: returns the voter's whole lock from custody and drops the
    /// lock record; changes nothing where nothing is locked.
    pub open spec fn unlock_tokens(self, voter: Address) -> Result<State, DAOError> {
        match release_spec(self.lock(voter), self.config()) {
            Err(reason) => Err(reason),
            Ok(None) => Ok(self),
            Ok(Some(amount)) => Ok(
                State {
                    records: self.records.remove(DataKey::LockedTokens(voter)),
                    balances: moved(self.balances, self.contract, voter, amount as int),
                    ..self
                },
            ),
        }
    }
}

impl State {
    /// A vote leaves the records in order.
    pub proof fn lemma_vote_consistent(self, voter: Address, id: u64, is_yes: bool, amount: u64)
        requires
            consistent(self.records),
            self.vote(voter, id, is_yes, amount) is Ok,
        ensures
            consistent(self.vote(voter, id, is_yes, amount)->Ok_0.records),
    {
        let before = self.records;
        let after = self.vote(voter, id, is_yes, amount)->Ok_0.records;
        assert(proposal_in(before, id) is Some);
        assert(config_in(before) is Some);
        assert(count_in(after) == count_in(before));
        assert(config_in(after) == config_in(before));
        assert forall|other: u64| #[trigger]
            after.contains_key(DataKey::Proposal(other)) <==> 1 <= other <= opened(
                count_in(after),
            ) by {
            assert(before.contains_key(DataKey::Proposal(other)) <==> 1 <= other <= opened(
                count_in(before),
            ));
        }
        assert forall|other: u64| (#[trigger] proposal_in(after, other)) is Some implies proposal_in(
            after,
            other,
        )->0.id == other by {
            if other != id {
                assert(proposal_in(after, other) == proposal_in(before, other));
            }
        }
        assert forall|other: u64, who: Address| (#[trigger] vote_in(after, other, who)) is Some implies {
            &&& proposal_in(after, other) is Some
            &&& vote_in(after, other, who)->0.voter == who
            &&& vote_in(after, other, who)->0.amount > 0
        } by {
            if other != id || who != voter {
                assert(vote_in(after, other, who) == vote_in(before, other, who));
                assert(proposal_in(before, other) is Some);
            }
        }
        assert forall|who: Address| #[trigger]
            after.contains_key(DataKey::LockedTokens(who)) implies config_in(after) is Some by {
            if who != voter {
                assert(before.contains_key(DataKey::LockedTokens(who)));
            }
        }
    }
}

impl State {
    /// A setup leaves the records in order.
    pub proof fn lemma_initialise_consistent(self, admin: Address, members: Seq<Address>)
        requires
            consistent(self.records),
            self.initialise(admin, members) is Ok,
        ensures
            consistent(self.initialise(admin, members)->Ok_0.records),
    {
        let before = self.records;
        let after = self.initialise(admin, members)->Ok_0.records;
        assert(opened(count_in(after)) == opened(count_in(before)));
        assert(config_in(after) is Some);
        assert forall|other: u64| #[trigger]
            after.contains_key(DataKey::Proposal(other)) <==> 1 <= other <= opened(
                count_in(after),
            ) by {
            assert(before.contains_key(DataKey::Proposal(other)) <==> 1 <= other <= opened(
                count_in(before),
            ));
        }
        assert forall|other: u64| (#[trigger] proposal_in(after, other)) is Some implies proposal_in(
            after,
            other,
        )->0.id == other by {
            assert(proposal_in(after, other) == proposal_in(before, other));
        }
        assert forall|other: u64, who: Address| (#[trigger] vote_in(after, other, who)) is Some implies {
            &&& proposal_in(after, other) is Some
            &&& vote_in(after, other, who)->0.voter == who
            &&& vote_in(after, other, who)->0.amount > 0
        } by {
            assert(vote_in(after, other, who) == vote_in(before, other, who));
            assert(proposal_in(after, other) == proposal_in(before, other));
        }
    }

    /// Opening a proposal leaves the records in order.
    pub proof fn lemma_create_proposal_consistent(
        self,
        creator: Address,
        title: String,
        description: String,
        deadline: u64,
    )
        requires
            consistent(self.records),
            opened(self.count()) < u64::MAX,
            self.create_proposal(creator, title, description, deadline) is Ok,
        ensures
            consistent(self.create_proposal(creator, title, description, deadline)->Ok_0.0.records),
    {
        let before = self.records;
        let after = self.create_proposal(creator, title, description, deadline)->Ok_0.0.records;
        let id = (opened(count_in(before)) + 1) as u64;
        assert(count_in(after) == Some(id));
        assert(config_in(after) == config_in(before));
        assert forall|other: u64| #[trigger]
            after.contains_key(DataKey::Proposal(other)) <==> 1 <= other <= opened(
                count_in(after),
            ) by {
            assert(before.contains_key(DataKey::Proposal(other)) <==> 1 <= other <= opened(
                count_in(before),
            ));
        }
        assert forall|other: u64| (#[trigger] proposal_in(after, other)) is Some implies proposal_in(
            after,
            other,
        )->0.id == other by {
            if other != id {
                assert(proposal_in(after, other) == proposal_in(before, other));
            }
        }
        assert forall|other: u64, who: Address| (#[trigger] vote_in(after, other, who)) is Some implies {
            &&& proposal_in(after, other) is Some
            &&& vote_in(after, other, who)->0.voter == who
            &&& vote_in(after, other, who)->0.amount > 0
        } by {
            assert(vote_in(after, other, who) == vote_in(before, other, who));
            assert(proposal_in(before, other) is Some);
        }
        assert forall|who: Address| #[trigger]
            after.contains_key(DataKey::LockedTokens(who)) implies config_in(after) is Some by {
            assert(before.contains_key(DataKey::LockedTokens(who)));
        }
    }

    /// A tally leaves the records in order.
    pub proof fn lemma_tally_proposal_consistent(self, id: u64)
        requires
            consistent(self.records),
            self.tally_proposal(id) is Ok,
        ensures
            consistent(self.tally_proposal(id)->Ok_0.0.records),
    {
        let before = self.records;
        let after = self.tally_proposal(id)->Ok_0.0.records;
        assert(proposal_in(before, id) is Some);
        assert(count_in(after) == count_in(before));
        assert(config_in(after) == config_in(before));
        assert forall|other: u64| #[trigger]
            after.contains_key(DataKey::Proposal(other)) <==> 1 <= other <= opened(
                count_in(after),
            ) by {
            assert(before.contains_key(DataKey::Proposal(other)) <==> 1 <= other <= opened(
                count_in(before),
            ));
        }
        assert forall|other: u64| (#[trigger] proposal_in(after, other)) is Some implies proposal_in(
            after,
            other,
        )->0.id == other by {
            if other != id {
                assert(proposal_in(after, other) == proposal_in(before, other));
            }
        }
        assert forall|other: u64, who: Address| (#[trigger] vote_in(after, other, who)) is Some implies {
            &&& proposal_in(after, other) is Some
            &&& vote_in(after, other, who)->0.voter == who
            &&& vote_in(after, other, who)->0.amount > 0
        } by {
            assert(vote_in(after, other, who) == vote_in(before, other, who));
            assert(proposal_in(before, other) is Some);
        }
        assert forall|who: Address| #[trigger]
            after.contains_key(DataKey::LockedTokens(who)) implies config_in(after) is Some by {
            assert(before.contains_key(DataKey::LockedTokens(who)));
        }
    }

    /// A release leaves the records in order.
    pub proof fn lemma_unlock_tokens_consistent(self, voter: Address)
        requires
            consistent(self.records),
            self.unlock_tokens(voter) is Ok,
        ensures
            consistent(self.unlock_tokens(voter)->Ok_0.records),
    {
        let before = self.records;
        let after = self.unlock_tokens(voter)->Ok_0.records;
        if after != before {
            assert(after == before.remove(DataKey::LockedTokens(voter)));
            assert(count_in(after) == count_in(before));
            assert(config_in(after) == config_in(before));
            assert forall|other: u64| #[trigger]
                after.contains_key(DataKey::Proposal(other)) <==> 1 <= other <= opened(
                    count_in(after),
                ) by {
                assert(before.contains_key(DataKey::Proposal(other)) <==> 1 <= other <= opened(
                    count_in(before),
                ));
            }
            assert forall|other: u64| (#[trigger] proposal_in(after, other)) is Some implies proposal_in(
                after,
                other,
            )->0.id == other by {
                assert(proposal_in(after, other) == proposal_in(before, other));
            }
            assert forall|other: u64, who: Address| (#[trigger] vote_in(after, other, who)) is Some implies {
                &&& proposal_in(after, other) is Some
                &&& vote_in(after, other, who)->0.voter == who
                &&& vote_in(after, other, who)->0.amount > 0
            } by {
                assert(vote_in(after, other, who) == vote_in(before, other, who));
                assert(proposal_in(after, other) == proposal_in(before, other));
            }
            assert forall|who: Address| #[trigger]
                after.contains_key(DataKey::LockedTokens(who)) implies config_in(after) is Some by {
                assert(before.contains_key(DataKey::LockedTokens(who)));
            }
        }
    }
}

/// The ledger itself.
pub struct Env {
    pub(crate) store: Store,
    pub(crate) tokens: TokenLedger,
    pub(crate) timestamp: u64,
    pub(crate) contract: Address,
    pub(crate) signers: Vec<Address>,
    pub(crate) trusting: bool,
}

impl View for Env {
    type V = State;

    open(crate) spec fn view(&self) -> State {
        State {
            records: self.store@,
            balances: self.tokens@,
            supply: self.tokens.supply(),
            now: self.timestamp,
            contract: self.contract,
            signers: Set::new(|who: Address| self.trusting || self.signers@.contains(who)),
        }
    }
}

impl Env {
    /// The parts are in order, and custody holds at least what is locked.
    pub open(crate) spec fn sound(&self) -> bool {
        &&& self.store.wf()
        &&& self.tokens.wf()
        &&& self.store.locked_total() <= self.tokens.balance_of(self.contract)
    }

    /// The ledger is in order: its parts are sound and what it holds is valid.
    pub open spec fn wf(&self) -> bool {
        self.sound() && self@.valid()
    }

    /// A ledger on which nothing has happened, with `contract` as its custody
    /// account.
    pub fn new(contract: Address) -> (env: Env)
        ensures
            env.wf(),
            env@ == State::empty(contract),
    {
        let env = Env {
            store: Store::new(),
            tokens: TokenLedger::new(),
            timestamp: 0,
            contract,
            signers: Vec::new(),
            trusting: false,
        };
        proof {
            env.tokens.lemma_view();
            assert(env@.signers =~= Set::<Address>::empty());
            assert(env@.balances =~= Map::total(|who: Address| 0int));
            assert(env@ =~= State::empty(contract));
        }
        env
    }

    /// The ledger time.
    pub fn timestamp(&self) -> (now: u64)
        ensures
            now == self@.now,
    {
        self.timestamp
    }

    /// Sets the ledger time.
    pub fn set_timestamp(&mut self, now: u64)
        requires
            old(self).wf(),
        ensures
            final(self).wf(),
            final(self)@ == (State { now, ..old(self)@ }),
    {
        self.timestamp = now;
    }

    /// The custody account.
    pub fn current_contract_address(&self) -> (contract: Address)
        ensures
            contract == self@.contract,
    {
        self.contract
    }

    /// Takes every identity as having signed from now on.
    pub fn mock_all_auths(&mut self)
        requires
            old(self).wf(),
        ensures
            final(self).wf(),
            final(self)@ == (State { signers: Set::full(), ..old(self)@ }),
    {
        self.trusting = true;
        assert(self@.signers =~= Set::<Address>::full());
    }

    /// Takes `who` as having signed from now on.
    pub fn authorize(&mut self, who: Address)
        requires
            old(self).wf(),
        ensures
            final(self).wf(),
            final(self)@ == (State { signers: old(self)@.signers.insert(who), ..old(self)@ }),
    {
        self.signers.push(who);
        proof {
            let before = old(self).signers@;
            let after = self.signers@;
            assert(after == before.push(who));
            assert forall|other: Address| after.contains(other) <==> (before.contains(other)
                || other == who) by {
                if before.contains(other) {
                    let i = choose|i: int| 0 <= i < before.len() && before[i] == other;
                    assert(after[i] == other);
                }
                if other == who {
                    assert(after[before.len() as int] == who);
                }
            }
            assert(self@.signers =~= old(self)@.signers.insert(who));
        }
    }

    /// Whether `who` may act.
    pub fn is_authorized(&self, who: &Address) -> (allowed: bool)
        ensures
            allowed == self@.authorized(*who),
    {
        if who.same(&self.contract) {
            return false;
        }
        if self.trusting {
            return true;
        }
        let mut i: usize = 0;
        while i < self.signers.len()
            invariant
                *who != self.contract,
                !self.trusting,
                i <= self.signers.len(),
                forall|j: int| 0 <= j < i ==> self.signers[j] != *who,
            decreases self.signers.len() - i,
        {
            if self.signers[i].same(who) {
                return true;
            }
            i += 1;
        }
        false
    }

    /// The records.
    pub fn storage(&self) -> (store: &Store)
        requires
            self.wf(),
        ensures
            store.wf(),
            store@ == self@.records,
    {
        &self.store
    }

    /// The token balance of `who`.
    pub fn token_balance(&self, who: &Address) -> (balance: i128)
        requires
            self.wf(),
        ensures
            balance == self@.balances[*who],
    {
        self.tokens.balance(who)
    }

    /// Creates `amount` new tokens in `to`'s balance.
    pub fn mint(&mut self, to: &Address, amount: i128)
        requires
            old(self).wf(),
            0 <= amount,
            old(self)@.supply + amount <= i128::MAX,
        ensures
            final(self).wf(),
            final(self)@ == (State {
                balances: old(self)@.balances.insert(*to, old(self)@.balances[*to] + amount),
                supply: old(self)@.supply + amount,
                ..old(self)@
            }),
    {
        proof {
            self.tokens.lemma_view();
            assert(self.tokens@[self.contract] == self.tokens.balance_of(self.contract));
        }
        self.tokens.mint(to, amount);
        proof {
            self.tokens.lemma_view();
            assert(self.tokens@[self.contract] == self.tokens.balance_of(self.contract));
            assert forall|who: Address| 0 <= #[trigger] self@.balances[who] <= self@.supply by {
                self.tokens.lemma_within_supply(who);
            }
        }
    }
}

} // verus!
