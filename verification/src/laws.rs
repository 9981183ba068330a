//! What holds of every run of the ledger.
//!
//! A run is a sequence of calls, each taken at the state that the calls before
//! it left. A call that is refused leaves the state as it was.

use vstd::prelude::*;
use crate::env::{consistent, State};
use crate::registry::{lemma_present_of_full, opened};
use crate::setup::MEMBER_GRANT;
use crate::store::proposal_in;
use crate::types::{Address, DAOError, DataKey, Proposal, Vote};
use crate::voting::accepts_votes;

verus! {

/// One call on the ledger.
pub enum Call {
    Initialise { admin: Address, members: Seq<Address> },
    CreateProposal { creator: Address, title: String, description: String, deadline: u64 },
    Vote { voter: Address, id: u64, is_yes: bool, amount: u64 },
    TallyProposal { id: u64 },
    UnlockTokens { voter: Address },
    SetTimestamp { now: u64 },
    MockAllAuths,
    Authorize { who: Address },
    Mint { to: Address, minted: int },
}

impl State {
    /// Whether `call` may be made at this state: its caller has signed where
    /// the call asks for that, and the sums it writes fit.
    pub open spec fn allows(self, call: Call) -> bool {
        match call {
            Call::Initialise { admin, members } => {
                &&& self.config() is Some || self.authorized(admin)
                &&& members.len() <= u32::MAX
                &&& self.config() is None ==> self.supply + members.len() * MEMBER_GRANT <= i128::MAX
            },
            Call::CreateProposal { creator, deadline, .. } => {
                &&& self.authorized(creator)
                &&& deadline > self.now ==> opened(self.count()) < u64::MAX
            },
            Call::Vote { voter, id, is_yes, amount } => {
                &&& self.authorized(voter)
                &&& self.vote_fits(voter, id, is_yes, amount)
            },
            Call::TallyProposal { .. } => true,
            Call::UnlockTokens { voter } => self.authorized(voter),
            Call::SetTimestamp { .. } => true,
            Call::MockAllAuths => true,
            Call::Authorize { .. } => true,
            Call::Mint { minted, .. } => 0 <= minted && self.supply + minted <= i128::MAX,
        }
    }

    /// The state that `call` leaves.
    pub open spec fn step(self, call: Call) -> State {
        match call {
            Call::Initialise { admin, members } => match self.initialise(admin, members) {
                Ok(next) => next,
                Err(_) => self,
            },
            Call::CreateProposal { creator, title, description, deadline } => match self.create_proposal(
                creator,
                title,
                description,
                deadline,
            ) {
                Ok((next, _)) => next,
                Err(_) => self,
            },
            Call::Vote { voter, id, is_yes, amount } => match self.vote(voter, id, is_yes, amount) {
                Ok(next) => next,
                Err(_) => self,
            },
            Call::TallyProposal { id } => match self.tally_proposal(id) {
                Ok((next, _)) => next,
                Err(_) => self,
            },
            Call::UnlockTokens { voter } => match self.unlock_tokens(voter) {
                Ok(next) => next,
                Err(_) => self,
            },
            Call::SetTimestamp { now } => State { now, ..self },
            Call::MockAllAuths => State { signers: Set::full(), ..self },
            Call::Authorize { who } => State { signers: self.signers.insert(who), ..self },
            Call::Mint { to, minted } => State {
                balances: self.balances.insert(to, self.balances[to] + minted),
                supply: self.supply + minted,
                ..self
            },
        }
    }

    /// The state that `calls` leave, made one after the other.
    pub open spec fn run(self, calls: Seq<Call>) -> State
        decreases calls.len(),
    {
        if calls.len() == 0 {
            self
        } else {
            self.run(calls.drop_last()).step(calls.last())
        }
    }

    /// Whether each of `calls` may be made at the state where its turn comes.
    pub open spec fn allows_run(self, calls: Seq<Call>) -> bool
        decreases calls.len(),
    {
        calls.len() > 0 ==> self.allows_run(calls.drop_last()) && self.run(calls.drop_last()).allows(
            calls.last(),
        )
    }
}

/// What one call leaves of the records: they stay in order, the counter does
/// not fall, no vote is changed or dropped, and a proposal stays the one it
/// was, with tallies that do not fall and no way back from closed to active.
proof fn lemma_step_keeps(s: State, call: Call)
    requires
        consistent(s.records),
        s.allows(call),
    ensures
        consistent(s.step(call).records),
        opened(s.step(call).count()) >= opened(s.count()),
        s.config() is Some ==> s.step(call).config() == s.config(),
        forall|id: u64, voter: Address| (#[trigger] s.vote_of(id, voter)) is Some ==> s.step(
            call,
        ).vote_of(id, voter) == s.vote_of(id, voter),
        forall|id: u64| (#[trigger] s.proposal(id)) is Some ==> s.step(call).proposal(id) is Some
            && grown(s.proposal(id)->0, s.step(call).proposal(id)->0),
{
    let next = s.step(call);
    match call {
        Call::Initialise { admin, members } => {
            if s.initialise(admin, members) is Ok {
                s.lemma_initialise_consistent(admin, members);
                assert forall|id: u64, voter: Address| (#[trigger] s.vote_of(id, voter)) is Some implies next.vote_of(
                    id,
                    voter,
                ) == s.vote_of(id, voter) by {}
                assert forall|id: u64| (#[trigger] s.proposal(id)) is Some implies next.proposal(id) is Some
                    && grown(s.proposal(id)->0, next.proposal(id)->0) by {}
            }
        },
        Call::CreateProposal { creator, title, description, deadline } => {
            if s.create_proposal(creator, title, description, deadline) is Ok {
                s.lemma_create_proposal_consistent(creator, title, description, deadline);
                let new_id = (opened(s.count()) + 1) as u64;
                assert(!s.records.contains_key(DataKey::Proposal(new_id)));
                assert forall|id: u64, voter: Address| (#[trigger] s.vote_of(id, voter)) is Some implies next.vote_of(
                    id,
                    voter,
                ) == s.vote_of(id, voter) by {}
                assert forall|id: u64| (#[trigger] s.proposal(id)) is Some implies next.proposal(id) is Some
                    && grown(s.proposal(id)->0, next.proposal(id)->0) by {
                    assert(id != new_id);
                }
            }
        },
        Call::Vote { voter, id, is_yes, amount } => {
            if s.vote(voter, id, is_yes, amount) is Ok {
                s.lemma_vote_consistent(voter, id, is_yes, amount);
                assert(s.vote_of(id, voter) is None);
                assert forall|other: u64, who: Address| (#[trigger] s.vote_of(other, who)) is Some implies next.vote_of(
                    other,
                    who,
                ) == s.vote_of(other, who) by {}
                assert forall|other: u64| (#[trigger] s.proposal(other)) is Some implies next.proposal(other) is Some
                    && grown(s.proposal(other)->0, next.proposal(other)->0) by {}
            }
        },
        Call::TallyProposal { id } => {
            if s.tally_proposal(id) is Ok {
                s.lemma_tally_proposal_consistent(id);
                assert forall|other: u64, who: Address| (#[trigger] s.vote_of(other, who)) is Some implies next.vote_of(
                    other,
                    who,
                ) == s.vote_of(other, who) by {}
                assert forall|other: u64| (#[trigger] s.proposal(other)) is Some implies next.proposal(other) is Some
                    && grown(s.proposal(other)->0, next.proposal(other)->0) by {}
            }
        },
        Call::UnlockTokens { voter } => {
            if s.unlock_tokens(voter) is Ok {
                s.lemma_unlock_tokens_consistent(voter);
                assert forall|other: u64, who: Address| (#[trigger] s.vote_of(other, who)) is Some implies next.vote_of(
                    other,
                    who,
                ) == s.vote_of(other, who) by {}
                assert forall|other: u64| (#[trigger] s.proposal(other)) is Some implies next.proposal(other) is Some
                    && grown(s.proposal(other)->0, next.proposal(other)->0) by {}
            }
        },
        _ => {},
    }
}

/// Whether `after` is what `before` may have become: the same proposal, with
/// tallies that did not fall, and not active again once it was closed.
pub open spec fn grown(before: Proposal, after: Proposal) -> bool {
    &&& after.id == before.id
    &&& after.title == before.title
    &&& after.description == before.description
    &&& after.deadline == before.deadline
    &&& after.creator == before.creator
    &&& after.yes_votes >= before.yes_votes
    &&& after.no_votes >= before.no_votes
    &&& after.active ==> before.active
}

/// Every run leaves the records in order.
pub proof fn law_run_consistent(s: State, calls: Seq<Call>)
    requires
        consistent(s.records),
        s.allows_run(calls),
    ensures
        consistent(s.run(calls).records),
    decreases calls.len(),
{
    if calls.len() > 0 {
        law_run_consistent(s, calls.drop_last());
        lemma_step_keeps(s.run(calls.drop_last()), calls.last());
    }
}

/// Over every run the proposal counter does not fall, and the token settings,
/// once written, stay as they are.
pub proof fn law_counter_and_settings_stay(s: State, calls: Seq<Call>)
    requires
        consistent(s.records),
        s.allows_run(calls),
    ensures
        opened(s.run(calls).count()) >= opened(s.count()),
        s.config() is Some ==> s.run(calls).config() == s.config(),
    decreases calls.len(),
{
    if calls.len() > 0 {
        law_run_consistent(s, calls.drop_last());
        law_counter_and_settings_stay(s, calls.drop_last());
        lemma_step_keeps(s.run(calls.drop_last()), calls.last());
    }
}

/// A vote, once cast, stays as it was cast over every run.
pub proof fn law_votes_stay(s: State, calls: Seq<Call>, id: u64, voter: Address)
    requires
        consistent(s.records),
        s.allows_run(calls),
        s.vote_of(id, voter) is Some,
    ensures
        s.run(calls).vote_of(id, voter) == s.vote_of(id, voter),
    decreases calls.len(),
{
    if calls.len() > 0 {
        law_run_consistent(s, calls.drop_last());
        law_votes_stay(s, calls.drop_last(), id, voter);
        lemma_step_keeps(s.run(calls.drop_last()), calls.last());
    }
}

/// A proposal is never dropped or rewritten: over every run it keeps its id,
/// texts, deadline and creator, its tallies do not fall, and once closed it
/// is not active again.
pub proof fn law_proposals_only_grow(s: State, calls: Seq<Call>, id: u64)
    requires
        consistent(s.records),
        s.allows_run(calls),
        s.proposal(id) is Some,
    ensures
        s.run(calls).proposal(id) is Some,
        grown(s.proposal(id)->0, s.run(calls).proposal(id)->0),
    decreases calls.len(),
{
    if calls.len() > 0 {
        law_run_consistent(s, calls.drop_last());
        law_proposals_only_grow(s, calls.drop_last(), id);
        lemma_step_keeps(s.run(calls.drop_last()), calls.last());
    }
}

/// A proposal's tallies move only by a vote on it, cast while it is active
/// and its deadline has not passed.
pub proof fn law_tallies_move_by_votes_only(s: State, call: Call, id: u64)
    requires
        consistent(s.records),
        s.allows(call),
        s.proposal(id) is Some,
    ensures
        ({
            let before = s.proposal(id)->0;
            let after = s.step(call).proposal(id)->0;
            after.yes_votes != before.yes_votes || after.no_votes != before.no_votes ==> {
                &&& call matches Call::Vote { id: on, .. }
                &&& on == id
                &&& accepts_votes(before, s.now)
            }
        }),
{
    lemma_step_keeps(s, call);
    match call {
        Call::CreateProposal { creator, title, description, deadline } => {
            if s.create_proposal(creator, title, description, deadline) is Ok {
                let new_id = (opened(s.count()) + 1) as u64;
                assert(!s.records.contains_key(DataKey::Proposal(new_id)));
            }
        },
        _ => {},
    }
}

/// The listing holds every proposal once, in the order of the ids from 1 to
/// the count.
pub proof fn law_listing_is_every_proposal(s: State)
    requires
        consistent(s.records),
    ensures
        s.list_proposals().len() == opened(s.count()),
        forall|i: int|
            0 <= i < opened(s.count()) ==> {
                &&& s.proposal((i + 1) as u64) == Some(#[trigger] s.list_proposals()[i])
                &&& s.list_proposals()[i].id == i + 1
            },
{
    let slots = s.slots();
    assert forall|i: int| 0 <= i < slots.len() implies slots[i] is Some by {
        assert(s.records.contains_key(DataKey::Proposal((i + 1) as u64)));
    }
    lemma_present_of_full(slots);
    assert forall|i: int| 0 <= i < opened(s.count()) implies {
        &&& s.proposal((i + 1) as u64) == Some(#[trigger] s.list_proposals()[i])
        &&& s.list_proposals()[i].id == i + 1
    } by {
        assert(slots[i] == s.proposal((i + 1) as u64));
        assert(proposal_in(s.records, (i + 1) as u64) is Some);
    }
}

/// A request to open a proposal with a deadline in the future is granted.
/// Its id is one more than the count: 1 where there is no proposal yet, and
/// greater than the id of every proposal there is. The proposal then kept
/// under that id is active, has nothing voted, and holds the fields given.
pub proof fn law_proposal_opened(
    s: State,
    creator: Address,
    title: String,
    description: String,
    deadline: u64,
)
    requires
        consistent(s.records),
        opened(s.count()) < u64::MAX,
        deadline > s.now,
    ensures
        s.create_proposal(creator, title, description, deadline) is Ok,
        ({
            let (next, id) = s.create_proposal(creator, title, description, deadline)->Ok_0;
            let kept = Proposal {
                id,
                title,
                description,
                deadline,
                yes_votes: 0,
                no_votes: 0,
                creator,
                active: true,
            };
            &&& id == opened(s.count()) + 1
            &&& (forall|other: u64| s.proposal(other) is None) ==> id == 1
            &&& forall|other: u64| (#[trigger] s.proposal(other)) is Some ==> other < id
            &&& next.get_proposal(id) == Ok::<Proposal, DAOError>(kept)
            &&& opened(next.count()) == id
        }),
{
    if opened(s.count()) >= 1 {
        assert(s.records.contains_key(DataKey::Proposal(1)));
        assert(s.proposal(1) is Some);
    }
    assert forall|other: u64| (#[trigger] s.proposal(other)) is Some implies other <= opened(
        s.count(),
    ) by {
        assert(s.records.contains_key(DataKey::Proposal(other)));
    }
}

/// Ids are handed out in strictly increasing order: whatever happens between
/// two requests that are granted, the later one gets the greater id.
pub proof fn law_ids_strictly_increase(
    s: State,
    first: Call,
    calls: Seq<Call>,
    second: Call,
)
    requires
        consistent(s.records),
        first is CreateProposal,
        second is CreateProposal,
        s.allows(first),
        s.step(first).allows_run(calls),
        s.step(first).run(calls).allows(second),
        granted_id(s, first) is Some,
        granted_id(s.step(first).run(calls), second) is Some,
    ensures
        granted_id(s, first)->0 < granted_id(s.step(first).run(calls), second)->0,
{
    lemma_step_keeps(s, first);
    law_counter_and_settings_stay(s.step(first), calls);
}

/// The id that a request to open a proposal is granted at `s`, if it is.
pub open spec fn granted_id(s: State, call: Call) -> Option<u64> {
    match call {
        Call::CreateProposal { creator, title, description, deadline } => match s.create_proposal(
            creator,
            title,
            description,
            deadline,
        ) {
            Ok((_, id)) => Some(id),
            Err(_) => None,
        },
        _ => None,
    }
}

/// What one accepted vote does: the amount leaves the voter's balance for
/// custody, the vote is recorded as cast, the amount is added to the tally of
/// its side and to the voter's lock, and nobody else's balance or lock moves.
pub proof fn law_vote_moves_amount(s: State, voter: Address, id: u64, is_yes: bool, amount: u64)
    requires
        consistent(s.records),
        s.allows(Call::Vote { voter, id, is_yes, amount }),
        s.vote(voter, id, is_yes, amount) is Ok,
    ensures
        ({
            let next = s.vote(voter, id, is_yes, amount)->Ok_0;
            let before = s.proposal(id)->0;
            let after = next.proposal(id)->0;
            &&& s.balances[voter] - next.balances[voter] == amount
            &&& next.balances[s.contract] - s.balances[s.contract] == amount
            &&& next.locked(voter) == s.locked(voter) + amount
            &&& next.vote_of(id, voter) == Some(Vote { voter, amount, is_yes })
            &&& after.yes_votes == before.yes_votes + if is_yes {
                amount
            } else {
                0
            }
            &&& after.no_votes == before.no_votes + if is_yes {
                0
            } else {
                amount
            }
            &&& forall|who: Address|
                who != voter && who != s.contract ==> next.balances[who] == s.balances[who]
            &&& forall|who: Address| who != voter ==> next.lock(who) == s.lock(who)
        }),
{
}

/// At most one vote per voter and proposal. Once a vote is cast, whatever
/// happens afterwards, a further vote of the same voter on the same proposal
/// is refused and changes nothing; the reason is `AlreadyVoted` wherever the
/// further vote has some weight and the proposal still takes votes.
pub proof fn law_one_vote_per_voter(
    s: State,
    voter: Address,
    id: u64,
    is_yes: bool,
    amount: u64,
    calls: Seq<Call>,
    again_yes: bool,
    again_amount: u64,
)
    requires
        consistent(s.records),
        s.vote(voter, id, is_yes, amount) is Ok,
        s.vote(voter, id, is_yes, amount)->Ok_0.allows_run(calls),
    ensures
        ({
            let later = s.vote(voter, id, is_yes, amount)->Ok_0.run(calls);
            &&& later.vote(voter, id, again_yes, again_amount) is Err
            &&& later.step(Call::Vote { voter, id, is_yes: again_yes, amount: again_amount })
                == later
            &&& later.proposal(id) is Some
            &&& again_amount > 0 && accepts_votes(later.proposal(id)->0, later.now)
                ==> later.vote(voter, id, again_yes, again_amount) == Err::<State, DAOError>(
                DAOError::AlreadyVoted,
            )
        }),
{
    let cast = s.vote(voter, id, is_yes, amount)->Ok_0;
    s.lemma_vote_consistent(voter, id, is_yes, amount);
    assert(cast.vote_of(id, voter) is Some);
    assert(cast.proposal(id) is Some);
    law_votes_stay(cast, calls, id, voter);
    law_proposals_only_grow(cast, calls, id);
}

/// What `voter` commits over `calls`: the sum of the amounts of its votes.
pub open spec fn pledged(calls: Seq<Call>, voter: Address) -> int
    decreases calls.len(),
{
    if calls.len() == 0 {
        0
    } else {
        pledged(calls.drop_last(), voter) + match calls.last() {
            Call::Vote { voter: by, amount, .. } => if by == voter {
                amount as int
            } else {
                0
            },
            _ => 0,
        }
    }
}

/// Whether `calls` are votes that are each accepted in their turn.
pub open spec fn votes_accepted(s: State, calls: Seq<Call>) -> bool
    decreases calls.len(),
{
    calls.len() > 0 ==> {
        &&& votes_accepted(s, calls.drop_last())
        &&& s.run(calls.drop_last()).allows(calls.last())
        &&& calls.last() matches Call::Vote { voter, id, is_yes, amount }
        &&& s.run(calls.drop_last()).vote(voter, id, is_yes, amount) is Ok
    }
}

/// Conservation. After any sequence of accepted votes, what a voter has
/// locked is what it had locked before plus the sum of the amounts of its
/// votes in the sequence, and its balance has fallen by that sum. From a
/// state in which the voter has nothing locked, as after a release, its lock
/// is the sum of its votes since.
pub proof fn law_locks_sum_votes(s: State, calls: Seq<Call>, voter: Address)
    requires
        consistent(s.records),
        votes_accepted(s, calls),
    ensures
        s.run(calls).locked(voter) == s.locked(voter) + pledged(calls, voter),
        voter != s.contract ==> s.run(calls).balances[voter] == s.balances[voter] - pledged(
            calls,
            voter,
        ),
        s.run(calls).contract == s.contract,
        consistent(s.run(calls).records),
    decreases calls.len(),
{
    if calls.len() > 0 {
        law_locks_sum_votes(s, calls.drop_last(), voter);
        let before = s.run(calls.drop_last());
        match calls.last() {
            Call::Vote { voter: by, id, is_yes, amount } => {
                law_vote_moves_amount(before, by, id, is_yes, amount);
                before.lemma_vote_consistent(by, id, is_yes, amount);
            },
            _ => {},
        }
    }
}

/// What `voter` commits over the run of `calls` from `s`: the sum of the
/// amounts of its votes that are accepted.
pub open spec fn committed(s: State, calls: Seq<Call>, voter: Address) -> int
    decreases calls.len(),
{
    if calls.len() == 0 {
        0
    } else {
        committed(s, calls.drop_last(), voter) + match calls.last() {
            Call::Vote { voter: by, id, is_yes, amount } => if by == voter && s.run(
                calls.drop_last(),
            ).vote(by, id, is_yes, amount) is Ok {
                amount as int
            } else {
                0
            },
            _ => 0,
        }
    }
}

/// A lock is the sum of the votes since the last release. Over every run in
/// which a voter asks for no release, whatever else is called and by whom,
/// what the voter has locked grows by exactly the amounts of its votes that
/// are accepted; so from a state in which it has nothing locked, its lock is
/// the sum of those votes.
pub proof fn law_lock_is_votes_since_release(s: State, calls: Seq<Call>, voter: Address)
    requires
        consistent(s.records),
        s.allows_run(calls),
        forall|i: int| 0 <= i < calls.len() ==> calls[i] != (Call::UnlockTokens { voter }),
    ensures
        s.run(calls).locked(voter) == s.locked(voter) + committed(s, calls, voter),
    decreases calls.len(),
{
    if calls.len() > 0 {
        let earlier = calls.drop_last();
        law_lock_is_votes_since_release(s, earlier, voter);
        law_run_consistent(s, earlier);
        let before = s.run(earlier);
        let call = calls.last();
        assert(call == calls[calls.len() - 1]);
        match call {
            Call::Vote { voter: by, id, is_yes, amount } => {
                if before.vote(by, id, is_yes, amount) is Ok {
                    law_vote_moves_amount(before, by, id, is_yes, amount);
                }
            },
            Call::UnlockTokens { voter: by } => {
                assert(by != voter);
            },
            _ => {},
        }
    }
}

/// Quorum arithmetic. Once the deadline has passed, the tally of a proposal
/// that is there is granted where the token settings are. It fails the
/// proposal whenever the votes cast do not exceed 51% of the total supply,
/// rounded down; otherwise it passes the proposal exactly when yes outweighs
/// no, so that a tie fails. Either way the proposal is closed, and nothing
/// else about it changes.
pub proof fn law_tally_quorum(s: State, id: u64)
    requires
        s.proposal(id) is Some,
        s.config() is Some,
        s.now > s.proposal(id)->0.deadline,
    ensures
        s.tally_proposal(id) is Ok,
        ({
            let (next, passed) = s.tally_proposal(id)->Ok_0;
            let proposal = s.proposal(id)->0;
            let threshold = s.config()->0.total_supply * 51 / 100;
            &&& proposal.yes_votes + proposal.no_votes <= threshold ==> !passed
            &&& proposal.yes_votes + proposal.no_votes > threshold ==> passed == (proposal.yes_votes
                > proposal.no_votes)
            &&& proposal.yes_votes == proposal.no_votes ==> !passed
            &&& next.proposal(id) == Some(Proposal { active: false, ..proposal })
        }),
{
}

/// A tally can be repeated: the second one answers as the first did and
/// leaves the ledger as the first left it.
pub proof fn law_tally_repeats(s: State, id: u64)
    requires
        s.tally_proposal(id) is Ok,
    ensures
        ({
            let (next, passed) = s.tally_proposal(id)->Ok_0;
            next.tally_proposal(id) == Ok::<(State, bool), DAOError>((next, passed))
        }),
{
    let (next, passed) = s.tally_proposal(id)->Ok_0;
    assert(next.records.insert(DataKey::Proposal(id), next.records[DataKey::Proposal(id)])
        =~= next.records);
    assert(next.tally_proposal(id)->Ok_0.0 =~= next);
}

/// Release. Where a voter has nothing locked, a release is granted and
/// changes nothing. Where it has a lock, the release is granted, moves
/// exactly the locked amount from custody back to the voter, leaves every
/// other balance alone and clears the lock, so that a release repeated right
/// after changes nothing.
pub proof fn law_release(s: State, voter: Address)
    requires
        consistent(s.records),
        s.authorized(voter),
    ensures
        s.unlock_tokens(voter) is Ok,
        s.locked(voter) == 0 ==> s.unlock_tokens(voter) == Ok::<State, DAOError>(s),
        ({
            let next = s.unlock_tokens(voter)->Ok_0;
            &&& next.balances[voter] == s.balances[voter] + s.locked(voter)
            &&& next.balances[s.contract] == s.balances[s.contract] - s.locked(voter)
            &&& forall|who: Address|
                who != voter && who != s.contract ==> next.balances[who] == s.balances[who]
            &&& next.locked(voter) == 0
            &&& forall|who: Address| who != voter ==> next.lock(who) == s.lock(who)
            &&& next.unlock_tokens(voter) == Ok::<State, DAOError>(next)
        }),
{
    if s.locked(voter) > 0 {
        assert(s.records.contains_key(DataKey::LockedTokens(voter)));
    }
}

} // verus!
