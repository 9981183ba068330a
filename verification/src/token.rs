//! A token ledger: one balance per holder, moved by transfers and raised by
//! minting. No balance is negative, and the supply stays within 127 bits, so
//! a transfer that the sender can pay never fails.

use vstd::prelude::*;
use crate::sums::{
    lemma_total_covers,
    lemma_total_nonnegative,
    lemma_total_push,
    lemma_total_update,
    total,
};
use crate::types::Address;

verus! {

struct Account {
    owner: Address,
    balance: i128,
}

/// A ledger of token balances.
pub struct TokenLedger {
    accounts: Vec<Account>,
}

spec fn balances(accounts: Seq<Account>) -> Seq<int> {
    accounts.map_values(|account: Account| account.balance as int)
}

spec fn holds(accounts: Seq<Account>, who: Address) -> bool {
    exists|i: int| 0 <= i < accounts.len() && #[trigger] accounts[i].owner == who
}

spec fn slot(accounts: Seq<Account>, who: Address) -> int {
    choose|i: int| 0 <= i < accounts.len() && #[trigger] accounts[i].owner == who
}

/// Balances after `amount` moved from `from` to `to`.
pub open spec fn moved(balances: Map<Address, int>, from: Address, to: Address, amount: int) -> Map<
    Address,
    int,
> {
    let debited = balances.insert(from, balances[from] - amount);
    debited.insert(to, debited[to] + amount)
}

impl View for TokenLedger {
    type V = Map<Address, int>;

    /// Every holder's balance; zero for one the ledger has never seen.
    closed spec fn view(&self) -> Map<Address, int> {
        Map::total(|who: Address| self.balance_of(who))
    }
}

impl TokenLedger {
    /// Each holder has one balance, none is negative, and their sum fits 127
    /// bits.
    pub closed spec fn wf(&self) -> bool {
        &&& forall|i: int, j: int|
            0 <= i < j < self.accounts.len() ==> self.accounts[i].owner != self.accounts[j].owner
        &&& forall|i: int| 0 <= i < self.accounts.len() ==> self.accounts[i].balance >= 0
        &&& total(balances(self.accounts@)) <= i128::MAX
    }

    /// The balance of `who`: zero for a holder the ledger has never seen.
    pub closed spec fn balance_of(&self, who: Address) -> int {
        if holds(self.accounts@, who) {
            self.accounts[slot(self.accounts@, who)].balance as int
        } else {
            0
        }
    }

    /// The sum of all balances.
    pub closed spec fn supply(&self) -> int {
        total(balances(self.accounts@))
    }

    /// The view gives every identity its balance.
    pub proof fn lemma_view(&self)
        ensures
            self@.dom() == Set::<Address>::full(),
            forall|who: Address| #[trigger] self@[who] == self.balance_of(who),
    {
    }

    /// No balance is negative, and none exceeds the supply.
    pub proof fn lemma_within_supply(&self, who: Address)
        requires
            self.wf(),
        ensures
            0 <= self.balance_of(who) <= self.supply() <= i128::MAX,
    {
        let amounts = balances(self.accounts@);
        assert forall|j: int| 0 <= j < amounts.len() implies amounts[j] >= 0 by {}
        lemma_total_nonnegative(amounts);
        if holds(self.accounts@, who) {
            lemma_total_covers(amounts, slot(self.accounts@, who));
        }
    }

    /// A ledger on which nobody holds anything.
    pub fn new() -> (ledger: TokenLedger)
        ensures
            ledger.wf(),
            ledger.supply() == 0,
            forall|who: Address| ledger.balance_of(who) == 0,
    {
        TokenLedger { accounts: Vec::new() }
    }

    fn position(&self, who: &Address) -> (found: Option<usize>)
        requires
            self.wf(),
        ensures
            found matches Some(i) ==> i < self.accounts.len() && self.accounts[i as int].owner
                == *who && self.balance_of(*who) == self.accounts[i as int].balance,
            found is None ==> !holds(self.accounts@, *who) && self.balance_of(*who) == 0,
    {
        let mut i: usize = 0;
        while i < self.accounts.len()
            invariant
                self.wf(),
                i <= self.accounts.len(),
                forall|j: int| 0 <= j < i ==> self.accounts[j].owner != *who,
            decreases self.accounts.len() - i,
        {
            if self.accounts[i].owner.same(who) {
                proof {
                    let k = slot(self.accounts@, *who);
                    assert(self.accounts@[i as int].owner == *who);
                    assert(self.accounts@[k].owner == *who);
                    assert(k == i);
                }
                return Some(i);
            }
            i += 1;
        }
        None
    }

    /// The balance of `who`.
    pub fn balance(&self, who: &Address) -> (balance: i128)
        requires
            self.wf(),
        ensures
            balance == self.balance_of(*who),
            balance == self@[*who],
            balance >= 0,
    {
        match self.position(who) {
            Some(i) => self.accounts[i].balance,
            None => 0,
        }
    }

    /// Sets one holder's balance and leaves every other as it was.
    fn put(&mut self, who: &Address, balance: i128)
        requires
            old(self).wf(),
            balance >= 0,
            old(self).supply() - old(self).balance_of(*who) + balance <= i128::MAX,
        ensures
            final(self).wf(),
            final(self).supply() == old(self).supply() - old(self).balance_of(*who) + balance,
            final(self).balance_of(*who) == balance,
            forall|other: Address|
                other != *who ==> final(self).balance_of(other) == old(self).balance_of(other),
    {
        let ghost before = self.accounts@;
        match self.position(who) {
            Some(i) => {
                self.accounts.set(i, Account { owner: *who, balance });
                proof {
                    let after = self.accounts@;
                    assert(balances(after) =~= balances(before).update(i as int, balance as int));
                    lemma_total_update(balances(before), i as int, balance as int);
                    assert forall|other: Address| other != *who implies self.balance_of(other)
                        == old(self).balance_of(other) by {
                        if holds(before, other) {
                            let k = slot(before, other);
                            assert(after[k].owner == other);
                            assert(holds(after, other));
                            assert(slot(after, other) == k);
                        } else if holds(after, other) {
                            let k = slot(after, other);
                            assert(before[k].owner == other);
                        }
                    }
                    assert(after[i as int].owner == *who);
                    assert(slot(after, *who) == i);
                }
            },
            None => {
                self.accounts.push(Account { owner: *who, balance });
                proof {
                    let after = self.accounts@;
                    let last = before.len() as int;
                    assert(balances(after) =~= balances(before).push(balance as int));
                    lemma_total_push(balances(before), balance as int);
                    assert(after[last].owner == *who);
                    assert(slot(after, *who) == last);
                    assert forall|other: Address| other != *who implies self.balance_of(other)
                        == old(self).balance_of(other) by {
                        if holds(before, other) {
                            let k = slot(before, other);
                            assert(after[k].owner == other);
                            assert(holds(after, other));
                            assert(slot(after, other) == k);
                        } else if holds(after, other) {
                            let k = slot(after, other);
                            assert(before[k].owner == other);
                        }
                    }
                }
            },
        }
    }

    /// Creates `amount` new tokens in `to`'s balance.
    pub fn mint(&mut self, to: &Address, amount: i128)
        requires
            old(self).wf(),
            0 <= amount,
            old(self).supply() + amount <= i128::MAX,
        ensures
            final(self).wf(),
            final(self).supply() == old(self).supply() + amount,
            final(self)@ == old(self)@.insert(*to, old(self)@[*to] + amount),
    {
        proof {
            self.lemma_within_supply(*to);
        }
        let held = self.balance(to);
        self.put(to, held + amount);
        assert(self@ =~= old(self)@.insert(*to, old(self)@[*to] + amount));
    }

    /// Moves `amount` from `from`'s balance to `to`'s. The supply stays as it
    /// is; where both are the same holder, so does every balance.
    pub fn transfer(&mut self, from: &Address, to: &Address, amount: i128)
        requires
            old(self).wf(),
            0 <= amount <= old(self).balance_of(*from),
        ensures
            final(self).wf(),
            final(self).supply() == old(self).supply(),
            final(self)@ == moved(old(self)@, *from, *to, amount as int),
    {
        proof {
            self.lemma_within_supply(*from);
        }
        let paid = self.balance(from);
        self.put(from, paid - amount);
        let ghost debited = self@;
        proof {
            self.lemma_within_supply(*to);
            assert(debited =~= old(self)@.insert(*from, old(self)@[*from] - amount));
        }
        let held = self.balance(to);
        self.put(to, held + amount);
        assert(self@ =~= debited.insert(*to, debited[*to] + amount));
    }
}

} // verus!
