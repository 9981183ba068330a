use dao_governance::env::Env;
use dao_governance::store::Store;
use dao_governance::token::TokenLedger;
use dao_governance::types::{Address, DataKey, Proposal, Record, TokenConfig, Vote};

fn holder(tag: u8) -> Address {
    Address::new([tag; 56])
}

fn sample(id: u64) -> Proposal {
    Proposal {
        id,
        title: String::from("title"),
        description: String::from("description"),
        deadline: 5,
        yes_votes: 1,
        no_votes: 2,
        creator: holder(1),
        active: true,
    }
}

#[test]
fn store_keeps_one_record_under_each_name() {
    let mut store = Store::new();
    let a = holder(1);
    let b = holder(2);
    assert_eq!(store.get(&DataKey::TokenConfig), None);
    assert!(!store.has(&DataKey::ProposalCount));

    store.set(DataKey::ProposalCount, Record::Count(1));
    store.set(DataKey::Proposal(1), Record::Proposal(sample(1)));
    store.set(DataKey::Vote(1, a), Record::Vote(Vote { voter: a, amount: 3, is_yes: true }));
    store.set(DataKey::LockedTokens(a), Record::Locked(3));
    store.set(DataKey::LockedTokens(b), Record::Locked(4));
    store.set(DataKey::ProposalCount, Record::Count(2));

    assert_eq!(store.get(&DataKey::ProposalCount), Some(Record::Count(2)));
    assert_eq!(store.proposal_count(), Some(2));
    assert_eq!(store.proposal(1), Some(sample(1)));
    assert_eq!(store.proposal(2), None);
    assert_eq!(store.vote(1, &a), Some(Vote { voter: a, amount: 3, is_yes: true }));
    assert_eq!(store.vote(1, &b), None);
    assert_eq!(store.vote(2, &a), None);
    assert_eq!(store.locked(&a), Some(3));
    assert_eq!(store.locked(&b), Some(4));
    assert_eq!(store.config(), None);
    assert!(store.has(&DataKey::Vote(1, a)));
    assert!(!store.has(&DataKey::Vote(1, b)));

    store.remove(&DataKey::LockedTokens(a));
    assert_eq!(store.locked(&a), None);
    assert_eq!(store.locked(&b), Some(4));
    assert_eq!(store.proposal(1), Some(sample(1)));
    store.remove(&DataKey::LockedTokens(a));
    assert_eq!(store.locked(&b), Some(4));

    let config = TokenConfig { total_supply: 9, admin: b };
    store.set(DataKey::TokenConfig, Record::Config(config));
    assert_eq!(store.config(), Some(config));
}

#[test]
fn tokens_move_and_the_supply_stays() {
    let mut ledger = TokenLedger::new();
    let a = holder(1);
    let b = holder(2);
    assert_eq!(ledger.balance(&a), 0);
    ledger.mint(&a, 100);
    ledger.mint(&a, 20);
    ledger.mint(&b, 0);
    assert_eq!(ledger.balance(&a), 120);
    assert_eq!(ledger.balance(&b), 0);

    ledger.transfer(&a, &b, 50);
    assert_eq!((ledger.balance(&a), ledger.balance(&b)), (70, 50));
    ledger.transfer(&b, &a, 0);
    assert_eq!((ledger.balance(&a), ledger.balance(&b)), (70, 50));
    ledger.transfer(&a, &a, 70);
    assert_eq!((ledger.balance(&a), ledger.balance(&b)), (70, 50));
    ledger.transfer(&b, &holder(3), 50);
    assert_eq!((ledger.balance(&b), ledger.balance(&holder(3))), (0, 50));

    ledger.mint(&b, i128::MAX - 120);
    assert_eq!(ledger.balance(&b), i128::MAX - 120);
    ledger.transfer(&a, &b, 70);
    ledger.transfer(&holder(3), &b, 50);
    assert_eq!(ledger.balance(&b), i128::MAX);
}

#[test]
fn new_ledger_is_empty() {
    let custody = holder(0);
    let env = Env::new(custody);
    assert_eq!(env.timestamp(), 0);
    assert_eq!(env.current_contract_address(), custody);
    assert_eq!(env.token_balance(&custody), 0);
    assert_eq!(env.storage().get(&DataKey::TokenConfig), None);
    assert_eq!(env.storage().get(&DataKey::ProposalCount), None);
    assert!(!env.is_authorized(&holder(1)));
}

#[test]
fn signing_and_the_clock() {
    let custody = holder(0);
    let mut env = Env::new(custody);
    env.authorize(holder(1));
    env.authorize(custody);
    assert!(env.is_authorized(&holder(1)));
    assert!(!env.is_authorized(&holder(2)));
    // the custody account never acts on itself
    assert!(!env.is_authorized(&custody));
    env.mock_all_auths();
    assert!(env.is_authorized(&holder(2)));
    assert!(!env.is_authorized(&custody));

    env.set_timestamp(77);
    assert_eq!(env.timestamp(), 77);
    env.set_timestamp(5);
    assert_eq!(env.timestamp(), 5);

    env.mint(&holder(2), 9);
    env.mint(&custody, 4);
    assert_eq!(env.token_balance(&holder(2)), 9);
    assert_eq!(env.token_balance(&custody), 4);
}
