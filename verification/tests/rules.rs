use dao_governance::host::{host_error, read_error};
use dao_governance::registry::{checked_open_proposal, found, open_proposal, opened, present};
use dao_governance::setup::{setup, supply, Charter, MEMBER_GRANT};
use dao_governance::tally::{passes, quorum_threshold, tally};
use dao_governance::types::{Address, DAOError, Proposal, TokenConfig, Vote};
use dao_governance::voting::{
    cast_vote, checked_cast_vote, eligible, fits, holding, release, spendable, VoteReceipt,
};
use soroban_sdk::xdr::ScErrorType;

fn id_of(tag: u8) -> Address {
    Address::new([tag; 56])
}

fn proposal(id: u64, deadline: u64, yes_votes: u64, no_votes: u64, active: bool) -> Proposal {
    Proposal {
        id,
        title: String::from("Funding Initiative"),
        description: String::from("Fund new project"),
        deadline,
        yes_votes,
        no_votes,
        creator: id_of(9),
        active,
    }
}

fn settings(total_supply: u64) -> Option<TokenConfig> {
    Some(TokenConfig { total_supply, admin: id_of(1) })
}

#[test]
fn error_codes() {
    assert_eq!(DAOError::AlreadyInitialised.code(), 1);
    assert_eq!(DAOError::NotInitialised.code(), 2);
    assert_eq!(DAOError::InvalidProposal.code(), 3);
    assert_eq!(DAOError::ProposalExpired.code(), 4);
    assert_eq!(DAOError::AlreadyVoted.code(), 5);
    assert_eq!(DAOError::InsufficientTokens.code(), 6);
    assert_eq!(DAOError::VotingNotClosed.code(), 7);
    assert_eq!(DAOError::InvalidVote.code(), 8);
}

#[test]
fn identities_compare_by_their_bytes() {
    let mut key = [7u8; 56];
    let a = Address::new(key);
    assert!(a.same(&id_of(7)));
    key[55] = 8;
    assert!(!a.same(&Address::new(key)));
    key[55] = 7;
    key[0] = 6;
    assert!(!a.same(&Address::new(key)));
    assert_eq!(a.key, [7u8; 56]);
}

#[test]
fn threshold_is_51_percent_rounded_down() {
    assert_eq!(quorum_threshold(300), 153);
    assert_eq!(quorum_threshold(0), 0);
    assert_eq!(quorum_threshold(1), 0);
    assert_eq!(quorum_threshold(2), 1);
    assert_eq!(quorum_threshold(99), 50);
    assert_eq!(quorum_threshold(100), 51);
    assert_eq!(quorum_threshold(30_000_000), 15_300_000);
    assert_eq!(quorum_threshold(u64::MAX), 9407839477591871323);
}

#[test]
fn passing_takes_quorum_and_majority() {
    assert_eq!(passes(60, 40, 300), false);
    assert_eq!(passes(153, 0, 300), false);
    assert_eq!(passes(154, 0, 300), true);
    assert_eq!(passes(100, 54, 300), true);
    assert_eq!(passes(54, 100, 300), false);
    assert_eq!(passes(77, 77, 300), false);
    assert_eq!(passes(150, 150, 300), false);
    assert_eq!(passes(0, 0, 0), false);
    assert_eq!(passes(1, 0, 0), true);
    // sums beyond 64 bits are still compared as they are
    assert_eq!(passes(u64::MAX, u64::MAX, u64::MAX), false);
    assert_eq!(passes(u64::MAX, u64::MAX - 1, u64::MAX), true);
    assert_eq!(passes(9407839477591871323, 0, u64::MAX), false);
    assert_eq!(passes(9407839477591871324, 0, u64::MAX), true);
}

#[test]
fn tally_closes_and_answers() {
    let open = proposal(3, 1000, 60, 40, true);
    let mut closed = open.clone();
    closed.active = false;
    assert_eq!(tally(Some(open.clone()), 1001, settings(300)), Ok((closed.clone(), false)));
    assert_eq!(tally(Some(open.clone()), 1001, settings(190)), Ok((closed.clone(), true)));
    // a closed proposal is tallied again as it stands
    assert_eq!(tally(Some(closed.clone()), 2000, settings(190)), Ok((closed, true)));
}

#[test]
fn tally_refusals_come_in_order() {
    let open = proposal(3, 1000, 60, 40, true);
    assert_eq!(tally(None, 0, None), Err(DAOError::InvalidProposal));
    assert_eq!(tally(None, 2000, settings(300)), Err(DAOError::InvalidProposal));
    assert_eq!(tally(Some(open.clone()), 999, None), Err(DAOError::VotingNotClosed));
    assert_eq!(tally(Some(open.clone()), 1000, settings(300)), Err(DAOError::VotingNotClosed));
    // closed before its deadline, it is still too early
    assert_eq!(
        tally(Some(proposal(3, 1000, 60, 40, false)), 1000, settings(300)),
        Err(DAOError::VotingNotClosed)
    );
    assert_eq!(tally(Some(open), 1001, None), Err(DAOError::NotInitialised));
}

#[test]
fn weight_is_the_balance_where_it_fits() {
    assert_eq!(spendable(0), Ok(0));
    assert_eq!(spendable(100_0000000), Ok(100_0000000));
    assert_eq!(spendable(u64::MAX as i128), Ok(u64::MAX));
    assert_eq!(spendable(u64::MAX as i128 + 1), Err(DAOError::InvalidVote));
    assert_eq!(spendable(i128::MAX), Err(DAOError::InvalidVote));
    assert_eq!(spendable(-1), Err(DAOError::InvalidVote));
    assert_eq!(spendable(i128::MIN), Err(DAOError::InvalidVote));
}

#[test]
fn accepted_vote_writes_vote_tally_and_lock() {
    let voter = id_of(2);
    let before = proposal(1, 1000, 10, 20, true);

    let mut after = before.clone();
    after.yes_votes = 15;
    assert_eq!(
        cast_vote(Some(before.clone()), 1000, false, Some(5), None, voter, true, 5),
        Ok(VoteReceipt {
            vote: Vote { voter, amount: 5, is_yes: true },
            proposal: after,
            locked: 5,
        })
    );

    let mut after = before.clone();
    after.no_votes = 27;
    assert_eq!(
        cast_vote(Some(before), 0, false, Some(100), Some(30), voter, false, 7),
        Ok(VoteReceipt {
            vote: Vote { voter, amount: 7, is_yes: false },
            proposal: after,
            locked: 37,
        })
    );
}

#[test]
fn vote_is_refused_for_the_first_reason_that_applies() {
    let voter = id_of(2);
    let open = || Some(proposal(1, 1000, 0, 0, true));
    let inactive = || Some(proposal(1, 1000, 0, 0, false));

    // everything wrong at once: the amount is looked at first
    assert_eq!(
        cast_vote(None, 2000, true, None, None, voter, true, 0),
        Err(DAOError::InvalidVote)
    );
    assert_eq!(
        cast_vote(None, 2000, true, None, None, voter, true, 1),
        Err(DAOError::InvalidProposal)
    );
    assert_eq!(
        cast_vote(open(), 1001, true, None, None, voter, true, 1),
        Err(DAOError::ProposalExpired)
    );
    assert_eq!(
        cast_vote(inactive(), 1000, true, None, None, voter, true, 1),
        Err(DAOError::ProposalExpired)
    );
    assert_eq!(
        cast_vote(open(), 1000, true, None, None, voter, true, 1),
        Err(DAOError::AlreadyVoted)
    );
    assert_eq!(
        cast_vote(open(), 1000, false, None, None, voter, true, 1),
        Err(DAOError::NotInitialised)
    );
    assert_eq!(
        cast_vote(open(), 1000, false, Some(-1), None, voter, true, 1),
        Err(DAOError::InvalidVote)
    );
    assert_eq!(
        cast_vote(open(), 1000, false, Some(i128::MAX), None, voter, true, 1),
        Err(DAOError::InvalidVote)
    );
    assert_eq!(
        cast_vote(open(), 1000, false, Some(0), None, voter, true, 1),
        Err(DAOError::InsufficientTokens)
    );
    assert_eq!(
        cast_vote(open(), 1000, false, Some(70_0000000), None, voter, true, 100_0000000),
        Err(DAOError::InsufficientTokens)
    );
    assert!(cast_vote(open(), 1000, false, Some(1), None, voter, true, 1).is_ok());
}

#[test]
fn release_is_the_whole_lock_or_nothing() {
    assert_eq!(release(None, None), Ok(None));
    assert_eq!(release(None, settings(300)), Ok(None));
    assert_eq!(release(Some(0), None), Ok(None));
    assert_eq!(release(Some(0), settings(300)), Ok(None));
    assert_eq!(release(Some(1), settings(300)), Ok(Some(1)));
    assert_eq!(release(Some(u64::MAX), settings(0)), Ok(Some(u64::MAX)));
    assert_eq!(release(Some(1), None), Err(DAOError::NotInitialised));
}

#[test]
fn opening_takes_the_next_id() {
    let creator = id_of(2);
    let title = String::from("Funding Initiative");
    let description = String::from("Fund new project");
    for (count, id) in [(None, 1u64), (Some(0), 1), (Some(1), 2), (Some(41), 42)] {
        assert_eq!(
            open_proposal(count, 10, creator, title.clone(), description.clone(), 11),
            Ok(Proposal {
                id,
                title: title.clone(),
                description: description.clone(),
                deadline: 11,
                yes_votes: 0,
                no_votes: 0,
                creator,
                active: true,
            })
        );
    }
    assert_eq!(
        open_proposal(Some(u64::MAX - 1), 0, creator, title.clone(), description.clone(), 1)
            .unwrap()
            .id,
        u64::MAX
    );
    assert_eq!(
        open_proposal(Some(3), 10, creator, title.clone(), description.clone(), 10),
        Err(DAOError::ProposalExpired)
    );
    assert_eq!(
        open_proposal(None, u64::MAX, creator, title, description, 0),
        Err(DAOError::ProposalExpired)
    );
}

#[test]
fn listing_skips_what_is_not_there() {
    let first = proposal(1, 10, 0, 0, true);
    let third = proposal(3, 30, 5, 6, false);
    assert_eq!(present(&Vec::new()), Vec::new());
    assert_eq!(present(&vec![None, None]), Vec::new());
    assert_eq!(
        present(&vec![Some(first.clone()), None, Some(third.clone()), None]),
        vec![first.clone(), third.clone()]
    );
    assert_eq!(present(&vec![None, Some(third.clone()), Some(first.clone())]), vec![third, first]);
}

#[test]
fn setup_sums_the_grants() {
    let admin = id_of(1);
    assert_eq!(MEMBER_GRANT, 100 * 100000);
    assert_eq!(
        setup(None, None, admin, 3),
        Ok(Charter { config: TokenConfig { total_supply: 30_000_000, admin }, count: 0 })
    );
    assert_eq!(
        setup(None, Some(4), admin, 0),
        Ok(Charter { config: TokenConfig { total_supply: 0, admin }, count: 4 })
    );
    assert_eq!(
        setup(None, None, admin, u32::MAX).unwrap().config.total_supply,
        42949672950000000
    );
    assert_eq!(setup(settings(1), None, admin, 3), Err(DAOError::AlreadyInitialised));
    assert_eq!(setup(settings(1), Some(2), id_of(5), 0), Err(DAOError::AlreadyInitialised));
}

#[test]
fn failures_reach_the_host_as_contract_errors() {
    let all = [
        DAOError::AlreadyInitialised,
        DAOError::NotInitialised,
        DAOError::InvalidProposal,
        DAOError::ProposalExpired,
        DAOError::AlreadyVoted,
        DAOError::InsufficientTokens,
        DAOError::VotingNotClosed,
        DAOError::InvalidVote,
    ];
    for (i, error) in all.iter().enumerate() {
        let reported = host_error(*error);
        assert_eq!(reported.get_code(), i as u32 + 1);
        assert!(reported.is_type(ScErrorType::Contract));
        assert_eq!(reported, soroban_sdk::Error::from_contract_error(i as u32 + 1));
    }
    assert_ne!(host_error(DAOError::AlreadyVoted), host_error(DAOError::InvalidVote));
}

#[test]
fn host_errors_read_back() {
    for code in 1..=8u32 {
        let failure = DAOError::from_code(code).unwrap();
        assert_eq!(read_error(host_error(failure)), Some(failure));
        assert_eq!(read_error(soroban_sdk::Error::from_contract_error(code)), Some(failure));
    }
    // a contract's failure with a number that governance does not use
    assert_eq!(read_error(soroban_sdk::Error::from_contract_error(0)), None);
    assert_eq!(read_error(soroban_sdk::Error::from_contract_error(9)), None);
    assert_eq!(read_error(soroban_sdk::Error::from_contract_error(u32::MAX)), None);
    // a failure of the host itself, whatever number it carries
    for kind in [ScErrorType::Storage, ScErrorType::Auth, ScErrorType::Budget] {
        let error = soroban_sdk::Error::from_type_and_code(
            kind,
            soroban_sdk::xdr::ScErrorCode::InvalidInput,
        );
        assert_eq!(read_error(error), None);
    }
}

#[test]
fn codes_read_back() {
    assert_eq!(DAOError::from_code(0), None);
    assert_eq!(DAOError::from_code(1), Some(DAOError::AlreadyInitialised));
    assert_eq!(DAOError::from_code(2), Some(DAOError::NotInitialised));
    assert_eq!(DAOError::from_code(3), Some(DAOError::InvalidProposal));
    assert_eq!(DAOError::from_code(4), Some(DAOError::ProposalExpired));
    assert_eq!(DAOError::from_code(5), Some(DAOError::AlreadyVoted));
    assert_eq!(DAOError::from_code(6), Some(DAOError::InsufficientTokens));
    assert_eq!(DAOError::from_code(7), Some(DAOError::VotingNotClosed));
    assert_eq!(DAOError::from_code(8), Some(DAOError::InvalidVote));
    assert_eq!(DAOError::from_code(9), None);
    assert_eq!(DAOError::from_code(u32::MAX), None);
    for code in 1..=8u32 {
        assert_eq!(DAOError::from_code(code).unwrap().code(), code);
    }
}

#[test]
fn early_refusals_need_no_tokens() {
    let open = Some(proposal(1, 1000, 0, 0, true));
    assert_eq!(eligible(&None, 0, false, 0), Err(DAOError::InvalidVote));
    assert_eq!(eligible(&open, 0, false, 0), Err(DAOError::InvalidVote));
    assert_eq!(eligible(&None, 0, true, 1), Err(DAOError::InvalidProposal));
    assert_eq!(eligible(&open, 1001, false, 1), Err(DAOError::ProposalExpired));
    assert_eq!(
        eligible(&Some(proposal(1, 1000, 0, 0, false)), 5, false, 1),
        Err(DAOError::ProposalExpired)
    );
    assert_eq!(eligible(&open, 1000, true, 1), Err(DAOError::AlreadyVoted));
    assert_eq!(eligible(&open, 1000, false, 1), Ok(()));
    assert_eq!(eligible(&open, 0, false, u64::MAX), Ok(()));
}

#[test]
fn holding_is_the_weight_of_the_balance() {
    assert_eq!(holding(None), Err(DAOError::NotInitialised));
    assert_eq!(holding(Some(0)), Ok(0));
    assert_eq!(holding(Some(70_0000000)), Ok(70_0000000));
    assert_eq!(holding(Some(-5)), Err(DAOError::InvalidVote));
    assert_eq!(holding(Some(u64::MAX as i128 + 1)), Err(DAOError::InvalidVote));
}

#[test]
fn sums_fit_up_to_64_bits() {
    let tallied = Some(proposal(1, 1000, u64::MAX - 10, 5, true));
    assert!(fits(&tallied, None, true, 10));
    assert!(!fits(&tallied, None, true, 11));
    assert!(fits(&tallied, None, false, u64::MAX - 5));
    assert!(!fits(&tallied, None, false, u64::MAX - 4));
    assert!(fits(&tallied, Some(u64::MAX - 3), false, 3));
    assert!(!fits(&tallied, Some(u64::MAX - 3), false, 4));
    assert!(fits(&None, Some(1), true, u64::MAX - 1));
    assert!(!fits(&None, Some(1), true, u64::MAX));
}

#[test]
fn checked_vote_says_when_a_sum_does_not_fit() {
    let voter = id_of(2);
    let full = || Some(proposal(1, 1000, u64::MAX - 10, 0, true));
    let rich = Some(u64::MAX as i128);

    // accepted, and the tally has no room
    assert_eq!(checked_cast_vote(full(), 0, false, rich, None, voter, true, 11), None);
    // accepted, and the lock has no room
    assert_eq!(checked_cast_vote(full(), 0, false, rich, Some(u64::MAX), voter, false, 1), None);
    // refused anyway: the refusal is what comes back
    assert_eq!(
        checked_cast_vote(full(), 0, true, rich, None, voter, true, 11),
        Some(Err(DAOError::AlreadyVoted))
    );
    assert_eq!(
        checked_cast_vote(full(), 0, false, Some(10), None, voter, true, 11),
        Some(Err(DAOError::InsufficientTokens))
    );
    assert_eq!(
        checked_cast_vote(full(), 0, false, None, None, voter, true, 11),
        Some(Err(DAOError::NotInitialised))
    );
    // room for it: as cast_vote decides
    let mut after = proposal(1, 1000, u64::MAX, 0, true);
    assert_eq!(
        checked_cast_vote(full(), 0, false, rich, Some(4), voter, true, 10),
        Some(Ok(VoteReceipt {
            vote: Vote { voter, amount: 10, is_yes: true },
            proposal: after.clone(),
            locked: 14,
        }))
    );
    after.yes_votes = u64::MAX - 10;
    after.no_votes = 7;
    assert_eq!(
        checked_cast_vote(full(), 0, false, rich, None, voter, false, 7),
        Some(cast_vote(full(), 0, false, rich, None, voter, false, 7))
    );
    assert_eq!(
        cast_vote(full(), 0, false, rich, None, voter, false, 7).unwrap().proposal,
        after
    );
}

#[test]
fn checked_opening_says_when_no_id_is_left() {
    let creator = id_of(2);
    let text = || String::from("text");
    assert_eq!(checked_open_proposal(Some(u64::MAX), 0, creator, text(), text(), 1), None);
    assert_eq!(
        checked_open_proposal(Some(u64::MAX), 5, creator, text(), text(), 5),
        Some(Err(DAOError::ProposalExpired))
    );
    assert_eq!(
        checked_open_proposal(Some(6), 0, creator, text(), text(), 1),
        Some(open_proposal(Some(6), 0, creator, text(), text(), 1))
    );
    assert_eq!(
        checked_open_proposal(None, 0, creator, text(), text(), 1).unwrap().unwrap().id,
        1
    );
}

#[test]
fn counter_and_lookups() {
    assert_eq!(opened(None), 0);
    assert_eq!(opened(Some(0)), 0);
    assert_eq!(opened(Some(17)), 17);
    assert_eq!(found(None), Err(DAOError::InvalidProposal));
    assert_eq!(found(Some(proposal(4, 1, 2, 3, false))), Ok(proposal(4, 1, 2, 3, false)));
    assert_eq!(supply(None), Err(DAOError::NotInitialised));
    assert_eq!(supply(settings(300)), Ok(300));
}
