//! The engine called directly, with the caller passed in.

use ink_voting_dapp::dapp::InkVotingDapp;
use ink_voting_dapp::election::Election;
use ink_voting_dapp::events::{
    ChangeOwnership, CloseElection, CloseRegistration, Delegate, ElectionCreated, OpenElection,
    OpenRegistration, Registered, Voted,
};
use ink_voting_dapp::proposals::Proposal;
use ink_voting_dapp::types::{AccountId, ElectionState, Error, RegistrationState};
use ink_voting_dapp::voters::VoterRecord;

fn account(byte: u8) -> AccountId {
    AccountId([byte; 32])
}

fn x() -> AccountId {
    account(0x11)
}

fn y() -> AccountId {
    account(0x22)
}

fn z() -> AccountId {
    account(0x33)
}

fn bytes(text: &str) -> Vec<u8> {
    text.as_bytes().to_vec()
}

/// A store with one election "E" over "A" and "B", owned by `x`.
fn store_with_election(requires_registration: bool) -> InkVotingDapp {
    let mut dapp = InkVotingDapp::new();
    dapp.create_election(x(), bytes("E"), requires_registration, vec![bytes("A"), bytes("B")])
        .unwrap();
    dapp
}

fn total_weight(dapp: &InkVotingDapp, election_id: u32, accounts: &[AccountId]) -> u128 {
    let mut total = 0;
    for a in accounts {
        total += dapp.get_voter_weigth(election_id, *a);
    }
    total
}

// ----- scenarios -----

#[test]
fn vote_is_counted_and_spent_once() {
    let mut dapp = store_with_election(false);
    dapp.open_election(x(), 1, 10).unwrap();
    assert_eq!(
        dapp.vote(x(), 1, bytes("A"), 1),
        Ok(Voted { voter: x(), proposal: bytes("A"), weight: 1 })
    );
    assert_eq!(dapp.get_result_election(1), vec![(bytes("A"), 1), (bytes("B"), 0)]);
    assert_eq!(dapp.vote(x(), 1, bytes("A"), 1), Err(Error::VoterHasAlreadyVoted));
    assert_eq!(dapp.vote(x(), 1, bytes("B"), 0), Err(Error::VoterHasAlreadyVoted));
    assert_eq!(dapp.get_result_election(1), vec![(bytes("A"), 1), (bytes("B"), 0)]);
}

#[test]
fn registration_is_required_before_voting() {
    let mut dapp = store_with_election(true);
    dapp.open_election(x(), 1, 10).unwrap();
    assert_eq!(dapp.vote(y(), 1, bytes("A"), 1), Err(Error::VoterNotRegistred));
    assert_eq!(dapp.is_account_registered(1, y()), false);
    dapp.open_registration(x(), 1, 11).unwrap();
    assert_eq!(dapp.register_me(y(), 1), Ok(Registered { voter: y(), election_id: 1 }));
    assert_eq!(dapp.get_voter_weigth(1, y()), 1);
    assert!(dapp.vote(y(), 1, bytes("B"), 1).is_ok());
    assert_eq!(dapp.get_votes_proposal(1, bytes("B")), 1);
    assert_eq!(dapp.vote(y(), 1, bytes("B"), 1), Err(Error::VoterHasAlreadyVoted));
    assert_eq!(dapp.get_votes_proposal(1, bytes("B")), 1);
}

#[test]
fn delegation_moves_the_weight() {
    let mut dapp = store_with_election(false);
    assert_eq!(
        dapp.delegate_vote(x(), 1, y(), 1),
        Ok(Delegate { election_id: 1, delegate: y(), delegator: x() })
    );
    assert_eq!(dapp.get_voter_weigth(1, y()), 2);
    assert_eq!(dapp.get_voter_weigth(1, x()), 0);
    assert_eq!(dapp.has_voter_voted(1, x()), true);
    assert_eq!(dapp.has_voter_voted(1, y()), false);
}

#[test]
fn only_the_owner_administers() {
    let mut dapp = store_with_election(false);
    let before = dapp.clone();
    assert_eq!(dapp.open_registration(y(), 1, 1), Err(Error::OnlyOwner));
    assert_eq!(dapp.close_registration(y(), 1, 2), Err(Error::OnlyOwner));
    assert_eq!(dapp.open_election(y(), 1, 3), Err(Error::OnlyOwner));
    assert_eq!(dapp.close_election(y(), 1, 4), Err(Error::OnlyOwner));
    assert_eq!(dapp.change_ownership(y(), 1, y()), Err(Error::OnlyOwner));
    assert_eq!(dapp, before);
    assert_eq!(dapp.get_owner_of_election(1), x());
    assert_eq!(dapp.is_election_open(1), false);
    assert_eq!(dapp.is_registration_open(1), false);
}

// ----- the laws, on chosen values -----

#[test]
fn delegations_conserve_weight() {
    let mut dapp = store_with_election(true);
    dapp.open_registration(x(), 1, 0).unwrap();
    for a in [x(), y(), z()] {
        dapp.register(1, a).unwrap();
    }
    let everybody = [x(), y(), z()];
    assert_eq!(total_weight(&dapp, 1, &everybody), 3);
    assert!(dapp.delegate_vote(x(), 1, y(), 1).is_ok());
    assert_eq!(total_weight(&dapp, 1, &everybody), 3);
    assert!(dapp.delegate_vote(y(), 1, z(), 2).is_ok());
    assert_eq!(total_weight(&dapp, 1, &everybody), 3);
    assert_eq!(dapp.delegate_vote(y(), 1, z(), 1), Err(Error::VoterHasAlreadyVoted));
    assert_eq!(dapp.delegate_vote(z(), 1, x(), 4), Err(Error::VoterHasNotSoMuchWeight));
    assert!(dapp.delegate_vote(z(), 1, x(), 2).is_ok());
    assert_eq!(total_weight(&dapp, 1, &everybody), 3);
    assert_eq!(dapp.get_voter_weigth(1, x()), 2);
    assert_eq!(dapp.get_voter_weigth(1, y()), 0);
    assert_eq!(dapp.get_voter_weigth(1, z()), 1);
}

#[test]
fn lazy_records_bring_their_own_weight() {
    let mut dapp = store_with_election(false);
    let everybody = [x(), y(), z()];
    assert_eq!(total_weight(&dapp, 1, &everybody), 0);
    assert!(dapp.delegate_vote(x(), 1, y(), 1).is_ok());
    assert_eq!(total_weight(&dapp, 1, &everybody), 2);
    assert!(dapp.delegate_vote(y(), 1, z(), 2).is_ok());
    assert_eq!(total_weight(&dapp, 1, &everybody), 3);
    assert!(dapp.delegate_vote(z(), 1, x(), 3).is_ok());
    assert_eq!(total_weight(&dapp, 1, &everybody), 3);
}

#[test]
fn voting_moves_weight_into_the_tally() {
    let mut dapp = store_with_election(false);
    dapp.open_election(x(), 1, 0).unwrap();
    assert!(dapp.delegate_vote(x(), 1, y(), 1).is_ok());
    assert!(dapp.delegate_vote(z(), 1, y(), 1).is_ok());
    let everybody = [x(), y(), z()];
    assert_eq!(total_weight(&dapp, 1, &everybody), 3);
    assert!(dapp.vote(y(), 1, bytes("B"), 2).is_ok());
    assert_eq!(total_weight(&dapp, 1, &everybody), 1);
    assert_eq!(dapp.get_votes_proposal(1, bytes("B")), 2);
    assert_eq!(dapp.has_voter_voted(1, y()), false);
    assert!(dapp.vote(y(), 1, bytes("A"), 1).is_ok());
    assert_eq!(total_weight(&dapp, 1, &everybody), 0);
    assert_eq!(dapp.has_voter_voted(1, y()), true);
    assert_eq!(dapp.get_result_election(1), vec![(bytes("A"), 1), (bytes("B"), 2)]);
}

#[test]
fn consumed_voter_cannot_spend() {
    let mut dapp = store_with_election(false);
    dapp.open_election(x(), 1, 0).unwrap();
    assert!(dapp.vote(y(), 1, bytes("A"), 1).is_ok());
    assert_eq!(dapp.has_voter_voted(1, y()), true);
    for weight in [0, 1, 2, u128::MAX] {
        assert_eq!(dapp.vote(y(), 1, bytes("A"), weight), Err(Error::VoterHasAlreadyVoted));
        assert_eq!(dapp.vote(y(), 1, bytes("nothing"), weight), Err(Error::VoterHasAlreadyVoted));
        assert_eq!(dapp.delegate_vote(y(), 1, z(), weight), Err(Error::VoterHasAlreadyVoted));
    }
    dapp.close_election(x(), 1, 1).unwrap();
    assert_eq!(dapp.vote(y(), 1, bytes("A"), 1), Err(Error::ElectionClosed));
    assert_eq!(dapp.delegate_vote(y(), 1, z(), 1), Err(Error::VoterHasAlreadyVoted));
}

#[test]
fn incoming_delegation_makes_a_consumed_record_spendable() {
    let mut dapp = store_with_election(false);
    dapp.open_election(x(), 1, 0).unwrap();
    assert!(dapp.vote(y(), 1, bytes("A"), 1).is_ok());
    assert_eq!(dapp.has_voter_voted(1, y()), true);
    assert!(dapp.delegate_vote(z(), 1, y(), 1).is_ok());
    assert_eq!(dapp.has_voter_voted(1, y()), false);
    assert_eq!(dapp.get_voter_weigth(1, y()), 1);
    assert!(dapp.vote(y(), 1, bytes("B"), 1).is_ok());
    assert_eq!(dapp.has_voter_voted(1, y()), true);
    assert_eq!(dapp.get_result_election(1), vec![(bytes("A"), 1), (bytes("B"), 1)]);
}

#[test]
fn identifiers_follow_creation_order() {
    let mut dapp = InkVotingDapp::new();
    let names = ["one", "two", "three", "four", "five"];
    for (k, name) in names.iter().enumerate() {
        let event = dapp.create_election(y(), bytes(name), k % 2 == 0, vec![bytes("A")]).unwrap();
        assert_eq!(
            event,
            ElectionCreated {
                name: bytes(name),
                id: k as u32 + 1,
                owner: y(),
                require_registration: k % 2 == 0,
            }
        );
        assert_eq!(dapp.get_number_elections(), k as u32 + 1);
    }
    for (k, name) in names.iter().enumerate() {
        assert_eq!(dapp.get_election_id(bytes(name)), k as u32 + 1);
        assert_eq!(dapp.election_exists(bytes(name)), true);
    }
    assert_eq!(
        dapp.get_election_list(),
        vec![bytes("one"), bytes("two"), bytes("three"), bytes("four"), bytes("five")]
    );
}

#[test]
fn repeated_name_advances_nothing() {
    let mut dapp = InkVotingDapp::new();
    dapp.create_election(x(), bytes("one"), false, vec![bytes("A")]).unwrap();
    let before = dapp.clone();
    assert_eq!(
        dapp.create_election(y(), bytes("one"), true, vec![bytes("B")]),
        Err(Error::ElectionNotValid)
    );
    assert_eq!(dapp.create_election(y(), bytes("one"), true, vec![]), Err(Error::ElectionNotValid));
    assert_eq!(dapp, before);
    assert_eq!(dapp.get_number_elections(), 1);
    assert_eq!(dapp.get_owner_of_election(1), x());
    let event = dapp.create_election(y(), bytes("two"), true, vec![bytes("B")]).unwrap();
    assert_eq!(event.id, 2);
}

#[test]
fn unknown_election_is_reported_first() {
    let mut dapp = store_with_election(true);
    let before = dapp.clone();
    for id in [0, 2, 3, u32::MAX] {
        assert_eq!(dapp.vote(x(), id, bytes("A"), 1), Err(Error::ElectionNotValid));
        assert_eq!(dapp.vote(y(), id, bytes("nothing"), 7), Err(Error::ElectionNotValid));
        assert_eq!(dapp.vote(y(), id, vec![], 0), Err(Error::ElectionNotValid));
        assert_eq!(dapp.register(id, y()), Err(Error::ElectionNotValid));
        assert_eq!(dapp.register_me(y(), id), Err(Error::ElectionNotValid));
        assert_eq!(dapp.delegate_vote(x(), id, y(), 1), Err(Error::ElectionNotValid));
        assert_eq!(dapp.open_registration(x(), id, 0), Err(Error::ElectionNotValid));
        assert_eq!(dapp.close_registration(x(), id, 0), Err(Error::ElectionNotValid));
        assert_eq!(dapp.open_election(x(), id, 0), Err(Error::ElectionNotValid));
        assert_eq!(dapp.close_election(x(), id, 0), Err(Error::ElectionNotValid));
        assert_eq!(dapp.change_ownership(x(), id, y()), Err(Error::ElectionNotValid));
    }
    assert_eq!(dapp, before);
}

// ----- the registry -----

#[test]
fn new_store_is_empty() {
    let dapp = InkVotingDapp::new();
    assert_eq!(dapp.get_number_elections(), 0);
    assert_eq!(dapp.get_election_list(), Vec::<Vec<u8>>::new());
    assert_eq!(dapp.get_election_id(bytes("E")), 0);
    assert_eq!(dapp.election_exists(bytes("E")), false);
}

#[test]
fn created_election_starts_closed() {
    let dapp = store_with_election(true);
    assert_eq!(dapp.is_election_open(1), false);
    assert_eq!(dapp.is_registration_open(1), false);
    assert_eq!(dapp.get_owner_of_election(1), x());
    assert_eq!(dapp.get_proposals(1), vec![bytes("A"), bytes("B")]);
    assert_eq!(dapp.get_proposal_for_election(bytes("E")), vec![bytes("A"), bytes("B")]);
    assert_eq!(dapp.get_result_election(1), vec![(bytes("A"), 0), (bytes("B"), 0)]);
    assert_eq!(dapp.is_account_registered(1, x()), false);
}

#[test]
fn empty_proposal_list_is_refused() {
    let mut dapp = InkVotingDapp::new();
    assert_eq!(
        dapp.create_election(x(), bytes("E"), false, vec![]),
        Err(Error::InsufficientProposals)
    );
    assert_eq!(dapp.get_number_elections(), 0);
    assert_eq!(dapp.election_exists(bytes("E")), false);
    assert_eq!(dapp, InkVotingDapp::new());
}

#[test]
fn empty_name_and_empty_label_are_ordinary() {
    let mut dapp = InkVotingDapp::new();
    let event = dapp.create_election(x(), vec![], false, vec![vec![]]).unwrap();
    assert_eq!(event.id, 1);
    assert_eq!(dapp.get_election_id(vec![]), 1);
    dapp.open_election(x(), 1, 0).unwrap();
    assert!(dapp.vote(y(), 1, vec![], 1).is_ok());
    assert_eq!(dapp.get_winner(1), (vec![], 1));
}

#[test]
fn unknown_values_read_as_defaults() {
    let dapp = store_with_election(false);
    assert_eq!(dapp.get_election_id(bytes("nothing")), 0);
    assert_eq!(dapp.get_proposal_for_election(bytes("nothing")), Vec::<Vec<u8>>::new());
    assert_eq!(dapp.get_proposals(2), Vec::<Vec<u8>>::new());
    assert_eq!(dapp.get_proposals(0), Vec::<Vec<u8>>::new());
    assert_eq!(dapp.get_owner_of_election(2), AccountId([0; 32]));
    assert_eq!(dapp.get_owner_of_election(2), AccountId::default());
    assert_eq!(dapp.is_election_open(2), false);
    assert_eq!(dapp.is_registration_open(2), false);
    assert_eq!(dapp.is_account_registered(2, x()), false);
    assert_eq!(dapp.get_result_election(2), Vec::<(Vec<u8>, u128)>::new());
    assert_eq!(dapp.get_votes_proposal(2, bytes("A")), 0);
    assert_eq!(dapp.get_votes_proposal(1, bytes("nothing")), 0);
    assert_eq!(dapp.get_winner(2), (vec![], 0));
    assert_eq!(dapp.get_voter_weigth(2, x()), 0);
    assert_eq!(dapp.get_voter_weigth(1, x()), 0);
    assert_eq!(dapp.has_voter_voted(2, x()), false);
    assert_eq!(dapp.has_voter_voted(1, x()), false);
}

#[test]
fn lifecycle_flags_are_independent() {
    let mut dapp = store_with_election(true);
    assert_eq!(
        dapp.open_election(x(), 1, 5),
        Ok(OpenElection { election_id: 1, date: 5 })
    );
    assert_eq!((dapp.is_election_open(1), dapp.is_registration_open(1)), (true, false));
    assert_eq!(
        dapp.open_registration(x(), 1, 6),
        Ok(OpenRegistration { election_id: 1, date: 6 })
    );
    assert_eq!((dapp.is_election_open(1), dapp.is_registration_open(1)), (true, true));
    assert_eq!(
        dapp.close_election(x(), 1, 7),
        Ok(CloseElection { election_id: 1, date: 7 })
    );
    assert_eq!((dapp.is_election_open(1), dapp.is_registration_open(1)), (false, true));
    assert!(dapp.register(1, y()).is_ok());
    assert_eq!(
        dapp.close_registration(x(), 1, 8),
        Ok(CloseRegistration { election_id: 1, date: 8 })
    );
    assert_eq!((dapp.is_election_open(1), dapp.is_registration_open(1)), (false, false));
    assert_eq!(
        dapp.close_registration(x(), 1, 9),
        Ok(CloseRegistration { election_id: 1, date: 9 })
    );
}

#[test]
fn ownership_moves_with_the_hand_over() {
    let mut dapp = store_with_election(false);
    assert_eq!(
        dapp.change_ownership(x(), 1, y()),
        Ok(ChangeOwnership { election_id: 1, new_owner: y() })
    );
    assert_eq!(dapp.get_owner_of_election(1), y());
    assert_eq!(dapp.open_election(x(), 1, 0), Err(Error::OnlyOwner));
    assert!(dapp.open_election(y(), 1, 0).is_ok());
    assert!(dapp.change_ownership(y(), 1, y()).is_ok());
    assert_eq!(dapp.get_owner_of_election(1), y());
}

#[test]
fn elections_do_not_share_ledgers() {
    let mut dapp = InkVotingDapp::new();
    dapp.create_election(x(), bytes("one"), false, vec![bytes("A")]).unwrap();
    dapp.create_election(y(), bytes("two"), false, vec![bytes("A"), bytes("C")]).unwrap();
    dapp.open_election(x(), 1, 0).unwrap();
    dapp.open_election(y(), 2, 0).unwrap();
    assert!(dapp.vote(z(), 1, bytes("A"), 1).is_ok());
    assert_eq!(dapp.get_votes_proposal(1, bytes("A")), 1);
    assert_eq!(dapp.get_votes_proposal(2, bytes("A")), 0);
    assert_eq!(dapp.has_voter_voted(1, z()), true);
    assert_eq!(dapp.has_voter_voted(2, z()), false);
    assert_eq!(dapp.is_account_registered(2, z()), false);
    assert_eq!(dapp.vote(z(), 1, bytes("C"), 0), Err(Error::VoterHasAlreadyVoted));
    assert!(dapp.vote(z(), 2, bytes("C"), 1).is_ok());
    assert_eq!(dapp.get_result_election(2), vec![(bytes("A"), 0), (bytes("C"), 1)]);
    assert_eq!(dapp.open_election(x(), 2, 0), Err(Error::OnlyOwner));
}

// ----- gates of a vote, in order -----

#[test]
fn gates_of_a_vote_come_in_order() {
    let mut dapp = store_with_election(true);
    // closed election comes before the missing registration
    assert_eq!(dapp.vote(y(), 1, bytes("nothing"), 9), Err(Error::ElectionClosed));
    dapp.open_election(x(), 1, 0).unwrap();
    // missing registration comes before weight and label
    assert_eq!(dapp.vote(y(), 1, bytes("nothing"), 9), Err(Error::VoterNotRegistred));
    dapp.open_registration(x(), 1, 0).unwrap();
    dapp.register(1, y()).unwrap();
    // weight comes before the label
    assert_eq!(dapp.vote(y(), 1, bytes("nothing"), 9), Err(Error::VoterHasNotSoMuchWeight));
    assert_eq!(dapp.vote(y(), 1, bytes("nothing"), 1), Err(Error::InvalidProposal));
    assert!(dapp.vote(y(), 1, bytes("A"), 1).is_ok());
    // a consumed record comes before weight and label
    assert_eq!(dapp.vote(y(), 1, bytes("nothing"), 9), Err(Error::VoterHasAlreadyVoted));
}

#[test]
fn refused_vote_enters_no_record() {
    let mut dapp = store_with_election(false);
    let before = dapp.clone();
    assert_eq!(dapp.vote(y(), 1, bytes("A"), 1), Err(Error::ElectionClosed));
    assert_eq!(dapp, before);
    dapp.open_election(x(), 1, 0).unwrap();
    let before = dapp.clone();
    assert_eq!(dapp.vote(y(), 1, bytes("A"), 2), Err(Error::VoterHasNotSoMuchWeight));
    assert_eq!(dapp.vote(y(), 1, bytes("nothing"), 1), Err(Error::InvalidProposal));
    assert_eq!(dapp.is_account_registered(1, y()), false);
    assert_eq!(dapp, before);
}

#[test]
fn refused_delegation_enters_no_record() {
    let mut dapp = store_with_election(false);
    let before = dapp.clone();
    assert_eq!(dapp.delegate_vote(x(), 1, y(), 2), Err(Error::VoterHasNotSoMuchWeight));
    assert_eq!(dapp.is_account_registered(1, x()), false);
    assert_eq!(dapp.is_account_registered(1, y()), false);
    assert_eq!(dapp, before);
}

#[test]
fn vote_of_zero_weight() {
    let mut dapp = store_with_election(false);
    dapp.open_election(x(), 1, 0).unwrap();
    assert!(dapp.vote(y(), 1, bytes("A"), 0).is_ok());
    assert_eq!(dapp.is_account_registered(1, y()), true);
    assert_eq!(dapp.get_voter_weigth(1, y()), 1);
    assert_eq!(dapp.has_voter_voted(1, y()), false);
    assert_eq!(dapp.get_votes_proposal(1, bytes("A")), 0);
    assert!(dapp.vote(y(), 1, bytes("A"), 1).is_ok());
    assert_eq!(dapp.has_voter_voted(1, y()), true);
}

#[test]
fn weight_can_be_split_over_several_votes() {
    let mut dapp = store_with_election(false);
    dapp.open_election(x(), 1, 0).unwrap();
    assert!(dapp.delegate_vote(x(), 1, z(), 1).is_ok());
    assert!(dapp.delegate_vote(y(), 1, z(), 1).is_ok());
    assert_eq!(dapp.get_voter_weigth(1, z()), 3);
    assert!(dapp.vote(z(), 1, bytes("A"), 1).is_ok());
    assert_eq!((dapp.get_voter_weigth(1, z()), dapp.has_voter_voted(1, z())), (2, false));
    assert_eq!(dapp.vote(z(), 1, bytes("A"), 3), Err(Error::VoterHasNotSoMuchWeight));
    assert!(dapp.vote(z(), 1, bytes("B"), 1).is_ok());
    assert_eq!((dapp.get_voter_weigth(1, z()), dapp.has_voter_voted(1, z())), (1, false));
    assert!(dapp.vote(z(), 1, bytes("A"), 1).is_ok());
    assert_eq!((dapp.get_voter_weigth(1, z()), dapp.has_voter_voted(1, z())), (0, true));
    assert_eq!(dapp.get_result_election(1), vec![(bytes("A"), 2), (bytes("B"), 1)]);
    assert_eq!(dapp.get_winner(1), (bytes("A"), 2));
}

// ----- registration -----

#[test]
fn registration_gates_come_in_order() {
    let mut dapp = store_with_election(false);
    assert_eq!(dapp.register(1, y()), Err(Error::RegistrationClosed));
    dapp.open_registration(x(), 1, 0).unwrap();
    assert!(dapp.register(1, y()).is_ok());
    assert_eq!(dapp.register(1, y()), Err(Error::VoterAlreadyRegistered));
    dapp.close_registration(x(), 1, 0).unwrap();
    // the closed roll comes before the existing record
    assert_eq!(dapp.register(1, y()), Err(Error::RegistrationClosed));
    assert_eq!(dapp.register(1, z()), Err(Error::RegistrationClosed));
    assert_eq!(dapp.is_account_registered(1, z()), false);
}

#[test]
fn lazy_record_counts_as_registered() {
    let mut dapp = store_with_election(false);
    dapp.open_election(x(), 1, 0).unwrap();
    dapp.open_registration(x(), 1, 0).unwrap();
    assert!(dapp.vote(y(), 1, bytes("A"), 1).is_ok());
    assert_eq!(dapp.is_account_registered(1, y()), true);
    assert_eq!(dapp.register(1, y()), Err(Error::VoterAlreadyRegistered));
    assert_eq!(dapp.register_me(y(), 1), Err(Error::VoterAlreadyRegistered));
}

#[test]
fn anybody_can_register_anybody() {
    let mut dapp = store_with_election(true);
    dapp.open_registration(x(), 1, 0).unwrap();
    assert_eq!(dapp.register(1, z()), Ok(Registered { voter: z(), election_id: 1 }));
    assert_eq!(dapp.get_voter_weigth(1, z()), 1);
    assert_eq!(dapp.has_voter_voted(1, z()), false);
}

// ----- delegation -----

#[test]
fn delegation_needs_no_open_election() {
    let mut dapp = store_with_election(false);
    assert_eq!(dapp.is_election_open(1), false);
    assert!(dapp.delegate_vote(x(), 1, y(), 1).is_ok());
    assert_eq!(dapp.get_voter_weigth(1, y()), 2);
    assert_eq!(dapp.get_result_election(1), vec![(bytes("A"), 0), (bytes("B"), 0)]);
}

#[test]
fn delegation_gates_come_in_order() {
    let mut dapp = store_with_election(true);
    dapp.open_registration(x(), 1, 0).unwrap();
    // the caller's registration comes first
    assert_eq!(dapp.delegate_vote(x(), 1, y(), 9), Err(Error::VoterNotRegistred));
    dapp.register(1, x()).unwrap();
    // then the delegate's, before the weight
    assert_eq!(dapp.delegate_vote(x(), 1, y(), 9), Err(Error::VoterNotRegistred));
    dapp.register(1, y()).unwrap();
    assert_eq!(dapp.delegate_vote(x(), 1, y(), 9), Err(Error::VoterHasNotSoMuchWeight));
    assert!(dapp.delegate_vote(x(), 1, y(), 1).is_ok());
    assert_eq!(dapp.delegate_vote(x(), 1, y(), 9), Err(Error::VoterHasAlreadyVoted));
    // a consumed caller with an unregistered delegate: registration comes first
    assert_eq!(dapp.delegate_vote(x(), 1, z(), 1), Err(Error::VoterNotRegistred));
}

#[test]
fn partial_delegation_leaves_the_rest() {
    let mut dapp = store_with_election(false);
    assert!(dapp.delegate_vote(x(), 1, y(), 1).is_ok());
    assert!(dapp.delegate_vote(y(), 1, z(), 1).is_ok());
    assert_eq!((dapp.get_voter_weigth(1, y()), dapp.has_voter_voted(1, y())), (1, false));
    assert_eq!((dapp.get_voter_weigth(1, z()), dapp.has_voter_voted(1, z())), (2, false));
}

#[test]
fn delegation_to_oneself() {
    let mut dapp = store_with_election(false);
    assert!(dapp.delegate_vote(x(), 1, x(), 1).is_ok());
    assert_eq!((dapp.get_voter_weigth(1, x()), dapp.has_voter_voted(1, x())), (1, false));
    assert_eq!(dapp.delegate_vote(x(), 1, x(), 2), Err(Error::VoterHasNotSoMuchWeight));
    assert!(dapp.delegate_vote(x(), 1, x(), 0).is_ok());
    assert_eq!((dapp.get_voter_weigth(1, x()), dapp.has_voter_voted(1, x())), (1, false));
}

#[test]
fn delegation_of_zero_weight() {
    let mut dapp = store_with_election(false);
    assert!(dapp.delegate_vote(x(), 1, y(), 0).is_ok());
    assert_eq!((dapp.get_voter_weigth(1, x()), dapp.has_voter_voted(1, x())), (1, false));
    assert_eq!((dapp.get_voter_weigth(1, y()), dapp.has_voter_voted(1, y())), (1, false));
}

// ----- results and winner -----

#[test]
fn no_winner_before_the_first_vote() {
    let mut dapp = store_with_election(false);
    assert_eq!(dapp.get_winner(1), (vec![], 0));
    dapp.open_election(x(), 1, 0).unwrap();
    assert_eq!(dapp.get_winner(1), (vec![], 0));
    assert!(dapp.vote(x(), 1, bytes("B"), 0).is_ok());
    assert_eq!(dapp.get_winner(1), (vec![], 0));
}

#[test]
fn winner_is_the_greatest_tally() {
    let mut dapp = store_with_election(false);
    dapp.open_election(x(), 1, 0).unwrap();
    assert!(dapp.vote(x(), 1, bytes("B"), 1).is_ok());
    assert_eq!(dapp.get_winner(1), (bytes("B"), 1));
    assert!(dapp.vote(y(), 1, bytes("A"), 1).is_ok());
    // a tie keeps the earlier proposal
    assert_eq!(dapp.get_winner(1), (bytes("A"), 1));
    assert!(dapp.vote(z(), 1, bytes("B"), 1).is_ok());
    assert_eq!(dapp.get_winner(1), (bytes("B"), 2));
    assert_eq!(dapp.get_result_election(1), vec![(bytes("A"), 1), (bytes("B"), 2)]);
}

#[test]
fn repeated_label_resolves_to_the_later_proposal() {
    let mut dapp = InkVotingDapp::new();
    dapp.create_election(x(), bytes("E"), false, vec![bytes("A"), bytes("B"), bytes("A")])
        .unwrap();
    dapp.open_election(x(), 1, 0).unwrap();
    assert_eq!(dapp.get_proposals(1), vec![bytes("A"), bytes("B"), bytes("A")]);
    assert!(dapp.vote(y(), 1, bytes("A"), 1).is_ok());
    assert_eq!(dapp.get_votes_proposal(1, bytes("A")), 1);
    assert_eq!(
        dapp.get_result_election(1),
        vec![(bytes("A"), 1), (bytes("B"), 0), (bytes("A"), 1)]
    );
    assert_eq!(dapp.get_winner(1), (bytes("A"), 1));
}

// ----- plain values -----

#[test]
fn principals_compare_by_their_bytes() {
    let mut bytes = [7u8; 32];
    assert_eq!(AccountId(bytes), account(7));
    bytes[31] = 8;
    assert_ne!(AccountId(bytes), account(7));
    bytes[31] = 7;
    bytes[0] = 8;
    assert_ne!(AccountId(bytes), account(7));
    assert_eq!(AccountId::default(), account(0));
}

#[test]
fn lifecycle_flags_default_to_closed() {
    assert_eq!(RegistrationState::default(), RegistrationState::RegistrationClosed);
    assert_eq!(ElectionState::default(), ElectionState::ElectionClosed);
}

// ----- writing a store out and taking it up again -----

/// A store in which something of everything has happened.
fn busy_store() -> InkVotingDapp {
    let mut dapp = InkVotingDapp::new();
    dapp.create_election(x(), bytes("one"), false, vec![bytes("A"), bytes("B")]).unwrap();
    dapp.create_election(y(), bytes("two"), true, vec![bytes("C")]).unwrap();
    dapp.open_election(x(), 1, 0).unwrap();
    dapp.open_registration(y(), 2, 0).unwrap();
    dapp.register(2, z()).unwrap();
    dapp.delegate_vote(x(), 1, y(), 1).unwrap();
    dapp.vote(y(), 1, bytes("B"), 1).unwrap();
    dapp
}

fn restored_with(change: impl FnOnce(&mut Vec<Election>)) -> Option<InkVotingDapp> {
    let mut records = busy_store().elections().clone();
    change(&mut records);
    InkVotingDapp::restore(records)
}

#[test]
fn written_out_records_describe_the_store() {
    let dapp = busy_store();
    let records = dapp.elections();
    assert_eq!(records.len(), 2);
    assert_eq!(
        records[0],
        Election {
            id: 1,
            name: bytes("one"),
            owner: x(),
            requires_registration: false,
            registration_state: RegistrationState::RegistrationClosed,
            election_state: ElectionState::ElectionOpen,
            proposals: vec![
                Proposal { label: bytes("A"), tally: 0 },
                Proposal { label: bytes("B"), tally: 1 },
            ],
            voters: vec![
                VoterRecord { account: x(), weight: 0, consumed: true },
                VoterRecord { account: y(), weight: 1, consumed: false },
            ],
        }
    );
    assert_eq!(records[1].id, 2);
    assert_eq!(records[1].voters, vec![VoterRecord { account: z(), weight: 1, consumed: false }]);
    assert_eq!(records[1].proposals, vec![Proposal { label: bytes("C"), tally: 0 }]);
}

#[test]
fn restored_store_carries_on() {
    let dapp = busy_store();
    let mut back = InkVotingDapp::restore(dapp.elections().clone()).unwrap();
    assert_eq!(back, dapp);
    assert_eq!(back.get_number_elections(), 2);
    assert_eq!(back.get_voter_weigth(1, y()), 1);
    assert_eq!(back.create_election(z(), bytes("three"), false, vec![bytes("D")]).unwrap().id, 3);
    assert_eq!(
        back.create_election(z(), bytes("one"), false, vec![bytes("D")]),
        Err(Error::ElectionNotValid)
    );
    assert!(back.vote(y(), 1, bytes("A"), 1).is_ok());
    assert_eq!(back.get_result_election(1), vec![(bytes("A"), 1), (bytes("B"), 1)]);
}

#[test]
fn no_records_make_an_empty_store() {
    assert_eq!(InkVotingDapp::restore(Vec::new()), Some(InkVotingDapp::new()));
    assert_eq!(InkVotingDapp::new().elections(), &Vec::<Election>::new());
}

#[test]
fn untouched_records_are_accepted() {
    assert_eq!(restored_with(|_| {}), Some(busy_store()));
}

#[test]
fn records_with_a_wrong_identifier_are_refused() {
    assert_eq!(restored_with(|r| r[0].id = 0), None);
    assert_eq!(restored_with(|r| r[1].id = 3), None);
    assert_eq!(restored_with(|r| r.swap(0, 1)), None);
    assert_eq!(
        restored_with(|r| {
            r.remove(0);
        }),
        None
    );
}

#[test]
fn records_with_a_repeated_name_are_refused() {
    assert_eq!(restored_with(|r| r[1].name = bytes("one")), None);
}

#[test]
fn records_without_proposals_are_refused() {
    assert_eq!(restored_with(|r| r[1].proposals.clear()), None);
}

#[test]
fn records_with_a_repeated_voter_are_refused() {
    assert_eq!(
        restored_with(|r| r[1]
            .voters
            .push(VoterRecord { account: z(), weight: 1, consumed: false })),
        None
    );
    // a second principal is fine
    assert!(restored_with(|r| r[1]
        .voters
        .push(VoterRecord { account: x(), weight: 1, consumed: false }))
    .is_some());
}

#[test]
fn records_with_a_consumed_voter_that_holds_weight_are_refused() {
    assert_eq!(restored_with(|r| r[1].voters[0].consumed = true), None);
}

#[test]
fn records_out_of_balance_are_refused() {
    assert_eq!(restored_with(|r| r[0].proposals[0].tally = 1), None);
    assert_eq!(restored_with(|r| r[0].voters[1].weight = 2), None);
    assert_eq!(restored_with(|r| r[0].voters[1].weight = 0), None);
    assert_eq!(restored_with(|r| r[0].voters[1].weight = u128::MAX), None);
    assert_eq!(restored_with(|r| r[0].proposals[1].tally = u128::MAX), None);
    assert_eq!(
        restored_with(|r| {
            r[0].voters[1].weight = u128::MAX;
            r[0].proposals[1].tally = 3;
        }),
        None
    );
    // weight moved between the roll and a tally keeps the balance
    assert!(restored_with(|r| {
        r[0].voters[1].weight = 0;
        r[0].proposals[0].tally = 1;
    })
    .is_some());
}

#[test]
fn a_record_can_be_checked_on_its_own() {
    let records = busy_store().elections().clone();
    assert_eq!(records[0].is_well_formed(), true);
    assert_eq!(records[1].is_well_formed(), true);

    let mut no_proposals = records[0].clone();
    no_proposals.proposals.clear();
    assert_eq!(no_proposals.is_well_formed(), false);

    let mut repeated = records[0].clone();
    repeated.voters.push(VoterRecord { account: x(), weight: 1, consumed: false });
    assert_eq!(repeated.is_well_formed(), false);

    let mut unspent = records[0].clone();
    unspent.voters[0].weight = 1;
    assert_eq!(unspent.is_well_formed(), false);

    let mut too_much = records[1].clone();
    too_much.proposals[0].tally = 1;
    assert_eq!(too_much.is_well_formed(), false);

    let mut entered = records[1].clone();
    entered.voters.push(VoterRecord { account: x(), weight: 0, consumed: true });
    entered.proposals[0].tally = 1;
    assert_eq!(entered.is_well_formed(), true);
}
