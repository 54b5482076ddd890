use staking::stakers::Stakers;
use staking::transactions::Transactions;
use staking::{ActorId, Error, Staker, StakingAction};

fn actor(id: u64) -> ActorId {
    ActorId::new(0, id as u128)
}

fn staker(balance: u128) -> Staker {
    Staker { balance, reward_allowed: 1, reward_debt: 2, distributed: 3 }
}

#[test]
fn identities_differ_in_either_word() {
    assert_eq!(ActorId::new(1, 2), ActorId { high: 1, low: 2 });
    assert_ne!(ActorId::new(1, 2), ActorId::new(2, 1));
    assert_ne!(ActorId::new(0, 2), ActorId::new(1, 2));
    assert_eq!(ActorId::zero(), ActorId::new(0, 0));
}

#[test]
fn default_staker_is_empty() {
    assert_eq!(
        Staker::default(),
        Staker { balance: 0, reward_allowed: 0, reward_debt: 0, distributed: 0 }
    );
}

#[test]
fn stakers_hold_one_record_for_each_identity() {
    let mut stakers = Stakers::new();
    assert_eq!(stakers.get(&actor(1)), None);
    assert_eq!(stakers.to_vec(), vec![]);

    stakers.insert(actor(1), staker(10));
    stakers.insert(actor(2), staker(20));
    stakers.insert(ActorId::new(1, 1), staker(30));
    assert_eq!(stakers.get(&actor(1)), Some(staker(10)));
    assert_eq!(stakers.get(&actor(2)), Some(staker(20)));
    assert_eq!(stakers.get(&ActorId::new(1, 1)), Some(staker(30)));
    assert_eq!(stakers.get(&actor(3)), None);

    stakers.insert(actor(1), staker(11));
    assert_eq!(stakers.get(&actor(1)), Some(staker(11)));
    assert_eq!(stakers.get(&actor(2)), Some(staker(20)));

    let mut entries = stakers.to_vec();
    entries.sort_by_key(|(id, _)| (id.high, id.low));
    assert_eq!(
        entries,
        vec![(actor(1), staker(11)), (actor(2), staker(20)), (ActorId::new(1, 1), staker(30))]
    );
}

#[test]
fn fresh_transactions_are_numbered_in_turn() {
    let mut transactions = Transactions::new();
    assert_eq!(transactions.get(0), None);

    assert_eq!(transactions.begin(None, StakingAction::Stake(5)), 0);
    assert_eq!(transactions.begin(None, StakingAction::GetReward), 1);
    assert_eq!(transactions.get(0), Some(Some(StakingAction::Stake(5))));
    assert_eq!(transactions.get(1), Some(Some(StakingAction::GetReward)));
    assert_eq!(transactions.get(2), None);
}

#[test]
fn resumed_transaction_keeps_its_record_and_the_counter() {
    let mut transactions = Transactions::new();
    assert_eq!(transactions.begin(None, StakingAction::Stake(5)), 0);

    assert_eq!(transactions.begin(Some(0), StakingAction::Withdraw(9)), 0);
    assert_eq!(transactions.get(0), Some(Some(StakingAction::Stake(5))));
    assert_eq!(transactions.begin(Some(41), StakingAction::Withdraw(9)), 41);
    assert_eq!(transactions.get(41), None);

    assert_eq!(transactions.get_transaction_id(Some(7)), 7);
    assert_eq!(transactions.get_transaction_id(None), 1);
    assert_eq!(transactions.get_transaction_id(None), 2);
    assert_eq!(transactions.begin(None, StakingAction::GetReward), 3);
}

#[test]
fn commit_and_abort_remove_the_record() {
    let mut transactions = Transactions::new();
    transactions.begin(None, StakingAction::Stake(5));
    transactions.begin(None, StakingAction::Withdraw(6));
    transactions.begin(None, StakingAction::GetReward);

    transactions.commit(1);
    assert_eq!(transactions.get(1), None);
    transactions.abort(0);
    assert_eq!(transactions.get(0), None);
    assert_eq!(transactions.get(2), Some(Some(StakingAction::GetReward)));

    // Ending a transaction that is not there changes nothing.
    transactions.commit(1);
    transactions.abort(9);
    assert_eq!(transactions.get(2), Some(Some(StakingAction::GetReward)));
    assert_eq!(transactions.begin(None, StakingAction::Stake(1)), 3);
}

#[test]
fn ledger_admits_fresh_and_pending_transactions() {
    let mut transactions = Transactions::new();
    assert_eq!(transactions.admits(None), Ok(true));
    assert_eq!(transactions.admits(Some(0)), Err(Error::UnknownTransaction));

    transactions.begin(None, StakingAction::Stake(5));
    assert_eq!(transactions.admits(Some(0)), Ok(true));
    assert_eq!(transactions.admits(Some(1)), Err(Error::UnknownTransaction));
    assert_eq!(transactions.admits(None), Ok(true));

    transactions.commit(0);
    assert_eq!(transactions.admits(Some(0)), Err(Error::UnknownTransaction));
}
