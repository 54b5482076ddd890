use staking::{
    init, ActorId, Error, InitStaking, Staker, Staking, StakingAction, StakingEvent, Step,
    Transfer, TransferKind,
};

const POOL: u64 = 1;
const STAKING_TOKEN: u64 = 2;
const REWARD_TOKEN: u64 = 3;
const OWNER: u64 = 10;
const A: u64 = 11;
const B: u64 = 12;

fn actor(id: u64) -> ActorId {
    ActorId::new(0, id as u128)
}

fn new_pool() -> Staking {
    init(
        actor(OWNER),
        0,
        InitStaking {
            staking_token_address: actor(STAKING_TOKEN),
            reward_token_address: actor(REWARD_TOKEN),
            distribution_time: 10000,
            reward_total: 1000,
        },
    )
    .unwrap()
}

/// Serves a request whose transfer, if it needs one, goes through at once.
fn send(
    staking: &mut Staking,
    user: u64,
    now: u64,
    action: StakingAction,
) -> Result<StakingEvent, Error> {
    match staking.handle(actor(user), actor(POOL), now, action)? {
        Step::Reply(event) => Ok(event),
        Step::Transfer(transfer) => staking.settle(&transfer, true),
    }
}

fn pool_after_two_stakes() -> Staking {
    let mut staking = new_pool();
    assert_eq!(
        send(&mut staking, A, 0, StakingAction::Stake(1500)),
        Ok(StakingEvent::StakeAccepted(0, 1500))
    );
    assert_eq!(
        send(&mut staking, B, 2000, StakingAction::Stake(2000)),
        Ok(StakingEvent::StakeAccepted(1, 2000))
    );
    staking
}

#[test]
fn first_stake_is_accepted_under_the_first_id() {
    let mut staking = new_pool();

    let step = staking.handle(actor(A), actor(POOL), 0, StakingAction::Stake(1500));
    let transfer = Transfer {
        transaction_id: 0,
        kind: TransferKind::Stake,
        token_address: actor(STAKING_TOKEN),
        sender: actor(A),
        recipient: actor(POOL),
        amount: 1500,
    };
    assert_eq!(step, Ok(Step::Transfer(transfer)));
    // Nothing is staked before the transfer is settled.
    assert_eq!(staking.total_staked(), 0);
    assert_eq!(staking.staker(&actor(A)), None);
    assert_eq!(staking.transaction(0), Some(Some(StakingAction::Stake(1500))));

    assert_eq!(staking.settle(&transfer, true), Ok(StakingEvent::StakeAccepted(0, 1500)));
    assert_eq!(staking.total_staked(), 1500);
    assert_eq!(
        staking.staker(&actor(A)),
        Some(Staker { balance: 1500, reward_allowed: 0, reward_debt: 0, distributed: 0 })
    );
    assert_eq!(staking.transaction(0), None);
}

#[test]
fn second_stake_owes_what_accrued_before_it() {
    let staking = pool_after_two_stakes();

    assert_eq!(staking.reward_produced(), 200);
    assert_eq!(staking.tokens_per_stake(), 13_333_333_333_333_333_333);
    assert_eq!(
        staking.staker(&actor(B)),
        Some(Staker { balance: 2000, reward_allowed: 0, reward_debt: 266, distributed: 0 })
    );
    assert_eq!(staking.total_staked(), 3500);
}

#[test]
fn reward_is_prorated_over_the_total_stake() {
    let mut staking = pool_after_two_stakes();

    let step = staking.handle(actor(A), actor(POOL), 3000, StakingAction::GetReward);
    let transfer = Transfer {
        transaction_id: 2,
        kind: TransferKind::Reward,
        token_address: actor(REWARD_TOKEN),
        sender: actor(POOL),
        recipient: actor(A),
        amount: 242,
    };
    assert_eq!(step, Ok(Step::Transfer(transfer)));
    assert_eq!(staking.reward_produced(), 300);
    assert_eq!(staking.tokens_per_stake(), 16_190_476_190_476_190_475);
    assert_eq!(staking.get_max_reward(1500), 242);
    assert_eq!(staking.calc_reward(&actor(A)), Ok(242));

    assert_eq!(staking.settle(&transfer, true), Ok(StakingEvent::Reward(2, 242)));
    assert_eq!(
        staking.staker(&actor(A)),
        Some(Staker { balance: 1500, reward_allowed: 0, reward_debt: 0, distributed: 242 })
    );
    assert_eq!(staking.total_staked(), 3500);
}

#[test]
fn withdrawal_keeps_the_reward_of_the_withdrawn_part() {
    let mut staking = pool_after_two_stakes();
    assert_eq!(
        send(&mut staking, A, 3000, StakingAction::GetReward),
        Ok(StakingEvent::Reward(2, 242))
    );

    let step = staking.handle(actor(A), actor(POOL), 3000, StakingAction::Withdraw(500));
    let transfer = Transfer {
        transaction_id: 3,
        kind: TransferKind::Withdraw,
        token_address: actor(STAKING_TOKEN),
        sender: actor(POOL),
        recipient: actor(A),
        amount: 500,
    };
    assert_eq!(step, Ok(Step::Transfer(transfer)));

    assert_eq!(staking.settle(&transfer, true), Ok(StakingEvent::Withdrawn(3, 500)));
    assert_eq!(
        staking.staker(&actor(A)),
        Some(Staker { balance: 1000, reward_allowed: 80, reward_debt: 0, distributed: 242 })
    );
    assert_eq!(staking.total_staked(), 3000);
}

#[test]
fn second_claim_without_new_accrual_is_refused() {
    let mut staking = pool_after_two_stakes();
    assert_eq!(
        send(&mut staking, A, 3000, StakingAction::GetReward),
        Ok(StakingEvent::Reward(2, 242))
    );

    assert_eq!(
        staking.handle(actor(A), actor(POOL), 3000, StakingAction::GetReward),
        Err(Error::ZeroReward)
    );
    // No transaction was opened, so no transfer can follow.
    assert_eq!(staking.transaction(3), None);
    assert_eq!(
        send(&mut staking, B, 3000, StakingAction::Stake(1)),
        Ok(StakingEvent::StakeAccepted(3, 1))
    );
}

#[test]
fn continuing_a_transaction_never_issued_fails() {
    let mut staking = pool_after_two_stakes();

    assert_eq!(
        staking.handle(actor(A), actor(POOL), 3000, StakingAction::Continue(77)),
        Err(Error::UnknownTransaction)
    );
    assert_eq!(
        staking.continue_transaction(actor(A), actor(POOL), 3000, 2),
        Err(Error::UnknownTransaction)
    );
}

#[test]
fn interrupted_stake_is_continued_under_its_id() {
    let mut staking = new_pool();
    let first = staking.handle(actor(A), actor(POOL), 0, StakingAction::Stake(1500));
    assert!(matches!(first, Ok(Step::Transfer(_))));

    // The host never reported back. Another request is served meanwhile.
    assert_eq!(
        send(&mut staking, B, 1000, StakingAction::Stake(10)),
        Ok(StakingEvent::StakeAccepted(1, 10))
    );

    let again = staking.handle(actor(A), actor(POOL), 2000, StakingAction::Continue(0));
    assert_eq!(again, first);
    assert_eq!(staking.transaction(0), Some(Some(StakingAction::Stake(1500))));
    let transfer = match again {
        Ok(Step::Transfer(transfer)) => transfer,
        _ => unreachable!(),
    };
    assert_eq!(staking.settle(&transfer, true), Ok(StakingEvent::StakeAccepted(0, 1500)));
    assert_eq!(staking.total_staked(), 1510);
    assert_eq!(staking.transaction(0), None);
}

#[test]
fn interrupted_withdrawal_and_claim_are_continued_under_their_ids() {
    let mut staking = pool_after_two_stakes();
    let withdrawal = staking.handle(actor(A), actor(POOL), 3000, StakingAction::Withdraw(500));
    let claim = staking.handle(actor(B), actor(POOL), 3000, StakingAction::GetReward);
    assert_eq!(staking.transaction(2), Some(Some(StakingAction::Withdraw(500))));
    assert_eq!(staking.transaction(3), Some(Some(StakingAction::GetReward)));

    assert_eq!(staking.handle(actor(A), actor(POOL), 3000, StakingAction::Continue(2)), withdrawal);
    assert_eq!(staking.handle(actor(B), actor(POOL), 3000, StakingAction::Continue(3)), claim);
    assert_eq!(
        claim,
        Ok(Step::Transfer(Transfer {
            transaction_id: 3,
            kind: TransferKind::Reward,
            token_address: actor(REWARD_TOKEN),
            sender: actor(POOL),
            recipient: actor(B),
            // 2000 * 16190476190476190475 / 10^20 - 266
            amount: 57,
        }))
    );
}

#[test]
fn only_the_owner_installs_a_new_schedule() {
    let mut staking = pool_after_two_stakes();
    let config = InitStaking {
        staking_token_address: actor(20),
        reward_token_address: actor(21),
        distribution_time: 500,
        reward_total: 7000,
    };

    assert_eq!(staking.update_staking(actor(A), 3000, config), Err(Error::NotOwner));
    assert_eq!(staking.reward_total(), 1000);

    assert_eq!(staking.update_staking(actor(OWNER), 3000, config), Ok(StakingEvent::Updated));
    assert_eq!(staking.staking_token_address(), actor(20));
    assert_eq!(staking.reward_token_address(), actor(21));
    assert_eq!(staking.distribution_time(), 500);
    assert_eq!(staking.reward_total(), 7000);
    assert_eq!(staking.produced_time(), 3000);
    // What the old schedule emitted up to now is kept.
    assert_eq!(staking.all_produced(), 300);
    assert_eq!(staking.reward_produced(), 300);
    assert_eq!(staking.tokens_per_stake(), 16_190_476_190_476_190_475);
    // The new schedule emits 7000 over 500, on top of it.
    assert_eq!(staking.produced(3100), 300 + 1400);
    assert_eq!(staking.produced(9000), 300 + 7000);
}

#[test]
fn init_refuses_an_empty_schedule() {
    let config = InitStaking {
        staking_token_address: actor(STAKING_TOKEN),
        reward_token_address: actor(REWARD_TOKEN),
        distribution_time: 10000,
        reward_total: 0,
    };
    assert_eq!(init(actor(OWNER), 0, config).err(), Some(Error::ZeroReward));

    let config = InitStaking { distribution_time: 0, reward_total: 1000, ..config };
    assert_eq!(init(actor(OWNER), 0, config).err(), Some(Error::ZeroTime));

    let config = InitStaking { distribution_time: 0, reward_total: 0, ..config };
    assert_eq!(init(actor(OWNER), 0, config).err(), Some(Error::ZeroReward));
}
