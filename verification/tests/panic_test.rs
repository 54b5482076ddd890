use staking::{
    init, ActorId, Error, InitStaking, Staking, StakingAction, StakingEvent, Step,
};

const PROGRAMS: &[u64] = &[1, 2, 3];
const USERS: &[u64] = &[1, 2, 3, 4, 5, 6, 7, 8];

fn actor(id: u64) -> ActorId {
    ActorId::new(0, id as u128)
}

fn init_staking() -> Staking {
    let staking = init(
        actor(USERS[3]),
        0,
        InitStaking {
            staking_token_address: actor(PROGRAMS[1]),
            reward_token_address: actor(PROGRAMS[2]),
            distribution_time: 10000,
            reward_total: 1000,
        },
    );
    assert!(staking.is_ok());
    staking.unwrap()
}

/// Serves a request in a host in which every transfer goes through at once.
fn send(staking: &mut Staking, user: u64, action: StakingAction) -> Result<StakingEvent, Error> {
    match staking.handle(actor(user), actor(PROGRAMS[0]), 0, action)? {
        Step::Reply(event) => Ok(event),
        Step::Transfer(transfer) => staking.settle(&transfer, true),
    }
}

#[test]
fn panic_test_stake() {
    let mut staking = init_staking();

    let res = send(&mut staking, USERS[4], StakingAction::Stake(0));
    assert_eq!(res, Err(Error::ZeroAmount));
}

#[test]
fn update_staking() {
    let mut staking = init_staking();

    let res = send(
        &mut staking,
        USERS[4],
        StakingAction::UpdateStaking(InitStaking {
            staking_token_address: actor(USERS[1]),
            reward_token_address: actor(USERS[2]),
            distribution_time: 10000,
            reward_total: 1000,
        }),
    );
    assert_eq!(res, Err(Error::NotOwner));

    let res = send(
        &mut staking,
        USERS[3],
        StakingAction::UpdateStaking(InitStaking {
            staking_token_address: actor(USERS[1]),
            reward_token_address: actor(USERS[2]),
            distribution_time: 10000,
            reward_total: 0,
        }),
    );
    assert_eq!(res, Err(Error::ZeroReward));

    let res = send(
        &mut staking,
        USERS[3],
        StakingAction::UpdateStaking(InitStaking {
            staking_token_address: actor(USERS[1]),
            reward_token_address: actor(USERS[2]),
            distribution_time: 0,
            reward_total: 1000,
        }),
    );
    println!("{:?}", res);
    assert_eq!(res, Err(Error::ZeroTime));
}

#[test]
fn panic_test_send_reward() {
    let mut staking = init_staking();

    let res = send(&mut staking, USERS[4], StakingAction::GetReward);

    assert_eq!(res, Err(Error::StakerNotFound));
}

#[test]
fn panic_test_withdraw() {
    let mut staking = init_staking();

    let res = send(&mut staking, USERS[4], StakingAction::Stake(1500));
    assert_eq!(res, Ok(StakingEvent::StakeAccepted(0, 1500)));
    let res = send(&mut staking, USERS[5], StakingAction::Stake(2000));
    assert_eq!(res, Ok(StakingEvent::StakeAccepted(1, 2000)));

    let res = send(&mut staking, USERS[4], StakingAction::Withdraw(0));
    assert_eq!(res, Err(Error::ZeroAmount));

    let res = send(&mut staking, USERS[6], StakingAction::Withdraw(1000));
    assert_eq!(res, Err(Error::StakerNotFound));

    let res = send(&mut staking, USERS[5], StakingAction::Withdraw(5000));
    assert_eq!(res, Err(Error::InsufficientBalance));
}
