//! The mathematical model of the pool: its state as plain values and maps,
//! and each step of its bookkeeping as a function from state to state.
//!
//! The executable [`crate::staking::Staking`] is specified against this model.

use crate::arith::{clamp, mul_div, sat_add, sat_sub, DECIMALS_FACTOR};
use crate::io::{
    ActorId, Error, InitStaking, Staker, StakingAction, StakingEvent, Step, Transfer, TransferKind,
};
use vstd::prelude::*;

verus! {

/// The transaction id after `id`; the counter stays at `u64::MAX` once it
/// is there.
pub open spec fn successor(id: u64) -> u64 {
    if id == u64::MAX {
        u64::MAX
    } else {
        (id + 1) as u64
    }
}

/// Whether an operation may begin under `transaction_id` in a ledger with
/// these records: always on a fresh id; on a given id where its record is
/// there and still pending. `Ok(false)` says that the transaction was
/// already fully applied.
pub open spec fn admits(
    records: Map<u64, Option<StakingAction>>,
    transaction_id: Option<u64>,
) -> Result<bool, Error> {
    match transaction_id {
        None => Ok(true),
        Some(id) => if !records.contains_key(id) {
            Err(Error::UnknownTransaction)
        } else {
            Ok(records[id] is Some)
        },
    }
}

/// The sum of the balances of all the stakers of a finite ledger.
pub open spec fn total_balance(stakers: Map<ActorId, Staker>) -> int
    decreases stakers.dom().len(),
    when stakers.dom().finite()
{
    if stakers.dom().is_empty() {
        0
    } else {
        let id = stakers.dom().choose();
        stakers[id].balance + total_balance(stakers.remove(id))
    }
}

/// The state of a staking pool.
pub struct Pool {
    /// The identity that may reconfigure the pool.
    pub owner: ActorId,
    pub staking_token_address: ActorId,
    pub reward_token_address: ActorId,
    /// The reward-per-share index, scaled by [`DECIMALS_FACTOR`]: the reward
    /// that one staked unit has earned since the pool began.
    pub tokens_per_stake: u128,
    pub total_staked: u128,
    /// The duration over which the current schedule emits `reward_total`.
    pub distribution_time: u64,
    /// When the current schedule began.
    pub produced_time: u64,
    pub reward_total: u128,
    /// What the earlier schedules emitted in all.
    pub all_produced: u128,
    /// What has been emitted, and shared out through `tokens_per_stake`, so far.
    pub reward_produced: u128,
    pub stakers: Map<ActorId, Staker>,
    /// The next transaction id to hand out.
    pub transaction_id: u64,
    /// The operations in flight, each under its transaction id. A record of
    /// `None` marks a transaction that was fully applied.
    pub transactions: Map<u64, Option<StakingAction>>,
}

impl Pool {
    /// What holds of every pool: its schedule has a duration, its ledgers
    /// are finite, and only operations that move tokens are in flight.
    pub open spec fn wf(self) -> bool {
        &&& self.distribution_time > 0
        &&& self.stakers.dom().finite()
        &&& self.transactions.dom().finite()
        &&& forall|id: u64| #[trigger]
            self.transactions.contains_key(id) ==> (self.transactions[id] matches Some(action)
                ==> action.moves_tokens())
    }

    /// The pool's total is the sum of its stakers' balances.
    pub open spec fn conserved(self) -> bool {
        self.total_staked == total_balance(self.stakers)
    }

    /// The pool owes no staker a negative reward.
    pub open spec fn solvent(self) -> bool {
        forall|id: ActorId| #[trigger]
            self.stakers.contains_key(id) ==> self.owed(self.stakers[id]) >= 0
    }

    /// The pool right after initialization.
    pub open spec fn init(owner: ActorId, config: InitStaking, now: u64) -> Pool {
        Pool {
            owner,
            staking_token_address: config.staking_token_address,
            reward_token_address: config.reward_token_address,
            tokens_per_stake: 0,
            total_staked: 0,
            distribution_time: config.distribution_time,
            produced_time: now,
            reward_total: config.reward_total,
            all_produced: 0,
            reward_produced: 0,
            stakers: Map::empty(),
            transaction_id: 0,
            transactions: Map::empty(),
        }
    }

    /// The time that the current schedule has been emitting at `now`, at
    /// most its whole duration.
    pub open spec fn elapsed(self, now: u64) -> u64 {
        if now < self.produced_time {
            0
        } else if now - self.produced_time > self.distribution_time {
            self.distribution_time
        } else {
            (now - self.produced_time) as u64
        }
    }

    /// The reward that the pool has emitted in all at `now`: linear in the
    /// elapsed time of the current schedule, on top of the earlier schedules.
    pub open spec fn produced(self, now: u64) -> u128 {
        sat_add(
            self.all_produced,
            mul_div(self.reward_total, self.elapsed(now) as u128, self.distribution_time as u128),
        )
    }

    /// The pool brought up to date at `now`: what was emitted since the last
    /// update is shared out over the stake that was in the pool meanwhile.
    pub open spec fn update_reward(self, now: u64) -> Pool {
        let produced = self.produced(now);
        if produced > self.reward_produced {
            let fresh = (produced - self.reward_produced) as u128;
            Pool {
                tokens_per_stake: if self.total_staked > 0 {
                    sat_add(
                        self.tokens_per_stake,
                        mul_div(fresh, DECIMALS_FACTOR, self.total_staked),
                    )
                } else {
                    self.tokens_per_stake
                },
                reward_produced: produced,
                ..self
            }
        } else {
            self
        }
    }

    /// The most that `amount` can have earned: what it would have earned
    /// had it been staked since the pool began.
    pub open spec fn get_max_reward(self, amount: u128) -> u128 {
        mul_div(amount, self.tokens_per_stake, DECIMALS_FACTOR)
    }

    /// What the pool owes to a staker with this record, over the integers.
    pub open spec fn owed(self, staker: Staker) -> int {
        self.get_max_reward(staker.balance) + staker.reward_allowed - staker.reward_debt
            - staker.distributed
    }

    /// The reward that `id` can claim.
    pub open spec fn calc_reward(self, id: ActorId) -> Result<u128, Error> {
        if !self.stakers.contains_key(id) {
            Err(Error::StakerNotFound)
        } else if self.owed(self.stakers[id]) < 0 {
            Err(Error::InvariantViolation)
        } else {
            Ok(clamp(self.owed(self.stakers[id])))
        }
    }

    /// The record of `id`, or an empty one where `id` has none yet.
    pub open spec fn staker(self, id: ActorId) -> Staker {
        if self.stakers.contains_key(id) {
            self.stakers[id]
        } else {
            Staker::empty()
        }
    }

    /// The ledger after `id` has deposited `amount`: the deposit owes what
    /// it would have earned before it came.
    pub open spec fn record_deposit(self, id: ActorId, amount: u128) -> Pool {
        let staker = self.staker(id);
        Pool {
            stakers: self.stakers.insert(
                id,
                Staker {
                    reward_debt: sat_add(staker.reward_debt, self.get_max_reward(amount)),
                    balance: sat_add(staker.balance, amount),
                    ..staker
                },
            ),
            ..self
        }
    }

    /// The ledger after `id` has withdrawn `amount`.
    pub open spec fn record_withdrawal(self, id: ActorId, amount: u128) -> Pool
        recommends
            self.stakers.contains_key(id),
            self.stakers[id].balance >= amount,
    {
        let staker = self.stakers[id];
        Pool {
            stakers: self.stakers.insert(
                id,
                Staker {
                    reward_allowed: sat_add(staker.reward_allowed, self.get_max_reward(amount)),
                    balance: sat_sub(staker.balance, amount),
                    ..staker
                },
            ),
            ..self
        }
    }

    /// The ledger after `amount` of reward has been paid out to `id`.
    pub open spec fn record_distribution(self, id: ActorId, amount: u128) -> Pool
        recommends
            self.stakers.contains_key(id),
    {
        let staker = self.stakers[id];
        Pool {
            stakers: self.stakers.insert(
                id,
                Staker { distributed: sat_add(staker.distributed, amount), ..staker },
            ),
            ..self
        }
    }

    /// Whether an operation may begin under `transaction_id`.
    pub open spec fn admits(self, transaction_id: Option<u64>) -> Result<bool, Error> {
        admits(self.transactions, transaction_id)
    }

    /// The id under which an operation runs: the one given, or the next of
    /// the pool's counter.
    pub open spec fn get_transaction_id(self, transaction_id: Option<u64>) -> u64 {
        match transaction_id {
            Some(id) => id,
            None => self.transaction_id,
        }
    }

    /// The pool after an operation has begun. Resuming under a given id
    /// changes nothing; a fresh operation is recorded under the next id.
    pub open spec fn begin(self, transaction_id: Option<u64>, action: StakingAction) -> Pool {
        match transaction_id {
            Some(_) => self,
            None => Pool {
                transactions: self.transactions.insert(self.transaction_id, Some(action)),
                transaction_id: successor(self.transaction_id),
                ..self
            },
        }
    }

    /// The pool after the transaction `id` has ended, committed or aborted:
    /// its record is gone.
    pub open spec fn end(self, id: u64) -> Pool {
        Pool { transactions: self.transactions.remove(id), ..self }
    }

    /// The pool after a new schedule was installed at `now`: what the old
    /// schedule emitted up to `now` is kept, and the new one starts.
    pub open spec fn install(self, config: InitStaking, now: u64) -> Pool {
        let updated = self.update_reward(now);
        Pool {
            staking_token_address: config.staking_token_address,
            reward_token_address: config.reward_token_address,
            distribution_time: config.distribution_time,
            reward_total: config.reward_total,
            all_produced: updated.reward_produced,
            produced_time: now,
            ..updated
        }
    }

    /// The request to install a new schedule, made by `source` at `now`.
    pub open spec fn update_staking(self, source: ActorId, now: u64, config: InitStaking) -> (
        Pool,
        Result<StakingEvent, Error>,
    ) {
        if source != self.owner {
            (self, Err(Error::NotOwner))
        } else {
            match config.validity() {
                Err(error) => (self, Err(error)),
                Ok(_) => (self.install(config, now), Ok(StakingEvent::Updated)),
            }
        }
    }

    /// The request of `source` to stake `amount`, made at `now`.
    pub open spec fn stake(
        self,
        source: ActorId,
        program: ActorId,
        now: u64,
        transaction_id: Option<u64>,
        amount: u128,
    ) -> (Pool, Result<Step, Error>) {
        if amount == 0 {
            (self, Err(Error::ZeroAmount))
        } else {
            match self.admits(transaction_id) {
                Err(error) => (self, Err(error)),
                Ok(false) => (self, Ok(Step::Reply(StakingEvent::TransactionProcessed))),
                Ok(true) => (
                    self.begin(transaction_id, StakingAction::Stake(amount)).update_reward(now),
                    Ok(
                        Step::Transfer(
                            Transfer {
                                transaction_id: self.get_transaction_id(transaction_id),
                                kind: TransferKind::Stake,
                                token_address: self.staking_token_address,
                                sender: source,
                                recipient: program,
                                amount,
                            },
                        ),
                    ),
                ),
            }
        }
    }

    /// The request of `source` to withdraw `amount`, made at `now`.
    pub open spec fn withdraw(
        self,
        source: ActorId,
        program: ActorId,
        now: u64,
        transaction_id: Option<u64>,
        amount: u128,
    ) -> (Pool, Result<Step, Error>) {
        if amount == 0 {
            (self, Err(Error::ZeroAmount))
        } else {
            match self.admits(transaction_id) {
                Err(error) => (self, Err(error)),
                Ok(false) => (self, Ok(Step::Reply(StakingEvent::TransactionProcessed))),
                Ok(true) => if !self.stakers.contains_key(source) {
                    (self, Err(Error::StakerNotFound))
                } else if self.stakers[source].balance < amount {
                    (self, Err(Error::InsufficientBalance))
                } else {
                    (
                        self.begin(transaction_id, StakingAction::Withdraw(amount)).update_reward(
                            now,
                        ),
                        Ok(
                            Step::Transfer(
                                Transfer {
                                    transaction_id: self.get_transaction_id(transaction_id),
                                    kind: TransferKind::Withdraw,
                                    token_address: self.staking_token_address,
                                    sender: program,
                                    recipient: source,
                                    amount,
                                },
                            ),
                        ),
                    )
                },
            }
        }
    }

    /// The request of `source` to be paid its reward, made at `now`.
    pub open spec fn send_reward(
        self,
        source: ActorId,
        program: ActorId,
        now: u64,
        transaction_id: Option<u64>,
    ) -> (Pool, Result<Step, Error>) {
        match self.admits(transaction_id) {
            Err(error) => (self, Err(error)),
            Ok(false) => (self, Ok(Step::Reply(StakingEvent::TransactionProcessed))),
            Ok(true) => match self.update_reward(now).calc_reward(source) {
                Err(error) => (self, Err(error)),
                Ok(reward) => if reward == 0 {
                    (self, Err(Error::ZeroReward))
                } else {
                    (
                        self.begin(transaction_id, StakingAction::GetReward).update_reward(now),
                        Ok(
                            Step::Transfer(
                                Transfer {
                                    transaction_id: self.get_transaction_id(transaction_id),
                                    kind: TransferKind::Reward,
                                    token_address: self.reward_token_address,
                                    sender: program,
                                    recipient: source,
                                    amount: reward,
                                },
                            ),
                        ),
                    )
                },
            },
        }
    }

    /// The request to go on with the transaction `transaction_id`.
    pub open spec fn continue_transaction(
        self,
        source: ActorId,
        program: ActorId,
        now: u64,
        transaction_id: u64,
    ) -> (Pool, Result<Step, Error>) {
        if !self.transactions.contains_key(transaction_id) {
            (self, Err(Error::UnknownTransaction))
        } else {
            match self.transactions[transaction_id] {
                None => (self, Ok(Step::Reply(StakingEvent::TransactionProcessed))),
                Some(StakingAction::Stake(amount)) => self.stake(
                    source,
                    program,
                    now,
                    Some(transaction_id),
                    amount,
                ),
                Some(StakingAction::Withdraw(amount)) => self.withdraw(
                    source,
                    program,
                    now,
                    Some(transaction_id),
                    amount,
                ),
                Some(StakingAction::GetReward) => self.send_reward(
                    source,
                    program,
                    now,
                    Some(transaction_id),
                ),
                // A valid pool holds no other record.
                Some(_) => (self, Err(Error::UnknownTransaction)),
            }
        }
    }

    /// Any request of `source`, made at `now`.
    pub open spec fn handle(self, source: ActorId, program: ActorId, now: u64, action: StakingAction) -> (
        Pool,
        Result<Step, Error>,
    ) {
        match action {
            StakingAction::Stake(amount) => self.stake(source, program, now, None, amount),
            StakingAction::Withdraw(amount) => self.withdraw(source, program, now, None, amount),
            StakingAction::UpdateStaking(config) => {
                let (pool, reply) = self.update_staking(source, now, config);
                (
                    pool,
                    match reply {
                        Ok(event) => Ok(Step::Reply(event)),
                        Err(error) => Err(error),
                    },
                )
            },
            StakingAction::GetReward => self.send_reward(source, program, now, None),
            StakingAction::Continue(transaction_id) => self.continue_transaction(
                source,
                program,
                now,
                transaction_id,
            ),
        }
    }

    /// The outcome of a transfer, reported back to the pool. A transfer that
    /// failed only ends its transaction. One that succeeded is applied to
    /// the staker's record and ends its transaction too, unless the record
    /// no longer allows it: then nothing changes.
    pub open spec fn settle(self, transfer: Transfer, succeeded: bool) -> (
        Pool,
        Result<StakingEvent, Error>,
    ) {
        let id = transfer.transaction_id;
        let staker = transfer.spec_staker();
        let amount = transfer.amount;
        if !succeeded {
            (self.end(id), Err(Error::TransferFailed))
        } else {
            match transfer.kind {
                TransferKind::Stake => (
                    Pool {
                        total_staked: sat_add(self.total_staked, amount),
                        ..self.record_deposit(staker, amount)
                    }.end(id),
                    Ok(StakingEvent::StakeAccepted(id, amount)),
                ),
                TransferKind::Withdraw => if !self.stakers.contains_key(staker) {
                    (self, Err(Error::StakerNotFound))
                } else if self.stakers[staker].balance < amount {
                    (self, Err(Error::InsufficientBalance))
                } else {
                    (
                        Pool {
                            total_staked: sat_sub(self.total_staked, amount),
                            ..self.record_withdrawal(staker, amount)
                        }.end(id),
                        Ok(StakingEvent::Withdrawn(id, amount)),
                    )
                },
                TransferKind::Reward => if !self.stakers.contains_key(staker) {
                    (self, Err(Error::StakerNotFound))
                } else {
                    (
                        self.record_distribution(staker, amount).end(id),
                        Ok(StakingEvent::Reward(id, amount)),
                    )
                },
            }
        }
    }
}

} // verus!
