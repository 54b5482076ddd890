//! The staking pool itself: the accounting of rewards, and the life of each
//! operation around the token transfer that it depends on.
//!
//! An operation that moves tokens runs in two steps. The first validates the
//! request, records it in the transaction ledger and hands back the
//! [`Transfer`] to make; it touches no balance. The host makes the transfer,
//! however long that takes, and reports the outcome to [`Staking::settle`],
//! which applies the operation or drops it. Other requests may be served in
//! between.

use crate::arith::{checked_net, saturating_mul_div, DECIMALS_FACTOR};
use crate::io::{
    ActorId, Error, InitStaking, Staker, StakingAction, StakingEvent, StakingState,
    StakingStateReply, Step, Transfer, TransferKind,
};
use crate::pool::Pool;
use crate::stakers::{distinct, ledger, Stakers};
use crate::transactions::Transactions;
use vstd::prelude::*;

verus! {

/// Checks a schedule: it must emit something, over some time.
fn validate(config: &InitStaking) -> (r: Result<(), Error>)
    ensures
        r == config.validity(),
{
    if config.reward_total == 0 {
        Err(Error::ZeroReward)
    } else if config.distribution_time == 0 {
        Err(Error::ZeroTime)
    } else {
        Ok(())
    }
}

/// A staking pool.
pub struct Staking {
    owner: ActorId,
    staking_token_address: ActorId,
    reward_token_address: ActorId,
    tokens_per_stake: u128,
    total_staked: u128,
    distribution_time: u64,
    produced_time: u64,
    reward_total: u128,
    all_produced: u128,
    reward_produced: u128,
    stakers: Stakers,
    transactions: Transactions,
}

impl View for Staking {
    type V = Pool;

    closed spec fn view(&self) -> Pool {
        Pool {
            owner: self.owner,
            staking_token_address: self.staking_token_address,
            reward_token_address: self.reward_token_address,
            tokens_per_stake: self.tokens_per_stake,
            total_staked: self.total_staked,
            distribution_time: self.distribution_time,
            produced_time: self.produced_time,
            reward_total: self.reward_total,
            all_produced: self.all_produced,
            reward_produced: self.reward_produced,
            stakers: self.stakers@,
            transaction_id: self.transactions.next_id(),
            transactions: self.transactions@,
        }
    }
}

impl Staking {
    /// The pool is a valid one, and so is its representation.
    pub closed spec fn wf(&self) -> bool {
        &&& self.stakers.wf()
        &&& self@.wf()
    }

    /// A valid pool's model is valid.
    pub proof fn lemma_wf(&self)
        requires
            self.wf(),
        ensures
            self@.wf(),
    {
    }

    /// The identity that may reconfigure the pool.
    pub fn owner(&self) -> (r: ActorId)
        ensures
            r == self@.owner,
    {
        self.owner
    }

    pub fn staking_token_address(&self) -> (r: ActorId)
        ensures
            r == self@.staking_token_address,
    {
        self.staking_token_address
    }

    pub fn reward_token_address(&self) -> (r: ActorId)
        ensures
            r == self@.reward_token_address,
    {
        self.reward_token_address
    }

    /// The reward-per-share index, as of the last update.
    pub fn tokens_per_stake(&self) -> (r: u128)
        ensures
            r == self@.tokens_per_stake,
    {
        self.tokens_per_stake
    }

    pub fn total_staked(&self) -> (r: u128)
        ensures
            r == self@.total_staked,
    {
        self.total_staked
    }

    pub fn distribution_time(&self) -> (r: u64)
        ensures
            r == self@.distribution_time,
    {
        self.distribution_time
    }

    /// When the current schedule began.
    pub fn produced_time(&self) -> (r: u64)
        ensures
            r == self@.produced_time,
    {
        self.produced_time
    }

    pub fn reward_total(&self) -> (r: u128)
        ensures
            r == self@.reward_total,
    {
        self.reward_total
    }

    /// What the earlier schedules emitted in all.
    pub fn all_produced(&self) -> (r: u128)
        ensures
            r == self@.all_produced,
    {
        self.all_produced
    }

    /// What has been emitted as of the last update.
    pub fn reward_produced(&self) -> (r: u128)
        ensures
            r == self@.reward_produced,
    {
        self.reward_produced
    }

    /// The record of `id`, if it has one.
    pub fn staker(&self, id: &ActorId) -> (r: Option<Staker>)
        requires
            self.wf(),
        ensures
            r == (if self@.stakers.contains_key(*id) {
                Some(self@.stakers[*id])
            } else {
                None
            }),
    {
        self.stakers.get(id)
    }

    /// The record of the transaction `id`, if there is one: its pending
    /// operation, or `None` where it was fully applied.
    pub fn transaction(&self, id: u64) -> (r: Option<Option<StakingAction>>)
        ensures
            r == (if self@.transactions.contains_key(id) {
                Some(self@.transactions[id])
            } else {
                None
            }),
    {
        self.transactions.get(id)
    }

    /// The reward that the pool has emitted in all at `now`.
    pub fn produced(&self, now: u64) -> (r: u128)
        requires
            self.wf(),
        ensures
            r == self@.produced(now),
    {
        let mut elapsed_time: u64 = now.saturating_sub(self.produced_time);
        if elapsed_time > self.distribution_time {
            elapsed_time = self.distribution_time;
        }
        self.all_produced.saturating_add(
            saturating_mul_div(
                self.reward_total,
                elapsed_time as u128,
                self.distribution_time as u128,
            ),
        )
    }

    /// Brings the pool up to date at `now`: what was emitted since the last
    /// update raises the reward-per-share index.
    pub fn update_reward(&mut self, now: u64)
        requires
            old(self).wf(),
        ensures
            final(self).wf(),
            final(self)@ == old(self)@.update_reward(now),
    {
        let reward_produced_at_now: u128 = self.produced(now);
        if reward_produced_at_now > self.reward_produced {
            let produced_new: u128 = reward_produced_at_now - self.reward_produced;
            if self.total_staked > 0 {
                self.tokens_per_stake = self.tokens_per_stake.saturating_add(
                    saturating_mul_div(produced_new, DECIMALS_FACTOR, self.total_staked),
                );
            }
            self.reward_produced = reward_produced_at_now;
        }
    }

    /// The most that `amount` can have earned since the pool began.
    pub fn get_max_reward(&self, amount: u128) -> (r: u128)
        ensures
            r == self@.get_max_reward(amount),
    {
        saturating_mul_div(amount, self.tokens_per_stake, DECIMALS_FACTOR)
    }

    /// The reward that `id` can claim now. A pool whose books give a
    /// negative reward reports that instead of a number.
    pub fn calc_reward(&self, id: &ActorId) -> (r: Result<u128, Error>)
        requires
            self.wf(),
        ensures
            r == self@.calc_reward(*id),
    {
        match self.stakers.get(id) {
            None => Err(Error::StakerNotFound),
            Some(staker) => {
                match checked_net(
                    self.get_max_reward(staker.balance),
                    staker.reward_allowed,
                    staker.reward_debt,
                    staker.distributed,
                ) {
                    Some(reward) => Ok(reward),
                    None => Err(Error::InvariantViolation),
                }
            },
        }
    }

    /// Installs a new schedule on behalf of `source`, who must be the owner.
    /// What the old schedule emitted up to `now` is shared out first.
    pub fn update_staking(&mut self, source: ActorId, now: u64, config: InitStaking) -> (r: Result<
        StakingEvent,
        Error,
    >)
        requires
            old(self).wf(),
        ensures
            final(self).wf(),
            (final(self)@, r) == old(self)@.update_staking(source, now, config),
            r is Err ==> final(self)@ == old(self)@,
    {
        if source != self.owner {
            return Err(Error::NotOwner);
        }
        match validate(&config) {
            Err(error) => {
                return Err(error);
            },
            Ok(()) => {},
        }
        self.update_reward(now);
        self.all_produced = self.reward_produced;
        self.produced_time = now;
        self.staking_token_address = config.staking_token_address;
        self.reward_token_address = config.reward_token_address;
        self.distribution_time = config.distribution_time;
        self.reward_total = config.reward_total;
        Ok(StakingEvent::Updated)
    }

    /// Begins the operation `action` under `transaction_id` and brings the
    /// pool up to date at `now`. Returns the id under which it runs.
    fn begin(&mut self, transaction_id: Option<u64>, action: StakingAction, now: u64) -> (id: u64)
        requires
            old(self).wf(),
            action.moves_tokens(),
        ensures
            final(self).wf(),
            final(self)@ == old(self)@.begin(transaction_id, action).update_reward(now),
            id == old(self)@.get_transaction_id(transaction_id),
    {
        let id: u64 = self.transactions.begin(transaction_id, action);
        self.update_reward(now);
        id
    }

    /// First step of staking `amount` for `source`: hands back the transfer
    /// of the staked token from `source` to the pool, `program`.
    pub fn stake(
        &mut self,
        source: ActorId,
        program: ActorId,
        now: u64,
        transaction_id: Option<u64>,
        amount: u128,
    ) -> (r: Result<Step, Error>)
        requires
            old(self).wf(),
        ensures
            final(self).wf(),
            (final(self)@, r) == old(self)@.stake(source, program, now, transaction_id, amount),
            final(self)@.stakers == old(self)@.stakers,
            final(self)@.total_staked == old(self)@.total_staked,
            !(r matches Ok(Step::Transfer(_))) ==> final(self)@ == old(self)@,
    {
        if amount == 0 {
            return Err(Error::ZeroAmount);
        }
        match self.transactions.admits(transaction_id) {
            Err(error) => {
                return Err(error);
            },
            Ok(false) => {
                return Ok(Step::Reply(StakingEvent::TransactionProcessed));
            },
            Ok(true) => {},
        }
        let token_address = self.staking_token_address;
        let id: u64 = self.begin(transaction_id, StakingAction::Stake(amount), now);
        Ok(
            Step::Transfer(
                Transfer {
                    transaction_id: id,
                    kind: TransferKind::Stake,
                    token_address,
                    sender: source,
                    recipient: program,
                    amount,
                },
            ),
        )
    }

    /// First step of paying `source` its reward: hands back the transfer of
    /// the reward token from the pool, `program`, to `source`.
    pub fn send_reward(
        &mut self,
        source: ActorId,
        program: ActorId,
        now: u64,
        transaction_id: Option<u64>,
    ) -> (r: Result<Step, Error>)
        requires
            old(self).wf(),
        ensures
            final(self).wf(),
            (final(self)@, r) == old(self)@.send_reward(source, program, now, transaction_id),
            final(self)@.stakers == old(self)@.stakers,
            final(self)@.total_staked == old(self)@.total_staked,
            !(r matches Ok(Step::Transfer(_))) ==> final(self)@ == old(self)@,
    {
        match self.transactions.admits(transaction_id) {
            Err(error) => {
                return Err(error);
            },
            Ok(false) => {
                return Ok(Step::Reply(StakingEvent::TransactionProcessed));
            },
            Ok(true) => {},
        }
        // Look ahead to `now` for the reward, and leave the pool as it was
        // in case the request is refused.
        let tokens_per_stake: u128 = self.tokens_per_stake;
        let reward_produced: u128 = self.reward_produced;
        self.update_reward(now);
        let reward = self.calc_reward(&source);
        self.tokens_per_stake = tokens_per_stake;
        self.reward_produced = reward_produced;
        match reward {
            Err(error) => Err(error),
            Ok(reward) => {
                if reward == 0 {
                    return Err(Error::ZeroReward);
                }
                let token_address = self.reward_token_address;
                let id: u64 = self.begin(transaction_id, StakingAction::GetReward, now);
                Ok(
                    Step::Transfer(
                        Transfer {
                            transaction_id: id,
                            kind: TransferKind::Reward,
                            token_address,
                            sender: program,
                            recipient: source,
                            amount: reward,
                        },
                    ),
                )
            },
        }
    }

    /// First step of withdrawing `amount` for `source`: hands back the
    /// transfer of the staked token from the pool, `program`, to `source`.
    pub fn withdraw(
        &mut self,
        source: ActorId,
        program: ActorId,
        now: u64,
        transaction_id: Option<u64>,
        amount: u128,
    ) -> (r: Result<Step, Error>)
        requires
            old(self).wf(),
        ensures
            final(self).wf(),
            (final(self)@, r) == old(self)@.withdraw(source, program, now, transaction_id, amount),
            final(self)@.stakers == old(self)@.stakers,
            final(self)@.total_staked == old(self)@.total_staked,
            !(r matches Ok(Step::Transfer(_))) ==> final(self)@ == old(self)@,
    {
        if amount == 0 {
            return Err(Error::ZeroAmount);
        }
        match self.transactions.admits(transaction_id) {
            Err(error) => {
                return Err(error);
            },
            Ok(false) => {
                return Ok(Step::Reply(StakingEvent::TransactionProcessed));
            },
            Ok(true) => {},
        }
        match self.stakers.get(&source) {
            None => {
                return Err(Error::StakerNotFound);
            },
            Some(staker) => {
                if staker.balance < amount {
                    return Err(Error::InsufficientBalance);
                }
            },
        }
        let token_address = self.staking_token_address;
        let id: u64 = self.begin(transaction_id, StakingAction::Withdraw(amount), now);
        Ok(
            Step::Transfer(
                Transfer {
                    transaction_id: id,
                    kind: TransferKind::Withdraw,
                    token_address,
                    sender: program,
                    recipient: source,
                    amount,
                },
            ),
        )
    }

    /// Goes on with the transaction `transaction_id`: its pending operation
    /// starts over under the same id. A transaction that was fully applied
    /// is only acknowledged.
    pub fn continue_transaction(
        &mut self,
        source: ActorId,
        program: ActorId,
        now: u64,
        transaction_id: u64,
    ) -> (r: Result<Step, Error>)
        requires
            old(self).wf(),
        ensures
            final(self).wf(),
            (final(self)@, r) == old(self)@.continue_transaction(
                source,
                program,
                now,
                transaction_id,
            ),
            final(self)@.stakers == old(self)@.stakers,
            final(self)@.total_staked == old(self)@.total_staked,
            !(r matches Ok(Step::Transfer(_))) ==> final(self)@ == old(self)@,
    {
        match self.transactions.get(transaction_id) {
            None => Err(Error::UnknownTransaction),
            Some(None) => Ok(Step::Reply(StakingEvent::TransactionProcessed)),
            Some(Some(StakingAction::Stake(amount))) => self.stake(
                source,
                program,
                now,
                Some(transaction_id),
                amount,
            ),
            Some(Some(StakingAction::Withdraw(amount))) => self.withdraw(
                source,
                program,
                now,
                Some(transaction_id),
                amount,
            ),
            Some(Some(StakingAction::GetReward)) => self.send_reward(
                source,
                program,
                now,
                Some(transaction_id),
            ),
            // A valid pool holds no other record.
            Some(Some(_)) => Err(Error::UnknownTransaction),
        }
    }

    /// Serves one request of `source`, made at `now` to the pool `program`.
    pub fn handle(&mut self, source: ActorId, program: ActorId, now: u64, action: StakingAction) -> (r:
        Result<Step, Error>)
        requires
            old(self).wf(),
        ensures
            final(self).wf(),
            (final(self)@, r) == old(self)@.handle(source, program, now, action),
            final(self)@.stakers == old(self)@.stakers,
            final(self)@.total_staked == old(self)@.total_staked,
            r is Err ==> final(self)@ == old(self)@,
    {
        match action {
            StakingAction::Stake(amount) => self.stake(source, program, now, None, amount),
            StakingAction::Withdraw(amount) => self.withdraw(source, program, now, None, amount),
            StakingAction::UpdateStaking(config) => match self.update_staking(
                source,
                now,
                config,
            ) {
                Ok(event) => Ok(Step::Reply(event)),
                Err(error) => Err(error),
            },
            StakingAction::GetReward => self.send_reward(source, program, now, None),
            StakingAction::Continue(transaction_id) => self.continue_transaction(
                source,
                program,
                now,
                transaction_id,
            ),
        }
    }

    /// Adds a deposit of `amount` to the record of `id`, which is opened if
    /// `id` has none.
    fn record_deposit(&mut self, id: ActorId, amount: u128)
        requires
            old(self).wf(),
        ensures
            final(self).wf(),
            final(self)@ == old(self)@.record_deposit(id, amount),
    {
        let staker = match self.stakers.get(&id) {
            Some(staker) => staker,
            None => Staker::default(),
        };
        let amount_per_token: u128 = self.get_max_reward(amount);
        self.stakers.insert(
            id,
            Staker {
                reward_debt: staker.reward_debt.saturating_add(amount_per_token),
                balance: staker.balance.saturating_add(amount),
                reward_allowed: staker.reward_allowed,
                distributed: staker.distributed,
            },
        );
    }

    /// Takes a withdrawal of `amount` from the record of `id`.
    fn record_withdrawal(&mut self, id: ActorId, amount: u128) -> (r: Result<(), Error>)
        requires
            old(self).wf(),
        ensures
            final(self).wf(),
            !old(self)@.stakers.contains_key(id) ==> r == Err::<(), Error>(Error::StakerNotFound)
                && final(self)@ == old(self)@,
            old(self)@.stakers.contains_key(id) && old(self)@.stakers[id].balance < amount ==> r
                == Err::<(), Error>(Error::InsufficientBalance) && final(self)@ == old(self)@,
            old(self)@.stakers.contains_key(id) && old(self)@.stakers[id].balance >= amount ==> r
                is Ok && final(self)@ == old(self)@.record_withdrawal(id, amount),
    {
        match self.stakers.get(&id) {
            None => Err(Error::StakerNotFound),
            Some(staker) => {
                if staker.balance < amount {
                    return Err(Error::InsufficientBalance);
                }
                let amount_per_token: u128 = self.get_max_reward(amount);
                self.stakers.insert(
                    id,
                    Staker {
                        reward_allowed: staker.reward_allowed.saturating_add(amount_per_token),
                        balance: staker.balance.saturating_sub(amount),
                        reward_debt: staker.reward_debt,
                        distributed: staker.distributed,
                    },
                );
                Ok(())
            },
        }
    }

    /// Adds a payment of `amount` to the record of `id`.
    fn record_distribution(&mut self, id: ActorId, amount: u128) -> (r: Result<(), Error>)
        requires
            old(self).wf(),
        ensures
            final(self).wf(),
            !old(self)@.stakers.contains_key(id) ==> r == Err::<(), Error>(Error::StakerNotFound)
                && final(self)@ == old(self)@,
            old(self)@.stakers.contains_key(id) ==> r is Ok && final(self)@ == old(
                self,
            )@.record_distribution(id, amount),
    {
        match self.stakers.get(&id) {
            None => Err(Error::StakerNotFound),
            Some(staker) => {
                self.stakers.insert(
                    id,
                    Staker {
                        distributed: staker.distributed.saturating_add(amount),
                        balance: staker.balance,
                        reward_allowed: staker.reward_allowed,
                        reward_debt: staker.reward_debt,
                    },
                );
                Ok(())
            },
        }
    }

    /// Second step of an operation: takes the outcome of its transfer.
    ///
    /// After a failed transfer the transaction is dropped and nothing else
    /// changes. After a successful one the operation is applied to the
    /// staker's record and the transaction is closed.
    pub fn settle(&mut self, transfer: &Transfer, succeeded: bool) -> (r: Result<
        StakingEvent,
        Error,
    >)
        requires
            old(self).wf(),
        ensures
            final(self).wf(),
            (final(self)@, r) == old(self)@.settle(*transfer, succeeded),
            !succeeded ==> r == Err::<StakingEvent, Error>(Error::TransferFailed) && final(self)@
                == old(self)@.end(transfer.transaction_id),
            succeeded && r is Err ==> final(self)@ == old(self)@,
            r is Ok ==> !final(self)@.transactions.contains_key(transfer.transaction_id),
    {
        let id: u64 = transfer.transaction_id;
        let amount: u128 = transfer.amount;
        let staker = transfer.staker();
        if !succeeded {
            self.transactions.abort(id);
            return Err(Error::TransferFailed);
        }
        match transfer.kind {
            TransferKind::Stake => {
                self.record_deposit(staker, amount);
                self.total_staked = self.total_staked.saturating_add(amount);
                self.transactions.commit(id);
                Ok(StakingEvent::StakeAccepted(id, amount))
            },
            TransferKind::Withdraw => match self.record_withdrawal(staker, amount) {
                Err(error) => Err(error),
                Ok(()) => {
                    self.total_staked = self.total_staked.saturating_sub(amount);
                    self.transactions.commit(id);
                    Ok(StakingEvent::Withdrawn(id, amount))
                },
            },
            TransferKind::Reward => match self.record_distribution(staker, amount) {
                Err(error) => Err(error),
                Ok(()) => {
                    self.transactions.commit(id);
                    Ok(StakingEvent::Reward(id, amount))
                },
            },
        }
    }
}

/// Creates the pool of `owner` at `now`, with its first schedule.
pub fn init(owner: ActorId, now: u64, config: InitStaking) -> (r: Result<Staking, Error>)
    ensures
        match r {
            Ok(staking) => config.validity() is Ok && staking.wf() && staking@ == Pool::init(
                owner,
                config,
                now,
            ),
            Err(error) => config.validity() == Err::<(), Error>(error),
        },
{
    match validate(&config) {
        Err(error) => Err(error),
        Ok(()) => {
            let staking = Staking {
                owner,
                staking_token_address: config.staking_token_address,
                reward_token_address: config.reward_token_address,
                tokens_per_stake: 0,
                total_staked: 0,
                distribution_time: config.distribution_time,
                produced_time: now,
                reward_total: config.reward_total,
                all_produced: 0,
                reward_produced: 0,
                stakers: Stakers::new(),
                transactions: Transactions::new(),
            };
            Ok(staking)
        },
    }
}

/// Answers a query of the pool's state.
pub fn meta_state(staking: &Staking, query: StakingState) -> (r: Result<StakingStateReply, Error>)
    requires
        staking.wf(),
    ensures
        match query {
            StakingState::GetStakers => r matches Ok(StakingStateReply::Stakers(entries))
                && distinct(entries@) && ledger(entries@) == staking@.stakers,
            StakingState::GetStaker(id) => r == (if staking@.stakers.contains_key(id) {
                Ok(StakingStateReply::Staker(staking@.stakers[id]))
            } else {
                Err(Error::StakerNotFound)
            }),
        },
{
    match query {
        StakingState::GetStakers => Ok(StakingStateReply::Stakers(staking.stakers.to_vec())),
        StakingState::GetStaker(id) => match staking.stakers.get(&id) {
            Some(staker) => Ok(StakingStateReply::Staker(staker)),
            None => Err(Error::StakerNotFound),
        },
    }
}

} // verus!
