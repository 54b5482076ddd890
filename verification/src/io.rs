//! The message surface of the staking pool: identities, requests, replies,
//! errors, and the instructions the pool hands to its host.

use vstd::prelude::*;

verus! {

/// A 256-bit account or program identity, held as two 128-bit words
/// (big-endian: `high` is the first sixteen bytes).
///
/// The pool only ever compares identities for equality.
#[derive(Clone, Copy, Debug, PartialEq, Eq, Hash, Structural)]
pub struct ActorId {
    pub high: u128,
    pub low: u128,
}

impl ActorId {
    pub fn new(high: u128, low: u128) -> (id: ActorId)
        ensures
            id == (ActorId { high, low }),
    {
        ActorId { high, low }
    }

    /// The all-zero identity.
    pub fn zero() -> (id: ActorId)
        ensures
            id == (ActorId { high: 0, low: 0 }),
    {
        ActorId { high: 0, low: 0 }
    }
}

/// The configuration of an emission schedule.
#[derive(Clone, Copy, Debug, PartialEq, Eq, Structural)]
pub struct InitStaking {
    pub staking_token_address: ActorId,
    pub reward_token_address: ActorId,
    pub distribution_time: u64,
    pub reward_total: u128,
}

impl InitStaking {
    /// A schedule must emit something, over some time.
    pub open spec fn validity(self) -> Result<(), Error> {
        if self.reward_total == 0 {
            Err(Error::ZeroReward)
        } else if self.distribution_time == 0 {
            Err(Error::ZeroTime)
        } else {
            Ok(())
        }
    }
}

/// The bookkeeping record of one participant.
#[derive(Clone, Copy, Debug, PartialEq, Eq, Structural)]
pub struct Staker {
    /// Currently staked amount.
    pub balance: u128,
    /// Credit accumulated on withdrawals: the reward the withdrawn stake had earned.
    pub reward_allowed: u128,
    /// Baseline accumulated on deposits: the reward the deposited stake
    /// would have earned had it been in the pool from the start.
    pub reward_debt: u128,
    /// Reward already paid out.
    pub distributed: u128,
}

impl Staker {
    pub open spec fn empty() -> Staker {
        Staker { balance: 0, reward_allowed: 0, reward_debt: 0, distributed: 0 }
    }
}

impl Default for Staker {
    fn default() -> (staker: Staker)
        ensures
            staker == Staker::empty(),
    {
        Staker { balance: 0, reward_allowed: 0, reward_debt: 0, distributed: 0 }
    }
}

/// A request to the pool.
#[derive(Clone, Copy, Debug, PartialEq, Eq, Structural)]
pub enum StakingAction {
    Stake(u128),
    Withdraw(u128),
    UpdateStaking(InitStaking),
    GetReward,
    Continue(u64),
}

impl StakingAction {
    /// The requests that move tokens, and therefore go through the
    /// transaction ledger.
    pub open spec fn moves_tokens(self) -> bool {
        self is Stake || self is Withdraw || self is GetReward
    }
}

/// A successful reply of the pool.
#[derive(Clone, Copy, Debug, PartialEq, Eq, Structural)]
pub enum StakingEvent {
    StakeAccepted(u64, u128),
    Withdrawn(u64, u128),
    Updated,
    Reward(u64, u128),
    TransactionProcessed,
}

/// A failure reply of the pool.
#[derive(Clone, Copy, Debug, PartialEq, Eq, Structural)]
pub enum Error {
    ZeroAmount,
    ZeroReward,
    ZeroTime,
    NotOwner,
    StakerNotFound,
    InsufficientBalance,
    UnknownTransaction,
    TransferFailed,
    /// A staker's reward computed negative: the books are inconsistent.
    InvariantViolation,
}

/// A read-only query of the pool's state.
#[derive(Clone, Copy, Debug, PartialEq, Eq, Structural)]
pub enum StakingState {
    GetStakers,
    GetStaker(ActorId),
}

/// The answer to a [`StakingState`] query.
#[derive(Debug, PartialEq, Eq)]
pub enum StakingStateReply {
    Stakers(Vec<(ActorId, Staker)>),
    Staker(Staker),
}

/// Which operation a token transfer belongs to.
#[derive(Clone, Copy, Debug, PartialEq, Eq, Structural)]
pub enum TransferKind {
    /// Staked tokens move from the staker to the pool.
    Stake,
    /// Staked tokens move from the pool back to the staker.
    Withdraw,
    /// Reward tokens move from the pool to the staker.
    Reward,
}

/// A token transfer that the host must carry out on the pool's behalf.
///
/// The pool changes no balance before the transfer's outcome is reported
/// back with [`crate::staking::Staking::settle`].
#[derive(Clone, Copy, Debug, PartialEq, Eq, Structural)]
pub struct Transfer {
    pub transaction_id: u64,
    pub kind: TransferKind,
    pub token_address: ActorId,
    pub sender: ActorId,
    pub recipient: ActorId,
    pub amount: u128,
}

impl Transfer {
    /// The participant whose record the transfer affects.
    pub open spec fn spec_staker(&self) -> ActorId {
        if self.kind is Stake {
            self.sender
        } else {
            self.recipient
        }
    }

    #[verifier::when_used_as_spec(spec_staker)]
    pub fn staker(&self) -> (id: ActorId)
        ensures
            id == self.spec_staker(),
    {
        match self.kind {
            TransferKind::Stake => self.sender,
            _ => self.recipient,
        }
    }
}

/// What the host does next for a request that the pool accepted.
#[derive(Clone, Copy, Debug, PartialEq, Eq, Structural)]
pub enum Step {
    /// Carry out the transfer, then report its outcome.
    Transfer(Transfer),
    /// Nothing is left to do but to send the reply.
    Reply(StakingEvent),
}

} // verus!
