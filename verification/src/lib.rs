//! A staking pool: participants deposit a staked token, earn a reward token
//! in proportion to their share of the pool over time, and withdraw their
//! stake or claim their reward.
//!
//! The pool never moves tokens itself. It tells its host which transfer to
//! make, and applies an operation only when the host reports that the
//! transfer went through. See [`staking`] for the operations, [`pool`] for
//! the model they are specified against, and [`laws`] for what is proved of it.

pub mod arith;
pub mod io;
pub mod laws;
pub mod pool;
pub mod stakers;
pub mod staking;
pub mod transactions;

pub use crate::io::{
    ActorId, Error, InitStaking, Staker, StakingAction, StakingEvent, StakingState,
    StakingStateReply, Step, Transfer, TransferKind,
};
pub use crate::staking::{init, meta_state, Staking};
