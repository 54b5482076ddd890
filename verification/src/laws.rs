//! What holds of the pool, whatever requests it serves: the laws of its
//! bookkeeping, each proved of the model in [`crate::pool`].

use crate::arith::{
    lemma_mul_div_bound, lemma_mul_div_monotonic, lemma_mul_div_split, DECIMALS_FACTOR,
};
use crate::io::{
    ActorId, Error, InitStaking, Staker, StakingAction, StakingEvent, Step, Transfer, TransferKind,
};
use crate::pool::{successor, total_balance, Pool};
use vstd::prelude::*;

verus! {

/// The sum of all balances is the balance of any one staker plus the sum of
/// the others'.
pub proof fn lemma_total_balance_remove(stakers: Map<ActorId, Staker>, id: ActorId)
    requires
        stakers.dom().finite(),
        stakers.contains_key(id),
    ensures
        total_balance(stakers) == stakers[id].balance + total_balance(stakers.remove(id)),
    decreases stakers.dom().len(),
{
    let chosen = stakers.dom().choose();
    if chosen != id {
        lemma_total_balance_remove(stakers.remove(chosen), id);
        lemma_total_balance_remove(stakers.remove(id), chosen);
        assert(stakers.remove(chosen).remove(id) =~= stakers.remove(id).remove(chosen));
    }
}

/// No sum of balances is negative.
pub proof fn lemma_total_balance_bounds(stakers: Map<ActorId, Staker>)
    requires
        stakers.dom().finite(),
    ensures
        total_balance(stakers) >= 0,
    decreases stakers.dom().len(),
{
    if !stakers.dom().is_empty() {
        lemma_total_balance_bounds(stakers.remove(stakers.dom().choose()));
    }
}

/// Setting the record of one staker changes the sum of all balances by the
/// change of that staker's balance.
pub proof fn lemma_total_balance_insert(stakers: Map<ActorId, Staker>, id: ActorId, staker: Staker)
    requires
        stakers.dom().finite(),
    ensures
        total_balance(stakers.insert(id, staker)) == total_balance(stakers) + staker.balance - (
        if stakers.contains_key(id) {
            stakers[id].balance as int
        } else {
            0
        }),
{
    lemma_total_balance_remove(stakers.insert(id, staker), id);
    assert(stakers.insert(id, staker).remove(id) =~= stakers.remove(id));
    if stakers.contains_key(id) {
        lemma_total_balance_remove(stakers, id);
    } else {
        assert(stakers.remove(id) =~= stakers);
    }
}

/// A new pool holds the sum of its stakers' balances, which is nothing, and
/// owes nothing.
pub proof fn lemma_init_conserved_and_solvent(owner: ActorId, config: InitStaking, now: u64)
    ensures
        Pool::init(owner, config, now).conserved(),
        Pool::init(owner, config, now).solvent(),
{
}

/// Conservation, first step: no request changes a balance or the total
/// before its transfer is settled, so the total stays the sum of the balances.
pub proof fn lemma_handle_conserves(
    pool: Pool,
    source: ActorId,
    program: ActorId,
    now: u64,
    action: StakingAction,
)
    requires
        pool.wf(),
    ensures
        pool.handle(source, program, now, action).0.stakers == pool.stakers,
        pool.handle(source, program, now, action).0.total_staked == pool.total_staked,
        pool.conserved() ==> pool.handle(source, program, now, action).0.conserved(),
{
}

/// Conservation, second step: where the total is the sum of the balances
/// before a transfer is settled, it is so afterwards, as long as the total
/// fits in a `u128`.
pub proof fn lemma_settle_conserves(pool: Pool, transfer: Transfer, succeeded: bool)
    requires
        pool.wf(),
        pool.conserved(),
        succeeded && transfer.kind is Stake ==> pool.total_staked + transfer.amount <= u128::MAX,
    ensures
        pool.settle(transfer, succeeded).0.conserved(),
{
    let id = transfer.spec_staker();
    let after = pool.settle(transfer, succeeded).0;
    lemma_total_balance_bounds(pool.stakers);
    if pool.stakers.contains_key(id) {
        lemma_total_balance_remove(pool.stakers, id);
        lemma_total_balance_bounds(pool.stakers.remove(id));
    }
    if succeeded {
        match transfer.kind {
            TransferKind::Stake => {
                lemma_total_balance_insert(pool.stakers, id, after.stakers[id]);
            },
            TransferKind::Withdraw => {
                if pool.stakers.contains_key(id) && pool.stakers[id].balance >= transfer.amount {
                    lemma_total_balance_insert(pool.stakers, id, after.stakers[id]);
                }
            },
            TransferKind::Reward => {
                if pool.stakers.contains_key(id) {
                    lemma_total_balance_insert(pool.stakers, id, after.stakers[id]);
                }
            },
        }
    }
}

/// A schedule emits nothing before it starts, never more than its total,
/// and never less as time goes on.
pub proof fn lemma_produced_bounds(pool: Pool, earlier: u64, later: u64)
    requires
        pool.wf(),
        earlier <= later,
    ensures
        pool.all_produced <= pool.produced(earlier) <= pool.produced(later),
        pool.produced(later) <= pool.all_produced + pool.reward_total,
        later <= pool.produced_time ==> pool.produced(later) == pool.all_produced,
{
    lemma_mul_div_monotonic(
        pool.reward_total,
        pool.elapsed(earlier) as u128,
        pool.reward_total,
        pool.elapsed(later) as u128,
        pool.distribution_time as u128,
    );
    lemma_mul_div_bound(
        pool.reward_total,
        pool.elapsed(later) as u128,
        pool.distribution_time as u128,
    );
    if later <= pool.produced_time {
        lemma_mul_div_bound(pool.reward_total, 0, pool.distribution_time as u128);
    }
}

/// Bringing the pool up to date never lowers the index, sets what was
/// emitted to what the schedule says unless more was emitted already, and
/// leaves the pool up to date: a second update at the same time changes
/// nothing.
pub proof fn lemma_update_reward_monotonic(pool: Pool, now: u64)
    requires
        pool.wf(),
    ensures
        pool.update_reward(now).wf(),
        pool.update_reward(now).tokens_per_stake >= pool.tokens_per_stake,
        pool.update_reward(now).reward_produced == (if pool.produced(now) > pool.reward_produced {
            pool.produced(now)
        } else {
            pool.reward_produced
        }),
        pool.update_reward(now).update_reward(now) == pool.update_reward(now),
{
}

/// A staker is owed no less when the index rises.
pub proof fn lemma_owed_monotonic(pool: Pool, later: Pool, staker: Staker)
    requires
        pool.tokens_per_stake <= later.tokens_per_stake,
    ensures
        pool.owed(staker) <= later.owed(staker),
{
    lemma_mul_div_monotonic(
        staker.balance,
        pool.tokens_per_stake,
        staker.balance,
        later.tokens_per_stake,
        DECIMALS_FACTOR,
    );
}

/// Non-negativity, first step: a pool that owes no staker a negative reward
/// still does so after any request, before its transfer is settled.
pub proof fn lemma_handle_keeps_solvent(
    pool: Pool,
    source: ActorId,
    program: ActorId,
    now: u64,
    action: StakingAction,
)
    requires
        pool.wf(),
        pool.solvent(),
    ensures
        pool.handle(source, program, now, action).0.solvent(),
{
    let after = pool.handle(source, program, now, action).0;
    lemma_update_reward_monotonic(pool, now);
    assert(after.stakers == pool.stakers);
    assert(after.tokens_per_stake >= pool.tokens_per_stake);
    assert forall|id: ActorId| #[trigger] after.stakers.contains_key(id) implies after.owed(
        after.stakers[id],
    ) >= 0 by {
        lemma_owed_monotonic(pool, after, pool.stakers[id]);
    }
}

/// A deposit does not lower what its staker is owed, as long as the
/// staker's share of the index fits in a `u128`.
pub proof fn lemma_deposit_keeps_owed(pool: Pool, id: ActorId, amount: u128)
    requires
        (pool.staker(id).balance + amount) * pool.tokens_per_stake <= u128::MAX,
    ensures
        pool.record_deposit(id, amount).owed(pool.record_deposit(id, amount).stakers[id])
            >= pool.owed(pool.staker(id)),
{
    lemma_mul_div_split(
        pool.staker(id).balance,
        amount,
        pool.tokens_per_stake,
        DECIMALS_FACTOR,
    );
}

/// A withdrawal lowers what its staker is owed by what truncation loses,
/// which is one unit at most, as long as neither the staker's share of the
/// index nor the credit for the withdrawn part goes beyond a `u128`.
pub proof fn lemma_withdrawal_costs_at_most_one(pool: Pool, id: ActorId, amount: u128)
    requires
        pool.stakers.contains_key(id),
        pool.stakers[id].balance >= amount,
        pool.stakers[id].balance * pool.tokens_per_stake <= u128::MAX,
        pool.stakers[id].reward_allowed + pool.get_max_reward(amount) <= u128::MAX,
    ensures
        ({
            let before = pool.stakers[id];
            let after = pool.record_withdrawal(id, amount).stakers[id];
            &&& pool.owed(after) == pool.owed(before) - (pool.get_max_reward(before.balance)
                - pool.get_max_reward(after.balance) - pool.get_max_reward(amount))
            &&& pool.owed(before) - 1 <= pool.owed(after) <= pool.owed(before)
        }),
{
    let before = pool.stakers[id];
    lemma_mul_div_split(
        (before.balance - amount) as u128,
        amount,
        pool.tokens_per_stake,
        DECIMALS_FACTOR,
    );
}

/// Whether settling `transfer` is certain to leave the pool solvent: no
/// amount saturates, a payment is covered by what the staker is owed, and a
/// withdrawal either splits the staker's reward without loss or leaves a
/// unit owed to absorb the loss.
pub open spec fn settles_safely(pool: Pool, transfer: Transfer) -> bool {
    let id = transfer.spec_staker();
    let amount = transfer.amount;
    match transfer.kind {
        TransferKind::Stake => (pool.staker(id).balance + amount) * pool.tokens_per_stake
            <= u128::MAX,
        TransferKind::Withdraw => pool.stakers.contains_key(id) && pool.stakers[id].balance
            >= amount ==> {
            let staker = pool.stakers[id];
            &&& staker.balance * pool.tokens_per_stake <= u128::MAX
            &&& staker.reward_allowed + pool.get_max_reward(amount) <= u128::MAX
            &&& (pool.owed(staker) >= 1 || pool.get_max_reward((staker.balance - amount) as u128)
                + pool.get_max_reward(amount) == pool.get_max_reward(staker.balance))
        },
        TransferKind::Reward => pool.stakers.contains_key(id) ==> amount <= pool.owed(
            pool.stakers[id],
        ),
    }
}

/// Non-negativity, second step: a pool that owes no staker a negative
/// reward still does so after a transfer is settled, where it settles safely.
pub proof fn lemma_settle_keeps_solvent(pool: Pool, transfer: Transfer, succeeded: bool)
    requires
        pool.wf(),
        pool.solvent(),
        succeeded ==> settles_safely(pool, transfer),
    ensures
        pool.settle(transfer, succeeded).0.solvent(),
{
    let staker = transfer.spec_staker();
    let amount = transfer.amount;
    let after = pool.settle(transfer, succeeded).0;
    if succeeded {
        match transfer.kind {
            TransferKind::Stake => {
                lemma_deposit_keeps_owed(pool, staker, amount);
                assert(pool.owed(Staker::empty()) == 0) by {
                    assert(0 * pool.tokens_per_stake == 0) by (nonlinear_arith);
                }
            },
            TransferKind::Withdraw => {
                if pool.stakers.contains_key(staker) && pool.stakers[staker].balance >= amount {
                    lemma_withdrawal_costs_at_most_one(pool, staker, amount);
                }
            },
            TransferKind::Reward => {},
        }
    }
    assert forall|id: ActorId| #[trigger] after.stakers.contains_key(id) implies after.owed(
        after.stakers[id],
    ) >= 0 by {
        if id != staker {
            assert(pool.stakers.contains_key(id));
            assert(after.stakers[id] == pool.stakers[id]);
        }
    }
}

/// A request for the reward that is settled before anything else happens
/// settles safely: the payment is what the staker is owed.
pub proof fn lemma_reward_request_settles_safely(
    pool: Pool,
    source: ActorId,
    program: ActorId,
    now: u64,
    transaction_id: Option<u64>,
)
    ensures
        pool.send_reward(source, program, now, transaction_id).1 matches Ok(
            Step::Transfer(transfer),
        ) ==> settles_safely(
            pool.send_reward(source, program, now, transaction_id).0,
            transfer,
        ),
{
}

/// No pre-accrual leakage: of two stakers who deposit the same amount, one
/// when the index was still zero and one later, the later one is owed less
/// at any time after, by exactly what the amount would have earned before
/// the later deposit.
pub proof fn lemma_late_deposit_earns_less(
    early: Pool,
    late: Pool,
    current: Pool,
    first: ActorId,
    second: ActorId,
    amount: u128,
)
    requires
        early.tokens_per_stake == 0,
        !early.stakers.contains_key(first),
        !late.stakers.contains_key(second),
    ensures
        ({
            let early_record = early.record_deposit(first, amount).stakers[first];
            let late_record = late.record_deposit(second, amount).stakers[second];
            &&& current.owed(late_record) == current.owed(early_record) - late.get_max_reward(
                amount,
            )
            &&& late.get_max_reward(amount) > 0 ==> current.owed(late_record) < current.owed(
                early_record,
            )
        }),
{
    assert(amount * early.tokens_per_stake == 0) by (nonlinear_arith)
        requires
            early.tokens_per_stake == 0,
    ;
}

/// Idempotent continuation: to continue a transaction that was fully
/// applied changes nothing and is answered with `TransactionProcessed`,
/// however often it is done.
pub proof fn lemma_continue_processed(
    pool: Pool,
    source: ActorId,
    program: ActorId,
    now: u64,
    transaction_id: u64,
)
    requires
        pool.transactions.contains_key(transaction_id),
        pool.transactions[transaction_id] is None,
    ensures
        pool.continue_transaction(source, program, now, transaction_id) == (
            pool,
            Ok::<Step, Error>(Step::Reply(StakingEvent::TransactionProcessed)),
        ),
{
}

/// A transaction whose transfer was settled, with success or not, has left
/// the ledger: to continue it changes nothing and is answered with
/// `UnknownTransaction`.
pub proof fn lemma_continue_settled(
    pool: Pool,
    transfer: Transfer,
    succeeded: bool,
    source: ActorId,
    program: ActorId,
    now: u64,
)
    requires
        pool.settle(transfer, succeeded).1 is Ok || !succeeded,
    ensures
        ({
            let settled = pool.settle(transfer, succeeded).0;
            settled.continue_transaction(source, program, now, transfer.transaction_id) == (
                settled,
                Err::<Step, Error>(Error::UnknownTransaction),
            )
        }),
{
}

/// Fail-safe abort: a transfer that failed leaves every part of the pool
/// as it was, but for the record of its transaction, which is removed.
pub proof fn lemma_failed_transfer_changes_nothing(pool: Pool, transfer: Transfer)
    ensures
        pool.settle(transfer, false) == (
            Pool { transactions: pool.transactions.remove(transfer.transaction_id), ..pool },
            Err::<StakingEvent, Error>(Error::TransferFailed),
        ),
{
}

/// Fail-safe abort, for a whole operation: a fresh request whose transfer
/// fails leaves the pool as it was, brought up to date, with one
/// transaction id used up.
pub proof fn lemma_failed_operation_changes_nothing(
    pool: Pool,
    source: ActorId,
    program: ActorId,
    now: u64,
    action: StakingAction,
)
    requires
        pool.wf(),
        action.moves_tokens(),
        !pool.transactions.contains_key(pool.transaction_id),
    ensures
        pool.handle(source, program, now, action).1 matches Ok(Step::Transfer(transfer))
            ==> pool.handle(source, program, now, action).0.settle(transfer, false).0 == (Pool {
            transaction_id: successor(pool.transaction_id),
            ..pool.update_reward(now)
        }),
{
    let (started, reply) = pool.handle(source, program, now, action);
    if let Ok(Step::Transfer(transfer)) = reply {
        assert(transfer.transaction_id == pool.transaction_id);
        assert(pool.transactions.insert(pool.transaction_id, Some(action)).remove(
            pool.transaction_id,
        ) =~= pool.transactions);
    }
}

/// A new schedule that starts at `now` has emitted nothing yet at `now`.
pub proof fn lemma_install_is_up_to_date(pool: Pool, config: InitStaking, now: u64)
    requires
        pool.wf(),
        config.distribution_time > 0,
    ensures
        pool.install(config, now).update_reward(now) == pool.install(config, now),
        pool.install(config, now).tokens_per_stake == pool.update_reward(now).tokens_per_stake,
        pool.install(config, now).stakers == pool.stakers,
{
    let installed = pool.install(config, now);
    assert(installed.elapsed(now) == 0);
    assert(config.reward_total * 0 == 0) by (nonlinear_arith);
    assert(0int / (config.distribution_time as int) == 0) by (nonlinear_arith)
        requires
            config.distribution_time > 0,
    ;
    assert(installed.produced(now) == installed.reward_produced);
}

/// Schedule reconfiguration preserves accrual: what a staker can claim
/// right after the pool was reconfigured is what the staker could claim at
/// that time without the reconfiguration.
pub proof fn lemma_reconfiguration_keeps_rewards(
    pool: Pool,
    source: ActorId,
    now: u64,
    config: InitStaking,
    id: ActorId,
)
    requires
        pool.wf(),
    ensures
        pool.update_staking(source, now, config).0.update_reward(now).calc_reward(id)
            == pool.update_reward(now).calc_reward(id),
{
    if pool.update_staking(source, now, config).1 is Ok {
        lemma_install_is_up_to_date(pool, config, now);
    }
}

/// A valid pool stays valid, whatever request it serves.
pub proof fn lemma_handle_keeps_wf(
    pool: Pool,
    source: ActorId,
    program: ActorId,
    now: u64,
    action: StakingAction,
)
    requires
        pool.wf(),
    ensures
        pool.handle(source, program, now, action).0.wf(),
{
}

/// A valid pool stays valid, whatever transfer is settled.
pub proof fn lemma_settle_keeps_wf(pool: Pool, transfer: Transfer, succeeded: bool)
    requires
        pool.wf(),
    ensures
        pool.settle(transfer, succeeded).0.wf(),
{
}

/// What can happen to a pool: a request comes in, or the outcome of a
/// transfer does.
pub enum Event {
    Request { source: ActorId, program: ActorId, now: u64, action: StakingAction },
    Outcome { transfer: Transfer, succeeded: bool },
}

/// The pool after `event`.
pub open spec fn after(pool: Pool, event: Event) -> Pool {
    match event {
        Event::Request { source, program, now, action } => pool.handle(
            source,
            program,
            now,
            action,
        ).0,
        Event::Outcome { transfer, succeeded } => pool.settle(transfer, succeeded).0,
    }
}

/// The pool after all of `events`, in their order.
pub open spec fn after_all(pool: Pool, events: Seq<Event>) -> Pool
    decreases events.len(),
{
    if events.len() == 0 {
        pool
    } else {
        after(after_all(pool, events.drop_last()), events.last())
    }
}

/// Whether `event` is certain to leave the pool's books in order: a
/// transfer that succeeded settles safely, and a stake fits in the total.
pub open spec fn keeps_books(pool: Pool, event: Event) -> bool {
    match event {
        Event::Request { .. } => true,
        Event::Outcome { transfer, succeeded } => succeeded ==> {
            &&& settles_safely(pool, transfer)
            &&& transfer.kind is Stake ==> pool.total_staked + transfer.amount <= u128::MAX
        },
    }
}

/// Whether each of `events` keeps the books, in the pool that it finds.
pub open spec fn all_keep_books(pool: Pool, events: Seq<Event>) -> bool
    decreases events.len(),
{
    events.len() == 0 || (all_keep_books(pool, events.drop_last()) && keeps_books(
        after_all(pool, events.drop_last()),
        events.last(),
    ))
}

/// Non-negativity and conservation, of every pool that can be reached: a
/// valid pool whose total is the sum of its balances, and which owes
/// nobody a negative reward, is still such a pool after any requests and
/// outcomes of transfers, in any order, as long as each keeps the books.
pub proof fn lemma_history_keeps_books(pool: Pool, events: Seq<Event>)
    requires
        pool.wf(),
        pool.conserved(),
        pool.solvent(),
        all_keep_books(pool, events),
    ensures
        after_all(pool, events).wf(),
        after_all(pool, events).conserved(),
        after_all(pool, events).solvent(),
    decreases events.len(),
{
    if events.len() > 0 {
        let before = after_all(pool, events.drop_last());
        lemma_history_keeps_books(pool, events.drop_last());
        match events.last() {
            Event::Request { source, program, now, action } => {
                lemma_handle_keeps_wf(before, source, program, now, action);
                lemma_handle_conserves(before, source, program, now, action);
                lemma_handle_keeps_solvent(before, source, program, now, action);
            },
            Event::Outcome { transfer, succeeded } => {
                lemma_settle_keeps_wf(before, transfer, succeeded);
                lemma_settle_conserves(before, transfer, succeeded);
                lemma_settle_keeps_solvent(before, transfer, succeeded);
            },
        }
    }
}

/// The same of every pool that was initialized with a valid schedule.
pub proof fn lemma_reachable_pools_keep_books(
    owner: ActorId,
    config: InitStaking,
    now: u64,
    events: Seq<Event>,
)
    requires
        config.validity() is Ok,
        all_keep_books(Pool::init(owner, config, now), events),
    ensures
        after_all(Pool::init(owner, config, now), events).wf(),
        after_all(Pool::init(owner, config, now), events).conserved(),
        after_all(Pool::init(owner, config, now), events).solvent(),
{
    lemma_init_conserved_and_solvent(owner, config, now);
    lemma_history_keeps_books(Pool::init(owner, config, now), events);
}

/// Idempotent continuation, any number of times: requests to continue a
/// transaction that has no pending operation, be it fully applied or not
/// in the ledger at all, leave the pool as it was, however many they are.
pub proof fn lemma_continue_repeatedly(pool: Pool, transaction_id: u64, events: Seq<Event>)
    requires
        pool.transactions.contains_key(transaction_id) ==> pool.transactions[transaction_id]
            is None,
        forall|i: int|
            0 <= i < events.len() ==> (#[trigger] events[i] matches Event::Request { action, .. }
                && action == StakingAction::Continue(transaction_id)),
    ensures
        after_all(pool, events) == pool,
    decreases events.len(),
{
    if events.len() > 0 {
        lemma_continue_repeatedly(pool, transaction_id, events.drop_last());
        assert(events.last() == events[events.len() - 1]);
    }
}

} // verus!
