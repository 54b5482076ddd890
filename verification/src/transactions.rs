//! The ledger of transactions: which operations are in flight, each under
//! the id that lets a later request resume it.

use crate::io::{Error, StakingAction};
use crate::pool::{admits, successor};
use std::collections::BTreeMap;
use vstd::prelude::*;

verus! {

/// The operations in flight and the counter that numbers them.
pub struct Transactions {
    transaction_id: u64,
    records: BTreeMap<u64, Option<StakingAction>>,
}

impl View for Transactions {
    type V = Map<u64, Option<StakingAction>>;

    closed spec fn view(&self) -> Map<u64, Option<StakingAction>> {
        self.records@
    }
}

impl Transactions {
    /// The id that the next fresh operation gets.
    pub closed spec fn next_id(&self) -> u64 {
        self.transaction_id
    }

    pub fn new() -> (transactions: Transactions)
        ensures
            transactions@ == Map::<u64, Option<StakingAction>>::empty(),
            transactions.next_id() == 0,
    {
        Transactions { transaction_id: 0, records: BTreeMap::new() }
    }

    /// The record under `id`, if there is one: the pending operation, or
    /// `None` for a transaction that was fully applied.
    pub fn get(&self, id: u64) -> (r: Option<Option<StakingAction>>)
        ensures
            r == (if self@.contains_key(id) {
                Some(self@[id])
            } else {
                None
            }),
    {
        match self.records.get(&id) {
            Some(record) => Some(*record),
            None => None,
        }
    }

    /// Whether an operation may begin under `transaction_id`: always on a
    /// fresh id; on a given id where its record is there and still pending.
    /// `Ok(false)` says that the transaction was already fully applied.
    pub fn admits(&self, transaction_id: Option<u64>) -> (r: Result<bool, Error>)
        ensures
            r == admits(self@, transaction_id),
    {
        match transaction_id {
            None => Ok(true),
            Some(id) => match self.get(id) {
                None => Err(Error::UnknownTransaction),
                Some(record) => Ok(record.is_some()),
            },
        }
    }

    /// The id for an operation: the one given, or the next of the counter,
    /// which then moves on (and stays at `u64::MAX` once it is there).
    pub fn get_transaction_id(&mut self, transaction_id: Option<u64>) -> (id: u64)
        ensures
            final(self)@ == old(self)@,
            match transaction_id {
                Some(given) => id == given && final(self).next_id() == old(self).next_id(),
                None => id == old(self).next_id() && final(self).next_id() == successor(
                    old(self).next_id(),
                ),
            },
    {
        match transaction_id {
            Some(given) => given,
            None => {
                let id: u64 = self.transaction_id;
                self.transaction_id = self.transaction_id.saturating_add(1);
                id
            },
        }
    }

    /// Begins an operation that the ledger admits. Under a given id nothing
    /// changes: its record stays as it is. Without one, `action` is recorded
    /// as pending under a fresh id.
    pub fn begin(&mut self, transaction_id: Option<u64>, action: StakingAction) -> (id: u64)
        ensures
            match transaction_id {
                Some(given) => id == given && final(self)@ == old(self)@ && final(self).next_id()
                    == old(self).next_id(),
                None => id == old(self).next_id() && final(self)@ == old(self)@.insert(
                    id,
                    Some(action),
                ) && final(self).next_id() == successor(old(self).next_id()),
            },
    {
        let id: u64 = self.get_transaction_id(transaction_id);
        if transaction_id.is_none() {
            self.records.insert(id, Some(action));
        }
        id
    }

    /// Ends the transaction `id` after its transfer succeeded and its
    /// effects were applied: the record is removed.
    pub fn commit(&mut self, id: u64)
        ensures
            final(self)@ == old(self)@.remove(id),
            final(self).next_id() == old(self).next_id(),
    {
        self.records.remove(&id);
    }

    /// Ends the transaction `id` after its transfer failed: the record is
    /// removed, so that a later request under `id` finds nothing to resume.
    pub fn abort(&mut self, id: u64)
        ensures
            final(self)@ == old(self)@.remove(id),
            final(self).next_id() == old(self).next_id(),
    {
        self.records.remove(&id);
    }
}

} // verus!
