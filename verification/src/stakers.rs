//! The ledger of stakers: a finite map from identity to record, kept as a
//! list of entries in which no identity occurs twice.

use crate::io::{ActorId, Staker};
use vstd::prelude::*;

verus! {

/// No identity occurs twice in `entries`.
pub open spec fn distinct(entries: Seq<(ActorId, Staker)>) -> bool {
    forall|i: int, j: int| 0 <= i < j < entries.len() ==> entries[i].0 != entries[j].0
}

/// Whether `entries` holds a record for `id`.
pub open spec fn listed(entries: Seq<(ActorId, Staker)>, id: ActorId) -> bool {
    exists|i: int| 0 <= i < entries.len() && #[trigger] entries[i].0 == id
}

/// The map that a list of entries stands for.
pub open spec fn ledger(entries: Seq<(ActorId, Staker)>) -> Map<ActorId, Staker> {
    Map::new(
        |id: ActorId| listed(entries, id),
        |id: ActorId| entries[choose|i: int| 0 <= i < entries.len() && #[trigger] entries[i].0 == id].1,
    )
}

/// In a list without repetition, the entry at `i` is what the map holds for its identity.
pub proof fn lemma_ledger_at(entries: Seq<(ActorId, Staker)>, i: int)
    requires
        distinct(entries),
        0 <= i < entries.len(),
    ensures
        ledger(entries).contains_key(entries[i].0),
        ledger(entries)[entries[i].0] == entries[i].1,
{
    let id = entries[i].0;
    assert(listed(entries, id));
    let c = choose|c: int| 0 <= c < entries.len() && #[trigger] entries[c].0 == id;
    assert(c == i) by {
        if c < i {
            assert(entries[c].0 != entries[i].0);
        } else if i < c {
            assert(entries[i].0 != entries[c].0);
        }
    }
}

/// Appending a record for a new identity inserts it into the map.
pub proof fn lemma_ledger_push(entries: Seq<(ActorId, Staker)>, id: ActorId, staker: Staker)
    requires
        distinct(entries),
        !listed(entries, id),
    ensures
        distinct(entries.push((id, staker))),
        ledger(entries.push((id, staker))) == ledger(entries).insert(id, staker),
{
    let pushed = entries.push((id, staker));
    assert(distinct(pushed)) by {
        assert forall|i: int, j: int| 0 <= i < j < pushed.len() implies pushed[i].0
            != pushed[j].0 by {
            if j == entries.len() {
                assert(entries[i].0 != id);
            } else {
                assert(entries[i].0 != entries[j].0);
            }
        }
    }
    assert forall|k: ActorId| #[trigger]
        ledger(pushed).contains_key(k) == ledger(entries).insert(id, staker).contains_key(k) by {
        if listed(pushed, k) {
            let i = choose|i: int| 0 <= i < pushed.len() && #[trigger] pushed[i].0 == k;
            if i < entries.len() {
                assert(entries[i].0 == k);
            }
        }
        if k == id {
            assert(pushed[entries.len() as int].0 == k);
        } else if listed(entries, k) {
            let i = choose|i: int| 0 <= i < entries.len() && #[trigger] entries[i].0 == k;
            assert(pushed[i].0 == k);
        }
    }
    assert forall|k: ActorId| #[trigger] ledger(pushed).contains_key(k) implies ledger(pushed)[k]
        == ledger(entries).insert(id, staker)[k] by {
        let i = choose|i: int| 0 <= i < pushed.len() && #[trigger] pushed[i].0 == k;
        lemma_ledger_at(pushed, i);
        if i < entries.len() {
            lemma_ledger_at(entries, i);
        }
    }
    assert(ledger(pushed) =~= ledger(entries).insert(id, staker));
}

/// Replacing the record of an identity replaces it in the map.
pub proof fn lemma_ledger_update(entries: Seq<(ActorId, Staker)>, i: int, staker: Staker)
    requires
        distinct(entries),
        0 <= i < entries.len(),
    ensures
        distinct(entries.update(i, (entries[i].0, staker))),
        ledger(entries.update(i, (entries[i].0, staker))) == ledger(entries).insert(
            entries[i].0,
            staker,
        ),
{
    let id = entries[i].0;
    let updated = entries.update(i, (id, staker));
    assert forall|j: int| 0 <= j < entries.len() implies #[trigger] updated[j].0
        == entries[j].0 by {}
    assert(distinct(updated)) by {
        assert forall|a: int, b: int| 0 <= a < b < updated.len() implies updated[a].0
            != updated[b].0 by {
            assert(entries[a].0 != entries[b].0);
        }
    }
    assert forall|k: ActorId| #[trigger]
        ledger(updated).contains_key(k) == ledger(entries).insert(id, staker).contains_key(k) by {
        if listed(updated, k) {
            let j = choose|j: int| 0 <= j < updated.len() && #[trigger] updated[j].0 == k;
            assert(entries[j].0 == k);
        }
        if k == id {
            assert(updated[i].0 == k);
        } else if listed(entries, k) {
            let j = choose|j: int| 0 <= j < entries.len() && #[trigger] entries[j].0 == k;
            assert(updated[j].0 == k);
        }
    }
    assert forall|k: ActorId| #[trigger] ledger(updated).contains_key(k) implies ledger(updated)[k]
        == ledger(entries).insert(id, staker)[k] by {
        let j = choose|j: int| 0 <= j < updated.len() && #[trigger] updated[j].0 == k;
        lemma_ledger_at(updated, j);
        lemma_ledger_at(entries, j);
    }
    assert(ledger(updated) =~= ledger(entries).insert(id, staker));
}

/// The stakers of a pool, each identity with its record.
pub struct Stakers {
    entries: Vec<(ActorId, Staker)>,
}

impl View for Stakers {
    type V = Map<ActorId, Staker>;

    closed spec fn view(&self) -> Map<ActorId, Staker> {
        ledger(self.entries@)
    }
}

impl Stakers {
    /// No identity occurs twice among the entries.
    pub closed spec fn wf(&self) -> bool {
        distinct(self.entries@)
    }

    pub fn new() -> (stakers: Stakers)
        ensures
            stakers.wf(),
            stakers@ == Map::<ActorId, Staker>::empty(),
    {
        let stakers = Stakers { entries: Vec::new() };
        assert(stakers@ =~= Map::<ActorId, Staker>::empty());
        stakers
    }

    /// Where the record of `id` stands among the entries.
    fn position(&self, id: &ActorId) -> (r: Option<usize>)
        requires
            self.wf(),
        ensures
            match r {
                Some(i) => i < self.entries@.len() && self.entries@[i as int].0 == *id,
                None => !listed(self.entries@, *id),
            },
    {
        let mut i: usize = 0;
        while i < self.entries.len()
            invariant
                i <= self.entries@.len(),
                forall|j: int| 0 <= j < i ==> self.entries@[j].0 != *id,
            decreases self.entries@.len() - i,
        {
            if self.entries[i].0 == *id {
                return Some(i);
            }
            i += 1;
        }
        None
    }

    /// The record of `id`, if it has one.
    pub fn get(&self, id: &ActorId) -> (r: Option<Staker>)
        requires
            self.wf(),
        ensures
            r == (if self@.contains_key(*id) {
                Some(self@[*id])
            } else {
                None
            }),
    {
        match self.position(id) {
            Some(i) => {
                proof {
                    lemma_ledger_at(self.entries@, i as int);
                }
                Some(self.entries[i].1)
            },
            None => None,
        }
    }

    /// Sets the record of `id`, whether it had one or not.
    pub fn insert(&mut self, id: ActorId, staker: Staker)
        requires
            old(self).wf(),
        ensures
            final(self).wf(),
            final(self)@ == old(self)@.insert(id, staker),
    {
        match self.position(&id) {
            Some(i) => {
                proof {
                    lemma_ledger_update(self.entries@, i as int, staker);
                }
                self.entries.set(i, (id, staker));
            },
            None => {
                proof {
                    lemma_ledger_push(self.entries@, id, staker);
                }
                self.entries.push((id, staker));
            },
        }
    }

    /// All the entries, each identity once.
    pub fn to_vec(&self) -> (entries: Vec<(ActorId, Staker)>)
        requires
            self.wf(),
        ensures
            distinct(entries@),
            ledger(entries@) == self@,
    {
        let mut entries: Vec<(ActorId, Staker)> = Vec::new();
        let mut i: usize = 0;
        while i < self.entries.len()
            invariant
                i <= self.entries@.len(),
                entries@ == self.entries@.subrange(0, i as int),
            decreases self.entries@.len() - i,
        {
            entries.push(self.entries[i]);
            assert(entries@ =~= self.entries@.subrange(0, i + 1));
            i += 1;
        }
        assert(entries@ =~= self.entries@);
        entries
    }
}

} // verus!
