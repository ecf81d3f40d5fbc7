//! Which directories this process has made durable, where an existing name alone proves nothing.

use vstd::prelude::*;

verus! {

/// The identity of a directory of receipts.
#[derive(Clone, Copy, Debug, PartialEq, Eq, Structural)]
pub struct AndroidReceiptDirectoryIdentity {
    pub device: u64,
    pub inode: u64,
}

/// The directories whose entries are known to be durable.
#[derive(Debug, PartialEq, Eq)]
pub struct AndroidReceiptBarrierState {
    verified_parents: Vec<AndroidReceiptDirectoryIdentity>,
}

impl View for AndroidReceiptBarrierState {
    type V = Set<AndroidReceiptDirectoryIdentity>;

    closed spec fn view(&self) -> Set<AndroidReceiptDirectoryIdentity> {
        self.verified_parents@.to_set()
    }
}

impl AndroidReceiptBarrierState {
    /// The state in which no directory is known to be durable.
    pub fn new() -> (state: AndroidReceiptBarrierState)
        ensures
            state@ == Set::<AndroidReceiptDirectoryIdentity>::empty(),
    {
        let state = AndroidReceiptBarrierState { verified_parents: Vec::new() };
        assert(state@ =~= Set::empty());
        state
    }

    /// Whether a directory is known to be durable.
    pub fn is_verified(&self, identity: AndroidReceiptDirectoryIdentity) -> (verified: bool)
        ensures
            verified == self@.contains(identity),
    {
        let mut at: usize = 0;
        while at < self.verified_parents.len()
            invariant
                at <= self.verified_parents@.len(),
                forall|i: int| 0 <= i < at ==> self.verified_parents@[i] != identity,
            decreases self.verified_parents@.len() - at,
        {
            if self.verified_parents[at] == identity {
                assert(self.verified_parents@.contains(identity));
                return true;
            }
            at = at + 1;
        }
        assert(!self.verified_parents@.contains(identity));
        false
    }

    /// Notes that a directory is durable.
    fn verify(&mut self, identity: AndroidReceiptDirectoryIdentity)
        ensures
            final(self)@ == old(self)@.insert(identity),
    {
        let ghost before = self.verified_parents@;
        self.verified_parents.push(identity);
        proof {
            let after = self.verified_parents@;
            assert forall|other: AndroidReceiptDirectoryIdentity| after.contains(other) == (
            before.contains(other) || other == identity) by {
                if before.contains(other) {
                    let k = choose|k: int| 0 <= k < before.len() && before[k] == other;
                    assert(after[k] == other);
                }
                if after.contains(other) {
                    let k = choose|k: int| 0 <= k < after.len() && after[k] == other;
                    if k < before.len() {
                        assert(before[k] == other);
                    }
                }
                assert(after[before.len() as int] == identity);
            }
            assert(after.to_set() =~= before.to_set().insert(identity));
        }
    }

    /// Notes that a directory is about to change: it is no longer known to be durable.
    pub fn begin_mutation(&mut self, identity: AndroidReceiptDirectoryIdentity)
        ensures
            final(self)@ == old(self)@.remove(identity),
    {
        let ghost before = self.verified_parents@;
        let mut kept: Vec<AndroidReceiptDirectoryIdentity> = Vec::new();
        let mut at: usize = 0;
        while at < self.verified_parents.len()
            invariant
                at <= self.verified_parents@.len(),
                self.verified_parents@ == before,
                forall|other: AndroidReceiptDirectoryIdentity|
                    #[trigger] kept@.contains(other) == (other != identity && before.take(
                        at as int,
                    ).contains(other)),
            decreases self.verified_parents@.len() - at,
        {
            let one = self.verified_parents[at];
            let ghost earlier = kept@;
            if one != identity {
                kept.push(one);
            }
            proof {
                let taken = before.take(at as int);
                let more = before.take(at + 1);
                assert forall|other: AndroidReceiptDirectoryIdentity| #[trigger]
                    kept@.contains(other) == (other != identity && more.contains(other)) by {
                    assert(earlier.contains(other) == (other != identity && taken.contains(
                        other,
                    )));
                    if earlier.contains(other) {
                        let k = choose|k: int| 0 <= k < earlier.len() && earlier[k] == other;
                        assert(kept@[k] == other);
                    }
                    if taken.contains(other) {
                        let k = choose|k: int| 0 <= k < taken.len() && taken[k] == other;
                        assert(more[k] == other);
                    }
                    if more.contains(other) {
                        let k = choose|k: int| 0 <= k < more.len() && more[k] == other;
                        if k < at {
                            assert(taken[k] == other);
                        }
                    }
                    assert(more[at as int] == one);
                    if one != identity {
                        assert(kept@[earlier.len() as int] == one);
                    }
                    if kept@.contains(other) {
                        let k = choose|k: int| 0 <= k < kept@.len() && kept@[k] == other;
                        if k < earlier.len() {
                            assert(earlier[k] == other);
                        }
                    }
                }
            }
            at = at + 1;
        }
        assert(before.take(before.len() as int) =~= before);
        self.verified_parents = kept;
        assert(self@ =~= old(self)@.remove(identity));
    }

    /// Ends a change of a directory: it is known to be durable again where the barrier succeeds.
    pub fn finish_mutation_barrier<E, F: FnOnce() -> Result<(), E>>(
        &mut self,
        identity: AndroidReceiptDirectoryIdentity,
        barrier: F,
    ) -> (outcome: Result<(), E>)
        requires
            barrier.requires(()),
        ensures
            barrier.ensures((), outcome),
            final(self)@ == (if outcome is Ok {
                old(self)@.insert(identity)
            } else {
                old(self)@
            }),
    {
        let outcome = barrier();
        if outcome.is_ok() {
            self.verify(identity);
        }
        outcome
    }

    /// Makes a change of a directory durable. It is not known to be durable unless the barrier
    /// succeeds.
    pub fn record_mutation_barrier<E, F: FnOnce() -> Result<(), E>>(
        &mut self,
        identity: AndroidReceiptDirectoryIdentity,
        barrier: F,
    ) -> (outcome: Result<(), E>)
        requires
            barrier.requires(()),
        ensures
            barrier.ensures((), outcome),
            final(self)@ == (if outcome is Ok {
                old(self)@.insert(identity)
            } else {
                old(self)@.remove(identity)
            }),
    {
        self.begin_mutation(identity);
        let outcome = self.finish_mutation_barrier(identity, barrier);
        assert(old(self)@.remove(identity).insert(identity) =~= old(self)@.insert(identity));
        outcome
    }

    /// Makes sure that a directory is durable. Where it is known to be, nothing is done.
    pub fn verify_existing<E, F: FnOnce() -> Result<(), E>>(
        &mut self,
        identity: AndroidReceiptDirectoryIdentity,
        barrier: F,
    ) -> (outcome: Result<(), E>)
        requires
            barrier.requires(()),
        ensures
            old(self)@.contains(identity) ==> outcome is Ok && final(self)@ == old(self)@,
            !old(self)@.contains(identity) ==> barrier.ensures((), outcome) && final(self)@ == (
            if outcome is Ok {
                old(self)@.insert(identity)
            } else {
                old(self)@
            }),
    {
        if self.is_verified(identity) {
            return Ok(());
        }
        self.finish_mutation_barrier(identity, barrier)
    }
}

} // verus!
