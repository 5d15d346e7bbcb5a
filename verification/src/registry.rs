//! The target registry: a concurrency-safe store of the current target set.
//!
//! The sequential core is [`TargetStore`], an ordered sequence of targets
//! supporting a wholesale replace and a deep-copy snapshot, each with an
//! exact contract. [`AppState`] wraps the store in a verified
//! reader-writer lock: writers are mutually exclusive with readers and
//! with each other, readers may run concurrently, and the lock is held
//! only for the replace or the copy itself, never across I/O. A reader
//! borrows one whole stored value, so a snapshot can never observe a
//! half-applied replacement.

use vstd::prelude::*;
use vstd::rwlock::RwLock;
use vstd::rwlock::RwLockPredicate;
use crate::types::Target;

verus! {

/// The ordered target sequence, without the lock around it.
pub struct TargetStore {
    pub targets: Vec<Target>,
}

impl TargetStore {
    /// An empty store.
    pub fn new() -> (s: Self)
        ensures
            s.targets@ == Seq::<Target>::empty(),
    {
        TargetStore { targets: Vec::new() }
    }

    /// Swap the entire stored sequence for `targets`. There is no per-item
    /// diffing and no validation: an empty host, a zero port or an unknown
    /// probe type are stored as they are and surface as probe failures
    /// later.
    pub fn replace_all(&mut self, targets: Vec<Target>)
        ensures
            final (self).targets@ == targets@,
    {
        self.targets = targets;
    }

    /// A deep copy of the current sequence: the result shares no storage
    /// with the store, so a caller may iterate it while the store is
    /// replaced.
    pub fn snapshot(&self) -> (res: Vec<Target>)
        ensures
            res@ == self.targets@,
    {
        let mut out: Vec<Target> = Vec::new();
        let n = self.targets.len();
        let mut i: usize = 0;
        while i < n
            invariant
                n == self.targets@.len(),
                0 <= i <= n,
                out@ =~= self.targets@.subrange(0, i as int),
            decreases n - i,
        {
            out.push(self.targets[i].clone());
            proof {
                assert(out@ =~= self.targets@.subrange(0, i + 1));
            }
            i = i + 1;
        }
        proof {
            assert(out@ =~= self.targets@);
        }
        out
    }
}

/// Replace-then-snapshot: a snapshot that observes the store state a
/// replace left behind returns exactly the replaced sequence — the whole of
/// it, nothing of what was stored before. The two premises are precisely
/// what [`TargetStore::replace_all`] and [`TargetStore::snapshot`] ensure;
/// snapshots themselves never change the store, so the state a replace
/// establishes persists, however many snapshots are interleaved, until the
/// next replace.
pub proof fn lemma_replace_then_snapshot(
    after: TargetStore,
    written: Vec<Target>,
    snap: Vec<Target>,
)
    requires
        after.targets@ == written@,
        snap@ == after.targets@,
    ensures
        snap@ == written@,
{
}

/// The lock invariant of the registry: every target sequence is accepted,
/// since the registry performs no validation.
pub struct AnyStore;

impl RwLockPredicate<TargetStore> for AnyStore {
    open spec fn inv(self, v: TargetStore) -> bool {
        true
    }
}

/// The shared engine state: the target registry behind a verified
/// reader-writer lock.
pub struct AppState {
    pub targets: RwLock<TargetStore, AnyStore>,
}

impl AppState {
    /// A registry holding no targets.
    pub fn new() -> (s: Self) {
        AppState { targets: RwLock::new(TargetStore::new(), Ghost(AnyStore)) }
    }

    /// Atomically swap the whole stored sequence. The write lock makes the
    /// swap mutually exclusive with snapshots and with other writers; it is
    /// held only for the swap itself, so no reader or writer is blocked
    /// behind long-running work.
    pub fn replace_all(&self, targets: Vec<Target>) {
        let (mut store, handle) = self.targets.acquire_write();
        store.replace_all(targets);
        handle.release_write(store);
    }

    /// A deep copy of the sequence stored at the moment the read lock is
    /// held. The read handle borrows one whole stored value, so the copy is
    /// never a mixture of an old and a new sequence, and concurrent
    /// snapshots may proceed in parallel.
    pub fn snapshot(&self) -> Vec<Target> {
        let handle = self.targets.acquire_read();
        let out = handle.borrow().snapshot();
        handle.release_read();
        out
    }
}

} // verus!
