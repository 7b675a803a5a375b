//! The shared interning registry.
//!
//! An [`AtomRegistry`] is a handle to one interning table behind a lock.
//! Cloning the registry clones the handle, not the table: all clones intern
//! into the same map. Every table operation takes the lock exclusively, runs
//! to completion, and releases it, so no other caller can observe the table
//! mid-update, and the table's well-formedness holds whenever the lock is
//! free.

use vstd::prelude::*;
use vstd::rwlock::RwLock;
use vstd::rwlock::RwLockPredicate;
use std::sync::Arc;

use crate::atom::Atom;
use crate::atom::clone_arc;
use crate::table::AtomTable;

verus! {

/// What the registry's lock protects: the table is well-formed whenever
/// nobody holds the lock.
pub struct TableWf {}

impl RwLockPredicate<AtomTable> for TableWf {
    open spec fn inv(self, t: AtomTable) -> bool {
        t.wf()
    }
}

/// A shared, lock-guarded interning table.
///
/// `register` hands out an [`Atom`] for any string, reusing the live
/// allocation already recorded for that content when there is one, and
/// recording a fresh one otherwise. Entries never keep content alive: the
/// table holds non-owning references only, so memory is reclaimed as soon as
/// the last atom over it is dropped.
///
/// Table operations have no failure path. The guard is a verified lock whose
/// invariant is re-established before every release, so it cannot be left
/// poisoned the way a lock whose holder dies mid-update can.
pub struct AtomRegistry {
    shared: Arc<RwLock<AtomTable, TableWf>>,
}

impl AtomRegistry {
    /// Builds an independent registry, seeded with the entry for the empty
    /// string so that interning `""` never pays a first-miss allocation.
    /// Registries built separately share nothing.
    pub fn new() -> AtomRegistry {
        let table = AtomTable::new();
        AtomRegistry { shared: Arc::new(RwLock::new(table, Ghost(TableWf {}))) }
    }

    /// Interns `value` in the shared table: the returned atom's content
    /// equals `value`, and it shares the allocation already recorded for
    /// that content whenever that allocation is still alive. The whole
    /// find-or-insert step runs under the lock, atomically with respect to
    /// every other operation on the same table.
    pub fn register(&mut self, value: &str) -> (a: Atom)
        ensures
            a@ == value@,
    {
        let (mut table, handle) = self.shared.acquire_write();
        let a = table.register(value);
        handle.release_write(table);
        a
    }

    /// Drops the shared table's entry for `value`, live or stale, if one is
    /// present. Atoms already handed out are unaffected; a later `register`
    /// of the same content records a fresh allocation.
    pub fn unregister(&mut self, value: &str) {
        let (mut table, handle) = self.shared.acquire_write();
        table.unregister(value);
        handle.release_write(table);
    }
}

/// Registering content-equal strings yields content-equal atoms: whatever
/// atoms `register` returns for two inputs of equal content — and its
/// contract pins each result's content to its input — are equal in content
/// themselves, whether or not they share an allocation.
pub proof fn lemma_register_content_equal(s1: Seq<char>, s2: Seq<char>, a: Atom, b: Atom)
    requires
        s1 == s2,
        a@ == s1,
        b@ == s2,
    ensures
        a@ == b@,
{
}

impl Clone for AtomRegistry {
    /// Another handle to the same table: the clone and the original intern
    /// into one map.
    fn clone(&self) -> (res: Self)
        ensures
            res == *self,
    {
        AtomRegistry { shared: clone_arc(&self.shared) }
    }
}

} // verus!
