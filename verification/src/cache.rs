//! The in-memory rule cache: a versioned, wholesale-replaced copy of the
//! full rule table, refreshed after each successful mutation.
//!
//! Readers observe either the old or the new snapshot in full, never a mix:
//! `refresh` replaces the whole snapshot in one step.  The shell shares one
//! `CommandCache` behind a reader-writer lock; failure to take that lock is
//! the recoverable `CacheError`, on which the stale snapshot is retained.

use vstd::prelude::*;
use crate::models::SpecCommand;
use crate::models::Command;
use crate::store::CommandTable;

verus! {

/// The cache's one failure: the synchronization primitive protecting the
/// snapshot swap could not be acquired.  Local and non-fatal: the stale
/// snapshot stays in place.
#[derive(Debug)]
pub enum CacheError {
    WriterError(String),
}

/// The snapshot held behind the cache: the last known good copy of the
/// full rule table.
pub struct CommandCacheInner {
    pub commands: Vec<Command>,
}

/// A versioned in-memory copy of "all rules".  Created empty at start,
/// replaced wholesale by `refresh` after every successful mutation.
pub struct CommandCache {
    inner: CommandCacheInner,
    version: u64,
}

impl View for CommandCache {
    type V = Seq<SpecCommand>;

    closed spec fn view(&self) -> Seq<SpecCommand> {
        self.inner.commands.deep_view()
    }
}

impl CommandCache {
    /// How many snapshot swaps have happened.
    pub closed spec fn spec_version(&self) -> u64 {
        self.version
    }

    /// An empty cache: no rules, no swaps yet.
    pub fn new() -> (r: CommandCache)
        ensures
            r@ == Seq::<SpecCommand>::empty(),
            r.spec_version() == 0,
    {
        let r = CommandCache { inner: CommandCacheInner { commands: Vec::new() }, version: 0 };
        proof {
            assert(r@ =~= Seq::<SpecCommand>::empty());
        }
        r
    }

    /// Swap the whole snapshot for `rows`, the result of a full select-all.
    /// Atomic from a reader's point of view: the old snapshot is visible
    /// until the swap, the new one after it, nothing in between.
    pub fn refresh(&mut self, rows: Vec<Command>)
        requires
            old(self).spec_version() < u64::MAX,
        ensures
            final(self)@ == rows.deep_view(),
            final(self).spec_version() == old(self).spec_version() + 1,
    {
        self.inner.commands = rows;
        self.version = self.version + 1;
    }

    /// One round of keeping the cache consistent with the store: a full
    /// select-all against the table, then the atomic swap.  Afterwards the
    /// snapshot equals the table.
    pub fn update(&mut self, db: &CommandTable)
        requires
            old(self).spec_version() < u64::MAX,
        ensures
            final(self)@ == db@,
            final(self).spec_version() == old(self).spec_version() + 1,
    {
        self.refresh(db.list_all());
    }

    /// The current snapshot, whole.
    pub fn read(&self) -> (r: &Vec<Command>)
        ensures
            r.deep_view() == self@,
    {
        &self.inner.commands
    }

    /// The current version number.
    pub fn version(&self) -> (v: u64)
        ensures
            v == self.spec_version(),
    {
        self.version
    }
}

} // verus!
