//! The scheduler's shutdown protocol, as a ledger over task counts. The
//! threads themselves live outside the library; the ledger pins down the
//! bookkeeping they must follow: one termination token per outstanding
//! task is posted at shutdown, each task observes one token after
//! finishing its current iteration and exits, and shutdown is complete
//! exactly when every started task has exited.

use vstd::prelude::*;

verus! {

/// The shutdown ledger of a running scheduler.
#[derive(Debug, Clone, Copy, PartialEq, Eq, Structural)]
pub struct RunnerLedger {
    workers: u64,
    tokens: u64,
    exited: u64,
}

impl RunnerLedger {
    /// Every ledger the protocol can reach: no task exits without a
    /// token, and no more tokens circulate than tasks were started.
    pub closed spec fn wf(&self) -> bool {
        self.exited <= self.tokens <= self.workers
    }

    pub closed spec fn spec_workers(&self) -> u64 {
        self.workers
    }

    pub closed spec fn spec_tokens(&self) -> u64 {
        self.tokens
    }

    pub closed spec fn spec_exited(&self) -> u64 {
        self.exited
    }

    /// A scheduler with no tasks yet.
    pub fn new() -> (r: RunnerLedger)
        ensures
            r.wf(),
            r.spec_workers() == 0,
            r.spec_tokens() == 0,
            r.spec_exited() == 0,
    {
        RunnerLedger { workers: 0, tokens: 0, exited: 0 }
    }

    /// One more polling task begins its loop.
    pub fn start_worker(&mut self)
        requires
            old(self).wf(),
            old(self).spec_workers() < u64::MAX,
        ensures
            final(self).wf(),
            final(self).spec_workers() == old(self).spec_workers() + 1,
            final(self).spec_tokens() == old(self).spec_tokens(),
            final(self).spec_exited() == old(self).spec_exited(),
    {
        self.workers = self.workers + 1;
    }

    /// Shutdown begins: one termination token is posted for every
    /// outstanding task.
    pub fn begin_shutdown(&mut self)
        requires
            old(self).wf(),
        ensures
            final(self).wf(),
            final(self).spec_workers() == old(self).spec_workers(),
            final(self).spec_tokens() == final(self).spec_workers(),
            final(self).spec_exited() == old(self).spec_exited(),
    {
        self.tokens = self.workers;
    }

    /// One task finishes its current iteration, observes a token and
    /// exits. No task is interrupted mid-iteration: this is the only way
    /// a task ends.
    pub fn observe_token(&mut self)
        requires
            old(self).wf(),
            old(self).spec_exited() < old(self).spec_tokens(),
        ensures
            final(self).wf(),
            final(self).spec_workers() == old(self).spec_workers(),
            final(self).spec_tokens() == old(self).spec_tokens(),
            final(self).spec_exited() == old(self).spec_exited() + 1,
    {
        self.exited = self.exited + 1;
    }

    /// How many polling tasks were started.
    pub fn workers(&self) -> (r: u64)
        ensures
            r == self.spec_workers(),
    {
        self.workers
    }

    /// How many termination tokens are posted.
    pub fn tokens(&self) -> (r: u64)
        ensures
            r == self.spec_tokens(),
    {
        self.tokens
    }

    /// How many tasks have exited.
    pub fn exited(&self) -> (r: u64)
        ensures
            r == self.spec_exited(),
    {
        self.exited
    }

    /// May the shutdown call return? Exactly when every started task has
    /// exited.
    pub fn all_exited(&self) -> (r: bool)
        ensures
            r <==> self.spec_exited() == self.spec_workers(),
    {
        self.exited == self.workers
    }
}

/// Shutting down `n` started tasks returns only once all `n` have
/// finished their current iteration and exited: after the shutdown post
/// the join loop may end only at `n` observed tokens, and then no task
/// thread is left.
pub proof fn lemma_shutdown_joins_all(l: RunnerLedger, observed: u64)
    requires
        l.wf(),
        l.spec_tokens() == l.spec_workers(),
        observed == l.spec_exited(),
    ensures
        observed == l.spec_workers() <==> l.spec_exited() == l.spec_workers(),
        observed < l.spec_workers() ==> l.spec_exited() < l.spec_tokens(),
{
}

} // verus!
