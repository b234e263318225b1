//! The "already running" flag that keeps one garbage-collector loop per task
//! table. It is set before a loop is spawned and cleared by the loop itself,
//! under the same lock that guards the table, right before the loop ends.
use vstd::prelude::*;

verus! {

pub struct CollectorGuard {
    running: bool,
    /// How many loops are alive.
    loops: Ghost<nat>,
}

/// What the guard's flag becomes after a start request, and whether a loop
/// is spawned.
pub open spec fn start_step(running: bool) -> (bool, bool) {
    (true, !running)
}

/// How many loops `n` start requests spawn, from a guard whose flag is
/// `running`, with no loop ending in between.
pub open spec fn spawned_by(running: bool, n: nat) -> nat
    decreases n,
{
    if n == 0 {
        0
    } else {
        (if start_step(running).1 {
            1nat
        } else {
            0nat
        }) + spawned_by(start_step(running).0, (n - 1) as nat)
    }
}

impl CollectorGuard {
    pub closed spec fn is_running(&self) -> bool {
        self.running
    }

    pub closed spec fn live_loops(&self) -> nat {
        self.loops@
    }

    /// At most one loop is alive, and one is exactly when the flag is set.
    pub open spec fn wf(&self) -> bool {
        self.live_loops() == if self.is_running() {
            1nat
        } else {
            0nat
        }
    }

    pub fn new() -> (r: Self)
        ensures
            r.wf(),
            !r.is_running(),
    {
        CollectorGuard { running: false, loops: Ghost(0) }
    }

    pub fn running(&self) -> (r: bool)
        ensures
            r == self.is_running(),
    {
        self.running
    }

    /// Called after a task was inserted: tells whether the caller must spawn
    /// the loop. The flag is set either way.
    pub fn try_start(&mut self) -> (spawn: bool)
        requires
            old(self).wf(),
        ensures
            final(self).wf(),
            (final(self).is_running(), spawn) == start_step(old(self).is_running()),
            final(self).live_loops() == old(self).live_loops() + if spawn {
                1nat
            } else {
                0nat
            },
    {
        if self.running {
            false
        } else {
            self.running = true;
            self.loops = Ghost(self.loops@ + 1);
            true
        }
    }

    /// Called by the loop at the start of each sweep, holding the table's
    /// lock: where the table is empty the loop must end, and the flag is
    /// cleared.
    pub fn stop_if_idle(&mut self, table_is_empty: bool) -> (stop: bool)
        requires
            old(self).wf(),
            old(self).is_running(),
        ensures
            final(self).wf(),
            stop == table_is_empty,
            final(self).is_running() == !stop,
            final(self).live_loops() == if stop {
                0nat
            } else {
                1nat
            },
    {
        if table_is_empty {
            self.running = false;
            self.loops = Ghost(0);
            true
        } else {
            false
        }
    }
}

/// A guard never has more than one live loop.
pub proof fn lemma_at_most_one_loop(g: CollectorGuard)
    requires
        g.wf(),
    ensures
        g.live_loops() <= 1,
        g.live_loops() == 1 <==> g.is_running(),
{
}

/// Any number of start requests spawn exactly one loop where none was
/// running, and none where one was.
pub proof fn lemma_concurrent_starts_spawn_once(running: bool, n: nat)
    requires
        n >= 1,
    ensures
        spawned_by(running, n) == if running {
            0nat
        } else {
            1nat
        },
    decreases n,
{
    assert(start_step(running).0);
    if n > 1 {
        lemma_concurrent_starts_spawn_once(true, (n - 1) as nat);
    } else {
        assert(spawned_by(true, 0) == 0);
    }
    assert(spawned_by(running, n) == (if running {
        0nat
    } else {
        1nat
    }) + spawned_by(true, (n - 1) as nat));
}

} // verus!
