//! The decisions of the resilient store connection: one physical connection,
//! a background loop that replaces it after a failure, and a shutdown signal.
//! The caller performs each action that a decision returns.
use vstd::prelude::*;

verus! {

/// Seconds between two attempts of the first connection.
pub const INITIAL_RETRY_SECS: u64 = 3;

/// Seconds between two attempts of the background reconnection loop.
pub const RECONNECT_RETRY_SECS: u64 = 2;

/// The state of the connection, as a value.
pub struct ConnView {
    /// The connection in place last worked.
    pub healthy: bool,
    /// A reconnection loop is alive.
    pub reconnecting: bool,
    /// Shutdown was requested.
    pub shut_down: bool,
}

/// What the reconnection loop does after one attempt.
#[derive(PartialEq, Eq, Structural, Clone, Copy, Debug)]
pub enum ReconnectStep {
    /// Swap the fresh connection in, under the connection's lock, and end.
    Install,
    /// Sleep the retry interval and try again.
    RetryLater,
    /// Shutdown was requested: end without a connection.
    Stop,
}

/// After an operation on the connection: a failure marks the connection
/// broken and starts a reconnection loop unless one is alive or shutdown was
/// requested. The failed call itself is not retried.
pub open spec fn after_operation(s: ConnView, ok: bool) -> (ConnView, bool) {
    if ok {
        (s, false)
    } else {
        (
            ConnView {
                healthy: false,
                reconnecting: s.reconnecting || !s.shut_down,
                shut_down: s.shut_down,
            },
            !s.reconnecting && !s.shut_down,
        )
    }
}

/// After one attempt of the loop to open a fresh connection.
pub open spec fn after_attempt(s: ConnView, connected: bool) -> (ConnView, ReconnectStep) {
    if s.shut_down {
        (ConnView { reconnecting: false, ..s }, ReconnectStep::Stop)
    } else if connected {
        (ConnView { healthy: true, reconnecting: false, shut_down: false }, ReconnectStep::Install)
    } else {
        (s, ReconnectStep::RetryLater)
    }
}

/// The state after a run of attempts with the given outcomes.
pub open spec fn after_attempts(s: ConnView, outcomes: Seq<bool>) -> ConnView
    decreases outcomes.len(),
{
    if outcomes.len() == 0 {
        s
    } else {
        after_attempts(after_attempt(s, outcomes[0]).0, outcomes.drop_first())
    }
}

pub struct StoreConnection {
    healthy: bool,
    reconnecting: bool,
    shut_down: bool,
    loops: Ghost<nat>,
}

impl StoreConnection {
    pub closed spec fn view(&self) -> ConnView {
        ConnView {
            healthy: self.healthy,
            reconnecting: self.reconnecting,
            shut_down: self.shut_down,
        }
    }

    pub closed spec fn live_loops(&self) -> nat {
        self.loops@
    }

    /// At most one reconnection loop is alive, exactly while the flag is set.
    pub open spec fn wf(&self) -> bool {
        self.live_loops() == if self.view().reconnecting {
            1nat
        } else {
            0nat
        }
    }

    /// The state once the first connection is open.
    pub fn connected() -> (r: Self)
        ensures
            r.wf(),
            r.view() == (ConnView { healthy: true, reconnecting: false, shut_down: false }),
    {
        StoreConnection { healthy: true, reconnecting: false, shut_down: false, loops: Ghost(0) }
    }

    pub fn is_healthy(&self) -> (r: bool)
        ensures
            r == self.view().healthy,
    {
        self.healthy
    }

    pub fn is_reconnecting(&self) -> (r: bool)
        ensures
            r == self.view().reconnecting,
    {
        self.reconnecting
    }

    /// Records the outcome of an operation; tells whether the caller must
    /// spawn the reconnection loop.
    pub fn on_operation(&mut self, ok: bool) -> (spawn: bool)
        requires
            old(self).wf(),
        ensures
            final(self).wf(),
            (final(self).view(), spawn) == after_operation(old(self).view(), ok),
    {
        if ok {
            return false;
        }
        self.healthy = false;
        if self.reconnecting || self.shut_down {
            false
        } else {
            self.reconnecting = true;
            self.loops = Ghost(1);
            true
        }
    }

    /// Records one attempt of the reconnection loop and says what the loop
    /// does next.
    pub fn on_attempt(&mut self, connected: bool) -> (step: ReconnectStep)
        requires
            old(self).wf(),
            old(self).view().reconnecting,
        ensures
            final(self).wf(),
            (final(self).view(), step) == after_attempt(old(self).view(), connected),
    {
        if self.shut_down {
            self.reconnecting = false;
            self.loops = Ghost(0);
            ReconnectStep::Stop
        } else if connected {
            self.healthy = true;
            self.reconnecting = false;
            self.loops = Ghost(0);
            ReconnectStep::Install
        } else {
            ReconnectStep::RetryLater
        }
    }

    /// Requests shutdown; tells whether a live loop must be signalled. The
    /// caller does not wait for it.
    pub fn shutdown(&mut self) -> (signal: bool)
        requires
            old(self).wf(),
        ensures
            final(self).wf(),
            final(self).view() == (ConnView { shut_down: true, ..old(self).view() }),
            signal == old(self).view().reconnecting,
    {
        self.shut_down = true;
        self.reconnecting
    }
}

/// After an outage that made an operation fail, and any number of failed
/// attempts while the store is down, the first attempt after the store is
/// back installs a fresh connection: the connection is healthy again and the
/// loop has ended, with no new connection made by any caller.
pub proof fn lemma_recovers_after_outage(s: ConnView, failures: nat)
    requires
        !s.shut_down,
    ensures
        after_operation(s, false).0.reconnecting,
        after_attempts(
            after_operation(s, false).0,
            Seq::new(failures, |i: int| false),
        ) == after_operation(s, false).0,
        after_attempt(after_operation(s, false).0, true) == (
        ConnView { healthy: true, reconnecting: false, shut_down: false },
        ReconnectStep::Install,
        ),
    decreases failures,
{
    let s1 = after_operation(s, false).0;
    if failures > 0 {
        lemma_recovers_after_outage(s, (failures - 1) as nat);
        let fs = Seq::new(failures, |i: int| false);
        assert(fs.drop_first() =~= Seq::new((failures - 1) as nat, |i: int| false));
        assert(after_attempt(s1, fs[0]).0 == s1);
    }
}

/// However often operations fail, at most one reconnection loop is started
/// until it ends.
pub proof fn lemma_single_reconnect_loop(s: ConnView)
    ensures
        after_operation(s, false).1 ==> !s.reconnecting,
        after_operation(after_operation(s, false).0, false).1 == false,
{
}

} // verus!
