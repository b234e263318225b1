//! The loop behind the global WebSocket topic: it runs while at least one
//! browser is connected, and sends the cluster-wide counters at each tick.
use vstd::prelude::*;
use crate::outcomes::views;

verus! {

/// Seconds between two information events.
pub const INFORMATION_INTERVAL_SECS: u64 = 2;

/// The counters sent to every connected browser.
pub struct InformationEvent {
    pub connected_clients_count: u32,
    pub running_tests_count: u32,
    pub installing_projects: Vec<String>,
}

/// The connected browsers, and the flag of the loop that informs them.
pub struct InformationLoop {
    clients: u32,
    running: bool,
    /// How many loops are alive.
    loops: Ghost<nat>,
}

impl InformationLoop {
    pub closed spec fn clients(&self) -> nat {
        self.clients as nat
    }

    pub closed spec fn is_running(&self) -> bool {
        self.running
    }

    pub closed spec fn live_loops(&self) -> nat {
        self.loops@
    }

    /// At most one loop is alive, exactly while the flag is set.
    pub open spec fn wf(&self) -> bool {
        self.live_loops() == if self.is_running() {
            1nat
        } else {
            0nat
        }
    }

    pub fn new() -> (r: Self)
        ensures
            r.wf(),
            !r.is_running(),
            r.clients() == 0,
    {
        InformationLoop { clients: 0, running: false, loops: Ghost(0) }
    }

    pub fn client_count(&self) -> (r: u32)
        ensures
            r as nat == self.clients(),
    {
        self.clients
    }

    /// A browser connected; tells whether the caller must spawn the loop.
    pub fn on_connect(&mut self) -> (spawn: bool)
        requires
            old(self).wf(),
        ensures
            final(self).wf(),
            final(self).is_running(),
            spawn == !old(self).is_running(),
            final(self).clients() == if old(self).clients() < u32::MAX as nat {
                old(self).clients() + 1
            } else {
                old(self).clients()
            },
    {
        if self.clients < u32::MAX {
            self.clients = self.clients + 1;
        }
        if self.running {
            false
        } else {
            self.running = true;
            self.loops = Ghost(1);
            true
        }
    }

    /// A browser disconnected. The loop notices at its next tick.
    pub fn on_disconnect(&mut self)
        requires
            old(self).wf(),
        ensures
            final(self).wf(),
            final(self).is_running() == old(self).is_running(),
            final(self).clients() == if old(self).clients() > 0 {
                (old(self).clients() - 1) as nat
            } else {
                0
            },
    {
        if self.clients > 0 {
            self.clients = self.clients - 1;
        }
    }

    /// One tick of the loop: with no browser left the loop ends and its flag
    /// is cleared; otherwise the event to send.
    pub fn tick(&mut self, running_tests: u32, installing: &Vec<String>) -> (r: Option<
        InformationEvent,
    >)
        requires
            old(self).wf(),
            old(self).is_running(),
        ensures
            final(self).wf(),
            final(self).clients() == old(self).clients(),
            r is None <==> old(self).clients() == 0,
            r is None ==> !final(self).is_running(),
            r is Some ==> final(self).is_running(),
            match r {
                Some(e) => e.connected_clients_count as nat == old(self).clients()
                    && e.running_tests_count == running_tests && views(e.installing_projects@)
                    == views(installing@),
                None => true,
            },
    {
        if self.clients == 0 {
            self.running = false;
            self.loops = Ghost(0);
            return None;
        }
        let mut names: Vec<String> = Vec::new();
        let mut i: usize = 0;
        while i < installing.len()
            invariant
                i <= installing.len(),
                names.len() == i,
                forall|j: int| 0 <= j < i ==> names@[j]@ == installing@[j]@,
            decreases installing.len() - i,
        {
            names.push(installing[i].clone());
            i = i + 1;
        }
        assert(views(names@) =~= views(installing@));
        Some(
            InformationEvent {
                connected_clients_count: self.clients,
                running_tests_count: running_tests,
                installing_projects: names,
            },
        )
    }
}

/// The information loop never has more than one live instance.
pub proof fn lemma_one_information_loop(l: InformationLoop)
    requires
        l.wf(),
    ensures
        l.live_loops() <= 1,
        l.live_loops() == 1 <==> l.is_running(),
{
}

} // verus!
