//! One supervised run: a single process, or a coordinator process with the
//! sub-worker processes that serve it.
use vstd::prelude::*;

verus! {

/// A run, generic over the handle of an operating-system process.
pub enum Task<P> {
    /// One process, and the run's key.
    NormalTask(P, String),
    /// The coordinator, its members in order, and the run's key.
    MasterTask(P, Vec<P>, String),
}

/// One of the processes of a task.
#[derive(PartialEq, Eq, Structural, Clone, Copy, Debug)]
pub enum ProcessRef {
    Coordinator,
    Member(usize),
}

/// One operation on a process of a task.
#[derive(PartialEq, Eq, Structural, Clone, Copy, Debug)]
pub enum ProcessStep {
    /// Ask the process to end. A failure means that it had already ended.
    Kill(ProcessRef),
    /// Reap the process, so that it does not linger as a zombie.
    Wait(ProcessRef),
}

/// Kill each member, then reap it, member by member in order.
pub open spec fn member_teardown(n: nat) -> Seq<ProcessStep> {
    Seq::new(
        2 * n,
        |k: int|
            if k % 2 == 0 {
                ProcessStep::Kill(ProcessRef::Member((k / 2) as usize))
            } else {
                ProcessStep::Wait(ProcessRef::Member((k / 2) as usize))
            },
    )
}

/// The whole teardown of a task: every member, then the coordinator.
pub open spec fn kill_plan(n: nat) -> Seq<ProcessStep> {
    member_teardown(n).push(ProcessStep::Kill(ProcessRef::Coordinator))
}

impl<P> Task<P> {
    /// How many member processes the task owns.
    pub open spec fn members(&self) -> nat {
        match self {
            Task::NormalTask(_, _) => 0nat,
            Task::MasterTask(_, m, _) => m@.len(),
        }
    }

    pub open spec fn key(&self) -> Seq<char> {
        match self {
            Task::NormalTask(_, k) => k@,
            Task::MasterTask(_, _, k) => k@,
        }
    }

    /// The run's key.
    pub fn id(&self) -> (r: &String)
        ensures
            r@ == self.key(),
    {
        match self {
            Task::NormalTask(_, k) => k,
            Task::MasterTask(_, _, k) => k,
        }
    }

    pub fn member_count(&self) -> (r: usize)
        ensures
            r == self.members(),
    {
        match self {
            Task::NormalTask(_, _) => 0,
            Task::MasterTask(_, m, _) => m.len(),
        }
    }

    /// The steps that end the task: each member is killed and reaped, in
    /// order, whatever became of the members before it, and only then is the
    /// coordinator killed. The outcome of the last step is the outcome of
    /// the whole.
    pub fn kill_steps(&self) -> (r: Vec<ProcessStep>)
        ensures
            r@ == kill_plan(self.members()),
    {
        let mut r = self.kill_children_steps();
        r.push(ProcessStep::Kill(ProcessRef::Coordinator));
        r
    }

    /// The steps that end the members alone and leave the coordinator
    /// running. A single-process task has none.
    pub fn kill_children_steps(&self) -> (r: Vec<ProcessStep>)
        ensures
            r@ == member_teardown(self.members()),
    {
        let n = self.member_count();
        let mut r: Vec<ProcessStep> = Vec::new();
        let mut i: usize = 0;
        while i < n
            invariant
                i <= n,
                n == self.members(),
                r@ == member_teardown(i as nat),
            decreases n - i,
        {
            r.push(ProcessStep::Kill(ProcessRef::Member(i)));
            r.push(ProcessStep::Wait(ProcessRef::Member(i)));
            proof {
                assert forall|k: int| 0 <= k < 2 * (i + 1) implies r@[k] == member_teardown(
                    (i + 1) as nat,
                )[k] by {
                    if k < 2 * i {
                        assert(r@[k] == member_teardown(i as nat)[k]);
                    } else {
                        assert(k / 2 == i);
                    }
                }
                assert(r@ =~= member_teardown((i + 1) as nat));
            }
            i = i + 1;
        }
        r
    }
}

/// In the teardown of a task with `n` members, every member is killed and
/// reaped before the coordinator is killed, and the coordinator is killed
/// once, as the very last step.
pub proof fn lemma_members_before_coordinator(n: nat)
    ensures
        kill_plan(n).len() == 2 * n + 1,
        forall|k: int|
            #![trigger kill_plan(n)[k]]
            0 <= k < 2 * n ==> kill_plan(n)[k] == if k % 2 == 0 {
                ProcessStep::Kill(ProcessRef::Member((k / 2) as usize))
            } else {
                ProcessStep::Wait(ProcessRef::Member((k / 2) as usize))
            },
        kill_plan(n).last() == ProcessStep::Kill(ProcessRef::Coordinator),
        forall|k: int|
            #![trigger kill_plan(n)[k]]
            0 <= k < 2 * n ==> kill_plan(n)[k] != ProcessStep::Kill(ProcessRef::Coordinator),
{
}

} // verus!
