//! The task table of a node, and one sweep of its garbage collector.
use vstd::prelude::*;
use crate::keys::{
    decode_test_id, encode_script_id, get_global_script_id, last_delim_at, script_key, splits_into,
};
use crate::outcomes::{contains_text, views};
use crate::registry::GLOBAL_TOPIC;
use crate::task::Task;

verus! {

/// What polling a task's process showed.
pub enum Observation {
    /// The process has not ended.
    Running,
    /// The process ended with this exit code; for a failure, the text that
    /// it wrote on its error stream, where that could be read.
    Exited(i32, Option<String>),
    /// The process was ended by a signal.
    Signaled,
    /// The process could not be polled.
    Unobservable,
}

/// The state of a run as reported to subscribers.
pub enum RunStatus {
    Running,
    Succeeded,
    FailedExitCode(i32, Option<String>),
    FailedSignal,
}

/// The filesystem work that follows the end of a run, outside the lock.
#[derive(PartialEq, Eq, Structural, Clone, Copy, Debug)]
pub enum Cleanup {
    /// Move the run's staged directory to its permanent place.
    Relocate,
    /// Delete what the run staged.
    DeleteStaged,
    /// Nothing to do.
    Nothing,
}

/// The status of one task as seen by a sweep.
pub struct StatusEntry {
    pub key: String,
    pub status: RunStatus,
}

/// A task that a sweep took out of the table, with the work that remains.
pub struct FinishedTask<P> {
    pub key: String,
    pub task: Task<P>,
    pub cleanup: Cleanup,
}

/// All that one sweep observed and took out of the table.
pub struct SweepReport<P> {
    /// One entry per task in the table when the sweep began, in table order.
    pub statuses: Vec<StatusEntry>,
    /// The tasks that ended, in table order.
    pub finished: Vec<FinishedTask<P>>,
}

/// A task stays in the table while its process runs, or while it cannot be
/// polled (it is tried again at the next sweep).
pub open spec fn stays(o: Observation) -> bool {
    o is Running || o is Unobservable
}

pub open spec fn status_of(o: Observation) -> RunStatus {
    match o {
        Observation::Running => RunStatus::Running,
        Observation::Unobservable => RunStatus::Running,
        Observation::Exited(code, err) => if code == 0 {
            RunStatus::Succeeded
        } else {
            RunStatus::FailedExitCode(code, err)
        },
        Observation::Signaled => RunStatus::FailedSignal,
    }
}

pub open spec fn cleanup_of(o: Observation) -> Cleanup {
    match o {
        Observation::Exited(code, _) => if code == 0 {
            Cleanup::Relocate
        } else {
            Cleanup::DeleteStaged
        },
        _ => Cleanup::Nothing,
    }
}

/// Marks the places of the tasks that stay in the table.
pub open spec fn stay_mask(obs: Seq<Observation>) -> Seq<bool> {
    Seq::new(obs.len(), |i: int| stays(obs[i]))
}

/// Marks the places of the tasks that leave the table.
pub open spec fn leave_mask(obs: Seq<Observation>) -> Seq<bool> {
    Seq::new(obs.len(), |i: int| !stays(obs[i]))
}

/// The elements of `s` among the first `i` whose place is marked in `m`,
/// in order.
pub open spec fn select<T>(s: Seq<T>, m: Seq<bool>, i: nat) -> Seq<T>
    decreases i,
{
    if i == 0 {
        Seq::empty()
    } else if m[i - 1] {
        select(s, m, (i - 1) as nat).push(s[i - 1])
    } else {
        select(s, m, (i - 1) as nat)
    }
}

/// Every selected element comes from a marked place before `i`.
pub proof fn lemma_select_from_marked<T>(s: Seq<T>, m: Seq<bool>, i: nat)
    requires
        i <= s.len(),
        i <= m.len(),
    ensures
        forall|k: int|
            #![trigger select(s, m, i)[k]]
            0 <= k < select(s, m, i).len() ==> exists|j: int|
                #![trigger s[j]]
                0 <= j < i && m[j] && s[j] == select(s, m, i)[k],
    decreases i,
{
    if i > 0 {
        lemma_select_from_marked(s, m, (i - 1) as nat);
        let prev = select(s, m, (i - 1) as nat);
        assert forall|k: int| #![trigger select(s, m, i)[k]]
            0 <= k < select(s, m, i).len() implies exists|j: int|
            #![trigger s[j]]
            0 <= j < i && m[j] && s[j] == select(s, m, i)[k] by {
            if k < prev.len() {
                assert(select(s, m, i)[k] == prev[k]);
            } else {
                assert(s[i - 1] == select(s, m, i)[k]);
            }
        }
    }
}

/// Selecting from a sequence without duplicates gives one without duplicates.
pub proof fn lemma_select_no_duplicates<T>(s: Seq<T>, m: Seq<bool>, i: nat)
    requires
        i <= s.len(),
        i <= m.len(),
        s.no_duplicates(),
    ensures
        select(s, m, i).no_duplicates(),
    decreases i,
{
    if i > 0 {
        lemma_select_no_duplicates(s, m, (i - 1) as nat);
        lemma_select_from_marked(s, m, (i - 1) as nat);
        let prev = select(s, m, (i - 1) as nat);
        if m[i - 1] {
            assert forall|k: int| 0 <= k < prev.len() implies prev[k] != s[i - 1] by {
                let j = choose|j: int| #![trigger s[j]] 0 <= j < i - 1 && m[j] && s[j] == prev[k];
            }
            assert forall|a: int, b: int|
                0 <= a < b < select(s, m, i).len() implies select(s, m, i)[a] != select(
                s,
                m,
                i,
            )[b] by {
                if b == prev.len() {
                    assert(select(s, m, i)[a] == prev[a]);
                } else {
                    assert(select(s, m, i)[a] == prev[a]);
                    assert(select(s, m, i)[b] == prev[b]);
                }
            }
        }
    }
}

/// `x` is the key of a task among the first `i` whose process was seen
/// running, or could not be polled.
pub open spec fn kept_from(keys: Seq<Seq<char>>, obs: Seq<Observation>, i: nat, x: Seq<char>) -> bool {
    exists|j: int| 0 <= j < i && keys[j] == x && stays(obs[j])
}

/// The tasks kept among the first `i` have distinct keys, each of a task
/// that was seen running or could not be polled.
proof fn lemma_kept_prefix(keys: Seq<Seq<char>>, obs: Seq<Observation>, i: nat)
    requires
        keys.len() == obs.len(),
        i <= keys.len(),
        keys.no_duplicates(),
    ensures
        select(keys, stay_mask(obs), i).no_duplicates(),
        forall|k: int|
            0 <= k < select(keys, stay_mask(obs), i).len() ==> kept_from(
                keys,
                obs,
                i,
                #[trigger] select(keys, stay_mask(obs), i)[k],
            ),
    decreases i,
{
    lemma_select_no_duplicates(keys, stay_mask(obs), i);
    if i > 0 {
        lemma_kept_prefix(keys, obs, (i - 1) as nat);
        assert(stay_mask(obs)[i - 1] == stays(obs[i - 1]));
        assert forall|k: int|
            0 <= k < select(keys, stay_mask(obs), i).len() implies kept_from(
                keys,
                obs,
                i,
                #[trigger] select(keys, stay_mask(obs), i)[k],
            ) by {
            let x = select(keys, stay_mask(obs), i)[k];
            if k < select(keys, stay_mask(obs), (i - 1) as nat).len() {
                assert(x == select(keys, stay_mask(obs), (i - 1) as nat)[k]);
                assert(kept_from(keys, obs, (i - 1) as nat, x));
                let j = choose|j: int| 0 <= j < i - 1 && keys[j] == x && stays(obs[j]);
                assert(0 <= j < i && keys[j] == x && stays(obs[j]));
            } else {
                assert(x == keys[i - 1]);
                assert(0 <= i - 1 < i && keys[i - 1] == x && stays(obs[i - 1]));
            }
        }
    }
}

/// The table that a collector sweeps.
#[derive(PartialEq, Eq, Structural, Clone, Copy, Debug)]
pub enum CollectorKind {
    /// Projects whose environment is being installed.
    Installs,
    /// Test runs.
    Runs,
}

/// The filesystem work that follows the end of a task, done outside the
/// table's lock and before the sweep's event is sent.
#[derive(PartialEq, Eq, Structural, Clone, Copy, Debug)]
pub enum DiskWork {
    /// Move the project from the staging directory to the installed ones.
    MoveToProjects,
    /// Delete the staged project and its environment.
    DeleteStagedProject,
    /// Delete the results that the failed run left.
    DeleteRunResults,
    /// Nothing: a finished run writes its results in place.
    Nothing,
}

pub open spec fn disk_work_of(kind: CollectorKind, c: Cleanup) -> DiskWork {
    match (kind, c) {
        (CollectorKind::Installs, Cleanup::Relocate) => DiskWork::MoveToProjects,
        (CollectorKind::Installs, Cleanup::DeleteStaged) => DiskWork::DeleteStagedProject,
        (CollectorKind::Runs, Cleanup::DeleteStaged) => DiskWork::DeleteRunResults,
        _ => DiskWork::Nothing,
    }
}

/// What the collector of `kind` does on disk for a task with cleanup `c`.
pub fn disk_work(kind: CollectorKind, c: Cleanup) -> (r: DiskWork)
    ensures
        r == disk_work_of(kind, c),
{
    match (kind, c) {
        (CollectorKind::Installs, Cleanup::Relocate) => DiskWork::MoveToProjects,
        (CollectorKind::Installs, Cleanup::DeleteStaged) => DiskWork::DeleteStagedProject,
        (CollectorKind::Runs, Cleanup::DeleteStaged) => DiskWork::DeleteRunResults,
        _ => DiskWork::Nothing,
    }
}

/// The error text that a status carries into the sweep's event.
pub fn status_error(s: &RunStatus) -> (r: Option<String>)
    ensures
        match (s, r) {
            (RunStatus::FailedExitCode(_, Some(e)), Some(t)) => t@ == e@,
            (RunStatus::FailedExitCode(_, Some(_)), None) => false,
            (_, None) => true,
            _ => false,
        },
{
    match s {
        RunStatus::FailedExitCode(_, Some(e)) => Some(e.clone()),
        _ => None,
    }
}

/// The code of a status in the events of installing projects: 0 while
/// running, 1 once installed, 2 once failed.
pub fn install_status_code(s: &RunStatus) -> (r: u8)
    ensures
        r == match s {
            RunStatus::Running => 0u8,
            RunStatus::Succeeded => 1u8,
            _ => 2u8,
        },
{
    match s {
        RunStatus::Running => 0,
        RunStatus::Succeeded => 1,
        _ => 2,
    }
}

/// The code of a status in the events of test runs: 0 while running, 1 once
/// ended, however it ended.
pub fn test_status_code(s: &RunStatus) -> (r: u8)
    ensures
        r == if s is Running {
            0u8
        } else {
            1u8
        },
{
    match s {
        RunStatus::Running => 0,
        _ => 1,
    }
}

/// Whether the status of the run under `key` goes into a sweep's event: only
/// where some browser watches the run's script, or every script.
pub fn is_watched(key: &str, watched: &Vec<String>) -> (r: bool)
    ensures
        r == (views(watched@).contains(GLOBAL_TOPIC@) || exists|j: int|
            last_delim_at(key@, j) && views(watched@).contains(key@.subrange(0, j))),
{
    if contains_text(watched, GLOBAL_TOPIC) {
        return true;
    }
    match get_global_script_id(key) {
        Some(topic) => {
            let r = contains_text(watched, topic);
            proof {
                let j = choose|j: int| last_delim_at(key@, j) && topic@ == key@.subrange(0, j);
                assert forall|j2: int| last_delim_at(key@, j2) implies j2 == j by {
                    if j2 < j {
                        assert(!last_delim_at(key@, j2));
                    }
                    if j2 > j {
                        assert(!last_delim_at(key@, j));
                    }
                }
            }
            r
        },
        None => false,
    }
}

/// A table holds at most one task per key, and after a sweep every task left
/// in it is one whose process the sweep saw running (or could not poll, to
/// be tried again at the next sweep).
pub proof fn lemma_sweep_leaves_only_running<P>(
    before: TaskTable<P>,
    after: TaskTable<P>,
    obs: Seq<Observation>,
)
    requires
        before.wf(),
        obs.len() == before.keys().len(),
        after.keys() == select(before.keys(), stay_mask(obs), obs.len()),
    ensures
        after.keys().no_duplicates(),
        forall|k: int|
            0 <= k < after.keys().len() ==> kept_from(
                before.keys(),
                obs,
                obs.len(),
                #[trigger] after.keys()[k],
            ),
{
    lemma_kept_prefix(before.keys(), obs, obs.len());
}

/// One run's line in the event of its topic.
pub struct WatchedRun {
    pub topic: String,
    pub run_id: String,
    /// 0 while running, 1 once ended.
    pub status: u8,
    pub error: Option<String>,
}

/// The run's line in the sweep's event, where some browser watches its
/// script (or every script) and its key splits into project, script and run.
pub fn watched_run(entry: &StatusEntry, watched: &Vec<String>) -> (r: Option<WatchedRun>)
    ensures
        r is Some <==> (views(watched@).contains(GLOBAL_TOPIC@) || exists|j: int|
            last_delim_at(entry.key@, j) && views(watched@).contains(entry.key@.subrange(0, j)))
            && exists|p: Seq<char>, s: Seq<char>, t: Seq<char>| splits_into(entry.key@, p, s, t),
        match r {
            Some(w) => exists|p: Seq<char>, s: Seq<char>|
                splits_into(entry.key@, p, s, w.run_id@) && w.topic@ == script_key(p, s)
                    && w.status == (if entry.status is Running {
                    0u8
                } else {
                    1u8
                }) && match (entry.status, w.error) {
                    (RunStatus::FailedExitCode(_, Some(e)), Some(t)) => t@ == e@,
                    (RunStatus::FailedExitCode(_, Some(_)), None) => false,
                    (_, None) => true,
                    _ => false,
                },
            None => true,
        },
{
    if !is_watched(entry.key.as_str(), watched) {
        return None;
    }
    match decode_test_id(entry.key.as_str()) {
        Some((p, s, t)) => {
            let w = WatchedRun {
                topic: encode_script_id(p, s),
                run_id: t.to_owned(),
                status: test_status_code(&entry.status),
                error: status_error(&entry.status),
            };
            Some(w)
        },
        None => None,
    }
}

/// The tasks of a node, keyed by run key; no key occurs twice.
pub struct TaskTable<P> {
    entries: Vec<(String, Task<P>)>,
}

impl<P> TaskTable<P> {
    pub closed spec fn keys(&self) -> Seq<Seq<char>> {
        self.entries@.map_values(|e: (String, Task<P>)| e.0@)
    }

    pub closed spec fn tasks(&self) -> Seq<Task<P>> {
        self.entries@.map_values(|e: (String, Task<P>)| e.1)
    }

    pub open spec fn wf(&self) -> bool {
        &&& self.keys().no_duplicates()
        &&& self.keys().len() == self.tasks().len()
    }

    pub fn new() -> (r: Self)
        ensures
            r.wf(),
            r.keys() == Seq::<Seq<char>>::empty(),
    {
        let r = TaskTable { entries: Vec::new() };
        assert(r.keys() =~= Seq::<Seq<char>>::empty());
        r
    }

    pub fn len(&self) -> (r: usize)
        ensures
            r == self.keys().len(),
    {
        self.entries.len()
    }

    pub fn is_empty(&self) -> (r: bool)
        ensures
            r == (self.keys().len() == 0),
    {
        self.entries.len() == 0
    }

    fn find(&self, key: &str) -> (r: Option<usize>)
        ensures
            match r {
                Some(i) => i < self.keys().len() && self.keys()[i as int] == key@,
                None => !self.keys().contains(key@),
            },
    {
        let k = key.to_owned();
        let mut i: usize = 0;
        while i < self.entries.len()
            invariant
                i <= self.entries.len(),
                k@ == key@,
                forall|j: int| 0 <= j < i ==> self.keys()[j] != key@,
            decreases self.entries.len() - i,
        {
            if self.entries[i].0 == k {
                return Some(i);
            }
            i = i + 1;
        }
        None
    }

    pub fn contains_key(&self, key: &str) -> (r: bool)
        ensures
            r == self.keys().contains(key@),
    {
        self.find(key).is_some()
    }

    /// The keys of the table, in order.
    pub fn key_list(&self) -> (r: Vec<String>)
        ensures
            r@.map_values(|s: String| s@) == self.keys(),
    {
        let mut r: Vec<String> = Vec::new();
        let mut i: usize = 0;
        while i < self.entries.len()
            invariant
                i <= self.entries.len(),
                r.len() == i,
                r@.map_values(|s: String| s@) == self.keys().subrange(0, i as int),
            decreases self.entries.len() - i,
        {
            let ghost before = r@;
            let k = self.entries[i].0.clone();
            assert(k@ == self.keys()[i as int]);
            r.push(k);
            assert forall|j: int| 0 <= j <= i implies r@.map_values(|s: String| s@)[j] == self.keys()[j] by {
                if j < i {
                    assert(r@[j] == before[j]);
                    assert(before.map_values(|s: String| s@)[j] == self.keys().subrange(0, i as int)[j]);
                }
            }
            assert(r@.map_values(|s: String| s@) =~= self.keys().subrange(0, i + 1));
            i = i + 1;
        }
        assert(self.keys().subrange(0, i as int) =~= self.keys());
        r
    }

    /// Adds a task under a key that the table does not hold yet. A key
    /// already present is refused, and the task handed back.
    pub fn insert(&mut self, key: String, task: Task<P>) -> (r: Result<(), Task<P>>)
        requires
            old(self).wf(),
        ensures
            final(self).wf(),
            old(self).keys().contains(key@) ==> r == Err::<(), Task<P>>(task) && final(self).keys()
                == old(self).keys() && final(self).tasks() == old(self).tasks(),
            !old(self).keys().contains(key@) ==> r is Ok && final(self).keys() == old(self).keys().push(key@) && final(self).tasks() == old(self).tasks().push(task),
    {
        if self.find(key.as_str()).is_some() {
            return Err(task);
        }
        let ghost k = key@;
        self.entries.push((key, task));
        assert(self.keys() =~= old(self).keys().push(k));
        assert(self.tasks() =~= old(self).tasks().push(task));
        Ok(())
    }

    /// Takes the task under `key` out of the table.
    pub fn remove(&mut self, key: &str) -> (r: Option<Task<P>>)
        requires
            old(self).wf(),
        ensures
            final(self).wf(),
            match r {
                None => !old(self).keys().contains(key@) && final(self).keys() == old(self).keys()
                    && final(self).tasks() == old(self).tasks(),
                Some(t) => exists|i: int|
                    0 <= i < old(self).keys().len() && old(self).keys()[i] == key@ && t == old(self).tasks()[i] && final(self).keys() == old(self).keys().remove(i) && final(self).tasks() == old(self).tasks().remove(i),
            },
    {
        match self.find(key) {
            None => None,
            Some(i) => {
                let e = self.entries.remove(i);
                assert(self.keys() =~= old(self).keys().remove(i as int));
                assert(self.tasks() =~= old(self).tasks().remove(i as int));
                proof {
                    let ks = old(self).keys();
                    assert forall|a: int, b: int|
                        0 <= a < b < self.keys().len() implies self.keys()[a] != self.keys()[b] by {
                        let a2 = if a < i {
                            a
                        } else {
                            a + 1
                        };
                        let b2 = if b < i {
                            b
                        } else {
                            b + 1
                        };
                        assert(self.keys()[a] == ks[a2]);
                        assert(self.keys()[b] == ks[b2]);
                    }
                }
                Some(e.1)
            },
        }
    }

    /// The task under `key`, to act on its processes in place.
    pub fn get_mut(&mut self, key: &str) -> (r: Option<&mut Task<P>>)
        requires
            old(self).wf(),
        ensures
            final(self).keys() =~= old(self).keys(),
            match r {
                None => !old(self).keys().contains(key@) && final(self).tasks() =~= old(self).tasks(),
                Some(t) => exists|i: int|
                    0 <= i < old(self).keys().len() && old(self).keys()[i] == key@ && *t == old(self).tasks()[i] && final(self).tasks() =~= old(self).tasks().update(i, *final(t)),
            },
    {
        match self.find(key) {
            None => None,
            Some(i) => {
                let e = &mut self.entries[i];
                Some(&mut e.1)
            },
        }
    }

    /// One sweep: `obs[i]` is what polling the `i`-th task showed. Every task
    /// that ended leaves the table and is handed back with its cleanup, in
    /// order; the others stay, in order; and every task gets one status.
    pub fn sweep(&mut self, obs: Vec<Observation>) -> (r: SweepReport<P>)
        requires
            old(self).wf(),
            obs.len() == old(self).keys().len(),
        ensures
            final(self).wf(),
            final(self).keys() == select(old(self).keys(), stay_mask(obs@), obs.len() as nat),
            final(self).tasks() == select(old(self).tasks(), stay_mask(obs@), obs.len() as nat),
            r.statuses.len() == obs.len(),
            forall|i: int|
                #![trigger r.statuses@[i]]
                0 <= i < obs.len() ==> r.statuses@[i].key@ == old(self).keys()[i]
                    && r.statuses@[i].status == status_of(obs@[i]),
            r.finished@.map_values(|f: FinishedTask<P>| f.key@) == select(
                old(self).keys(),
                leave_mask(obs@),
                obs.len() as nat,
            ),
            r.finished@.map_values(|f: FinishedTask<P>| f.task) == select(
                old(self).tasks(),
                leave_mask(obs@),
                obs.len() as nat,
            ),
            r.finished@.map_values(|f: FinishedTask<P>| f.cleanup) == select(
                obs@.map_values(|o: Observation| cleanup_of(o)),
                leave_mask(obs@),
                obs.len() as nat,
            ),
    {
        let ghost keys0 = old(self).keys();
        let ghost tasks0 = old(self).tasks();
        let ghost obs0 = obs@;
        let ghost n = obs.len() as nat;
        let ghost cleanups0 = obs0.map_values(|o: Observation| cleanup_of(o));
        let mut rest: Vec<(String, Task<P>)> = Vec::new();
        std::mem::swap(&mut self.entries, &mut rest);
        let mut pending = obs;
        let mut statuses: Vec<StatusEntry> = Vec::new();
        let mut finished: Vec<FinishedTask<P>> = Vec::new();
        let mut i: usize = 0;
        while rest.len() > 0
            invariant
                i <= n,
                rest.len() == n - i,
                pending.len() == n - i,
                forall|j: int|
                    0 <= j < n - i ==> rest@[j].0@ == keys0[i + j] && rest@[j].1 == tasks0[i + j],
                forall|j: int| 0 <= j < n - i ==> pending@[j] == obs0[i + j],
                obs0.len() == n,
                n <= usize::MAX,
                cleanups0 == obs0.map_values(|o: Observation| cleanup_of(o)),
                keys0.len() == n,
                tasks0.len() == n,
                keys0.no_duplicates(),
                self.keys() == select(keys0, stay_mask(obs0), i as nat),
                self.tasks() == select(tasks0, stay_mask(obs0), i as nat),
                statuses.len() == i,
                forall|j: int|
                    #![trigger statuses@[j]]
                    0 <= j < i ==> statuses@[j].key@ == keys0[j]
                        && statuses@[j].status == status_of(obs0[j]),
                finished@.map_values(|f: FinishedTask<P>| f.key@) == select(
                    keys0,
                    leave_mask(obs0),
                    i as nat,
                ),
                finished@.map_values(|f: FinishedTask<P>| f.task) == select(
                    tasks0,
                    leave_mask(obs0),
                    i as nat,
                ),
                finished@.map_values(|f: FinishedTask<P>| f.cleanup) == select(
                    cleanups0,
                    leave_mask(obs0),
                    i as nat,
                ),
            decreases rest.len(),
        {
            let (key, task) = rest.remove(0);
            let o = pending.remove(0);
            let ghost og = o;
            assert(og == obs0[i as int]);
            assert(key@ == keys0[i as int]);
            assert(task == tasks0[i as int]);
            let status_key = key.clone();
            match o {
                Observation::Running => {
                    statuses.push(StatusEntry { key: status_key, status: RunStatus::Running });
                    self.entries.push((key, task));
                },
                Observation::Unobservable => {
                    statuses.push(StatusEntry { key: status_key, status: RunStatus::Running });
                    self.entries.push((key, task));
                },
                Observation::Exited(code, err) => {
                    if code == 0 {
                        statuses.push(StatusEntry { key: status_key, status: RunStatus::Succeeded });
                        finished.push(FinishedTask { key, task, cleanup: Cleanup::Relocate });
                    } else {
                        statuses.push(
                            StatusEntry {
                                key: status_key,
                                status: RunStatus::FailedExitCode(code, err),
                            },
                        );
                        finished.push(FinishedTask { key, task, cleanup: Cleanup::DeleteStaged });
                    }
                },
                Observation::Signaled => {
                    statuses.push(StatusEntry { key: status_key, status: RunStatus::FailedSignal });
                    finished.push(FinishedTask { key, task, cleanup: Cleanup::Nothing });
                },
            }
            proof {
                assert(stay_mask(obs0)[i as int] == stays(og));
                assert(leave_mask(obs0)[i as int] == !stays(og));
                assert(cleanups0[i as int] == cleanup_of(og));
                assert(self.keys() =~= select(keys0, stay_mask(obs0), (i + 1) as nat));
                assert(self.tasks() =~= select(tasks0, stay_mask(obs0), (i + 1) as nat));
                assert(finished@.map_values(|f: FinishedTask<P>| f.key@) =~= select(
                    keys0,
                    leave_mask(obs0),
                    (i + 1) as nat,
                ));
                assert(finished@.map_values(|f: FinishedTask<P>| f.task) =~= select(
                    tasks0,
                    leave_mask(obs0),
                    (i + 1) as nat,
                ));
                assert(finished@.map_values(|f: FinishedTask<P>| f.cleanup) =~= select(
                    cleanups0,
                    leave_mask(obs0),
                    (i + 1) as nat,
                ));
            }
            i = i + 1;
        }
        proof {
            lemma_select_no_duplicates(keys0, stay_mask(obs0), n);
        }
        SweepReport { statuses, finished }
    }
}

} // verus!
