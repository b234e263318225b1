//! Locks on projects, and the reports of operations that act on many tasks
//! or on many worker nodes.
use vstd::prelude::*;

verus! {

/// Store set of the worker nodes that registered.
pub const REGISTERED_WORKERS: &'static str = "REGISTERED_WORKERS";

/// Store set of the keys of the runs in progress anywhere.
pub const RUNNING_TESTS: &'static str = "RUNNING_TESTS";

/// Store set of the projects under a destructive operation.
pub const LOCKED_PROJECTS: &'static str = "LOCKED_PROJECTS";

/// Store set of the topics that some browser watches.
pub const SUBS: &'static str = "SUBS";

pub open spec fn views(v: Seq<String>) -> Seq<Seq<char>> {
    v.map_values(|s: String| s@)
}

/// Whether `v` holds the text `s`.
pub fn contains_text(v: &Vec<String>, s: &str) -> (r: bool)
    ensures
        r == views(v@).contains(s@),
{
    let p = s.to_owned();
    let mut i: usize = 0;
    while i < v.len()
        invariant
            i <= v.len(),
            p@ == s@,
            forall|j: int| 0 <= j < i ==> v@[j]@ != s@,
        decreases v.len() - i,
    {
        if v[i] == p {
            assert(views(v@)[i as int] == s@);
            return true;
        }
        i = i + 1;
    }
    proof {
        assert forall|j: int| 0 <= j < views(v@).len() implies views(v@)[j] != s@ by {
            assert(views(v@)[j] == v@[j]@);
        }
    }
    false
}

/// Whether the caller may lock `project_id`, given the locked-projects set
/// as read from the store: only where the project is not in it. A caller
/// that may not abandons the operation, which is in progress elsewhere; one
/// that may adds the project to the set, does its work, and removes the
/// project again whatever the outcome.
pub fn lock_project(locked: &Vec<String>, project_id: &str) -> (acquire: bool)
    ensures
        acquire == !views(locked@).contains(project_id@),
{
    !contains_text(locked, project_id)
}

/// `key` starts with `prefix`.
pub open spec fn starts_with(key: Seq<char>, prefix: Seq<char>) -> bool {
    prefix.len() <= key.len() && key.subrange(0, prefix.len() as int) == prefix
}

fn text_starts_with(key: &str, prefix: &str) -> (r: bool)
    ensures
        r == starts_with(key@, prefix@),
{
    let n = key.unicode_len();
    let m = prefix.unicode_len();
    if m > n {
        return false;
    }
    let mut i: usize = 0;
    while i < m
        invariant
            i <= m <= n,
            n == key@.len(),
            m == prefix@.len(),
            forall|j: int| 0 <= j < i ==> key@[j] == prefix@[j],
        decreases m - i,
    {
        if key.get_char(i) != prefix.get_char(i) {
            return false;
        }
        i = i + 1;
    }
    assert(key@.subrange(0, m as int) =~= prefix@);
    true
}

/// The keys that start with `prefix`, in order: the runs of a script, given
/// its topic key, or of a project, given its id.
pub fn keys_with_prefix(keys: &Vec<String>, prefix: &str) -> (r: Vec<String>)
    ensures
        views(r@) == views(keys@).filter(|k: Seq<char>| starts_with(k, prefix@)),
{
    let mut r: Vec<String> = Vec::new();
    let mut i: usize = 0;
    while i < keys.len()
        invariant
            i <= keys.len(),
            views(r@) == views(keys@).subrange(0, i as int).filter(
                |k: Seq<char>| starts_with(k, prefix@),
            ),
        decreases keys.len() - i,
    {
        proof {
            reveal(Seq::filter);
        }
        let ghost before = r@;
        let ghost ks = views(keys@);
        assert(ks.subrange(0, i + 1).drop_last() =~= ks.subrange(0, i as int));
        if text_starts_with(keys[i].as_str(), prefix) {
            r.push(keys[i].clone());
            assert(views(r@) =~= views(before).push(keys@[i as int]@));
        } else {
            assert(views(r@) =~= views(before));
        }
        assert(ks.subrange(0, i + 1).last() == keys@[i as int]@);
        i = i + 1;
    }
    assert(views(keys@).subrange(0, keys.len() as int) =~= views(keys@));
    r
}

/// The error text for a run that could not be killed.
pub open spec fn kill_error_line(key: Seq<char>) -> Seq<char> {
    "test: ["@ + key + "] could not be killed!\n"@
}

/// The error text of a batch of kills: one line per failure, in order.
pub open spec fn kill_errors(rs: Seq<(Seq<char>, bool)>) -> Seq<char>
    decreases rs.len(),
{
    if rs.len() == 0 {
        Seq::empty()
    } else {
        kill_errors(rs.drop_last()) + if rs.last().1 {
            Seq::<char>::empty()
        } else {
            kill_error_line(rs.last().0)
        }
    }
}

pub open spec fn outcome_views(v: Seq<(String, bool)>) -> Seq<(Seq<char>, bool)> {
    v.map_values(|p: (String, bool)| (p.0@, p.1))
}

/// The report of killing a set of runs, given whether each kill worked:
/// success when all did, and the error text of those that did not.
pub fn summarize_kills(results: &Vec<(String, bool)>) -> (r: (bool, String))
    ensures
        r.0 == forall|i: int| 0 <= i < results.len() ==> #[trigger] results@[i].1,
        r.1@ == kill_errors(outcome_views(results@)),
{
    let mut success = true;
    let mut error = String::new();
    let mut i: usize = 0;
    while i < results.len()
        invariant
            i <= results.len(),
            success == forall|j: int| 0 <= j < i ==> #[trigger] results@[j].1,
            error@ == kill_errors(outcome_views(results@).subrange(0, i as int)),
        decreases results.len() - i,
    {
        let ghost rs = outcome_views(results@);
        assert(rs.subrange(0, i + 1).drop_last() =~= rs.subrange(0, i as int));
        assert(rs.subrange(0, i + 1).last() == (results@[i as int].0@, results@[i as int].1));
        if !results[i].1 {
            success = false;
            proof {
                reveal_strlit("test: [");
                reveal_strlit("] could not be killed!\n");
            }
            error.append("test: [");
            error.append(results[i].0.as_str());
            error.append("] could not be killed!\n");
            assert(error@ =~= kill_errors(rs.subrange(0, i + 1)));
        } else {
            assert(error@ =~= kill_errors(rs.subrange(0, i + 1)));
        }
        i = i + 1;
    }
    assert(outcome_views(results@).subrange(0, results.len() as int) =~= outcome_views(
        results@,
    ));
    (success, error)
}

/// The report of one request sent to every worker node.
pub struct FanOutReport {
    /// Every worker answered (and, where answers are judged, succeeded).
    pub success: bool,
    /// One line per worker that could not be reached (or that failed).
    pub error: String,
    /// Each worker with its answer, or with the reason it has none.
    pub contents: Vec<(String, String)>,
}

/// The text that stands for the answer of a worker that could not be reached.
pub open spec fn unreachable_text() -> Seq<char> {
    "Could not connect to worker"@
}

pub open spec fn unreachable_line(worker: Seq<char>) -> Seq<char> {
    "Could not connect to worker ["@ + worker + "]\n"@
}

pub open spec fn reply_views(v: Seq<(String, Option<String>)>) -> Seq<(Seq<char>, Option<Seq<char>>)> {
    v.map_values(
        |p: (String, Option<String>)|
            (p.0@, match p.1 {
                Some(s) => Some(s@),
                None => None,
            }),
    )
}

/// The error text of a fan-out: one line per worker without an answer.
pub open spec fn unreachable_errors(rs: Seq<(Seq<char>, Option<Seq<char>>)>) -> Seq<char>
    decreases rs.len(),
{
    if rs.len() == 0 {
        Seq::empty()
    } else {
        unreachable_errors(rs.drop_last()) + match rs.last().1 {
            Some(_) => Seq::<char>::empty(),
            None => unreachable_line(rs.last().0),
        }
    }
}

/// Gathers the answers of the workers to one request. A worker that could
/// not be reached does not fail the others: the report says which did.
pub fn summarize_replies(replies: &Vec<(String, Option<String>)>) -> (r: FanOutReport)
    ensures
        r.success == forall|i: int| 0 <= i < replies.len() ==> #[trigger] replies@[i].1 is Some,
        r.error@ == unreachable_errors(reply_views(replies@)),
        r.contents.len() == replies.len(),
        forall|i: int|
            0 <= i < replies.len() ==> (#[trigger] r.contents@[i]).0@ == replies@[i].0@ && r.contents@[i].1@
                == match replies@[i].1 {
                Some(s) => s@,
                None => unreachable_text(),
            },
{
    let mut success = true;
    let mut error = String::new();
    let mut contents: Vec<(String, String)> = Vec::new();
    let mut i: usize = 0;
    while i < replies.len()
        invariant
            i <= replies.len(),
            success == forall|j: int| 0 <= j < i ==> #[trigger] replies@[j].1 is Some,
            error@ == unreachable_errors(reply_views(replies@).subrange(0, i as int)),
            contents.len() == i,
            forall|j: int|
                0 <= j < i ==> (#[trigger] contents@[j]).0@ == replies@[j].0@ && contents@[j].1@
                    == match replies@[j].1 {
                    Some(s) => s@,
                    None => unreachable_text(),
                },
        decreases replies.len() - i,
    {
        let ghost rs = reply_views(replies@);
        assert(rs.subrange(0, i + 1).drop_last() =~= rs.subrange(0, i as int));
        let worker = replies[i].0.clone();
        match &replies[i].1 {
            Some(answer) => {
                assert(rs.subrange(0, i + 1).last().1 is Some);
                contents.push((worker, answer.clone()));
                assert(error@ =~= unreachable_errors(rs.subrange(0, i + 1)));
            },
            None => {
                success = false;
                proof {
                    reveal_strlit("Could not connect to worker [");
                    reveal_strlit("]\n");
                }
                assert(rs.subrange(0, i + 1).last() == (replies@[i as int].0@, None::<Seq<char>>));
                error.append("Could not connect to worker [");
                error.append(worker.as_str());
                error.append("]\n");
                assert(error@ =~= unreachable_errors(rs.subrange(0, i + 1)));
                contents.push((worker, String::from_str("Could not connect to worker")));
            },
        }
        i = i + 1;
    }
    assert(reply_views(replies@).subrange(0, replies.len() as int) =~= reply_views(replies@));
    FanOutReport { success, error, contents }
}

/// A worker's answer to a request to stop runs, as read from its reply.
pub struct WorkerAnswer {
    /// The reply as it came.
    pub text: String,
    /// The worker stopped everything it was asked to.
    pub success: bool,
    /// What went wrong, where something did.
    pub error: String,
}

pub open spec fn answer_views(v: Seq<(String, Option<WorkerAnswer>)>) -> Seq<
    (Seq<char>, Option<(bool, Seq<char>)>),
> {
    v.map_values(
        |p: (String, Option<WorkerAnswer>)|
            (p.0@, match p.1 {
                Some(a) => Some((a.success, a.error@)),
                None => None,
            }),
    )
}

/// The error text of a stop sent to every worker: for each worker in order,
/// the error it gave where it failed, or a line saying that it could not be
/// reached.
pub open spec fn stop_errors(rs: Seq<(Seq<char>, Option<(bool, Seq<char>)>)>) -> Seq<char>
    decreases rs.len(),
{
    if rs.len() == 0 {
        Seq::empty()
    } else {
        stop_errors(rs.drop_last()) + match rs.last().1 {
            Some((true, _)) => Seq::<char>::empty(),
            Some((false, e)) => e + seq!['\n'],
            None => unreachable_line(rs.last().0),
        }
    }
}

/// Gathers the answers of the workers to a request to stop a project's
/// runs. It succeeds only where every worker was reached and stopped its
/// runs; a worker that failed or could not be reached does not hide the
/// others: the report says, worker by worker, what each answered.
pub fn summarize_stops(replies: &Vec<(String, Option<WorkerAnswer>)>) -> (r: FanOutReport)
    ensures
        r.success == forall|i: int|
            0 <= i < replies.len() ==> #[trigger] replies@[i].1 is Some && replies@[i].1->0.success,
        r.error@ == stop_errors(answer_views(replies@)),
        r.contents.len() == replies.len(),
        forall|i: int|
            0 <= i < replies.len() ==> (#[trigger] r.contents@[i]).0@ == replies@[i].0@
                && r.contents@[i].1@ == match replies@[i].1 {
                Some(a) => a.text@,
                None => unreachable_text(),
            },
{
    let mut success = true;
    let mut error = String::new();
    let mut contents: Vec<(String, String)> = Vec::new();
    let mut i: usize = 0;
    while i < replies.len()
        invariant
            i <= replies.len(),
            success == forall|j: int|
                0 <= j < i ==> #[trigger] replies@[j].1 is Some && replies@[j].1->0.success,
            error@ == stop_errors(answer_views(replies@).subrange(0, i as int)),
            contents.len() == i,
            forall|j: int|
                0 <= j < i ==> (#[trigger] contents@[j]).0@ == replies@[j].0@ && contents@[j].1@
                    == match replies@[j].1 {
                    Some(a) => a.text@,
                    None => unreachable_text(),
                },
        decreases replies.len() - i,
    {
        let ghost rs = answer_views(replies@);
        assert(rs.subrange(0, i + 1).drop_last() =~= rs.subrange(0, i as int));
        assert(rs.subrange(0, i + 1).last() == rs[i as int]);
        let worker = replies[i].0.clone();
        match &replies[i].1 {
            Some(answer) => {
                if !answer.success {
                    success = false;
                    proof {
                        reveal_strlit("\n");
                    }
                    error.append(answer.error.as_str());
                    error.append("\n");
                }
                assert(error@ =~= stop_errors(rs.subrange(0, i + 1)));
                contents.push((worker, answer.text.clone()));
            },
            None => {
                success = false;
                proof {
                    reveal_strlit("Could not connect to worker [");
                    reveal_strlit("]\n");
                }
                error.append("Could not connect to worker [");
                error.append(worker.as_str());
                error.append("]\n");
                assert(error@ =~= stop_errors(rs.subrange(0, i + 1)));
                contents.push((worker, String::from_str("Could not connect to worker")));
            },
        }
        i = i + 1;
    }
    assert(answer_views(replies@).subrange(0, replies.len() as int) =~= answer_views(replies@));
    FanOutReport { success, error, contents }
}

} // verus!
