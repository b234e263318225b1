//! The subscription registry: a reference-counted local channel per topic,
//! mirrored into the store's active-subscriptions set, and the routing of
//! events that arrive from the store.
use vstd::prelude::*;

verus! {

/// Event that announces a started run.
pub const TEST_STARTED: &'static str = "TEST_STARTED";

/// Event that carries the status of the runs of a script.
pub const UPDATE_TEST_INFO: &'static str = "UPDATE";

/// Event that announces a stopped run.
pub const TEST_STOPPED: &'static str = "TEST_STOPPED";

/// Event that announces a deleted run.
pub const TEST_DELETED: &'static str = "TEST_DELETED";

/// Event that announces a deleted project.
pub const PROJECT_DELETED: &'static str = "PROJECT_DELETED";

/// Event with the cluster-wide counters.
pub const INFORMATION: &'static str = "INFORMATION";

/// Event with the state of the projects being installed.
pub const PROJECTS: &'static str = "PROJECTS";

/// The topic that receives the events of every script.
pub const GLOBAL_TOPIC: &'static str = "all";

/// The store channel on which workers publish their events.
pub const MAIN_CHANNEL: &'static str = "main_channel";

/// The events of a run's life that the bridge forwards to a topic.
pub open spec fn is_lifecycle_event(event_type: Seq<char>) -> bool {
    event_type == TEST_STARTED@ || event_type == UPDATE_TEST_INFO@ || event_type == TEST_STOPPED@
}

/// What became of a topic after one of its subscribers left.
#[derive(PartialEq, Eq, Structural, Clone, Copy, Debug)]
pub enum Unsubscribed {
    /// That was the last subscriber: the topic is gone and must leave the
    /// active-subscriptions set.
    Removed,
    /// This many subscribers remain.
    Remaining(u32),
    /// The topic had no subscriber.
    Unknown,
}

/// The subscriber count of `t` in `m`, 0 where it has none.
pub open spec fn count_in(m: Map<Seq<char>, nat>, t: Seq<char>) -> nat {
    if m.contains_key(t) {
        m[t]
    } else {
        0
    }
}

/// The subscriber counts after a subscriber of `t` joined.
pub open spec fn subscribed(m: Map<Seq<char>, nat>, t: Seq<char>) -> Map<Seq<char>, nat> {
    m.insert(t, count_in(m, t) + 1)
}

/// The subscriber counts after a subscriber of `t` left: the topic goes
/// with its last subscriber.
pub open spec fn unsubscribed(m: Map<Seq<char>, nat>, t: Seq<char>) -> Map<Seq<char>, nat> {
    if count_in(m, t) == 0 {
        m
    } else if count_in(m, t) == 1 {
        m.remove(t)
    } else {
        m.insert(t, (count_in(m, t) - 1) as nat)
    }
}

/// The active-subscriptions set after a subscriber of `t` joined the
/// registry with counts `m`: the first one adds the topic.
pub open spec fn mirror_subscribed(a: Set<Seq<char>>, m: Map<Seq<char>, nat>, t: Seq<char>) -> Set<
    Seq<char>,
> {
    if count_in(m, t) == 0 {
        a.insert(t)
    } else {
        a
    }
}

/// The active-subscriptions set after a subscriber of `t` left: the last
/// one removes the topic.
pub open spec fn mirror_unsubscribed(a: Set<Seq<char>>, m: Map<Seq<char>, nat>, t: Seq<char>) -> Set<
    Seq<char>,
> {
    if count_in(m, t) == 1 {
        a.remove(t)
    } else {
        a
    }
}

/// Counts and active set after `n` subscribers of `t` joined, one by one.
pub open spec fn subscribe_n(m: Map<Seq<char>, nat>, a: Set<Seq<char>>, t: Seq<char>, n: nat) -> (
    Map<Seq<char>, nat>,
    Set<Seq<char>>,
)
    decreases n,
{
    if n == 0 {
        (m, a)
    } else {
        subscribe_n(subscribed(m, t), mirror_subscribed(a, m, t), t, (n - 1) as nat)
    }
}

/// Counts and active set after `n` subscribers of `t` left, one by one.
pub open spec fn unsubscribe_n(m: Map<Seq<char>, nat>, a: Set<Seq<char>>, t: Seq<char>, n: nat) -> (
    Map<Seq<char>, nat>,
    Set<Seq<char>>,
)
    decreases n,
{
    if n == 0 {
        (m, a)
    } else {
        unsubscribe_n(unsubscribed(m, t), mirror_unsubscribed(a, m, t), t, (n - 1) as nat)
    }
}

proof fn lemma_subscribe_n(m: Map<Seq<char>, nat>, a: Set<Seq<char>>, t: Seq<char>, n: nat)
    requires
        n >= 1,
    ensures
        subscribe_n(m, a, t, n) == (m.insert(t, count_in(m, t) + n), if count_in(m, t) == 0 {
            a.insert(t)
        } else {
            a
        }),
    decreases n,
{
    if n > 1 {
        lemma_subscribe_n(subscribed(m, t), mirror_subscribed(a, m, t), t, (n - 1) as nat);
        assert(subscribed(m, t).insert(t, count_in(subscribed(m, t), t) + (n - 1) as nat) =~= m.insert(
            t,
            count_in(m, t) + n,
        ));
        if count_in(m, t) == 0 {
            assert(a.insert(t).insert(t) =~= a.insert(t));
        }
    } else {
        assert(subscribe_n(subscribed(m, t), mirror_subscribed(a, m, t), t, 0) == (
            subscribed(m, t),
            mirror_subscribed(a, m, t),
        ));
    }
}

proof fn lemma_unsubscribe_n(m: Map<Seq<char>, nat>, a: Set<Seq<char>>, t: Seq<char>, n: nat)
    requires
        n >= 1,
        m.contains_key(t),
        m[t] == n,
    ensures
        unsubscribe_n(m, a, t, n) == (m.remove(t), a.remove(t)),
    decreases n,
{
    if n > 1 {
        let m1 = unsubscribed(m, t);
        assert(m1 == m.insert(t, (n - 1) as nat));
        lemma_unsubscribe_n(m1, a, t, (n - 1) as nat);
        assert(m1.remove(t) =~= m.remove(t));
    } else {
        assert(unsubscribe_n(unsubscribed(m, t), mirror_unsubscribed(a, m, t), t, 0) == (
            unsubscribed(m, t),
            mirror_unsubscribed(a, m, t),
        ));
    }
}

/// `n` subscribers that join a topic that the registry and the
/// active-subscriptions set do not hold, and then all leave, leave both as
/// they were: the topic absent from each, every other topic untouched.
pub proof fn lemma_balanced_subscriptions_leave_nothing(
    m: Map<Seq<char>, nat>,
    a: Set<Seq<char>>,
    t: Seq<char>,
    n: nat,
)
    requires
        !m.contains_key(t),
        !a.contains(t),
    ensures
        ({
            let (m2, a2) = subscribe_n(m, a, t, n);
            unsubscribe_n(m2, a2, t, n)
        }) == (m, a),
{
    if n >= 1 {
        lemma_subscribe_n(m, a, t, n);
        let m1 = m.insert(t, n);
        assert(count_in(m, t) == 0);
        assert(subscribe_n(m, a, t, n) == (m1, a.insert(t)));
        lemma_unsubscribe_n(m1, a.insert(t), t, n);
        assert(m1.remove(t) =~= m);
        assert(a.insert(t).remove(t) =~= a);
    }
}

struct Subscription<C> {
    topic: String,
    count: u32,
    channel: C,
}

/// Topics with at least one local subscriber, each with its count and its
/// fan-out channel.
pub struct SubscriptionRegistry<C> {
    entries: Vec<Subscription<C>>,
    counts: Ghost<Map<Seq<char>, nat>>,
    channels: Ghost<Map<Seq<char>, C>>,
}

impl<C> SubscriptionRegistry<C> {
    /// Subscriber count of each topic that has one.
    pub closed spec fn counts(&self) -> Map<Seq<char>, nat> {
        self.counts@
    }

    /// The channel of each topic that has a subscriber.
    pub closed spec fn channels(&self) -> Map<Seq<char>, C> {
        self.channels@
    }

    /// The subscriber count of `t`, 0 where it has none.
    pub open spec fn count_of(&self, t: Seq<char>) -> nat {
        count_in(self.counts(), t)
    }

    pub closed spec fn wf(&self) -> bool {
        &&& forall|i: int, j: int|
            0 <= i < j < self.entries.len() ==> self.entries@[i].topic@ != self.entries@[j].topic@
        &&& forall|i: int|
            #![trigger self.entries@[i]]
            0 <= i < self.entries.len() ==> self.entries@[i].count >= 1
                && self.counts@.contains_key(self.entries@[i].topic@)
                && self.counts@[self.entries@[i].topic@] == self.entries@[i].count as nat
        &&& forall|t: Seq<char>|
            self.counts@.contains_key(t) ==> exists|i: int|
                0 <= i < self.entries.len() && self.entries@[i].topic@ == t
        &&& forall|i: int|
            #![trigger self.entries@[i]]
            0 <= i < self.entries.len() ==> self.channels@.contains_key(self.entries@[i].topic@)
                && self.channels@[self.entries@[i].topic@] == self.entries@[i].channel
        &&& forall|t: Seq<char>| self.channels@.contains_key(t) == self.counts@.contains_key(t)
    }

    /// A topic that the registry holds has at least one subscriber.
    pub proof fn lemma_present_has_subscriber(&self, t: Seq<char>)
        requires
            self.wf(),
        ensures
            self.counts().contains_key(t) ==> self.counts()[t] >= 1,
    {
        if self.counts().contains_key(t) {
            let i = choose|i: int| 0 <= i < self.entries.len() && self.entries@[i].topic@ == t;
            assert(self.entries@[i].count >= 1);
        }
    }

    pub fn new() -> (r: Self)
        ensures
            r.wf(),
            r.counts() == Map::<Seq<char>, nat>::empty(),
    {
        SubscriptionRegistry {
            entries: Vec::new(),
            counts: Ghost(Map::empty()),
            channels: Ghost(Map::empty()),
        }
    }

    fn find(&self, topic: &str) -> (r: Option<usize>)
        requires
            self.wf(),
        ensures
            match r {
                Some(i) => i < self.entries.len() && self.entries@[i as int].topic@ == topic@,
                None => !self.counts().contains_key(topic@),
            },
    {
        let t = topic.to_owned();
        let mut i: usize = 0;
        while i < self.entries.len()
            invariant
                i <= self.entries.len(),
                t@ == topic@,
                forall|j: int| 0 <= j < i ==> self.entries@[j].topic@ != topic@,
            decreases self.entries.len() - i,
        {
            if self.entries[i].topic == t {
                return Some(i);
            }
            i = i + 1;
        }
        None
    }

    /// Whether `topic` has a subscriber.
    pub fn contains(&self, topic: &str) -> (r: bool)
        requires
            self.wf(),
        ensures
            r == self.counts().contains_key(topic@),
    {
        match self.find(topic) {
            Some(i) => {
                proof {
                    assert(self.entries@[i as int].count >= 1);
                }
                true
            },
            None => false,
        }
    }

    /// The subscriber count of `topic`.
    pub fn count(&self, topic: &str) -> (r: u32)
        requires
            self.wf(),
        ensures
            r as nat == self.count_of(topic@),
    {
        match self.find(topic) {
            Some(i) => {
                proof {
                    assert(self.entries@[i as int].count >= 1);
                }
                self.entries[i].count
            },
            None => 0,
        }
    }

    /// A new subscriber of `topic`. Where the topic had none, `fresh` becomes
    /// its channel and the result is `Some(true)`: the topic must join the
    /// active-subscriptions set. Where it had some, the count grows and the
    /// result is `Some(false)`. A count that cannot grow refuses the
    /// subscriber with `None`, and nothing changes.
    pub fn subscribe(&mut self, topic: &str, fresh: C) -> (r: Option<bool>)
        requires
            old(self).wf(),
        ensures
            final(self).wf(),
            old(self).count_of(topic@) == u32::MAX as nat ==> r is None && final(self).counts()
                == old(self).counts(),
            old(self).count_of(topic@) < u32::MAX as nat ==> r == Some(
                old(self).count_of(topic@) == 0,
            ) && final(self).counts() == old(self).counts().insert(
                topic@,
                old(self).count_of(topic@) + 1,
            ),
            r is Some ==> final(self).counts() == subscribed(old(self).counts(), topic@) && (r
                == Some(true)) == (count_in(old(self).counts(), topic@) == 0),
            r == Some(true) ==> final(self).channels() == old(self).channels().insert(
                topic@,
                fresh,
            ),
            r != Some(true) ==> final(self).channels() == old(self).channels(),
    {
        let ghost t = topic@;
        match self.find(topic) {
            Some(i) => {
                let c = self.entries[i].count;
                proof {
                    assert(self.entries@[i as int].count >= 1);
                }
                if c == u32::MAX {
                    return None;
                }
                let ghost old_entries = self.entries@;
                self.entries[i].count = c + 1;
                self.counts = Ghost(self.counts@.insert(t, (c + 1) as nat));
                assert(self.entries@[i as int].channel == old_entries[i as int].channel);
                assert(self.entries@[i as int].topic == old_entries[i as int].topic);
                proof {
                    assert forall|j: int| #![trigger self.entries@[j]] 0 <= j < self.entries.len() && j != i implies self.entries@[j] == old_entries[j] by {}
                    assert forall|x: Seq<char>| self.counts@.contains_key(x) implies exists|j: int|
                        0 <= j < self.entries.len() && self.entries@[j].topic@ == x by {
                        if x != t {
                            let j = choose|j: int| 0 <= j < old_entries.len() && old_entries[j].topic@ == x;
                            assert(self.entries@[j].topic@ == x);
                        } else {
                            assert(self.entries@[i as int].topic@ == x);
                        }
                    }
                    assert(self.counts@ =~= old(self).counts().insert(t, old(self).count_of(t) + 1));
                }
                Some(false)
            },
            None => {
                let ghost old_entries = self.entries@;
                let ghost g = fresh;
                self.entries.push(Subscription { topic: topic.to_owned(), count: 1, channel: fresh });
                self.counts = Ghost(self.counts@.insert(t, 1));
                self.channels = Ghost(self.channels@.insert(t, g));
                proof {
                    let n = self.entries.len() - 1;
                    assert forall|j: int| #![trigger self.entries@[j]] 0 <= j < n implies self.entries@[j] == old_entries[j] by {}
                    assert forall|a: int, b: int|
                        0 <= a < b < self.entries.len() implies self.entries@[a].topic@ != self.entries@[b].topic@ by {
                        if b == n {
                            assert(self.entries@[a] == old_entries[a]);
                            assert(old(self).counts().contains_key(old_entries[a].topic@));
                        }
                    }
                    assert forall|x: Seq<char>| self.counts@.contains_key(x) implies exists|j: int|
                        0 <= j < self.entries.len() && self.entries@[j].topic@ == x by {
                        if x != t {
                            let j = choose|j: int| 0 <= j < old_entries.len() && old_entries[j].topic@ == x;
                            assert(self.entries@[j].topic@ == x);
                        } else {
                            assert(self.entries@[n].topic@ == x);
                        }
                    }
                    assert(self.counts@ =~= old(self).counts().insert(t, old(self).count_of(t) + 1));
                    assert(self.channels@ =~= old(self).channels().insert(t, g));
                }
                Some(true)
            },
        }
    }

    /// A subscriber of `topic` left. When it was the last, the topic and its
    /// channel are removed, and the topic must leave the active-subscriptions
    /// set.
    pub fn unsubscribe(&mut self, topic: &str) -> (r: Unsubscribed)
        requires
            old(self).wf(),
        ensures
            final(self).wf(),
            old(self).count_of(topic@) == 0 ==> r == Unsubscribed::Unknown && final(self).counts()
                == old(self).counts(),
            old(self).count_of(topic@) == 1 ==> r == Unsubscribed::Removed && final(self).counts()
                == old(self).counts().remove(topic@),
            old(self).count_of(topic@) > 1 ==> r == Unsubscribed::Remaining(
                (old(self).count_of(topic@) - 1) as u32,
            ) && final(self).counts() == old(self).counts().insert(
                topic@,
                (old(self).count_of(topic@) - 1) as nat,
            ),
            final(self).counts() == unsubscribed(old(self).counts(), topic@),
            (r == Unsubscribed::Removed) == (count_in(old(self).counts(), topic@) == 1),
            r == Unsubscribed::Removed ==> final(self).channels() == old(self).channels().remove(
                topic@,
            ),
            r != Unsubscribed::Removed ==> final(self).channels() == old(self).channels(),
    {
        let ghost t = topic@;
        match self.find(topic) {
            None => Unsubscribed::Unknown,
            Some(i) => {
                let c = self.entries[i].count;
                proof {
                    assert(self.entries@[i as int].count >= 1);
                }
                let ghost old_entries = self.entries@;
                if c == 1 {
                    let gone = self.entries.remove(i);
                    self.counts = Ghost(self.counts@.remove(t));
                    self.channels = Ghost(self.channels@.remove(t));
                    proof {
                        assert forall|j: int| #![trigger self.entries@[j]] 0 <= j < self.entries.len() implies self.entries@[j] == old_entries[if j < i { j } else { j + 1 }] by {}
                        assert forall|a: int, b: int|
                            0 <= a < b < self.entries.len() implies self.entries@[a].topic@ != self.entries@[b].topic@ by {
                            let a2 = if a < i { a } else { a + 1 };
                            let b2 = if b < i { b } else { b + 1 };
                            assert(self.entries@[a] == old_entries[a2]);
                            assert(self.entries@[b] == old_entries[b2]);
                        }
                        assert forall|j: int| #![trigger self.entries@[j]] 0 <= j < self.entries.len() implies self.entries@[j].count >= 1
                            && self.counts@.contains_key(self.entries@[j].topic@)
                            && self.counts@[self.entries@[j].topic@] == self.entries@[j].count as nat by {
                            let j2 = if j < i { j } else { j + 1 };
                            assert(self.entries@[j] == old_entries[j2]);
                            assert(old_entries[j2].topic@ != t);
                        }
                        assert forall|x: Seq<char>| self.counts@.contains_key(x) implies exists|j: int|
                            0 <= j < self.entries.len() && self.entries@[j].topic@ == x by {
                            let j = choose|j: int| 0 <= j < old_entries.len() && old_entries[j].topic@ == x;
                            assert(j != i);
                            let j2 = if j < i { j } else { j - 1 };
                            assert(self.entries@[j2].topic@ == x);
                        }
                    }
                    Unsubscribed::Removed
                } else {
                    self.entries[i].count = c - 1;
                    self.counts = Ghost(self.counts@.insert(t, (c - 1) as nat));
                    assert(self.entries@[i as int].channel == old_entries[i as int].channel);
                    assert(self.entries@[i as int].topic == old_entries[i as int].topic);
                    proof {
                        assert forall|j: int| #![trigger self.entries@[j]] 0 <= j < self.entries.len() && j != i implies self.entries@[j] == old_entries[j] by {}
                        assert forall|x: Seq<char>| self.counts@.contains_key(x) implies exists|j: int|
                            0 <= j < self.entries.len() && self.entries@[j].topic@ == x by {
                            if x != t {
                                let j = choose|j: int| 0 <= j < old_entries.len() && old_entries[j].topic@ == x;
                                assert(self.entries@[j].topic@ == x);
                            } else {
                                assert(self.entries@[i as int].topic@ == x);
                            }
                        }
                        assert(self.counts@ =~= old(self).counts().insert(t, (old(self).count_of(t) - 1) as nat));
                    }
                    Unsubscribed::Remaining(c - 1)
                }
            },
        }
    }

    /// The channel of `topic`, where it has a subscriber.
    pub fn channel(&self, topic: &str) -> (r: Option<&C>)
        requires
            self.wf(),
        ensures
            r is Some == self.counts().contains_key(topic@),
            match r {
                Some(c) => *c == self.channels()[topic@],
                None => true,
            },
    {
        match self.find(topic) {
            Some(i) => {
                proof {
                    assert(self.entries@[i as int].count >= 1);
                }
                Some(&self.entries[i].channel)
            },
            None => None,
        }
    }

    /// Where an event that arrived from the store goes: the channel of its
    /// topic, for a run's life events whose topic has a subscriber; nowhere
    /// otherwise (a subscriber may have left since the event was published).
    pub fn route(&self, event_type: &str, topic: &str) -> (r: Option<&C>)
        requires
            self.wf(),
        ensures
            r is Some == (is_lifecycle_event(event_type@) && self.counts().contains_key(topic@)),
            match r {
                Some(c) => *c == self.channels()[topic@],
                None => true,
            },
    {
        if is_lifecycle_event_text(event_type) {
            self.channel(topic)
        } else {
            None
        }
    }

    /// The topics that have a subscriber.
    pub fn topic_list(&self) -> (r: Vec<String>)
        requires
            self.wf(),
        ensures
            forall|i: int| 0 <= i < r.len() ==> self.counts().contains_key(#[trigger] r@[i]@),
            forall|t: Seq<char>|
                self.counts().contains_key(t) ==> exists|i: int| 0 <= i < r.len() && r@[i]@ == t,
    {
        let mut r: Vec<String> = Vec::new();
        let mut i: usize = 0;
        while i < self.entries.len()
            invariant
                self.wf(),
                i <= self.entries.len(),
                r.len() == i,
                forall|j: int| 0 <= j < i ==> r@[j]@ == self.entries@[j].topic@,
            decreases self.entries.len() - i,
        {
            r.push(self.entries[i].topic.clone());
            i = i + 1;
        }
        proof {
            assert forall|j: int| 0 <= j < r.len() implies self.counts().contains_key(#[trigger] r@[j]@) by {
                assert(self.entries@[j].count >= 1);
            }
            assert forall|t: Seq<char>| self.counts().contains_key(t) implies exists|j: int|
                0 <= j < r.len() && r@[j]@ == t by {
                let j = choose|j: int| 0 <= j < self.entries.len() && self.entries@[j].topic@ == t;
                assert(r@[j]@ == t);
            }
        }
        r
    }
}

fn text_eq(a: &str, b: &str) -> (r: bool)
    ensures
        r == (a@ == b@),
{
    a.to_owned() == b.to_owned()
}

/// Whether `event_type` is one of a run's life events.
pub fn is_lifecycle_event_text(event_type: &str) -> (r: bool)
    ensures
        r == is_lifecycle_event(event_type@),
{
    text_eq(event_type, TEST_STARTED) || text_eq(event_type, UPDATE_TEST_INFO) || text_eq(
        event_type,
        TEST_STOPPED,
    )
}

} // verus!
