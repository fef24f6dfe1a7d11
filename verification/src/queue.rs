//! The turn queue: a priority structure over actors' next-turn times.
//!
//! Entries are kept in insertion order; the head is the entry with the
//! smallest time, ties broken by insertion order (the earliest-inserted of
//! the minimal entries), which makes resolution deterministic and
//! reproducible. The queue also carries the global clock, which advances
//! only when an entry is popped, catching up to the popped entry's time.

use vstd::prelude::*;

verus! {

/// One queue entry: an actor id paired with the absolute tick at which the
/// actor becomes eligible to act.
#[derive(Clone, Copy, PartialEq, Eq, Structural, Debug)]
pub struct QueueEntry {
    pub actor: u64,
    pub time: u64,
}

/// Time-ordered priority structure over actors' next-turn times, plus the
/// global clock.
#[derive(Debug)]
pub struct TurnQueue {
    pub entries: Vec<QueueEntry>,
    pub current_time: u64,
}

impl TurnQueue {
    /// Well-formed: at most one entry per actor.
    pub open spec fn wf(self) -> bool {
        forall|i: int, j: int|
            0 <= i < j < self.entries@.len() ==> self.entries@[i].actor != self.entries@[j].actor
    }

    /// The queue holds an entry for this actor.
    pub open spec fn spec_has(self, actor: u64) -> bool {
        exists|i: int| 0 <= i < self.entries@.len() && self.entries@[i].actor == actor
    }

    /// Index of this actor's entry (meaningful when `spec_has(actor)`).
    pub open spec fn spec_index_of(self, actor: u64) -> int {
        choose|i: int| 0 <= i < self.entries@.len() && self.entries@[i].actor == actor
    }

    /// `i` is the resolution head: the first index holding the minimal time.
    /// Entries before it are strictly later; entries after it are no earlier.
    pub open spec fn is_first(self, i: int) -> bool {
        seq_is_first(self.entries@, i)
    }

    /// The head index (meaningful when the queue is non-empty).
    pub open spec fn spec_first_index(self) -> int {
        choose|i: int| self.is_first(i)
    }

    /// The head entry (meaningful when the queue is non-empty).
    pub open spec fn spec_head(self) -> QueueEntry {
        self.entries@[self.spec_first_index()]
    }

    /// What `peek_next` returns: the head actor and its time, or nothing.
    pub open spec fn spec_peek(self) -> Option<(u64, u64)> {
        if self.entries@.len() == 0 {
            None
        } else {
            Some((self.spec_head().actor, self.spec_head().time))
        }
    }

    /// A non-empty queue has a head: the first index attaining the minimum.
    pub proof fn lemma_first_exists(self)
        requires
            self.entries@.len() > 0,
        ensures
            self.is_first(self.spec_first_index()),
    {
        lemma_seq_first_exists(self.entries@);
        let w = choose|i: int| seq_is_first(self.entries@, i);
        assert(self.is_first(w));
    }

    /// The head index is unique: any two indices satisfying `is_first` agree.
    pub proof fn lemma_first_unique(self, i: int, j: int)
        requires
            self.is_first(i),
            self.is_first(j),
        ensures
            i == j,
    {
        if i < j {
            assert(self.entries@[i].time > self.entries@[j].time);
            assert(self.entries@[i].time <= self.entries@[j].time);
        } else if j < i {
            assert(self.entries@[j].time > self.entries@[i].time);
            assert(self.entries@[j].time <= self.entries@[i].time);
        }
    }

    /// In a well-formed queue, an actor's entry index is unique, so
    /// `spec_index_of` names exactly the index where the actor was found.
    pub proof fn lemma_index_of(self, i: int)
        requires
            self.wf(),
            0 <= i < self.entries@.len(),
        ensures
            self.spec_index_of(self.entries@[i].actor) == i,
    {
        let a = self.entries@[i].actor;
        assert(self.spec_has(a));
        let j = self.spec_index_of(a);
        assert(0 <= j < self.entries@.len() && self.entries@[j].actor == a);
        if i < j {
            assert(self.entries@[i].actor != self.entries@[j].actor);
        } else if j < i {
            assert(self.entries@[j].actor != self.entries@[i].actor);
        }
    }

    /// Creates an empty queue with the clock at tick zero.
    pub fn new() -> (q: TurnQueue)
        ensures
            q.entries@.len() == 0,
            q.current_time == 0,
            q.wf(),
    {
        TurnQueue { entries: Vec::new(), current_time: 0 }
    }

    /// Read-only accessor for the global clock.
    pub fn current_time(&self) -> (t: u64)
        ensures
            t == self.current_time,
    {
        self.current_time
    }

    /// Number of scheduled entries.
    pub fn len(&self) -> (n: usize)
        ensures
            n == self.entries@.len(),
    {
        self.entries.len()
    }

    /// Whether this actor currently has an entry.
    pub fn contains_actor(&self, actor: u64) -> (b: bool)
        ensures
            b == self.spec_has(actor),
    {
        let mut k: usize = 0;
        while k < self.entries.len()
            invariant
                k <= self.entries@.len(),
                forall|j: int| 0 <= j < k ==> self.entries@[j].actor != actor,
            decreases self.entries@.len() - k,
        {
            if self.entries[k].actor == actor {
                assert(self.spec_has(actor));
                return true;
            }
            k = k + 1;
        }
        false
    }

    /// Index of this actor's entry in the backing vector, if any.
    fn index_of_actor(&self, actor: u64) -> (r: Option<usize>)
        ensures
            match r {
                Some(i) => i < self.entries@.len() && self.entries@[i as int].actor == actor,
                None => !self.spec_has(actor),
            },
    {
        let mut k: usize = 0;
        while k < self.entries.len()
            invariant
                k <= self.entries@.len(),
                forall|j: int| 0 <= j < k ==> self.entries@[j].actor != actor,
            decreases self.entries@.len() - k,
        {
            if self.entries[k].actor == actor {
                return Some(k);
            }
            k = k + 1;
        }
        None
    }

    /// Inserts or updates this actor's eligibility time. An existing entry is
    /// replaced, never duplicated; the (re)scheduled entry goes to the back,
    /// so among equal times it resolves after the entries already present.
    /// The clock is untouched.
    pub fn schedule(&mut self, actor: u64, time: u64)
        requires
            old(self).wf(),
        ensures
            final(self).wf(),
            final(self).current_time == old(self).current_time,
            old(self).spec_has(actor) ==> final(self).entries@ == old(self).entries@.remove(
                old(self).spec_index_of(actor),
            ).push(QueueEntry { actor, time }),
            !old(self).spec_has(actor) ==> final(self).entries@ == old(self).entries@.push(
                QueueEntry { actor, time },
            ),
            final(self).spec_has(actor),
            forall|a: u64| #[trigger] final(self).spec_has(a) == (old(self).spec_has(a) || a == actor),
    {
        let ghost pre = *self;
        let found = self.index_of_actor(actor);
        match found {
            Some(i) => {
                proof {
                    pre.lemma_index_of(i as int);
                }
                self.entries.remove(i);
            },
            None => {
                assert(!pre.spec_has(actor));
            },
        }
        self.entries.push(QueueEntry { actor, time });
        proof {
            let s = self.entries@;
            let last = s.len() - 1;
            assert(s[last].actor == actor);
            assert forall|i: int, j: int| 0 <= i < j < s.len() implies s[i].actor != s[j].actor by {
                if j < last {
                    if pre.spec_has(actor) {
                        let fi = pre.spec_index_of(actor);
                        let r = pre.entries@.remove(fi);
                        assert(s[i] == r[i] && s[j] == r[j]);
                    }
                } else {
                    // s[j] is the new entry; earlier entries are the old ones
                    // with the actor's old entry (if any) removed.
                    if pre.spec_has(actor) {
                        let fi = pre.spec_index_of(actor);
                        let r = pre.entries@.remove(fi);
                        assert(s[i] == r[i]);
                        if i < fi {
                            assert(r[i] == pre.entries@[i]);
                            assert(pre.entries@[i].actor != pre.entries@[fi].actor);
                        } else {
                            assert(r[i] == pre.entries@[i + 1]);
                            assert(pre.entries@[i + 1].actor != pre.entries@[fi].actor);
                        }
                    }
                }
            }
            assert forall|a: u64| #[trigger] self.spec_has(a) == (pre.spec_has(a) || a == actor) by {
                if self.spec_has(a) {
                    let i = self.spec_index_of(a);
                    assert(0 <= i < s.len() && s[i].actor == a);
                    if i < last && pre.spec_has(actor) {
                        let fi = pre.spec_index_of(actor);
                        let r = pre.entries@.remove(fi);
                        if i < fi {
                            assert(pre.entries@[i].actor == a);
                        } else {
                            assert(pre.entries@[i + 1].actor == a);
                        }
                    } else if i < last {
                        assert(pre.entries@[i].actor == a);
                    }
                }
                if pre.spec_has(a) && a != actor {
                    let i = choose|i: int|
                        0 <= i < pre.entries@.len() && pre.entries@[i].actor == a;
                    if pre.spec_has(actor) {
                        let fi = pre.spec_index_of(actor);
                        if i < fi {
                            assert(s[i].actor == a);
                        } else {
                            assert(i != fi);
                            assert(s[i - 1].actor == a);
                        }
                    } else {
                        assert(s[i].actor == a);
                    }
                }
            }
        }
    }

    /// Returns the head actor and its time without mutating anything: the
    /// result is a function of the queue state alone.
    pub fn peek_next(&self) -> (r: Option<(u64, u64)>)
        ensures
            r == self.spec_peek(),
    {
        if self.entries.len() == 0 {
            return None;
        }
        let mut best: usize = 0;
        let mut k: usize = 1;
        while k < self.entries.len()
            invariant
                best < k <= self.entries@.len(),
                self.entries@.len() > 0,
                forall|j: int| 0 <= j < best ==> self.entries@[j].time > self.entries@[best as int].time,
                forall|j: int| best < j < k ==> self.entries@[j].time >= self.entries@[best as int].time,
            decreases self.entries@.len() - k,
        {
            if self.entries[k].time < self.entries[best].time {
                best = k;
            }
            k = k + 1;
        }
        proof {
            assert(self.is_first(best as int));
            self.lemma_first_exists();
            self.lemma_first_unique(best as int, self.spec_first_index());
        }
        Some((self.entries[best].actor, self.entries[best].time))
    }

    /// Removes and returns the head entry — the only mutating pop — and
    /// advances the global clock to the popped time if that time is later.
    pub fn advance_to_next(&mut self) -> (r: Option<(u64, u64)>)
        requires
            old(self).wf(),
        ensures
            final(self).wf(),
            r == old(self).spec_peek(),
            old(self).entries@.len() == 0 ==> *final(self) == *old(self),
            old(self).entries@.len() > 0 ==> {
                &&& final(self).entries@ == old(self).entries@.remove(old(self).spec_first_index())
                &&& final(self).current_time == if old(self).spec_head().time > old(self).current_time {
                    old(self).spec_head().time
                } else {
                    old(self).current_time
                }
                &&& !final(self).spec_has(old(self).spec_head().actor)
                &&& forall|a: u64|
                    a != old(self).spec_head().actor ==> #[trigger] final(self).spec_has(a) == old(
                        self,
                    ).spec_has(a)
            },
    {
        let ghost pre = *self;
        if self.entries.len() == 0 {
            return None;
        }
        let mut best: usize = 0;
        let mut k: usize = 1;
        while k < self.entries.len()
            invariant
                *self == pre,
                best < k <= self.entries@.len(),
                self.entries@.len() > 0,
                forall|j: int| 0 <= j < best ==> self.entries@[j].time > self.entries@[best as int].time,
                forall|j: int| best < j < k ==> self.entries@[j].time >= self.entries@[best as int].time,
            decreases self.entries@.len() - k,
        {
            if self.entries[k].time < self.entries[best].time {
                best = k;
            }
            k = k + 1;
        }
        proof {
            assert(pre.is_first(best as int));
            pre.lemma_first_exists();
            pre.lemma_first_unique(best as int, pre.spec_first_index());
        }
        let head = self.entries.remove(best);
        if head.time > self.current_time {
            self.current_time = head.time;
        }
        proof {
            let s = self.entries@;
            let b = best as int;
            let removed = pre.entries@[b].actor;
            assert forall|i: int, j: int| 0 <= i < j < s.len() implies s[i].actor != s[j].actor by {
                let oi: int = if i < b { i } else { i + 1 };
                let oj: int = if j < b { j } else { j + 1 };
                assert(s[i] == pre.entries@[oi] && s[j] == pre.entries@[oj]);
            }
            assert(!self.spec_has(removed)) by {
                if self.spec_has(removed) {
                    let i = self.spec_index_of(removed);
                    let oi: int = if i < b { i } else { i + 1 };
                    assert(pre.entries@[oi].actor == removed);
                    assert(pre.entries@[b].actor == removed);
                }
            }
            assert forall|a: u64| a != removed implies #[trigger] self.spec_has(a) == pre.spec_has(
                a,
            ) by {
                if self.spec_has(a) {
                    let i = self.spec_index_of(a);
                    let oi: int = if i < b { i } else { i + 1 };
                    assert(pre.entries@[oi].actor == a);
                }
                if pre.spec_has(a) {
                    let i = choose|i: int|
                        0 <= i < pre.entries@.len() && pre.entries@[i].actor == a;
                    assert(i != b);
                    if i < b {
                        assert(s[i].actor == a);
                    } else {
                        assert(s[i - 1].actor == a);
                    }
                }
            }
        }
        Some((head.actor, head.time))
    }

    /// Removes this actor's entry, if present; the clock is untouched.
    /// Returns whether an entry was removed.
    pub fn remove_actor(&mut self, actor: u64) -> (removed: bool)
        requires
            old(self).wf(),
        ensures
            final(self).wf(),
            final(self).current_time == old(self).current_time,
            removed == old(self).spec_has(actor),
            removed ==> final(self).entries@ == old(self).entries@.remove(
                old(self).spec_index_of(actor),
            ),
            !removed ==> *final(self) == *old(self),
            !final(self).spec_has(actor),
            forall|a: u64| a != actor ==> #[trigger] final(self).spec_has(a) == old(self).spec_has(a),
    {
        let ghost pre = *self;
        let mut k: usize = 0;
        while k < self.entries.len()
            invariant
                *self == pre,
                pre == *old(self),
                pre.wf(),
                k <= self.entries@.len(),
                forall|j: int| 0 <= j < k ==> self.entries@[j].actor != actor,
            decreases self.entries@.len() - k,
        {
            if self.entries[k].actor == actor {
                proof {
                    pre.lemma_index_of(k as int);
                }
                self.entries.remove(k);
                proof {
                    let s = self.entries@;
                    let b = k as int;
                    assert forall|i: int, j: int| 0 <= i < j < s.len() implies s[i].actor != s[j].actor by {
                        let oi: int = if i < b { i } else { i + 1 };
                        let oj: int = if j < b { j } else { j + 1 };
                        assert(s[i] == pre.entries@[oi] && s[j] == pre.entries@[oj]);
                    }
                    assert forall|a: u64| a != actor implies #[trigger] self.spec_has(a) == pre.spec_has(a) by {
                        if self.spec_has(a) {
                            let i = self.spec_index_of(a);
                            let oi: int = if i < b { i } else { i + 1 };
                            assert(pre.entries@[oi].actor == a);
                        }
                        if pre.spec_has(a) {
                            let i = choose|i: int|
                                0 <= i < pre.entries@.len() && pre.entries@[i].actor == a;
                            assert(i != b);
                            if i < b {
                                assert(s[i].actor == a);
                            } else {
                                assert(s[i - 1].actor == a);
                            }
                        }
                    }
                    assert(!self.spec_has(actor)) by {
                        if self.spec_has(actor) {
                            let i = self.spec_index_of(actor);
                            let oi: int = if i < b { i } else { i + 1 };
                            assert(pre.entries@[oi].actor == actor);
                            pre.lemma_index_of(oi);
                        }
                    }
                }
                return true;
            }
            k = k + 1;
        }
        assert(!pre.spec_has(actor));
        false
    }
}

impl TurnQueue {
    /// Law: of two scheduled actors with distinct eligibility times, the one
    /// with the smaller time resolves first, regardless of the order in which
    /// they were inserted — the entry with the larger time is never the head
    /// while the other is still queued.
    pub proof fn lemma_earlier_time_resolves_first(self, i: int, j: int)
        requires
            0 <= i < self.entries@.len(),
            0 <= j < self.entries@.len(),
            self.entries@[i].time < self.entries@[j].time,
        ensures
            !self.is_first(j),
            self.spec_first_index() != j,
    {
        assert(!self.is_first(j)) by {
            if self.is_first(j) {
                if i < j {
                    assert(self.entries@[i].time > self.entries@[j].time);
                } else {
                    assert(j < i);
                    assert(self.entries@[i].time >= self.entries@[j].time);
                }
            }
        }
        self.lemma_first_exists();
    }

    /// Law: of two scheduled actors with equal eligibility times, the
    /// earlier-inserted resolves first — insertion order is the deterministic
    /// tie-break, so the later-inserted entry is never the head while both
    /// are queued.
    pub proof fn lemma_equal_time_insertion_order(self, i: int, j: int)
        requires
            0 <= i < j < self.entries@.len(),
            self.entries@[i].time == self.entries@[j].time,
        ensures
            !self.is_first(j),
            self.spec_first_index() != j,
    {
        assert(!self.is_first(j)) by {
            if self.is_first(j) {
                assert(self.entries@[i].time > self.entries@[j].time);
            }
        }
        self.lemma_first_exists();
    }

    /// Law: peeking is idempotent. `peek_next` borrows the queue immutably
    /// and returns `spec_peek`, a function of the queue state alone; so any
    /// number of consecutive calls without an intervening pop return the same
    /// head and leave the clock unchanged.
    pub proof fn lemma_peek_idempotent(q1: TurnQueue, q2: TurnQueue)
        requires
            q1 == q2,
        ensures
            q1.spec_peek() == q2.spec_peek(),
            q1.current_time == q2.current_time,
    {
    }

    /// Law: turns resolve in non-decreasing time order. The head's time is
    /// a lower bound for every scheduled entry, so no pop ever returns an
    /// earlier time than the entries that stay behind.
    pub proof fn lemma_head_is_earliest(self)
        requires
            self.entries@.len() > 0,
        ensures
            forall|i: int|
                0 <= i < self.entries@.len() ==> (#[trigger] self.entries@[i]).time
                    >= self.spec_head().time,
    {
        self.lemma_first_exists();
        let fi = self.spec_first_index();
        assert forall|i: int| 0 <= i < self.entries@.len() implies (
        #[trigger] self.entries@[i]).time >= self.entries@[fi].time by {
            if i < fi {
                assert(self.entries@[i].time > self.entries@[fi].time);
            }
        }
    }

    /// An actor with no entry is never the head: after it is removed from
    /// the queue, `peek_next` returns some other actor, or nothing.
    pub proof fn lemma_absent_actor_not_head(self, actor: u64)
        requires
            !self.spec_has(actor),
        ensures
            self.spec_peek() matches Some(pair) ==> pair.0 != actor,
    {
        if self.entries@.len() > 0 {
            self.lemma_first_exists();
            let i = self.spec_first_index();
            assert(0 <= i < self.entries@.len());
            if self.entries@[i].actor == actor {
                assert(self.spec_has(actor));
            }
        }
    }

    /// Law: `schedule(actor, time)` followed immediately by `peek_next`
    /// returns that actor with that time, whenever the new entry is the
    /// unique minimum (every other entry of the resulting queue is strictly
    /// later). `pre` and `post` are the queue before and after the
    /// `schedule` call, related exactly as `schedule`'s contract states.
    pub proof fn lemma_schedule_then_peek(pre: TurnQueue, post: TurnQueue, actor: u64, time: u64)
        requires
            pre.wf(),
            post.entries@ == if pre.spec_has(actor) {
                pre.entries@.remove(pre.spec_index_of(actor)).push(QueueEntry { actor, time })
            } else {
                pre.entries@.push(QueueEntry { actor, time })
            },
            forall|i: int| 0 <= i < post.entries@.len() - 1 ==> post.entries@[i].time > time,
        ensures
            post.spec_peek() == Some((actor, time)),
    {
        let s = post.entries@;
        let last = s.len() - 1;
        assert(s[last] == QueueEntry { actor, time });
        assert(post.is_first(last));
        post.lemma_first_exists();
        post.lemma_first_unique(last, post.spec_first_index());
    }
}

/// `i` is the first index of `s` attaining the minimal time: every earlier
/// entry is strictly later, every later entry is no earlier.
pub open spec fn seq_is_first(s: Seq<QueueEntry>, i: int) -> bool {
    &&& 0 <= i < s.len()
    &&& forall|j: int| 0 <= j < i ==> s[j].time > s[i].time
    &&& forall|j: int| i < j < s.len() ==> s[j].time >= s[i].time
}

/// Every non-empty entry sequence has a first minimal index.
pub proof fn lemma_seq_first_exists(s: Seq<QueueEntry>)
    requires
        s.len() > 0,
    ensures
        exists|i: int| seq_is_first(s, i),
    decreases s.len(),
{
    if s.len() == 1 {
        assert(seq_is_first(s, 0));
    } else {
        let t = s.drop_last();
        lemma_seq_first_exists(t);
        let k = choose|i: int| seq_is_first(t, i);
        let last = s.len() - 1;
        assert(forall|j: int| 0 <= j < t.len() ==> t[j] == s[j]);
        if s[last].time < s[k].time {
            assert(seq_is_first(s, last));
        } else {
            assert(seq_is_first(s, k));
        }
    }
}

} // verus!
