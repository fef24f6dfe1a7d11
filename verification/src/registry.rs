//! The actor registry: the authoritative store of per-actor scheduling
//! state — base speed, next eligible turn time, role, the input gate flag,
//! and the action attached for the coming turn.

use vstd::prelude::*;

use crate::types::{Action, Role, SchedulerError};

verus! {

/// Per-actor scheduling state held by the registry.
#[derive(Clone, Copy, PartialEq, Eq, Debug)]
pub struct ActorEntry {
    /// Stable identity of the actor, unique within the registry.
    pub id: u64,
    /// Base time cost (ticks) of a generic action; lower is faster.
    pub speed: u64,
    /// Player-controlled or autonomous.
    pub role: Role,
    /// Absolute tick at which the actor becomes eligible to act again.
    pub next_turn_time: u64,
    /// The input gate: set while the actor is blocked awaiting an action.
    pub waiting: bool,
    /// The action attached for the actor's coming turn, if any.
    pub action: Option<Action>,
}

/// Authoritative store of scheduling state per actor id, in registration
/// order.
#[derive(Debug)]
pub struct ActorRegistry {
    pub entries: Vec<ActorEntry>,
}

impl ActorRegistry {
    /// Well-formed: at most one entry per actor id.
    pub open spec fn wf(self) -> bool {
        forall|i: int, j: int|
            0 <= i < j < self.entries@.len() ==> self.entries@[i].id != self.entries@[j].id
    }

    /// The registry holds an entry for this actor.
    pub open spec fn spec_has(self, actor: u64) -> bool {
        exists|i: int| 0 <= i < self.entries@.len() && self.entries@[i].id == actor
    }

    /// Index of this actor's entry (meaningful when `spec_has(actor)`).
    pub open spec fn spec_index_of(self, actor: u64) -> int {
        choose|i: int| 0 <= i < self.entries@.len() && self.entries@[i].id == actor
    }

    /// This actor's entry (meaningful when `spec_has(actor)`).
    pub open spec fn spec_entry(self, actor: u64) -> ActorEntry {
        self.entries@[self.spec_index_of(actor)]
    }

    /// In a well-formed registry an actor's entry index is unique, so
    /// `spec_index_of` names exactly the index where the actor stands.
    pub proof fn lemma_index_of(self, i: int)
        requires
            self.wf(),
            0 <= i < self.entries@.len(),
        ensures
            self.spec_index_of(self.entries@[i].id) == i,
            self.spec_entry(self.entries@[i].id) == self.entries@[i],
    {
        let a = self.entries@[i].id;
        assert(self.spec_has(a));
        let j = self.spec_index_of(a);
        if i < j {
            assert(self.entries@[i].id != self.entries@[j].id);
        } else if j < i {
            assert(self.entries@[j].id != self.entries@[i].id);
        }
    }

    /// Creates an empty registry.
    pub fn new() -> (r: ActorRegistry)
        ensures
            r.entries@.len() == 0,
            r.wf(),
    {
        ActorRegistry { entries: Vec::new() }
    }

    /// Number of registered actors.
    pub fn len(&self) -> (n: usize)
        ensures
            n == self.entries@.len(),
    {
        self.entries.len()
    }

    /// Index of this actor's entry in the backing vector, if any.
    fn index_of_id(&self, actor: u64) -> (r: Option<usize>)
        ensures
            match r {
                Some(i) => i < self.entries@.len() && self.entries@[i as int].id == actor,
                None => !self.spec_has(actor),
            },
    {
        let mut k: usize = 0;
        while k < self.entries.len()
            invariant
                k <= self.entries@.len(),
                forall|j: int| 0 <= j < k ==> self.entries@[j].id != actor,
            decreases self.entries@.len() - k,
        {
            if self.entries[k].id == actor {
                return Some(k);
            }
            k = k + 1;
        }
        None
    }

    /// Whether this actor is registered.
    pub fn is_registered(&self, actor: u64) -> (b: bool)
        ensures
            b == self.spec_has(actor),
    {
        match self.index_of_id(actor) {
            Some(i) => {
                assert(self.spec_has(actor));
                true
            },
            None => false,
        }
    }

    /// A copy of this actor's entry, or nothing if it is not registered.
    pub fn entry_of(&self, actor: u64) -> (r: Option<ActorEntry>)
        requires
            self.wf(),
        ensures
            r == if self.spec_has(actor) {
                Some(self.spec_entry(actor))
            } else {
                Option::<ActorEntry>::None
            },
    {
        match self.index_of_id(actor) {
            Some(i) => {
                proof {
                    self.lemma_index_of(i as int);
                }
                Some(self.entries[i])
            },
            None => None,
        }
    }

    /// Registers a new actor. Rejected with `DuplicateRegistration` if the
    /// id is already present; otherwise the entry is appended with the given
    /// speed, role and initial eligibility time, gate clear and no action.
    pub fn register(&mut self, actor: u64, speed: u64, role: Role, initial_time: u64) -> (r: Result<
        (),
        SchedulerError,
    >)
        requires
            old(self).wf(),
        ensures
            final(self).wf(),
            old(self).spec_has(actor) ==> r == Err::<(), SchedulerError>(
                SchedulerError::DuplicateRegistration,
            ) && *final(self) == *old(self),
            !old(self).spec_has(actor) ==> r == Ok::<(), SchedulerError>(())
                && final(self).entries@ == old(self).entries@.push(
                ActorEntry {
                    id: actor,
                    speed,
                    role,
                    next_turn_time: initial_time,
                    waiting: false,
                    action: None,
                },
            ),
            forall|a: u64| #[trigger] final(self).spec_has(a) == (old(self).spec_has(a) || (
            !old(self).spec_has(actor) && a == actor)),
    {
        let ghost pre = *self;
        match self.index_of_id(actor) {
            Some(_) => {
                assert(pre.spec_has(actor));
                Err(SchedulerError::DuplicateRegistration)
            },
            None => {
                let entry = ActorEntry {
                    id: actor,
                    speed,
                    role,
                    next_turn_time: initial_time,
                    waiting: false,
                    action: None,
                };
                self.entries.push(entry);
                proof {
                    let s = self.entries@;
                    let last = s.len() - 1;
                    assert(s[last] == entry);
                    assert forall|a: u64| #[trigger] self.spec_has(a) == (pre.spec_has(a) || a
                        == actor) by {
                        if self.spec_has(a) {
                            let i = self.spec_index_of(a);
                            assert(0 <= i < s.len() && s[i].id == a);
                            if i < last {
                                assert(pre.entries@[i].id == a);
                                assert(pre.spec_has(a));
                            } else {
                                assert(a == actor);
                            }
                        }
                        if pre.spec_has(a) {
                            let i = pre.spec_index_of(a);
                            assert(0 <= i < pre.entries@.len() && pre.entries@[i].id == a);
                            assert(s[i].id == a);
                            assert(self.spec_has(a));
                        }
                        if a == actor {
                            assert(s[last].id == actor);
                            assert(self.spec_has(a));
                        }
                    }
                }
                Ok(())
            },
        }
    }

    /// Removes this actor's entry. Deregistering an unknown actor is an
    /// error, not a no-op.
    pub fn deregister(&mut self, actor: u64) -> (r: Result<(), SchedulerError>)
        requires
            old(self).wf(),
        ensures
            final(self).wf(),
            !old(self).spec_has(actor) ==> r == Err::<(), SchedulerError>(
                SchedulerError::UnknownActor,
            ) && *final(self) == *old(self),
            old(self).spec_has(actor) ==> r == Ok::<(), SchedulerError>(())
                && final(self).entries@ == old(self).entries@.remove(old(self).spec_index_of(actor)),
            !final(self).spec_has(actor),
            forall|a: u64| a != actor ==> #[trigger] final(self).spec_has(a) == old(self).spec_has(a),
    {
        let ghost pre = *self;
        match self.index_of_id(actor) {
            Some(i) => {
                proof {
                    pre.lemma_index_of(i as int);
                }
                self.entries.remove(i);
                proof {
                    let s = self.entries@;
                    let b = i as int;
                    assert forall|x: int, y: int| 0 <= x < y < s.len() implies s[x].id != s[y].id by {
                        let ox: int = if x < b { x } else { x + 1 };
                        let oy: int = if y < b { y } else { y + 1 };
                        assert(s[x] == pre.entries@[ox] && s[y] == pre.entries@[oy]);
                    }
                    assert forall|a: u64| a != actor implies #[trigger] self.spec_has(a)
                        == pre.spec_has(a) by {
                        if self.spec_has(a) {
                            let x = choose|x: int| 0 <= x < s.len() && s[x].id == a;
                            let ox: int = if x < b { x } else { x + 1 };
                            assert(pre.entries@[ox].id == a);
                        }
                        if pre.spec_has(a) {
                            let x = choose|x: int|
                                0 <= x < pre.entries@.len() && pre.entries@[x].id == a;
                            assert(x != b);
                            if x < b {
                                assert(s[x].id == a);
                            } else {
                                assert(s[x - 1].id == a);
                            }
                        }
                    }
                    assert(!self.spec_has(actor)) by {
                        if self.spec_has(actor) {
                            let x = self.spec_index_of(actor);
                            let ox: int = if x < b { x } else { x + 1 };
                            assert(pre.entries@[ox].id == actor);
                            pre.lemma_index_of(ox);
                        }
                    }
                }
                Ok(())
            },
            None => Err(SchedulerError::UnknownActor),
        }
    }

    /// Replaces this actor's entry with `entry`, which must keep the same
    /// id. Shared by the field-level update operations.
    fn replace_entry(&mut self, actor: u64, entry: ActorEntry) -> (r: Result<(), SchedulerError>)
        requires
            old(self).wf(),
            entry.id == actor,
        ensures
            final(self).wf(),
            !old(self).spec_has(actor) ==> r == Err::<(), SchedulerError>(
                SchedulerError::UnknownActor,
            ) && *final(self) == *old(self),
            old(self).spec_has(actor) ==> r == Ok::<(), SchedulerError>(())
                && final(self).entries@ == old(self).entries@.update(
                old(self).spec_index_of(actor),
                entry,
            ),
            forall|a: u64| #[trigger] final(self).spec_has(a) == old(self).spec_has(a),
    {
        let ghost pre = *self;
        match self.index_of_id(actor) {
            Some(i) => {
                proof {
                    pre.lemma_index_of(i as int);
                }
                self.entries[i] = entry;
                proof {
                    let s = self.entries@;
                    let b = i as int;
                    assert forall|x: int, y: int| 0 <= x < y < s.len() implies s[x].id != s[y].id by {
                        assert(pre.entries@[x].id != pre.entries@[y].id);
                    }
                    assert forall|a: u64| #[trigger] self.spec_has(a) == pre.spec_has(a) by {
                        if self.spec_has(a) {
                            let x = choose|x: int| 0 <= x < s.len() && s[x].id == a;
                            assert(pre.entries@[x].id == a);
                        }
                        if pre.spec_has(a) {
                            let x = choose|x: int|
                                0 <= x < pre.entries@.len() && pre.entries@[x].id == a;
                            assert(s[x].id == a);
                        }
                    }
                }
                Ok(())
            },
            None => Err(SchedulerError::UnknownActor),
        }
    }

    /// Sets this actor's next eligible turn time. Used by the turn
    /// resolution engine after an action's cost is applied.
    pub fn set_next_turn_time(&mut self, actor: u64, time: u64) -> (r: Result<(), SchedulerError>)
        requires
            old(self).wf(),
        ensures
            final(self).wf(),
            !old(self).spec_has(actor) ==> r == Err::<(), SchedulerError>(
                SchedulerError::UnknownActor,
            ) && *final(self) == *old(self),
            old(self).spec_has(actor) ==> r == Ok::<(), SchedulerError>(())
                && final(self).entries@ == old(self).entries@.update(
                old(self).spec_index_of(actor),
                (ActorEntry { next_turn_time: time, ..old(self).spec_entry(actor) }),
            ),
            forall|a: u64| #[trigger] final(self).spec_has(a) == old(self).spec_has(a),
    {
        let ghost pre = *self;
        match self.entry_of(actor) {
            Some(e) => self.replace_entry(actor, ActorEntry { next_turn_time: time, ..e }),
            None => Err(SchedulerError::UnknownActor),
        }
    }

    /// Sets or clears this actor's input gate flag.
    pub fn set_waiting(&mut self, actor: u64, waiting: bool) -> (r: Result<(), SchedulerError>)
        requires
            old(self).wf(),
        ensures
            final(self).wf(),
            !old(self).spec_has(actor) ==> r == Err::<(), SchedulerError>(
                SchedulerError::UnknownActor,
            ) && *final(self) == *old(self),
            old(self).spec_has(actor) ==> r == Ok::<(), SchedulerError>(())
                && final(self).entries@ == old(self).entries@.update(
                old(self).spec_index_of(actor),
                (ActorEntry { waiting, ..old(self).spec_entry(actor) }),
            ),
            forall|a: u64| #[trigger] final(self).spec_has(a) == old(self).spec_has(a),
    {
        match self.entry_of(actor) {
            Some(e) => self.replace_entry(actor, ActorEntry { waiting, ..e }),
            None => Err(SchedulerError::UnknownActor),
        }
    }

    /// Attaches the action this actor will perform on its coming turn,
    /// replacing any action already attached.
    pub fn attach_action(&mut self, actor: u64, action: Action) -> (r: Result<(), SchedulerError>)
        requires
            old(self).wf(),
        ensures
            final(self).wf(),
            !old(self).spec_has(actor) ==> r == Err::<(), SchedulerError>(
                SchedulerError::UnknownActor,
            ) && *final(self) == *old(self),
            old(self).spec_has(actor) ==> r == Ok::<(), SchedulerError>(())
                && final(self).entries@ == old(self).entries@.update(
                old(self).spec_index_of(actor),
                (ActorEntry { action: Some(action), ..old(self).spec_entry(actor) }),
            ),
            forall|a: u64| #[trigger] final(self).spec_has(a) == old(self).spec_has(a),
    {
        match self.entry_of(actor) {
            Some(e) => self.replace_entry(actor, ActorEntry { action: Some(action), ..e }),
            None => Err(SchedulerError::UnknownActor),
        }
    }

    /// Commits a resolved turn for this actor in one update: the next turn
    /// time is set, the input gate is cleared, and the consumed action is
    /// detached.
    pub fn record_resolution(&mut self, actor: u64, time: u64) -> (r: Result<(), SchedulerError>)
        requires
            old(self).wf(),
        ensures
            final(self).wf(),
            !old(self).spec_has(actor) ==> r == Err::<(), SchedulerError>(
                SchedulerError::UnknownActor,
            ) && *final(self) == *old(self),
            old(self).spec_has(actor) ==> r == Ok::<(), SchedulerError>(())
                && final(self).entries@ == old(self).entries@.update(
                old(self).spec_index_of(actor),
                (ActorEntry {
                    next_turn_time: time,
                    waiting: false,
                    action: None,
                    ..old(self).spec_entry(actor)
                }),
            ),
            forall|a: u64| #[trigger] final(self).spec_has(a) == old(self).spec_has(a),
    {
        match self.entry_of(actor) {
            Some(e) => self.replace_entry(
                actor,
                ActorEntry { next_turn_time: time, waiting: false, action: None, ..e },
            ),
            None => Err(SchedulerError::UnknownActor),
        }
    }
}

} // verus!
