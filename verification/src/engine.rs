//! The turn resolution engine: the control loop deciding whose turn it is.
//!
//! One `step` inspects the head of the turn queue. A player without an
//! attached action is gated (`WaitingForInput`) and nothing else changes; an
//! autonomous actor without an action leaves everything untouched until its
//! decision collaborator supplies one. Once the head actor carries an
//! action, the entry is popped, the clock catches up to the popped time, the
//! action's cost is charged, the occupancy map is updated for an accepted
//! move, and the actor is rescheduled.

use vstd::prelude::*;

use crate::grid::{
    spec_move_applies, spec_move_dest, spec_occupancy_after_move, OccupancyMap, Position,
    MAX_MAP_DIM,
};
use crate::queue::{QueueEntry, TurnQueue};
use crate::registry::{ActorEntry, ActorRegistry};
use crate::types::{action_cost, spec_action_cost, Action, Role, SchedulerError, StepResult};

verus! {

/// The scheduler: actor registry, turn queue with the global clock, and the
/// occupancy map the engine consults when applying moves.
#[derive(Debug)]
pub struct TurnEngine {
    pub registry: ActorRegistry,
    pub queue: TurnQueue,
    pub occupancy: OccupancyMap,
    /// Next id handed out by `spawn_actor`; every registered id is below it.
    pub next_actor_id: u64,
    /// Divisor of the `Wait` recovery policy: waiting costs
    /// `speed / wait_cost_divisor` ticks.
    pub wait_cost_divisor: u64,
}

impl TurnEngine {
    /// Well-formed: the parts are well-formed, the queue holds exactly the
    /// registered actors, each queue entry carries its actor's registry
    /// time, and every registered id is below the allocation counter.
    pub open spec fn wf(self) -> bool {
        &&& self.registry.wf()
        &&& self.queue.wf()
        &&& self.occupancy.wf()
        &&& self.wait_cost_divisor >= 1
        &&& forall|a: u64| #[trigger] self.registry.spec_has(a) ==> self.queue.spec_has(a)
        &&& forall|a: u64| #[trigger] self.queue.spec_has(a) ==> self.registry.spec_has(a)
        &&& forall|i: int|
            0 <= i < self.queue.entries@.len() ==> (#[trigger] self.queue.entries@[i]).time
                == self.registry.spec_entry(self.queue.entries@[i].actor).next_turn_time
        &&& forall|i: int|
            0 <= i < self.registry.entries@.len() ==> (#[trigger] self.registry.entries@[i]).id
                < self.next_actor_id
    }

    /// No actor is scheduled.
    pub open spec fn spec_idle(self) -> bool {
        self.queue.entries@.len() == 0
    }

    /// The queue head (meaningful when not idle).
    pub open spec fn spec_head(self) -> QueueEntry {
        self.queue.spec_head()
    }

    /// The registry entry of the queue head (meaningful when not idle).
    pub open spec fn spec_head_entry(self) -> ActorEntry {
        self.registry.spec_entry(self.spec_head().actor)
    }

    /// The head is a player without an attached action: resolution
    /// suspends and the actor is marked as waiting for input.
    pub open spec fn spec_gate_pending(self) -> bool {
        !self.spec_idle() && self.spec_head_entry().role is Player
            && self.spec_head_entry().action is None
    }

    /// The head is an autonomous actor whose decision has not arrived:
    /// resolution halts with nothing changed.
    pub open spec fn spec_decision_pending(self) -> bool {
        !self.spec_idle() && self.spec_head_entry().role is NonPlayerActor
            && self.spec_head_entry().action is None
    }

    /// The head carries an action, so a turn resolves.
    pub open spec fn spec_resolvable(self) -> bool {
        !self.spec_idle() && self.spec_head_entry().action is Some
    }

    /// The clock value a resolving step commits: the old clock, caught up
    /// to the popped entry's time.
    pub open spec fn spec_resolved_clock(self) -> u64 {
        if self.spec_head().time > self.queue.current_time {
            self.spec_head().time
        } else {
            self.queue.current_time
        }
    }

    /// The cost the head actor's attached action charges.
    pub open spec fn spec_resolved_cost(self) -> int {
        spec_action_cost(
            self.spec_head_entry().action->Some_0,
            self.spec_head_entry().speed,
            self.wait_cost_divisor,
        )
    }

    /// The head actor's next eligibility time after resolution: the new
    /// clock plus the action's cost, saturating at the largest tick.
    pub open spec fn spec_resolved_time(self) -> u64 {
        if self.spec_resolved_clock() + self.spec_resolved_cost() > u64::MAX {
            u64::MAX
        } else {
            (self.spec_resolved_clock() + self.spec_resolved_cost()) as u64
        }
    }

    /// Creates an idle engine over a fresh bordered map of the given size,
    /// with the clock at zero and the customary wait recovery of half speed.
    pub fn new(width: usize, height: usize) -> (e: TurnEngine)
        requires
            1 <= width <= MAX_MAP_DIM,
            1 <= height <= MAX_MAP_DIM,
        ensures
            e.wf(),
            e.spec_idle(),
            e.registry.entries@.len() == 0,
            e.queue.current_time == 0,
            e.next_actor_id == 0,
            e.wait_cost_divisor == 2,
            e.occupancy.width == width,
            e.occupancy.height == height,
            forall|p: Position| #[trigger] e.occupancy.spec_occupant(p) is None,
    {
        TurnEngine {
            registry: ActorRegistry::new(),
            queue: TurnQueue::new(),
            occupancy: OccupancyMap::new(width, height),
            next_actor_id: 0,
            wait_cost_divisor: 2,
        }
    }

    /// Adjusts the wait recovery policy; the divisor must stay positive.
    pub fn set_wait_cost_divisor(&mut self, divisor: u64)
        requires
            old(self).wf(),
            divisor >= 1,
        ensures
            final(self).wf(),
            *final(self) == (TurnEngine { wait_cost_divisor: divisor, ..*old(self) }),
    {
        self.wait_cost_divisor = divisor;
    }

    /// Read-only accessor for the global clock.
    pub fn current_time(&self) -> (t: u64)
        ensures
            t == self.queue.current_time,
    {
        self.queue.current_time()
    }

    /// The head actor and its time, without mutating anything.
    pub fn peek_next(&self) -> (r: Option<(u64, u64)>)
        ensures
            r == self.queue.spec_peek(),
    {
        self.queue.peek_next()
    }

    /// A copy of this actor's registry entry, if it is registered.
    pub fn actor_entry(&self, actor: u64) -> (r: Option<ActorEntry>)
        requires
            self.wf(),
        ensures
            r == if self.registry.spec_has(actor) {
                Some(self.registry.spec_entry(actor))
            } else {
                Option::<ActorEntry>::None
            },
    {
        self.registry.entry_of(actor)
    }

    /// Registers a new actor with a fresh id and schedules it at the
    /// present clock value, so it acts as soon as scheduling allows.
    pub fn spawn_actor(&mut self, speed: u64, role: Role) -> (actor: u64)
        requires
            old(self).wf(),
            old(self).next_actor_id < u64::MAX,
        ensures
            final(self).wf(),
            actor == old(self).next_actor_id,
            final(self).next_actor_id == old(self).next_actor_id + 1,
            final(self).wait_cost_divisor == old(self).wait_cost_divisor,
            final(self).occupancy == old(self).occupancy,
            final(self).queue.current_time == old(self).queue.current_time,
            final(self).registry.entries@ == old(self).registry.entries@.push(
                ActorEntry {
                    id: actor,
                    speed,
                    role,
                    next_turn_time: old(self).queue.current_time,
                    waiting: false,
                    action: None,
                },
            ),
            final(self).queue.entries@ == old(self).queue.entries@.push(
                QueueEntry { actor, time: old(self).queue.current_time },
            ),
    {
        let ghost pre = *self;
        let actor = self.next_actor_id;
        self.next_actor_id = self.next_actor_id + 1;
        proof {
            assert(!pre.registry.spec_has(actor)) by {
                if pre.registry.spec_has(actor) {
                    let i = pre.registry.spec_index_of(actor);
                    assert(pre.registry.entries@[i].id == actor);
                }
            }
            assert(!pre.queue.spec_has(actor));
        }
        let now = self.queue.current_time();
        let r = self.registry.register(actor, speed, role, now);
        assert(r is Ok);
        self.queue.schedule(actor, now);
        proof {
            let post = *self;
            assert forall|i: int| 0 <= i < post.queue.entries@.len() implies (
            #[trigger] post.queue.entries@[i]).time == post.registry.spec_entry(
                post.queue.entries@[i].actor,
            ).next_turn_time by {
                let qe = post.queue.entries@[i];
                if i < post.queue.entries@.len() - 1 {
                    assert(qe == pre.queue.entries@[i]);
                    assert(qe.actor != actor) by {
                        if qe.actor == actor {
                            assert(pre.queue.spec_has(actor));
                        }
                    }
                    assert(pre.queue.spec_has(qe.actor)) by {
                        assert(pre.queue.entries@[i].actor == qe.actor);
                    }
                    assert(pre.registry.spec_has(qe.actor));
                    let ri = pre.registry.spec_index_of(qe.actor);
                    assert(post.registry.entries@[ri].id == qe.actor);
                    post.registry.lemma_index_of(ri);
                    assert(post.registry.spec_entry(qe.actor) == pre.registry.spec_entry(qe.actor));
                } else {
                    assert(qe == (QueueEntry { actor, time: pre.queue.current_time }));
                    let ri = post.registry.entries@.len() - 1;
                    assert(post.registry.entries@[ri].id == actor);
                    post.registry.lemma_index_of(ri);
                }
            }
        }
        actor
    }

    /// Inserts or updates this actor's eligibility time in the queue and the
    /// registry together. Scheduling an actor the registry does not know
    /// fails fast with `UnknownActor`.
    pub fn schedule(&mut self, actor: u64, time: u64) -> (r: Result<(), SchedulerError>)
        requires
            old(self).wf(),
        ensures
            final(self).wf(),
            !old(self).registry.spec_has(actor) ==> r == Err::<(), SchedulerError>(
                SchedulerError::UnknownActor,
            ) && *final(self) == *old(self),
            old(self).registry.spec_has(actor) ==> {
                &&& r == Ok::<(), SchedulerError>(())
                &&& final(self).queue.current_time == old(self).queue.current_time
                &&& final(self).queue.entries@ == old(self).queue.entries@.remove(
                    old(self).queue.spec_index_of(actor),
                ).push(QueueEntry { actor, time })
                &&& final(self).registry.entries@ == old(self).registry.entries@.update(
                    old(self).registry.spec_index_of(actor),
                    (ActorEntry { next_turn_time: time, ..old(self).registry.spec_entry(actor) }),
                )
                &&& final(self).occupancy == old(self).occupancy
                &&& final(self).next_actor_id == old(self).next_actor_id
                &&& final(self).wait_cost_divisor == old(self).wait_cost_divisor
            },
    {
        let ghost pre = *self;
        if !self.registry.is_registered(actor) {
            return Err(SchedulerError::UnknownActor);
        }
        let res = self.registry.set_next_turn_time(actor, time);
        assert(res is Ok);
        self.queue.schedule(actor, time);
        proof {
            self.lemma_relink(
                pre,
                actor,
                time,
                ActorEntry { next_turn_time: time, ..pre.registry.spec_entry(actor) },
            );
        }
        Ok(())
    }

    /// Re-establishes the queue/registry link after this actor's registry
    /// entry was replaced with one carrying `time` and it was (re)scheduled
    /// in the queue at `time`.
    proof fn lemma_relink(self, pre: TurnEngine, actor: u64, time: u64, new_entry: ActorEntry)
        requires
            pre.wf(),
            pre.registry.spec_has(actor),
            new_entry.id == actor,
            new_entry.next_turn_time == time,
            self.registry.entries@ == pre.registry.entries@.update(
                pre.registry.spec_index_of(actor),
                new_entry,
            ),
            self.queue.entries@ == (if pre.queue.spec_has(actor) {
                pre.queue.entries@.remove(pre.queue.spec_index_of(actor))
            } else {
                pre.queue.entries@
            }).push(QueueEntry { actor, time }),
            self.registry.wf(),
            self.queue.wf(),
            self.occupancy.wf(),
            self.next_actor_id == pre.next_actor_id,
            self.wait_cost_divisor == pre.wait_cost_divisor,
        ensures
            self.wf(),
    {
        let ri = pre.registry.spec_index_of(actor);
        assert(0 <= ri < pre.registry.entries@.len() && pre.registry.entries@[ri].id == actor);
        assert(self.registry.entries@[ri].id == actor);
        let mid: Seq<QueueEntry> = if pre.queue.spec_has(actor) {
            pre.queue.entries@.remove(pre.queue.spec_index_of(actor))
        } else {
            pre.queue.entries@
        };
        let s = self.queue.entries@;
        let last = s.len() - 1;
        assert(s == mid.push(QueueEntry { actor, time }));
        assert(s[last] == (QueueEntry { actor, time }));
        // Every interior entry of the new queue is an old entry of another
        // actor.
        assert forall|i: int| #![trigger s[i]] 0 <= i < last implies exists|oi: int|
            0 <= oi < pre.queue.entries@.len() && #[trigger] pre.queue.entries@[oi] == s[i] by {
            if pre.queue.spec_has(actor) {
                let qi = pre.queue.spec_index_of(actor);
                assert(0 <= qi < pre.queue.entries@.len());
                let oi: int = if i < qi {
                    i
                } else {
                    i + 1
                };
                assert(s[i] == mid[i]);
                assert(mid[i] == pre.queue.entries@[oi]);
            } else {
                assert(s[i] == pre.queue.entries@[i]);
            }
        }
        // Registry membership is unchanged by the update.
        assert forall|a: u64| #[trigger] self.registry.spec_has(a) implies pre.registry.spec_has(
            a,
        ) by {
            let i = self.registry.spec_index_of(a);
            assert(self.registry.entries@[i].id == a);
            assert(pre.registry.entries@[i].id == a);
        }
        assert forall|a: u64| #[trigger] pre.registry.spec_has(a) implies self.registry.spec_has(
            a,
        ) by {
            let i = pre.registry.spec_index_of(a);
            assert(pre.registry.entries@[i].id == a);
            assert(self.registry.entries@[i].id == a);
        }
        // Queue membership matches registry membership.
        assert forall|a: u64| #[trigger] self.queue.spec_has(a) implies self.registry.spec_has(
            a,
        ) by {
            let i = self.queue.spec_index_of(a);
            assert(0 <= i < s.len() && s[i].actor == a);
            if i < last {
                let oi = choose|oi: int|
                    0 <= oi < pre.queue.entries@.len() && #[trigger] pre.queue.entries@[oi] == s[i];
                assert(pre.queue.entries@[oi].actor == a);
                assert(pre.queue.spec_has(a));
                assert(pre.registry.spec_has(a));
            } else {
                assert(a == actor);
                assert(pre.registry.spec_has(actor));
            }
        }
        assert forall|a: u64| #[trigger] self.registry.spec_has(a) implies self.queue.spec_has(
            a,
        ) by {
            if a == actor {
                assert(s[last].actor == actor);
            } else {
                assert(pre.registry.spec_has(a));
                assert(pre.queue.spec_has(a));
                let i = pre.queue.spec_index_of(a);
                assert(0 <= i < pre.queue.entries@.len() && pre.queue.entries@[i].actor == a);
                if pre.queue.spec_has(actor) {
                    let qi = pre.queue.spec_index_of(actor);
                    pre.queue.lemma_index_of(i);
                    pre.queue.lemma_index_of(qi);
                    assert(i != qi);
                    if i < qi {
                        assert(s[i] == mid[i]);
                        assert(mid[i] == pre.queue.entries@[i]);
                        assert(s[i].actor == a);
                    } else {
                        assert(s[i - 1] == mid[i - 1]);
                        assert(mid[i - 1] == pre.queue.entries@[i]);
                        assert(s[i - 1].actor == a);
                    }
                } else {
                    assert(s[i].actor == a);
                }
            }
        }
        // Each queue entry carries its actor's registry time.
        assert forall|i: int| 0 <= i < s.len() implies (#[trigger] s[i]).time
            == self.registry.spec_entry(s[i].actor).next_turn_time by {
            if i == last {
                self.registry.lemma_index_of(ri);
                assert(self.registry.spec_entry(actor) == self.registry.entries@[ri]);
            } else {
                let oi = choose|oi: int|
                    0 <= oi < pre.queue.entries@.len() && #[trigger] pre.queue.entries@[oi] == s[i];
                let a = s[i].actor;
                assert(a != actor) by {
                    if a == actor {
                        assert(pre.queue.entries@[oi].actor == actor);
                        assert(pre.queue.spec_has(actor));
                        let qi = pre.queue.spec_index_of(actor);
                        pre.queue.lemma_index_of(oi);
                        assert(oi == qi);
                        // But index qi was removed, so s[i] cannot map to it.
                        assert(s[i] == mid[i]);
                        if i < qi {
                            assert(mid[i] == pre.queue.entries@[i]);
                            pre.queue.lemma_index_of(i);
                        } else {
                            assert(mid[i] == pre.queue.entries@[i + 1]);
                            pre.queue.lemma_index_of(i + 1);
                        }
                    }
                }
                assert(s[i].time == pre.registry.spec_entry(a).next_turn_time);
                assert(pre.registry.spec_has(a)) by {
                    assert(pre.queue.entries@[oi].actor == a);
                    assert(pre.queue.spec_has(a));
                }
                let pri = pre.registry.spec_index_of(a);
                assert(pre.registry.entries@[pri].id == a);
                assert(pri != ri);
                assert(self.registry.entries@[pri] == pre.registry.entries@[pri]);
                self.registry.lemma_index_of(pri);
                assert(self.registry.spec_entry(a) == pre.registry.spec_entry(a));
            }
        }
        // The id bound is unchanged.
        assert forall|i: int| 0 <= i < self.registry.entries@.len() implies (
        #[trigger] self.registry.entries@[i]).id < self.next_actor_id by {
            assert(pre.registry.entries@[i].id < pre.next_actor_id);
        }
    }

    /// Attaches the action this actor will perform on its coming turn.
    /// Referencing an unregistered actor fails with `UnknownActor`.
    pub fn attach_action(&mut self, actor: u64, action: Action) -> (r: Result<(), SchedulerError>)
        requires
            old(self).wf(),
        ensures
            final(self).wf(),
            !old(self).registry.spec_has(actor) ==> r == Err::<(), SchedulerError>(
                SchedulerError::UnknownActor,
            ) && *final(self) == *old(self),
            old(self).registry.spec_has(actor) ==> {
                &&& r == Ok::<(), SchedulerError>(())
                &&& final(self).registry.entries@ == old(self).registry.entries@.update(
                    old(self).registry.spec_index_of(actor),
                    (ActorEntry { action: Some(action), ..old(self).registry.spec_entry(actor) }),
                )
                &&& final(self).queue == old(self).queue
                &&& final(self).occupancy == old(self).occupancy
                &&& final(self).next_actor_id == old(self).next_actor_id
                &&& final(self).wait_cost_divisor == old(self).wait_cost_divisor
            },
    {
        let ghost pre = *self;
        let r = self.registry.attach_action(actor, action);
        proof {
            if pre.registry.spec_has(actor) {
                self.lemma_same_ids_same_times(pre);
            }
        }
        r
    }

    /// Re-establishes the engine invariant after a registry update that
    /// changed neither any id nor any next turn time.
    proof fn lemma_same_ids_same_times(self, pre: TurnEngine)
        requires
            pre.wf(),
            self.registry.wf(),
            self.registry.entries@.len() == pre.registry.entries@.len(),
            forall|i: int|
                0 <= i < pre.registry.entries@.len() ==> (#[trigger] self.registry.entries@[i]).id
                    == pre.registry.entries@[i].id && self.registry.entries@[i].next_turn_time
                    == pre.registry.entries@[i].next_turn_time,
            self.queue == pre.queue,
            self.occupancy == pre.occupancy,
            self.next_actor_id == pre.next_actor_id,
            self.wait_cost_divisor == pre.wait_cost_divisor,
        ensures
            self.wf(),
    {
        assert forall|a: u64| #[trigger] self.registry.spec_has(a) implies pre.registry.spec_has(
            a,
        ) by {
            let i = self.registry.spec_index_of(a);
            assert(self.registry.entries@[i].id == a);
            assert(pre.registry.entries@[i].id == a);
        }
        assert forall|a: u64| #[trigger] pre.registry.spec_has(a) implies self.registry.spec_has(
            a,
        ) by {
            let i = pre.registry.spec_index_of(a);
            assert(pre.registry.entries@[i].id == a);
            assert(self.registry.entries@[i].id == a);
        }
        assert forall|i: int| 0 <= i < self.queue.entries@.len() implies (
        #[trigger] self.queue.entries@[i]).time == self.registry.spec_entry(
            self.queue.entries@[i].actor,
        ).next_turn_time by {
            let qe = self.queue.entries@[i];
            assert(pre.queue.spec_has(qe.actor));
            assert(pre.registry.spec_has(qe.actor));
            let ri = pre.registry.spec_index_of(qe.actor);
            assert(pre.registry.entries@[ri].id == qe.actor);
            assert(self.registry.entries@[ri].id == qe.actor);
            self.registry.lemma_index_of(ri);
            assert(self.registry.spec_entry(qe.actor) == self.registry.entries@[ri]);
            assert(qe.time == pre.registry.spec_entry(qe.actor).next_turn_time);
        }
        assert forall|i: int| 0 <= i < self.registry.entries@.len() implies (
        #[trigger] self.registry.entries@[i]).id < self.next_actor_id by {
            assert(pre.registry.entries@[i].id < pre.next_actor_id);
        }
    }

    /// Re-establishes the engine invariant after this actor was removed
    /// from both the registry and the queue.
    proof fn lemma_unlink(self, pre: TurnEngine, actor: u64)
        requires
            pre.wf(),
            pre.registry.spec_has(actor),
            self.registry.entries@ == pre.registry.entries@.remove(
                pre.registry.spec_index_of(actor),
            ),
            self.queue.entries@ == pre.queue.entries@.remove(pre.queue.spec_index_of(actor)),
            self.registry.wf(),
            self.queue.wf(),
            self.occupancy.wf(),
            self.next_actor_id == pre.next_actor_id,
            self.wait_cost_divisor == pre.wait_cost_divisor,
        ensures
            self.wf(),
    {
        let ri = pre.registry.spec_index_of(actor);
        assert(0 <= ri < pre.registry.entries@.len() && pre.registry.entries@[ri].id == actor);
        assert(pre.queue.spec_has(actor));
        let qi = pre.queue.spec_index_of(actor);
        assert(0 <= qi < pre.queue.entries@.len() && pre.queue.entries@[qi].actor == actor);
        let s = self.queue.entries@;
        let t = self.registry.entries@;
        assert forall|a: u64| #[trigger] self.queue.spec_has(a) implies self.registry.spec_has(
            a,
        ) by {
            let i = self.queue.spec_index_of(a);
            let oi: int = if i < qi {
                i
            } else {
                i + 1
            };
            assert(s[i] == pre.queue.entries@[oi]);
            assert(pre.queue.spec_has(a));
            assert(a != actor) by {
                if a == actor {
                    pre.queue.lemma_index_of(oi);
                }
            }
            assert(pre.registry.spec_has(a));
            let pri = pre.registry.spec_index_of(a);
            assert(pre.registry.entries@[pri].id == a);
            assert(pri != ri);
            let nri: int = if pri < ri {
                pri
            } else {
                pri - 1
            };
            assert(t[nri] == pre.registry.entries@[pri]);
            assert(t[nri].id == a);
        }
        assert forall|a: u64| #[trigger] self.registry.spec_has(a) implies self.queue.spec_has(
            a,
        ) by {
            let i = self.registry.spec_index_of(a);
            let oi: int = if i < ri {
                i
            } else {
                i + 1
            };
            assert(t[i] == pre.registry.entries@[oi]);
            assert(pre.registry.spec_has(a));
            assert(a != actor) by {
                if a == actor {
                    pre.registry.lemma_index_of(oi);
                }
            }
            assert(pre.queue.spec_has(a));
            let pqi = pre.queue.spec_index_of(a);
            assert(pre.queue.entries@[pqi].actor == a);
            assert(pqi != qi);
            let nqi: int = if pqi < qi {
                pqi
            } else {
                pqi - 1
            };
            assert(s[nqi] == pre.queue.entries@[pqi]);
            assert(s[nqi].actor == a);
        }
        assert forall|i: int| 0 <= i < s.len() implies (#[trigger] s[i]).time
            == self.registry.spec_entry(s[i].actor).next_turn_time by {
            let oi: int = if i < qi {
                i
            } else {
                i + 1
            };
            assert(s[i] == pre.queue.entries@[oi]);
            let a = s[i].actor;
            assert(a != actor) by {
                if a == actor {
                    pre.queue.lemma_index_of(oi);
                }
            }
            assert(s[i].time == pre.registry.spec_entry(a).next_turn_time);
            assert(pre.queue.spec_has(a));
            assert(pre.registry.spec_has(a));
            let pri = pre.registry.spec_index_of(a);
            assert(pre.registry.entries@[pri].id == a);
            assert(pri != ri);
            let nri: int = if pri < ri {
                pri
            } else {
                pri - 1
            };
            assert(t[nri] == pre.registry.entries@[pri]);
            self.registry.lemma_index_of(nri);
            assert(self.registry.spec_entry(a) == pre.registry.spec_entry(a));
        }
        assert forall|i: int| 0 <= i < t.len() implies (#[trigger] t[i]).id
            < self.next_actor_id by {
            let oi: int = if i < ri {
                i
            } else {
                i + 1
            };
            assert(t[i] == pre.registry.entries@[oi]);
        }
    }

    /// Removes this actor from the registry, the turn queue, and the
    /// occupancy map together — partial deregistration never happens; the
    /// gate, if set, vanishes with the registry entry. Deregistering an
    /// unknown actor fails with `UnknownActor`.
    pub fn deregister_actor(&mut self, actor: u64) -> (r: Result<(), SchedulerError>)
        requires
            old(self).wf(),
        ensures
            final(self).wf(),
            !old(self).registry.spec_has(actor) ==> r == Err::<(), SchedulerError>(
                SchedulerError::UnknownActor,
            ) && *final(self) == *old(self),
            old(self).registry.spec_has(actor) ==> {
                &&& r == Ok::<(), SchedulerError>(())
                &&& final(self).registry.entries@ == old(self).registry.entries@.remove(
                    old(self).registry.spec_index_of(actor),
                )
                &&& final(self).queue.entries@ == old(self).queue.entries@.remove(
                    old(self).queue.spec_index_of(actor),
                )
                &&& !final(self).registry.spec_has(actor)
                &&& !final(self).queue.spec_has(actor)
                &&& final(self).queue.current_time == old(self).queue.current_time
                &&& final(self).occupancy.spec_pos_of(actor) is None
                &&& forall|b: u64|
                    b != actor ==> #[trigger] final(self).occupancy.spec_pos_of(b) == old(
                        self,
                    ).occupancy.spec_pos_of(b)
                &&& forall|q: Position|
                    #[trigger] final(self).occupancy.spec_occupant(q) == (if old(
                        self,
                    ).occupancy.spec_occupant(q) == Some(actor) {
                        None::<u64>
                    } else {
                        old(self).occupancy.spec_occupant(q)
                    })
                &&& final(self).next_actor_id == old(self).next_actor_id
                &&& final(self).wait_cost_divisor == old(self).wait_cost_divisor
            },
    {
        let ghost pre = *self;
        if !self.registry.is_registered(actor) {
            return Err(SchedulerError::UnknownActor);
        }
        match self.occupancy.position_of(actor) {
            Some(p) => {
                proof {
                    pre.occupancy.lemma_pos_of_occupant(actor, p);
                }
                self.occupancy.set_occupant(p, None);
                proof {
                    assert forall|q: Position| #[trigger] self.occupancy.spec_occupant(q) == (
                    if pre.occupancy.spec_occupant(q) == Some(actor) {
                        None::<u64>
                    } else {
                        pre.occupancy.spec_occupant(q)
                    }) by {
                        if q != p && pre.occupancy.spec_occupant(q) == Some(actor) {
                            pre.occupancy.lemma_pos_of_occupant(actor, q);
                        }
                    }
                }
            },
            None => {
                proof {
                    assert forall|q: Position| #[trigger] self.occupancy.spec_occupant(q) == (
                    if pre.occupancy.spec_occupant(q) == Some(actor) {
                        None::<u64>
                    } else {
                        pre.occupancy.spec_occupant(q)
                    }) by {
                        if pre.occupancy.spec_occupant(q) == Some(actor) {
                            pre.occupancy.lemma_pos_of_occupant(actor, q);
                        }
                    }
                }
            },
        }
        let res = self.registry.deregister(actor);
        assert(res is Ok);
        let removed = self.queue.remove_actor(actor);
        proof {
            assert(pre.queue.spec_has(actor));
            assert(removed);
            self.lemma_unlink(pre, actor);
            assert(self.occupancy.spec_pos_of(actor) is None) by {
                if self.occupancy.spec_pos_of(actor) is Some {
                    let q = self.occupancy.spec_pos_of(actor)->Some_0;
                    self.occupancy.lemma_pos_of_occupant(actor, q);
                    assert(self.occupancy.spec_occupant(q) == Some(actor));
                }
            }
        }
        Ok(())
    }

    /// Runs one turn resolution attempt, as the host simulation loop's
    /// explicit entry point.
    ///
    /// - An empty queue is an idle no-op.
    /// - A player at the head without an attached action gets its gate set
    ///   (kept set if already gated) and everything else — queue, clock,
    ///   occupancy — stays untouched, however often this repeats.
    /// - An autonomous head actor without an action leaves everything
    ///   untouched, gate included, until its decision arrives.
    /// - A head actor with an action resolves: the entry is popped, the
    ///   clock catches up to the popped time, the action's cost is charged
    ///   (a move costs `speed`, waiting costs `speed / wait_cost_divisor`,
    ///   every other kind defaults to `speed`), an accepted move updates the
    ///   occupancy map while a move onto an occupied or impassable cell
    ///   leaves it untouched at the same cost, the waiting mark comes off,
    ///   the action is consumed, and the actor is rescheduled at the new
    ///   time.
    pub fn step(&mut self) -> (r: StepResult)
        requires
            old(self).wf(),
        ensures
            final(self).wf(),
            final(self).next_actor_id == old(self).next_actor_id,
            final(self).wait_cost_divisor == old(self).wait_cost_divisor,
            final(self).queue.current_time >= old(self).queue.current_time,
            old(self).spec_idle() ==> r == StepResult::NoActorReady && *final(self) == *old(self),
            old(self).spec_gate_pending() ==> {
                &&& r == StepResult::AwaitingInput(old(self).spec_head().actor)
                &&& final(self).queue == old(self).queue
                &&& final(self).occupancy == old(self).occupancy
                &&& final(self).registry.entries@ == old(self).registry.entries@.update(
                    old(self).registry.spec_index_of(old(self).spec_head().actor),
                    (ActorEntry { waiting: true, ..old(self).spec_head_entry() }),
                )
            },
            old(self).spec_decision_pending() ==> r == StepResult::NoActorReady && *final(self)
                == *old(self),
            old(self).spec_resolvable() ==> {
                &&& r == StepResult::TurnResolved(
                    old(self).spec_head().actor,
                    old(self).spec_head_entry().action->Some_0,
                )
                &&& final(self).queue.current_time == old(self).spec_resolved_clock()
                &&& final(self).queue.entries@ == old(self).queue.entries@.remove(
                    old(self).queue.spec_first_index(),
                ).push(
                    QueueEntry {
                        actor: old(self).spec_head().actor,
                        time: old(self).spec_resolved_time(),
                    },
                )
                &&& final(self).registry.entries@ == old(self).registry.entries@.update(
                    old(self).registry.spec_index_of(old(self).spec_head().actor),
                    (ActorEntry {
                        next_turn_time: old(self).spec_resolved_time(),
                        waiting: false,
                        action: None,
                        ..old(self).spec_head_entry()
                    }),
                )
                &&& (match old(self).spec_head_entry().action->Some_0 {
                    Action::Move(direction) => if spec_move_applies(
                        old(self).occupancy,
                        old(self).spec_head().actor,
                        direction,
                    ) {
                        spec_occupancy_after_move(
                            old(self).occupancy,
                            final(self).occupancy,
                            old(self).spec_head().actor,
                            old(self).occupancy.spec_pos_of(old(self).spec_head().actor)->Some_0,
                            spec_move_dest(
                                old(self).occupancy.spec_pos_of(
                                    old(self).spec_head().actor,
                                )->Some_0,
                                direction,
                            ),
                        )
                    } else {
                        final(self).occupancy == old(self).occupancy
                    },
                    _ => final(self).occupancy == old(self).occupancy,
                })
            },
    {
        let ghost pre = *self;
        let peeked = self.queue.peek_next();
        let (actor, head_time) = match peeked {
            None => {
                return StepResult::NoActorReady;
            },
            Some(pair) => pair,
        };
        proof {
            pre.queue.lemma_first_exists();
            let fi = pre.queue.spec_first_index();
            assert(pre.queue.entries@[fi].actor == actor);
            assert(pre.queue.spec_has(actor));
            assert(pre.registry.spec_has(actor));
            pre.queue.lemma_index_of(fi);
        }
        let entry = match self.registry.entry_of(actor) {
            Some(e) => e,
            None => {
                return StepResult::NoActorReady;
            },
        };
        assert(entry == pre.spec_head_entry());
        match entry.action {
            None => {
                match entry.role {
                    Role::Player => {
                        let res = self.registry.set_waiting(actor, true);
                        assert(res is Ok);
                        proof {
                            let ri = pre.registry.spec_index_of(actor);
                            assert forall|i: int|
                                0 <= i < pre.registry.entries@.len() implies (
                            #[trigger] self.registry.entries@[i]).id == pre.registry.entries@[i].id
                                && self.registry.entries@[i].next_turn_time
                                == pre.registry.entries@[i].next_turn_time by {
                                if i != ri {
                                    assert(self.registry.entries@[i] == pre.registry.entries@[i]);
                                }
                            }
                            self.lemma_same_ids_same_times(pre);
                        }
                        StepResult::AwaitingInput(actor)
                    },
                    Role::NonPlayerActor => StepResult::NoActorReady,
                }
            },
            Some(act) => {
                let popped = self.queue.advance_to_next();
                proof {
                    assert(popped == Some((actor, head_time)));
                }
                let now = self.queue.current_time();
                assert(now == pre.spec_resolved_clock());
                let cost = action_cost(act, entry.speed, self.wait_cost_divisor);
                let new_time: u64 = if cost <= u64::MAX - now {
                    now + cost
                } else {
                    u64::MAX
                };
                assert(new_time == pre.spec_resolved_time());
                match act {
                    Action::Move(direction) => {
                        let _moved = self.occupancy.try_move(actor, direction);
                    },
                    _ => {},
                }
                let res = self.registry.record_resolution(actor, new_time);
                assert(res is Ok);
                self.queue.schedule(actor, new_time);
                proof {
                    let mid_q = pre.queue.entries@.remove(pre.queue.spec_first_index());
                    assert(self.queue.entries@ == mid_q.push(
                        QueueEntry { actor, time: new_time },
                    ));
                    assert(pre.queue.spec_index_of(actor) == pre.queue.spec_first_index());
                    self.lemma_relink(
                        pre,
                        actor,
                        new_time,
                        ActorEntry {
                            next_turn_time: new_time,
                            waiting: false,
                            action: None,
                            ..pre.registry.spec_entry(actor)
                        },
                    );
                }
                StepResult::TurnResolved(actor, act)
            },
        }
    }

    /// Law: a resolving step never schedules into the past. The committed
    /// clock is no earlier than either the previous clock or the popped
    /// time, and the resolved actor's new eligibility time is no earlier
    /// than the committed clock — so, with the head's time bounding every
    /// remaining entry, turns resolve in non-decreasing time order.
    pub proof fn lemma_resolution_never_rewinds(self)
        requires
            self.wf(),
            self.spec_resolvable(),
        ensures
            self.spec_resolved_clock() >= self.queue.current_time,
            self.spec_resolved_clock() >= self.spec_head().time,
            self.spec_resolved_time() >= self.spec_resolved_clock(),
    {
        assert(self.spec_resolved_cost() >= 0) by {
            let entry = self.spec_head_entry();
            match entry.action->Some_0 {
                Action::Wait => {
                    assert((entry.speed as int) / (self.wait_cost_divisor as int) >= 0) by (nonlinear_arith)
                        requires
                            entry.speed >= 0,
                            self.wait_cost_divisor >= 1,
                    ;
                },
                _ => {},
            }
        }
    }

    /// Law: a player-tagged actor at the head of the queue with no attached
    /// action is stable under resolution. One `step` on `pre` yields `post`:
    /// the result is `AwaitingInput`, the queue and the clock are untouched,
    /// and only the head's gate flag is (re)set — exactly `step`'s contract
    /// for such a state. Every further `step` then changes nothing at
    /// all: `post` satisfies `spec_gate_pending` again with the same head,
    /// and marking the head as waiting once more leaves the registry as it
    /// already stands.
    pub proof fn lemma_gated_player_stable(pre: TurnEngine, post: TurnEngine)
        requires
            pre.wf(),
            post.wf(),
            pre.spec_gate_pending(),
            post.queue == pre.queue,
            post.occupancy == pre.occupancy,
            post.next_actor_id == pre.next_actor_id,
            post.wait_cost_divisor == pre.wait_cost_divisor,
            post.registry.entries@ == pre.registry.entries@.update(
                pre.registry.spec_index_of(pre.spec_head().actor),
                (ActorEntry { waiting: true, ..pre.spec_head_entry() }),
            ),
        ensures
            post.spec_gate_pending(),
            post.spec_head() == pre.spec_head(),
            post.spec_head_entry().waiting,
            post.registry.entries@.update(
                post.registry.spec_index_of(post.spec_head().actor),
                (ActorEntry { waiting: true, ..post.spec_head_entry() }),
            ) == post.registry.entries@,
    {
        let actor = pre.spec_head().actor;
        pre.queue.lemma_first_exists();
        let fi = pre.queue.spec_first_index();
        assert(pre.queue.entries@[fi].actor == actor);
        assert(pre.queue.spec_has(actor));
        assert(pre.registry.spec_has(actor));
        let ri = pre.registry.spec_index_of(actor);
        assert(pre.registry.entries@[ri].id == actor);
        assert(post.registry.entries@[ri] == (ActorEntry { waiting: true, ..pre.spec_head_entry() }));
        assert(post.registry.entries@[ri].id == actor);
        post.registry.lemma_index_of(ri);
        assert(post.registry.spec_index_of(actor) == ri);
        assert(post.spec_head() == pre.spec_head());
        assert(post.spec_head_entry() == post.registry.entries@[ri]);
        assert(post.spec_head_entry().waiting);
        assert(post.spec_head_entry().role is Player);
        assert(post.spec_head_entry().action is None);
        let again = ActorEntry { waiting: true, ..post.spec_head_entry() };
        assert(again == post.registry.entries@[ri]);
        assert(post.registry.entries@.update(ri, again) =~= post.registry.entries@);
    }
}

} // verus!
