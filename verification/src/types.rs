//! Core value types of the scheduler: directions, actions, actor roles,
//! step outcomes, errors, and the action time-cost policy.

use vstd::prelude::*;

verus! {

/// A cardinal direction a move action can take.
#[derive(Clone, Copy, PartialEq, Eq, Structural, Debug, Hash)]
pub enum MoveDirection {
    North,
    South,
    East,
    West,
}

/// An action an actor performs on its turn. Each kind has a time-cost rule;
/// kinds without a dedicated rule fall back to the actor's base speed.
#[derive(Clone, Copy, PartialEq, Eq, Structural, Debug, Hash)]
pub enum Action {
    Move(MoveDirection),
    Wait,
    PickupItem,
}

/// Whether an actor needs externally supplied input (`Player`) or is driven
/// by an autonomous decision collaborator (`NonPlayerActor`).
#[derive(Clone, Copy, PartialEq, Eq, Structural, Debug)]
pub enum Role {
    Player,
    NonPlayerActor,
}

/// Errors surfaced by the registry and the engine.
#[derive(Clone, Copy, PartialEq, Eq, Structural, Debug)]
pub enum SchedulerError {
    /// `register` was called for an actor id that is already registered.
    DuplicateRegistration,
    /// An operation referenced an actor id absent from the registry.
    UnknownActor,
}

/// Outcome of one invocation of the turn resolution engine.
#[derive(Clone, Copy, PartialEq, Eq, Structural, Debug)]
pub enum StepResult {
    /// The queue is empty, or the head actor's decision is not yet supplied.
    NoActorReady,
    /// The head actor is a gated player; its gate flag is now set.
    AwaitingInput(u64),
    /// A turn resolved: this actor performed this action.
    TurnResolved(u64, Action),
}

/// Time cost of an action for an actor of the given base speed: a move and
/// every kind without a dedicated rule cost `speed`; waiting recovers faster,
/// costing `speed / wait_divisor`.
pub open spec fn spec_action_cost(action: Action, speed: u64, wait_divisor: u64) -> int
    recommends
        wait_divisor >= 1,
{
    match action {
        Action::Move(_) => speed as int,
        Action::Wait => speed as int / wait_divisor as int,
        _ => speed as int,
    }
}

/// Computes the time cost an action charges against an actor's base speed.
pub fn action_cost(action: Action, speed: u64, wait_divisor: u64) -> (cost: u64)
    requires
        wait_divisor >= 1,
    ensures
        cost == spec_action_cost(action, speed, wait_divisor),
        cost <= speed,
{
    match action {
        Action::Move(_) => speed,
        Action::Wait => speed / wait_divisor,
        _ => speed,
    }
}

} // verus!
