//! Turn-order scheduler for a turn-based, grid-world simulation.
//!
//! The crate decides, at every simulation step, which actor acts next, how
//! much simulated time its action consumes, and how the actor re-enters the
//! schedule afterwards. Actors are either player-controlled (their turn is
//! gated on externally supplied input) or autonomous (their action is
//! attached by a decision collaborator before their turn resolves).

pub mod engine;
pub mod grid;
pub mod queue;
pub mod registry;
pub mod spawn;
pub mod types;

pub use engine::TurnEngine;
pub use grid::{Cell, OccupancyMap, Position, TerrainType};
pub use queue::{QueueEntry, TurnQueue};
pub use registry::{ActorEntry, ActorRegistry};
pub use types::{Action, MoveDirection, Role, SchedulerError, StepResult};
