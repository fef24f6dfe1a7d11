use turn_scheduler::engine::TurnEngine;
use turn_scheduler::queue::TurnQueue;
use turn_scheduler::registry::ActorRegistry;
use turn_scheduler::spawn::{spawn_player, valid_spawn_positions};
use turn_scheduler::types::{action_cost, Action, MoveDirection, Role, SchedulerError, StepResult};
use turn_scheduler::{OccupancyMap, Position, TerrainType};

#[test]
fn smaller_time_resolves_first_regardless_of_registration_order() {
    let mut q = TurnQueue::new();
    q.schedule(1, 10);
    q.schedule(2, 5);
    assert_eq!(q.peek_next(), Some((2, 5)));
    assert_eq!(q.advance_to_next(), Some((2, 5)));
    assert_eq!(q.advance_to_next(), Some((1, 10)));

    let mut q2 = TurnQueue::new();
    q2.schedule(2, 5);
    q2.schedule(1, 10);
    assert_eq!(q2.advance_to_next(), Some((2, 5)));
    assert_eq!(q2.advance_to_next(), Some((1, 10)));
}

#[test]
fn equal_times_resolve_in_insertion_order() {
    let mut q = TurnQueue::new();
    q.schedule(7, 3);
    q.schedule(8, 3);
    q.schedule(9, 3);
    assert_eq!(q.advance_to_next(), Some((7, 3)));
    assert_eq!(q.advance_to_next(), Some((8, 3)));
    assert_eq!(q.advance_to_next(), Some((9, 3)));
}

#[test]
fn peek_is_idempotent_and_keeps_clock() {
    let mut q = TurnQueue::new();
    q.schedule(1, 4);
    q.schedule(2, 9);
    let first = q.peek_next();
    assert_eq!(first, Some((1, 4)));
    assert_eq!(q.peek_next(), first);
    assert_eq!(q.peek_next(), first);
    assert_eq!(q.current_time(), 0);
    assert_eq!(q.len(), 2);
}

#[test]
fn schedule_then_peek_returns_unique_minimum() {
    let mut q = TurnQueue::new();
    q.schedule(1, 50);
    q.schedule(2, 60);
    q.schedule(9, 7);
    assert_eq!(q.peek_next(), Some((9, 7)));
}

#[test]
fn schedule_replaces_existing_entry() {
    let mut q = TurnQueue::new();
    q.schedule(1, 50);
    q.schedule(1, 5);
    assert_eq!(q.len(), 1);
    assert_eq!(q.peek_next(), Some((1, 5)));
    assert!(q.contains_actor(1));
    assert!(!q.contains_actor(2));
    assert!(q.remove_actor(1));
    assert!(!q.contains_actor(1));
    assert_eq!(q.peek_next(), None);
}

#[test]
fn gated_player_is_stable_across_repeated_steps() {
    let mut e = TurnEngine::new(6, 6);
    let player = e.spawn_actor(100, Role::Player);
    for _ in 0..3 {
        assert_eq!(e.step(), StepResult::AwaitingInput(player));
        assert_eq!(e.current_time(), 0);
        assert_eq!(e.peek_next(), Some((player, 0)));
        let entry = e.actor_entry(player).unwrap();
        assert!(entry.waiting);
        assert_eq!(entry.next_turn_time, 0);
    }
}

#[test]
fn wait_and_move_costs_follow_the_scenario() {
    // A (speed 100) and B (speed 120), both eligible at tick 0, A registered
    // first. A waits: next time 0 + 100/2 = 50. B moves: next time
    // 0 + 120 = 120. The clock stays at 0 while ticks 0 resolve, then jumps
    // to 50 when A's next turn resolves.
    let mut e = TurnEngine::new(8, 8);
    let a = e.spawn_actor(100, Role::NonPlayerActor);
    let b = e.spawn_actor(120, Role::NonPlayerActor);
    e.attach_action(a, Action::Wait).unwrap();
    e.attach_action(b, Action::Move(MoveDirection::East)).unwrap();

    assert_eq!(e.step(), StepResult::TurnResolved(a, Action::Wait));
    assert_eq!(e.current_time(), 0);
    assert_eq!(e.actor_entry(a).unwrap().next_turn_time, 50);

    assert_eq!(
        e.step(),
        StepResult::TurnResolved(b, Action::Move(MoveDirection::East))
    );
    assert_eq!(e.current_time(), 0);
    assert_eq!(e.actor_entry(b).unwrap().next_turn_time, 120);

    e.attach_action(a, Action::Wait).unwrap();
    assert_eq!(e.step(), StepResult::TurnResolved(a, Action::Wait));
    assert_eq!(e.current_time(), 50);
    assert_eq!(e.actor_entry(a).unwrap().next_turn_time, 100);
}

#[test]
fn gated_player_resolves_attached_move() {
    let mut e = TurnEngine::new(8, 8);
    let player = e.spawn_actor(100, Role::Player);
    e.occupancy.set_occupant(Position::new(3, 3), Some(player));

    assert_eq!(e.step(), StepResult::AwaitingInput(player));
    assert!(e.actor_entry(player).unwrap().waiting);

    e.attach_action(player, Action::Move(MoveDirection::North)).unwrap();
    assert_eq!(
        e.step(),
        StepResult::TurnResolved(player, Action::Move(MoveDirection::North))
    );
    let entry = e.actor_entry(player).unwrap();
    assert!(!entry.waiting);
    assert_eq!(entry.action, None);
    assert_eq!(entry.next_turn_time, 100);
    assert_eq!(e.peek_next(), Some((player, 100)));
    assert_eq!(e.occupancy.position_of(player), Some(Position::new(3, 4)));
    assert_eq!(e.occupancy.get_occupant(Position::new(3, 3)), None);
}

#[test]
fn move_onto_occupied_cell_is_rejected_but_charged_in_full() {
    let mut e = TurnEngine::new(8, 8);
    let a = e.spawn_actor(100, Role::NonPlayerActor);
    let b = e.spawn_actor(100, Role::NonPlayerActor);
    e.occupancy.set_occupant(Position::new(2, 2), Some(a));
    e.occupancy.set_occupant(Position::new(2, 3), Some(b));

    e.attach_action(a, Action::Move(MoveDirection::North)).unwrap();
    assert_eq!(
        e.step(),
        StepResult::TurnResolved(a, Action::Move(MoveDirection::North))
    );
    // Destination occupancy unchanged, mover's position unchanged, but the
    // full move cost is still charged.
    assert_eq!(e.occupancy.get_occupant(Position::new(2, 3)), Some(b));
    assert_eq!(e.occupancy.position_of(a), Some(Position::new(2, 2)));
    assert_eq!(e.actor_entry(a).unwrap().next_turn_time, 100);
}

#[test]
fn move_into_wall_is_rejected_but_charged_in_full() {
    let mut e = TurnEngine::new(8, 8);
    let a = e.spawn_actor(90, Role::NonPlayerActor);
    e.occupancy.set_occupant(Position::new(1, 1), Some(a));
    e.attach_action(a, Action::Move(MoveDirection::South)).unwrap();
    assert_eq!(
        e.step(),
        StepResult::TurnResolved(a, Action::Move(MoveDirection::South))
    );
    assert_eq!(e.occupancy.position_of(a), Some(Position::new(1, 1)));
    assert_eq!(e.actor_entry(a).unwrap().next_turn_time, 90);
}

#[test]
fn deregistering_gated_head_removes_it_everywhere() {
    let mut e = TurnEngine::new(8, 8);
    let player = e.spawn_actor(100, Role::Player);
    let npc = e.spawn_actor(120, Role::NonPlayerActor);
    e.occupancy.set_occupant(Position::new(4, 4), Some(player));

    assert_eq!(e.step(), StepResult::AwaitingInput(player));
    assert!(e.actor_entry(player).unwrap().waiting);

    e.deregister_actor(player).unwrap();
    assert_eq!(e.actor_entry(player), None);
    assert_eq!(e.occupancy.position_of(player), None);
    assert_eq!(e.peek_next(), Some((npc, 0)));
}

#[test]
fn duplicate_registration_is_rejected() {
    let mut reg = ActorRegistry::new();
    assert_eq!(reg.register(5, 100, Role::Player, 0), Ok(()));
    assert_eq!(
        reg.register(5, 70, Role::NonPlayerActor, 3),
        Err(SchedulerError::DuplicateRegistration)
    );
    assert_eq!(reg.len(), 1);
}

#[test]
fn unknown_actor_operations_fail_fast() {
    let mut reg = ActorRegistry::new();
    assert_eq!(reg.deregister(42), Err(SchedulerError::UnknownActor));
    assert_eq!(reg.set_next_turn_time(42, 9), Err(SchedulerError::UnknownActor));

    let mut e = TurnEngine::new(4, 4);
    assert_eq!(e.schedule(42, 9), Err(SchedulerError::UnknownActor));
    assert_eq!(
        e.attach_action(42, Action::Wait),
        Err(SchedulerError::UnknownActor)
    );
    assert_eq!(e.deregister_actor(42), Err(SchedulerError::UnknownActor));
}

#[test]
fn action_costs_match_the_policy() {
    assert_eq!(action_cost(Action::Move(MoveDirection::West), 100, 2), 100);
    assert_eq!(action_cost(Action::Wait, 100, 2), 50);
    assert_eq!(action_cost(Action::PickupItem, 100, 2), 100);
    assert_eq!(action_cost(Action::Wait, 100, 3), 33);
    assert_eq!(action_cost(Action::Wait, 7, 2), 3);
}

#[test]
fn configurable_wait_divisor_changes_wait_cost() {
    let mut e = TurnEngine::new(6, 6);
    e.set_wait_cost_divisor(4);
    let a = e.spawn_actor(100, Role::NonPlayerActor);
    e.attach_action(a, Action::Wait).unwrap();
    assert_eq!(e.step(), StepResult::TurnResolved(a, Action::Wait));
    assert_eq!(e.actor_entry(a).unwrap().next_turn_time, 25);
}

#[test]
fn idle_engine_reports_no_actor_ready() {
    let mut e = TurnEngine::new(4, 4);
    assert_eq!(e.step(), StepResult::NoActorReady);
    assert_eq!(e.current_time(), 0);
    assert_eq!(e.peek_next(), None);
}

#[test]
fn npc_without_decision_suspends_without_gating() {
    let mut e = TurnEngine::new(6, 6);
    let npc = e.spawn_actor(80, Role::NonPlayerActor);
    assert_eq!(e.step(), StepResult::NoActorReady);
    assert_eq!(e.current_time(), 0);
    let entry = e.actor_entry(npc).unwrap();
    assert!(!entry.waiting);
    assert_eq!(e.peek_next(), Some((npc, 0)));
}

#[test]
fn fresh_map_has_walled_border_and_floor_inside() {
    let m = OccupancyMap::new(5, 4);
    assert_eq!(m.get_terrain(Position::new(0, 0)), Some(TerrainType::Wall));
    assert_eq!(m.get_terrain(Position::new(4, 3)), Some(TerrainType::Wall));
    assert_eq!(m.get_terrain(Position::new(2, 0)), Some(TerrainType::Wall));
    assert_eq!(m.get_terrain(Position::new(1, 1)), Some(TerrainType::Floor));
    assert_eq!(m.get_terrain(Position::new(3, 2)), Some(TerrainType::Floor));
    assert_eq!(m.get_terrain(Position::new(5, 0)), None);
    assert_eq!(m.get_terrain(Position::new(-1, 2)), None);
    assert!(m.is_passable(Position::new(1, 1)));
    assert!(!m.is_passable(Position::new(0, 0)));
    assert!(!m.is_passable(Position::new(9, 9)));
}

#[test]
fn occupants_round_trip_and_clear() {
    let mut m = OccupancyMap::new(6, 6);
    m.set_occupant(Position::new(2, 2), Some(11));
    assert_eq!(m.get_occupant(Position::new(2, 2)), Some(11));
    assert_eq!(m.position_of(11), Some(Position::new(2, 2)));
    assert_eq!(m.get_occupant(Position::new(3, 3)), None);
    m.set_occupant(Position::new(2, 2), None);
    assert_eq!(m.get_occupant(Position::new(2, 2)), None);
    assert_eq!(m.position_of(11), None);
}

#[test]
fn spawn_candidates_are_the_free_interior_floor_cells() {
    let m = OccupancyMap::new(4, 4);
    let cells = valid_spawn_positions(&m);
    assert_eq!(cells.len(), 4);
    for p in &cells {
        assert!(p.x >= 1 && p.x <= 2 && p.y >= 1 && p.y <= 2);
    }

    let tiny = OccupancyMap::new(3, 3);
    assert_eq!(valid_spawn_positions(&tiny).len(), 1);

    let mut occupied = OccupancyMap::new(3, 4);
    occupied.set_occupant(Position::new(1, 1), Some(1));
    assert_eq!(valid_spawn_positions(&occupied).len(), 1);
}

#[test]
fn spawning_the_pair_places_and_schedules_both() {
    let mut e = TurnEngine::new(6, 6);
    let (player, enemy) = spawn_player(&mut e).unwrap();
    assert_eq!(player, 0);
    assert_eq!(enemy, 1);

    let pe = e.actor_entry(player).unwrap();
    assert_eq!(pe.speed, 100);
    assert_eq!(pe.role, Role::Player);
    assert_eq!(pe.next_turn_time, 0);

    let ee = e.actor_entry(enemy).unwrap();
    assert_eq!(ee.speed, 120);
    assert_eq!(ee.role, Role::NonPlayerActor);
    assert_eq!(ee.next_turn_time, 0);

    let pp = e.occupancy.position_of(player).unwrap();
    let ep = e.occupancy.position_of(enemy).unwrap();
    assert_ne!(pp, ep);
    assert_eq!(e.occupancy.get_terrain(pp), Some(TerrainType::Floor));
    assert_eq!(e.occupancy.get_terrain(ep), Some(TerrainType::Floor));
    assert_eq!(e.occupancy.get_occupant(pp), Some(player));
    assert_eq!(e.occupancy.get_occupant(ep), Some(enemy));

    // Both share tick 0; the player registered first, so it goes first.
    assert_eq!(e.peek_next(), Some((player, 0)));
}

#[test]
fn spawning_needs_two_free_cells() {
    let mut tiny = TurnEngine::new(3, 3);
    assert_eq!(spawn_player(&mut tiny), None);
    assert_eq!(tiny.peek_next(), None);
}

#[test]
fn engine_schedule_updates_queue_and_registry_together() {
    let mut e = TurnEngine::new(4, 4);
    let a = e.spawn_actor(100, Role::NonPlayerActor);
    e.schedule(a, 77).unwrap();
    assert_eq!(e.peek_next(), Some((a, 77)));
    assert_eq!(e.actor_entry(a).unwrap().next_turn_time, 77);
    assert_eq!(e.queue.len(), 1);
}

#[test]
fn next_turn_time_saturates_at_the_largest_tick() {
    let mut e = TurnEngine::new(4, 4);
    let a = e.spawn_actor(100, Role::NonPlayerActor);
    e.schedule(a, u64::MAX - 10).unwrap();
    e.attach_action(a, Action::Wait).unwrap();
    assert_eq!(e.step(), StepResult::TurnResolved(a, Action::Wait));
    assert_eq!(e.current_time(), u64::MAX - 10);
    assert_eq!(e.actor_entry(a).unwrap().next_turn_time, u64::MAX);
}
