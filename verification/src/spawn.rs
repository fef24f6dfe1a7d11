//! Initial spawning: finding candidate floor cells and placing the player
//! and the first enemy on randomly chosen ones, then registering and
//! scheduling both at the present clock so they act as soon as scheduling
//! allows.

use vstd::prelude::*;

use rand::Rng;

use crate::engine::TurnEngine;
use crate::grid::{OccupancyMap, Position, TerrainType};
use crate::queue::QueueEntry;
use crate::registry::ActorEntry;
use crate::types::Role;

verus! {

/// Base speed of the player actor.
pub const PLAYER_SPEED: u64 = 100;

/// Base speed of the first enemy; the enemy is slower.
pub const ENEMY_SPEED: u64 = 120;

/// Relies on rand: `rand::rng()` hands out the thread-local generator and
/// `Rng::random_range` over `0..n` draws a value uniformly from that
/// half-open range, panicking only on an empty range; so for `n > 0` the
/// result is always below `n`. Nothing more is promised of a random value.
#[verifier::external_body]
fn random_below(n: usize) -> (r: usize)
    requires
        n > 0,
    ensures
        r < n,
{
    rand::rng().random_range(0..n)
}

/// `a` comes before `b` in the row-major scan order: lower row first, then
/// lower column.
pub open spec fn spec_row_major_before(a: Position, b: Position) -> bool {
    (a.y as int) < (b.y as int) || ((a.y as int) == (b.y as int) && (a.x as int) < (b.x as int))
}

/// A cell where an actor may spawn: strictly inside the border, floor, and
/// empty.
pub open spec fn spec_spawn_cell(m: OccupancyMap, p: Position) -> bool {
    &&& 1 <= (p.x as int) < (m.width as int) - 1
    &&& 1 <= (p.y as int) < (m.height as int) - 1
    &&& m.spec_terrain_at(p) is Floor
    &&& m.spec_occupant(p) is None
}

/// The map offers two distinct spawn cells.
pub open spec fn spec_two_spawn_cells(m: OccupancyMap) -> bool {
    exists|p1: Position, p2: Position|
        #![trigger spec_spawn_cell(m, p1), spec_spawn_cell(m, p2)]
        p1 != p2 && spec_spawn_cell(m, p1) && spec_spawn_cell(m, p2)
}

/// Collects every candidate spawn cell of the map: the interior floor
/// positions nobody stands on, row by row, without duplicates.
pub fn valid_spawn_positions(map: &OccupancyMap) -> (r: Vec<Position>)
    requires
        map.wf(),
    ensures
        forall|i: int| 0 <= i < r@.len() ==> spec_spawn_cell(*map, #[trigger] r@[i]),
        forall|p: Position| spec_spawn_cell(*map, p) ==> #[trigger] r@.contains(p),
        forall|i: int, j: int| 0 <= i < j < r@.len() ==> spec_row_major_before(r@[i], r@[j]),
        forall|i: int, j: int| 0 <= i < j < r@.len() ==> r@[i] != r@[j],
{
    let mut r: Vec<Position> = Vec::new();
    let mut y: usize = 1;
    while y + 1 < map.height
        invariant
            map.wf(),
            1 <= y <= map.height,
            forall|i: int| 0 <= i < r@.len() ==> spec_spawn_cell(*map, #[trigger] r@[i]),
            forall|i: int| 0 <= i < r@.len() ==> ((#[trigger] r@[i]).y as int) < y as int,
            forall|p: Position|
                spec_spawn_cell(*map, p) && (p.y as int) < y as int ==> #[trigger] r@.contains(p),
            forall|i: int, j: int| 0 <= i < j < r@.len() ==> spec_row_major_before(r@[i], r@[j]),
            forall|i: int, j: int| 0 <= i < j < r@.len() ==> r@[i] != r@[j],
        decreases map.height - y,
    {
        let mut x: usize = 1;
        while x + 1 < map.width
            invariant
                map.wf(),
                1 <= y,
                y + 1 < map.height,
                1 <= x <= map.width,
                forall|i: int| 0 <= i < r@.len() ==> spec_spawn_cell(*map, #[trigger] r@[i]),
                forall|i: int|
                    0 <= i < r@.len() ==> ((#[trigger] r@[i]).y as int) < y as int || ((
                    r@[i].y as int) == y as int && (r@[i].x as int) < x as int),
                forall|p: Position|
                    spec_spawn_cell(*map, p) && (p.y as int) < y as int ==> #[trigger] r@.contains(
                        p,
                    ),
                forall|p: Position|
                    spec_spawn_cell(*map, p) && (p.y as int) == y as int && (p.x as int) < x as int
                        ==> #[trigger] r@.contains(p),
                forall|i: int, j: int| 0 <= i < j < r@.len() ==> spec_row_major_before(r@[i], r@[j]),
                forall|i: int, j: int| 0 <= i < j < r@.len() ==> r@[i] != r@[j],
            decreases map.width - x,
        {
            let p = Position { x: x as i32, y: y as i32 };
            let ghost before = r@;
            let floor = match map.get_terrain(p) {
                Some(t) => matches!(t, TerrainType::Floor),
                None => false,
            };
            let empty = match map.get_occupant(p) {
                None => true,
                Some(_) => false,
            };
            if floor && empty {
                r.push(p);
                proof {
                    assert(spec_spawn_cell(*map, p));
                    assert forall|q: Position| before.contains(q) implies #[trigger] r@.contains(
                        q,
                    ) by {
                        let i = choose|i: int| 0 <= i < before.len() && before[i] == q;
                        assert(r@[i] == q);
                    }
                    assert(r@[r@.len() - 1] == p);
                    assert(r@.contains(p));
                }
            }
            proof {
                assert forall|q: Position|
                    spec_spawn_cell(*map, q) && (q.y as int) == y as int && (q.x as int) < x as int
                        + 1 implies #[trigger] r@.contains(q) by {
                    if (q.x as int) == x as int {
                        assert(q == p);
                        assert(floor && empty);
                        assert(r@.contains(q));
                    }
                }
            }
            x = x + 1;
        }
        proof {
            assert forall|q: Position|
                spec_spawn_cell(*map, q) && (q.y as int) < y as int + 1 implies #[trigger] r@.contains(
                q,
            ) by {
                if (q.y as int) == y as int {
                    assert((q.x as int) < (map.width as int) - 1);
                    assert((q.x as int) < x as int);
                }
            }
        }
        y = y + 1;
    }
    proof {
        assert forall|q: Position| spec_spawn_cell(*map, q) implies #[trigger] r@.contains(q) by {
            assert((q.y as int) < (map.height as int) - 1);
            assert((q.y as int) < y as int);
        }
    }
    r
}

/// Spawns the opening pair of the simulation: the player and one enemy, on
/// two distinct randomly chosen spawn cells. Both are registered and
/// scheduled at the present clock value; on the tie the player resolves
/// first because it is registered first. Returns their ids, or nothing when
/// the map offers fewer than two spawn cells. Requires that no id still to
/// be allocated already stands on the map.
pub fn spawn_player(engine: &mut TurnEngine) -> (r: Option<(u64, u64)>)
    requires
        old(engine).wf(),
        old(engine).next_actor_id < u64::MAX - 1,
        forall|b: u64|
            b >= old(engine).next_actor_id ==> old(engine).occupancy.spec_pos_of(b) is None,
    ensures
        final(engine).wf(),
        (r is Some) == spec_two_spawn_cells(old(engine).occupancy),
        r is None ==> *final(engine) == *old(engine),
        r matches Some((player, enemy)) ==> {
            &&& player == old(engine).next_actor_id
            &&& enemy == old(engine).next_actor_id + 1
            &&& final(engine).next_actor_id == old(engine).next_actor_id + 2
            &&& final(engine).queue.current_time == old(engine).queue.current_time
            &&& final(engine).wait_cost_divisor == old(engine).wait_cost_divisor
            &&& final(engine).registry.entries@ == old(engine).registry.entries@.push(
                ActorEntry {
                    id: player,
                    speed: PLAYER_SPEED,
                    role: Role::Player,
                    next_turn_time: old(engine).queue.current_time,
                    waiting: false,
                    action: None,
                },
            ).push(
                ActorEntry {
                    id: enemy,
                    speed: ENEMY_SPEED,
                    role: Role::NonPlayerActor,
                    next_turn_time: old(engine).queue.current_time,
                    waiting: false,
                    action: None,
                },
            )
            &&& final(engine).queue.entries@ == old(engine).queue.entries@.push(
                QueueEntry { actor: player, time: old(engine).queue.current_time },
            ).push(QueueEntry { actor: enemy, time: old(engine).queue.current_time })
            &&& final(engine).occupancy.spec_pos_of(player) is Some
            &&& final(engine).occupancy.spec_pos_of(enemy) is Some
            &&& final(engine).occupancy.spec_pos_of(player) != final(engine).occupancy.spec_pos_of(
                enemy,
            )
            &&& spec_spawn_cell(
                old(engine).occupancy,
                final(engine).occupancy.spec_pos_of(player)->Some_0,
            )
            &&& spec_spawn_cell(
                old(engine).occupancy,
                final(engine).occupancy.spec_pos_of(enemy)->Some_0,
            )
            &&& forall|b: u64|
                b != player && b != enemy ==> #[trigger] final(engine).occupancy.spec_pos_of(b)
                    == old(engine).occupancy.spec_pos_of(b)
        },
{
    let ghost pre = *engine;
    let mut candidates = valid_spawn_positions(&engine.occupancy);
    if candidates.len() < 2 {
        proof {
            assert(!spec_two_spawn_cells(pre.occupancy)) by {
                if spec_two_spawn_cells(pre.occupancy) {
                    let (p1, p2) = choose|p1: Position, p2: Position|
                        #![trigger spec_spawn_cell(pre.occupancy, p1), spec_spawn_cell(pre.occupancy, p2)]
                        p1 != p2 && spec_spawn_cell(pre.occupancy, p1) && spec_spawn_cell(
                            pre.occupancy,
                            p2,
                        );
                    assert(candidates@.contains(p1));
                    assert(candidates@.contains(p2));
                    let i1 = choose|i: int| 0 <= i < candidates@.len() && candidates@[i] == p1;
                    let i2 = choose|i: int| 0 <= i < candidates@.len() && candidates@[i] == p2;
                    assert(i1 != i2);
                    assert(candidates@.len() >= 2);
                }
            }
        }
        return None;
    }
    let ghost all = candidates@;
    let pi = random_below(candidates.len());
    let player_pos = candidates.remove(pi);
    let ei = random_below(candidates.len());
    let enemy_pos = candidates[ei];
    proof {
        assert(player_pos == all[pi as int]);
        let oi: int = if (ei as int) < (pi as int) {
            ei as int
        } else {
            (ei as int) + 1
        };
        assert(candidates@[ei as int] == all[oi]);
        assert(oi != pi as int);
        assert(enemy_pos != player_pos) by {
            if (pi as int) < oi {
                assert(all[pi as int] != all[oi]);
            } else {
                assert(all[oi] != all[pi as int]);
            }
        }
        assert(spec_spawn_cell(pre.occupancy, player_pos));
        assert(spec_spawn_cell(pre.occupancy, enemy_pos));
        assert(spec_two_spawn_cells(pre.occupancy));
    }
    let player = engine.spawn_actor(PLAYER_SPEED, Role::Player);
    let enemy = engine.spawn_actor(ENEMY_SPEED, Role::NonPlayerActor);
    let ghost spawned = *engine;
    proof {
        assert(spawned.occupancy == pre.occupancy);
        assert(pre.occupancy.spec_pos_of(player) is None);
        assert(pre.occupancy.spec_pos_of(enemy) is None);
        assert(pre.occupancy.spec_occupant(player_pos) is None);
        assert(pre.occupancy.spec_in_bounds(player_pos));
    }
    engine.occupancy.set_occupant(player_pos, Some(player));
    let ghost placed_one = *engine;
    proof {
        assert(placed_one.occupancy.spec_pos_of(enemy) is None);
        assert(placed_one.occupancy.spec_occupant(enemy_pos) is None);
        assert(placed_one.occupancy.spec_in_bounds(enemy_pos));
    }
    engine.occupancy.set_occupant(enemy_pos, Some(enemy));
    proof {
        lemma_occupancy_swap_keeps_wf(spawned, *engine);
        assert(engine.occupancy.spec_pos_of(enemy) == Some(enemy_pos));
        assert(engine.occupancy.spec_pos_of(player) == Some(player_pos));
    }
    Some((player, enemy))
}

/// The engine invariant reads nothing of the occupancy map but its own
/// well-formedness, so exchanging the occupancy map for another well-formed
/// one keeps the engine well-formed.
proof fn lemma_occupancy_swap_keeps_wf(pre: TurnEngine, now: TurnEngine)
    requires
        pre.wf(),
        now.occupancy.wf(),
        now.registry == pre.registry,
        now.queue == pre.queue,
        now.next_actor_id == pre.next_actor_id,
        now.wait_cost_divisor == pre.wait_cost_divisor,
    ensures
        now.wf(),
{
}

} // verus!
