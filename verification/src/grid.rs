//! The occupancy map: a grid of terrain cells together with a bidirectional
//! association between positions and the actors standing on them.
//!
//! The scheduler does not own movement policy; it reads this map to validate
//! move actions (destination in bounds, passable, unoccupied) and writes it
//! when a move is applied. At most one actor stands on a cell and each actor
//! stands on at most one cell.

use vstd::prelude::*;

use crate::types::MoveDirection;

verus! {

/// Widest side the grid may have; keeps coordinate arithmetic inside `i32`.
pub const MAX_MAP_DIM: usize = 0x4000_0000;

/// An integer grid coordinate.
#[derive(Clone, Copy, PartialEq, Eq, Structural, Debug, Hash)]
pub struct Position {
    pub x: i32,
    pub y: i32,
}

impl Position {
    /// Creates the position `(x, y)`.
    pub fn new(x: i32, y: i32) -> (p: Position)
        ensures
            p == (Position { x, y }),
    {
        Position { x, y }
    }
}

/// What a grid cell is made of; only walls block movement.
#[derive(Clone, Copy, PartialEq, Eq, Structural, Debug)]
pub enum TerrainType {
    Floor,
    Wall,
    Door,
    UpStairs,
    DownStairs,
}

impl TerrainType {
    /// Whether an actor may stand on this terrain.
    pub open spec fn spec_is_passable(self) -> bool {
        !(self is Wall)
    }

    /// Whether an actor may stand on this terrain.
    pub fn is_passable(&self) -> (b: bool)
        ensures
            b == self.spec_is_passable(),
    {
        !matches!(self, TerrainType::Wall)
    }
}

/// One grid cell: its terrain and the actor standing on it, if any.
#[derive(Clone, Copy, PartialEq, Eq, Debug)]
pub struct Cell {
    pub terrain: TerrainType,
    pub occupant: Option<u64>,
}

/// Grid of terrain and occupants, `width` columns by `height` rows.
#[derive(Debug)]
pub struct OccupancyMap {
    pub width: usize,
    pub height: usize,
    pub cells: Vec<Vec<Cell>>,
}

/// Terrain the map constructor lays down at `(xi, yi)`: walls on the border,
/// floor inside.
pub open spec fn spec_border_terrain(width: int, height: int, xi: int, yi: int) -> TerrainType {
    if xi == 0 || yi == 0 || xi == width - 1 || yi == height - 1 {
        TerrainType::Wall
    } else {
        TerrainType::Floor
    }
}

/// Coordinate offset of one step in this direction: north is `+y`, east is
/// `+x`.
pub open spec fn spec_move_offset(direction: MoveDirection) -> (int, int) {
    match direction {
        MoveDirection::North => (0int, 1int),
        MoveDirection::South => (0int, -1int),
        MoveDirection::East => (1int, 0int),
        MoveDirection::West => (-1int, 0int),
    }
}

/// The cell one step from `p` in this direction.
pub open spec fn spec_move_dest(p: Position, direction: MoveDirection) -> Position {
    Position {
        x: ((p.x as int) + spec_move_offset(direction).0) as i32,
        y: ((p.y as int) + spec_move_offset(direction).1) as i32,
    }
}

/// A move of `actor` one step in `direction` applies on this map: the actor
/// stands somewhere, and the destination is passable and unoccupied.
pub open spec fn spec_move_applies(m: OccupancyMap, actor: u64, direction: MoveDirection) -> bool {
    &&& m.spec_pos_of(actor) is Some
    &&& m.spec_passable(spec_move_dest(m.spec_pos_of(actor)->Some_0, direction))
    &&& m.spec_occupant(spec_move_dest(m.spec_pos_of(actor)->Some_0, direction)) is None
}

/// `post` is `pre` after `actor` stepped from `src` onto `dest`: the
/// destination now holds the actor, the source is empty, and nothing else —
/// terrain, bounds, every other cell and every other actor's position — has
/// changed.
pub open spec fn spec_occupancy_after_move(
    pre: OccupancyMap,
    post: OccupancyMap,
    actor: u64,
    src: Position,
    dest: Position,
) -> bool {
    &&& post.width == pre.width
    &&& post.height == pre.height
    &&& forall|q: Position|
        pre.spec_in_bounds(q) ==> #[trigger] post.spec_terrain_at(q) == pre.spec_terrain_at(q)
    &&& forall|q: Position|
        #[trigger] post.spec_occupant(q) == (if q == dest {
            Some(actor)
        } else if q == src {
            None::<u64>
        } else {
            pre.spec_occupant(q)
        })
    &&& forall|b: u64|
        #[trigger] post.spec_pos_of(b) == (if b == actor {
            Some(dest)
        } else {
            pre.spec_pos_of(b)
        })
}

impl OccupancyMap {
    /// Well-formed: the grid is rectangular with positive, bounded sides,
    /// and each actor occupies at most one cell.
    pub open spec fn wf(self) -> bool {
        &&& 1 <= self.width <= MAX_MAP_DIM
        &&& 1 <= self.height <= MAX_MAP_DIM
        &&& self.cells@.len() == self.height
        &&& forall|r: int| 0 <= r < self.height ==> #[trigger] self.cells@[r]@.len() == self.width
        &&& forall|p: Position, q: Position|
            #[trigger] self.spec_occupant(p) is Some && self.spec_occupant(p)
                == #[trigger] self.spec_occupant(q) ==> p == q
    }

    /// The position lies on the grid.
    pub open spec fn spec_in_bounds(self, p: Position) -> bool {
        0 <= (p.x as int) < (self.width as int) && 0 <= (p.y as int) < (self.height as int)
    }

    /// Terrain at this position (meaningful when `spec_in_bounds(p)`).
    pub open spec fn spec_terrain_at(self, p: Position) -> TerrainType
        recommends
            self.spec_in_bounds(p),
    {
        self.cells@[p.y as int]@[p.x as int].terrain
    }

    /// An actor may enter this position: on the grid and not a wall.
    pub open spec fn spec_passable(self, p: Position) -> bool {
        self.spec_in_bounds(p) && self.spec_terrain_at(p).spec_is_passable()
    }

    /// The actor standing at this position, if any; positions off the grid
    /// hold nobody.
    pub open spec fn spec_occupant(self, p: Position) -> Option<u64> {
        if self.spec_in_bounds(p) {
            self.cells@[p.y as int]@[p.x as int].occupant
        } else {
            None
        }
    }

    /// The position this actor stands on, if any.
    pub open spec fn spec_pos_of(self, actor: u64) -> Option<Position> {
        if exists|p: Position| #[trigger] self.spec_occupant(p) == Some(actor) {
            Some(choose|p: Position| #[trigger] self.spec_occupant(p) == Some(actor))
        } else {
            None
        }
    }

    /// In a well-formed map, standing somewhere and being that cell's
    /// occupant are the same fact.
    pub proof fn lemma_pos_of_occupant(self, actor: u64, p: Position)
        requires
            self.wf(),
        ensures
            self.spec_pos_of(actor) == Some(p) <==> self.spec_occupant(p) == Some(actor),
    {
        if self.spec_occupant(p) == Some(actor) {
            let q = choose|q: Position| #[trigger] self.spec_occupant(q) == Some(actor);
            assert(self.spec_occupant(q) == Some(actor));
            assert(q == p);
        }
        if self.spec_pos_of(actor) == Some(p) {
            assert(self.spec_occupant(p) == Some(actor));
        }
    }

    /// Creates a map of the given size with walls along the border, floor
    /// inside, and no occupants.
    pub fn new(width: usize, height: usize) -> (m: OccupancyMap)
        requires
            1 <= width <= MAX_MAP_DIM,
            1 <= height <= MAX_MAP_DIM,
        ensures
            m.wf(),
            m.width == width,
            m.height == height,
            forall|p: Position| #[trigger] m.spec_occupant(p) is None,
            forall|p: Position| m.spec_in_bounds(p) ==> #[trigger] m.spec_terrain_at(p)
                == spec_border_terrain(width as int, height as int, p.x as int, p.y as int),
    {
        let mut cells: Vec<Vec<Cell>> = Vec::new();
        let mut y: usize = 0;
        while y < height
            invariant
                y <= height,
                1 <= width <= MAX_MAP_DIM,
                1 <= height <= MAX_MAP_DIM,
                cells@.len() == y,
                forall|r: int| 0 <= r < y ==> #[trigger] cells@[r]@.len() == width,
                forall|r: int, c: int|
                    0 <= r < y && 0 <= c < width ==> #[trigger] cells@[r]@[c] == (Cell {
                        terrain: spec_border_terrain(width as int, height as int, c, r),
                        occupant: None,
                    }),
            decreases height - y,
        {
            let mut row: Vec<Cell> = Vec::new();
            let mut x: usize = 0;
            while x < width
                invariant
                    x <= width,
                    y < height,
                    1 <= width <= MAX_MAP_DIM,
                    1 <= height <= MAX_MAP_DIM,
                    row@.len() == x,
                    forall|c: int|
                        0 <= c < x ==> #[trigger] row@[c] == (Cell {
                            terrain: spec_border_terrain(width as int, height as int, c, y as int),
                            occupant: None,
                        }),
                decreases width - x,
            {
                let terrain = if x == 0 || y == 0 || x == width - 1 || y == height - 1 {
                    TerrainType::Wall
                } else {
                    TerrainType::Floor
                };
                row.push(Cell { terrain, occupant: None });
                x = x + 1;
            }
            cells.push(row);
            y = y + 1;
        }
        let m = OccupancyMap { width, height, cells };
        proof {
            assert forall|p: Position| #[trigger] m.spec_occupant(p) is None by {
                if m.spec_in_bounds(p) {
                    assert(m.cells@[p.y as int]@[p.x as int] == (Cell {
                        terrain: spec_border_terrain(
                            width as int,
                            height as int,
                            p.x as int,
                            p.y as int,
                        ),
                        occupant: None,
                    }));
                }
            }
            assert forall|p: Position| m.spec_in_bounds(p) implies #[trigger] m.spec_terrain_at(p)
                == spec_border_terrain(width as int, height as int, p.x as int, p.y as int) by {
                assert(m.cells@[p.y as int]@[p.x as int] == (Cell {
                    terrain: spec_border_terrain(
                        width as int,
                        height as int,
                        p.x as int,
                        p.y as int,
                    ),
                    occupant: None,
                }));
            }
        }
        m
    }

    /// The terrain at this position, or nothing if it lies off the grid.
    pub fn get_terrain(&self, position: Position) -> (r: Option<TerrainType>)
        requires
            self.wf(),
        ensures
            r == if self.spec_in_bounds(position) {
                Some(self.spec_terrain_at(position))
            } else {
                Option::<TerrainType>::None
            },
    {
        if position.x >= 0 && (position.x as usize) < self.width && position.y >= 0 && (position.y
            as usize) < self.height {
            Some(self.cells[position.y as usize][position.x as usize].terrain)
        } else {
            None
        }
    }

    /// Whether an actor may enter this position: on the grid and passable.
    pub fn is_passable(&self, position: Position) -> (b: bool)
        requires
            self.wf(),
        ensures
            b == self.spec_passable(position),
    {
        if position.x >= 0 && (position.x as usize) < self.width && position.y >= 0 && (position.y
            as usize) < self.height {
            self.cells[position.y as usize][position.x as usize].terrain.is_passable()
        } else {
            false
        }
    }

    /// The actor standing at this position, if any.
    pub fn get_occupant(&self, position: Position) -> (r: Option<u64>)
        requires
            self.wf(),
        ensures
            r == self.spec_occupant(position),
    {
        if position.x >= 0 && (position.x as usize) < self.width && position.y >= 0 && (position.y
            as usize) < self.height {
            self.cells[position.y as usize][position.x as usize].occupant
        } else {
            None
        }
    }

    /// The position this actor stands on, if any.
    pub fn position_of(&self, actor: u64) -> (r: Option<Position>)
        requires
            self.wf(),
        ensures
            r == self.spec_pos_of(actor),
    {
        let mut y: usize = 0;
        while y < self.height
            invariant
                self.wf(),
                y <= self.height,
                forall|p: Position|
                    self.spec_in_bounds(p) && (p.y as int) < y ==> #[trigger] self.spec_occupant(p)
                        != Some(actor),
            decreases self.height - y,
        {
            let mut x: usize = 0;
            while x < self.width
                invariant
                    self.wf(),
                    y < self.height,
                    x <= self.width,
                    forall|p: Position|
                        self.spec_in_bounds(p) && (p.y as int) < y ==> #[trigger] self.spec_occupant(
                            p,
                        ) != Some(actor),
                    forall|p: Position|
                        self.spec_in_bounds(p) && p.y as int == y && (p.x as int) < x
                            ==> #[trigger] self.spec_occupant(p) != Some(actor),
                decreases self.width - x,
            {
                let cell = self.cells[y][x];
                match cell.occupant {
                    Some(a) => {
                        if a == actor {
                            let p = Position { x: x as i32, y: y as i32 };
                            proof {
                                assert(self.spec_occupant(p) == Some(actor));
                                self.lemma_pos_of_occupant(actor, p);
                            }
                            return Some(p);
                        }
                    },
                    None => {},
                }
                proof {
                    assert forall|p: Position|
                        self.spec_in_bounds(p) && p.y as int == y && (p.x as int) < x + 1
                            implies #[trigger] self.spec_occupant(p) != Some(actor) by {
                        if p.x as int == x {
                            assert(p == (Position { x: x as i32, y: y as i32 }));
                        }
                    }
                }
                x = x + 1;
            }
            proof {
                assert forall|p: Position|
                    self.spec_in_bounds(p) && (p.y as int) < y + 1 implies #[trigger] self.spec_occupant(
                        p,
                    ) != Some(actor) by {
                    if p.y as int == y {
                        assert((p.x as int) < (self.width as int));
                    }
                }
            }
            y = y + 1;
        }
        proof {
            assert forall|p: Position| #[trigger] self.spec_occupant(p) != Some(actor) by {
                if self.spec_in_bounds(p) {
                    assert((p.y as int) < (self.height as int));
                }
            }
        }
        None
    }

    /// Places `Some(actor)` at the position, or clears the position with
    /// `None`, exactly as the occupancy interface of the scheduler's
    /// collaborators: an insert replaces whoever stood there; a clear
    /// removes the entry. An actor may be placed only on the grid and only
    /// if it stands nowhere else (or already there).
    pub fn set_occupant(&mut self, position: Position, occupant: Option<u64>)
        requires
            old(self).wf(),
            occupant matches Some(a) ==> old(self).spec_in_bounds(position) && (old(self).spec_pos_of(a) is None || old(self).spec_pos_of(a) == Some(position)),
        ensures
            final(self).wf(),
            final(self).width == old(self).width,
            final(self).height == old(self).height,
            forall|q: Position| final(self).spec_in_bounds(q) == old(self).spec_in_bounds(q),
            forall|q: Position| old(self).spec_in_bounds(q) ==> #[trigger] final(self).spec_terrain_at(q) == old(self).spec_terrain_at(q),
            forall|q: Position| #[trigger] final(self).spec_occupant(q) == (if q == position && old(self).spec_in_bounds(position) {
                occupant
            } else {
                old(self).spec_occupant(q)
            }),
            forall|b: u64| #[trigger] final(self).spec_pos_of(b) == (if occupant == Some(b) {
                Some(position)
            } else if old(self).spec_pos_of(b) == Some(position) {
                Option::<Position>::None
            } else {
                old(self).spec_pos_of(b)
            }),
    {
        let ghost pre = *self;
        if position.x >= 0 && (position.x as usize) < self.width && position.y >= 0 && (position.y
            as usize) < self.height {
            let xu = position.x as usize;
            let yu = position.y as usize;
            let terrain = self.cells[yu][xu].terrain;
            self.cells[yu][xu] = Cell { terrain, occupant };
            proof {
                assert(self.cells@[yu as int]@[xu as int] == (Cell { terrain, occupant }));
                assert forall|q: Position| #[trigger] self.spec_occupant(q) == (if q == position {
                    occupant
                } else {
                    pre.spec_occupant(q)
                }) by {
                    if self.spec_in_bounds(q) {
                        if q.y as int == yu as int && q.x as int == xu as int {
                            assert(q == position);
                        } else {
                            assert(self.cells@[q.y as int]@[q.x as int] == pre.cells@[q.y as int]@[q.x as int]);
                        }
                    }
                }
                assert forall|q: Position| pre.spec_in_bounds(q) implies #[trigger] self.spec_terrain_at(
                    q,
                ) == pre.spec_terrain_at(q) by {
                    if !(q.y as int == yu as int && q.x as int == xu as int) {
                        assert(self.cells@[q.y as int]@[q.x as int] == pre.cells@[q.y as int]@[q.x as int]);
                    }
                }
                assert forall|p: Position, q: Position|
                    #[trigger] self.spec_occupant(p) is Some && self.spec_occupant(p)
                        == #[trigger] self.spec_occupant(q) implies p == q by {
                    let a = self.spec_occupant(p)->Some_0;
                    if p != position && q != position {
                        assert(pre.spec_occupant(p) == Some(a));
                        assert(pre.spec_occupant(q) == Some(a));
                    } else if p == position && q != position {
                        assert(occupant == Some(a));
                        assert(pre.spec_occupant(q) == Some(a));
                        pre.lemma_pos_of_occupant(a, q);
                        assert(pre.spec_pos_of(a) == Some(q));
                    } else if p != position && q == position {
                        assert(occupant == Some(a));
                        assert(pre.spec_occupant(p) == Some(a));
                        pre.lemma_pos_of_occupant(a, p);
                        assert(pre.spec_pos_of(a) == Some(p));
                    }
                }
                assert(self.wf());
                assert forall|b: u64| #[trigger] self.spec_pos_of(b) == (if occupant == Some(b) {
                    Some(position)
                } else if pre.spec_pos_of(b) == Some(position) {
                    Option::<Position>::None
                } else {
                    pre.spec_pos_of(b)
                }) by {
                    if occupant == Some(b) {
                        assert(self.spec_occupant(position) == Some(b));
                        self.lemma_pos_of_occupant(b, position);
                    } else if pre.spec_pos_of(b) == Some(position) {
                        assert(self.spec_pos_of(b) is None) by {
                            if self.spec_pos_of(b) is Some {
                                let q = self.spec_pos_of(b)->Some_0;
                                self.lemma_pos_of_occupant(b, q);
                                assert(self.spec_occupant(q) == Some(b));
                                assert(q != position);
                                assert(pre.spec_occupant(q) == Some(b));
                                pre.lemma_pos_of_occupant(b, q);
                            }
                        }
                    } else {
                        match pre.spec_pos_of(b) {
                            Some(q) => {
                                pre.lemma_pos_of_occupant(b, q);
                                assert(q != position);
                                assert(self.spec_occupant(q) == Some(b));
                                self.lemma_pos_of_occupant(b, q);
                            },
                            None => {
                                if self.spec_pos_of(b) is Some {
                                    let q = self.spec_pos_of(b)->Some_0;
                                    self.lemma_pos_of_occupant(b, q);
                                    assert(self.spec_occupant(q) == Some(b));
                                    assert(q != position);
                                    assert(pre.spec_occupant(q) == Some(b));
                                    pre.lemma_pos_of_occupant(b, q);
                                }
                            },
                        }
                    }
                }
            }
        } else {
            proof {
                assert(occupant is None);
                assert forall|b: u64| #[trigger] self.spec_pos_of(b) == (if occupant == Some(b) {
                    Some(position)
                } else if pre.spec_pos_of(b) == Some(position) {
                    Option::<Position>::None
                } else {
                    pre.spec_pos_of(b)
                }) by {
                    if pre.spec_pos_of(b) is Some {
                        let q = pre.spec_pos_of(b)->Some_0;
                        pre.lemma_pos_of_occupant(b, q);
                        assert(pre.spec_occupant(q) == Some(b));
                        assert(q != position);
                    }
                }
            }
        }
    }

    /// Moves this actor one step in the given direction, if it stands on the
    /// map and the destination is passable and unoccupied. Returns whether
    /// the move applied; a rejected move leaves the map untouched.
    pub fn try_move(&mut self, actor: u64, direction: MoveDirection) -> (moved: bool)
        requires
            old(self).wf(),
        ensures
            final(self).wf(),
            moved == spec_move_applies(*old(self), actor, direction),
            moved ==> spec_occupancy_after_move(
                *old(self),
                *final(self),
                actor,
                old(self).spec_pos_of(actor)->Some_0,
                spec_move_dest(old(self).spec_pos_of(actor)->Some_0, direction),
            ),
            !moved ==> *final(self) == *old(self),
    {
        let ghost pre = *self;
        let src = match self.position_of(actor) {
            Some(p) => p,
            None => {
                return false;
            },
        };
        proof {
            pre.lemma_pos_of_occupant(actor, src);
            assert(pre.spec_occupant(src) == Some(actor));
            assert(pre.spec_in_bounds(src));
        }
        let (dx, dy): (i32, i32) = match direction {
            MoveDirection::North => (0, 1),
            MoveDirection::South => (0, -1),
            MoveDirection::East => (1, 0),
            MoveDirection::West => (-1, 0),
        };
        let dest = Position { x: src.x + dx, y: src.y + dy };
        proof {
            assert(dest == spec_move_dest(src, direction));
        }
        if self.is_passable(dest) {
            let free = match self.get_occupant(dest) {
                None => true,
                Some(_) => false,
            };
            if free {
                assert(spec_move_applies(pre, actor, direction));
                self.set_occupant(src, None);
                let ghost mid = *self;
                proof {
                    assert(mid.spec_pos_of(actor) is None);
                    assert(mid.spec_in_bounds(dest));
                }
                self.set_occupant(dest, Some(actor));
                proof {
                    assert forall|q: Position| #[trigger] self.spec_occupant(q) == (if q == dest {
                        Some(actor)
                    } else if q == src {
                        None::<u64>
                    } else {
                        pre.spec_occupant(q)
                    }) by {
                        assert(self.spec_occupant(q) == (if q == dest {
                            Some(actor)
                        } else {
                            mid.spec_occupant(q)
                        }));
                    }
                    assert forall|b: u64| #[trigger] self.spec_pos_of(b) == (if b == actor {
                        Some(dest)
                    } else {
                        pre.spec_pos_of(b)
                    }) by {
                        if b != actor {
                            assert(mid.spec_pos_of(b) != Some(dest)) by {
                                if mid.spec_pos_of(b) == Some(dest) {
                                    mid.lemma_pos_of_occupant(b, dest);
                                    assert(mid.spec_occupant(dest) == Some(b));
                                    assert(pre.spec_occupant(dest) == Some(b));
                                }
                            }
                            assert(pre.spec_pos_of(b) != Some(src)) by {
                                if pre.spec_pos_of(b) == Some(src) {
                                    pre.lemma_pos_of_occupant(b, src);
                                }
                            }
                        }
                    }
                    assert(spec_occupancy_after_move(pre, *self, actor, src, dest));
                }
                return true;
            }
        }
        false
    }
}

} // verus!
