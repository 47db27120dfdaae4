//! Simulation state: the wall grid, the entity records and their
//! well-formedness invariant, the constructor, and the collision scans
//! that answer what a box at a given position collides with.
//!
//! The wall grid is a sequence of rows of cell flags (1 = wall); cell
//! `(i, j)` occupies the square anchored at `(i * CELL_SIZE, j * CELL_SIZE)`.
//! Scans report the first match in row-major order, which determines the
//! coordinate a raycast measures its distance to when several cells or
//! entities overlap the probe at once.

use crate::geometry::{boxes_collide, circle_box_collide};
use crate::{
    CELL_SIZE, COORD_LIMIT, GEOM_LIMIT, MAX_GRID, NEAR_WALL_TOLERANCE, PLAYER_SIZE, SCALE,
    SMOKE_MAX_MOVE, SMOKE_MAX_OPEN, SMOKE_RADIUS, START_AMMO, START_SMOKES, STEP_LIMIT,
};
use vstd::prelude::*;

verus! {

/// A coordinate lies within the world envelope.
pub open spec fn in_env(v: int) -> bool {
    -(COORD_LIMIT as int) <= v <= COORD_LIMIT as int
}

/// A step-vector component is at most one cell per tick in magnitude.
pub open spec fn step_ok(v: int) -> bool {
    -(STEP_LIMIT as int) <= v <= STEP_LIMIT as int
}

/// One player: pose, resources, last emitted sound level, and two
/// free-form numeric sequences the host stashes scratch state in; the
/// engine never interprets them.
#[derive(Clone, Debug, PartialEq)]
pub struct Player {
    pub x: i64,
    pub y: i64,
    pub rotation: i64,
    pub ammo: u8,
    pub sound: i64,
    pub memory_values: Vec<i64>,
    pub memory_keys: Vec<i64>,
    pub smokes: u8,
}

/// One live bullet. `step_x`/`step_y` is the per-tick movement vector the
/// host derived from `rotation` when the bullet was fired; `fired_by` is
/// the index of the firing player, assigned from the turn at creation and
/// so always in range.
#[derive(Clone, Copy, Debug, PartialEq, Eq, Structural)]
pub struct Bullet {
    pub x: i64,
    pub y: i64,
    pub rotation: i64,
    pub step_x: i64,
    pub step_y: i64,
    pub fired_by: usize,
}

/// One smoke obscurant. It moves for up to `SMOKE_MAX_MOVE` ticks along
/// its step vector, settles, opens, and is removed once it has stayed open
/// longer than `SMOKE_MAX_OPEN` ticks.
#[derive(Clone, Copy, Debug, PartialEq, Eq, Structural)]
pub struct Smoke {
    pub x: i64,
    pub y: i64,
    pub rotation: i64,
    pub step_x: i64,
    pub step_y: i64,
    pub radius: i64,
    pub frames_moved: u8,
    pub opened: bool,
    pub frames_opened: u8,
}

/// The one simulation-world object: grid, entities, configuration and the
/// active-player index. The host only reads state or issues the commands
/// of this crate; it never writes entity fields directly.
pub struct Utils {
    pub walls: Vec<Vec<u8>>,
    pub wall_width: i64,
    pub wall_height: i64,
    pub bullets: Vec<Bullet>,
    pub player_width: i64,
    pub player_height: i64,
    pub ammo_total: u8,
    pub players: Vec<Player>,
    pub turn: usize,
    pub smokes: Vec<Smoke>,
    pub smokes_radius: i64,
    pub smokes_max_move: u8,
    pub smokes_max_open: u8,
}

/// A player's position lies within the world envelope.
pub open spec fn player_ok(p: Player) -> bool {
    in_env(p.x as int) && in_env(p.y as int)
}

/// A bullet lies within the envelope, steps at most one cell per tick and
/// refers to an existing player.
pub open spec fn bullet_ok(b: Bullet, player_count: int) -> bool {
    &&& in_env(b.x as int)
    &&& in_env(b.y as int)
    &&& step_ok(b.step_x as int)
    &&& step_ok(b.step_y as int)
    &&& 0 <= b.fired_by < player_count
}

/// A smoke lies within the envelope, steps at most one cell per tick and
/// its lifecycle counters are within their limits.
pub open spec fn smoke_ok(s: Smoke) -> bool {
    &&& in_env(s.x as int)
    &&& in_env(s.y as int)
    &&& step_ok(s.step_x as int)
    &&& step_ok(s.step_y as int)
    &&& s.radius == SMOKE_RADIUS
    &&& s.frames_moved <= SMOKE_MAX_MOVE
    &&& s.frames_opened <= SMOKE_MAX_OPEN
}

impl Utils {
    /// The wall grid is small enough that cell coordinates stay far inside
    /// the envelope.
    pub open spec fn grid_ok(self) -> bool {
        &&& self.walls@.len() <= MAX_GRID
        &&& forall|j: int|
            0 <= j < self.walls@.len() ==> (#[trigger] self.walls@[j])@.len() <= MAX_GRID
    }

    /// Well-formedness: the configuration holds the fixed defaults, the
    /// turn index refers to an existing player, and every entity satisfies
    /// its own invariant.
    pub open spec fn wf(self) -> bool {
        &&& self.wall_width == CELL_SIZE
        &&& self.wall_height == CELL_SIZE
        &&& self.player_width == PLAYER_SIZE
        &&& self.player_height == PLAYER_SIZE
        &&& self.ammo_total == START_AMMO
        &&& self.smokes_radius == SMOKE_RADIUS
        &&& self.smokes_max_move == SMOKE_MAX_MOVE
        &&& self.smokes_max_open == SMOKE_MAX_OPEN
        &&& self.grid_ok()
        &&& self.players@.len() >= 1
        &&& self.turn < self.players@.len()
        &&& forall|i: int| 0 <= i < self.players@.len() ==> player_ok(#[trigger] self.players@[i])
        &&& forall|i: int|
            0 <= i < self.bullets@.len() ==> bullet_ok(
                #[trigger] self.bullets@[i],
                self.players@.len() as int,
            )
        &&& forall|i: int| 0 <= i < self.smokes@.len() ==> smoke_ok(#[trigger] self.smokes@[i])
    }

    /// Builds the world from a wall-occupancy grid and the fixed defaults:
    /// 1x1-cell boxes, 30 rounds, 3 smoke charges, and two players at the
    /// standard starting poses.
    pub fn new(walls: Vec<Vec<u8>>) -> (w: Utils)
        requires
            walls@.len() <= MAX_GRID,
            forall|j: int| 0 <= j < walls@.len() ==> (#[trigger] walls@[j])@.len() <= MAX_GRID,
        ensures
            w.wf(),
            w.walls@ == walls@,
            w.wall_width == CELL_SIZE,
            w.wall_height == CELL_SIZE,
            w.player_width == PLAYER_SIZE,
            w.player_height == PLAYER_SIZE,
            w.ammo_total == START_AMMO,
            w.smokes_radius == SMOKE_RADIUS,
            w.smokes_max_move == SMOKE_MAX_MOVE,
            w.smokes_max_open == SMOKE_MAX_OPEN,
            w.bullets@.len() == 0,
            w.smokes@.len() == 0,
            w.turn == 0,
            w.players@.len() == 2,
            w.players@[0].x == 9 * SCALE && w.players@[0].y == 11 * SCALE,
            w.players@[0].rotation == 270 * SCALE,
            w.players@[0].ammo == START_AMMO && w.players@[0].smokes == START_SMOKES,
            w.players@[0].sound == 0,
            w.players@[0].memory_values@.len() == 0 && w.players@[0].memory_keys@.len() == 0,
            w.players@[1].x == 1 * SCALE && w.players@[1].y == 1 * SCALE,
            w.players@[1].rotation == 90 * SCALE,
            w.players@[1].ammo == START_AMMO && w.players@[1].smokes == START_SMOKES,
            w.players@[1].sound == 0,
            w.players@[1].memory_values@.len() == 0 && w.players@[1].memory_keys@.len() == 0,
    {
        let mut players: Vec<Player> = Vec::new();
        players.push(
            Player {
                x: 9 * SCALE,
                y: 11 * SCALE,
                rotation: 270 * SCALE,
                ammo: START_AMMO,
                sound: 0,
                memory_values: Vec::new(),
                memory_keys: Vec::new(),
                smokes: START_SMOKES,
            },
        );
        players.push(
            Player {
                x: 1 * SCALE,
                y: 1 * SCALE,
                rotation: 90 * SCALE,
                ammo: START_AMMO,
                sound: 0,
                memory_values: Vec::new(),
                memory_keys: Vec::new(),
                smokes: START_SMOKES,
            },
        );
        Utils {
            walls,
            wall_width: CELL_SIZE,
            wall_height: CELL_SIZE,
            bullets: Vec::new(),
            player_width: PLAYER_SIZE,
            player_height: PLAYER_SIZE,
            ammo_total: START_AMMO,
            players,
            turn: 0,
            smokes: Vec::new(),
            smokes_radius: SMOKE_RADIUS,
            smokes_max_move: SMOKE_MAX_MOVE,
            smokes_max_open: SMOKE_MAX_OPEN,
        }
    }

    /// Cell `(i, j)` is a wall cell and its box overlaps the given box.
    pub open spec fn wall_cell_hit(self, x: int, y: int, w: int, h: int, i: int, j: int) -> bool {
        &&& 0 <= j < self.walls@.len()
        &&& 0 <= i < self.walls@[j]@.len()
        &&& self.walls@[j]@[i] == 1
        &&& boxes_collide(
            x,
            y,
            w,
            h,
            i * (self.wall_width as int),
            j * (self.wall_height as int),
            self.wall_width as int,
            self.wall_height as int,
        )
    }

    /// First colliding wall cell in row `j` at column `i` or later.
    pub open spec fn first_wall_hit_in_row(
        self,
        x: int,
        y: int,
        w: int,
        h: int,
        j: int,
        i: int,
    ) -> Option<(int, int)>
        decreases self.walls@[j]@.len() - i,
    {
        if !(0 <= j < self.walls@.len()) || !(0 <= i) || i >= self.walls@[j]@.len() {
            None
        } else if self.wall_cell_hit(x, y, w, h, i, j) {
            Some((i, j))
        } else {
            self.first_wall_hit_in_row(x, y, w, h, j, i + 1)
        }
    }

    /// First colliding wall cell in row-major order, from row `j` on.
    pub open spec fn first_wall_hit_from_row(
        self,
        x: int,
        y: int,
        w: int,
        h: int,
        j: int,
    ) -> Option<(int, int)>
        decreases self.walls@.len() - j,
    {
        if !(0 <= j) || j >= self.walls@.len() {
            None
        } else {
            match self.first_wall_hit_in_row(x, y, w, h, j, 0) {
                Some(c) => Some(c),
                None => self.first_wall_hit_from_row(x, y, w, h, j + 1),
            }
        }
    }

    /// First wall cell whose box overlaps the given box, in row-major scan
    /// order, as `(column, row)`.
    pub open spec fn first_wall_hit(self, x: int, y: int, w: int, h: int) -> Option<(int, int)> {
        self.first_wall_hit_from_row(x, y, w, h, 0)
    }

    /// Scans the grid in row-major order for a wall cell overlapping the
    /// given centred box; reports the first one's cell indices, or
    /// `(false, 0, 0)` when the box is clear of every wall.
    pub fn is_colliding_with_wall(&self, x: i64, y: i64, width: i64, height: i64) -> (r: (
        bool,
        usize,
        usize,
    ))
        requires
            self.wf(),
        ensures
            self.first_wall_hit(x as int, y as int, width as int, height as int) matches Some(c)
                ==> r.0 == true && r.1 as int == c.0 && r.2 as int == c.1,
            self.first_wall_hit(x as int, y as int, width as int, height as int) is None ==> r == (
                false,
                0usize,
                0usize,
            ),
            r.0 == (self.first_wall_hit(x as int, y as int, width as int, height as int)
                is Some),
    {
        let mut j: usize = 0;
        while j < self.walls.len()
            invariant
                j <= self.walls@.len(),
                self.first_wall_hit_from_row(x as int, y as int, width as int, height as int, 0)
                    == self.first_wall_hit_from_row(
                    x as int,
                    y as int,
                    width as int,
                    height as int,
                    j as int,
                ),
            decreases self.walls@.len() - j,
        {
            let row_len: usize = self.walls[j].len();
            let mut i: usize = 0;
            while i < row_len
                invariant
                    j < self.walls@.len(),
                    i <= row_len,
                    row_len == self.walls@[j as int]@.len(),
                    self.first_wall_hit_in_row(
                        x as int,
                        y as int,
                        width as int,
                        height as int,
                        j as int,
                        0,
                    ) == self.first_wall_hit_in_row(
                        x as int,
                        y as int,
                        width as int,
                        height as int,
                        j as int,
                        i as int,
                    ),
                decreases row_len - i,
            {
                if self.walls[j][i] == 1 {
                    let wx: i64 = (i as i64) * self.wall_width;
                    let wy: i64 = (j as i64) * self.wall_height;
                    if self.colliding(
                        x,
                        y,
                        width,
                        height,
                        wx,
                        wy,
                        self.wall_width,
                        self.wall_height,
                    ) {
                        return (true, i, j);
                    }
                }
                i += 1;
            }
            j += 1;
        }
        (false, 0, 0)
    }

    /// The given centred box overlaps the box of the given player.
    pub fn is_colliding_with_player(
        &self,
        player: &Player,
        x: i64,
        y: i64,
        width: i64,
        height: i64,
    ) -> (r: bool)
        ensures
            r == boxes_collide(
                x as int,
                y as int,
                width as int,
                height as int,
                player.x as int,
                player.y as int,
                self.player_width as int,
                self.player_height as int,
            ),
    {
        self.colliding(
            x,
            y,
            width,
            height,
            player.x,
            player.y,
            self.player_width,
            self.player_height,
        )
    }

    /// The box of player `i` overlaps the given box.
    pub open spec fn player_box_hit(self, x: int, y: int, w: int, h: int, i: int) -> bool {
        boxes_collide(
            x,
            y,
            w,
            h,
            self.players@[i].x as int,
            self.players@[i].y as int,
            self.player_width as int,
            self.player_height as int,
        )
    }

    /// Index of the first player, from `i` on in storage order, whose box
    /// overlaps the given box.
    pub open spec fn first_colliding_player_from(
        self,
        x: int,
        y: int,
        w: int,
        h: int,
        i: int,
    ) -> Option<int>
        decreases self.players@.len() - i,
    {
        if !(0 <= i) || i >= self.players@.len() {
            None
        } else if self.player_box_hit(x, y, w, h, i) {
            Some(i)
        } else {
            self.first_colliding_player_from(x, y, w, h, i + 1)
        }
    }

    /// Index of the first player in storage order whose box overlaps the
    /// given box.
    pub open spec fn first_colliding_player(self, x: int, y: int, w: int, h: int) -> Option<int> {
        self.first_colliding_player_from(x, y, w, h, 0)
    }

    /// Scans the players in storage order for one whose box overlaps the
    /// given centred box; reports the first one's coordinates, or
    /// `(false, 0, 0)` when none collides.
    pub fn is_colliding_with_any_player(&self, x: i64, y: i64, width: i64, height: i64) -> (r: (
        bool,
        i64,
        i64,
    ))
        ensures
            self.first_colliding_player(x as int, y as int, width as int, height as int)
                matches Some(i) ==> r.0 == true && r.1 == self.players@[i].x && r.2
                == self.players@[i].y,
            self.first_colliding_player(x as int, y as int, width as int, height as int) is None
                ==> r == (false, 0i64, 0i64),
            r.0 == (self.first_colliding_player(x as int, y as int, width as int, height as int)
                is Some),
    {
        let mut i: usize = 0;
        while i < self.players.len()
            invariant
                i <= self.players@.len(),
                self.first_colliding_player(x as int, y as int, width as int, height as int)
                    == self.first_colliding_player_from(
                    x as int,
                    y as int,
                    width as int,
                    height as int,
                    i as int,
                ),
            decreases self.players@.len() - i,
        {
            let p = &self.players[i];
            if self.is_colliding_with_player(p, x, y, width, height) {
                return (true, p.x, p.y);
            }
            i += 1;
        }
        (false, 0, 0)
    }

    /// The opened smoke at index `i` overlaps the given box (circle test
    /// with the global smoke radius).
    pub open spec fn smoke_box_hit(self, x: int, y: int, w: int, h: int, i: int) -> bool {
        &&& self.smokes@[i].opened
        &&& circle_box_collide(
            x,
            y,
            w,
            h,
            self.smokes@[i].x as int,
            self.smokes@[i].y as int,
            self.smokes_radius as int,
        )
    }

    /// Index of the first opened smoke, from `i` on in storage order,
    /// overlapping the given box.
    pub open spec fn first_colliding_smoke_from(
        self,
        x: int,
        y: int,
        w: int,
        h: int,
        i: int,
    ) -> Option<int>
        decreases self.smokes@.len() - i,
    {
        if !(0 <= i) || i >= self.smokes@.len() {
            None
        } else if self.smoke_box_hit(x, y, w, h, i) {
            Some(i)
        } else {
            self.first_colliding_smoke_from(x, y, w, h, i + 1)
        }
    }

    /// Index of the first opened smoke in storage order overlapping the
    /// given box.
    pub open spec fn first_colliding_smoke(self, x: int, y: int, w: int, h: int) -> Option<int> {
        self.first_colliding_smoke_from(x, y, w, h, 0)
    }

    /// Scans the smokes in storage order for an opened one overlapping the
    /// given corner-anchored box; reports the first one's coordinates, or
    /// `(false, 0, 0)` when none does. Smokes still moving are not
    /// collidable.
    pub fn is_colliding_with_smoke(&self, x: i64, y: i64, width: i64, height: i64) -> (r: (
        bool,
        i64,
        i64,
    ))
        requires
            self.wf(),
            -GEOM_LIMIT <= x <= GEOM_LIMIT,
            -GEOM_LIMIT <= y <= GEOM_LIMIT,
            0 <= width <= GEOM_LIMIT,
            0 <= height <= GEOM_LIMIT,
        ensures
            self.first_colliding_smoke(x as int, y as int, width as int, height as int)
                matches Some(i) ==> r.0 == true && r.1 == self.smokes@[i].x && r.2
                == self.smokes@[i].y,
            self.first_colliding_smoke(x as int, y as int, width as int, height as int) is None
                ==> r == (false, 0i64, 0i64),
            r.0 == (self.first_colliding_smoke(x as int, y as int, width as int, height as int)
                is Some),
    {
        let mut i: usize = 0;
        while i < self.smokes.len()
            invariant
                i <= self.smokes@.len(),
                self.first_colliding_smoke(x as int, y as int, width as int, height as int)
                    == self.first_colliding_smoke_from(
                    x as int,
                    y as int,
                    width as int,
                    height as int,
                    i as int,
                ),
            decreases self.smokes@.len() - i,
        {
            let s = self.smokes[i];
            if s.opened {
                if self.colliding_circle(x, y, width, height, s.x, s.y, self.smokes_radius) {
                    return (true, s.x, s.y);
                }
            }
            i += 1;
        }
        (false, 0, 0)
    }

    /// The point lies within the near-wall tolerance of wall cell `(i, j)`.
    pub open spec fn point_near_cell(self, x: int, y: int, i: int, j: int) -> bool {
        &&& 0 <= j < self.walls@.len()
        &&& 0 <= i < self.walls@[j]@.len()
        &&& self.walls@[j]@[i] == 1
        &&& circle_box_collide(
            i * (self.wall_width as int),
            j * (self.wall_height as int),
            self.wall_width as int,
            self.wall_height as int,
            x,
            y,
            NEAR_WALL_TOLERANCE as int,
        )
    }

    /// The point lies within the near-wall tolerance of some wall cell.
    pub open spec fn point_near_wall(self, x: int, y: int) -> bool {
        exists|i: int, j: int| self.point_near_cell(x, y, i, j)
    }

    /// A point is within the fixed tolerance (a tenth of a cell) of some
    /// wall cell: the point clamped into the cell box lies strictly closer
    /// than the tolerance. Used only for smoke/wall contact.
    pub fn is_smoke_colliding_with_wall(&self, x: i64, y: i64) -> (r: bool)
        requires
            self.wf(),
            -GEOM_LIMIT <= x <= GEOM_LIMIT,
            -GEOM_LIMIT <= y <= GEOM_LIMIT,
        ensures
            r == self.point_near_wall(x as int, y as int),
    {
        let mut j: usize = 0;
        while j < self.walls.len()
            invariant
                j <= self.walls@.len(),
                forall|a: int, b: int|
                    0 <= b < j ==> !self.point_near_cell(x as int, y as int, a, b),
            decreases self.walls@.len() - j,
        {
            let row_len: usize = self.walls[j].len();
            let mut i: usize = 0;
            while i < row_len
                invariant
                    j < self.walls@.len(),
                    i <= row_len,
                    row_len == self.walls@[j as int]@.len(),
                    forall|a: int, b: int|
                        0 <= b < j ==> !self.point_near_cell(x as int, y as int, a, b),
                    forall|a: int|
                        0 <= a < i ==> !self.point_near_cell(x as int, y as int, a, j as int),
                decreases row_len - i,
            {
                if self.walls[j][i] == 1 {
                    let wx: i64 = (i as i64) * self.wall_width;
                    let wy: i64 = (j as i64) * self.wall_height;
                    if self.colliding_circle(
                        wx,
                        wy,
                        self.wall_width,
                        self.wall_height,
                        x,
                        y,
                        NEAR_WALL_TOLERANCE,
                    ) {
                        proof {
                            assert(self.point_near_cell(x as int, y as int, i as int, j as int));
                        }
                        return true;
                    }
                }
                i += 1;
            }
            j += 1;
        }
        proof {
            assert(forall|a: int, b: int| !self.point_near_cell(x as int, y as int, a, b));
        }
        false
    }
}

} // verus!
