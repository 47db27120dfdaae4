//! Perception: raycasting across the world.
//!
//! A ray steps a probe point one step vector per iteration until it hits
//! something, with a fixed per-iteration priority: a wall cell first, then
//! any player other than the active one (the active player's own box is
//! skipped, never reported), then an opened smoke. The
//! result is the distance from the ray origin to the reported object's
//! coordinate, and a category: 0 wall, 1 player, 2 smoke.
//!
//! Unlike a ray in an endless open region, every cast is bounded by an
//! explicit `max_steps`; a ray that exhausts its steps, or leaves the
//! world envelope, reports no hit (`None`) instead of searching forever.

use crate::geometry::{dist_sq, is_floor_sqrt};
use crate::world::{in_env, step_ok, Utils};
use crate::{COORD_LIMIT, GEOM_LIMIT, SCALE};
use vstd::prelude::*;

verus! {

/// What a probe box anchored at `(nx, ny)` strikes, by priority: the
/// first overlapping wall cell (category 0, at the cell's world anchor),
/// else the first overlapping player other than the active one (category
/// 1, at the player's position; the active player's own box is skipped,
/// never reported), else the first overlapping opened smoke (category 2,
/// at the smoke's centre).
pub open spec fn ray_probe_hit(w: Utils, nx: int, ny: int) -> Option<(int, int, int)> {
    match w.first_wall_hit(nx, ny, SCALE as int, SCALE as int) {
        Some(c) => Some((0int, c.0 * (w.wall_width as int), c.1 * (w.wall_height as int))),
        None => {
            let smoke_hit = match w.first_colliding_smoke(nx, ny, SCALE as int, SCALE as int) {
                Some(si) => Some((2int, w.smokes@[si].x as int, w.smokes@[si].y as int)),
                None => None,
            };
            match w.first_colliding_other_player(nx, ny, SCALE as int, SCALE as int, w.turn as int)
            {
                Some(pi) => Some((1int, w.players@[pi].x as int, w.players@[pi].y as int)),
                None => smoke_hit,
            }
        },
    }
}

/// The first thing a ray from `(px, py)` along `(sx, sy)` strikes within
/// `fuel` steps: category and struck coordinate, or `None` when the fuel
/// runs out or the probe leaves the world envelope.
pub open spec fn ray_target_from(
    w: Utils,
    px: int,
    py: int,
    sx: int,
    sy: int,
    fuel: nat,
) -> Option<(int, int, int)>
    decreases fuel,
{
    if fuel == 0 {
        None
    } else {
        let nx = px + sx;
        let ny = py + sy;
        if !in_env(nx) || !in_env(ny) {
            None
        } else {
            match ray_probe_hit(w, nx, ny) {
                Some(h) => Some(h),
                None => ray_target_from(w, nx, ny, sx, sy, (fuel - 1) as nat),
            }
        }
    }
}

/// The executable ray result agrees with the spec-level target: no hit is
/// reported exactly when the spec finds none, and a reported hit carries
/// the spec's category and the floor of the Euclidean distance from the
/// origin to the struck coordinate.
pub open spec fn ray_result_ok(
    w: Utils,
    ox: int,
    oy: int,
    sx: int,
    sy: int,
    fuel: nat,
    res: Option<(i64, u8)>,
) -> bool {
    &&& ((ray_target_from(w, ox, oy, sx, sy, fuel) is None) == (res is None))
    &&& (ray_target_from(w, ox, oy, sx, sy, fuel) matches Some(h) ==> (res matches Some(d)
        && d.1 as int == h.0 && d.0 >= 0 && is_floor_sqrt(dist_sq(ox, oy, h.1, h.2), d.0 as int)))
}

/// A wall hit reported by the row scan really is a colliding wall cell.
proof fn lemma_first_wall_hit_in_row_props(
    w: Utils,
    x: int,
    y: int,
    bw: int,
    bh: int,
    j: int,
    i: int,
)
    ensures
        w.first_wall_hit_in_row(x, y, bw, bh, j, i) matches Some(c) ==> w.wall_cell_hit(
            x,
            y,
            bw,
            bh,
            c.0,
            c.1,
        ),
    decreases w.walls@[j]@.len() - i,
{
    if !(0 <= j < w.walls@.len()) || !(0 <= i) || i >= w.walls@[j]@.len() {
    } else if w.wall_cell_hit(x, y, bw, bh, i, j) {
    } else {
        lemma_first_wall_hit_in_row_props(w, x, y, bw, bh, j, i + 1);
    }
}

/// A wall hit reported by the grid scan really is a colliding wall cell.
proof fn lemma_first_wall_hit_props(w: Utils, x: int, y: int, bw: int, bh: int, j: int)
    ensures
        w.first_wall_hit_from_row(x, y, bw, bh, j) matches Some(c) ==> w.wall_cell_hit(
            x,
            y,
            bw,
            bh,
            c.0,
            c.1,
        ),
    decreases w.walls@.len() - j,
{
    if !(0 <= j) || j >= w.walls@.len() {
    } else {
        lemma_first_wall_hit_in_row_props(w, x, y, bw, bh, j, 0);
        lemma_first_wall_hit_props(w, x, y, bw, bh, j + 1);
    }
}

/// A player hit reported by the self-excluding scan is an existing,
/// colliding player other than the excluded one.
proof fn lemma_first_other_player_props(
    w: Utils,
    x: int,
    y: int,
    bw: int,
    bh: int,
    excl: int,
    i: int,
)
    ensures
        w.first_colliding_other_player_from(x, y, bw, bh, excl, i) matches Some(p) ==> 0 <= p
            < w.players@.len() && p != excl && w.player_box_hit(x, y, bw, bh, p),
    decreases w.players@.len() - i,
{
    if !(0 <= i) || i >= w.players@.len() {
    } else if i != excl && w.player_box_hit(x, y, bw, bh, i) {
    } else {
        lemma_first_other_player_props(w, x, y, bw, bh, excl, i + 1);
    }
}

/// A smoke hit reported by the scan is an existing, opened, colliding
/// smoke.
proof fn lemma_first_smoke_props(w: Utils, x: int, y: int, bw: int, bh: int, i: int)
    ensures
        w.first_colliding_smoke_from(x, y, bw, bh, i) matches Some(s) ==> 0 <= s
            < w.smokes@.len() && w.smoke_box_hit(x, y, bw, bh, s),
    decreases w.smokes@.len() - i,
{
    if !(0 <= i) || i >= w.smokes@.len() {
    } else if w.smoke_box_hit(x, y, bw, bh, i) {
    } else {
        lemma_first_smoke_props(w, x, y, bw, bh, i + 1);
    }
}

impl Utils {
    /// Index of the first player, from `i` on in storage order, other
    /// than `excl`, whose box overlaps the given box.
    pub open spec fn first_colliding_other_player_from(
        self,
        x: int,
        y: int,
        w: int,
        h: int,
        excl: int,
        i: int,
    ) -> Option<int>
        decreases self.players@.len() - i,
    {
        if !(0 <= i) || i >= self.players@.len() {
            None
        } else if i != excl && self.player_box_hit(x, y, w, h, i) {
            Some(i)
        } else {
            self.first_colliding_other_player_from(x, y, w, h, excl, i + 1)
        }
    }

    /// Index of the first player in storage order, other than `excl`,
    /// whose box overlaps the given box.
    pub open spec fn first_colliding_other_player(
        self,
        x: int,
        y: int,
        w: int,
        h: int,
        excl: int,
    ) -> Option<int> {
        self.first_colliding_other_player_from(x, y, w, h, excl, 0)
    }

    /// Scans the players in storage order, skipping the active player,
    /// for one whose box overlaps the given centred box; reports the
    /// first one's coordinates, or `(false, 0, 0)` when no other player
    /// collides. The active player's own box never counts.
    fn is_colliding_with_other_player(&self, x: i64, y: i64, width: i64, height: i64) -> (r: (
        bool,
        i64,
        i64,
    ))
        ensures
            self.first_colliding_other_player(
                x as int,
                y as int,
                width as int,
                height as int,
                self.turn as int,
            ) matches Some(i) ==> r.0 == true && r.1 == self.players@[i].x && r.2
                == self.players@[i].y,
            self.first_colliding_other_player(
                x as int,
                y as int,
                width as int,
                height as int,
                self.turn as int,
            ) is None ==> r == (false, 0i64, 0i64),
            r.0 == (self.first_colliding_other_player(
                x as int,
                y as int,
                width as int,
                height as int,
                self.turn as int,
            ) is Some),
    {
        let mut i: usize = 0;
        while i < self.players.len()
            invariant
                i <= self.players@.len(),
                self.first_colliding_other_player(
                    x as int,
                    y as int,
                    width as int,
                    height as int,
                    self.turn as int,
                ) == self.first_colliding_other_player_from(
                    x as int,
                    y as int,
                    width as int,
                    height as int,
                    self.turn as int,
                    i as int,
                ),
            decreases self.players@.len() - i,
        {
            if i != self.turn {
                let p = &self.players[i];
                if self.is_colliding_with_player(p, x, y, width, height) {
                    return (true, p.x, p.y);
                }
            }
            i += 1;
        }
        (false, 0, 0)
    }

    /// Casts one ray: starting at `(x, y)`, the probe advances by the
    /// step vector once per iteration and reports the first wall, other
    /// player, or opened smoke it strikes, with the floor of the distance
    /// from the origin to the struck coordinate and the category (0 wall,
    /// 1 player, 2 smoke). Returns `None` when `max_steps` probes found
    /// nothing or the probe left the world envelope.
    pub fn ray(&self, x: i64, y: i64, step_x: i64, step_y: i64, max_steps: usize) -> (r: Option<
        (i64, u8),
    >)
        requires
            self.wf(),
            in_env(x as int),
            in_env(y as int),
            step_ok(step_x as int),
            step_ok(step_y as int),
        ensures
            ray_result_ok(
                *self,
                x as int,
                y as int,
                step_x as int,
                step_y as int,
                max_steps as nat,
                r,
            ),
    {
        let mut cx: i64 = x;
        let mut cy: i64 = y;
        let mut k: usize = 0;
        while k < max_steps
            invariant
                k <= max_steps,
                in_env(cx as int),
                in_env(cy as int),
                ray_target_from(
                    *self,
                    x as int,
                    y as int,
                    step_x as int,
                    step_y as int,
                    max_steps as nat,
                ) == ray_target_from(
                    *self,
                    cx as int,
                    cy as int,
                    step_x as int,
                    step_y as int,
                    (max_steps - k) as nat,
                ),
            decreases max_steps - k,
        {
            let nx = cx + step_x;
            let ny = cy + step_y;
            if !(nx >= -COORD_LIMIT && nx <= COORD_LIMIT && ny >= -COORD_LIMIT && ny
                <= COORD_LIMIT) {
                return None;
            }
            let wall = self.is_colliding_with_wall(nx, ny, SCALE, SCALE);
            if wall.0 {
                proof {
                    lemma_first_wall_hit_props(
                        *self,
                        nx as int,
                        ny as int,
                        SCALE as int,
                        SCALE as int,
                        0,
                    );
                }
                let wx: i64 = (wall.1 as i64) * self.wall_width;
                let wy: i64 = (wall.2 as i64) * self.wall_height;
                let d = self.distance(x, y, wx, wy);
                return Some((d, 0));
            }
            let pl = self.is_colliding_with_other_player(nx, ny, SCALE, SCALE);
            if pl.0 {
                proof {
                    lemma_first_other_player_props(
                        *self,
                        nx as int,
                        ny as int,
                        SCALE as int,
                        SCALE as int,
                        self.turn as int,
                        0,
                    );
                }
                let d = self.distance(x, y, pl.1, pl.2);
                return Some((d, 1));
            }
            let sm = self.is_colliding_with_smoke(nx, ny, SCALE, SCALE);
            if sm.0 {
                proof {
                    lemma_first_smoke_props(
                        *self,
                        nx as int,
                        ny as int,
                        SCALE as int,
                        SCALE as int,
                        0,
                    );
                }
                let d = self.distance(x, y, sm.1, sm.2);
                return Some((d, 2));
            }
            proof {
                assert(ray_probe_hit(*self, nx as int, ny as int) is None);
            }
            cx = nx;
            cy = ny;
            k += 1;
        }
        None
    }

    /// The angles of a fan of rays: starting at half the field of view to
    /// the left of the active player's heading and stepping by
    /// `fov / number_of_rays` (all in milli-degrees, integer division),
    /// one angle per step while the accumulated rotation is below `fov`.
    /// That loop rule governs how many rays come out: the count is the
    /// least `k` with `k * (fov / number_of_rays) >= fov`, which is
    /// `number_of_rays` exactly when the step divides `fov` evenly.
    pub fn ray_fov_angles(&self, fov: i64, number_of_rays: i64) -> (r: Vec<i64>)
        requires
            self.wf(),
            1 <= number_of_rays <= fov,
            fov <= 360 * SCALE,
            -GEOM_LIMIT <= self.players@[self.turn as int].rotation <= GEOM_LIMIT,
        ensures
            ({
                let per = (fov as int) / (number_of_rays as int);
                let rot = self.players@[self.turn as int].rotation as int;
                &&& r@.len() >= 1
                &&& (r@.len() as int) * per >= fov as int
                &&& ((r@.len() - 1) as int) * per < fov as int
                &&& forall|m: int|
                    0 <= m < r@.len() ==> #[trigger] r@[m] as int == rot - (fov as int) / 2 + m
                        * per
            }),
    {
        let per: i64 = fov / number_of_rays;
        proof {
            assert(1 <= (fov as int) / (number_of_rays as int) && (fov as int) / (
            number_of_rays as int) <= fov as int) by (nonlinear_arith)
                requires
                    1 <= number_of_rays as int && number_of_rays as int <= fov as int;
            assert(0int * (per as int) == 0) by (nonlinear_arith);
        }
        let half: i64 = fov / 2;
        let t = self.turn;
        let rot: i64 = self.players[t].rotation;
        let mut count: i64 = -half;
        let mut traveled: i64 = 0;
        let mut out: Vec<i64> = Vec::new();
        while traveled < fov
            invariant
                1 <= per <= fov,
                per == (fov as int) / (number_of_rays as int),
                0 <= traveled <= fov + per,
                traveled == (out@.len() as int) * per,
                count == -(half as int) + (out@.len() as int) * per,
                out@.len() == 0 || ((out@.len() - 1) as int) * per < fov as int,
                forall|m: int|
                    0 <= m < out@.len() ==> #[trigger] out@[m] as int == rot - (fov as int) / 2 + m
                        * per,
            decreases fov + per - traveled,
        {
            let ghost m0 = out@.len() as int;
            out.push(rot + count);
            count = count + per;
            traveled = traveled + per;
            proof {
                assert((m0 + 1) * per == m0 * per + per) by (nonlinear_arith);
            }
        }
        out
    }

    /// Casts one ray per step vector from the active player's position,
    /// each bounded by `max_steps`; the host derives the step vectors from
    /// the angles `ray_fov_angles` lays out. Results come in the same
    /// order as the step vectors.
    pub fn ray_fov(&self, steps: &Vec<(i64, i64)>, max_steps: usize) -> (r: Vec<
        Option<(i64, u8)>,
    >)
        requires
            self.wf(),
            forall|m: int|
                0 <= m < steps@.len() ==> step_ok(#[trigger] steps@[m].0 as int) && step_ok(
                    steps@[m].1 as int,
                ),
        ensures
            r@.len() == steps@.len(),
            forall|m: int|
                0 <= m < r@.len() ==> ray_result_ok(
                    *self,
                    self.players@[self.turn as int].x as int,
                    self.players@[self.turn as int].y as int,
                    steps@[m].0 as int,
                    steps@[m].1 as int,
                    max_steps as nat,
                    #[trigger] r@[m],
                ),
    {
        let t = self.turn;
        let px = self.players[t].x;
        let py = self.players[t].y;
        let mut out: Vec<Option<(i64, u8)>> = Vec::new();
        let mut m: usize = 0;
        while m < steps.len()
            invariant
                m <= steps@.len(),
                out@.len() == m,
                px == self.players@[self.turn as int].x,
                py == self.players@[self.turn as int].y,
                forall|q: int|
                    0 <= q < m ==> ray_result_ok(
                        *self,
                        px as int,
                        py as int,
                        steps@[q].0 as int,
                        steps@[q].1 as int,
                        max_steps as nat,
                        #[trigger] out@[q],
                    ),
            decreases steps@.len() - m,
        {
            let s = steps[m];
            let res = self.ray(px, py, s.0, s.1, max_steps);
            out.push(res);
            m += 1;
        }
        out
    }
}

} // verus!
