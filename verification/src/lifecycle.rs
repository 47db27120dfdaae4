//! Turn controller and lifecycle state machines.
//!
//! Movement requests are clamped to one cell per axis and fully reverted if
//! the moved box would overlap a wall, another player or leave the world
//! envelope. Firing spawns a bullet or smoke at the active player's pose
//! and decrements the resource, silently doing nothing when it is spent.
//! The two tick operations rebuild the live entity sets atomically: a
//! bullet advances one step and is dropped the instant it overlaps a wall
//! (or leaves the envelope); a smoke moves, settles — early on wall
//! contact, with its position reverted one step — opens, and is removed
//! once it has stayed open longer than its limit.

use crate::geometry::{boxes_collide, clamp_to};
use crate::world::{bullet_ok, in_env, smoke_ok, step_ok, Bullet, Player, Smoke, Utils};
use crate::{COORD_LIMIT, SCALE};
use vstd::prelude::*;

verus! {

/// A movement delta clamped to at most one cell per tick on its axis.
pub open spec fn clamp_delta(v: int) -> int {
    clamp_to(v, -(SCALE as int), SCALE as int)
}

/// `p` with its position replaced.
pub open spec fn with_pos(p: Player, x: int, y: int) -> Player {
    Player {
        x: x as i64,
        y: y as i64,
        rotation: p.rotation,
        ammo: p.ammo,
        sound: p.sound,
        memory_values: p.memory_values,
        memory_keys: p.memory_keys,
        smokes: p.smokes,
    }
}

/// `p` with its facing angle replaced.
pub open spec fn with_rotation(p: Player, rotation: i64) -> Player {
    Player {
        x: p.x,
        y: p.y,
        rotation,
        ammo: p.ammo,
        sound: p.sound,
        memory_values: p.memory_values,
        memory_keys: p.memory_keys,
        smokes: p.smokes,
    }
}

/// `p` with its last-emitted sound level replaced.
pub open spec fn with_sound(p: Player, sound: i64) -> Player {
    Player {
        x: p.x,
        y: p.y,
        rotation: p.rotation,
        ammo: p.ammo,
        sound,
        memory_values: p.memory_values,
        memory_keys: p.memory_keys,
        smokes: p.smokes,
    }
}

/// `p` with its memory-value sequence replaced.
pub open spec fn with_memory_values(p: Player, value: Vec<i64>) -> Player {
    Player {
        x: p.x,
        y: p.y,
        rotation: p.rotation,
        ammo: p.ammo,
        sound: p.sound,
        memory_values: value,
        memory_keys: p.memory_keys,
        smokes: p.smokes,
    }
}

/// `p` with its memory-key sequence replaced.
pub open spec fn with_memory_keys(p: Player, value: Vec<i64>) -> Player {
    Player {
        x: p.x,
        y: p.y,
        rotation: p.rotation,
        ammo: p.ammo,
        sound: p.sound,
        memory_values: p.memory_values,
        memory_keys: value,
        smokes: p.smokes,
    }
}

/// `p` with its ammunition count replaced.
pub open spec fn with_ammo(p: Player, ammo: u8) -> Player {
    Player {
        x: p.x,
        y: p.y,
        rotation: p.rotation,
        ammo,
        sound: p.sound,
        memory_values: p.memory_values,
        memory_keys: p.memory_keys,
        smokes: p.smokes,
    }
}

/// `p` with its smoke-charge count replaced.
pub open spec fn with_smokes(p: Player, smokes: u8) -> Player {
    Player {
        x: p.x,
        y: p.y,
        rotation: p.rotation,
        ammo: p.ammo,
        sound: p.sound,
        memory_values: p.memory_values,
        memory_keys: p.memory_keys,
        smokes,
    }
}

/// The bullet spawned when player `p` (at index `turn`) fires with the
/// given step vector.
pub open spec fn fired_bullet(p: Player, turn: usize, step_x: i64, step_y: i64) -> Bullet {
    Bullet { x: p.x, y: p.y, rotation: p.rotation, step_x, step_y, fired_by: turn }
}

/// The smoke spawned when player `p` fires one with the given step vector.
pub open spec fn fired_smoke(p: Player, step_x: i64, step_y: i64, radius: i64) -> Smoke {
    Smoke {
        x: p.x,
        y: p.y,
        rotation: p.rotation,
        step_x,
        step_y,
        radius,
        frames_moved: 0,
        opened: false,
        frames_opened: 0,
    }
}

/// Everything but the entity sets and the turn index is unchanged.
pub open spec fn same_config(a: Utils, b: Utils) -> bool {
    &&& a.walls@ == b.walls@
    &&& a.wall_width == b.wall_width
    &&& a.wall_height == b.wall_height
    &&& a.player_width == b.player_width
    &&& a.player_height == b.player_height
    &&& a.ammo_total == b.ammo_total
    &&& a.smokes_radius == b.smokes_radius
    &&& a.smokes_max_move == b.smokes_max_move
    &&& a.smokes_max_open == b.smokes_max_open
}

/// `b` advanced one tick along its step vector.
pub open spec fn advance_bullet(b: Bullet) -> Bullet {
    Bullet {
        x: (b.x + b.step_x) as i64,
        y: (b.y + b.step_y) as i64,
        rotation: b.rotation,
        step_x: b.step_x,
        step_y: b.step_y,
        fired_by: b.fired_by,
    }
}

/// An advanced bullet stays live: it is inside the world envelope and its
/// box overlaps no wall cell.
pub open spec fn bullet_kept(w: Utils, b: Bullet) -> bool {
    &&& in_env(b.x as int)
    &&& in_env(b.y as int)
    &&& w.first_wall_hit(b.x as int, b.y as int, SCALE as int, SCALE as int) is None
}

/// The live bullet set after one tick, for the bullets from index `i` on:
/// each is advanced one step and kept exactly when `bullet_kept` holds of
/// the advanced bullet.
pub open spec fn surviving_bullets_from(w: Utils, i: int) -> Seq<Bullet>
    decreases w.bullets@.len() - i,
{
    if i < 0 || i >= w.bullets@.len() {
        Seq::empty()
    } else {
        let adv = advance_bullet(w.bullets@[i]);
        if bullet_kept(w, adv) {
            seq![adv] + surviving_bullets_from(w, i + 1)
        } else {
            surviving_bullets_from(w, i + 1)
        }
    }
}

/// Bullet `j` hits player `i`: it was fired by someone else and their
/// boxes overlap.
pub open spec fn bullet_hits_player(w: Utils, i: int, j: int) -> bool {
    &&& w.bullets@[j].fired_by as int != i
    &&& boxes_collide(
        w.bullets@[j].x as int,
        w.bullets@[j].y as int,
        SCALE as int,
        SCALE as int,
        w.players@[i].x as int,
        w.players@[i].y as int,
        w.player_width as int,
        w.player_height as int,
    )
}

/// One copy of index `i` for every bullet from `j` on that hits player
/// `i`, in bullet storage order.
pub open spec fn hits_for_player_from(w: Utils, i: int, j: int) -> Seq<usize>
    decreases w.bullets@.len() - j,
{
    if j < 0 || j >= w.bullets@.len() {
        Seq::empty()
    } else {
        let rest = hits_for_player_from(w, i, j + 1);
        if bullet_hits_player(w, i, j) {
            seq![i as usize] + rest
        } else {
            rest
        }
    }
}

/// The hit report from player `i` on: player indices in storage order,
/// one copy per qualifying bullet, not deduplicated.
pub open spec fn players_hit_from(w: Utils, i: int) -> Seq<usize>
    decreases w.players@.len() - i,
{
    if i < 0 || i >= w.players@.len() {
        Seq::empty()
    } else {
        hits_for_player_from(w, i, 0) + players_hit_from(w, i + 1)
    }
}

/// An element of a concatenation comes from one of its halves.
proof fn lemma_seq_concat_contains<A>(s1: Seq<A>, s2: Seq<A>, x: A)
    ensures
        (s1 + s2).contains(x) <==> s1.contains(x) || s2.contains(x),
{
    if (s1 + s2).contains(x) {
        let idx = choose|idx: int| 0 <= idx < (s1 + s2).len() && (s1 + s2)[idx] == x;
        if idx < s1.len() {
            assert(s1[idx] == x);
        } else {
            assert(s2[idx - s1.len()] == x);
        }
    }
    if s1.contains(x) {
        let idx = choose|idx: int| 0 <= idx < s1.len() && s1[idx] == x;
        assert((s1 + s2)[idx] == x);
    }
    if s2.contains(x) {
        let idx = choose|idx: int| 0 <= idx < s2.len() && s2[idx] == x;
        assert((s1 + s2)[s1.len() + idx] == x);
    }
}

/// Every element of one player's hit list is that player's index.
proof fn lemma_hits_for_player_elems(w: Utils, i: int, j: int)
    ensures
        forall|k: int|
            0 <= k < hits_for_player_from(w, i, j).len() ==> #[trigger] hits_for_player_from(
                w,
                i,
                j,
            )[k] == i as usize,
    decreases w.bullets@.len() - j,
{
    if j < 0 || j >= w.bullets@.len() {
    } else {
        lemma_hits_for_player_elems(w, i, j + 1);
        let rest = hits_for_player_from(w, i, j + 1);
        if bullet_hits_player(w, i, j) {
            assert forall|k: int|
                0 <= k < hits_for_player_from(w, i, j).len() implies #[trigger] hits_for_player_from(
                w,
                i,
                j,
            )[k] == i as usize by {
                if k > 0 {
                    assert(hits_for_player_from(w, i, j)[k] == rest[k - 1]);
                }
            }
        }
    }
}

/// One player's hit list is non-empty exactly when some bullet from `j`
/// on qualifies against that player.
proof fn lemma_hits_for_player_nonempty(w: Utils, i: int, j: int)
    requires
        0 <= j,
    ensures
        (hits_for_player_from(w, i, j).len() > 0) <==> (exists|j2: int|
            j <= j2 < w.bullets@.len() && #[trigger] bullet_hits_player(w, i, j2)),
    decreases w.bullets@.len() - j,
{
    if j >= w.bullets@.len() {
    } else {
        lemma_hits_for_player_nonempty(w, i, j + 1);
        if bullet_hits_player(w, i, j) {
        } else {
            if exists|j2: int| j <= j2 < w.bullets@.len() && #[trigger] bullet_hits_player(
                w,
                i,
                j2,
            ) {
                let j2 = choose|j2: int|
                    j <= j2 < w.bullets@.len() && #[trigger] bullet_hits_player(w, i, j2);
                assert(j + 1 <= j2);
            }
        }
    }
}

/// Membership in the hit report, from player `k` on.
proof fn lemma_players_hit_membership_from(w: Utils, k: int, u: usize)
    requires
        0 <= k,
    ensures
        players_hit_from(w, k).contains(u) <==> (k <= (u as int) && (u as int)
            < w.players@.len() && exists|j: int|
            0 <= j < w.bullets@.len() && #[trigger] bullet_hits_player(w, u as int, j)),
    decreases w.players@.len() - k,
{
    if k >= w.players@.len() {
        assert(!players_hit_from(w, k).contains(u));
    } else {
        lemma_players_hit_membership_from(w, k + 1, u);
        let head = hits_for_player_from(w, k, 0);
        let tail = players_hit_from(w, k + 1);
        lemma_seq_concat_contains(head, tail, u);
        lemma_hits_for_player_elems(w, k, 0);
        lemma_hits_for_player_nonempty(w, k, 0);
        assert(w.players@.len() == w.players.len());
        if head.contains(u) {
            let idx = choose|idx: int| 0 <= idx < head.len() && head[idx] == u;
            assert(head[idx] == k as usize);
            assert(u as int == k);
        }
        if u as int == k && head.len() > 0 {
            assert(head[0] == u);
            assert(head.contains(u));
        }
    }
}

/// Hit-report membership: an index stands somewhere in the report exactly
/// when it names a player whose box some bullet fired by another player
/// overlaps. In particular a player overlapped by a qualifying bullet is
/// reported, and nobody else is.
pub proof fn lemma_hit_report_membership(w: Utils, u: usize)
    ensures
        players_hit_from(w, 0).contains(u) <==> ((u as int) < w.players@.len() && (exists|j: int|
            0 <= j < w.bullets@.len() && #[trigger] bullet_hits_player(w, u as int, j))),
{
    lemma_players_hit_membership_from(w, 0, u);
}

/// One tick of a single smoke's state machine. `None` means the smoke is
/// removed. While moving it advances one step; on wall contact (or at the
/// envelope) the position is reverted one step and the move budget is
/// exhausted. A settled smoke opens; an opened one counts frames and is
/// removed once it has stayed open longer than the limit.
pub open spec fn smoke_step(w: Utils, s: Smoke) -> Option<Smoke> {
    if s.frames_moved < w.smokes_max_move && !s.opened {
        let nx = s.x + s.step_x;
        let ny = s.y + s.step_y;
        if !in_env(nx as int) || !in_env(ny as int) || w.point_near_wall(nx as int, ny as int) {
            Some(
                Smoke {
                    x: s.x,
                    y: s.y,
                    rotation: s.rotation,
                    step_x: s.step_x,
                    step_y: s.step_y,
                    radius: s.radius,
                    frames_moved: w.smokes_max_move,
                    opened: s.opened,
                    frames_opened: s.frames_opened,
                },
            )
        } else {
            Some(
                Smoke {
                    x: nx as i64,
                    y: ny as i64,
                    rotation: s.rotation,
                    step_x: s.step_x,
                    step_y: s.step_y,
                    radius: s.radius,
                    frames_moved: (s.frames_moved + 1) as u8,
                    opened: s.opened,
                    frames_opened: s.frames_opened,
                },
            )
        }
    } else if s.opened {
        if s.frames_opened + 1 > w.smokes_max_open {
            None
        } else {
            Some(
                Smoke {
                    x: s.x,
                    y: s.y,
                    rotation: s.rotation,
                    step_x: s.step_x,
                    step_y: s.step_y,
                    radius: s.radius,
                    frames_moved: s.frames_moved,
                    opened: s.opened,
                    frames_opened: (s.frames_opened + 1) as u8,
                },
            )
        }
    } else {
        Some(
            Smoke {
                x: s.x,
                y: s.y,
                rotation: s.rotation,
                step_x: s.step_x,
                step_y: s.step_y,
                radius: s.radius,
                frames_moved: s.frames_moved,
                opened: true,
                frames_opened: s.frames_opened,
            },
        )
    }
}

/// The live smoke set after one tick, for the smokes from index `i` on.
pub open spec fn surviving_smokes_from(w: Utils, i: int) -> Seq<Smoke>
    decreases w.smokes@.len() - i,
{
    if i < 0 || i >= w.smokes@.len() {
        Seq::empty()
    } else {
        match smoke_step(w, w.smokes@[i]) {
            Some(s2) => seq![s2] + surviving_smokes_from(w, i + 1),
            None => surviving_smokes_from(w, i + 1),
        }
    }
}

/// The turn index after one advance.
pub open spec fn next_turn_index(t: int, n: int) -> int
    recommends
        n >= 1,
{
    (t + 1) % n
}

/// The turn index after `k` advances.
pub open spec fn iterate_next_turn(t: int, n: int, k: nat) -> int
    decreases k,
{
    if k == 0 {
        t
    } else {
        next_turn_index(iterate_next_turn(t, n, (k - 1) as nat), n)
    }
}

/// Advancing the turn `k` times from `t` lands on `(t + k) mod n`.
proof fn lemma_iterate_next_turn_mod(t: int, n: int, k: nat)
    requires
        n >= 1,
        0 <= t < n,
    ensures
        iterate_next_turn(t, n, k) == (t + k) % n,
    decreases k,
{
    if k == 0 {
        assert(t % n == t) by (nonlinear_arith)
            requires
                0 <= t && t < n;
    } else {
        lemma_iterate_next_turn_mod(t, n, (k - 1) as nat);
        assert(((t + (k - 1)) % n + 1) % n == (t + k) % n) by (nonlinear_arith)
            requires
                n >= 1 && k >= 1;
    }
}

/// Turn wrap: advancing the turn once per player returns it to where it
/// started.
pub proof fn lemma_turn_wraps(t: int, n: int)
    requires
        n >= 1,
        0 <= t < n,
    ensures
        iterate_next_turn(t, n, n as nat) == t,
{
    lemma_iterate_next_turn_mod(t, n, n as nat);
    assert((t + n) % n == t) by (nonlinear_arith)
        requires
            n >= 1 && 0 <= t && t < n;
}

/// Every bullet in the post-tick set satisfies `bullet_kept`.
proof fn lemma_surviving_bullets_kept(w: Utils, i: int)
    ensures
        forall|b: Bullet| surviving_bullets_from(w, i).contains(b) ==> bullet_kept(w, b),
    decreases w.bullets@.len() - i,
{
    if i < 0 || i >= w.bullets@.len() {
    } else {
        lemma_surviving_bullets_kept(w, i + 1);
        let adv = advance_bullet(w.bullets@[i]);
        assert forall|b: Bullet| surviving_bullets_from(w, i).contains(b) implies bullet_kept(
            w,
            b,
        ) by {
            let s = surviving_bullets_from(w, i);
            let idx = choose|idx: int| 0 <= idx < s.len() && s[idx] == b;
            if bullet_kept(w, adv) {
                if idx == 0 {
                } else {
                    assert(surviving_bullets_from(w, i + 1)[idx - 1] == b);
                    assert(surviving_bullets_from(w, i + 1).contains(b));
                }
            } else {
                assert(surviving_bullets_from(w, i + 1).contains(b));
            }
        }
    }
}

/// Monotonic removal: a bullet whose advanced position overlaps a wall
/// cell (or leaves the envelope) is absent from the set a bullet tick
/// produces — it is removed on exactly that tick.
pub proof fn lemma_bullet_removed_on_wall_hit(w: Utils, b: Bullet)
    requires
        !bullet_kept(w, advance_bullet(b)),
    ensures
        !surviving_bullets_from(w, 0).contains(advance_bullet(b)),
{
    lemma_surviving_bullets_kept(w, 0);
}

/// The advanced copy of bullet `i` stands in the post-tick set from
/// position `k` on, provided it stays clear of walls and envelope.
proof fn lemma_bullet_survives_from(w: Utils, k: int, i: int)
    requires
        0 <= k <= i < w.bullets@.len(),
        bullet_kept(w, advance_bullet(w.bullets@[i])),
    ensures
        surviving_bullets_from(w, k).contains(advance_bullet(w.bullets@[i])),
    decreases i - k,
{
    let adv = advance_bullet(w.bullets@[i]);
    if k == i {
        assert(surviving_bullets_from(w, k)[0] == adv);
        assert(surviving_bullets_from(w, k).contains(adv));
    } else {
        lemma_bullet_survives_from(w, k + 1, i);
        let tail = surviving_bullets_from(w, k + 1);
        let idx = choose|idx: int| 0 <= idx < tail.len() && tail[idx] == adv;
        if bullet_kept(w, advance_bullet(w.bullets@[k])) {
            assert(surviving_bullets_from(w, k)[idx + 1] == adv);
        } else {
            assert(surviving_bullets_from(w, k)[idx] == adv);
        }
        assert(surviving_bullets_from(w, k).contains(adv));
    }
}

/// Survival: a bullet in open space — whose advanced position stays inside
/// the envelope and clear of every wall cell — is still live after the
/// tick, as its advanced copy.
pub proof fn lemma_bullet_survives_tick(w: Utils, i: int)
    requires
        0 <= i < w.bullets@.len(),
        bullet_kept(w, advance_bullet(w.bullets@[i])),
    ensures
        surviving_bullets_from(w, 0).contains(advance_bullet(w.bullets@[i])),
{
    lemma_bullet_survives_from(w, 0, i);
}

/// The state of one smoke after `k` ticks; `None` once it was removed.
pub open spec fn smoke_iter(w: Utils, s: Smoke, k: nat) -> Option<Smoke>
    decreases k,
{
    if k == 0 {
        Some(s)
    } else {
        match smoke_iter(w, s, (k - 1) as nat) {
            Some(s2) => smoke_step(w, s2),
            None => None,
        }
    }
}

/// Iterating a smoke `a + b` ticks is iterating `a`, then `b` more.
proof fn lemma_smoke_iter_add(w: Utils, s: Smoke, a: nat, b: nat)
    ensures
        smoke_iter(w, s, a + b) == (match smoke_iter(w, s, a) {
            Some(s2) => smoke_iter(w, s2, b),
            None => None,
        }),
    decreases b,
{
    if b == 0 {
    } else {
        lemma_smoke_iter_add(w, s, a, (b - 1) as nat);
        assert(a + b == (a + (b - 1) as nat) + 1);
    }
}

/// The path of a still-moving smoke is clear for its first `k` steps: each
/// stepped position stays in the envelope and away from every wall.
pub open spec fn smoke_path_clear(w: Utils, s: Smoke, k: int) -> bool {
    forall|m: int|
        1 <= m <= k ==> {
            &&& in_env(s.x + m * s.step_x)
            &&& in_env(s.y + m * s.step_y)
            &&& !w.point_near_wall(s.x + #[trigger] (m * s.step_x), s.y + m * s.step_y)
        }
}

/// A fresh smoke with a clear path is, after `k <= max_move` ticks, still
/// unopened, `k` cells along its step vector, with `k` move frames spent.
proof fn lemma_smoke_moving_phase(w: Utils, s: Smoke, k: nat)
    requires
        smoke_ok(s),
        s.frames_moved == 0,
        !s.opened,
        k <= w.smokes_max_move,
        smoke_path_clear(w, s, k as int),
    ensures
        smoke_iter(w, s, k) matches Some(s2) && {
            &&& s2.x as int == s.x + k * s.step_x
            &&& s2.y as int == s.y + k * s.step_y
            &&& s2.frames_moved == k
            &&& s2.opened == s.opened
            &&& s2.frames_opened == s.frames_opened
            &&& s2.step_x == s.step_x && s2.step_y == s.step_y
            &&& s2.rotation == s.rotation && s2.radius == s.radius
        },
    decreases k,
{
    if k == 0 {
    } else {
        lemma_smoke_moving_phase(w, s, (k - 1) as nat);
        let s2 = smoke_iter(w, s, (k - 1) as nat).unwrap();
        assert(((k - 1) as nat) * s.step_x + s.step_x == k * s.step_x) by (nonlinear_arith)
            requires
                k >= 1;
        assert(((k - 1) as nat) * s.step_y + s.step_y == k * s.step_y) by (nonlinear_arith)
            requires
                k >= 1;
        assert(in_env(s.x + k * s.step_x) && in_env(s.y + k * s.step_y) && !w.point_near_wall(
            s.x + k * s.step_x,
            s.y + k * s.step_y,
        ));
    }
}

/// An opened smoke runs `t <= max_open` more ticks, only counting frames.
proof fn lemma_smoke_open_phase(w: Utils, s: Smoke, t: nat)
    requires
        s.opened,
        s.frames_opened == 0,
        t <= w.smokes_max_open,
    ensures
        smoke_iter(w, s, t) matches Some(s2) && {
            &&& s2.frames_opened == t
            &&& s2.opened
            &&& s2.x == s.x && s2.y == s.y
            &&& s2.frames_moved == s.frames_moved
        },
    decreases t,
{
    if t == 0 {
    } else {
        lemma_smoke_open_phase(w, s, (t - 1) as nat);
    }
}

/// Smoke lifecycle length: a fresh smoke whose path is clear opens exactly
/// one tick after its move budget is spent, counts open frames one per
/// tick, and is removed one tick after the open limit is exceeded.
pub proof fn lemma_smoke_lifecycle(w: Utils, s: Smoke)
    requires
        smoke_ok(s),
        s.frames_moved == 0,
        !s.opened,
        s.frames_opened == 0,
        smoke_path_clear(w, s, w.smokes_max_move as int),
    ensures
        smoke_iter(w, s, (w.smokes_max_move + 1) as nat) matches Some(o) && o.opened
            && o.frames_opened == 0,
        forall|k: nat|
            w.smokes_max_move + 1 <= k <= w.smokes_max_move + 1 + w.smokes_max_open ==> (
            #[trigger] smoke_iter(w, s, k) matches Some(o2) && o2.opened && o2.frames_opened == k
                - (w.smokes_max_move + 1)),
        smoke_iter(w, s, (w.smokes_max_move + 1 + w.smokes_max_open + 1) as nat) is None,
{
    let mm = w.smokes_max_move as nat;
    lemma_smoke_moving_phase(w, s, mm);
    let settled = smoke_iter(w, s, mm).unwrap();
    lemma_smoke_iter_add(w, s, mm, 1);
    let opened = smoke_iter(w, s, mm + 1).unwrap();
    assert(Some(opened) == smoke_step(w, settled));
    assert(opened.opened && opened.frames_opened == 0);
    assert forall|k: nat|
        w.smokes_max_move + 1 <= k <= w.smokes_max_move + 1 + w.smokes_max_open implies (
    #[trigger] smoke_iter(w, s, k) matches Some(o2) && o2.opened && o2.frames_opened == k - (
    w.smokes_max_move + 1)) by {
        let t = (k - (mm + 1)) as nat;
        lemma_smoke_iter_add(w, s, mm + 1, t);
        lemma_smoke_open_phase(w, opened, t);
        assert(k == mm + 1 + t);
    }
    let end = smoke_iter(w, opened, w.smokes_max_open as nat).unwrap();
    lemma_smoke_iter_add(w, s, mm + 1, w.smokes_max_open as nat);
    lemma_smoke_open_phase(w, opened, w.smokes_max_open as nat);
    lemma_smoke_iter_add(w, s, mm + 1 + w.smokes_max_open as nat, 1);
    assert(smoke_step(w, end) is None);
    assert((w.smokes_max_move + 1 + w.smokes_max_open + 1) as nat == (mm + 1
        + w.smokes_max_open as nat) + 1);
}

impl Utils {
    /// Whether a move of the active player to `(nx, ny)` is blocked: the
    /// target leaves the world envelope, or the moved box overlaps a wall
    /// cell or any other player's box — whatever the player count. A
    /// blocked move is fully reverted on both axes.
    pub open spec fn move_blocked(self, nx: int, ny: int) -> bool {
        ||| !in_env(nx)
        ||| !in_env(ny)
        ||| self.first_wall_hit(nx, ny, self.player_width as int, self.player_height as int)
            is Some
        ||| exists|i: int|
            0 <= i < self.players@.len() && i != self.turn as int && self.player_box_hit(
                nx,
                ny,
                self.player_width as int,
                self.player_height as int,
                i,
            )
    }

    /// Applies a movement request to the active player: each axis delta is
    /// clamped to one cell, and the move is kept only if the new box
    /// collides with nothing; otherwise both coordinates stay unchanged.
    pub fn player_move(&mut self, controller_x: i64, controller_y: i64)
        requires
            old(self).wf(),
        ensures
            final(self).wf(),
            same_config(*old(self), *final(self)),
            final(self).bullets@ == old(self).bullets@,
            final(self).smokes@ == old(self).smokes@,
            final(self).turn == old(self).turn,
            ({
                let p = old(self).players@[old(self).turn as int];
                let nx = p.x + clamp_delta(controller_x as int);
                let ny = p.y + clamp_delta(controller_y as int);
                if old(self).move_blocked(nx, ny) {
                    final(self).players@ == old(self).players@
                } else {
                    final(self).players@ == old(self).players@.update(
                        old(self).turn as int,
                        with_pos(p, nx, ny),
                    )
                }
            }),
    {
        let t = self.turn;
        let cx: i64 = if controller_x < -SCALE {
            -SCALE
        } else if controller_x > SCALE {
            SCALE
        } else {
            controller_x
        };
        let cy: i64 = if controller_y < -SCALE {
            -SCALE
        } else if controller_y > SCALE {
            SCALE
        } else {
            controller_y
        };
        let nx = self.players[t].x + cx;
        let ny = self.players[t].y + cy;
        let mut blocked: bool = !(nx >= -COORD_LIMIT && nx <= COORD_LIMIT && ny >= -COORD_LIMIT
            && ny <= COORD_LIMIT);
        if !blocked {
            if self.is_colliding_with_wall(nx, ny, self.player_width, self.player_height).0 {
                blocked = true;
            } else {
                let mut i: usize = 0;
                let mut found: bool = false;
                while i < self.players.len()
                    invariant
                        i <= self.players@.len(),
                        found == exists|k: int|
                            0 <= k < i as int && k != self.turn as int
                                && self.player_box_hit(
                                nx as int,
                                ny as int,
                                self.player_width as int,
                                self.player_height as int,
                                k,
                            ),
                    decreases self.players@.len() - i,
                {
                    if i != t {
                        if self.is_colliding_with_player(
                            &self.players[i],
                            nx,
                            ny,
                            self.player_width,
                            self.player_height,
                        ) {
                            proof {
                                assert(self.player_box_hit(
                                    nx as int,
                                    ny as int,
                                    self.player_width as int,
                                    self.player_height as int,
                                    i as int,
                                ));
                            }
                            found = true;
                        }
                    }
                    i += 1;
                }
                blocked = found;
            }
        }
        if !blocked {
            let p = &mut self.players[t];
            p.x = nx;
            p.y = ny;
        }
    }

    /// Advances the active-player index, wrapping past the last player.
    pub fn next_turn(&mut self)
        requires
            old(self).wf(),
        ensures
            final(self).wf(),
            same_config(*old(self), *final(self)),
            final(self).players@ == old(self).players@,
            final(self).bullets@ == old(self).bullets@,
            final(self).smokes@ == old(self).smokes@,
            final(self).turn as int == next_turn_index(
                old(self).turn as int,
                old(self).players@.len() as int,
            ),
    {
        let n = self.players.len();
        proof {
            assert(self.turn < n);
        }
        self.turn = (self.turn + 1) % n;
    }

    /// Fires a bullet from the active player's pose with the given step
    /// vector (the host's unit vector for the player's heading, in
    /// milli-units per tick). Does nothing when the player has no ammo;
    /// otherwise the bullet is appended and one round is spent.
    pub fn fire_bullet(&mut self, step_x: i64, step_y: i64)
        requires
            old(self).wf(),
            step_ok(step_x as int),
            step_ok(step_y as int),
        ensures
            final(self).wf(),
            same_config(*old(self), *final(self)),
            final(self).smokes@ == old(self).smokes@,
            final(self).turn == old(self).turn,
            ({
                let t = old(self).turn;
                let p = old(self).players@[t as int];
                if p.ammo > 0 {
                    final(self).bullets@ == old(self).bullets@.push(
                        fired_bullet(p, t, step_x, step_y),
                    ) && final(self).players@ == old(self).players@.update(
                        t as int,
                        with_ammo(p, (p.ammo - 1) as u8),
                    )
                } else {
                    final(self).bullets@ == old(self).bullets@ && final(self).players@ == old(
                        self,
                    ).players@
                }
            }),
    {
        let t = self.turn;
        if self.players[t].ammo > 0 {
            let b = Bullet {
                x: self.players[t].x,
                y: self.players[t].y,
                rotation: self.players[t].rotation,
                step_x,
                step_y,
                fired_by: t,
            };
            self.bullets.push(b);
            let p = &mut self.players[t];
            p.ammo = p.ammo - 1;
        }
    }

    /// Fires a smoke from the active player's pose with the given step
    /// vector. Does nothing when the player has no smoke charges left;
    /// otherwise the smoke is appended, fresh and unopened, and one charge
    /// is spent.
    pub fn fire_smoke(&mut self, step_x: i64, step_y: i64)
        requires
            old(self).wf(),
            step_ok(step_x as int),
            step_ok(step_y as int),
        ensures
            final(self).wf(),
            same_config(*old(self), *final(self)),
            final(self).bullets@ == old(self).bullets@,
            final(self).turn == old(self).turn,
            ({
                let t = old(self).turn;
                let p = old(self).players@[t as int];
                if p.smokes > 0 {
                    final(self).smokes@ == old(self).smokes@.push(
                        fired_smoke(p, step_x, step_y, old(self).smokes_radius),
                    ) && final(self).players@ == old(self).players@.update(
                        t as int,
                        with_smokes(p, (p.smokes - 1) as u8),
                    )
                } else {
                    final(self).smokes@ == old(self).smokes@ && final(self).players@ == old(
                        self,
                    ).players@
                }
            }),
    {
        let t = self.turn;
        if self.players[t].smokes > 0 {
            let s = Smoke {
                x: self.players[t].x,
                y: self.players[t].y,
                rotation: self.players[t].rotation,
                step_x,
                step_y,
                radius: self.smokes_radius,
                frames_moved: 0,
                opened: false,
                frames_opened: 0,
            };
            self.smokes.push(s);
            let p = &mut self.players[t];
            p.smokes = p.smokes - 1;
        }
    }

    /// Sets the active player's facing angle (milli-degrees, unvalidated).
    pub fn set_rotation(&mut self, rotation: i64)
        requires
            old(self).wf(),
        ensures
            final(self).wf(),
            same_config(*old(self), *final(self)),
            final(self).bullets@ == old(self).bullets@,
            final(self).smokes@ == old(self).smokes@,
            final(self).turn == old(self).turn,
            final(self).players@ == old(self).players@.update(
                old(self).turn as int,
                with_rotation(old(self).players@[old(self).turn as int], rotation),
            ),
    {
        let t = self.turn;
        let p = &mut self.players[t];
        p.rotation = rotation;
    }

    /// Sets the active player's last-emitted sound level.
    pub fn set_sound(&mut self, sound: i64)
        requires
            old(self).wf(),
        ensures
            final(self).wf(),
            same_config(*old(self), *final(self)),
            final(self).bullets@ == old(self).bullets@,
            final(self).smokes@ == old(self).smokes@,
            final(self).turn == old(self).turn,
            final(self).players@ == old(self).players@.update(
                old(self).turn as int,
                with_sound(old(self).players@[old(self).turn as int], sound),
            ),
    {
        let t = self.turn;
        let p = &mut self.players[t];
        p.sound = sound;
    }

    /// Replaces the active player's memory-value sequence; the engine
    /// never interprets it.
    pub fn set_memory_values(&mut self, value: Vec<i64>)
        requires
            old(self).wf(),
        ensures
            final(self).wf(),
            same_config(*old(self), *final(self)),
            final(self).bullets@ == old(self).bullets@,
            final(self).smokes@ == old(self).smokes@,
            final(self).turn == old(self).turn,
            final(self).players@ == old(self).players@.update(
                old(self).turn as int,
                with_memory_values(old(self).players@[old(self).turn as int], value),
            ),
    {
        let t = self.turn;
        let p = &mut self.players[t];
        p.memory_values = value;
    }

    /// Replaces the active player's memory-key sequence; the engine never
    /// interprets it.
    pub fn set_memory_keys(&mut self, value: Vec<i64>)
        requires
            old(self).wf(),
        ensures
            final(self).wf(),
            same_config(*old(self), *final(self)),
            final(self).bullets@ == old(self).bullets@,
            final(self).smokes@ == old(self).smokes@,
            final(self).turn == old(self).turn,
            final(self).players@ == old(self).players@.update(
                old(self).turn as int,
                with_memory_keys(old(self).players@[old(self).turn as int], value),
            ),
    {
        let t = self.turn;
        let p = &mut self.players[t];
        p.memory_keys = value;
    }

    /// One bullet tick: every bullet advances one step along its step
    /// vector, and the live set is rebuilt atomically with exactly those
    /// advanced bullets that hit no wall cell and stayed in the envelope.
    pub fn bullet_tick(&mut self)
        requires
            old(self).wf(),
        ensures
            final(self).wf(),
            same_config(*old(self), *final(self)),
            final(self).players@ == old(self).players@,
            final(self).smokes@ == old(self).smokes@,
            final(self).turn == old(self).turn,
            final(self).bullets@ == surviving_bullets_from(*old(self), 0),
    {
        let ghost w0 = *self;
        let mut out: Vec<Bullet> = Vec::new();
        let mut idx: usize = 0;
        while idx < self.bullets.len()
            invariant
                *self == w0,
                idx <= self.bullets@.len(),
                surviving_bullets_from(w0, 0) == out@ + surviving_bullets_from(w0, idx as int),
                forall|k: int|
                    0 <= k < out@.len() ==> bullet_ok(
                        #[trigger] out@[k],
                        w0.players@.len() as int,
                    ),
            decreases self.bullets@.len() - idx,
        {
            let b = self.bullets[idx];
            let nx = b.x + b.step_x;
            let ny = b.y + b.step_y;
            let nb = Bullet {
                x: nx,
                y: ny,
                rotation: b.rotation,
                step_x: b.step_x,
                step_y: b.step_y,
                fired_by: b.fired_by,
            };
            let ghost out_pre = out@;
            let keep = nx >= -COORD_LIMIT && nx <= COORD_LIMIT && ny >= -COORD_LIMIT && ny
                <= COORD_LIMIT && !self.is_colliding_with_wall(nx, ny, SCALE, SCALE).0;
            if keep {
                out.push(nb);
            }
            proof {
                assert(advance_bullet(w0.bullets@[idx as int]) == nb);
                assert(keep == bullet_kept(w0, nb));
                if keep {
                    assert(out@ =~= out_pre + seq![nb]);
                    assert((out_pre + seq![nb]) + surviving_bullets_from(w0, idx as int + 1)
                        =~= out_pre + (seq![nb] + surviving_bullets_from(w0, idx as int + 1)));
                }
            }
            idx += 1;
        }
        proof {
            assert(out@ + surviving_bullets_from(w0, w0.bullets@.len() as int) =~= out@);
        }
        self.bullets = out;
    }

    /// One smoke tick: every smoke takes one step of its state machine
    /// (`smoke_step`), and the live set is rebuilt atomically from the
    /// survivors.
    pub fn smoke_tick(&mut self)
        requires
            old(self).wf(),
        ensures
            final(self).wf(),
            same_config(*old(self), *final(self)),
            final(self).players@ == old(self).players@,
            final(self).bullets@ == old(self).bullets@,
            final(self).turn == old(self).turn,
            final(self).smokes@ == surviving_smokes_from(*old(self), 0),
    {
        let ghost w0 = *self;
        let mut out: Vec<Smoke> = Vec::new();
        let mut idx: usize = 0;
        while idx < self.smokes.len()
            invariant
                *self == w0,
                idx <= self.smokes@.len(),
                surviving_smokes_from(w0, 0) == out@ + surviving_smokes_from(w0, idx as int),
                forall|k: int| 0 <= k < out@.len() ==> smoke_ok(#[trigger] out@[k]),
            decreases self.smokes@.len() - idx,
        {
            let s = self.smokes[idx];
            let ghost out_pre = out@;
            let ghost step_result = smoke_step(w0, s);
            if s.frames_moved < self.smokes_max_move && !s.opened {
                let nx = s.x + s.step_x;
                let ny = s.y + s.step_y;
                let out_env = !(nx >= -COORD_LIMIT && nx <= COORD_LIMIT && ny >= -COORD_LIMIT && ny
                    <= COORD_LIMIT);
                if out_env || self.is_smoke_colliding_with_wall(nx, ny) {
                    out.push(
                        Smoke {
                            x: s.x,
                            y: s.y,
                            rotation: s.rotation,
                            step_x: s.step_x,
                            step_y: s.step_y,
                            radius: s.radius,
                            frames_moved: self.smokes_max_move,
                            opened: s.opened,
                            frames_opened: s.frames_opened,
                        },
                    );
                } else {
                    out.push(
                        Smoke {
                            x: nx,
                            y: ny,
                            rotation: s.rotation,
                            step_x: s.step_x,
                            step_y: s.step_y,
                            radius: s.radius,
                            frames_moved: s.frames_moved + 1,
                            opened: s.opened,
                            frames_opened: s.frames_opened,
                        },
                    );
                }
            } else if s.opened {
                let nfo = s.frames_opened + 1;
                if nfo <= self.smokes_max_open {
                    out.push(
                        Smoke {
                            x: s.x,
                            y: s.y,
                            rotation: s.rotation,
                            step_x: s.step_x,
                            step_y: s.step_y,
                            radius: s.radius,
                            frames_moved: s.frames_moved,
                            opened: s.opened,
                            frames_opened: nfo,
                        },
                    );
                }
            } else {
                out.push(
                    Smoke {
                        x: s.x,
                        y: s.y,
                        rotation: s.rotation,
                        step_x: s.step_x,
                        step_y: s.step_y,
                        radius: s.radius,
                        frames_moved: s.frames_moved,
                        opened: true,
                        frames_opened: s.frames_opened,
                    },
                );
            }
            proof {
                match step_result {
                    Some(s2) => {
                        assert(out@ =~= out_pre + seq![s2]);
                        assert((out_pre + seq![s2]) + surviving_smokes_from(w0, idx as int + 1)
                            =~= out_pre + (seq![s2] + surviving_smokes_from(w0, idx as int + 1)));
                    },
                    None => {},
                }
            }
            idx += 1;
        }
        proof {
            assert(out@ + surviving_smokes_from(w0, w0.smokes@.len() as int) =~= out@);
        }
        self.smokes = out;
    }

    /// Hit detection: for every (player, bullet) pair where the bullet was
    /// fired by someone else and their boxes overlap, the player's index
    /// is reported — once per qualifying bullet, so a player hit by
    /// several bullets in the same tick appears several times. Bullets are
    /// not removed by being reported.
    pub fn get_players_hit_by_bullet(&self) -> (r: Vec<usize>)
        requires
            self.wf(),
        ensures
            r@ == players_hit_from(*self, 0),
    {
        let mut out: Vec<usize> = Vec::new();
        let mut i: usize = 0;
        while i < self.players.len()
            invariant
                i <= self.players@.len(),
                players_hit_from(*self, 0) == out@ + players_hit_from(*self, i as int),
            decreases self.players@.len() - i,
        {
            let mut j: usize = 0;
            while j < self.bullets.len()
                invariant
                    i < self.players@.len(),
                    j <= self.bullets@.len(),
                    players_hit_from(*self, 0) == out@ + (hits_for_player_from(
                        *self,
                        i as int,
                        j as int,
                    ) + players_hit_from(*self, i as int + 1)),
                decreases self.bullets@.len() - j,
            {
                let b = self.bullets[j];
                let ghost out_pre = out@;
                if b.fired_by != i {
                    if self.is_colliding_with_player(&self.players[i], b.x, b.y, SCALE, SCALE) {
                        out.push(i);
                        proof {
                            assert(out@ =~= out_pre + seq![i as usize]);
                            assert(out_pre + (seq![i as usize] + (hits_for_player_from(
                                *self,
                                i as int,
                                j as int + 1,
                            ) + players_hit_from(*self, i as int + 1))) =~= (out_pre + seq![
                                i as usize,
                            ]) + (hits_for_player_from(*self, i as int, j as int + 1)
                                + players_hit_from(*self, i as int + 1)));
                            assert((seq![i as usize] + hits_for_player_from(
                                *self,
                                i as int,
                                j as int + 1,
                            )) + players_hit_from(*self, i as int + 1) =~= seq![i as usize] + (
                            hits_for_player_from(*self, i as int, j as int + 1)
                                + players_hit_from(*self, i as int + 1)));
                        }
                    }
                }
                j += 1;
            }
            proof {
                assert(hits_for_player_from(*self, i as int, self.bullets@.len() as int)
                    =~= Seq::<usize>::empty());
                assert(Seq::<usize>::empty() + players_hit_from(*self, i as int + 1)
                    =~= players_hit_from(*self, i as int + 1));
            }
            i += 1;
        }
        proof {
            assert(out@ + players_hit_from(*self, self.players@.len() as int) =~= out@);
        }
        out
    }
}

} // verus!
