//! Bullet and smoke lifecycles, and hit detection.

use utils_rs::world::Utils;

fn bordered_grid(cols: usize, rows: usize) -> Vec<Vec<u8>> {
    let mut g: Vec<Vec<u8>> = Vec::new();
    for j in 0..rows {
        let mut row: Vec<u8> = Vec::new();
        for i in 0..cols {
            let wall = j == 0 || j == rows - 1 || i == 0 || i == cols - 1;
            row.push(if wall { 1 } else { 0 });
        }
        g.push(row);
    }
    g
}

fn open_grid(cols: usize, rows: usize) -> Vec<Vec<u8>> {
    let mut g: Vec<Vec<u8>> = Vec::new();
    for _ in 0..rows {
        let mut row: Vec<u8> = Vec::new();
        for _ in 0..cols {
            row.push(0);
        }
        g.push(row);
    }
    g
}

#[test]
fn fire_bullet_spawns_at_pose_and_spends_ammo() {
    let mut w = Utils::new(bordered_grid(11, 13));
    w.set_rotation(180000);
    w.fire_bullet(0, 1000);
    assert_eq!(w.bullets.len(), 1);
    assert_eq!((w.bullets[0].x, w.bullets[0].y), (9000, 11000));
    assert_eq!(w.bullets[0].rotation, 180000);
    assert_eq!((w.bullets[0].step_x, w.bullets[0].step_y), (0, 1000));
    assert_eq!(w.bullets[0].fired_by, 0);
    assert_eq!(w.players[0].ammo, 29);
}

#[test]
fn fire_bullet_without_ammo_does_nothing() {
    let mut w = Utils::new(bordered_grid(11, 13));
    for _ in 0..30 {
        w.fire_bullet(0, -1000);
    }
    assert_eq!(w.bullets.len(), 30);
    assert_eq!(w.players[0].ammo, 0);
    w.fire_bullet(0, -1000);
    assert_eq!(w.bullets.len(), 30);
    assert_eq!(w.players[0].ammo, 0);
}

#[test]
fn bullet_tick_advances_along_step_vector() {
    let mut w = Utils::new(open_grid(11, 13));
    w.fire_bullet(0, -1000);
    w.bullet_tick();
    assert_eq!(w.bullets.len(), 1);
    assert_eq!((w.bullets[0].x, w.bullets[0].y), (9000, 10000));
}

#[test]
fn bullet_adjacent_to_wall_removed_after_one_tick() {
    let mut w = Utils::new(bordered_grid(11, 13));
    // Player 0 stands one cell above the bottom border; a bullet fired
    // downward overlaps wall cell (9, 12) on its first step.
    w.fire_bullet(0, 1000);
    assert_eq!(w.bullets.len(), 1);
    w.bullet_tick();
    assert_eq!(w.bullets.len(), 0);
}

#[test]
fn bullet_in_open_space_survives_ticks() {
    let mut w = Utils::new(open_grid(11, 13));
    w.fire_bullet(0, -1000);
    for k in 1..=50 {
        w.bullet_tick();
        assert_eq!(w.bullets.len(), 1);
        assert_eq!(w.bullets[0].y, 11000 - 1000 * k);
    }
}

#[test]
fn hit_detection_excludes_own_bullet() {
    let mut w = Utils::new(open_grid(11, 13));
    w.fire_bullet(0, -1000);
    // The bullet sits exactly on player 0, its firer: no report.
    assert!(w.get_players_hit_by_bullet().is_empty());
}

#[test]
fn hit_detection_reports_player_once_per_bullet() {
    let mut w = Utils::new(open_grid(11, 13));
    for _ in 0..7 {
        w.player_move(-1000, 0);
    }
    for _ in 0..10 {
        w.player_move(0, -1000);
    }
    assert_eq!((w.players[0].x, w.players[0].y), (2000, 1000));
    w.fire_bullet(-1000, 0);
    w.fire_bullet(-1000, 0);
    w.bullet_tick();
    // Both bullets now overlap player 1 at (1000, 1000): the report
    // holds the index once per qualifying bullet, not deduplicated.
    assert_eq!(w.get_players_hit_by_bullet(), vec![1, 1]);
    // Reporting does not remove bullets.
    assert_eq!(w.bullets.len(), 2);
}

#[test]
fn fire_smoke_spawns_fresh_and_spends_charge() {
    let mut w = Utils::new(bordered_grid(11, 13));
    w.fire_smoke(0, -1000);
    assert_eq!(w.smokes.len(), 1);
    assert_eq!((w.smokes[0].x, w.smokes[0].y), (9000, 11000));
    assert_eq!(w.smokes[0].radius, 4000);
    assert_eq!(w.smokes[0].frames_moved, 0);
    assert!(!w.smokes[0].opened);
    assert_eq!(w.smokes[0].frames_opened, 0);
    assert_eq!(w.players[0].smokes, 2);
}

#[test]
fn fire_smoke_without_charges_does_nothing() {
    let mut w = Utils::new(bordered_grid(11, 13));
    for _ in 0..3 {
        w.fire_smoke(0, -1000);
    }
    assert_eq!(w.smokes.len(), 3);
    w.fire_smoke(0, -1000);
    assert_eq!(w.smokes.len(), 3);
    assert_eq!(w.players[0].smokes, 0);
}

#[test]
fn smoke_lifecycle_timeline() {
    let mut w = Utils::new(open_grid(11, 13));
    w.fire_smoke(0, -1000);
    // Moving phase: five ticks of one step each.
    for k in 1..=5 {
        w.smoke_tick();
        assert_eq!(w.smokes[0].frames_moved, k);
        assert!(!w.smokes[0].opened);
        assert_eq!(w.smokes[0].y, 11000 - 1000 * (k as i64));
    }
    // Opens on the tick after the move budget is spent: max_move + 1.
    w.smoke_tick();
    assert!(w.smokes[0].opened);
    assert_eq!(w.smokes[0].frames_opened, 0);
    assert_eq!(w.smokes[0].y, 6000);
    // Open phase: frames count up to the limit of 180...
    for t in 1..=180 {
        w.smoke_tick();
        assert_eq!(w.smokes.len(), 1, "still open after {} open ticks", t);
        assert_eq!(w.smokes[0].frames_opened, t);
    }
    // ...and the smoke is removed one tick past it.
    w.smoke_tick();
    assert!(w.smokes.is_empty());
}

#[test]
fn smoke_settles_early_on_wall_contact_and_reverts_position() {
    let mut w = Utils::new(bordered_grid(11, 13));
    // Fired downward from (9000, 11000): the first step reaches
    // (9000, 12000), touching the bottom border cells.
    w.fire_smoke(0, 1000);
    w.smoke_tick();
    assert_eq!((w.smokes[0].x, w.smokes[0].y), (9000, 11000), "position reverted one step");
    assert_eq!(w.smokes[0].frames_moved, 5, "move budget forced to its maximum");
    assert!(!w.smokes[0].opened);
    w.smoke_tick();
    assert!(w.smokes[0].opened, "opens on the tick after settling");
}
