//! Raycasting: categories, priorities, self-occlusion, fan counts.

use utils_rs::world::Utils;

fn bordered_grid(cols: usize, rows: usize) -> Vec<Vec<u8>> {
    let mut g: Vec<Vec<u8>> = Vec::new();
    for j in 0..rows {
        let mut row: Vec<u8> = Vec::new();
        for i in 0..cols {
            let wall = j == 0 || j == rows - 1 || i == 0 || i == cols - 1;
            row.push(if wall { 1 } else { 0 });
        }
        g.push(row);
    }
    g
}

fn open_grid(cols: usize, rows: usize) -> Vec<Vec<u8>> {
    let mut g: Vec<Vec<u8>> = Vec::new();
    for _ in 0..rows {
        let mut row: Vec<u8> = Vec::new();
        for _ in 0..cols {
            row.push(0);
        }
        g.push(row);
    }
    g
}

#[test]
fn ray_reports_wall_with_distance() {
    let w = Utils::new(bordered_grid(11, 13));
    // Downward from player 0 at (9000, 11000): the first probe at
    // (9000, 12000) overlaps border cell (9, 12), one cell away.
    let r = w.ray(9000, 11000, 0, 1000, 100);
    assert_eq!(r, Some((1000, 0)));
}

#[test]
fn ray_reports_other_player() {
    let mut w = Utils::new(open_grid(11, 13));
    // Walk player 0 above player 1, then cast straight down.
    for _ in 0..8 {
        w.player_move(-1000, 0);
    }
    assert_eq!((w.players[0].x, w.players[0].y), (1000, 11000));
    let r = w.ray(1000, 11000, 0, -1000, 100);
    assert_eq!(r, Some((10000, 1)));
}

#[test]
fn ray_skips_the_active_player() {
    let mut w = Utils::new(open_grid(11, 13));
    for _ in 0..8 {
        w.player_move(-1000, 0);
    }
    // Half-cell steps: the first probes overlap player 0 itself, which
    // must be skipped, not reported.
    let r = w.ray(1000, 11000, 0, -500, 100);
    assert_eq!(r, Some((10000, 1)));
}

#[test]
fn ray_reports_opened_smoke() {
    let mut w = Utils::new(open_grid(11, 13));
    w.fire_smoke(0, 0);
    for _ in 0..6 {
        w.smoke_tick();
    }
    assert!(w.smokes[0].opened);
    // The first probe, one cell above the player, already lies inside
    // the smoke disc centred on the player's position.
    let r = w.ray(9000, 11000, 0, -1000, 100);
    assert_eq!(r, Some((0, 2)));
}

#[test]
fn ray_exhausts_steps_without_hit() {
    let w = Utils::new(open_grid(11, 13));
    let r = w.ray(9000, 11000, 0, -1000, 3);
    assert_eq!(r, None);
}

#[test]
fn ray_fov_angles_even_split() {
    let w = Utils::new(bordered_grid(11, 13));
    // Player 0 faces 270 degrees; a 90-degree fan of 3 rays steps by 30.
    let angles = w.ray_fov_angles(90000, 3);
    assert_eq!(angles, vec![225000, 255000, 285000]);
}

#[test]
fn ray_fov_angles_uneven_split_overshoots() {
    let w = Utils::new(bordered_grid(11, 13));
    // fov 100, 3 rays: the integer step is 33, and the loop rule emits
    // angles until the accumulated rotation reaches the fov: 4 rays.
    let angles = w.ray_fov_angles(100, 3);
    assert_eq!(angles.len(), 4);
    assert_eq!(angles[0], 270000 - 50);
    assert_eq!(angles[1], 270000 - 50 + 33);
}

#[test]
fn ray_fov_casts_one_ray_per_step_vector() {
    let w = Utils::new(bordered_grid(11, 13));
    let steps = vec![(0i64, 1000i64), (0i64, -1000i64)];
    let results = w.ray_fov(&steps, 100);
    assert_eq!(results.len(), 2);
    assert_eq!(results[0], Some((1000, 0)), "one cell to the bottom border");
    assert_eq!(results[1], Some((11000, 0)), "eleven cells to the top border");
}

#[test]
fn ray_reports_other_player_when_both_overlap() {
    let mut w = Utils::new(open_grid(11, 13));
    // Walk player 0 to (1000, 2500), a cell and a half above player 1.
    for _ in 0..8 {
        w.player_move(-1000, 0);
    }
    for _ in 0..8 {
        w.player_move(0, -1000);
    }
    w.player_move(0, -500);
    assert_eq!((w.players[0].x, w.players[0].y), (1000, 2500));
    // One 700-milli step down: the probe at (1000, 1800) overlaps both
    // players at once. The active player is skipped, never reported; the
    // other player is owed a category-1 report at their distance.
    let r = w.ray(1000, 2500, 0, -700, 10);
    assert_eq!(r, Some((1500, 1)));
}
