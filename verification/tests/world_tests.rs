//! World construction and the collision scans.

use utils_rs::world::Utils;

fn bordered_grid(cols: usize, rows: usize) -> Vec<Vec<u8>> {
    let mut g: Vec<Vec<u8>> = Vec::new();
    for j in 0..rows {
        let mut row: Vec<u8> = Vec::new();
        for i in 0..cols {
            let wall = j == 0 || j == rows - 1 || i == 0 || i == cols - 1;
            row.push(if wall { 1 } else { 0 });
        }
        g.push(row);
    }
    g
}

fn open_grid(cols: usize, rows: usize) -> Vec<Vec<u8>> {
    let mut g: Vec<Vec<u8>> = Vec::new();
    for _ in 0..rows {
        let mut row: Vec<u8> = Vec::new();
        for _ in 0..cols {
            row.push(0);
        }
        g.push(row);
    }
    g
}

#[test]
fn new_world_defaults() {
    let w = Utils::new(bordered_grid(11, 13));
    assert_eq!(w.wall_width, 1000);
    assert_eq!(w.wall_height, 1000);
    assert_eq!(w.player_width, 1000);
    assert_eq!(w.player_height, 1000);
    assert_eq!(w.ammo_total, 30);
    assert_eq!(w.smokes_radius, 4000);
    assert_eq!(w.turn, 0);
    assert!(w.bullets.is_empty());
    assert!(w.smokes.is_empty());
    assert_eq!(w.players.len(), 2);
    assert_eq!((w.players[0].x, w.players[0].y), (9000, 11000));
    assert_eq!(w.players[0].rotation, 270000);
    assert_eq!(w.players[0].ammo, 30);
    assert_eq!(w.players[0].smokes, 3);
    assert_eq!((w.players[1].x, w.players[1].y), (1000, 1000));
    assert_eq!(w.players[1].rotation, 90000);
    assert!(w.players[0].memory_values.is_empty());
    assert!(w.players[0].memory_keys.is_empty());
}

#[test]
fn wall_scan_reports_hit_cell() {
    let mut g = open_grid(4, 4);
    g[1][2] = 1;
    let w = Utils::new(g);
    let (hit, cx, cy) = w.is_colliding_with_wall(2000, 1000, 1000, 1000);
    assert!(hit);
    assert_eq!((cx, cy), (2, 1));
    let (miss, mx, my) = w.is_colliding_with_wall(0, 0, 1000, 1000);
    assert!(!miss);
    assert_eq!((mx, my), (0, 0));
}

#[test]
fn wall_scan_first_match_is_row_major() {
    let mut g = open_grid(4, 4);
    g[1][1] = 1;
    g[1][2] = 1;
    g[2][1] = 1;
    let w = Utils::new(g);
    // A wide box overlapping all three wall cells: the first colliding
    // cell in row-major order decides the report.
    let (hit, cx, cy) = w.is_colliding_with_wall(1500, 1500, 3000, 3000);
    assert!(hit);
    assert_eq!((cx, cy), (1, 1));
}

#[test]
fn player_collision_scan() {
    let w = Utils::new(open_grid(11, 13));
    // Player 0 sits at (9000, 11000).
    assert!(w.is_colliding_with_player(&w.players[0], 9500, 11000, 1000, 1000));
    assert!(!w.is_colliding_with_player(&w.players[0], 9500, 14000, 1000, 1000));
    let (hit, px, py) = w.is_colliding_with_any_player(1500, 1000, 1000, 1000);
    assert!(hit);
    assert_eq!((px, py), (1000, 1000));
    let (miss, _, _) = w.is_colliding_with_any_player(5000, 5000, 1000, 1000);
    assert!(!miss);
}

#[test]
fn smoke_collision_only_when_opened() {
    let mut w = Utils::new(open_grid(11, 13));
    w.fire_smoke(0, 0);
    let (hit, _, _) = w.is_colliding_with_smoke(9000, 11000, 1000, 1000);
    assert!(!hit, "a still-moving smoke is not collidable");
    for _ in 0..6 {
        w.smoke_tick();
    }
    assert!(w.smokes[0].opened);
    let (hit2, sx, sy) = w.is_colliding_with_smoke(9000, 11000, 1000, 1000);
    assert!(hit2);
    assert_eq!((sx, sy), (9000, 11000));
}

#[test]
fn point_near_wall_tolerance() {
    let mut g = open_grid(4, 4);
    g[0][1] = 1;
    let w = Utils::new(g);
    // Cell (1, 0) spans [1000, 2000] x [0, 1000].
    assert!(w.is_smoke_colliding_with_wall(950, 500), "50 away is within 100");
    assert!(!w.is_smoke_colliding_with_wall(850, 500), "150 away is not");
    assert!(w.is_smoke_colliding_with_wall(1500, 500), "inside the cell");
}
