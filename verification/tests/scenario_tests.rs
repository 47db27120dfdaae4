//! End-to-end: an enclosed arena, a shot across it, hit report and
//! wall-driven bullet removal.

use utils_rs::world::Utils;

fn bordered_grid(cols: usize, rows: usize) -> Vec<Vec<u8>> {
    let mut g: Vec<Vec<u8>> = Vec::new();
    for j in 0..rows {
        let mut row: Vec<u8> = Vec::new();
        for i in 0..cols {
            let wall = j == 0 || j == rows - 1 || i == 0 || i == cols - 1;
            row.push(if wall { 1 } else { 0 });
        }
        g.push(row);
    }
    g
}

#[test]
fn shot_across_the_arena() {
    // An open interior bounded by walls on every side; the two players
    // start in opposite corners of it.
    let mut w = Utils::new(bordered_grid(11, 13));
    assert_eq!((w.players[0].x, w.players[0].y), (9000, 11000));
    assert_eq!((w.players[1].x, w.players[1].y), (1000, 1000));

    // Player 0 walks into player 1's column, one wall-adjacent lane.
    for _ in 0..8 {
        w.player_move(-1000, 0);
    }
    assert_eq!((w.players[0].x, w.players[0].y), (1000, 11000));

    // Player 0 fires straight at player 1: ten cells away, one cell per
    // tick.
    w.set_rotation(180000);
    w.fire_bullet(0, -1000);

    let mut reports: Vec<Vec<usize>> = Vec::new();
    let mut removed_at: Option<usize> = None;
    for tick in 1..=15 {
        w.bullet_tick();
        reports.push(w.get_players_hit_by_bullet());
        if w.bullets.is_empty() && removed_at.is_none() {
            removed_at = Some(tick);
        }
    }

    // The hit lands exactly once, on the tick the bullet reaches player
    // 1's cell: tick 10 = distance / step.
    for (k, r) in reports.iter().enumerate() {
        if k + 1 == 10 {
            assert_eq!(r, &vec![1], "hit reported exactly at tick 10");
        } else {
            assert!(r.is_empty(), "no report at tick {}", k + 1);
        }
    }

    // The hit does not remove the bullet: only the wall behind player 1
    // does, one tick later.
    assert_eq!(removed_at, Some(11));
}
