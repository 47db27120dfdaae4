//! Turn controller: movement with reversion, turn advance, field setters.

use utils_rs::world::Utils;

fn bordered_grid(cols: usize, rows: usize) -> Vec<Vec<u8>> {
    let mut g: Vec<Vec<u8>> = Vec::new();
    for j in 0..rows {
        let mut row: Vec<u8> = Vec::new();
        for i in 0..cols {
            let wall = j == 0 || j == rows - 1 || i == 0 || i == cols - 1;
            row.push(if wall { 1 } else { 0 });
        }
        g.push(row);
    }
    g
}

fn open_grid(cols: usize, rows: usize) -> Vec<Vec<u8>> {
    let mut g: Vec<Vec<u8>> = Vec::new();
    for _ in 0..rows {
        let mut row: Vec<u8> = Vec::new();
        for _ in 0..cols {
            row.push(0);
        }
        g.push(row);
    }
    g
}

#[test]
fn player_move_applies_when_clear() {
    let mut w = Utils::new(bordered_grid(11, 13));
    w.player_move(-1000, 0);
    assert_eq!((w.players[0].x, w.players[0].y), (8000, 11000));
    w.player_move(0, -1000);
    assert_eq!((w.players[0].x, w.players[0].y), (8000, 10000));
}

#[test]
fn player_move_clamps_delta_to_one_cell() {
    let mut w = Utils::new(bordered_grid(11, 13));
    w.player_move(-25000, 0);
    assert_eq!((w.players[0].x, w.players[0].y), (8000, 11000));
    w.player_move(7777, 0);
    assert_eq!((w.players[0].x, w.players[0].y), (9000, 11000));
}

#[test]
fn player_move_into_wall_reverts_single_axis() {
    let mut w = Utils::new(bordered_grid(11, 13));
    // (10000, 11000) overlaps the border wall column.
    w.player_move(1000, 0);
    assert_eq!((w.players[0].x, w.players[0].y), (9000, 11000));
}

#[test]
fn player_move_into_wall_reverts_diagonal() {
    let mut w = Utils::new(bordered_grid(11, 13));
    // (10000, 12000) overlaps the border corner; both axes revert, not
    // just the offending one.
    w.player_move(1000, 1000);
    assert_eq!((w.players[0].x, w.players[0].y), (9000, 11000));
    // Diagonal into the bottom wall only: y offends, x reverts too.
    w.player_move(-1000, 1000);
    assert_eq!((w.players[0].x, w.players[0].y), (9000, 11000));
}

#[test]
fn player_move_onto_player_reverts() {
    let mut w = Utils::new(open_grid(11, 13));
    // Walk player 0 from (9000, 11000) to (2000, 1000), next to player 1.
    for _ in 0..7 {
        w.player_move(-1000, 0);
    }
    for _ in 0..10 {
        w.player_move(0, -1000);
    }
    assert_eq!((w.players[0].x, w.players[0].y), (2000, 1000));
    // One more step left would overlap player 1 at (1000, 1000).
    w.player_move(-1000, 0);
    assert_eq!((w.players[0].x, w.players[0].y), (2000, 1000));
    // Diagonal attempt overlapping player 1 reverts both axes.
    w.player_move(-1000, -900);
    assert_eq!((w.players[0].x, w.players[0].y), (2000, 1000));
    assert_eq!((w.players[1].x, w.players[1].y), (1000, 1000));
}

#[test]
fn next_turn_wraps_after_player_count_calls() {
    let mut w = Utils::new(bordered_grid(11, 13));
    let start = w.turn;
    for _ in 0..w.players.len() {
        w.next_turn();
    }
    assert_eq!(w.turn, start);
    w.next_turn();
    assert_eq!(w.turn, 1);
}

#[test]
fn setters_write_active_player_fields() {
    let mut w = Utils::new(bordered_grid(11, 13));
    w.set_rotation(123456);
    w.set_sound(42);
    w.set_memory_values(vec![5, -6, 7]);
    w.set_memory_keys(vec![1, 2]);
    assert_eq!(w.players[0].rotation, 123456);
    assert_eq!(w.players[0].sound, 42);
    assert_eq!(w.players[0].memory_values, vec![5, -6, 7]);
    assert_eq!(w.players[0].memory_keys, vec![1, 2]);
    // The inactive player is untouched.
    assert_eq!(w.players[1].rotation, 90000);
    assert_eq!(w.players[1].sound, 0);
    // After a turn advance the setters target the other player.
    w.next_turn();
    w.set_rotation(-1);
    assert_eq!(w.players[1].rotation, -1);
    assert_eq!(w.players[0].rotation, 123456);
}

#[test]
fn single_player_move_into_wall_reverts() {
    let mut w = Utils::new(bordered_grid(11, 13));
    w.players.pop();
    assert_eq!(w.players.len(), 1);
    // The wall check does not depend on there being another player: a
    // lone player's move into the border is reverted on both axes.
    w.player_move(1000, 0);
    assert_eq!((w.players[0].x, w.players[0].y), (9000, 11000));
    w.player_move(1000, 1000);
    assert_eq!((w.players[0].x, w.players[0].y), (9000, 11000));
    // A clear move still applies.
    w.player_move(-1000, 0);
    assert_eq!((w.players[0].x, w.players[0].y), (8000, 11000));
}
