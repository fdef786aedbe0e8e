// Scenario and unit tests for the simulation core. All coordinates are in
// quarter units: the 400 x 400 field is 1600 x 1600, and the player speed of
// 5 units per tick is 20.

use dodge_sim::danger::Danger;
use dodge_sim::dasher::Dasher;
use dodge_sim::game::{Game, GameObjectId, Position};
use dodge_sim::player::Player;
use dodge_sim::waves::{Threat, WaveSpawner};

fn pos_of(game: &Game, id: GameObjectId) -> Option<Position> {
    game.positions.iter().find(|e| e.0 == id).map(|e| e.1)
}

fn dasher_of(game: &Game, id: GameObjectId) -> Option<Dasher> {
    game.dashers.iter().find(|e| e.0 == id).map(|e| e.1)
}

fn danger_of(game: &Game, id: GameObjectId) -> Option<Danger> {
    game.dangers.iter().find(|e| e.0 == id).map(|e| e.1)
}

fn player_pos(game: &Game) -> Position {
    let id = game.player.as_ref().expect("no player").id;
    pos_of(game, id).expect("player has no position")
}

#[test]
fn fresh_game_is_empty() {
    let g = Game::new();
    assert_eq!(g.time, 0);
    assert_eq!(g.id_counter, 0);
    assert!(g.player.is_none());
    assert!(g.positions.is_empty());
    assert!(g.dashers.is_empty());
    assert!(g.dangers.is_empty());
    assert!(g.deleted.is_empty());
    assert_eq!(g.wave_spawner.threat_needed, Threat(0));
    assert_eq!(g.wave_spawner.current_difficulty, 2400);
}

#[test]
fn ids_are_sequential() {
    let mut g = Game::new();
    let a = g.create_game_object(0, 0);
    let b = g.create_game_object(4, 4);
    let c = g.create_game_object(8, 8);
    assert_eq!((a, b, c), (GameObjectId(0), GameObjectId(1), GameObjectId(2)));
    assert_eq!(g.positions.len(), 3);
}

#[test]
fn distance_squared_is_exact() {
    let a = Position { x: 0, y: 0 };
    let b = Position { x: 12, y: 16 };
    assert_eq!(a.get_distance_squared(&b), 400);
    assert!(!a.is_closer_than(&b, 20));
    assert!(a.is_closer_than(&b, 21));
    // a negative bound squares to a positive one
    assert!(a.is_closer_than(&b, -25));
    assert!(!a.is_closer_than(&b, -20));
}

#[test]
fn spawn_invincibility() {
    // Spawn a player at (200, 200) at tick 0 and put a dasher on top of it:
    // for 300 ticks nothing happens; at tick 300 the hit lands.
    let mut g = Game::new();
    Player::new(&mut g, 800, 800);
    assert_eq!(g.player.as_ref().unwrap().invincibility_until, 300);
    let d = Dasher::new(&mut g, 800, 800, 0, 0);
    for _ in 0..300 {
        g.step();
        assert_eq!(g.player.as_ref().unwrap().lives, 3);
        assert!(dasher_of(&g, d).is_some(), "dasher died during invincibility");
    }
    assert_eq!(g.time, 300);
    g.step();
    let p = g.player.as_ref().unwrap();
    assert_eq!(p.lives, 2);
    assert_eq!(p.invincibility_until, 480);
    assert!(g.deleted.contains(&d));
    assert!(pos_of(&g, d).is_none());
    assert!(dasher_of(&g, d).is_none());
    assert!(danger_of(&g, d).is_none());
}

#[test]
fn sticky_motion() {
    // left pulls to -5 units; adding right keeps -5; releasing left snaps to +5.
    let mut g = Game::new();
    Player::new(&mut g, 800, 800);
    g.player.as_mut().unwrap().left = true;
    Player::move_player(&mut g);
    assert_eq!(g.player.as_ref().unwrap().dx, -20);
    g.step();
    assert_eq!(player_pos(&g).x, 780); // 195 units
    g.player.as_mut().unwrap().right = true;
    Player::move_player(&mut g);
    assert_eq!(g.player.as_ref().unwrap().dx, -20); // both held: sticky
    g.step();
    assert_eq!(player_pos(&g).x, 760); // 190 units
    g.player.as_mut().unwrap().left = false;
    Player::move_player(&mut g);
    assert_eq!(g.player.as_ref().unwrap().dx, 20); // snapped to full speed
    g.step();
    assert_eq!(player_pos(&g).x, 780); // 195 units
}

#[test]
fn set_input_is_idempotent() {
    let mut g = Game::new();
    Player::new(&mut g, 800, 800);
    let p = g.player.as_mut().unwrap();
    p.up = true;
    p.down = true;
    p.dy = -20;
    Player::move_player(&mut g);
    let once = (g.player.as_ref().unwrap().dx, g.player.as_ref().unwrap().dy);
    Player::move_player(&mut g);
    let twice = (g.player.as_ref().unwrap().dx, g.player.as_ref().unwrap().dy);
    assert_eq!(once, (0, -20));
    assert_eq!(once, twice);
}

#[test]
fn horizontal_wrap() {
    // From 398 units moving right: one step wraps 403 to 3; the next gives 8.
    let mut g = Game::new();
    Player::new(&mut g, 1592, 800);
    g.player.as_mut().unwrap().right = true;
    Player::move_player(&mut g);
    g.step();
    assert_eq!(player_pos(&g).x, 12); // 3 units
    g.step();
    assert_eq!(player_pos(&g).x, 32); // 8 units
}

#[test]
fn wrap_at_exact_boundary() {
    // From 395 units moving right, 395 + 5 = 400 wraps to 0: x is taken
    // modulo the field width, so x = 400 is never observable.
    let mut g = Game::new();
    Player::new(&mut g, 1580, 800);
    g.player.as_mut().unwrap().right = true;
    Player::move_player(&mut g);
    g.step();
    assert_eq!(player_pos(&g).x, 0);
    g.step();
    assert_eq!(player_pos(&g).x, 20); // 5 units
}

#[test]
fn dasher_wraps_at_exact_boundary() {
    // A dasher at 395 units drifting right by 5 per tick: its first move
    // lands on 400, which wraps to 0.
    let mut g = Game::new();
    let d = Dasher::new(&mut g, 1580, 400, 20, 0);
    for _ in 0..21 {
        g.step();
    }
    assert_eq!(pos_of(&g, d).unwrap().x, 0);
}

#[test]
fn vertical_clamp() {
    let mut g = Game::new();
    Player::new(&mut g, 800, 1592);
    g.player.as_mut().unwrap().down = true;
    Player::move_player(&mut g);
    g.step();
    assert_eq!(player_pos(&g).y, 1600); // clamped to the bottom edge
    g.step();
    assert_eq!(player_pos(&g).y, 1600);
}

#[test]
fn dasher_burst_cadence() {
    // A dasher made at tick 0 with dy = 2 units rests for 20 ticks, moves for
    // ticks 21..30 (reaching y = 20 units), rests for ticks 31..50, moves again
    // for ticks 51..60.
    let mut g = Game::new();
    let d = Dasher::new(&mut g, 400, 0, 0, 8);
    let rec = dasher_of(&g, d).unwrap();
    assert_eq!((rec.move_next, rec.move_until), (20, 30));
    for tick in 1..=60u64 {
        g.step();
        assert_eq!(g.time, tick);
        let y = pos_of(&g, d).unwrap().y;
        let expected = if tick <= 20 {
            0
        } else if tick <= 30 {
            8 * (tick as i64 - 20)
        } else if tick <= 50 {
            80
        } else {
            80 + 8 * (tick as i64 - 50)
        };
        assert_eq!(y, expected, "wrong y at tick {}", tick);
    }
}

#[test]
fn bottom_exit() {
    // A dasher crossing y > 400 units is flagged in its own step and removed
    // from all three tables on the next dasher step.
    let mut g = Game::new();
    let d = Dasher::new(&mut g, 400, 1596, 0, 8);
    for _ in 0..21 {
        g.step();
    }
    // at tick 21 it has just moved to 401 units and is flagged
    assert_eq!(pos_of(&g, d).unwrap().y, 1604);
    assert!(dasher_of(&g, d).unwrap().delete_next_tick);
    assert!(danger_of(&g, d).is_some());
    g.step();
    assert!(pos_of(&g, d).is_none());
    assert!(dasher_of(&g, d).is_none());
    assert!(danger_of(&g, d).is_none());
}

#[test]
fn fatal_hit() {
    // A player out of lives is destroyed by the next contact; the contacted
    // dasher is still marked deleted, and difficulty stops rising.
    let mut g = Game::new();
    Player::new(&mut g, 800, 800);
    g.player.as_mut().unwrap().lives = 0;
    g.player.as_mut().unwrap().invincibility_until = 0;
    let d = Dasher::new(&mut g, 800, 800, 0, 0);
    g.step();
    assert!(g.player.is_none());
    assert!(g.deleted.contains(&d));
    assert!(dasher_of(&g, d).is_none());
    // the danger step ran before the spawner, so even the death tick adds
    // no difficulty, and later ticks add none either
    assert_eq!(g.wave_spawner.current_difficulty, 2400);
    g.step();
    g.step();
    assert_eq!(g.wave_spawner.current_difficulty, 2400);
}

#[test]
fn nonfatal_hit_decrements_once() {
    // Two overlapping dashers cost one life between them; both are destroyed.
    let mut g = Game::new();
    Player::new(&mut g, 800, 800);
    g.player.as_mut().unwrap().invincibility_until = 0;
    let d1 = Dasher::new(&mut g, 800, 800, 0, 0);
    let d2 = Dasher::new(&mut g, 804, 800, 0, 0);
    g.step();
    let p = g.player.as_ref().unwrap();
    assert_eq!(p.lives, 2);
    assert_eq!(p.invincibility_until, 180);
    assert!(dasher_of(&g, d1).is_none());
    assert!(dasher_of(&g, d2).is_none());
}

#[test]
fn threat_budget() {
    // With every wave costing 600 (ten downwards dashers), the accumulator
    // gains 6 per tick (2 base + 2400/600), first crosses 400 at tick 67,
    // and recovers for 100 ticks before the next wave.
    let mut s = WaveSpawner::new();
    let mut fired: Vec<u64> = Vec::new();
    for t in 0..200u64 {
        if s.wants_wave() {
            fired.push(t);
            s.apply_wave_threat(Threat(600));
        }
        s.accrue(true);
    }
    assert_eq!(fired, vec![67, 167]);
    assert_eq!(s.threat_needed, Threat(0));
    assert_eq!(s.current_difficulty, 2800);
}

#[test]
fn wants_wave_threshold_is_exact() {
    let mut s = WaveSpawner::new();
    s.threat_needed = Threat(400);
    assert!(!s.wants_wave());
    s.threat_needed = Threat(401);
    assert!(s.wants_wave());
}

#[test]
fn accrue_without_player_keeps_difficulty() {
    let mut s = WaveSpawner::new();
    s.accrue(false);
    assert_eq!(s.threat_needed, Threat(6));
    assert_eq!(s.current_difficulty, 2400);
    s.accrue(true);
    assert_eq!(s.threat_needed, Threat(12));
    assert_eq!(s.current_difficulty, 2402);
}

#[test]
fn accrual_scales_with_difficulty() {
    let mut s = WaveSpawner::new();
    s.current_difficulty = 3000;
    s.accrue(false);
    assert_eq!(s.threat_needed, Threat(7)); // 2 + 3000 / 600
}

#[test]
fn long_run_store_invariants_hold() {
    // Let the full game run with waves and collisions, and check the stated
    // store invariants from outside after every tick.
    let mut g = Game::new();
    Player::new(&mut g, 800, 1520);
    for _ in 0..600 {
        g.step();
        for e in g.dashers.iter() {
            assert!(g.positions.iter().any(|p| p.0 == e.0), "dasher without position");
            let danger = g.dangers.iter().find(|q| q.0 == e.0).expect("dasher without danger");
            assert_eq!(danger.1.radius, 20);
            assert!(e.1.dx.abs() <= 1600, "dasher dx out of wrap range");
        }
        for e in g.dangers.iter() {
            assert!(g.positions.iter().any(|p| p.0 == e.0), "danger without position");
        }
        // the dasher step is the drain point: nothing listed stays in a table
        for id in g.deleted.iter() {
            assert!(g.positions.iter().all(|p| p.0 != *id));
            assert!(g.dashers.iter().all(|p| p.0 != *id));
            assert!(g.dangers.iter().all(|p| p.0 != *id));
        }
        // at this difficulty every mover is slower than one field width per
        // tick, so the wrap law keeps every x inside [0, 1600)
        for e in g.positions.iter() {
            assert!(0 <= e.1.x && e.1.x < 1600, "x escaped the field");
        }
        if let Some(p) = g.player.as_ref() {
            let pos = pos_of(&g, p.id).unwrap();
            assert!(0 <= pos.y && pos.y <= 1600);
            assert!(p.lives <= 3);
        }
    }
    assert_eq!(g.time, 600);
}
