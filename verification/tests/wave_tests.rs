// Tests for the wave spawner's probabilistic spawn functions, run against
// the real randomness source; assertions cover what holds of every outcome.

use dodge_sim::game::Game;
use dodge_sim::waves::{
    spawn_bishops, spawn_downwards_dashers, spawn_downwards_dashers_with_parameters,
    spawn_speedsters, spawn_wave, Threat, WaveSpawner,
};
use dodge_sim::player::Player;

#[test]
fn downwards_wave_shape() {
    let mut saw_nonempty = false;
    for _ in 0..60 {
        let mut g = Game::new();
        let Threat(t) = spawn_downwards_dashers_with_parameters(&mut g, 20, 8);
        assert!(0 <= t && t < 1200);
        assert_eq!(t % 60, 0);
        let count = (t / 60) as usize;
        assert_eq!(g.dashers.len(), count);
        assert_eq!(g.positions.len(), count);
        assert_eq!(g.dangers.len(), count);
        for e in g.dashers.iter() {
            assert_eq!(e.1.dx, 0);
            assert_eq!(e.1.dy, 8);
            assert_eq!(e.1.move_next, 20);
            assert_eq!(e.1.move_until, 30);
            assert!(!e.1.delete_next_tick);
        }
        for e in g.positions.iter() {
            assert_eq!(e.1.y, 0);
            assert!(0 <= e.1.x && e.1.x < 1600, "x outside the spawn band");
            assert_eq!(e.1.x % 4, 0);
        }
        for e in g.dangers.iter() {
            assert_eq!(e.1.radius, 20);
        }
        if count > 0 {
            saw_nonempty = true;
        }
    }
    assert!(saw_nonempty, "sixty draws in [0, 20) all came out zero");
}

#[test]
fn downwards_speed_follows_difficulty() {
    // At difficulty 2400 the vertical speed is 2 + 2400/600 = 6 units per
    // tick, 24 quarter units.
    for _ in 0..60 {
        let mut g = Game::new();
        let Threat(t) = spawn_downwards_dashers(&mut g);
        assert_eq!(g.dashers.len(), (t / 60) as usize);
        for e in g.dashers.iter() {
            assert_eq!(e.1.dx, 0);
            assert_eq!(e.1.dy, 24);
        }
        if !g.dashers.is_empty() {
            return;
        }
    }
    panic!("sixty downwards waves in a row were empty");
}

#[test]
fn speedster_wave_shape() {
    for _ in 0..60 {
        let mut g = Game::new();
        let Threat(t) = spawn_speedsters(&mut g);
        assert!(0 <= t && t < 180);
        assert_eq!(g.dashers.len(), (t / 60) as usize);
        for e in g.dashers.iter() {
            assert_eq!(e.1.dx, 0);
            assert_eq!(e.1.dy, 48); // twice the downwards speed
        }
        if !g.dashers.is_empty() {
            return;
        }
    }
    panic!("sixty speedster waves in a row were empty");
}

#[test]
fn bishop_wave_shape() {
    // At difficulty 2400 the bonus is capped at 3, so a bishop wave holds
    // 3 to 9 dashers at speed 24, drifting sideways at 18 either way.
    let mut g = Game::new();
    let Threat(t) = spawn_bishops(&mut g);
    let count = g.dashers.len();
    assert_eq!(t as usize, 60 * count);
    assert!(3 <= count && count <= 9);
    for e in g.dashers.iter() {
        assert_eq!(e.1.dy, 24);
        assert!(e.1.dx == 18 || e.1.dx == -18);
    }
}

#[test]
fn wave_threat_accounting() {
    for _ in 0..40 {
        let mut g = Game::new();
        let Threat(t) = spawn_wave(&mut g);
        assert!(0 <= t && t < 1800);
        assert_eq!(t % 60, 0);
        assert_eq!(g.dashers.len(), (t / 60) as usize);
    }
}

#[test]
fn spawner_step_deducts_and_accrues() {
    // Force a wave: threat over the threshold is deducted by 60 per spawned
    // dasher, then one tick accrues.
    let mut g = Game::new();
    g.wave_spawner.threat_needed = Threat(401);
    WaveSpawner::step(&mut g);
    let spawned = g.dashers.len() as i32;
    assert_eq!(g.wave_spawner.threat_needed, Threat(401 - 60 * spawned + 6));
    assert_eq!(g.wave_spawner.current_difficulty, 2400); // no player
    assert_eq!(g.time, 0); // the spawner does not touch the clock
}

#[test]
fn spawner_step_below_threshold_only_accrues() {
    let mut g = Game::new();
    Player::new(&mut g, 800, 800);
    g.wave_spawner.threat_needed = Threat(400);
    WaveSpawner::step(&mut g);
    assert!(g.dashers.is_empty());
    assert_eq!(g.wave_spawner.threat_needed, Threat(406));
    assert_eq!(g.wave_spawner.current_difficulty, 2402); // player alive
}
