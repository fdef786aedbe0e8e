//! The wave spawner: a threat-budget accumulator gates probabilistic waves
//! of dashers, and a difficulty counter ramps speed, threat accrual and
//! bonus spawns while a player is alive.

use vstd::prelude::*;
use crate::dasher::{Dasher, DASHER_MOVE_EVERY, DASHER_MOVE_FOR, DASHER_RADIUS};
use crate::danger::Danger;
use crate::game::{Game, GameObjectId, GameView, Position};
use crate::rng::{rand_below, rand_coin};

verus! {

/// A quantity of threat: the budget a wave costs and the accumulator gates.
#[derive(Copy, Clone, PartialEq, Eq, Structural, Debug)]
pub struct Threat(pub i32);

/// The accumulator must exceed this before a wave may spawn.
pub const MINIMUM_THREAT_FOR_WAVE: i32 = 400;

/// Width of the spawn band in logical units; a wave draws `x` below it.
pub const WAVE_SPAWN_WIDTH: u32 = 400;

/// Upper bound (exclusive) of a downwards-dasher wave's size.
pub const MAX_DOWNWARDS_DASHER_WAVE_SIZE: u32 = 20;

/// Base vertical speed of a dasher in quarter units per tick: one field
/// height of 400 units crossed in 200 bursts of 10 ticks.
pub const DOWNWARD_DASHER_SPEED: i64 = 8;

/// Threat value of one spawned dasher.
pub const DOWNWARD_DASHER_THREAT: i32 = 60;

/// Threat accrued every tick before the difficulty bonus.
pub const THREAT_PER_TICK: i32 = 2;

/// Upper bound (exclusive) of a bishop wave's base size.
pub const MAX_BISHOP_WAVE_SIZE: u32 = 7;

/// Every this many difficulty points, per-tick threat accrual grows by one.
pub const INCREASE_THREAT_EVERY: u32 = 600;

/// Every this many difficulty points, dasher speed grows by one unit.
pub const INCREASE_SPEED_EVERY: u32 = 600;

/// Difficulty gained per tick while a player exists.
pub const DIFFICULTY_PER_TICK: u32 = 2;

/// Speedsters move at twice the downwards speed.
pub const SPEEDSTER_SPEED_MULTIPLIER: i64 = 2;

/// Upper bound (exclusive) of a speedster wave's size.
pub const MAX_SPEEDSTERS_WAVE_SIZE: u32 = 3;

/// Every this many difficulty points, a bishop wave gains one bonus member.
pub const EXTRA_BISHOP_EVERY: u32 = 600;

/// At most this many bonus bishops per wave.
pub const MAX_EXTRA_BISHOPS: u32 = 3;

/// Difficulty a fresh game starts at.
pub const STARTING_DIFFICULTY: u32 = 2400;

/// The wave spawner's whole state: the signed threat accumulator and the
/// monotone difficulty counter.
#[derive(Copy, Clone, PartialEq, Eq, Structural, Debug)]
pub struct WaveSpawner {
    pub threat_needed: Threat,
    pub current_difficulty: u32,
}

/// A dasher's vertical speed at difficulty `difficulty`, from base speed
/// `base_speed`, in quarter units per tick.
pub open spec fn speed_spec(base_speed: int, difficulty: u32) -> int {
    base_speed + 4 * ((difficulty as int) / (INCREASE_SPEED_EVERY as int))
}

fn get_speed(base_speed: i64, difficulty: u32) -> (r: i64)
    requires
        -crate::VEL_LIMIT <= base_speed <= crate::VEL_LIMIT,
    ensures
        r == speed_spec(base_speed as int, difficulty),
{
    let increased_speed = difficulty / INCREASE_SPEED_EVERY;
    base_speed + 4 * (increased_speed as i64)
}

fn get_wave_size(max_size: u32) -> (r: u32)
    requires
        max_size >= 1,
    ensures
        r < max_size,
{
    rand_below(max_size)
}

/// A downwards mover at `speed` quarter units per tick.
pub open spec fn down_vel(speed: int) -> spec_fn(Dasher) -> bool {
    |d: Dasher| d.dx == 0 && d.dy == speed
}

/// A diagonal mover: full vertical speed, three quarters of it sideways,
/// either way.
pub open spec fn bishop_vel(speed: int) -> spec_fn(Dasher) -> bool {
    |d: Dasher| d.dy == speed && (d.dx == 3 * speed / 4 || d.dx == -(3 * speed / 4))
}

/// `post` is `pre` with `k` fresh dashers appended: consecutive fresh ids,
/// positions drawn on the top edge within the spawn band, velocities as
/// `vel_ok` says, the standard burst schedule, and a danger disc each;
/// everything else unchanged.
pub open spec fn spawned_batch(
    pre: GameView,
    post: GameView,
    k: nat,
    vel_ok: spec_fn(Dasher) -> bool,
) -> bool {
    &&& post.id_counter == pre.id_counter + k
    &&& post.time == pre.time
    &&& post.player == pre.player
    &&& post.deleted == pre.deleted
    &&& post.wave_spawner == pre.wave_spawner
    &&& post.positions.len() == pre.positions.len() + k
    &&& post.dashers.len() == pre.dashers.len() + k
    &&& post.dangers.len() == pre.dangers.len() + k
    &&& post.positions.subrange(0, pre.positions.len() as int) == pre.positions
    &&& post.dashers.subrange(0, pre.dashers.len() as int) == pre.dashers
    &&& post.dangers.subrange(0, pre.dangers.len() as int) == pre.dangers
    &&& forall|j: int|
        pre.positions.len() <= j < post.positions.len() ==> {
            let e = #[trigger] post.positions[j];
            &&& e.0.0 == pre.id_counter + j - pre.positions.len()
            &&& e.1.y == 0
            &&& 0 <= e.1.x < crate::GAME_SCREEN_WIDTH
            &&& e.1.x % 4 == 0
        }
    &&& forall|j: int|
        pre.dashers.len() <= j < post.dashers.len() ==> {
            let e = #[trigger] post.dashers[j];
            &&& e.0.0 == pre.id_counter + j - pre.dashers.len()
            &&& e.1.move_next == pre.time + DASHER_MOVE_EVERY
            &&& e.1.move_until == pre.time + DASHER_MOVE_EVERY + DASHER_MOVE_FOR
            &&& !e.1.delete_next_tick
            &&& vel_ok(e.1)
        }
    &&& forall|j: int|
        pre.dangers.len() <= j < post.dangers.len() ==> {
            let e = #[trigger] post.dangers[j];
            &&& e.0.0 == pre.id_counter + j - pre.dangers.len()
            &&& e.1.radius == DASHER_RADIUS
        }
}

/// The bonus bishops granted by the current difficulty.
pub open spec fn extra_bishops(difficulty: u32) -> int {
    if (difficulty as int) / (EXTRA_BISHOP_EVERY as int) < MAX_EXTRA_BISHOPS as int {
        (difficulty as int) / (EXTRA_BISHOP_EVERY as int)
    } else {
        MAX_EXTRA_BISHOPS as int
    }
}

/// A wave of downwards dashers at the current difficulty's speed.
pub open spec fn down_wave_rel(pre: GameView, post: GameView, threat: int) -> bool {
    exists|k: nat|
        k < MAX_DOWNWARDS_DASHER_WAVE_SIZE && threat == 60 * k && #[trigger] spawned_batch(
            pre,
            post,
            k,
            down_vel(
                speed_spec(DOWNWARD_DASHER_SPEED as int, pre.wave_spawner.current_difficulty),
            ),
        )
}

/// A wave of speedsters: downwards movers at twice the current speed.
pub open spec fn speedster_wave_rel(pre: GameView, post: GameView, threat: int) -> bool {
    exists|k: nat|
        k < MAX_SPEEDSTERS_WAVE_SIZE && threat == 60 * k && #[trigger] spawned_batch(
            pre,
            post,
            k,
            down_vel(
                SPEEDSTER_SPEED_MULTIPLIER * speed_spec(
                    DOWNWARD_DASHER_SPEED as int,
                    pre.wave_spawner.current_difficulty,
                ),
            ),
        )
}

/// A wave of bishops: the drawn size plus the difficulty bonus.
pub open spec fn bishop_wave_rel(pre: GameView, post: GameView, threat: int) -> bool {
    exists|k: nat|
        extra_bishops(pre.wave_spawner.current_difficulty) <= k < MAX_BISHOP_WAVE_SIZE as int
            + extra_bishops(pre.wave_spawner.current_difficulty) && threat == 60 * k
            && #[trigger] spawned_batch(
            pre,
            post,
            k,
            bishop_vel(
                speed_spec(DOWNWARD_DASHER_SPEED as int, pre.wave_spawner.current_difficulty),
            ),
        )
}

/// Some wave of one of the three kinds was spawned for `threat`.
pub open spec fn wave_rel(pre: GameView, post: GameView, threat: int) -> bool {
    ||| down_wave_rel(pre, post, threat)
    ||| speedster_wave_rel(pre, post, threat)
    ||| bishop_wave_rel(pre, post, threat)
}

/// Spawns a wave of downwards dashers of a drawn size below `max_wave_size`,
/// each at a drawn `x`, falling at `speed`; returns the wave's threat value.
pub fn spawn_downwards_dashers_with_parameters(
    game: &mut Game,
    max_wave_size: u32,
    speed: i64,
) -> (threat: Threat)
    requires
        old(game)@.store_inv(),
        1 <= max_wave_size <= 30000,
        0 <= speed <= crate::VEL_LIMIT,
        old(game).id_counter + max_wave_size <= u64::MAX,
        old(game).time + DASHER_MOVE_EVERY + DASHER_MOVE_FOR <= u64::MAX,
    ensures
        final(game)@.store_inv(),
        forall|s: int|
            s >= 0 && #[trigger] old(game)@.bounds_inv(s) ==> final(game)@.bounds_inv(s),
        0 <= threat.0 < 60 * max_wave_size,
        threat.0 % 60 == 0,
        spawned_batch(
            old(game)@,
            final(game)@,
            (threat.0 / 60) as nat,
            down_vel(speed as int),
        ),
        old(game)@.dashers_paired() ==> final(game)@.dashers_paired(),
{
    let ghost v0 = game@;
    proof {
        assert(v0.positions.subrange(0, v0.positions.len() as int) =~= v0.positions);
        assert(v0.dashers.subrange(0, v0.dashers.len() as int) =~= v0.dashers);
        assert(v0.dangers.subrange(0, v0.dangers.len() as int) =~= v0.dangers);
    }
    let wave_size = get_wave_size(max_wave_size);
    for c in 0..wave_size
        invariant
            game@.store_inv(),
            forall|s: int| s >= 0 && #[trigger] v0.bounds_inv(s) ==> game@.bounds_inv(s),
            wave_size < max_wave_size <= 30000,
            0 <= speed <= crate::VEL_LIMIT,
            v0.id_counter + max_wave_size <= u64::MAX,
            v0.time + DASHER_MOVE_EVERY + DASHER_MOVE_FOR <= u64::MAX,
            spawned_batch(v0, game@, c as nat, down_vel(speed as int)),
    {
        let x = rand_below(WAVE_SPAWN_WIDTH);
        let ghost pre = game@;
        Dasher::new(game, (x as i64) * 4, 0, 0, speed);
        proof {
            lemma_spawned_batch_push(v0, pre, game@, c as nat, down_vel(speed as int));
        }
    }
    proof {
        if v0.dashers_paired() {
            crate::laws::lemma_pairing_spawned(
                v0,
                game@,
                wave_size as nat,
                down_vel(speed as int),
            );
        }
    }
    Threat(60 * (wave_size as i32))
}

/// One fresh dasher extends a batch by one, when its velocity fits.
proof fn lemma_spawned_batch_push(
    v0: GameView,
    pre: GameView,
    post: GameView,
    c: nat,
    vel_ok: spec_fn(Dasher) -> bool,
)
    requires
        spawned_batch(v0, pre, c, vel_ok),
        pre.id_counter < u64::MAX,
        post.id_counter == pre.id_counter + 1,
        post.time == pre.time,
        post.player == pre.player,
        post.deleted == pre.deleted,
        post.wave_spawner == pre.wave_spawner,
        post.positions.len() == pre.positions.len() + 1,
        post.dashers.len() == pre.dashers.len() + 1,
        post.dangers.len() == pre.dangers.len() + 1,
        forall|j: int| 0 <= j < pre.positions.len() ==> #[trigger] post.positions[j]
            == pre.positions[j],
        forall|j: int| 0 <= j < pre.dashers.len() ==> #[trigger] post.dashers[j]
            == pre.dashers[j],
        forall|j: int| 0 <= j < pre.dangers.len() ==> #[trigger] post.dangers[j]
            == pre.dangers[j],
        post.positions.last().0.0 == pre.id_counter,
        post.positions.last().1.y == 0,
        0 <= post.positions.last().1.x < crate::GAME_SCREEN_WIDTH,
        post.positions.last().1.x % 4 == 0,
        post.dashers.last().0.0 == pre.id_counter,
        post.dashers.last().1.move_next == pre.time + DASHER_MOVE_EVERY,
        post.dashers.last().1.move_until == pre.time + DASHER_MOVE_EVERY + DASHER_MOVE_FOR,
        !post.dashers.last().1.delete_next_tick,
        vel_ok(post.dashers.last().1),
        post.dangers.last().0.0 == pre.id_counter,
        post.dangers.last().1.radius == DASHER_RADIUS,
    ensures
        spawned_batch(v0, post, (c + 1) as nat, vel_ok),
{
    assert(post.positions.subrange(0, v0.positions.len() as int) =~= v0.positions);
    assert(post.dashers.subrange(0, v0.dashers.len() as int) =~= v0.dashers);
    assert(post.dangers.subrange(0, v0.dangers.len() as int) =~= v0.dangers);
}

/// Spawns a downwards wave at the current difficulty's speed.
pub fn spawn_downwards_dashers(game: &mut Game) -> (threat: Threat)
    requires
        old(game)@.store_inv(),
        old(game).id_counter + 32 <= u64::MAX,
        old(game).time + DASHER_MOVE_EVERY + DASHER_MOVE_FOR <= u64::MAX,
    ensures
        final(game)@.store_inv(),
        forall|s: int|
            s >= 0 && #[trigger] old(game)@.bounds_inv(s) ==> final(game)@.bounds_inv(s),
        0 <= threat.0 < 60 * MAX_DOWNWARDS_DASHER_WAVE_SIZE,
        down_wave_rel(old(game)@, final(game)@, threat.0 as int),
        old(game)@.dashers_paired() ==> final(game)@.dashers_paired(),
{
    let speed = get_speed(DOWNWARD_DASHER_SPEED, game.wave_spawner.current_difficulty);
    proof {
        assert((game.wave_spawner.current_difficulty as int) / 600 <= 7158278);
    }
    let threat = spawn_downwards_dashers_with_parameters(
        game,
        MAX_DOWNWARDS_DASHER_WAVE_SIZE,
        speed,
    );
    proof {
        assert(spawned_batch(
            old(game)@,
            game@,
            (threat.0 / 60) as nat,
            down_vel(speed as int),
        ));
    }
    threat
}

/// Spawns a speedster wave: few, but twice as fast.
pub fn spawn_speedsters(game: &mut Game) -> (threat: Threat)
    requires
        old(game)@.store_inv(),
        old(game).id_counter + 32 <= u64::MAX,
        old(game).time + DASHER_MOVE_EVERY + DASHER_MOVE_FOR <= u64::MAX,
    ensures
        final(game)@.store_inv(),
        forall|s: int|
            s >= 0 && #[trigger] old(game)@.bounds_inv(s) ==> final(game)@.bounds_inv(s),
        0 <= threat.0 < 60 * MAX_SPEEDSTERS_WAVE_SIZE,
        speedster_wave_rel(old(game)@, final(game)@, threat.0 as int),
        old(game)@.dashers_paired() ==> final(game)@.dashers_paired(),
{
    let ghost v0 = game@;
    proof {
        assert((game.wave_spawner.current_difficulty as int) / 600 <= 7158278);
    }
    let speed = get_speed(DOWNWARD_DASHER_SPEED, game.wave_spawner.current_difficulty)
        * SPEEDSTER_SPEED_MULTIPLIER;
    let threat = spawn_downwards_dashers_with_parameters(game, MAX_SPEEDSTERS_WAVE_SIZE, speed);
    proof {
        assert(speed as int == SPEEDSTER_SPEED_MULTIPLIER * speed_spec(
            DOWNWARD_DASHER_SPEED as int,
            v0.wave_spawner.current_difficulty,
        ));
        assert(spawned_batch(
            v0,
            game@,
            (threat.0 / 60) as nat,
            down_vel(
                SPEEDSTER_SPEED_MULTIPLIER * speed_spec(
                    DOWNWARD_DASHER_SPEED as int,
                    v0.wave_spawner.current_difficulty,
                ),
            ),
        ));
    }
    threat
}

/// Spawns a bishop wave: the drawn size plus the difficulty bonus, each
/// falling at full speed and drifting sideways at three quarters of it.
pub fn spawn_bishops(game: &mut Game) -> (threat: Threat)
    requires
        old(game)@.store_inv(),
        old(game).id_counter + 32 <= u64::MAX,
        old(game).time + DASHER_MOVE_EVERY + DASHER_MOVE_FOR <= u64::MAX,
    ensures
        final(game)@.store_inv(),
        forall|s: int|
            s >= 0 && #[trigger] old(game)@.bounds_inv(s) ==> final(game)@.bounds_inv(s),
        0 <= threat.0 < 60 * (MAX_BISHOP_WAVE_SIZE + MAX_EXTRA_BISHOPS),
        bishop_wave_rel(old(game)@, final(game)@, threat.0 as int),
        old(game)@.dashers_paired() ==> final(game)@.dashers_paired(),
{
    let ghost v0 = game@;
    let difficulty_bonus = game.wave_spawner.current_difficulty / EXTRA_BISHOP_EVERY;
    let extra_wave_size = if MAX_EXTRA_BISHOPS < difficulty_bonus {
        MAX_EXTRA_BISHOPS
    } else {
        difficulty_bonus
    };
    let drawn = get_wave_size(MAX_BISHOP_WAVE_SIZE);
    let wave_size = drawn + extra_wave_size;
    proof {
        assert((game.wave_spawner.current_difficulty as int) / 600 <= 7158278);
        assert(extra_wave_size == extra_bishops(v0.wave_spawner.current_difficulty));
    }
    let speed = get_speed(DOWNWARD_DASHER_SPEED, game.wave_spawner.current_difficulty);
    let ghost vel_ok = bishop_vel(speed as int);
    proof {
        assert(v0.positions.subrange(0, v0.positions.len() as int) =~= v0.positions);
        assert(v0.dashers.subrange(0, v0.dashers.len() as int) =~= v0.dashers);
        assert(v0.dangers.subrange(0, v0.dangers.len() as int) =~= v0.dangers);
    }
    for c in 0..wave_size
        invariant
            game@.store_inv(),
            forall|s: int| s >= 0 && #[trigger] v0.bounds_inv(s) ==> game@.bounds_inv(s),
            wave_size <= 9,
            0 <= speed <= crate::VEL_LIMIT,
            speed % 4 == 0,
            vel_ok == bishop_vel(speed as int),
            v0.id_counter + 32 <= u64::MAX,
            v0.time + DASHER_MOVE_EVERY + DASHER_MOVE_FOR <= u64::MAX,
            spawned_batch(v0, game@, c as nat, vel_ok),
    {
        let x = rand_below(WAVE_SPAWN_WIDTH);
        let going_right = rand_coin();
        let sideways = (speed * 3) / 4;
        let horizontal_speed = if going_right {
            sideways
        } else {
            -sideways
        };
        let ghost pre = game@;
        Dasher::new(game, (x as i64) * 4, 0, horizontal_speed, speed);
        proof {
            assert(vel_ok(game@.dashers.last().1));
            lemma_spawned_batch_push(v0, pre, game@, c as nat, vel_ok);
        }
    }
    proof {
        if v0.dashers_paired() {
            crate::laws::lemma_pairing_spawned(v0, game@, wave_size as nat, vel_ok);
        }
    }
    Threat(60 * (wave_size as i32))
}

/// Chooses a wave kind by the residual-weight walk over the three kinds'
/// weights of four, two and one eighths-of-seven, spawns it, and returns its
/// threat value.
pub fn spawn_wave(game: &mut Game) -> (threat: Threat)
    requires
        old(game)@.store_inv(),
        old(game).id_counter + 32 <= u64::MAX,
        old(game).time + DASHER_MOVE_EVERY + DASHER_MOVE_FOR <= u64::MAX,
    ensures
        final(game)@.store_inv(),
        forall|s: int|
            s >= 0 && #[trigger] old(game)@.bounds_inv(s) ==> final(game)@.bounds_inv(s),
        0 <= threat.0 < 1800,
        wave_rel(old(game)@, final(game)@, threat.0 as int),
        old(game)@.dashers_paired() ==> final(game)@.dashers_paired(),
{
    if rand_below(7) < 4 {
        spawn_downwards_dashers(game)
    } else if rand_below(3) < 2 {
        spawn_speedsters(game)
    } else {
        spawn_bishops(game)
    }
}

impl WaveSpawner {
    /// A spawner with an empty threat budget at the starting difficulty.
    pub fn new() -> (r: WaveSpawner)
        ensures
            r == (WaveSpawner { threat_needed: Threat(0), current_difficulty: STARTING_DIFFICULTY }),
    {
        WaveSpawner { threat_needed: Threat(0), current_difficulty: STARTING_DIFFICULTY }
    }

    /// Whether the accumulated threat lets the next tick spawn a wave.
    pub fn wants_wave(&self) -> (r: bool)
        ensures
            r == (self.threat_needed.0 > MINIMUM_THREAT_FOR_WAVE),
    {
        self.threat_needed.0 > MINIMUM_THREAT_FOR_WAVE
    }

    /// Deducts a spawned wave's threat value from the accumulator.
    pub fn apply_wave_threat(&mut self, wave_threat: Threat)
        requires
            i32::MIN <= old(self).threat_needed.0 - wave_threat.0 <= i32::MAX,
        ensures
            *final(self) == (WaveSpawner {
                threat_needed: Threat((old(self).threat_needed.0 - wave_threat.0) as i32),
                ..*old(self)
            }),
    {
        self.threat_needed = Threat(self.threat_needed.0 - wave_threat.0);
    }

    /// Accrues one tick of threat, and one tick of difficulty if a player
    /// is alive.
    pub fn accrue(&mut self, player_alive: bool)
        requires
            old(self).threat_needed.0 + THREAT_PER_TICK + old(self).current_difficulty
                / INCREASE_THREAT_EVERY <= i32::MAX,
            old(self).current_difficulty + DIFFICULTY_PER_TICK <= u32::MAX,
        ensures
            *final(self) == (WaveSpawner {
                threat_needed: Threat(
                    (old(self).threat_needed.0 + THREAT_PER_TICK + old(
                        self,
                    ).current_difficulty / INCREASE_THREAT_EVERY) as i32,
                ),
                current_difficulty: if player_alive {
                    (old(self).current_difficulty + DIFFICULTY_PER_TICK) as u32
                } else {
                    old(self).current_difficulty
                },
            }),
    {
        let extra_threat = self.current_difficulty / INCREASE_THREAT_EVERY;
        self.threat_needed = Threat(self.threat_needed.0 + THREAT_PER_TICK + extra_threat as i32);
        if player_alive {
            self.current_difficulty = self.current_difficulty + DIFFICULTY_PER_TICK;
        }
    }

    /// Runs the spawner's tick: if the accumulated threat is over the
    /// threshold, spawns a wave and deducts its threat; then accrues threat,
    /// and difficulty while a player exists.
    pub fn step(game: &mut Game)
        requires
            old(game)@.store_inv(),
            -0x4000_0000 <= old(game).wave_spawner.threat_needed.0 <= 0x4000_0000,
            old(game).wave_spawner.current_difficulty + DIFFICULTY_PER_TICK <= u32::MAX,
            old(game).id_counter + 32 <= u64::MAX,
            old(game).time + DASHER_MOVE_EVERY + DASHER_MOVE_FOR <= u64::MAX,
        ensures
            final(game)@.store_inv(),
            forall|s: int|
                s >= 0 && #[trigger] old(game)@.bounds_inv(s) ==> final(game)@.bounds_inv(s),
            spawner_step_rel(old(game)@, final(game)@),
            old(game)@.dashers_paired() ==> final(game)@.dashers_paired(),
            final(game).wave_spawner.current_difficulty == old(
                game,
            ).wave_spawner.current_difficulty + (
            if old(game).player is Some {
                DIFFICULTY_PER_TICK as int
            } else {
                0int
            }),
    {
        let ghost v0 = game@;
        if game.wave_spawner.wants_wave() {
            let wave_threat = spawn_wave(game);
            let ghost mid = game@;
            game.wave_spawner.apply_wave_threat(wave_threat);
            let alive = game.player.is_some();
            game.wave_spawner.accrue(alive);
            proof {
                assert(wave_rel(v0, mid, wave_threat.0 as int));
                assert(game@ =~= (GameView {
                    wave_spawner: accrue_spec(
                        WaveSpawner {
                            threat_needed: Threat(
                                (v0.wave_spawner.threat_needed.0 - wave_threat.0) as i32,
                            ),
                            ..v0.wave_spawner
                        },
                        v0.player is Some,
                    ),
                    ..mid
                }));
            }
        } else {
            let alive = game.player.is_some();
            game.wave_spawner.accrue(alive);
            proof {
                assert(game@ =~= (GameView {
                    wave_spawner: accrue_spec(v0.wave_spawner, v0.player is Some),
                    ..v0
                }));
            }
        }
    }
}

/// A spawner state after one tick of accrual: threat grows by the base rate
/// plus the difficulty bonus, difficulty by one tick's worth while a player
/// is alive.
pub open spec fn accrue_spec(s: WaveSpawner, player_alive: bool) -> WaveSpawner {
    WaveSpawner {
        threat_needed: Threat(
            (s.threat_needed.0 + THREAT_PER_TICK + (s.current_difficulty as int) / (
            INCREASE_THREAT_EVERY as int)) as i32,
        ),
        current_difficulty: if player_alive {
            (s.current_difficulty + DIFFICULTY_PER_TICK) as u32
        } else {
            s.current_difficulty
        },
    }
}

/// One spawner tick: below the threshold only accrual happens; over it, some
/// wave is spawned and its threat deducted before accrual.
pub open spec fn spawner_step_rel(pre: GameView, post: GameView) -> bool {
    if pre.wave_spawner.threat_needed.0 <= MINIMUM_THREAT_FOR_WAVE {
        post == (GameView {
            wave_spawner: accrue_spec(pre.wave_spawner, pre.player is Some),
            ..pre
        })
    } else {
        exists|mid: GameView, t: int|
            #[trigger] wave_rel(pre, mid, t) && post == (GameView {
                wave_spawner: accrue_spec(
                    WaveSpawner {
                        threat_needed: Threat((pre.wave_spawner.threat_needed.0 - t) as i32),
                        ..pre.wave_spawner
                    },
                    pre.player is Some,
                ),
                ..mid
            })
    }
}

} // verus!
