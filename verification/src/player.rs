//! The player disc: input flags, sticky velocity, lives and invincibility.

use vstd::prelude::*;
use crate::game::{Game, GameObjectId, GameView, Position};
use crate::table::{tbl_has, tbl_idx, tbl_find, lemma_tbl_idx, lemma_tbl_same_keys};

verus! {

/// Player speed in quarter units per tick (5 logical units).
pub const PLAYER_SPEED: i64 = 20;

/// Ticks of invincibility granted on spawn.
pub const SPAWN_INVINCIBILITY_TIME: u64 = 300;

#[derive(Copy, Clone, PartialEq, Eq, Structural, Debug)]
pub struct Player {
    pub id: GameObjectId,
    pub left: bool,
    pub right: bool,
    pub up: bool,
    pub down: bool,
    pub dx: i64,
    pub dy: i64,
    pub invincibility_until: u64,
    pub lives: u8,
}

/// The sticky-speed rule for one axis: opposing flags keep the previous
/// velocity, a single flag gives full speed in its direction, no flag stops.
pub open spec fn sticky_speed_spec(negative: bool, positive: bool, previous: int) -> int {
    if negative && positive {
        previous
    } else if negative {
        -(PLAYER_SPEED as int)
    } else if positive {
        PLAYER_SPEED as int
    } else {
        0
    }
}

fn sticky_speed(negative: bool, positive: bool, previous: i64) -> (r: i64)
    ensures
        r == sticky_speed_spec(negative, positive, previous as int),
{
    if negative {
        if positive {
            previous
        } else {
            -PLAYER_SPEED
        }
    } else if positive {
        PLAYER_SPEED
    } else {
        0
    }
}

/// The player with both axes' velocities recomputed from its current flags.
pub open spec fn player_velocity_spec(p: Player) -> Player {
    Player {
        dx: sticky_speed_spec(p.left, p.right, p.dx as int) as i64,
        dy: sticky_speed_spec(p.up, p.down, p.dy as int) as i64,
        ..p
    }
}

/// The game after the player's velocities are recomputed from its flags.
pub open spec fn player_move_spec(v: GameView) -> GameView {
    match v.player {
        Option::None => v,
        Option::Some(p) => GameView { player: Option::Some(player_velocity_spec(p)), ..v },
    }
}

/// Horizontal screen-edge policy: one wrap across the vertical edges, so a
/// coordinate moved by at most one field width lands back in `[0, W)`.
pub open spec fn wrap_x_spec(x: int) -> int {
    if x >= crate::GAME_SCREEN_WIDTH {
        x - crate::GAME_SCREEN_WIDTH
    } else if x < 0 {
        x + crate::GAME_SCREEN_WIDTH
    } else {
        x
    }
}

/// Vertical screen-edge policy: clamp to the field.
pub open spec fn clamp_y_spec(y: int) -> int {
    if y > crate::GAME_SCREEN_HEIGHT {
        crate::GAME_SCREEN_HEIGHT as int
    } else if y < 0 {
        0
    } else {
        y
    }
}

/// The game after one player movement step: the player's position advances by
/// its velocity, wrapping horizontally and clamping vertically.
pub open spec fn player_step_spec(v: GameView) -> GameView {
    match v.player {
        Option::None => v,
        Option::Some(p) => {
            if tbl_has(v.positions, p.id) {
                let i = tbl_idx(v.positions, p.id);
                let pos = v.positions[i].1;
                let np = Position {
                    x: wrap_x_spec(pos.x + p.dx) as i64,
                    y: clamp_y_spec(pos.y + p.dy) as i64,
                };
                GameView { positions: v.positions.update(i, (p.id, np)), ..v }
            } else {
                v
            }
        },
    }
}

impl Player {
    /// Spawns a player at `(x, y)` with zero velocity, three lives and
    /// invincibility until `time + 300`, replacing any existing player.
    pub fn new(game: &mut Game, x: i64, y: i64)
        requires
            old(game)@.store_inv(),
            -crate::POS_LIMIT <= x <= crate::POS_LIMIT,
            -crate::POS_LIMIT <= y <= crate::POS_LIMIT,
            old(game).id_counter < u64::MAX,
            old(game).time + SPAWN_INVINCIBILITY_TIME <= u64::MAX,
        ensures
            final(game)@.store_inv(),
            final(game)@ == (GameView {
                id_counter: (old(game).id_counter + 1) as u64,
                positions: old(game)@.positions.push(
                    (GameObjectId(old(game).id_counter), Position { x, y }),
                ),
                player: Option::Some(Player {
                    id: GameObjectId(old(game).id_counter),
                    left: false,
                    right: false,
                    up: false,
                    down: false,
                    dx: 0,
                    dy: 0,
                    invincibility_until: (old(game).time + SPAWN_INVINCIBILITY_TIME) as u64,
                    lives: 3,
                },),
                ..old(game)@
            }),
            forall|s: int|
                s >= 0 && #[trigger] old(game)@.bounds_inv(s) ==> final(game)@.bounds_inv(s),
    {
        let id = game.create_game_object(x, y);
        let player = Player {
            id,
            dx: 0,
            dy: 0,
            up: false,
            down: false,
            left: false,
            right: false,
            invincibility_until: game.time + SPAWN_INVINCIBILITY_TIME,
            lives: 3,
        };
        game.player = Some(player);
    }

    /// Recomputes the player's velocity from its input flags by the sticky
    /// rule; no effect if no player exists.
    pub fn move_player(game: &mut Game)
        ensures
            final(game)@ == player_move_spec(old(game)@),
    {
        if let Some(player) = game.player.as_mut() {
            player.dx = sticky_speed(player.left, player.right, player.dx);
            player.dy = sticky_speed(player.up, player.down, player.dy);
        }
    }

    /// Advances the player by its velocity and applies the screen-edge
    /// policy; no effect if no player (or no position) exists.
    pub fn step(game: &mut Game)
        requires
            old(game)@.wf(),
        ensures
            final(game)@ == player_step_spec(old(game)@),
            final(game)@.store_inv(),
            final(game)@.bounds_inv(crate::MOVE_SLACK as int),
    {
        let p = match game.player {
            Some(p) => p,
            None => {
                return;
            },
        };
        match tbl_find(&game.positions, p.id) {
            Some(i) => {
                let pos = game.positions[i].1;
                let mut nx: i64 = pos.x + p.dx;
                if nx >= crate::GAME_SCREEN_WIDTH {
                    nx = nx - crate::GAME_SCREEN_WIDTH;
                }
                if nx < 0 {
                    nx = nx + crate::GAME_SCREEN_WIDTH;
                }
                let mut ny: i64 = pos.y + p.dy;
                if ny > crate::GAME_SCREEN_HEIGHT {
                    ny = crate::GAME_SCREEN_HEIGHT;
                }
                if ny < 0 {
                    ny = 0;
                }
                let np = Position { x: nx, y: ny };
                game.positions.set(i, (p.id, np));
                proof {
                    lemma_tbl_idx(old(game)@.positions, p.id, i as int);
                    assert(game@ =~= player_step_spec(old(game)@));
                    assert(forall|j: int|
                        0 <= j < game@.positions.len() ==> (#[trigger] game@.positions[j]).0 == (
                        #[trigger] old(game)@.positions[j]).0);
                    lemma_tbl_same_keys(old(game)@.positions, game@.positions);
                    assert(game@.store_inv());
                    assert forall|j: int| 0 <= j < game@.positions.len() implies ({
                        let q = (#[trigger] game@.positions[j]).1;
                        &&& -(crate::POS_LIMIT + crate::MOVE_SLACK) <= q.x <= crate::POS_LIMIT
                            + crate::MOVE_SLACK
                        &&& -(crate::POS_LIMIT + crate::MOVE_SLACK) <= q.y <= crate::POS_LIMIT
                            + crate::MOVE_SLACK
                    }) by {
                        if j != i as int {
                            assert(game@.positions[j] == old(game)@.positions[j]);
                        }
                        assert(old(game)@.bounds_inv(0));
                        assert(0 <= j < old(game)@.positions.len());
                    }
                    assert(game@.bounds_inv(crate::MOVE_SLACK as int));
                }
            },
            None => {},
        }
    }
}
} // verus!
