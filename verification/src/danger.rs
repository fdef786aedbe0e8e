//! Collision discs and damage: each hostile object carries a `Danger` radius;
//! the danger step tests every danger against the player and applies damage.

use vstd::prelude::*;
use vstd::pervasive::unreached;
use crate::game::{Game, GameObjectId, GameView, Position};
use crate::player::Player;
use crate::table::{tbl_has, tbl_get, tbl_idx, tbl_key_at, tbl_find, lemma_tbl_idx,
    lemma_filter_push, lemma_map_values_push};

verus! {

/// The player's own collision radius in quarter units (5 logical units).
pub const PLAYER_DANGER_RADIUS: i64 = 20;

/// Ticks of invincibility granted by a nonfatal hit.
pub const HIT_INVINCIBILITY_TIME: u64 = 180;

/// A collision radius in quarter units.
#[derive(Copy, Clone, PartialEq, Eq, Structural, Debug)]
pub struct Danger {
    pub radius: i64,
}

/// Whether a danger entry overlaps the player at `ppos`: the squared distance
/// between the two centres is strictly below the squared sum of the radii.
pub open spec fn hit_pred(
    positions: Seq<(GameObjectId, Position)>,
    ppos: Position,
) -> spec_fn((GameObjectId, Danger)) -> bool {
    |e: (GameObjectId, Danger)|
        ppos.distance_squared_spec(tbl_get(positions, e.0)) < (PLAYER_DANGER_RADIUS + e.1.radius)
            * (PLAYER_DANGER_RADIUS + e.1.radius)
}

/// The first component of an entry.
pub open spec fn entry_key<V>() -> spec_fn((GameObjectId, V)) -> GameObjectId {
    |e: (GameObjectId, V)| e.0
}

/// The ids of the dangers that overlap the player this tick, in table order.
pub open spec fn danger_hits(v: GameView, p: Player) -> Seq<GameObjectId> {
    v.dangers.filter(hit_pred(v.positions, tbl_get(v.positions, p.id))).map_values(
        entry_key::<Danger>(),
    )
}

/// The game after one danger step. With a vulnerable player present, every
/// overlapping danger id is marked deleted; if any hit occurred, the player
/// loses a life and becomes invincible until `time + 180`, or is destroyed
/// when no lives are left.
pub open spec fn danger_step_spec(v: GameView) -> GameView {
    match v.player {
        Option::None => v,
        Option::Some(p) => {
            if p.invincibility_until > v.time {
                v
            } else if !tbl_has(v.positions, p.id) {
                v
            } else {
                let hits = danger_hits(v, p);
                if hits.len() == 0 {
                    v
                } else {
                    GameView {
                        deleted: v.deleted + hits,
                        player: if p.lives == 0 {
                            Option::None
                        } else {
                            Option::Some(Player {
                                invincibility_until: (v.time + HIT_INVINCIBILITY_TIME) as u64,
                                lives: (p.lives - 1) as u8,
                                ..p
                            })
                        },
                        ..v
                    }
                }
            }
        },
    }
}

impl Danger {
    /// Registers a collision disc of `radius` under `id`.
    pub fn new(game: &mut Game, id: GameObjectId, radius: i64)
        requires
            -crate::VEL_LIMIT <= radius <= crate::VEL_LIMIT,
        ensures
            final(game)@ == (GameView {
                dangers: old(game)@.dangers.push((id, Danger { radius })),
                ..old(game)@
            }),
    {
        let danger = Danger { radius };
        game.dangers.push((id, danger));
    }

    /// Runs the collision pass: finds every danger overlapping the player,
    /// marks the hit ids deleted, and applies damage to the player.
    pub fn step(game: &mut Game)
        requires
            old(game)@.store_inv(),
            old(game)@.bounds_inv(crate::MOVE_SLACK as int),
            old(game)@.time + HIT_INVINCIBILITY_TIME <= u64::MAX,
        ensures
            final(game)@ == danger_step_spec(old(game)@),
            final(game)@.store_inv(),
            final(game)@.bounds_inv(crate::MOVE_SLACK as int),
    {
        let ghost v0 = game@;
        let p = match game.player {
            Some(p) => p,
            None => {
                return;
            },
        };
        if p.invincibility_until > game.time {
            return;
        }
        let ppos_idx = match tbl_find(&game.positions, p.id) {
            Some(i) => i,
            None => {
                return;
            },
        };
        proof {
            lemma_tbl_idx(v0.positions, p.id, ppos_idx as int);
        }
        let ppos = game.positions[ppos_idx].1;
        let mut hit_player: Vec<GameObjectId> = Vec::new();
        let n: usize = game.dangers.len();
        for i in 0..n
            invariant
                game@ == v0,
                v0.store_inv(),
                v0.bounds_inv(crate::MOVE_SLACK as int),
                n == v0.dangers.len(),
                ppos == tbl_get(v0.positions, p.id),
                -(crate::POS_LIMIT + crate::MOVE_SLACK) <= ppos.x <= crate::POS_LIMIT
                    + crate::MOVE_SLACK,
                -(crate::POS_LIMIT + crate::MOVE_SLACK) <= ppos.y <= crate::POS_LIMIT
                    + crate::MOVE_SLACK,
                hit_player@ == v0.dangers.take(i as int).filter(
                    hit_pred(v0.positions, ppos),
                ).map_values(entry_key::<Danger>()),
        {
            let (id, danger) = game.dangers[i];
            proof {
                assert(tbl_has(v0.dangers, id)) by {
                    assert(tbl_key_at(v0.dangers, id, i as int));
                }
                assert(tbl_has(v0.positions, id));
                let j = tbl_idx(v0.positions, id);
                assert(tbl_key_at(v0.positions, id, j));
            }
            let danger_idx = match tbl_find(&game.positions, id) {
                Some(j) => j,
                None => unreached(),
            };
            proof {
                lemma_tbl_idx(v0.positions, id, danger_idx as int);
            }
            let danger_pos = game.positions[danger_idx].1;
            let hit = ppos.is_closer_than(&danger_pos, PLAYER_DANGER_RADIUS + danger.radius);
            proof {
                assert(v0.dangers.take(i + 1) =~= v0.dangers.take(i as int).push(
                    v0.dangers[i as int],
                ));
                lemma_filter_push(
                    v0.dangers.take(i as int),
                    hit_pred(v0.positions, ppos),
                    v0.dangers[i as int],
                );
                lemma_map_values_push(
                    v0.dangers.take(i as int).filter(hit_pred(v0.positions, ppos)),
                    entry_key::<Danger>(),
                    v0.dangers[i as int],
                );
            }
            if hit {
                hit_player.push(id);
            }
        }
        proof {
            assert(v0.dangers.take(n as int) =~= v0.dangers);
        }
        if hit_player.len() == 0 {
            return;
        }
        let m: usize = hit_player.len();
        for i in 0..m
            invariant
                m == hit_player@.len(),
                game.deleted@ == v0.deleted + hit_player@.take(i as int),
                game.player == v0.player,
                game.positions@ == v0.positions,
                game.dashers@ == v0.dashers,
                game.dangers@ == v0.dangers,
                game.wave_spawner == v0.wave_spawner,
                game.time == v0.time,
                game.id_counter == v0.id_counter,
        {
            proof {
                assert(hit_player@.take(i + 1) =~= hit_player@.take(i as int).push(
                    hit_player@[i as int],
                ));
            }
            let id = hit_player[i];
            game.deleted.push(id);
        }
        proof {
            assert(hit_player@.take(m as int) =~= hit_player@);
        }
        if p.lives == 0 {
            game.player = None;
        } else {
            let mut upd = p;
            upd.invincibility_until = game.time + HIT_INVINCIBILITY_TIME;
            upd.lives = p.lives - 1;
            game.player = Some(upd);
        }
        proof {
            assert(game@ =~= danger_step_spec(v0));
        }
    }
}

} // verus!
