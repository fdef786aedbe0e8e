//! The shared object store and the tick driver: positions, dashers and
//! dangers keyed by id, the optional player, the deferred-deletion list, the
//! wave spawner and the global clock.

use vstd::prelude::*;
use crate::danger::Danger;
use crate::dasher::Dasher;
use crate::player::Player;
use crate::waves::WaveSpawner;
use crate::table::{tbl_has, tbl_key_at, tbl_unique};

verus! {

/// Identifier of a live game object, allocated by a monotone counter and
/// never reused within a session.
#[derive(Copy, Clone, PartialEq, Eq, Structural, Hash, Debug)]
pub struct GameObjectId(pub u64);

/// A point of the play field, both coordinates in quarter units.
#[derive(Copy, Clone, PartialEq, Eq, Structural, Debug)]
pub struct Position {
    pub x: i64,
    pub y: i64,
}

impl Position {
    /// The squared distance to `other`, in squared quarter units.
    pub open spec fn distance_squared_spec(self, other: Position) -> int {
        (self.x - other.x) * (self.x - other.x) + (self.y - other.y) * (self.y - other.y)
    }

    /// Computes the squared distance to `other`.
    pub fn get_distance_squared(&self, other: &Self) -> (r: i128)
        requires
            -crate::COORD_LIMIT <= self.x <= crate::COORD_LIMIT,
            -crate::COORD_LIMIT <= self.y <= crate::COORD_LIMIT,
            -crate::COORD_LIMIT <= other.x <= crate::COORD_LIMIT,
            -crate::COORD_LIMIT <= other.y <= crate::COORD_LIMIT,
        ensures
            r == self.distance_squared_spec(*other),
    {
        let dx: i128 = self.x as i128 - other.x as i128;
        let dy: i128 = self.y as i128 - other.y as i128;
        proof {
            assert(dx * dx <= 0x1000_0000_0000_0000_0000_0000_0000_0000int && dx * dx >= 0)
                by (nonlinear_arith)
                requires -0x4000_0000_0000_0000i128 <= dx <= 0x4000_0000_0000_0000i128;
            assert(dy * dy <= 0x1000_0000_0000_0000_0000_0000_0000_0000int && dy * dy >= 0)
                by (nonlinear_arith)
                requires -0x4000_0000_0000_0000i128 <= dy <= 0x4000_0000_0000_0000i128;
        }
        dx * dx + dy * dy
    }

    /// Whether `other` lies strictly closer to `self` than `distance`.
    pub fn is_closer_than(&self, other: &Self, distance: i64) -> (r: bool)
        requires
            -crate::COORD_LIMIT <= self.x <= crate::COORD_LIMIT,
            -crate::COORD_LIMIT <= self.y <= crate::COORD_LIMIT,
            -crate::COORD_LIMIT <= other.x <= crate::COORD_LIMIT,
            -crate::COORD_LIMIT <= other.y <= crate::COORD_LIMIT,
        ensures
            r == (self.distance_squared_spec(*other) < distance * distance),
    {
        let distance_sq = self.get_distance_squared(other);
        let d128: i128 = distance as i128;
        proof {
            assert(d128 * d128 <= 0x4000_0000_0000_0000_0000_0000_0000_0000int && d128 * d128 >= 0)
                by (nonlinear_arith)
                requires -0x8000_0000_0000_0000i128 <= d128 <= 0x8000_0000_0000_0000i128;
        }
        distance_sq < d128 * d128
    }
}

/// The mathematical view of a [`Game`]: the same record with the tables as
/// sequences.
#[verifier::ext_equal]
pub struct GameView {
    pub id_counter: u64,
    pub time: u64,
    pub deleted: Seq<GameObjectId>,
    pub player: Option<Player>,
    pub dangers: Seq<(GameObjectId, Danger)>,
    pub wave_spawner: WaveSpawner,
    pub positions: Seq<(GameObjectId, Position)>,
    pub dashers: Seq<(GameObjectId, Dasher)>,
}

/// The game-wide record every subsystem's step reads and mutates.
pub struct Game {
    pub id_counter: u64,
    pub time: u64,
    pub deleted: Vec<GameObjectId>,
    pub player: Option<Player>,
    pub dangers: Vec<(GameObjectId, Danger)>,
    pub wave_spawner: WaveSpawner,
    pub positions: Vec<(GameObjectId, Position)>,
    pub dashers: Vec<(GameObjectId, Dasher)>,
}

impl View for Game {
    type V = GameView;

    open spec fn view(&self) -> GameView {
        GameView {
            id_counter: self.id_counter,
            time: self.time,
            deleted: self.deleted@,
            player: self.player,
            dangers: self.dangers@,
            wave_spawner: self.wave_spawner,
            positions: self.positions@,
            dashers: self.dashers@,
        }
    }
}

impl GameView {
    /// Structural invariant of the store: keys are unique, below the
    /// allocation counter, every dasher has a position and a danger entry,
    /// and every danger has a position.
    pub open spec fn store_inv(self) -> bool {
        &&& tbl_unique(self.positions)
        &&& tbl_unique(self.dashers)
        &&& tbl_unique(self.dangers)
        &&& forall|i: int|
            0 <= i < self.positions.len() ==> (#[trigger] self.positions[i]).0.0
                < self.id_counter
        &&& forall|i: int|
            0 <= i < self.dashers.len() ==> tbl_has(self.positions, (#[trigger] self.dashers[i]).0)
                && tbl_has(self.dangers, self.dashers[i].0)
        &&& forall|i: int|
            0 <= i < self.dangers.len() ==> tbl_has(self.positions, (#[trigger] self.dangers[i]).0)
    }

    /// Magnitude bounds that keep every step's arithmetic inside `i64`:
    /// positions within `POS_LIMIT` plus the given slack, velocities and
    /// radii within `VEL_LIMIT`, the player's velocity set by the sticky
    /// rule and its lives within three.
    pub open spec fn bounds_inv(self, slack: int) -> bool {
        &&& forall|i: int|
            0 <= i < self.positions.len() ==> {
                let p = (#[trigger] self.positions[i]).1;
                -(crate::POS_LIMIT + slack) <= p.x <= crate::POS_LIMIT + slack
                    && -(crate::POS_LIMIT + slack) <= p.y <= crate::POS_LIMIT + slack
            }
        &&& forall|i: int|
            0 <= i < self.dashers.len() ==> {
                let d = (#[trigger] self.dashers[i]).1;
                -crate::VEL_LIMIT <= d.dx <= crate::VEL_LIMIT && -crate::VEL_LIMIT <= d.dy
                    <= crate::VEL_LIMIT
            }
        &&& forall|i: int|
            0 <= i < self.dangers.len() ==> -crate::VEL_LIMIT
                <= (#[trigger] self.dangers[i]).1.radius <= crate::VEL_LIMIT
        &&& match self.player {
            Option::None => true,
            Option::Some(p) => {
                &&& (p.dx == 0 || p.dx == crate::player::PLAYER_SPEED || p.dx
                    == -crate::player::PLAYER_SPEED)
                &&& (p.dy == 0 || p.dy == crate::player::PLAYER_SPEED || p.dy
                    == -crate::player::PLAYER_SPEED)
                &&& p.lives <= 3
            },
        }
    }

    /// Well-formedness: the structural invariant with slack-free bounds.
    pub open spec fn wf(self) -> bool {
        self.store_inv() && self.bounds_inv(0)
    }

    /// Every dasher id carries a danger entry of the standard dasher radius
    /// under the same id.
    pub open spec fn dashers_paired(self) -> bool {
        forall|i: int|
            0 <= i < self.dashers.len() ==> tbl_has(self.dangers, (#[trigger] self.dashers[i]).0)
                && crate::table::tbl_get(self.dangers, self.dashers[i].0).radius
                == crate::dasher::DASHER_RADIUS
    }
}

impl Game {
    /// Allocates a fresh id and inserts a position for it.
    pub fn create_game_object(&mut self, x: i64, y: i64) -> (id: GameObjectId)
        requires
            old(self)@.store_inv(),
            -crate::POS_LIMIT <= x <= crate::POS_LIMIT,
            -crate::POS_LIMIT <= y <= crate::POS_LIMIT,
            old(self).id_counter < u64::MAX,
        ensures
            final(self)@.store_inv(),
            id == (GameObjectId(old(self).id_counter)),
            final(self)@ == (GameView {
                id_counter: (old(self).id_counter + 1) as u64,
                positions: old(self)@.positions.push((id, Position { x, y })),
                ..old(self)@
            }),
            forall|s: int|
                s >= 0 && #[trigger] old(self)@.bounds_inv(s) ==> final(self)@.bounds_inv(s),
    {
        let id = GameObjectId(self.id_counter);
        self.id_counter = self.id_counter + 1;
        self.positions.push((id, Position { x, y }));
        proof {
            assert(self@ =~= (GameView {
                id_counter: (old(self).id_counter + 1) as u64,
                positions: old(self)@.positions.push((id, Position { x, y })),
                ..old(self)@
            }));
            crate::table::lemma_tbl_push_keys(old(self)@.positions, (id, Position { x, y }));
            assert(forall|i: int|
                0 <= i < old(self)@.positions.len() ==> self@.positions[i] == old(
                    self,
                )@.positions[i]);
            assert(self@.store_inv());
            assert forall|s: int|
                s >= 0 && #[trigger] old(self)@.bounds_inv(s) implies self@.bounds_inv(s) by {}
        }
        id
    }

    /// Advances one simulated tick, in the fixed order the design relies on:
    /// player movement, collision, wave spawning, dasher movement and
    /// deferred deletion, then the clock.
    pub fn step(&mut self)
        requires
            old(self)@.wf(),
            old(self).time + 400 <= u64::MAX,
            old(self).id_counter + 32 <= u64::MAX,
            -0x4000_0000 <= old(self).wave_spawner.threat_needed.0 <= 0x4000_0000,
            old(self).wave_spawner.current_difficulty + crate::waves::DIFFICULTY_PER_TICK
                <= u32::MAX,
        ensures
            final(self)@.store_inv(),
            final(self)@.bounds_inv(crate::STEP_SLACK as int),
            final(self).time == old(self).time + 1,
            exists|mid: GameView|
                #[trigger] crate::waves::spawner_step_rel(
                    crate::danger::danger_step_spec(
                        crate::player::player_step_spec(old(self)@),
                    ),
                    mid,
                ) && final(self)@ == (GameView {
                    time: (old(self).time + 1) as u64,
                    ..crate::dasher::dasher_step_spec(mid)
                }),
            final(self).wave_spawner.current_difficulty >= old(
                self,
            ).wave_spawner.current_difficulty,
            final(self).wave_spawner.current_difficulty > old(
                self,
            ).wave_spawner.current_difficulty <==> crate::danger::danger_step_spec(
                crate::player::player_step_spec(old(self)@),
            ).player is Some,
            old(self)@.dashers_paired() ==> final(self)@.dashers_paired(),
    {
        let ghost v0 = self@;
        Player::step(self);
        let ghost g1 = self@;
        Danger::step(self);
        let ghost g2 = self@;
        WaveSpawner::step(self);
        let ghost mid = self@;
        proof {
            assert(mid.bounds_inv(crate::MOVE_SLACK as int));
        }
        Dasher::step(self);
        self.time = self.time + 1;
        proof {
            assert(mid.time == v0.time);
            assert(self@ =~= (GameView {
                time: (v0.time + 1) as u64,
                ..crate::dasher::dasher_step_spec(mid)
            }));
            assert(crate::waves::spawner_step_rel(g2, mid) && self@ == (GameView {
                time: (v0.time + 1) as u64,
                ..crate::dasher::dasher_step_spec(mid)
            }));
            if v0.dashers_paired() {
                crate::laws::lemma_pairing_player_danger(v0);
                crate::laws::lemma_pairing_player_danger(g1);
                crate::laws::lemma_pairing_dasher_step(mid);
            }
        }
    }

    /// A fresh game: empty store, no player, tick zero, spawner at its
    /// starting difficulty.
    pub fn new() -> (game: Game)
        ensures
            game@.wf(),
            game@ == (GameView {
                id_counter: 0,
                time: 0,
                deleted: Seq::<GameObjectId>::empty(),
                player: Option::None,
                dangers: Seq::<(GameObjectId, Danger)>::empty(),
                wave_spawner: WaveSpawner {
                    threat_needed: crate::waves::Threat(0),
                    current_difficulty: crate::waves::STARTING_DIFFICULTY,
                },
                positions: Seq::<(GameObjectId, Position)>::empty(),
                dashers: Seq::<(GameObjectId, Dasher)>::empty(),
            }),
    {
        let game = Game {
            id_counter: 0,
            time: 0,
            player: None,
            deleted: Vec::new(),
            dangers: Vec::new(),
            wave_spawner: WaveSpawner::new(),
            positions: Vec::new(),
            dashers: Vec::new(),
        };
        proof {
            assert(game@ =~= (GameView {
                id_counter: 0,
                time: 0,
                deleted: Seq::<GameObjectId>::empty(),
                player: Option::None,
                dangers: Seq::<(GameObjectId, Danger)>::empty(),
                wave_spawner: WaveSpawner {
                    threat_needed: crate::waves::Threat(0),
                    current_difficulty: crate::waves::STARTING_DIFFICULTY,
                },
                positions: Seq::<(GameObjectId, Position)>::empty(),
                dashers: Seq::<(GameObjectId, Dasher)>::empty(),
            }));
        }
        game
    }
}

} // verus!
