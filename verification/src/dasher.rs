//! Hostile movers: a dasher rests for twenty ticks, then moves for ten, and
//! repeats; it wraps horizontally and is removed after crossing the bottom
//! edge. The dasher step is also the drain point of the deferred-deletion
//! list.

use vstd::prelude::*;
use vstd::pervasive::unreached;
use crate::danger::Danger;
use crate::game::{Game, GameObjectId, GameView, Position};
use crate::player::wrap_x_spec;
use crate::table::{tbl_has, tbl_get, tbl_idx, tbl_key_at, tbl_find, lemma_tbl_idx,
    lemma_tbl_same_keys, lemma_tbl_filter, lemma_filter_push, lemma_map_values_push,
    not_listed_pred};

verus! {

/// Ticks of rest between two bursts.
pub const DASHER_MOVE_EVERY: u64 = 20;

/// Ticks a burst lasts.
pub const DASHER_MOVE_FOR: u64 = 10;

/// A dasher's collision radius in quarter units (5 logical units).
pub const DASHER_RADIUS: i64 = 20;

/// A hostile mover: velocity, burst schedule and removal flag.
#[derive(Copy, Clone, PartialEq, Eq, Structural, Debug)]
pub struct Dasher {
    pub move_next: u64,
    pub move_until: u64,
    pub dx: i64,
    pub dy: i64,
    pub delete_next_tick: bool,
}

/// A dasher entry that the coming step will physically remove: its id is in
/// the deleted list, or its own removal flag is set.
pub open spec fn dasher_dead_pred(deleted: Seq<GameObjectId>) -> spec_fn((GameObjectId, Dasher)) -> bool {
    |e: (GameObjectId, Dasher)| deleted.contains(e.0) || e.1.delete_next_tick
}

/// The complement of [`dasher_dead_pred`].
pub open spec fn dasher_alive_pred(deleted: Seq<GameObjectId>) -> spec_fn((GameObjectId, Dasher)) -> bool {
    |e: (GameObjectId, Dasher)| !(deleted.contains(e.0) || e.1.delete_next_tick)
}

/// Whether the dasher is inside a burst at tick `t`.
pub open spec fn dasher_moving(d: Dasher, t: u64) -> bool {
    d.move_next <= t < d.move_until
}

/// A surviving dasher's record after one step at tick `t` with current
/// position `p`: crossing the bottom edge sets the removal flag, and an
/// elapsed burst is rescheduled twenty ticks ahead.
pub open spec fn dasher_rec_step(d: Dasher, p: Position, t: u64) -> Dasher {
    let doomed = dasher_moving(d, t) && p.y + d.dy > crate::GAME_SCREEN_HEIGHT;
    if d.move_until <= t {
        Dasher {
            delete_next_tick: doomed,
            move_next: (t + DASHER_MOVE_EVERY) as u64,
            move_until: (t + DASHER_MOVE_EVERY + DASHER_MOVE_FOR) as u64,
            ..d
        }
    } else {
        Dasher { delete_next_tick: doomed, ..d }
    }
}

/// A surviving dasher's position after one step at tick `t`: inside a burst
/// it advances by its velocity and wraps horizontally; at rest it stays.
pub open spec fn dasher_pos_step(d: Dasher, p: Position, t: u64) -> Position {
    if dasher_moving(d, t) {
        Position { x: wrap_x_spec(p.x + d.dx) as i64, y: (p.y + d.dy) as i64 }
    } else {
        p
    }
}

/// The ids the dasher step physically removes from the store.
pub open spec fn dasher_removed_ids(v: GameView) -> Seq<GameObjectId> {
    v.dashers.filter(dasher_dead_pred(v.deleted)).map_values(crate::danger::entry_key::<Dasher>())
}

/// The position table after the per-dasher movement pass over the first `k`
/// dasher entries.
pub open spec fn dasher_moved_positions(v: GameView, k: int) -> Seq<(GameObjectId, Position)> {
    v.positions.map_values(
        |e: (GameObjectId, Position)|
            if tbl_has(v.dashers, e.0) && tbl_idx(v.dashers, e.0) < k && dasher_alive_pred(
                v.deleted,
            )((e.0, tbl_get(v.dashers, e.0))) {
                (e.0, dasher_pos_step(tbl_get(v.dashers, e.0), e.1, v.time))
            } else {
                e
            },
    )
}

/// The per-entry record transformation of surviving dashers.
pub open spec fn dasher_rec_map(v: GameView) -> spec_fn((GameObjectId, Dasher)) -> (
    GameObjectId,
    Dasher,
) {
    |e: (GameObjectId, Dasher)| (e.0, dasher_rec_step(e.1, tbl_get(v.positions, e.0), v.time))
}

/// The game after one dasher step: dead entries leave all three tables,
/// surviving dashers move and reschedule.
pub open spec fn dasher_step_spec(v: GameView) -> GameView {
    let removed = dasher_removed_ids(v);
    GameView {
        dashers: v.dashers.filter(dasher_alive_pred(v.deleted)).map_values(dasher_rec_map(v)),
        positions: dasher_moved_positions(v, v.dashers.len() as int).filter(
            not_listed_pred(removed),
        ),
        dangers: v.dangers.filter(not_listed_pred(removed)),
        ..v
    }
}

/// Advancing the movement pass past a dead entry changes no position.
proof fn lemma_moved_advance_dead(v: GameView, i: int)
    requires
        v.store_inv(),
        0 <= i < v.dashers.len(),
        dasher_dead_pred(v.deleted)(v.dashers[i]),
    ensures
        dasher_moved_positions(v, i + 1) == dasher_moved_positions(v, i),
{
    assert forall|j: int|
        0 <= j < v.positions.len() implies dasher_moved_positions(v, i + 1)[j]
        == dasher_moved_positions(v, i)[j] by {
        let k = v.positions[j].0;
        if tbl_has(v.dashers, k) {
            let di = tbl_idx(v.dashers, k);
            assert(tbl_key_at(v.dashers, k, di));
            if di == i {
                lemma_tbl_idx(v.dashers, k, i);
                assert((k, tbl_get(v.dashers, k)) == v.dashers[i]);
            }
        }
    }
    assert(dasher_moved_positions(v, i + 1) =~= dasher_moved_positions(v, i));
}

/// Advancing the movement pass past a live entry updates exactly its own
/// position.
proof fn lemma_moved_advance_alive(v: GameView, i: int)
    requires
        v.store_inv(),
        0 <= i < v.dashers.len(),
        dasher_alive_pred(v.deleted)(v.dashers[i]),
    ensures
        tbl_has(v.positions, v.dashers[i].0),
        dasher_moved_positions(v, i + 1) == dasher_moved_positions(v, i).update(
            tbl_idx(v.positions, v.dashers[i].0),
            (
                v.dashers[i].0,
                dasher_pos_step(
                    v.dashers[i].1,
                    v.positions[tbl_idx(v.positions, v.dashers[i].0)].1,
                    v.time,
                ),
            ),
        ),
{
    let id = v.dashers[i].0;
    assert(tbl_has(v.positions, id));
    let pj = tbl_idx(v.positions, id);
    assert(tbl_key_at(v.positions, id, pj));
    lemma_tbl_idx(v.dashers, id, i);
    let lhs = dasher_moved_positions(v, i + 1);
    let rhs = dasher_moved_positions(v, i).update(
        pj,
        (id, dasher_pos_step(v.dashers[i].1, v.positions[pj].1, v.time)),
    );
    assert forall|j: int| 0 <= j < v.positions.len() implies lhs[j] == rhs[j] by {
        let k = v.positions[j].0;
        if j == pj {
            assert(k == id);
            assert((k, tbl_get(v.dashers, k)) == v.dashers[i]);
        } else {
            if k == id {
                assert(v.positions[j].0 == v.positions[pj].0);
                assert(false);
            }
            if tbl_has(v.dashers, k) {
                let di = tbl_idx(v.dashers, k);
                assert(tbl_key_at(v.dashers, k, di));
                assert(di != i);
            }
        }
    }
    assert(lhs =~= rhs);
}

impl Dasher {
    /// Runs the dasher pass: removes every entry flagged or listed for
    /// deletion from the position, dasher and danger tables, and moves,
    /// dooms and reschedules the survivors.
    #[verifier::rlimit(50)]
    pub fn step(game: &mut Game)
        requires
            old(game)@.store_inv(),
            old(game)@.bounds_inv(crate::MOVE_SLACK as int),
            old(game)@.time + DASHER_MOVE_EVERY + DASHER_MOVE_FOR <= u64::MAX,
        ensures
            final(game)@ == dasher_step_spec(old(game)@),
            final(game)@.store_inv(),
            final(game)@.bounds_inv(crate::STEP_SLACK as int),
    {
        let ghost v0 = game@;
        let n: usize = game.dashers.len();
        let mut new_dashers: Vec<(GameObjectId, Dasher)> = Vec::new();
        let mut removed: Vec<GameObjectId> = Vec::new();
        proof {
            assert forall|j: int|
                0 <= j < v0.positions.len() implies dasher_moved_positions(v0, 0)[j]
                == v0.positions[j] by {
                let k = v0.positions[j].0;
                if tbl_has(v0.dashers, k) {
                    let di = tbl_idx(v0.dashers, k);
                    assert(tbl_key_at(v0.dashers, k, di));
                }
            }
            assert(dasher_moved_positions(v0, 0) =~= v0.positions);
        }
        for i in 0..n
            invariant
                v0.store_inv(),
                v0.bounds_inv(crate::MOVE_SLACK as int),
                v0.time + DASHER_MOVE_EVERY + DASHER_MOVE_FOR <= u64::MAX,
                n == v0.dashers.len(),
                game.dashers@ == v0.dashers,
                game.deleted@ == v0.deleted,
                game.player == v0.player,
                game.dangers@ == v0.dangers,
                game.wave_spawner == v0.wave_spawner,
                game.time == v0.time,
                game.id_counter == v0.id_counter,
                game.positions@ == dasher_moved_positions(v0, i as int),
                new_dashers@ == v0.dashers.take(i as int).filter(
                    dasher_alive_pred(v0.deleted),
                ).map_values(dasher_rec_map(v0)),
                removed@ == v0.dashers.take(i as int).filter(
                    dasher_dead_pred(v0.deleted),
                ).map_values(crate::danger::entry_key::<Dasher>()),
        {
            let (id, d) = game.dashers[i];
            proof {
                assert(v0.dashers.take(i + 1) =~= v0.dashers.take(i as int).push(
                    v0.dashers[i as int],
                ));
                lemma_filter_push(
                    v0.dashers.take(i as int),
                    dasher_alive_pred(v0.deleted),
                    v0.dashers[i as int],
                );
                lemma_filter_push(
                    v0.dashers.take(i as int),
                    dasher_dead_pred(v0.deleted),
                    v0.dashers[i as int],
                );
                lemma_map_values_push(
                    v0.dashers.take(i as int).filter(dasher_alive_pred(v0.deleted)),
                    dasher_rec_map(v0),
                    v0.dashers[i as int],
                );
                lemma_map_values_push(
                    v0.dashers.take(i as int).filter(dasher_dead_pred(v0.deleted)),
                    crate::danger::entry_key::<Dasher>(),
                    v0.dashers[i as int],
                );
            }
            let in_deleted = crate::table::id_list_contains(&game.deleted, id);
            if in_deleted || d.delete_next_tick {
                removed.push(id);
                proof {
                    lemma_moved_advance_dead(v0, i as int);
                }
            } else {
                proof {
                    lemma_moved_advance_alive(v0, i as int);
                    lemma_tbl_idx(v0.dashers, id, i as int);
                }
                let mut nd = d;
                let moving = d.move_next <= game.time && game.time < d.move_until;
                if moving {
                    proof {
                        assert(dasher_moved_positions(v0, i as int).len()
                            == v0.positions.len());
                        assert forall|q: int|
                            0 <= q < v0.positions.len() implies (#[trigger] game.positions@[q]).0
                            == v0.positions[q].0 by {}
                        let pj = tbl_idx(v0.positions, id);
                        assert(tbl_key_at(v0.positions, id, pj));
                        assert(tbl_key_at(game.positions@, id, pj));
                        assert(tbl_has(game.positions@, id));
                    }
                    let j = match tbl_find(&game.positions, id) {
                        Some(j) => j,
                        None => unreached(),
                    };
                    proof {
                        assert(tbl_key_at(v0.positions, id, j as int));
                        lemma_tbl_idx(v0.positions, id, j as int);
                        assert(game.positions@[j as int] == v0.positions[j as int]);
                    }
                    let pos = game.positions[j].1;
                    let mut nx: i64 = pos.x + d.dx;
                    let ny: i64 = pos.y + d.dy;
                    if ny > crate::GAME_SCREEN_HEIGHT {
                        nd.delete_next_tick = true;
                    }
                    if nx >= crate::GAME_SCREEN_WIDTH {
                        nx = nx - crate::GAME_SCREEN_WIDTH;
                    }
                    if nx < 0 {
                        nx = nx + crate::GAME_SCREEN_WIDTH;
                    }
                    game.positions.set(j, (id, Position { x: nx, y: ny }));
                    proof {
                        assert(game.positions@ =~= dasher_moved_positions(v0, i + 1));
                    }
                } else {
                    proof {
                        let pj = tbl_idx(v0.positions, id);
                        assert(dasher_moved_positions(v0, i as int)[pj] == v0.positions[pj]);
                        assert(game.positions@ =~= dasher_moved_positions(v0, i + 1));
                    }
                }
                if d.move_until <= game.time {
                    nd.move_next = game.time + DASHER_MOVE_EVERY;
                    nd.move_until = game.time + DASHER_MOVE_EVERY + DASHER_MOVE_FOR;
                }
                new_dashers.push((id, nd));
                proof {
                    assert((id, nd) == dasher_rec_map(v0)(v0.dashers[i as int]));
                }
            }
        }
        proof {
            assert(v0.dashers.take(n as int) =~= v0.dashers);
        }
        game.dashers = new_dashers;
        crate::table::tbl_purge(&mut game.positions, &removed);
        crate::table::tbl_purge(&mut game.dangers, &removed);
        proof {
            let moved = dasher_moved_positions(v0, v0.dashers.len() as int);
            let removed_ids = dasher_removed_ids(v0);
            let alive = dasher_alive_pred(v0.deleted);
            let dead = dasher_dead_pred(v0.deleted);
            assert(removed@ == removed_ids);
            assert(game@ =~= dasher_step_spec(v0));
            lemma_dasher_step_wf(v0);
        }
    }
}

/// The dasher step preserves the structural invariant and keeps all bounds
/// within one extra movement pass of slack.
proof fn lemma_dasher_step_wf(v: GameView)
    requires
        v.store_inv(),
        v.bounds_inv(crate::MOVE_SLACK as int),
    ensures
        dasher_step_spec(v).store_inv(),
        dasher_step_spec(v).bounds_inv(crate::STEP_SLACK as int),
{
    let moved = dasher_moved_positions(v, v.dashers.len() as int);
    let removed_ids = dasher_removed_ids(v);
    let alive = dasher_alive_pred(v.deleted);
    let dead = dasher_dead_pred(v.deleted);
    let keep = not_listed_pred::<Position>(removed_ids);
    let keepd = not_listed_pred::<Danger>(removed_ids);
    let w = dasher_step_spec(v);
    assert(forall|j: int|
        0 <= j < v.positions.len() ==> (#[trigger] moved[j]).0 == (#[trigger] v.positions[j]).0);
    lemma_tbl_same_keys(v.positions, moved);
    lemma_tbl_filter(moved, keep);
    lemma_tbl_filter(v.dangers, keepd);
    lemma_tbl_filter(v.dashers, alive);
    lemma_tbl_filter(v.dashers, dead);
    let filtered = v.dashers.filter(alive);
    assert(forall|j: int|
        0 <= j < filtered.len() ==> (#[trigger] w.dashers[j]).0 == (#[trigger] filtered[j]).0);
    lemma_tbl_same_keys(filtered, w.dashers);
    // an id removed by the pass is a dead dasher's id
    assert forall|k: GameObjectId| removed_ids.contains(k) implies tbl_has(v.dashers, k)
        && dead((k, tbl_get(v.dashers, k))) by {
        let m = choose|m: int| 0 <= m < removed_ids.len() && removed_ids[m] == k;
        let e = v.dashers.filter(dead)[m];
        assert(v.dashers.contains(e));
        v.dashers.lemma_filter_pred(dead, m);
        let j = choose|j: int| 0 <= j < v.dashers.len() && v.dashers[j] == e;
        assert(tbl_key_at(v.dashers, k, j));
        lemma_tbl_idx(v.dashers, k, j);
    }
    // a live dasher's id is not removed
    assert forall|j: int| 0 <= j < v.dashers.len() && alive(#[trigger] v.dashers[j]) implies
        !removed_ids.contains(v.dashers[j].0) by {
        let k = v.dashers[j].0;
        if removed_ids.contains(k) {
            lemma_tbl_idx(v.dashers, k, j);
            assert(dead((k, tbl_get(v.dashers, k))));
        }
    }
    // keys whose entries survive a purge stay present
    assert forall|k: GameObjectId| tbl_has(moved, k) && !removed_ids.contains(k) implies tbl_has(
        w.positions,
        k,
    ) by {
        let j = choose|j: int| tbl_key_at(moved, k, j);
        moved.lemma_filter_contains(keep, j);
        let m = choose|m: int| 0 <= m < moved.filter(keep).len() && moved.filter(keep)[m]
            == moved[j];
        assert(tbl_key_at(w.positions, k, m));
    }
    assert forall|k: GameObjectId| tbl_has(v.dangers, k) && !removed_ids.contains(k) implies
        tbl_has(w.dangers, k) by {
        let j = choose|j: int| tbl_key_at(v.dangers, k, j);
        v.dangers.lemma_filter_contains(keepd, j);
        let m = choose|m: int| 0 <= m < v.dangers.filter(keepd).len() && v.dangers.filter(
            keepd,
        )[m] == v.dangers[j];
        assert(tbl_key_at(w.dangers, k, m));
    }
    // store_inv of the result
    assert forall|i: int|
        0 <= i < w.positions.len() implies (#[trigger] w.positions[i]).0.0 < w.id_counter by {
        assert(moved.contains(w.positions[i]));
        let j = choose|j: int| 0 <= j < moved.len() && moved[j] == w.positions[i];
        assert(v.positions[j].0 == moved[j].0);
    }
    assert forall|i: int|
        0 <= i < w.dashers.len() implies tbl_has(w.positions, (#[trigger] w.dashers[i]).0)
        && tbl_has(w.dangers, w.dashers[i].0) by {
        assert(filtered.contains(filtered[i]));
        let j = choose|j: int| 0 <= j < v.dashers.len() && v.dashers[j] == filtered[i];
        v.dashers.lemma_filter_pred(alive, i);
        let k = w.dashers[i].0;
        assert(k == v.dashers[j].0);
        assert(alive(v.dashers[j]));
        assert(!removed_ids.contains(k));
        assert(tbl_has(v.positions, k) && tbl_has(v.dangers, k));
    }
    assert forall|i: int|
        0 <= i < w.dangers.len() implies tbl_has(w.positions, (#[trigger] w.dangers[i]).0) by {
        assert(v.dangers.contains(w.dangers[i]));
        v.dangers.lemma_filter_pred(keepd, i);
        let k = w.dangers[i].0;
        let j = choose|j: int| 0 <= j < v.dangers.len() && v.dangers[j] == w.dangers[i];
        assert(tbl_key_at(v.dangers, k, j));
        assert(tbl_has(v.positions, k));
        assert(!removed_ids.contains(k));
    }
    // bounds of the result
    let lim = crate::POS_LIMIT + crate::STEP_SLACK;
    assert forall|i: int| 0 <= i < moved.len() implies ({
        let q = (#[trigger] moved[i]).1;
        -lim <= q.x <= lim && -lim <= q.y <= lim
    }) by {
        let k = v.positions[i].0;
        if tbl_has(v.dashers, k) {
            let di = tbl_idx(v.dashers, k);
            assert(tbl_key_at(v.dashers, k, di));
        }
    }
    assert forall|i: int| 0 <= i < w.positions.len() implies ({
        let q = (#[trigger] w.positions[i]).1;
        -lim <= q.x <= lim && -lim <= q.y <= lim
    }) by {
        assert(moved.contains(w.positions[i]));
        let j = choose|j: int| 0 <= j < moved.len() && moved[j] == w.positions[i];
    }
    assert forall|i: int| 0 <= i < w.dashers.len() implies ({
        let d = (#[trigger] w.dashers[i]).1;
        -crate::VEL_LIMIT <= d.dx <= crate::VEL_LIMIT && -crate::VEL_LIMIT <= d.dy
            <= crate::VEL_LIMIT
    }) by {
        assert(filtered.contains(filtered[i]));
        let j = choose|j: int| 0 <= j < v.dashers.len() && v.dashers[j] == filtered[i];
    }
    assert forall|i: int|
        0 <= i < w.dangers.len() implies -crate::VEL_LIMIT <= (#[trigger] w.dangers[i]).1.radius
        <= crate::VEL_LIMIT by {
        assert(v.dangers.contains(w.dangers[i]));
        let j = choose|j: int| 0 <= j < v.dangers.len() && v.dangers[j] == w.dangers[i];
    }
}

impl Dasher {
    /// Creates a dasher at `(x, y)` with velocity `(dx, dy)`, resting for the
    /// first twenty ticks, and registers its collision disc.
    pub fn new(game: &mut Game, x: i64, y: i64, dx: i64, dy: i64) -> (id: GameObjectId)
        requires
            old(game)@.store_inv(),
            -crate::POS_LIMIT <= x <= crate::POS_LIMIT,
            -crate::POS_LIMIT <= y <= crate::POS_LIMIT,
            -crate::VEL_LIMIT <= dx <= crate::VEL_LIMIT,
            -crate::VEL_LIMIT <= dy <= crate::VEL_LIMIT,
            old(game).id_counter < u64::MAX,
            old(game).time + DASHER_MOVE_EVERY + DASHER_MOVE_FOR <= u64::MAX,
        ensures
            final(game)@.store_inv(),
            id == (GameObjectId(old(game).id_counter)),
            final(game)@ == (GameView {
                id_counter: (old(game).id_counter + 1) as u64,
                positions: old(game)@.positions.push((id, Position { x, y })),
                dashers: old(game)@.dashers.push(
                    (id, Dasher {
                        dx,
                        dy,
                        delete_next_tick: false,
                        move_next: (old(game).time + DASHER_MOVE_EVERY) as u64,
                        move_until: (old(game).time + DASHER_MOVE_EVERY + DASHER_MOVE_FOR) as u64,
                    }),
                ),
                dangers: old(game)@.dangers.push((id, Danger { radius: DASHER_RADIUS })),
                ..old(game)@
            }),
            forall|s: int|
                s >= 0 && #[trigger] old(game)@.bounds_inv(s) ==> final(game)@.bounds_inv(s),
    {
        let id = game.create_game_object(x, y);
        let rec = Dasher {
            dx,
            dy,
            delete_next_tick: false,
            move_next: game.time + DASHER_MOVE_EVERY,
            move_until: game.time + DASHER_MOVE_EVERY + DASHER_MOVE_FOR,
        };
        game.dashers.push((id, rec));
        Danger::new(game, id, DASHER_RADIUS);
        proof {
            assert(game@ =~= (GameView {
                id_counter: (old(game).id_counter + 1) as u64,
                positions: old(game)@.positions.push((id, Position { x, y })),
                dashers: old(game)@.dashers.push((id, rec)),
                dangers: old(game)@.dangers.push((id, Danger { radius: DASHER_RADIUS })),
                ..old(game)@
            }));
            assert(tbl_has(game@.positions, id)) by {
                assert(tbl_key_at(game@.positions, id, game@.positions.len() - 1));
            }
            assert(tbl_has(game@.dangers, id)) by {
                assert(tbl_key_at(game@.dangers, id, game@.dangers.len() - 1));
            }
            assert(forall|i: int|
                0 <= i < old(game)@.positions.len() ==> game@.positions[i] == old(
                    game,
                )@.positions[i]);
            assert(forall|i: int|
                0 <= i < old(game)@.dangers.len() ==> game@.dangers[i] == old(game)@.dangers[i]);
            assert(forall|i: int|
                0 <= i < old(game)@.dashers.len() ==> game@.dashers[i] == old(game)@.dashers[i]);
            assert forall|i: int| 0 <= i < game@.dashers.len() implies tbl_has(
                game@.positions,
                (#[trigger] game@.dashers[i]).0,
            ) && tbl_has(game@.dangers, game@.dashers[i].0) by {
                if i < old(game)@.dashers.len() {
                    assert(tbl_has(old(game)@.positions, old(game)@.dashers[i].0));
                    let j = tbl_idx(old(game)@.positions, old(game)@.dashers[i].0);
                    assert(tbl_key_at(old(game)@.positions, old(game)@.dashers[i].0, j));
                    assert(tbl_key_at(game@.positions, game@.dashers[i].0, j));
                    assert(tbl_has(old(game)@.dangers, old(game)@.dashers[i].0));
                    let j2 = tbl_idx(old(game)@.dangers, old(game)@.dashers[i].0);
                    assert(tbl_key_at(old(game)@.dangers, old(game)@.dashers[i].0, j2));
                    assert(tbl_key_at(game@.dangers, game@.dashers[i].0, j2));
                }
            }
            assert forall|i: int| 0 <= i < game@.dangers.len() implies tbl_has(
                game@.positions,
                (#[trigger] game@.dangers[i]).0,
            ) by {
                if i < old(game)@.dangers.len() {
                    assert(tbl_has(old(game)@.positions, old(game)@.dangers[i].0));
                    let j = tbl_idx(old(game)@.positions, old(game)@.dangers[i].0);
                    assert(tbl_key_at(old(game)@.positions, old(game)@.dangers[i].0, j));
                    assert(tbl_key_at(game@.positions, game@.dangers[i].0, j));
                }
            }
            assert forall|s: int|
                s >= 0 && #[trigger] old(game)@.bounds_inv(s) implies game@.bounds_inv(s) by {
                assert(forall|i: int|
                    0 <= i < old(game)@.positions.len() ==> game@.positions[i] == old(
                        game,
                    )@.positions[i]);
            }
        }
        id
    }
}

} // verus!
