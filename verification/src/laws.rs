//! The library's stated laws: facts about whole steps that hold of every
//! game the operations can reach, proved once over the step specifications.

use vstd::prelude::*;
use crate::danger::danger_step_spec;
use crate::dasher::{dasher_step_spec, dasher_removed_ids, dasher_dead_pred, dasher_alive_pred};
use crate::game::GameView;
use crate::player::{Player, player_velocity_spec, player_step_spec, sticky_speed_spec,
    wrap_x_spec, clamp_y_spec, PLAYER_SPEED};
use crate::table::{tbl_has, tbl_get, tbl_idx, tbl_key_at, lemma_tbl_idx, not_listed_pred};
use crate::waves::{spawner_step_rel, accrue_spec, wave_rel, DIFFICULTY_PER_TICK,
    MINIMUM_THREAT_FOR_WAVE};

verus! {

/// Input idempotence: recomputing the velocity twice from the same flags
/// gives the same velocity as recomputing it once.
pub proof fn lemma_input_idempotence(p: Player)
    ensures
        player_velocity_spec(player_velocity_spec(p)) == player_velocity_spec(p),
{
}

/// The sticky rule: with both opposing flags held, the axis velocity is
/// preserved, so it stays fixed across arbitrarily many recomputations;
/// releasing one flag snaps to the other's full speed at once.
pub proof fn lemma_sticky_rule(negative: bool, positive: bool, previous: int)
    ensures
        negative && positive ==> sticky_speed_spec(negative, positive, previous) == previous,
        negative && !positive ==> sticky_speed_spec(negative, positive, previous) == -(
        PLAYER_SPEED as int),
        !negative && positive ==> sticky_speed_spec(negative, positive, previous)
            == PLAYER_SPEED as int,
        !negative && !positive ==> sticky_speed_spec(negative, positive, previous) == 0,
{
}

/// The wrap law for one axis: starting inside the field and moving at most
/// one field width, a single wrap lands back inside `[0, W)` -- the
/// coordinate is taken modulo the field width.
pub proof fn lemma_wrap_range(x: int, dx: int)
    requires
        0 <= x < crate::GAME_SCREEN_WIDTH,
        -crate::GAME_SCREEN_WIDTH <= dx <= crate::GAME_SCREEN_WIDTH,
    ensures
        0 <= wrap_x_spec(x + dx) < crate::GAME_SCREEN_WIDTH,
        wrap_x_spec(x + dx) % (crate::GAME_SCREEN_WIDTH as int) == (x + dx) % (
        crate::GAME_SCREEN_WIDTH as int),
{
}

/// The clamp law for the vertical axis: the clamped value always lies in
/// `[0, H]`.
pub proof fn lemma_clamp_range(y: int)
    ensures
        0 <= clamp_y_spec(y) <= crate::GAME_SCREEN_HEIGHT,
{
}

/// The wrap law for dashers: a dasher whose sideways speed is within one
/// field width keeps its `x` inside `[0, W)` across a movement step.
pub proof fn lemma_dasher_step_wrap(d: crate::dasher::Dasher, p: crate::game::Position, t: u64)
    requires
        0 <= p.x < crate::GAME_SCREEN_WIDTH,
        -crate::GAME_SCREEN_WIDTH <= d.dx <= crate::GAME_SCREEN_WIDTH,
    ensures
        0 <= crate::dasher::dasher_pos_step(d, p, t).x < crate::GAME_SCREEN_WIDTH,
{
}

/// After a player step, the player's position is inside the field: `y` lands
/// in `[0, H]` outright, and `x` stays in `[0, W)` whenever it started there.
pub proof fn lemma_player_step_in_field(v: GameView, p: Player)
    requires
        v.wf(),
        v.player == Some(p),
        tbl_has(v.positions, p.id),
    ensures
        ({
            let i = tbl_idx(v.positions, p.id);
            let w = player_step_spec(v);
            &&& 0 <= w.positions[i].1.y <= crate::GAME_SCREEN_HEIGHT
            &&& (0 <= v.positions[i].1.x < crate::GAME_SCREEN_WIDTH ==> 0
                <= w.positions[i].1.x < crate::GAME_SCREEN_WIDTH)
        }),
{
    let i = tbl_idx(v.positions, p.id);
    assert(tbl_key_at(v.positions, p.id, i));
}

/// Invariant of the store, as the step contracts maintain it: every dasher id
/// has a position and a danger entry, and every danger id has a position.
pub proof fn lemma_store_containment(v: GameView)
    requires
        v.store_inv(),
    ensures
        forall|i: int|
            0 <= i < v.dashers.len() ==> tbl_has(v.positions, (#[trigger] v.dashers[i]).0)
                && tbl_has(v.dangers, v.dashers[i].0),
        forall|i: int|
            0 <= i < v.dangers.len() ==> tbl_has(v.positions, (#[trigger] v.dangers[i]).0),
{
}

/// Deferred deletion drains: a dasher id listed for deletion, or flagged by
/// its own removal flag, is gone from all three tables once the dasher step
/// ran.
pub proof fn lemma_deletion_drains(v: GameView, id: crate::game::GameObjectId)
    requires
        v.store_inv(),
        tbl_has(v.dashers, id),
        v.deleted.contains(id) || tbl_get(v.dashers, id).delete_next_tick,
    ensures
        !tbl_has(dasher_step_spec(v).positions, id),
        !tbl_has(dasher_step_spec(v).dashers, id),
        !tbl_has(dasher_step_spec(v).dangers, id),
{
    let w = dasher_step_spec(v);
    let dead = dasher_dead_pred(v.deleted);
    let alive = dasher_alive_pred(v.deleted);
    let removed = dasher_removed_ids(v);
    let j = tbl_idx(v.dashers, id);
    assert(tbl_key_at(v.dashers, id, j));
    lemma_tbl_idx(v.dashers, id, j);
    assert(dead(v.dashers[j]));
    v.dashers.lemma_filter_contains(dead, j);
    let m = choose|m: int|
        0 <= m < v.dashers.filter(dead).len() && v.dashers.filter(dead)[m] == v.dashers[j];
    assert(removed[m] == id);
    assert(removed.contains(id));
    if tbl_has(w.positions, id) {
        let q = tbl_idx(w.positions, id);
        assert(tbl_key_at(w.positions, id, q));
        let moved = crate::dasher::dasher_moved_positions(v, v.dashers.len() as int);
        moved.lemma_filter_pred(not_listed_pred(removed), q);
        assert(false);
    }
    if tbl_has(w.dangers, id) {
        let q = tbl_idx(w.dangers, id);
        assert(tbl_key_at(w.dangers, id, q));
        v.dangers.lemma_filter_pred(not_listed_pred(removed), q);
        assert(false);
    }
    if tbl_has(w.dashers, id) {
        let q = tbl_idx(w.dashers, id);
        assert(tbl_key_at(w.dashers, id, q));
        let filtered = v.dashers.filter(alive);
        assert(filtered[q].0 == id);
        v.dashers.lemma_filter_pred(alive, q);
        crate::table::lemma_tbl_filter(v.dashers, alive);
        assert(v.dashers.contains(filtered[q]));
        let r = choose|r: int| 0 <= r < v.dashers.len() && v.dashers[r] == filtered[q];
        lemma_tbl_idx(v.dashers, id, r);
        assert(r == j);
        assert(false);
    }
}

/// What the dasher step does to one surviving dasher: its record becomes
/// `dasher_rec_step` of the old record and position, its position becomes
/// `dasher_pos_step` of them, and its danger entry is untouched -- and all
/// three are still present.
pub proof fn lemma_live_dasher_step(v: GameView, id: crate::game::GameObjectId)
    requires
        v.store_inv(),
        tbl_has(v.dashers, id),
        !v.deleted.contains(id),
        !tbl_get(v.dashers, id).delete_next_tick,
    ensures
        ({
            let w = dasher_step_spec(v);
            let d = tbl_get(v.dashers, id);
            let p = tbl_get(v.positions, id);
            &&& tbl_has(w.dashers, id) && tbl_get(w.dashers, id) == crate::dasher::dasher_rec_step(
                d,
                p,
                v.time,
            )
            &&& tbl_has(w.positions, id) && tbl_get(w.positions, id)
                == crate::dasher::dasher_pos_step(d, p, v.time)
            &&& tbl_has(w.dangers, id) && tbl_get(w.dangers, id) == tbl_get(v.dangers, id)
        }),
{
    let w = dasher_step_spec(v);
    let dead = dasher_dead_pred(v.deleted);
    let alive = dasher_alive_pred(v.deleted);
    let removed = dasher_removed_ids(v);
    let keep = not_listed_pred::<crate::game::Position>(removed);
    let keepd = not_listed_pred::<crate::danger::Danger>(removed);
    let filtered = v.dashers.filter(alive);
    let moved = crate::dasher::dasher_moved_positions(v, v.dashers.len() as int);
    let r = tbl_idx(v.dashers, id);
    assert(tbl_key_at(v.dashers, id, r));
    lemma_tbl_idx(v.dashers, id, r);
    let d = tbl_get(v.dashers, id);
    let pj = tbl_idx(v.positions, id);
    assert(tbl_has(v.positions, id));
    assert(tbl_key_at(v.positions, id, pj));
    lemma_tbl_idx(v.positions, id, pj);
    let p = tbl_get(v.positions, id);
    crate::table::lemma_tbl_filter(v.dashers, alive);
    crate::table::lemma_tbl_filter(v.dashers, dead);
    assert(forall|q: int|
        0 <= q < v.positions.len() ==> (#[trigger] moved[q]).0 == (#[trigger] v.positions[q]).0);
    crate::table::lemma_tbl_same_keys(v.positions, moved);
    crate::table::lemma_tbl_filter(moved, keep);
    crate::table::lemma_tbl_filter(v.dangers, keepd);
    // the id is not among the removed ones
    assert(!removed.contains(id)) by {
        if removed.contains(id) {
            let m = choose|m: int| 0 <= m < removed.len() && removed[m] == id;
            let e = v.dashers.filter(dead)[m];
            assert(v.dashers.contains(e));
            v.dashers.lemma_filter_pred(dead, m);
            let r2 = choose|r2: int| 0 <= r2 < v.dashers.len() && v.dashers[r2] == e;
            lemma_tbl_idx(v.dashers, id, r2);
        }
    }
    // the dasher record: its filtered entry maps to the stepped record
    assert(alive(v.dashers[r]));
    v.dashers.lemma_filter_contains(alive, r);
    let m = choose|m: int| 0 <= m < filtered.len() && filtered[m] == v.dashers[r];
    assert(w.dashers[m] == (id, crate::dasher::dasher_rec_step(d, p, v.time)));
    assert(tbl_key_at(w.dashers, id, m));
    assert(forall|q: int|
        0 <= q < filtered.len() ==> (#[trigger] w.dashers[q]).0 == (#[trigger] filtered[q]).0);
    crate::table::lemma_tbl_same_keys(filtered, w.dashers);
    lemma_tbl_idx(w.dashers, id, m);
    // the position: moved by the movement pass, kept by the purge
    assert(moved[pj] == (id, crate::dasher::dasher_pos_step(d, p, v.time)));
    assert(keep(moved[pj]));
    moved.lemma_filter_contains(keep, pj);
    let m2 = choose|m2: int|
        0 <= m2 < moved.filter(keep).len() && moved.filter(keep)[m2] == moved[pj];
    assert(tbl_key_at(w.positions, id, m2));
    lemma_tbl_idx(w.positions, id, m2);
    // the danger entry: kept by the purge, unchanged
    assert(tbl_has(v.dangers, id));
    let jd = tbl_idx(v.dangers, id);
    assert(tbl_key_at(v.dangers, id, jd));
    lemma_tbl_idx(v.dangers, id, jd);
    assert(keepd(v.dangers[jd]));
    v.dangers.lemma_filter_contains(keepd, jd);
    let m3 = choose|m3: int|
        0 <= m3 < v.dangers.filter(keepd).len() && v.dangers.filter(keepd)[m3] == v.dangers[jd];
    assert(tbl_key_at(w.dangers, id, m3));
    lemma_tbl_idx(w.dangers, id, m3);
}

/// A resting live dasher is untouched by the dasher step: between bursts its
/// position and its whole schedule stay as they are.
pub proof fn lemma_resting_dasher(v: GameView, id: crate::game::GameObjectId)
    requires
        v.store_inv(),
        tbl_has(v.dashers, id),
        !v.deleted.contains(id),
        !tbl_get(v.dashers, id).delete_next_tick,
        v.time < tbl_get(v.dashers, id).move_next,
        v.time < tbl_get(v.dashers, id).move_until,
    ensures
        tbl_has(dasher_step_spec(v).dashers, id),
        tbl_get(dasher_step_spec(v).dashers, id) == tbl_get(v.dashers, id),
        tbl_has(dasher_step_spec(v).positions, id),
        tbl_get(dasher_step_spec(v).positions, id) == tbl_get(v.positions, id),
{
    lemma_live_dasher_step(v, id);
}

/// Bottom exit, deferred: a surviving dasher's removal flag is set after the
/// step exactly when it moved across the bottom edge this tick -- leaving
/// through the top sets nothing -- and the dasher itself is still observable
/// in all three tables until the next dasher step.
pub proof fn lemma_bottom_exit(v: GameView, id: crate::game::GameObjectId)
    requires
        v.store_inv(),
        tbl_has(v.dashers, id),
        !v.deleted.contains(id),
        !tbl_get(v.dashers, id).delete_next_tick,
    ensures
        tbl_has(dasher_step_spec(v).dashers, id),
        tbl_has(dasher_step_spec(v).positions, id),
        tbl_has(dasher_step_spec(v).dangers, id),
        tbl_get(dasher_step_spec(v).dashers, id).delete_next_tick == (
        crate::dasher::dasher_moving(tbl_get(v.dashers, id), v.time) && tbl_get(
            v.positions,
            id,
        ).y + tbl_get(v.dashers, id).dy > crate::GAME_SCREEN_HEIGHT),
{
    lemma_live_dasher_step(v, id);
}

/// A registered hit's outcome: every overlapping danger id is marked
/// deleted; with lives left the player loses one and is invincible until
/// `time + 180`, with none left the player is destroyed.
pub proof fn lemma_hit_outcome(v: GameView, p: Player)
    requires
        v.player == Some(p),
        p.invincibility_until <= v.time,
        tbl_has(v.positions, p.id),
        crate::danger::danger_hits(v, p).len() > 0,
    ensures
        ({
            let w = danger_step_spec(v);
            let hits = crate::danger::danger_hits(v, p);
            &&& forall|j: int|
                0 <= j < hits.len() ==> w.deleted.contains(#[trigger] hits[j])
            &&& (p.lives == 0 ==> w.player is None)
            &&& (p.lives > 0 ==> w.player == Some(Player {
                invincibility_until: (v.time + crate::danger::HIT_INVINCIBILITY_TIME) as u64,
                lives: (p.lives - 1) as u8,
                ..p
            }))
        }),
{
    let w = danger_step_spec(v);
    let hits = crate::danger::danger_hits(v, p);
    assert forall|j: int| 0 <= j < hits.len() implies w.deleted.contains(#[trigger] hits[j]) by {
        assert(w.deleted[v.deleted.len() + j] == hits[j]);
    }
}

/// The player and danger steps keep the dasher-danger pairing: neither
/// touches the dasher or danger tables' entries.
pub proof fn lemma_pairing_player_danger(v: GameView)
    requires
        v.dashers_paired(),
    ensures
        player_step_spec(v).dashers_paired(),
        danger_step_spec(v).dashers_paired(),
{
}

/// Spawning a batch keeps the pairing: each fresh dasher is registered with
/// a fresh danger disc of the standard radius under its own id.
pub proof fn lemma_pairing_spawned(
    pre: GameView,
    post: GameView,
    k: nat,
    vel_ok: spec_fn(crate::dasher::Dasher) -> bool,
)
    requires
        crate::waves::spawned_batch(pre, post, k, vel_ok),
        pre.dashers_paired(),
        pre.store_inv(),
        post.store_inv(),
    ensures
        post.dashers_paired(),
{
    assert forall|i: int| 0 <= i < post.dashers.len() implies tbl_has(
        post.dangers,
        (#[trigger] post.dashers[i]).0,
    ) && tbl_get(post.dangers, post.dashers[i].0).radius == crate::dasher::DASHER_RADIUS by {
        if i < pre.dashers.len() {
            assert(post.dashers[i] == post.dashers.subrange(0, pre.dashers.len() as int)[i]);
            let key = pre.dashers[i].0;
            let jd = tbl_idx(pre.dangers, key);
            assert(tbl_key_at(pre.dangers, key, jd));
            assert(post.dangers[jd] == post.dangers.subrange(0, pre.dangers.len() as int)[jd]);
            assert(tbl_key_at(post.dangers, key, jd));
            lemma_tbl_idx(post.dangers, key, jd);
            lemma_tbl_idx(pre.dangers, key, jd);
        } else {
            let off = i - pre.dashers.len();
            let jd = pre.dangers.len() + off;
            assert(tbl_key_at(post.dangers, post.dashers[i].0, jd));
            lemma_tbl_idx(post.dangers, post.dashers[i].0, jd);
        }
    }
}

/// The dasher step keeps the pairing: a surviving dasher's id is not in the
/// removed set, so its danger entry survives the purge unchanged.
pub proof fn lemma_pairing_dasher_step(v: GameView)
    requires
        v.store_inv(),
        v.dashers_paired(),
    ensures
        dasher_step_spec(v).dashers_paired(),
{
    let w = dasher_step_spec(v);
    let dead = dasher_dead_pred(v.deleted);
    let alive = dasher_alive_pred(v.deleted);
    let removed = dasher_removed_ids(v);
    let keepd = not_listed_pred::<crate::danger::Danger>(removed);
    let filtered = v.dashers.filter(alive);
    crate::table::lemma_tbl_filter(v.dashers, alive);
    crate::table::lemma_tbl_filter(v.dangers, keepd);
    assert forall|i: int| 0 <= i < w.dashers.len() implies tbl_has(
        w.dangers,
        (#[trigger] w.dashers[i]).0,
    ) && tbl_get(w.dangers, w.dashers[i].0).radius == crate::dasher::DASHER_RADIUS by {
        let key = w.dashers[i].0;
        assert(key == filtered[i].0);
        assert(v.dashers.contains(filtered[i]));
        v.dashers.lemma_filter_pred(alive, i);
        let r = choose|r: int| 0 <= r < v.dashers.len() && v.dashers[r] == filtered[i];
        assert(tbl_key_at(v.dashers, key, r));
        assert(tbl_has(v.dangers, key));
        let jd = tbl_idx(v.dangers, key);
        assert(tbl_key_at(v.dangers, key, jd));
        assert(!removed.contains(key)) by {
            if removed.contains(key) {
                let m = choose|m: int| 0 <= m < removed.len() && removed[m] == key;
                let e = v.dashers.filter(dead)[m];
                crate::table::lemma_tbl_filter(v.dashers, dead);
                assert(v.dashers.contains(e));
                v.dashers.lemma_filter_pred(dead, m);
                let r2 = choose|r2: int| 0 <= r2 < v.dashers.len() && v.dashers[r2] == e;
                lemma_tbl_idx(v.dashers, key, r2);
                lemma_tbl_idx(v.dashers, key, r);
            }
        }
        assert(keepd(v.dangers[jd]));
        v.dangers.lemma_filter_contains(keepd, jd);
        let m2 = choose|m2: int|
            0 <= m2 < v.dangers.filter(keepd).len() && v.dangers.filter(keepd)[m2]
                == v.dangers[jd];
        assert(tbl_key_at(w.dangers, key, m2));
        lemma_tbl_idx(w.dangers, key, m2);
        lemma_tbl_idx(v.dangers, key, jd);
    }
}

/// Invincibility protects: while the clock is below the player's
/// invincibility deadline, the danger step changes nothing -- in particular
/// no hit reduces lives.
pub proof fn lemma_invincibility_protects(v: GameView, p: Player)
    requires
        v.player == Some(p),
        v.time < p.invincibility_until,
    ensures
        danger_step_spec(v) == v,
{
}

/// Difficulty is monotone: one spawner tick never lowers it, and raises it
/// by exactly one tick's worth precisely when a player exists.
pub proof fn lemma_difficulty_monotone(pre: GameView, post: GameView)
    requires
        spawner_step_rel(pre, post),
        pre.wave_spawner.current_difficulty + DIFFICULTY_PER_TICK <= u32::MAX,
    ensures
        post.wave_spawner.current_difficulty == pre.wave_spawner.current_difficulty + (
        if pre.player is Some {
            DIFFICULTY_PER_TICK as int
        } else {
            0int
        }),
{
    if pre.wave_spawner.threat_needed.0 <= MINIMUM_THREAT_FOR_WAVE {
    } else {
        let (mid, t) = choose|mid: GameView, t: int|
            #[trigger] wave_rel(pre, mid, t) && post == (GameView {
                wave_spawner: accrue_spec(
                    crate::waves::WaveSpawner {
                        threat_needed: crate::waves::Threat(
                            (pre.wave_spawner.threat_needed.0 - t) as i32,
                        ),
                        ..pre.wave_spawner
                    },
                    pre.player is Some,
                ),
                ..mid
            });
    }
}

} // verus!
