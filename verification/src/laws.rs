//! Laws of the simulation: properties that relate whole frames to each other,
//! proved once and for all over the mathematical model. `update`, `flap` and
//! `restart` pin the concrete state to this model exactly, so each law below
//! holds of every run of the executable game.

use vstd::prelude::*;

use crate::game::CANVAS_HEIGHT;
use crate::game::FLAP_VELOCITY;
use crate::game::GRAVITY;
use crate::game::GameModel;
use crate::game::GameState;
use crate::game::INITIAL_BIRD_Y;
use crate::game::SPAWN_INTERVAL;
use crate::game::bird_hits_obstacle;
use crate::game::cull;
use crate::game::flapped;
use crate::game::game_invariant;
use crate::game::hits_any;
use crate::game::initial_game;
use crate::game::lemma_pass_count_bounds;
use crate::game::moved_and_scored;
use crate::game::pass_count;
use crate::game::passes_bird;
use crate::game::restarted;
use crate::game::spawn_due;
use crate::game::spawned_obstacle;
use crate::game::step;
use crate::game::step_collides;
use crate::game::step_obstacles;
use crate::obstacle::OFF_SCREEN_X;
use crate::obstacle::ObstacleModel;
use crate::obstacle::obstacle_step;
use crate::obstacle::obstacle_off_screen;

verus! {

/// The game after `n` frames.
pub open spec fn run_frames(g: GameModel, n: nat) -> GameModel
    decreases n,
{
    if n == 0 {
        g
    } else {
        step(run_frames(g, (n - 1) as nat))
    }
}

/// The game after `n` rounds of a flap followed by a frame.
pub open spec fn run_flapped_frames(g: GameModel, n: nat) -> GameModel
    decreases n,
{
    if n == 0 {
        g
    } else {
        step(flapped(run_flapped_frames(g, (n - 1) as nat)))
    }
}

/// Law: once the game is over, a frame changes nothing and reports no
/// collision.
pub proof fn lemma_game_over_frame_is_noop(g: GameModel)
    requires
        g.state == GameState::GameOver,
    ensures
        step(g) == g,
        !step_collides(g),
{
}

/// Law: absent a flap, a playing frame adds exactly the gravity to the
/// velocity, and exactly the freshly increased velocity to the bird's height.
pub proof fn lemma_gravity_integration(g: GameModel)
    requires
        g.state == GameState::Playing,
    ensures
        step(g).velocity == g.velocity + g.gravity,
        step(g).bird_y == g.bird_y + step(g).velocity,
        g.gravity > 0 ==> step(g).velocity > g.velocity,
{
}

/// Law: a flap overwrites the velocity with the flap impulse whatever its
/// prior value, and the following frame integrates from that impulse.
pub proof fn lemma_flap_overrides_velocity(g: GameModel)
    ensures
        flapped(g).velocity == FLAP_VELOCITY as int,
        g.state == GameState::Playing ==> step(flapped(g)).velocity == FLAP_VELOCITY + g.gravity,
        g.state == GameState::Playing ==> step(flapped(g)).bird_y == g.bird_y + FLAP_VELOCITY
            + g.gravity,
{
}

/// Law: the score never decreases over a frame, and over a playing frame it
/// rises by exactly the number of obstacles whose right edge crossed the
/// bird's column in that frame.
pub proof fn lemma_score_monotonic(g: GameModel)
    ensures
        step(g).score >= g.score,
        g.state == GameState::Playing ==> step(g).score == g.score + pass_count(g.obstacles),
{
    if g.state == GameState::Playing {
        lemma_pass_count_bounds(g.obstacles);
    }
}

/// Law: the score never decreases over any sequence of frames.
pub proof fn lemma_score_monotonic_run(g: GameModel, n: nat)
    ensures
        run_frames(g, n).score >= g.score,
    decreases n,
{
    if n > 0 {
        lemma_score_monotonic_run(g, (n - 1) as nat);
        lemma_score_monotonic(run_frames(g, (n - 1) as nat));
    }
}

/// Culling keeps only on-screen obstacles.
pub proof fn lemma_cull_on_screen(obs: Seq<ObstacleModel>)
    ensures
        forall|i: int|
            0 <= i < cull(obs).len() ==> !obstacle_off_screen(#[trigger] cull(obs)[i]),
    decreases obs.len(),
{
    if obs.len() > 0 {
        lemma_cull_on_screen(obs.drop_last());
        if !obstacle_off_screen(obs.last()) {
            assert forall|i: int| 0 <= i < cull(obs).len() implies !obstacle_off_screen(
                #[trigger] cull(obs)[i],
            ) by {
                if i < cull(obs.drop_last()).len() {
                    assert(cull(obs)[i] == cull(obs.drop_last())[i]);
                } else {
                    assert(cull(obs)[i] == obs.last());
                }
            }
        }
    }
}

/// Law: immediately after a playing frame, every obstacle still in the
/// collection sits at or right of the off-screen threshold: an obstacle that
/// crossed it during the frame is gone.
pub proof fn lemma_off_screen_culled(g: GameModel)
    requires
        g.state == GameState::Playing,
    ensures
        forall|i: int|
            0 <= i < step(g).obstacles.len() ==> (#[trigger] step(g).obstacles[i]).x
                >= OFF_SCREEN_X as int,
{
    let moved = g.obstacles.map_values(|o: ObstacleModel| moved_and_scored(o));
    lemma_cull_on_screen(moved);
    assert forall|i: int| 0 <= i < step(g).obstacles.len() implies (#[trigger] step(
        g,
    ).obstacles[i]).x >= OFF_SCREEN_X as int by {
        if i < cull(moved).len() {
            assert(step(g).obstacles[i] == cull(moved)[i]);
        } else {
            assert(step(g).obstacles[i] == spawned_obstacle());
        }
    }
}

/// Law: a playing frame spawns a fresh obstacle exactly when the spawn timer
/// has run for the whole interval; spawning resets the timer, otherwise the
/// timer advances by one.
pub proof fn lemma_spawn_cadence(g: GameModel)
    requires
        g.state == GameState::Playing,
    ensures
        spawn_due(g) <==> g.frames_since_last_obstacle + 1 >= SPAWN_INTERVAL as int,
        spawn_due(g) ==> step(g).obstacles == cull(
            g.obstacles.map_values(|o: ObstacleModel| moved_and_scored(o)),
        ).push(spawned_obstacle()) && step(g).frames_since_last_obstacle == 0,
        !spawn_due(g) ==> step(g).obstacles == cull(
            g.obstacles.map_values(|o: ObstacleModel| moved_and_scored(o)),
        ) && step(g).frames_since_last_obstacle == g.frames_since_last_obstacle + 1,
{
}

/// Law: from a fresh game kept aloft by a flap before every frame and fed no
/// manual obstacle, the collection stays empty for the first
/// `SPAWN_INTERVAL - 1` frames and holds exactly the one spawned obstacle
/// after the `SPAWN_INTERVAL`-th.
pub proof fn lemma_first_spawn_cadence(n: nat)
    requires
        n <= SPAWN_INTERVAL,
    ensures
        run_flapped_frames(initial_game(), n).state == GameState::Playing,
        run_flapped_frames(initial_game(), n).score == 0,
        run_flapped_frames(initial_game(), n).gravity == GRAVITY as int,
        run_flapped_frames(initial_game(), n).canvas_height == CANVAS_HEIGHT as int,
        n >= 1 ==> run_flapped_frames(initial_game(), n).velocity == FLAP_VELOCITY + GRAVITY,
        n >= 1 ==> run_flapped_frames(initial_game(), n).bird_y == INITIAL_BIRD_Y + (
        FLAP_VELOCITY + GRAVITY) * n,
        n < SPAWN_INTERVAL ==> run_flapped_frames(initial_game(), n).obstacles.len() == 0
            && run_flapped_frames(initial_game(), n).frames_since_last_obstacle == n,
        n == SPAWN_INTERVAL ==> run_flapped_frames(initial_game(), n).obstacles =~= seq![
            spawned_obstacle(),
        ] && run_flapped_frames(initial_game(), n).frames_since_last_obstacle == 0,
    decreases n,
{
    if n > 0 {
        lemma_first_spawn_cadence((n - 1) as nat);
        let prev = run_flapped_frames(initial_game(), (n - 1) as nat);
        let f = flapped(prev);
        let y = f.bird_y + f.velocity + f.gravity;
        let moved = f.obstacles.map_values(|o: ObstacleModel| moved_and_scored(o));
        assert(moved.len() == 0);
        assert(pass_count(f.obstacles) == 0);
        assert(y == INITIAL_BIRD_Y + (FLAP_VELOCITY + GRAVITY) * n) by (nonlinear_arith)
            requires
                f.bird_y == INITIAL_BIRD_Y + (FLAP_VELOCITY + GRAVITY) * (n - 1) || (n == 1
                    && f.bird_y == INITIAL_BIRD_Y),
                f.velocity + f.gravity == FLAP_VELOCITY + GRAVITY,
                y == f.bird_y + f.velocity + f.gravity,
                n >= 1,
        ;
        assert(y < f.canvas_height - 200) by (nonlinear_arith)
            requires
                y == INITIAL_BIRD_Y + (FLAP_VELOCITY + GRAVITY) * n,
                f.canvas_height == 6000,
                1 <= n <= 120,
        ;
        if spawn_due(f) {
            let obs = step_obstacles(f);
            assert(obs =~= seq![spawned_obstacle()]);
            assert(!bird_hits_obstacle(y, f.canvas_height, obs[0]));
            assert(!hits_any(y, f.canvas_height, obs));
        } else {
            let obs = step_obstacles(f);
            assert(obs =~= Seq::<ObstacleModel>::empty());
            assert(!hits_any(y, f.canvas_height, obs));
        }
    }
}

/// Law: a fresh game is well formed, and a frame, a flap and a restart each
/// leave a well-formed game well formed.
pub proof fn lemma_invariant_preserved(g: GameModel)
    requires
        game_invariant(g),
    ensures
        game_invariant(initial_game()),
        game_invariant(step(g)),
        game_invariant(flapped(g)),
        game_invariant(restarted(g)),
{
    if g.state == GameState::Playing {
        lemma_pass_count_bounds(g.obstacles);
    }
}

/// Law: the passed flag of an obstacle moves only from false to true; once an
/// obstacle has scored, a later frame never un-scores it.
pub proof fn lemma_passed_never_reverts(o: ObstacleModel)
    ensures
        moved_and_scored(o).passed == (o.passed || passes_bird(obstacle_step(o))),
        o.passed ==> moved_and_scored(o).passed,
{
}

/// Law: a restart from any state, in particular from `GameOver`, begins a new
/// playing round with the bird reset and the obstacles cleared, while the
/// score and the fixed configuration carry over unchanged.
pub proof fn lemma_restart_round_trip(g: GameModel)
    ensures
        restarted(g).state == GameState::Playing,
        restarted(g).bird_y == INITIAL_BIRD_Y as int,
        restarted(g).velocity == 0,
        restarted(g).obstacles.len() == 0,
        restarted(g).frames_since_last_obstacle == 0,
        restarted(g).score == g.score,
        restarted(g).gravity == g.gravity,
        restarted(g).canvas_height == g.canvas_height,
{
}

} // verus!

