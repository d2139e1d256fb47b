//! The game root: bird kinematics, the obstacle collection, spawning,
//! collision detection and scoring.
//!
//! Every public operation is specified against `GameModel`, a mathematical
//! snapshot of the game over unbounded integers, and the whole per-frame
//! transition is the spec function `step`.

use vstd::prelude::*;

use crate::obstacle::OBSTACLE_SPEED;
use crate::obstacle::OBSTACLE_WIDTH;
use crate::obstacle::Obstacle;
use crate::obstacle::ObstacleModel;
use crate::obstacle::obstacle_off_screen;
use crate::obstacle::obstacle_step;

verus! {

/// Per-frame downward acceleration, in deci-units (0.1 world units).
pub const GRAVITY: i64 = 1;

/// Velocity set by a flap, in deci-units per frame (-2 world units).
pub const FLAP_VELOCITY: i64 = -20;

/// The bird's fixed column: the left edge of its hitbox (100 world units).
pub const BIRD_X: i64 = 1000;

/// Side length of the bird's square hitbox (20 world units).
pub const BIRD_SIZE: i64 = 200;

/// Vertical extent of the play field (600 world units).
pub const CANVAS_HEIGHT: i64 = 6000;

/// The bird's starting height (50 world units).
pub const INITIAL_BIRD_Y: i64 = 500;

/// Frames between two automatic obstacle spawns.
pub const SPAWN_INTERVAL: u32 = 120;

/// Horizontal position of a freshly spawned obstacle (800 world units).
pub const SPAWN_X: i64 = 8000;

/// Gap top of a freshly spawned obstacle (200 world units).
pub const SPAWN_GAP_Y: i64 = 2000;

/// Gap height of a freshly spawned obstacle (150 world units).
pub const SPAWN_GAP_SIZE: i64 = 1500;

/// The two phases of a play session. Once `GameOver` is reached, frames are
/// no-ops until an explicit `restart`.
#[derive(Clone, Copy, PartialEq, Eq, Structural, Debug)]
pub enum GameState {
    Playing,
    GameOver,
}

/// The whole game: the bird's vertical kinematics, the obstacles in spawn
/// order, the spawn timer, the score and the state flag. `gravity` and
/// `canvas_height` are fixed configuration; everything else changes per frame.
pub struct Game {
    pub bird_y: i64,
    pub velocity: i64,
    pub gravity: i64,
    pub obstacles: Vec<Obstacle>,
    pub frames_since_last_obstacle: u32,
    pub state: GameState,
    pub canvas_height: i64,
    pub score: u32,
}

/// Mathematical model of a game: the same fields over unbounded integers,
/// with the obstacles as a sequence of obstacle models.
#[verifier::ext_equal]
pub ghost struct GameModel {
    pub bird_y: int,
    pub velocity: int,
    pub gravity: int,
    pub obstacles: Seq<ObstacleModel>,
    pub frames_since_last_obstacle: int,
    pub state: GameState,
    pub canvas_height: int,
    pub score: int,
}

/// The models of a sequence of obstacles, in the same order.
pub open spec fn obstacle_views(s: Seq<Obstacle>) -> Seq<ObstacleModel> {
    s.map_values(|o: Obstacle| o@)
}

impl View for Game {
    type V = GameModel;

    open spec fn view(&self) -> GameModel {
        GameModel {
            bird_y: self.bird_y as int,
            velocity: self.velocity as int,
            gravity: self.gravity as int,
            obstacles: obstacle_views(self.obstacles@),
            frames_since_last_obstacle: self.frames_since_last_obstacle as int,
            state: self.state,
            canvas_height: self.canvas_height as int,
            score: self.score as int,
        }
    }
}

/// The model of a fresh game.
pub open spec fn initial_game() -> GameModel {
    GameModel {
        bird_y: INITIAL_BIRD_Y as int,
        velocity: 0,
        gravity: GRAVITY as int,
        obstacles: Seq::empty(),
        frames_since_last_obstacle: 0,
        state: GameState::Playing,
        canvas_height: CANVAS_HEIGHT as int,
        score: 0,
    }
}

/// An obstacle that has just moved scores when its right edge sits strictly
/// left of the bird's column and it has not scored before.
pub open spec fn passes_bird(o: ObstacleModel) -> bool {
    o.x + (OBSTACLE_WIDTH as int) < BIRD_X as int && !o.passed
}

/// One frame of obstacle life before culling: drift left, then mark as passed
/// if the obstacle just crossed the bird's column.
pub open spec fn moved_and_scored(o: ObstacleModel) -> ObstacleModel {
    let m = obstacle_step(o);
    if passes_bird(m) {
        ObstacleModel { passed: true, ..m }
    } else {
        m
    }
}

/// How many obstacles score during one frame.
pub open spec fn pass_count(obs: Seq<ObstacleModel>) -> int
    decreases obs.len(),
{
    if obs.len() == 0 {
        0
    } else {
        pass_count(obs.drop_last()) + if passes_bird(obstacle_step(obs.last())) {
            1int
        } else {
            0int
        }
    }
}

/// The obstacles that survive removal of off-screen ones, in order.
pub open spec fn cull(obs: Seq<ObstacleModel>) -> Seq<ObstacleModel>
    decreases obs.len(),
{
    if obs.len() == 0 {
        Seq::empty()
    } else if obstacle_off_screen(obs.last()) {
        cull(obs.drop_last())
    } else {
        cull(obs.drop_last()).push(obs.last())
    }
}

/// The fixed obstacle that the spawn timer produces.
pub open spec fn spawned_obstacle() -> ObstacleModel {
    ObstacleModel {
        x: SPAWN_X as int,
        gap_y: SPAWN_GAP_Y as int,
        gap_size: SPAWN_GAP_SIZE as int,
        passed: false,
    }
}

/// Whether the frame about to run spawns a new obstacle.
pub open spec fn spawn_due(g: GameModel) -> bool {
    g.frames_since_last_obstacle + 1 >= SPAWN_INTERVAL as int
}

/// The obstacle collection after one frame: move and score every obstacle,
/// remove the off-screen ones, then append the spawned one if the timer is due.
pub open spec fn step_obstacles(g: GameModel) -> Seq<ObstacleModel> {
    let kept = cull(g.obstacles.map_values(|o: ObstacleModel| moved_and_scored(o)));
    if spawn_due(g) {
        kept.push(spawned_obstacle())
    } else {
        kept
    }
}

/// Axis-aligned collision of the bird with one obstacle. The bird is a square
/// of side `BIRD_SIZE` whose left edge sits at `BIRD_X` and whose top edge
/// sits at `bird_y`; the obstacle fills its horizontal span from the top and
/// bottom of the field except for the gap `[gap_y, gap_y + gap_size]`.
pub open spec fn bird_hits_obstacle(bird_y: int, canvas_height: int, o: ObstacleModel) -> bool {
    let bird_left = BIRD_X as int;
    let bird_right = bird_left + BIRD_SIZE as int;
    let bird_top = bird_y;
    let bird_bottom = bird_y + BIRD_SIZE as int;
    let horizontal_overlap = bird_right > o.x && bird_left < o.x + OBSTACLE_WIDTH as int;
    let overlap_upper = bird_bottom > 0 && bird_top < o.gap_y;
    let overlap_lower = bird_top < canvas_height && bird_bottom > o.gap_y + o.gap_size;
    horizontal_overlap && (overlap_upper || overlap_lower)
}

/// Whether the bird hits any obstacle of the sequence.
pub open spec fn hits_any(bird_y: int, canvas_height: int, obs: Seq<ObstacleModel>) -> bool {
    exists|i: int| 0 <= i < obs.len() && bird_hits_obstacle(bird_y, canvas_height, obs[i])
}

/// Whether the bird touches the ground.
pub open spec fn hits_ground(bird_y: int, canvas_height: int) -> bool {
    bird_y >= canvas_height - BIRD_SIZE as int
}

/// Whether the frame about to run ends the game: only a playing frame can,
/// and it does iff the freshly integrated bird hits an obstacle or the ground.
pub open spec fn step_collides(g: GameModel) -> bool {
    &&& g.state == GameState::Playing
    &&& {
        let y = g.bird_y + g.velocity + g.gravity;
        hits_any(y, g.canvas_height, step_obstacles(g)) || hits_ground(y, g.canvas_height)
    }
}

/// One whole frame. A finished game is left untouched; otherwise gravity is
/// integrated, obstacles move, score, are culled and possibly spawned, and the
/// state flips to `GameOver` exactly when a collision is found.
pub open spec fn step(g: GameModel) -> GameModel {
    if g.state == GameState::GameOver {
        g
    } else {
        let v = g.velocity + g.gravity;
        GameModel {
            bird_y: g.bird_y + v,
            velocity: v,
            obstacles: step_obstacles(g),
            frames_since_last_obstacle: if spawn_due(g) {
                0
            } else {
                g.frames_since_last_obstacle + 1
            },
            state: if step_collides(g) {
                GameState::GameOver
            } else {
                GameState::Playing
            },
            score: g.score + pass_count(g.obstacles),
            ..g
        }
    }
}

/// The effect of a flap: the velocity is overwritten with the flap impulse.
pub open spec fn flapped(g: GameModel) -> GameModel {
    GameModel { velocity: FLAP_VELOCITY as int, ..g }
}

/// The effect of a restart: kinematics, obstacles, spawn timer and state are
/// reset; the score and the fixed configuration are kept.
pub open spec fn restarted(g: GameModel) -> GameModel {
    GameModel {
        bird_y: INITIAL_BIRD_Y as int,
        velocity: 0,
        obstacles: Seq::empty(),
        frames_since_last_obstacle: 0,
        state: GameState::Playing,
        ..g
    }
}

/// Well-formedness of a game: the configuration holds its fixed values and
/// the spawn timer is strictly below the interval. `new` establishes it and
/// every operation preserves it.
pub open spec fn game_invariant(g: GameModel) -> bool {
    &&& g.gravity == GRAVITY as int
    &&& g.canvas_height == CANVAS_HEIGHT as int
    &&& 0 <= g.frames_since_last_obstacle < SPAWN_INTERVAL as int
    &&& 0 <= g.score
}

/// The machine-width conditions under which one frame of `update` cannot
/// overflow the fixed-size integers that `Game` stores.
pub open spec fn update_fits(g: GameModel) -> bool {
    &&& i64::MIN as int <= g.velocity + g.gravity <= i64::MAX as int
    &&& i64::MIN as int <= g.bird_y + g.velocity + g.gravity <= i64::MAX as int
    &&& forall|i: int|
        0 <= i < g.obstacles.len() ==> (#[trigger] g.obstacles[i]).x - OBSTACLE_SPEED as int
            >= i64::MIN as int
    &&& g.score + g.obstacles.len() <= u32::MAX as int
    &&& g.frames_since_last_obstacle + 1 <= u32::MAX as int
}

/// In one frame at most one point is scored per obstacle present.
pub proof fn lemma_pass_count_bounds(obs: Seq<ObstacleModel>)
    ensures
        0 <= pass_count(obs) <= obs.len(),
    decreases obs.len(),
{
    if obs.len() > 0 {
        lemma_pass_count_bounds(obs.drop_last());
    }
}

impl Game {
    /// A fresh game: bird at its starting height, at rest, no obstacles, zero
    /// score, playing.
    pub fn new() -> (g: Game)
        ensures
            g@ == initial_game(),
    {
        let g = Game {
            bird_y: INITIAL_BIRD_Y,
            velocity: 0,
            gravity: GRAVITY,
            obstacles: Vec::new(),
            frames_since_last_obstacle: 0,
            state: GameState::Playing,
            canvas_height: CANVAS_HEIGHT,
            score: 0,
        };
        proof {
            assert(obstacle_views(g.obstacles@) =~= Seq::<ObstacleModel>::empty());
            assert(g@ =~~= initial_game());
        }
        g
    }

    /// Begins a new round: kinematics, obstacles, spawn timer and state are
    /// reset. The score and the fixed configuration are deliberately kept.
    pub fn restart(&mut self)
        ensures
            final(self)@ == restarted(old(self)@),
    {
        self.bird_y = INITIAL_BIRD_Y;
        self.velocity = 0;
        self.obstacles.clear();
        self.frames_since_last_obstacle = 0;
        self.state = GameState::Playing;
        proof {
            assert(obstacle_views(self.obstacles@) =~= Seq::<ObstacleModel>::empty());
            assert(self@ =~~= restarted(old(self)@));
        }
    }

    /// The current score.
    pub fn get_score(&self) -> (score: u32)
        ensures
            score as int == self@.score,
    {
        self.score
    }

    /// The current state as one of the two fixed labels.
    pub fn get_state(&self) -> (label: String)
        ensures
            self@.state == GameState::Playing ==> label@ == "Playing"@,
            self@.state == GameState::GameOver ==> label@ == "GameOver"@,
    {
        match self.state {
            GameState::Playing => "Playing".to_owned(),
            GameState::GameOver => "GameOver".to_owned(),
        }
    }

    /// Appends a new, not yet passed obstacle. No validation is performed:
    /// degenerate geometry is the caller's responsibility.
    pub fn add_obstacle(&mut self, x: i64, gap_y: i64, gap_size: i64)
        ensures
            final(self)@ == (GameModel {
                obstacles: old(self)@.obstacles.push(
                    ObstacleModel {
                        x: x as int,
                        gap_y: gap_y as int,
                        gap_size: gap_size as int,
                        passed: false,
                    },
                ),
                ..old(self)@
            }),
    {
        let obstacle = Obstacle::new(x, gap_y, gap_size);
        self.obstacles.push(obstacle);
        proof {
            assert(obstacle_views(self.obstacles@) =~= old(self)@.obstacles.push(
                ObstacleModel {
                    x: x as int,
                    gap_y: gap_y as int,
                    gap_size: gap_size as int,
                    passed: false,
                },
            ));
            assert(self@ =~~= (GameModel {
                obstacles: old(self)@.obstacles.push(
                    ObstacleModel {
                        x: x as int,
                        gap_y: gap_y as int,
                        gap_size: gap_size as int,
                        passed: false,
                    },
                ),
                ..old(self)@
            }));
        }
    }

    /// How many obstacles are currently alive.
    pub fn get_obstacle_count(&self) -> (count: usize)
        ensures
            count as int == self@.obstacles.len(),
    {
        self.obstacles.len()
    }

    /// A snapshot of the obstacle at `index`, or `None` when the index is out
    /// of range; never panics.
    pub fn get_obstacle_data(&self, index: usize) -> (data: Option<Obstacle>)
        ensures
            index < self@.obstacles.len() ==> data == Some(self.obstacles@[index as int]),
            index < self@.obstacles.len() ==> self.obstacles@[index as int]@
                == self@.obstacles[index as int],
            index >= self@.obstacles.len() ==> data is None,
    {
        if index < self.obstacles.len() {
            Some(self.obstacles[index])
        } else {
            None
        }
    }

    /// An immediate upward impulse: the velocity is overwritten, not added to.
    pub fn flap(&mut self)
        ensures
            final(self)@ == flapped(old(self)@),
    {
        self.velocity = FLAP_VELOCITY;
        proof {
            assert(self@ =~~= flapped(old(self)@));
        }
    }

    /// Whether the bird, at its current height, collides with one obstacle.
    /// The arithmetic runs in `i128` so the test is total over all field
    /// values.
    pub fn check_collision(&self, obstacle: &Obstacle) -> (collides: bool)
        ensures
            collides == bird_hits_obstacle(self@.bird_y, self@.canvas_height, obstacle@),
    {
        let bird_left: i128 = BIRD_X as i128;
        let bird_right: i128 = bird_left + BIRD_SIZE as i128;
        let bird_top: i128 = self.bird_y as i128;
        let bird_bottom: i128 = bird_top + BIRD_SIZE as i128;
        let obstacle_left: i128 = obstacle.x as i128;
        let obstacle_right: i128 = obstacle_left + OBSTACLE_WIDTH as i128;
        let gap_top: i128 = obstacle.gap_y as i128;
        let gap_bottom: i128 = gap_top + obstacle.gap_size as i128;
        let horizontal_overlap = bird_right > obstacle_left && bird_left < obstacle_right;
        let overlap_upper = bird_bottom > 0 && bird_top < gap_top;
        let overlap_lower = bird_top < self.canvas_height as i128 && bird_bottom > gap_bottom;
        horizontal_overlap && (overlap_upper || overlap_lower)
    }

    /// True iff one frame of `update` stays within the machine integers, so
    /// that a caller can test `update`'s precondition at run time.
    #[verifier::loop_isolation(false)]
    pub fn update_allowed(&self) -> (ok: bool)
        ensures
            ok == update_fits(self@),
    {
        let next_velocity: i128 = self.velocity as i128 + self.gravity as i128;
        if next_velocity > i64::MAX as i128 || next_velocity < i64::MIN as i128 {
            return false;
        }
        let next_bird_y: i128 = self.bird_y as i128 + next_velocity;
        if next_bird_y > i64::MAX as i128 || next_bird_y < i64::MIN as i128 {
            return false;
        }
        if self.score as u128 + self.obstacles.len() as u128 > u32::MAX as u128 {
            return false;
        }
        if self.frames_since_last_obstacle == u32::MAX {
            return false;
        }
        let mut i: usize = 0;
        while i < self.obstacles.len()
            invariant
                i <= self@.obstacles.len(),
                forall|j: int|
                    0 <= j < i ==> (#[trigger] self@.obstacles[j]).x - OBSTACLE_SPEED as int
                        >= i64::MIN as int,
            decreases self@.obstacles.len() - i,
        {
            let o = self.obstacles[i];
            proof {
                assert(self@.obstacles[i as int] == self.obstacles@[i as int]@);
            }
            if (o.x as i128) - (OBSTACLE_SPEED as i128) < i64::MIN as i128 {
                return false;
            }
            i = i + 1;
        }
        true
    }

    /// One frame. A finished game is left untouched and reports no collision;
    /// otherwise gravity is integrated, every obstacle moves and may score,
    /// off-screen obstacles are removed, the spawn timer runs, and the frame
    /// reports (and records in `state`) whether the bird collided with an
    /// obstacle or the ground.
    #[verifier::loop_isolation(false)]
    pub fn update(&mut self) -> (collided: bool)
        requires
            update_fits(old(self)@),
        ensures
            final(self)@ == step(old(self)@),
            collided == step_collides(old(self)@),
    {
        let ghost g0 = old(self)@;
        if self.state == GameState::GameOver {
            proof {
                assert(self@ =~~= step(g0));
            }
            return false;
        }
        self.velocity = self.velocity + self.gravity;
        self.bird_y = self.bird_y + self.velocity;

        let ghost orig: Seq<ObstacleModel> = g0.obstacles;

        // Move every obstacle and score those that just crossed the bird's column.
        let mut i: usize = 0;
        while i < self.obstacles.len()
            invariant
                i <= orig.len(),
                self.obstacles@.len() == orig.len(),
                forall|j: int|
                    0 <= j < i ==> (#[trigger] self.obstacles@[j])@ == moved_and_scored(orig[j]),
                forall|j: int| i <= j < orig.len() ==> (#[trigger] self.obstacles@[j])@ == orig[j],
                self.score as int == g0.score + pass_count(orig.take(i as int)),
                self.velocity as int == g0.velocity + g0.gravity,
                self.bird_y as int == g0.bird_y + g0.velocity + g0.gravity,
                self.gravity == old(self).gravity,
                self.canvas_height == old(self).canvas_height,
                self.state == GameState::Playing,
                self.frames_since_last_obstacle == old(self).frames_since_last_obstacle,
            decreases orig.len() - i,
        {
            proof {
                lemma_pass_count_bounds(orig.take(i as int));
                assert(orig.take(i as int).len() == i);
            }
            let mut o = self.obstacles[i];
            o.update();
            if o.x < BIRD_X - OBSTACLE_WIDTH && !o.passed {
                o.passed = true;
                self.score = self.score + 1;
            }
            self.obstacles[i] = o;
            proof {
                assert(orig.take(i as int + 1).drop_last() =~= orig.take(i as int));
                assert(orig.take(i as int + 1).last() == orig[i as int]);
            }
            i = i + 1;
        }
        proof {
            assert(orig.take(orig.len() as int) =~= orig);
            assert(obstacle_views(self.obstacles@) =~= orig.map_values(
                |o: ObstacleModel| moved_and_scored(o),
            ));
        }
        let ghost moved: Seq<ObstacleModel> = obstacle_views(self.obstacles@);

        // Remove the obstacles that have fully left the field.
        let mut kept: Vec<Obstacle> = Vec::new();
        let mut i: usize = 0;
        while i < self.obstacles.len()
            invariant
                i <= self.obstacles@.len(),
                obstacle_views(kept@) == cull(moved.take(i as int)),
            decreases self.obstacles@.len() - i,
        {
            let o = self.obstacles[i];
            proof {
                assert(moved.take(i as int + 1).drop_last() =~= moved.take(i as int));
                assert(moved.take(i as int + 1).last() == moved[i as int]);
                assert(moved[i as int] == o@);
            }
            if !o.is_off_screen() {
                kept.push(o);
            }
            proof {
                assert(obstacle_views(kept@) =~= cull(moved.take(i as int + 1)));
            }
            i = i + 1;
        }
        proof {
            assert(moved.take(self.obstacles@.len() as int) =~= moved);
        }
        self.obstacles = kept;

        // Run the spawn timer.
        self.frames_since_last_obstacle = self.frames_since_last_obstacle + 1;
        if self.frames_since_last_obstacle >= SPAWN_INTERVAL {
            self.add_obstacle(SPAWN_X, SPAWN_GAP_Y, SPAWN_GAP_SIZE);
            self.frames_since_last_obstacle = 0;
        }
        proof {
            assert(obstacle_views(self.obstacles@) =~= step_obstacles(g0));
        }
        let ghost obs_after: Seq<ObstacleModel> = step_obstacles(g0);
        let ghost new_y: int = g0.bird_y + g0.velocity + g0.gravity;

        // Look for a collision with any obstacle; the first one found ends the game.
        let mut i: usize = 0;
        while i < self.obstacles.len()
            invariant
                i <= self.obstacles@.len(),
                obstacle_views(self.obstacles@) == obs_after,
                self.bird_y as int == new_y,
                self.velocity as int == g0.velocity + g0.gravity,
                self.gravity as int == g0.gravity,
                self.canvas_height as int == g0.canvas_height,
                self.state == GameState::Playing,
                self.score as int == g0.score + pass_count(g0.obstacles),
                self.frames_since_last_obstacle as int == (if spawn_due(g0) {
                    0int
                } else {
                    g0.frames_since_last_obstacle + 1
                }),
                forall|j: int|
                    0 <= j < i ==> !bird_hits_obstacle(
                        new_y,
                        g0.canvas_height,
                        #[trigger] obs_after[j],
                    ),
            decreases self.obstacles@.len() - i,
        {
            let o = self.obstacles[i];
            proof {
                assert(obs_after[i as int] == o@);
            }
            if self.check_collision(&o) {
                self.state = GameState::GameOver;
                proof {
                    assert(hits_any(new_y, g0.canvas_height, obs_after));
                    assert(self@ =~~= step(g0));
                }
                return true;
            }
            i = i + 1;
        }

        // No obstacle was hit; check the ground.
        let on_ground = self.bird_y as i128 >= self.canvas_height as i128 - BIRD_SIZE as i128;
        if on_ground {
            self.state = GameState::GameOver;
        }
        proof {
            assert(!hits_any(new_y, g0.canvas_height, obs_after));
            assert(on_ground == step_collides(g0));
            assert(self@ =~~= step(g0));
        }
        on_ground
    }
}

} // verus!
