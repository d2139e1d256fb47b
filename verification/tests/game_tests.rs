// Tests drive the verified core through its public surface. All positions are
// in deci-units: one tenth of a world unit.

use flappy_core::game::Game;
use flappy_core::game::GameState;
use flappy_core::obstacle::Obstacle;

#[test]
fn fresh_game_initial_state() {
    let g = Game::new();
    assert_eq!(g.bird_y, 500);
    assert_eq!(g.velocity, 0);
    assert_eq!(g.gravity, 1);
    assert_eq!(g.canvas_height, 6000);
    assert_eq!(g.get_score(), 0);
    assert_eq!(g.get_obstacle_count(), 0);
    assert_eq!(g.get_state(), "Playing");
    assert_eq!(g.frames_since_last_obstacle, 0);
}

#[test]
fn gravity_integration_over_three_frames() {
    let mut g = Game::new();
    assert!(!g.update());
    assert_eq!(g.velocity, 1);
    assert_eq!(g.bird_y, 501);
    assert!(!g.update());
    assert_eq!(g.velocity, 2);
    assert_eq!(g.bird_y, 503);
    assert!(!g.update());
    assert_eq!(g.velocity, 3);
    assert_eq!(g.bird_y, 506);
}

#[test]
fn flap_overrides_velocity() {
    let mut g = Game::new();
    g.update();
    g.update();
    assert_eq!(g.velocity, 2);
    g.flap();
    assert_eq!(g.velocity, -20);
    // The next frame integrates from the impulse: -20 + 1 = -19.
    let before = g.bird_y;
    assert!(!g.update());
    assert_eq!(g.velocity, -19);
    assert_eq!(g.bird_y, before - 19);
}

#[test]
fn flap_overrides_large_downward_velocity() {
    let mut g = Game::new();
    g.velocity = 4000;
    g.flap();
    assert_eq!(g.velocity, -20);
}

#[test]
fn ground_collision_ends_game() {
    // 581 world units = 5810 deci-units; one frame later the bird sits at
    // 5811 >= 6000 - 200 and the game ends even with no obstacle around.
    let mut g = Game::new();
    g.bird_y = 5810;
    assert!(g.update());
    assert_eq!(g.get_state(), "GameOver");
    assert_eq!(g.state, GameState::GameOver);
}

#[test]
fn ground_collision_boundary() {
    // After the frame the bird sits at 5799, just above the ground: survives.
    let mut g = Game::new();
    g.bird_y = 5798;
    assert!(!g.update());
    assert_eq!(g.get_state(), "Playing");
    // After the frame the bird sits exactly on the threshold 5800: game over.
    let mut g = Game::new();
    g.bird_y = 5799;
    assert!(g.update());
    assert_eq!(g.get_state(), "GameOver");
}

#[test]
fn game_over_frame_is_a_noop() {
    let mut g = Game::new();
    g.add_obstacle(510, 2000, 1500);
    g.bird_y = 5810;
    assert!(g.update());
    assert_eq!(g.get_state(), "GameOver");
    let bird_y = g.bird_y;
    let velocity = g.velocity;
    let score = g.get_score();
    let count = g.get_obstacle_count();
    let frames = g.frames_since_last_obstacle;
    assert!(!g.update());
    assert_eq!(g.bird_y, bird_y);
    assert_eq!(g.velocity, velocity);
    assert_eq!(g.get_score(), score);
    assert_eq!(g.get_obstacle_count(), count);
    assert_eq!(g.frames_since_last_obstacle, frames);
    assert_eq!(g.get_state(), "GameOver");
}

#[test]
fn collision_geometry_gap_and_barriers() {
    let mut g = Game::new();
    g.bird_y = 1000;
    // Bird spans 1000..1200 vertically; gap spans 800..1200: no collision.
    assert!(!g.check_collision(&Obstacle::new(1000, 800, 400)));
    // Gap far below the bird (1500..1900): the bird sits in the upper barrier.
    assert!(g.check_collision(&Obstacle::new(1000, 1500, 400)));
    // Gap far above the bird (100..500): the bird sits in the lower barrier.
    assert!(g.check_collision(&Obstacle::new(1000, 100, 400)));
    // No horizontal overlap: obstacle starts right of the bird's right edge.
    assert!(!g.check_collision(&Obstacle::new(1300, 1500, 400)));
    // One deci-unit of horizontal overlap is enough.
    assert!(g.check_collision(&Obstacle::new(1199, 1500, 400)));
}

#[test]
fn update_reports_obstacle_collision() {
    // The obstacle moves to x = 1000 during the frame; the bird, at 1001 after
    // integration, sits inside the wide gap 700..1300: no collision.
    let mut g = Game::new();
    g.bird_y = 1000;
    g.add_obstacle(1020, 700, 600);
    assert!(!g.update());
    assert_eq!(g.get_state(), "Playing");
    // Same geometry but the gap sits below the bird: the frame ends the game.
    let mut g = Game::new();
    g.bird_y = 1000;
    g.add_obstacle(1020, 1500, 400);
    assert!(g.update());
    assert_eq!(g.get_state(), "GameOver");
}

#[test]
fn score_increments_once_per_passed_obstacle() {
    let mut g = Game::new();
    // After moving, the obstacle's right edge (490 + 500) is left of the
    // bird's column at 1000: one point, once.
    g.add_obstacle(510, 2000, 1500);
    assert!(!g.update());
    assert_eq!(g.get_score(), 1);
    let data = g.get_obstacle_data(0).unwrap();
    assert!(data.passed);
    assert!(!g.update());
    assert_eq!(g.get_score(), 1);
}

#[test]
fn score_not_incremented_before_the_threshold() {
    // After moving, the right edge sits exactly at the bird's column:
    // not strictly left of it, so no point yet; one frame later it is.
    let mut g = Game::new();
    g.add_obstacle(520, 2000, 1500);
    g.update();
    assert_eq!(g.get_score(), 0);
    g.update();
    assert_eq!(g.get_score(), 1);
}

#[test]
fn off_screen_obstacles_are_culled() {
    let mut g = Game::new();
    g.add_obstacle(-481, 2000, 1500);
    // The obstacle moves to -501 < -500 and is removed in the same frame.
    assert!(!g.update());
    assert_eq!(g.get_obstacle_count(), 0);
    // At exactly -500 it is still on screen and survives the frame.
    g.add_obstacle(-480, 2000, 1500);
    assert!(!g.update());
    assert_eq!(g.get_obstacle_count(), 1);
    let data = g.get_obstacle_data(0).unwrap();
    assert_eq!(data.x, -500);
    // One more frame pushes it past the threshold and it disappears.
    assert!(!g.update());
    assert_eq!(g.get_obstacle_count(), 0);
}

#[test]
fn spawn_cadence_every_120_frames() {
    let mut g = Game::new();
    // A flap before every frame keeps the bird aloft and away from the ground.
    for _ in 0..119 {
        g.flap();
        assert!(!g.update());
    }
    assert_eq!(g.get_obstacle_count(), 0);
    assert_eq!(g.frames_since_last_obstacle, 119);
    g.flap();
    assert!(!g.update());
    assert_eq!(g.get_obstacle_count(), 1);
    assert_eq!(g.frames_since_last_obstacle, 0);
    let data = g.get_obstacle_data(0).unwrap();
    assert_eq!(data.x, 8000);
    assert_eq!(data.gap_y, 2000);
    assert_eq!(data.gap_size, 1500);
    assert!(!data.passed);
    // The cadence repeats: the second obstacle appears 120 frames later.
    for _ in 0..119 {
        g.flap();
        assert!(!g.update());
        assert_eq!(g.get_obstacle_count(), 1);
    }
    g.flap();
    assert!(!g.update());
    assert_eq!(g.get_obstacle_count(), 2);
    assert_eq!(g.get_score(), 0);
}

#[test]
fn restart_round_trip_keeps_score() {
    let mut g = Game::new();
    g.add_obstacle(510, 2000, 1500);
    assert!(!g.update());
    assert_eq!(g.get_score(), 1);
    g.bird_y = 5810;
    assert!(g.update());
    assert_eq!(g.get_state(), "GameOver");
    g.restart();
    assert_eq!(g.get_state(), "Playing");
    assert_eq!(g.bird_y, 500);
    assert_eq!(g.velocity, 0);
    assert_eq!(g.get_obstacle_count(), 0);
    assert_eq!(g.frames_since_last_obstacle, 0);
    // The reference behaviour deliberately leaves the score untouched.
    assert_eq!(g.get_score(), 1);
    // The fixed configuration is untouched as well.
    assert_eq!(g.gravity, 1);
    assert_eq!(g.canvas_height, 6000);
}

#[test]
fn obstacle_data_by_index() {
    let mut g = Game::new();
    g.add_obstacle(700, 80, 40);
    g.add_obstacle(900, 120, 60);
    let first = g.get_obstacle_data(0).unwrap();
    assert_eq!(first.x, 700);
    assert_eq!(first.gap_y, 80);
    assert_eq!(first.gap_size, 40);
    assert!(!first.passed);
    let second = g.get_obstacle_data(1).unwrap();
    assert_eq!(second.x, 900);
    assert!(g.get_obstacle_data(2).is_none());
}

#[test]
fn update_allowed_guards_the_machine_limits() {
    let g = Game::new();
    assert!(g.update_allowed());

    let mut g = Game::new();
    g.velocity = i64::MAX;
    assert!(!g.update_allowed());

    let mut g = Game::new();
    g.bird_y = i64::MAX;
    assert!(!g.update_allowed());

    let mut g = Game::new();
    g.add_obstacle(i64::MIN, 100, 100);
    assert!(!g.update_allowed());

    let mut g = Game::new();
    g.score = u32::MAX;
    g.add_obstacle(700, 80, 40);
    assert!(!g.update_allowed());

    let mut g = Game::new();
    g.frames_since_last_obstacle = u32::MAX;
    assert!(!g.update_allowed());
}

#[test]
fn obstacle_moves_and_leaves_the_screen() {
    let mut o = Obstacle::new(100, 50, 30);
    assert!(!o.passed);
    o.update();
    assert_eq!(o.x, 80);
    assert_eq!(o.gap_y, 50);
    assert_eq!(o.gap_size, 30);
    assert!(!o.is_off_screen());
    let far_gone = Obstacle::new(-501, 0, 10);
    assert!(far_gone.is_off_screen());
    let on_the_edge = Obstacle::new(-500, 0, 10);
    assert!(!on_the_edge.is_off_screen());
}
