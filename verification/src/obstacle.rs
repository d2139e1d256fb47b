//! A single obstacle: a pair of vertical barriers with a passable gap,
//! drifting leftward at a fixed speed.

use vstd::prelude::*;

verus! {

/// Horizontal extent of an obstacle, in deci-units (50 world units).
pub const OBSTACLE_WIDTH: i64 = 500;

/// Leftward movement per frame, in deci-units (2 world units).
pub const OBSTACLE_SPEED: i64 = 20;

/// An obstacle whose position is strictly below this is fully off the left
/// edge of the field (-50 world units) and eligible for removal.
pub const OFF_SCREEN_X: i64 = -500;

/// A pair of vertical barriers with a passable gap. `x` is the left edge of
/// the pair; the gap spans `[gap_y, gap_y + gap_size]` vertically. `passed`
/// records whether the bird's column has already overtaken this obstacle,
/// so that it is scored at most once.
#[derive(Clone, Copy, PartialEq, Eq, Structural, Debug)]
pub struct Obstacle {
    pub x: i64,
    pub gap_y: i64,
    pub gap_size: i64,
    pub passed: bool,
}

/// Mathematical model of an obstacle: the same fields over unbounded integers.
#[verifier::ext_equal]
pub ghost struct ObstacleModel {
    pub x: int,
    pub gap_y: int,
    pub gap_size: int,
    pub passed: bool,
}

impl View for Obstacle {
    type V = ObstacleModel;

    open spec fn view(&self) -> ObstacleModel {
        ObstacleModel {
            x: self.x as int,
            gap_y: self.gap_y as int,
            gap_size: self.gap_size as int,
            passed: self.passed,
        }
    }
}

/// One frame of obstacle movement: the pair drifts left by `OBSTACLE_SPEED`.
pub open spec fn obstacle_step(o: ObstacleModel) -> ObstacleModel {
    ObstacleModel { x: o.x - OBSTACLE_SPEED as int, ..o }
}

/// An obstacle is off screen once its left edge is below `OFF_SCREEN_X`.
pub open spec fn obstacle_off_screen(o: ObstacleModel) -> bool {
    o.x < OFF_SCREEN_X as int
}

impl Obstacle {
    /// Constructs an obstacle that has not yet been passed. No validation is
    /// performed: the caller is responsible for sensible geometry.
    pub fn new(x: i64, gap_y: i64, gap_size: i64) -> (o: Obstacle)
        ensures
            o == (Obstacle { x, gap_y, gap_size, passed: false }),
    {
        Obstacle { x, gap_y, gap_size, passed: false }
    }

    /// Moves the obstacle left by one frame's worth of drift.
    pub fn update(&mut self)
        requires
            old(self).x as int - OBSTACLE_SPEED as int >= i64::MIN as int,
        ensures
            final(self)@ == obstacle_step(old(self)@),
    {
        self.x = self.x - OBSTACLE_SPEED;
    }

    /// True iff the obstacle has fully left the visible field.
    pub fn is_off_screen(&self) -> (r: bool)
        ensures
            r == obstacle_off_screen(self@),
    {
        self.x < OFF_SCREEN_X
    }
}

} // verus!
