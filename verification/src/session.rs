//! The player pose, movement, goal detection, and the screen-state machine.
//!
//! Movement is axis-separated on purpose: the proposed step is checked and
//! committed independently along each axis, the second check using the
//! already corrected first coordinate. Walking diagonally into a corner then
//! slides along the open axis instead of stopping outright.

use vstd::prelude::*;
use crate::fixed::{fp_scale, fp_mul, lemma_fp_scale_bound};
use crate::grid::{GridMap, cell_of, cell_index, wall_at_cell, lemma_cell_in_bounds};
use crate::trig::{
    sin_mrad,
    cos_mrad,
    sin_fp,
    cos_fp,
    norm_angle,
    norm_angle_ex,
    TWO_PI_MRAD,
};

verus! {

/// Distance walked per movement tick, in fixed-point grid units.
pub const MOVE_SPEED: i64 = 80;

/// Heading change per rotation tick, in milliradians.
pub const ROT_SPEED: i64 = 50;

/// Reaching strictly closer to the goal than this radius wins, in fixed-point
/// grid units.
pub const GOAL_RADIUS: i64 = 500;

/// The player's position and heading: fixed-point grid coordinates and an
/// angle in milliradians.
pub struct Pose {
    pub x: i64,
    pub y: i64,
    pub angle: i64,
}

impl Pose {
    /// The pose lies inside the grid's fixed-point extent with a wrapped
    /// heading.
    pub open spec fn wf(self, map: GridMap) -> bool {
        &&& 0 <= self.x < 1000 * map.width
        &&& 0 <= self.y < 1000 * map.height
        &&& 0 <= self.angle < TWO_PI_MRAD
    }
}

/// The pose a session starts or restarts from: the map's start cell, heading
/// along the positive x axis.
pub fn initial_pose(map: &GridMap) -> (p: Pose)
    requires
        map.wf(),
    ensures
        p.x == 1000 * map.start.0,
        p.y == 1000 * map.start.1,
        p.angle == 0,
        p.wf(*map),
{
    Pose { x: (map.start.0 as i64) * 1000, y: (map.start.1 as i64) * 1000, angle: 0 }
}

/// Where a movement tick tries to put the player: one speed step along the
/// heading, forward or backward.
pub open spec fn step_target(pose: Pose, forward: bool) -> (int, int) {
    let sx = fp_scale(cos_mrad(pose.angle as int), MOVE_SPEED as int);
    let sy = fp_scale(sin_mrad(pose.angle as int), MOVE_SPEED as int);
    if forward {
        (pose.x + sx, pose.y + sy)
    } else {
        (pose.x - sx, pose.y - sy)
    }
}

/// The x coordinate after the axis-separated wall check: the target x if its
/// cell (at the current y) is walkable, else unchanged.
pub open spec fn moved_x(map: GridMap, pose: Pose, forward: bool) -> int {
    let t = step_target(pose, forward);
    if !map.wall_at(cell_of(t.0), cell_of(pose.y as int)) {
        t.0
    } else {
        pose.x as int
    }
}

/// The y coordinate after the axis-separated wall check, which already uses
/// the corrected x.
pub open spec fn moved_y(map: GridMap, pose: Pose, forward: bool) -> int {
    let t = step_target(pose, forward);
    if !map.wall_at(cell_of(moved_x(map, pose, forward)), cell_of(t.1)) {
        t.1
    } else {
        pose.y as int
    }
}

/// One movement tick: propose a step along the heading and commit each axis
/// independently, so a blocked axis never cancels the open one.
pub fn move_player(pose: &mut Pose, map: &GridMap, forward: bool)
    requires
        map.wf(),
        old(pose).wf(*map),
    ensures
        final(pose).x == moved_x(*map, *old(pose), forward),
        final(pose).y == moved_y(*map, *old(pose), forward),
        final(pose).angle == old(pose).angle,
        final(pose).wf(*map),
{
    let c = cos_fp(pose.angle);
    let s = sin_fp(pose.angle);
    proof {
        lemma_fp_scale_bound(c as int, MOVE_SPEED as int, MOVE_SPEED as int);
        lemma_fp_scale_bound(s as int, MOVE_SPEED as int, MOVE_SPEED as int);
    }
    let sx = fp_mul(c, MOVE_SPEED);
    let sy = fp_mul(s, MOVE_SPEED);
    let nx = if forward {
        pose.x + sx
    } else {
        pose.x - sx
    };
    let ny = if forward {
        pose.y + sy
    } else {
        pose.y - sy
    };
    if !wall_at_cell(map, cell_index(nx), cell_index(pose.y)) {
        proof {
            lemma_cell_in_bounds(nx as int, map.width as int);
        }
        pose.x = nx;
    }
    if !wall_at_cell(map, cell_index(pose.x), cell_index(ny)) {
        proof {
            lemma_cell_in_bounds(ny as int, map.height as int);
        }
        pose.y = ny;
    }
}

/// One rotation tick to the left: the heading decreases by `ROT_SPEED` and
/// wraps into a full turn.
pub fn turn_left(pose: &mut Pose)
    requires
        0 <= old(pose).angle < TWO_PI_MRAD,
    ensures
        final(pose).angle == norm_angle(old(pose).angle - ROT_SPEED),
        0 <= final(pose).angle < TWO_PI_MRAD,
        final(pose).x == old(pose).x,
        final(pose).y == old(pose).y,
{
    pose.angle = norm_angle_ex(pose.angle - ROT_SPEED);
}

/// One rotation tick to the right: the heading increases by `ROT_SPEED` and
/// wraps into a full turn.
pub fn turn_right(pose: &mut Pose)
    requires
        0 <= old(pose).angle < TWO_PI_MRAD,
    ensures
        final(pose).angle == norm_angle(old(pose).angle + ROT_SPEED),
        0 <= final(pose).angle < TWO_PI_MRAD,
        final(pose).x == old(pose).x,
        final(pose).y == old(pose).y,
{
    pose.angle = norm_angle_ex(pose.angle + ROT_SPEED);
}

/// Squared Euclidean distance from the pose to the goal cell, in squared
/// fixed-point units.
pub open spec fn goal_dist_sq(map: GridMap, pose: Pose) -> int {
    let dx = pose.x - 1000 * map.goal.0;
    let dy = pose.y - 1000 * map.goal.1;
    dx * dx + dy * dy
}

/// Whether the pose wins: strictly closer to the goal than `GOAL_RADIUS`.
/// Comparing squared distances avoids any square root.
pub open spec fn goal_reached_spec(map: GridMap, pose: Pose) -> bool {
    goal_dist_sq(map, pose) < GOAL_RADIUS * GOAL_RADIUS
}

/// Goal detection for one frame.
pub fn goal_reached(pose: &Pose, map: &GridMap) -> (r: bool)
    requires
        map.wf(),
        pose.wf(*map),
    ensures
        r == goal_reached_spec(*map, *pose),
{
    let dx = pose.x - (map.goal.0 as i64) * 1000;
    let dy = pose.y - (map.goal.1 as i64) * 1000;
    proof {
        assert(dx * dx + dy * dy <= 800_000_000_000_000 && dx * dx >= 0 && dy * dy >= 0)
            by (nonlinear_arith)
            requires
                -20_000_000 <= dx <= 20_000_000,
                -20_000_000 <= dy <= 20_000_000,
        ;
    }
    dx * dx + dy * dy < GOAL_RADIUS * GOAL_RADIUS
}

/// A Euclidean distance of exactly the goal radius does not win; strictly
/// less does. In squared fixed-point units the radius is
/// `GOAL_RADIUS * GOAL_RADIUS`.
pub proof fn lemma_goal_threshold(map: GridMap, pose: Pose)
    ensures
        goal_dist_sq(map, pose) == GOAL_RADIUS * GOAL_RADIUS ==> !goal_reached_spec(map, pose),
        goal_dist_sq(map, pose) < GOAL_RADIUS * GOAL_RADIUS ==> goal_reached_spec(map, pose),
{
}

/// A move from a walkable cell lands in a walkable cell: each axis commits
/// only after its wall check, so the player can never end up inside a wall.
pub proof fn lemma_move_stays_walkable(map: GridMap, pose: Pose, forward: bool)
    requires
        !map.wall_at(cell_of(pose.x as int), cell_of(pose.y as int)),
    ensures
        !map.wall_at(
            cell_of(moved_x(map, pose, forward)),
            cell_of(moved_y(map, pose, forward)),
        ),
{
}

/// Walking into a corner slides: when the proposed step is blocked along x
/// (at the current y) but the step along y is open at the kept x, the move
/// commits the y step and leaves x in place instead of stopping outright.
pub proof fn lemma_corner_slide(map: GridMap, pose: Pose, forward: bool)
    requires
        map.wall_at(cell_of(step_target(pose, forward).0), cell_of(pose.y as int)),
        !map.wall_at(cell_of(pose.x as int), cell_of(step_target(pose, forward).1)),
    ensures
        moved_x(map, pose, forward) == pose.x,
        moved_y(map, pose, forward) == step_target(pose, forward).1,
{
}

/// The screens a session can show, as one tagged value with explicit
/// transitions rather than independent boolean flags.
#[derive(Clone, Copy, PartialEq, Eq, Structural, Debug)]
pub enum ScreenMode {
    Welcome,
    Playing,
    Success,
    Terminated,
}

/// The inputs that drive screen transitions.
#[derive(Clone, Copy, PartialEq, Eq, Structural, Debug)]
pub enum SessionEvent {
    StartPressed,
    GoalReached,
    RestartPressed,
    ExitPressed,
}

/// The screen-state machine: start leaves the welcome screen, reaching the
/// goal shows success, restart replays, exit terminates from anywhere, and
/// every other pairing keeps the mode.
pub open spec fn next_mode_spec(mode: ScreenMode, event: SessionEvent) -> ScreenMode {
    match (mode, event) {
        (ScreenMode::Welcome, SessionEvent::StartPressed) => ScreenMode::Playing,
        (ScreenMode::Playing, SessionEvent::GoalReached) => ScreenMode::Success,
        (ScreenMode::Success, SessionEvent::RestartPressed) => ScreenMode::Playing,
        (_, SessionEvent::ExitPressed) => ScreenMode::Terminated,
        _ => mode,
    }
}

/// Applies one event to the screen-state machine.
pub fn next_mode(mode: ScreenMode, event: SessionEvent) -> (r: ScreenMode)
    ensures
        r == next_mode_spec(mode, event),
{
    match (mode, event) {
        (ScreenMode::Welcome, SessionEvent::StartPressed) => ScreenMode::Playing,
        (ScreenMode::Playing, SessionEvent::GoalReached) => ScreenMode::Success,
        (ScreenMode::Success, SessionEvent::RestartPressed) => ScreenMode::Playing,
        (_, SessionEvent::ExitPressed) => ScreenMode::Terminated,
        _ => mode,
    }
}

} // verus!
