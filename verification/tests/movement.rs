use raymaze::grid::from_layout;
use raymaze::grid::GridMap;
use raymaze::session::{
    initial_pose, move_player, turn_left, turn_right, goal_reached, next_mode, Pose, ScreenMode,
    SessionEvent,
};

fn bordered(width: usize, height: usize, start: (usize, usize), goal: (usize, usize)) -> GridMap {
    let mut tiles = vec![0u8; width * height];
    for x in 0..width {
        tiles[x] = 1;
        tiles[(height - 1) * width + x] = 1;
    }
    for y in 0..height {
        tiles[y * width] = 1;
        tiles[y * width + width - 1] = 1;
    }
    from_layout(width, height, tiles, start, goal).unwrap()
}

#[test]
fn forward_steps_at_angle_zero_only_increase_x() {
    // A five-by-five grid bordered by wall tag 1, empty interior, start at
    // (1, 1) heading zero, goal at (3, 3).
    let map = bordered(5, 5, (1, 1), (3, 3));
    let mut pose = initial_pose(&map);
    assert_eq!((pose.x, pose.y, pose.angle), (1000, 1000, 0));
    let mut last_x = pose.x;
    for step in 0..50 {
        move_player(&mut pose, &map, true);
        assert_eq!(pose.y, 1000);
        assert_eq!(pose.angle, 0);
        if step < 37 {
            assert!(pose.x > last_x);
        }
        last_x = pose.x;
    }
    // The wall at column 4 stops the walk just short of 4000.
    assert_eq!(pose.x, 3960);
    assert!(!goal_reached(&pose, &map));
}

#[test]
fn corner_slide_commits_the_open_axis_only() {
    // Walls block the x step and the diagonal, but the y step is open: the
    // move slides along y instead of stopping.
    let mut tiles = vec![0u8; 4 * 4];
    tiles[1 * 4 + 2] = 1;
    tiles[2 * 4 + 2] = 1;
    let map = from_layout(4, 4, tiles, (0, 0), (3, 3)).unwrap();
    let mut pose = Pose { x: 1990, y: 1990, angle: 785 };
    move_player(&mut pose, &map, true);
    assert_eq!(pose.x, 1990);
    assert!(pose.y > 1990);
}

#[test]
fn blocked_on_both_axes_stops_the_move() {
    let mut tiles = vec![0u8; 4 * 4];
    tiles[1 * 4 + 2] = 1;
    tiles[2 * 4 + 2] = 1;
    tiles[2 * 4 + 1] = 1;
    let map = from_layout(4, 4, tiles, (0, 0), (3, 3)).unwrap();
    let mut pose = Pose { x: 1990, y: 1990, angle: 785 };
    move_player(&mut pose, &map, true);
    assert_eq!((pose.x, pose.y), (1990, 1990));
}

#[test]
fn backward_steps_at_angle_zero_decrease_x() {
    let map = bordered(5, 5, (2, 2), (3, 3));
    let mut pose = initial_pose(&map);
    assert_eq!(pose.x, 2000);
    move_player(&mut pose, &map, false);
    assert_eq!(pose.x, 1920);
    assert_eq!(pose.y, 2000);
}

#[test]
fn turning_wraps_the_heading_into_one_turn() {
    let map = bordered(5, 5, (1, 1), (3, 3));
    let mut pose = initial_pose(&map);
    turn_left(&mut pose);
    assert_eq!(pose.angle, 6233);
    turn_right(&mut pose);
    assert_eq!(pose.angle, 0);
    pose.angle = 6250;
    turn_right(&mut pose);
    assert_eq!(pose.angle, 17);
}

#[test]
fn movement_never_lands_inside_a_wall() {
    let map = bordered(5, 5, (1, 1), (3, 3));
    let mut pose = initial_pose(&map);
    for i in 0..200 {
        if i % 3 == 0 {
            turn_right(&mut pose);
        }
        move_player(&mut pose, &map, i % 7 != 0);
        let cx = (pose.x / 1000) as usize;
        let cy = (pose.y / 1000) as usize;
        assert!(!map.is_wall(cx, cy));
    }
}

#[test]
fn goal_at_exactly_the_threshold_does_not_win() {
    let map = bordered(8, 8, (1, 1), (3, 3));
    // The goal center is at (3000, 3000); 500 units is exactly the radius.
    let at_threshold = Pose { x: 3500, y: 3000, angle: 0 };
    assert!(!goal_reached(&at_threshold, &map));
    let just_inside = Pose { x: 3499, y: 3000, angle: 0 };
    assert!(goal_reached(&just_inside, &map));
}

#[test]
fn goal_threshold_is_circular_not_square() {
    let map = bordered(8, 8, (1, 1), (3, 3));
    // 354 on both axes is just outside the radius, 353 just inside.
    let outside = Pose { x: 3354, y: 3354, angle: 0 };
    assert!(!goal_reached(&outside, &map));
    let inside = Pose { x: 3353, y: 3353, angle: 0 };
    assert!(goal_reached(&inside, &map));
}

#[test]
fn screen_machine_follows_the_session_flow() {
    let playing = next_mode(ScreenMode::Welcome, SessionEvent::StartPressed);
    assert_eq!(playing, ScreenMode::Playing);
    let success = next_mode(playing, SessionEvent::GoalReached);
    assert_eq!(success, ScreenMode::Success);
    let replay = next_mode(success, SessionEvent::RestartPressed);
    assert_eq!(replay, ScreenMode::Playing);
    assert_eq!(next_mode(success, SessionEvent::ExitPressed), ScreenMode::Terminated);
}

#[test]
fn screen_machine_ignores_foreign_events_and_exit_always_terminates() {
    assert_eq!(next_mode(ScreenMode::Welcome, SessionEvent::GoalReached), ScreenMode::Welcome);
    assert_eq!(next_mode(ScreenMode::Playing, SessionEvent::StartPressed), ScreenMode::Playing);
    assert_eq!(next_mode(ScreenMode::Welcome, SessionEvent::ExitPressed), ScreenMode::Terminated);
    assert_eq!(next_mode(ScreenMode::Playing, SessionEvent::ExitPressed), ScreenMode::Terminated);
    assert_eq!(
        next_mode(ScreenMode::Terminated, SessionEvent::StartPressed),
        ScreenMode::Terminated
    );
}

#[test]
fn layout_validation_rejects_bad_configurations() {
    assert!(from_layout(3, 3, vec![0u8; 8], (0, 0), (1, 1)).is_none());
    assert!(from_layout(0, 3, vec![0u8; 0], (0, 0), (1, 1)).is_none());
    assert!(from_layout(3, 3, vec![1u8; 9], (0, 0), (1, 1)).is_none());
    assert!(from_layout(3, 3, vec![0u8; 9], (3, 0), (1, 1)).is_none());
    assert!(from_layout(10_001, 1, vec![0u8; 10_001], (0, 0), (1, 0)).is_none());
    assert!(from_layout(3, 3, vec![0u8; 9], (0, 0), (1, 1)).is_some());
}

#[test]
fn out_of_bounds_cells_count_as_walls() {
    let map = bordered(5, 5, (1, 1), (3, 3));
    assert!(map.is_wall(0, 0));
    assert!(!map.is_wall(1, 1));
    assert!(map.is_wall(5, 1));
    assert!(map.is_wall(1, 5));
}
