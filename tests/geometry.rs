use reaction::geometry::{ball_movement, collision, MoveInput, Position};

fn p(x: i32, y: i32) -> Position {
    Position { x, y }
}

fn keys(left: bool, right: bool, down: bool, up: bool, teleport: bool) -> MoveInput {
    MoveInput { left, right, down, up, teleport }
}

#[test]
fn collision_same_position() {
    assert!(collision(p(0, 0), p(0, 0)));
}

#[test]
fn collision_left_bound() {
    // a.x - 15 < b.x + 30
    assert!(!collision(p(0, 0), p(-45, 0)));
    assert!(collision(p(0, 0), p(-44, 0)));
}

#[test]
fn collision_right_bound() {
    // a.x + 15 > b.x
    assert!(!collision(p(0, 0), p(15, 0)));
    assert!(collision(p(0, 0), p(14, 0)));
}

#[test]
fn collision_lower_bound() {
    // a.y - 15 < b.y + 30
    assert!(!collision(p(0, 0), p(0, -45)));
    assert!(collision(p(0, 0), p(0, -44)));
}

#[test]
fn collision_upper_bound() {
    // a.y + 15 > b.y
    assert!(!collision(p(0, 0), p(0, 15)));
    assert!(collision(p(0, 0), p(0, 14)));
}

#[test]
fn collision_is_not_symmetric() {
    // The box hangs off its corner, so swapping the roles changes the answer.
    assert!(collision(p(0, 0), p(-40, -40)));
    assert!(!collision(p(-40, -40), p(0, 0)));
}

#[test]
fn collision_far_apart_and_extremes() {
    assert!(!collision(p(100, 100), p(-100, -100)));
    assert!(!collision(p(i32::MAX, i32::MAX), p(i32::MIN, i32::MIN)));
    assert!(collision(p(i32::MIN, i32::MIN), p(i32::MIN, i32::MIN)));
}

#[test]
fn movement_each_direction() {
    assert_eq!(ball_movement(p(0, 0), keys(true, false, false, false, false), None), p(-2, 0));
    assert_eq!(ball_movement(p(0, 0), keys(false, true, false, false, false), None), p(2, 0));
    assert_eq!(ball_movement(p(0, 0), keys(false, false, true, false, false), None), p(0, -2));
    assert_eq!(ball_movement(p(0, 0), keys(false, false, false, true, false), None), p(0, 2));
}

#[test]
fn movement_opposite_keys_cancel() {
    assert_eq!(ball_movement(p(5, 7), keys(true, true, true, true, false), None), p(5, 7));
    assert_eq!(ball_movement(p(5, 7), keys(true, false, false, true, false), None), p(3, 9));
}

#[test]
fn movement_jump_lands_on_target() {
    assert_eq!(ball_movement(p(5, 7), keys(true, false, false, false, true), Some(p(100, -50))), p(100, -50));
    // Without a target the jump does nothing.
    assert_eq!(ball_movement(p(5, 7), keys(false, false, false, false, true), None), p(5, 7));
}

#[test]
fn movement_stops_at_integer_range() {
    assert_eq!(ball_movement(p(i32::MIN + 1, 0), keys(true, false, false, false, false), None), p(i32::MIN, 0));
    assert_eq!(ball_movement(p(0, i32::MAX), keys(false, false, false, true, false), None), p(0, i32::MAX));
}
