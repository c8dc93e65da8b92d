//! Positions on the play field, the ball's movement and the collision test.

use vstd::prelude::*;

verus! {

/// Half-extent of the ball, which the collision test treats as a box.
pub const BALL_RADIUS: i32 = 15;

/// Side of a collectible's square.
pub const THINGY_SIDE: i32 = 30;

/// Distance the ball moves per frame along each held direction.
pub const BALL_SPEED: i32 = 2;

/// A point on the play field, in whole units.
#[derive(Clone, Copy, Debug, PartialEq, Eq, Structural)]
pub struct Position {
    pub x: i32,
    pub y: i32,
}

/// The overlap test between the ball at `a` and a collectible whose box
/// starts at `b`: the lower bounds compare against `b + side`, the upper
/// bounds against `b` itself.
pub open spec fn collides(a: Position, b: Position) -> bool {
    &&& a.x - BALL_RADIUS < b.x + THINGY_SIDE
    &&& a.x + BALL_RADIUS > b.x
    &&& a.y - BALL_RADIUS < b.y + THINGY_SIDE
    &&& a.y + BALL_RADIUS > b.y
}

/// Whether the ball at `a` touches the collectible at `b`.
pub fn collision(a: Position, b: Position) -> (r: bool)
    ensures
        r == collides(a, b),
{
    let radius: i64 = BALL_RADIUS as i64;
    let side: i64 = THINGY_SIDE as i64;
    let (ax, ay, bx, by) = (a.x as i64, a.y as i64, b.x as i64, b.y as i64);
    ax - radius < bx + side && ax + radius > bx && ay - radius < by + side && ay + radius > by
}

/// The movement keys held during one frame, and whether the key that jumps
/// the ball onto the collectible was just pressed.
#[derive(Clone, Copy, Debug, PartialEq, Eq, Structural)]
pub struct MoveInput {
    pub left: bool,
    pub right: bool,
    pub down: bool,
    pub up: bool,
    pub teleport: bool,
}

/// `v` moved by `delta`, held inside the range of `i32`.
pub open spec fn shifted(v: int, delta: int) -> int {
    if v + delta < i32::MIN {
        i32::MIN as int
    } else if v + delta > i32::MAX {
        i32::MAX as int
    } else {
        v + delta
    }
}

/// Where the ball at `p` ends up after one frame of `input`: left, right,
/// down and up are applied in that order; a jump puts it onto `target`.
pub open spec fn moved(p: Position, input: MoveInput, target: Option<Position>) -> Position {
    if input.teleport && target is Some {
        target->0
    } else {
        let x1 = if input.left { shifted(p.x as int, -BALL_SPEED) } else { p.x as int };
        let x2 = if input.right { shifted(x1, BALL_SPEED as int) } else { x1 };
        let y1 = if input.down { shifted(p.y as int, -BALL_SPEED) } else { p.y as int };
        let y2 = if input.up { shifted(y1, BALL_SPEED as int) } else { y1 };
        Position { x: x2 as i32, y: y2 as i32 }
    }
}

fn shift(v: i32, delta: i32) -> (r: i32)
    ensures
        r == shifted(v as int, delta as int),
{
    let w: i64 = v as i64 + delta as i64;
    if w < i32::MIN as i64 {
        i32::MIN
    } else if w > i32::MAX as i64 {
        i32::MAX
    } else {
        w as i32
    }
}

/// Moves the ball at `pos` by one frame of `input`; `target` is the
/// collectible that a jump lands on, if there is one.
pub fn ball_movement(pos: Position, input: MoveInput, target: Option<Position>) -> (r: Position)
    ensures
        r == moved(pos, input, target),
{
    let mut x: i32 = pos.x;
    let mut y: i32 = pos.y;
    if input.left {
        x = shift(x, -BALL_SPEED);
    }
    if input.right {
        x = shift(x, BALL_SPEED);
    }
    if input.down {
        y = shift(y, -BALL_SPEED);
    }
    if input.up {
        y = shift(y, BALL_SPEED);
    }
    if input.teleport {
        if let Some(t) = target {
            return t;
        }
    }
    Position { x, y }
}

} // verus!
