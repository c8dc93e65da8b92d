//! Collectibles: where they may appear, how they fade, and the random draw
//! of a fresh one.

use rand::Rng;
use vstd::prelude::*;
use crate::geometry::Position;

verus! {

// The play field is 800 by 600 units around the origin; collectibles keep
// 80 units from the sides, 60 from the bottom bar and 110 from the top bar.

/// Leftmost spawn position (inclusive).
pub const SPAWN_MIN_X: i32 = -320;

/// Rightmost spawn position (exclusive).
pub const SPAWN_MAX_X: i32 = 320;

/// Lowest spawn position (inclusive).
pub const SPAWN_MIN_Y: i32 = -240;

/// Highest spawn position (exclusive).
pub const SPAWN_MAX_Y: i32 = 190;

/// Opacity of the first collectibles, in hundredths.
pub const FULL_ALPHA: u32 = 100;

/// How much opacity, in hundredths, each late collision takes away.
pub const ALPHA_STEP: u32 = 1;

/// Collisions that bring the score above this value fade the collectibles.
pub const FADE_AFTER_SCORE: i32 = 100;

/// A collectible square: its identity, the corner its box starts at, and its
/// opacity in hundredths.
#[derive(Clone, Copy, Debug, PartialEq, Eq, Structural)]
pub struct Thingy {
    pub id: u64,
    pub pos: Position,
    pub alpha: u32,
}

/// The ball touched the collectible with this identity, which is gone.
#[derive(Clone, Copy, Debug, PartialEq, Eq, Structural)]
pub struct CollisionEvent(pub u64);

/// The safe rectangle inside which collectibles appear.
pub open spec fn in_spawn_area(p: Position) -> bool {
    &&& SPAWN_MIN_X <= p.x < SPAWN_MAX_X
    &&& SPAWN_MIN_Y <= p.y < SPAWN_MAX_Y
}

/// The opacity after one collision that brought the score to `score`: one
/// step less once the score is above the fade floor, never below zero.
pub open spec fn faded(alpha: int, score: int) -> int {
    if score > FADE_AFTER_SCORE {
        if alpha >= ALPHA_STEP {
            alpha - ALPHA_STEP
        } else {
            0
        }
    } else {
        alpha
    }
}

/// The opacity after `n` collisions, starting at `alpha` with the score at
/// `score`.
pub open spec fn faded_after(alpha: int, score: int, n: nat) -> int
    decreases n,
{
    if n == 0 {
        alpha
    } else {
        faded(faded_after(alpha, score, (n - 1) as nat), score + n)
    }
}

/// Relies on rand's `thread_rng().gen_range(lo..hi)`: for a non-empty range
/// it returns an integer in `lo..hi` (it panics only on an empty one).
#[verifier::external_body]
fn random_in(lo: i32, hi: i32) -> (r: i32)
    requires
        lo < hi,
    ensures
        lo <= r < hi,
{
    rand::thread_rng().gen_range(lo..hi)
}

/// Draws a position uniformly from the spawn area.
pub fn random_spawn_position() -> (p: Position)
    ensures
        in_spawn_area(p),
{
    let x = random_in(SPAWN_MIN_X, SPAWN_MAX_X);
    let y = random_in(SPAWN_MIN_Y, SPAWN_MAX_Y);
    Position { x, y }
}

/// A new collectible with identity `id` and opacity `alpha`, at a random
/// place in the spawn area.
pub fn create_thingy(id: u64, alpha: u32) -> (t: Thingy)
    ensures
        t.id == id,
        t.alpha == alpha,
        in_spawn_area(t.pos),
{
    Thingy { id, pos: random_spawn_position(), alpha }
}

} // verus!
