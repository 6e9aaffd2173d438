//! The playfield: its units, its fixed measurements, and the box overlap test.
//!
//! Every length is an integer number of *world units*, six to the screen
//! pixel. One tick of travel at unit velocity is 250/60 of a pixel, which is
//! exactly 25 world units, so positions never need rounding.

use vstd::prelude::*;

verus! {

/// World units per screen pixel.
pub const UNITS_PER_PIXEL: i32 = 6;

/// Simulation ticks per second of game time.
pub const TICKS_PER_SECOND: i32 = 60;

/// Travel speed at unit velocity, in pixels per second.
pub const BASE_SPEED: i32 = 250;

/// Distance covered in one tick at unit velocity, in world units.
pub const STEP: i32 = 25;

/// Width of the road, 820 pixels.
pub const WIN_WIDTH: i32 = 4920;

/// Height of the road, 600 pixels.
pub const WIN_HEIGHT: i32 = 3600;

/// Height of each of the two sidewalks, 100 pixels.
pub const SIDE_WALK: i32 = 600;

/// Width and height of the player's sprite, in texels.
pub const PLAYER_DIM: u32 = 16;

/// Width of an enemy's sprite, in texels.
pub const ENEMY_WIDTH: u32 = 48;

/// Height of an enemy's sprite, in texels.
pub const ENEMY_HEIGHT: u32 = 24;

/// Leftmost x the player's centre may take: half the window less half the player's box.
pub const ARENA_LEFT: i32 = -2364;

/// Rightmost x the player's centre may take.
pub const ARENA_RIGHT: i32 = 2364;

/// Highest y the player's centre may take: half of road plus sidewalks, less half the player's box.
pub const ARENA_TOP: i32 = 2304;

/// Lowest y the player's centre may take.
pub const ARENA_BOTTOM: i32 = -2304;

/// The y above which the band near the top sidewalk begins (exclusive), 300 pixels.
pub const TOP_BAND_START: i32 = 1800;

/// The y below which the band near the top sidewalk ends (exclusive), 400 pixels.
pub const TOP_BAND_END: i32 = 2400;

/// The y below which the band near the bottom sidewalk begins (exclusive), -300 pixels.
pub const BOTTOM_BAND_START: i32 = -1800;

/// The y above which the band near the bottom sidewalk ends (exclusive), -400 pixels.
pub const BOTTOM_BAND_END: i32 = -2400;

/// A point of the playfield, in world units. The origin is the centre of the road,
/// x grows to the right and y grows upwards.
#[derive(Clone, Copy, PartialEq, Eq, Debug, Structural)]
pub struct Position {
    pub x: i32,
    pub y: i32,
}

/// Size multiplier of a sprite, per axis: world units covered by one texel.
/// A sprite drawn at twice its natural size has scale 12.
#[derive(Clone, Copy, PartialEq, Eq, Debug, Structural)]
pub struct Scale {
    pub x: u16,
    pub y: u16,
}

/// An axis-aligned box: `width` by `height` world units, centred on `center`.
#[derive(Clone, Copy, PartialEq, Eq, Debug, Structural)]
pub struct Aabb {
    pub center: Position,
    pub width: u32,
    pub height: u32,
}

/// `value` held to the closed range from `low` to `high`.
pub open spec fn clamped(value: int, low: int, high: int) -> int {
    if value < low {
        low
    } else if value > high {
        high
    } else {
        value
    }
}

/// Whether two open intervals share a point: the first is `size_a` long and centred on
/// `center_a`, the second `size_b` long and centred on `center_b`. Stated on doubled
/// coordinates, so that half-sizes need no division.
pub open spec fn spans_overlap(center_a: int, size_a: int, center_b: int, size_b: int) -> bool {
    2 * center_a - size_a < 2 * center_b + size_b && 2 * center_b - size_b < 2 * center_a + size_a
}

impl Aabb {
    /// The two boxes overlap on both axes. Boxes that only share an edge do not overlap.
    pub open spec fn overlaps(self, other: Aabb) -> bool {
        &&& spans_overlap(
            self.center.x as int,
            self.width as int,
            other.center.x as int,
            other.width as int,
        )
        &&& spans_overlap(
            self.center.y as int,
            self.height as int,
            other.center.y as int,
            other.height as int,
        )
    }

    /// Tests two boxes for overlap.
    pub fn collide(&self, other: &Aabb) -> (hit: bool)
        ensures
            hit == self.overlaps(*other),
    {
        let ax: i64 = 2 * (self.center.x as i64);
        let ay: i64 = 2 * (self.center.y as i64);
        let bx: i64 = 2 * (other.center.x as i64);
        let by: i64 = 2 * (other.center.y as i64);
        let aw: i64 = self.width as i64;
        let ah: i64 = self.height as i64;
        let bw: i64 = other.width as i64;
        let bh: i64 = other.height as i64;
        ax - aw < bx + bw && bx - bw < ax + aw && ay - ah < by + bh && by - bh < ay + ah
    }
}

/// `value` held to the closed range from `low` to `high`.
pub fn clamp(value: i64, low: i32, high: i32) -> (held: i32)
    requires
        low <= high,
    ensures
        held == clamped(value as int, low as int, high as int),
{
    if value < low as i64 {
        low
    } else if value > high as i64 {
        high
    } else {
        value as i32
    }
}

/// Overlap does not depend on which box is asked.
pub proof fn lemma_overlap_symmetric(a: Aabb, b: Aabb)
    ensures
        a.overlaps(b) == b.overlaps(a),
{
}

/// Two boxes that are apart on one axis do not overlap, however they lie on the other.
pub proof fn lemma_disjoint_axis_never_overlaps(a: Aabb, b: Aabb)
    requires
        !spans_overlap(a.center.x as int, a.width as int, b.center.x as int, b.width as int)
            || !spans_overlap(
            a.center.y as int,
            a.height as int,
            b.center.y as int,
            b.height as int,
        ),
    ensures
        !a.overlaps(b),
{
}

/// The arena is the window, sidewalks included, drawn in by half the player's box
/// on every side, and it is centred on the origin.
pub proof fn lemma_arena_measures()
    ensures
        2 * ARENA_RIGHT == WIN_WIDTH - 2 * PLAYER_DIM * UNITS_PER_PIXEL,
        2 * ARENA_TOP == WIN_HEIGHT + 2 * SIDE_WALK - 2 * PLAYER_DIM * UNITS_PER_PIXEL,
        ARENA_LEFT == -ARENA_RIGHT,
        ARENA_BOTTOM == -ARENA_TOP,
{
}

/// The step per tick is the base speed spread over the ticks of a second.
pub proof fn lemma_step_is_speed_per_tick()
    ensures
        STEP * TICKS_PER_SECOND == BASE_SPEED * UNITS_PER_PIXEL,
{
}

} // verus!
