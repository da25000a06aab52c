//! Which chunks and entities a client is sent: the view-distance test.

use crate::collections::{BlockPos, ChunkKey};
use crate::terrain::{chunk_coord_of, chunk_of};
use vstd::prelude::*;

verus! {

/// The slack, in chunks, by which the distance along each axis is shortened
/// before it is measured, so that a client on a chunk border sees no
/// flicker.
pub const VIEW_SLACK: u32 = 2;

/// The distance between two chunk coordinates, shortened by the slack and
/// never below zero.
pub open spec fn adjusted_dist(a: int, b: int) -> int {
    let d = if a >= b {
        a - b
    } else {
        b - a
    };
    if d >= VIEW_SLACK as int {
        d - VIEW_SLACK as int
    } else {
        0
    }
}

/// Whether the chunk `key` is in view of a client that stands in the chunk
/// `center` and has the view distance `vd`: the squares of the adjusted
/// distances along x and y sum to at most the square of `vd`.
pub open spec fn in_view(center: ChunkKey, key: ChunkKey, vd: u32) -> bool {
    let dx = adjusted_dist(center.0 as int, key.0 as int);
    let dy = adjusted_dist(center.1 as int, key.1 as int);
    dx * dx + dy * dy <= vd * vd
}

/// `vek::Vec2::magnitude_squared` on two unsigned components, widened so that
/// the sum of the squares cannot overflow: `x * x + y * y`.
#[verifier::external_body]
fn magnitude_squared(x: u32, y: u32) -> (m: u128)
    ensures
        m == x * x + y * y,
{
    vek::Vec2::new(x as u128, y as u128).magnitude_squared()
}

/// Computes [`adjusted_dist`] of two chunk coordinates.
fn adjusted(a: i32, b: i32) -> (d: u32)
    ensures
        d == adjusted_dist(a as int, b as int),
{
    let wide: i64 = a as i64 - b as i64;
    let dist: i64 = if wide >= 0 {
        wide
    } else {
        -wide
    };
    if dist >= VIEW_SLACK as i64 {
        (dist - VIEW_SLACK as i64) as u32
    } else {
        0
    }
}

/// Whether the chunk `key` is in view from the chunk `center` at view
/// distance `vd`.
pub fn key_in_vd(center: ChunkKey, key: ChunkKey, vd: u32) -> (r: bool)
    ensures
        r == in_view(center, key, vd),
{
    let dx = adjusted(center.0, key.0);
    let dy = adjusted(center.1, key.1);
    assert(vd * vd <= 0xffff_ffff * 0xffff_ffff) by (nonlinear_arith)
        requires
            0 <= vd <= 0xffff_ffff,
    ;
    let limit: u128 = (vd as u128) * (vd as u128);
    magnitude_squared(dx, dy) <= limit
}

/// Whether the chunk `chunk_pos` is in view of a player that stands at the
/// block position `player_pos` and has the view distance `vd`.
pub fn chunk_in_vd(player_pos: BlockPos, chunk_pos: ChunkKey, vd: u32) -> (r: bool)
    ensures
        r == in_view(chunk_of(player_pos), chunk_pos, vd),
{
    let center = (chunk_coord_of(player_pos.0), chunk_coord_of(player_pos.1));
    key_in_vd(center, chunk_pos, vd)
}

/// Whether an entity at `entity_pos` is in view of a client whose own entity
/// stands at `client_pos`: the test of [`in_view`] on the chunks of both.
pub fn entity_in_vd(client_pos: BlockPos, entity_pos: BlockPos, vd: u32) -> (r: bool)
    ensures
        r == in_view(chunk_of(client_pos), chunk_of(entity_pos), vd),
{
    let key = (chunk_coord_of(entity_pos.0), chunk_coord_of(entity_pos.1));
    chunk_in_vd(client_pos, key, vd)
}

/// A chunk is in view of a client that stands in it, at any view distance.
pub proof fn lemma_own_chunk_in_view(center: ChunkKey, vd: u32)
    ensures
        in_view(center, center, vd),
{
    assert(0 <= vd * vd) by (nonlinear_arith);
}

/// A larger view distance sees whatever a smaller one sees.
pub proof fn lemma_in_view_monotone(center: ChunkKey, key: ChunkKey, vd: u32, wider: u32)
    requires
        in_view(center, key, vd),
        vd <= wider,
    ensures
        in_view(center, key, wider),
{
    assert(vd * vd <= wider * wider) by (nonlinear_arith)
        requires
            0 <= vd <= wider,
    ;
}

/// The test is symmetric in the two chunks.
pub proof fn lemma_in_view_symmetric(a: ChunkKey, b: ChunkKey, vd: u32)
    ensures
        in_view(a, b, vd) == in_view(b, a, vd),
{
}

/// Within the slack along both axes, a chunk is in view even at view
/// distance zero.
pub proof fn lemma_in_view_within_slack(center: ChunkKey, key: ChunkKey, vd: u32)
    requires
        -2 <= center.0 - key.0 <= 2,
        -2 <= center.1 - key.1 <= 2,
    ensures
        in_view(center, key, vd),
{
    assert(0 <= vd * vd) by (nonlinear_arith);
}

} // verus!
