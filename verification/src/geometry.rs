//! The polygon geometry generator: vertices of a regular polygon around a
//! fixed-point center, truncated toward zero to integer pixel positions,
//! with a two-point fallback when rounding collapses the shape.

use vstd::prelude::*;
use vstd::arithmetic::div_mod::{
    lemma_div_by_multiple, lemma_div_is_ordered, lemma_fundamental_div_mod,
    lemma_fundamental_div_mod_converse, lemma_mod_bound,
};
use vstd::arithmetic::mul::lemma_mul_inequality;
use crate::fixed::{fx_trunc, fx_trunc_spec, lemma_neg_div, lemma_trunc_monotone};
use crate::trig::{cos_fp, cos_spec, lemma_cos_bounds, lemma_sin_bounds, sin_fp, sin_half_spec,
    sin_spec, TURN};

verus! {

/// Largest magnitude of a fixed-point center coordinate or radius that the
/// generator accepts; keeps every intermediate product inside `i64`.
pub const GEOM_BOUND: i64 = 0x100_0000_0000;

/// An integer pixel coordinate.
#[derive(Clone, Copy, PartialEq, Eq, Structural, Debug)]
pub struct PixelPoint {
    pub x: i32,
    pub y: i32,
}

/// A pixel point as a pair of mathematical integers.
pub open spec fn point_view(p: PixelPoint) -> (int, int) {
    (p.x as int, p.y as int)
}

/// A vertex list as a sequence of integer pairs.
pub open spec fn points_view(s: Seq<PixelPoint>) -> Seq<(int, int)> {
    s.map_values(|p: PixelPoint| point_view(p))
}

/// Whether every coordinate of a vertex list stays strictly within a
/// quarter of the `i32` range: the headroom the canvas drawing rests on
/// (any difference of two such coordinates then fits `i32`).
pub open spec fn points_in_range(pts: Seq<PixelPoint>) -> bool {
    forall |i: int| 0 <= i < pts.len() ==> {
        let p = #[trigger] pts[i];
        -0x4000_0000 < p.x < 0x4000_0000 && -0x4000_0000 < p.y < 0x4000_0000
    }
}

/// The angle of vertex `k`: the rotation plus `k` equal steps of a turn
/// split into `sides` parts (the step truncated to a whole angle unit).
pub open spec fn vertex_angle(rotation: int, sides: int, k: int) -> int {
    (rotation + k * (65536int / sides)) % 65536
}

/// Vertex `k` of the polygon: center plus the radius turned by the vertex
/// angle, dropped to whole pixels (both drops toward zero).
pub open spec fn vertex_spec(cx: int, cy: int, radius: int, sides: int, rotation: int, k: int)
    -> (int, int)
{
    let a = vertex_angle(rotation, sides, k);
    (fx_trunc_spec(cx + fx_trunc_spec(radius * cos_spec(a))),
        fx_trunc_spec(cy + fx_trunc_spec(radius * sin_spec(a))))
}

/// All `sides` raw vertices, in order.
pub open spec fn raw_polygon_spec(cx: int, cy: int, radius: int, sides: int, rotation: int)
    -> Seq<(int, int)>
{
    Seq::new(sides as nat, |k: int| vertex_spec(cx, cy, radius, sides, rotation, k))
}

/// The two-point stand-in returned when rounding collapses the polygon.
pub open spec fn fallback_spec(cx: int, cy: int) -> Seq<(int, int)> {
    seq![(fx_trunc_spec(cx), fx_trunc_spec(cy)),
        (fx_trunc_spec(cx) + 1, fx_trunc_spec(cy) + 1)]
}

/// Whether the raw vertex list collapses: its first and last points agree.
pub open spec fn collapses(cx: int, cy: int, radius: int, sides: int, rotation: int) -> bool {
    let raw = raw_polygon_spec(cx, cy, radius, sides, rotation);
    raw[0] == raw[sides - 1]
}

/// What the generator returns: the raw vertices, or the fallback pair when
/// the raw list collapses.
pub open spec fn polygon_spec(cx: int, cy: int, radius: int, sides: int, rotation: int)
    -> Seq<(int, int)>
{
    if collapses(cx, cy, radius, sides, rotation) {
        fallback_spec(cx, cy)
    } else {
        raw_polygon_spec(cx, cy, radius, sides, rotation)
    }
}

/// One vertex, computed in fixed point.
fn vertex_at(cx: i64, cy: i64, radius: u64, ang: u32) -> (r: PixelPoint)
    requires
        -GEOM_BOUND <= cx <= GEOM_BOUND,
        -GEOM_BOUND <= cy <= GEOM_BOUND,
        radius <= GEOM_BOUND,
        ang < TURN,
    ensures
        point_view(r) == (fx_trunc_spec(cx + fx_trunc_spec(radius * cos_spec(ang as int))),
                          fx_trunc_spec(cy + fx_trunc_spec(radius * sin_spec(ang as int)))),
        -0x300_0000 <= r.x <= 0x300_0000,
        -0x300_0000 <= r.y <= 0x300_0000,
{
    let c: i64 = cos_fp(ang);
    let s: i64 = sin_fp(ang);
    proof {
        assert(-0x100_0000_0000_0000 <= radius * c <= 0x100_0000_0000_0000) by (nonlinear_arith)
            requires 0 <= radius <= 0x100_0000_0000, -65536 <= c <= 65536;
        assert(-0x100_0000_0000_0000 <= radius * s <= 0x100_0000_0000_0000) by (nonlinear_arith)
            requires 0 <= radius <= 0x100_0000_0000, -65536 <= s <= 65536;
        lemma_trunc_monotone(radius as int * c as int, 0x100_0000_0000_0000);
        lemma_trunc_monotone(-0x100_0000_0000_0000, radius as int * c as int);
        lemma_trunc_monotone(radius as int * s as int, 0x100_0000_0000_0000);
        lemma_trunc_monotone(-0x100_0000_0000_0000, radius as int * s as int);
    }
    let dx: i64 = fx_trunc((radius as i64) * c);
    let dy: i64 = fx_trunc((radius as i64) * s);
    proof {
        lemma_trunc_monotone(cx + dx, 0x300_0000_0000);
        lemma_trunc_monotone(-0x300_0000_0000, cx + dx);
        lemma_trunc_monotone(cy + dy, 0x300_0000_0000);
        lemma_trunc_monotone(-0x300_0000_0000, cy + dy);
    }
    let vx: i64 = fx_trunc(cx + dx);
    let vy: i64 = fx_trunc(cy + dy);
    PixelPoint { x: vx as i32, y: vy as i32 }
}

/// The vertex list of a regular polygon of `sides` corners around the
/// fixed-point center `(cx, cy)` with fixed-point radius `radius`, turned
/// by `rotation` angle units, each vertex dropped to whole pixels toward
/// zero. When
/// rounding collapses the list (its first and last vertices agree), a
/// fixed two-point stand-in just off the center is returned instead, so a
/// caller never sees a closed or single-point vertex list.
pub fn regular_polygon_points(cx: i64, cy: i64, radius: u64, sides: u32, rotation: u32)
    -> (r: Vec<PixelPoint>)
    requires
        sides >= 3,
        rotation < TURN,
        -GEOM_BOUND <= cx <= GEOM_BOUND,
        -GEOM_BOUND <= cy <= GEOM_BOUND,
        radius <= GEOM_BOUND,
    ensures
        points_view(r@) == polygon_spec(cx as int, cy as int, radius as int, sides as int,
            rotation as int),
        points_in_range(r@),
{
    let step: u32 = 65536 / sides;
    proof {
        lemma_fundamental_div_mod(65536, sides as int);
    }
    let mut pts: Vec<PixelPoint> = Vec::new();
    let mut k: u32 = 0;
    while k < sides
        invariant
            k <= sides,
            sides >= 3,
            rotation < 65536,
            step == 65536 as int / sides as int,
            sides * step <= 65536,
            -GEOM_BOUND <= cx <= GEOM_BOUND,
            -GEOM_BOUND <= cy <= GEOM_BOUND,
            radius <= GEOM_BOUND,
            pts@.len() == k,
            forall |i: int| 0 <= i < k ==> point_view(#[trigger] pts@[i])
                == vertex_spec(cx as int, cy as int, radius as int, sides as int,
                    rotation as int, i),
            points_in_range(pts@),
        decreases sides - k,
    {
        proof {
            lemma_mul_inequality(k as int, sides as int, step as int);
        }
        let ang: u32 = (rotation + k * step) % 65536;
        let p = vertex_at(cx, cy, radius, ang);
        pts.push(p);
        k += 1;
    }
    let first: PixelPoint = pts[0];
    let last: PixelPoint = pts[pts.len() - 1];
    proof {
        lemma_trunc_monotone(cx as int, GEOM_BOUND as int);
        lemma_trunc_monotone(-(GEOM_BOUND as int), cx as int);
        lemma_trunc_monotone(cy as int, GEOM_BOUND as int);
        lemma_trunc_monotone(-(GEOM_BOUND as int), cy as int);
    }
    if first == last {
        let bx: i64 = fx_trunc(cx);
        let by: i64 = fx_trunc(cy);
        let mut out: Vec<PixelPoint> = Vec::new();
        out.push(PixelPoint { x: bx as i32, y: by as i32 });
        out.push(PixelPoint { x: (bx as i32) + 1, y: (by as i32) + 1 });
        proof {
            assert(points_view(out@) =~= fallback_spec(cx as int, cy as int));
        }
        out
    } else {
        proof {
            assert(points_view(pts@) =~= raw_polygon_spec(cx as int, cy as int, radius as int,
                sides as int, rotation as int));
        }
        pts
    }
}

/// Dividing a sum cannot overshoot the sum of the quotients by more than one.
proof fn lemma_div_sum_upper(a: int, b: int, s: int)
    requires
        s > 0,
    ensures
        (a + b) / s <= a / s + b / s + 1,
{
    lemma_fundamental_div_mod(a, s);
    lemma_fundamental_div_mod(b, s);
    lemma_mod_bound(a, s);
    lemma_mod_bound(b, s);
    let qa = a / s;
    let ra = a % s;
    let qb = b / s;
    let rb = b % s;
    assert((qa + qb) * s == s * qa + s * qb) by (nonlinear_arith);
    assert((qa + qb + 1) * s == s * qa + s * qb + s) by (nonlinear_arith);
    if ra + rb < s {
        lemma_fundamental_div_mod_converse(a + b, s, qa + qb, ra + rb);
    } else {
        lemma_fundamental_div_mod_converse(a + b, s, qa + qb + 1, ra + rb - s);
    }
}

/// Dividing a sum cannot undershoot the sum of the quotients.
proof fn lemma_div_sum_lower(a: int, b: int, s: int)
    requires
        s > 0,
    ensures
        (a + b) / s >= a / s + b / s,
{
    lemma_fundamental_div_mod(a, s);
    lemma_fundamental_div_mod(b, s);
    lemma_mod_bound(a, s);
    lemma_mod_bound(b, s);
    let qa = a / s;
    let ra = a % s;
    let qb = b / s;
    let rb = b % s;
    assert((qa + qb) * s == s * qa + s * qb) by (nonlinear_arith);
    assert((qa + qb + 1) * s == s * qa + s * qb + s) by (nonlinear_arith);
    if ra + rb < s {
        lemma_fundamental_div_mod_converse(a + b, s, qa + qb, ra + rb);
    } else {
        lemma_fundamental_div_mod_converse(a + b, s, qa + qb + 1, ra + rb - s);
    }
}

/// Truncation sits between the floor quotient and one above it.
proof fn lemma_trunc_vs_floor(v: int)
    ensures
        v / 65536 <= fx_trunc_spec(v) <= v / 65536 + 1,
{
    if v < 0 {
        lemma_neg_div(-v, 65536);
        lemma_div_sum_upper(-v, 65535, 65536);
        lemma_div_is_ordered(-v, -v + 65535, 65536);
    }
}

/// The turned, truncated radius offset stays within the radius, for any
/// trig value within one scaled unit.
proof fn lemma_offset_within_radius(radius: int, t: int)
    requires
        0 <= radius,
        -65536 <= t <= 65536,
    ensures
        -radius <= fx_trunc_spec(radius * t) <= radius,
{
    assert(radius * t <= radius * 65536 && -(radius * 65536) <= radius * t) by (nonlinear_arith)
        requires 0 <= radius, -65536 <= t <= 65536;
    lemma_div_by_multiple(radius, 65536);
    lemma_trunc_monotone(radius * t, radius * 65536);
    lemma_trunc_monotone(-(radius * 65536), radius * t);
}

/// Law: a vertex of the raw polygon stays, on each axis, between the
/// pixels of the center moved a radius each way, and so within two pixels
/// beyond the radius of the center pixel (one pixel for each of the two
/// truncations).
pub proof fn lemma_vertex_near_center(cx: int, cy: int, radius: int, sides: int, rotation: int,
    k: int)
    requires
        sides >= 3,
        0 <= rotation,
        0 <= radius,
        0 <= k < sides,
    ensures
        ({
            let (vx, vy) = vertex_spec(cx, cy, radius, sides, rotation, k);
            &&& fx_trunc_spec(cx - radius) <= vx <= fx_trunc_spec(cx + radius)
            &&& fx_trunc_spec(cy - radius) <= vy <= fx_trunc_spec(cy + radius)
            &&& fx_trunc_spec(cx) - radius / 65536 - 2 <= vx
                <= fx_trunc_spec(cx) + radius / 65536 + 2
            &&& fx_trunc_spec(cy) - radius / 65536 - 2 <= vy
                <= fx_trunc_spec(cy) + radius / 65536 + 2
        }),
{
    let a = vertex_angle(rotation, sides, k);
    vstd::arithmetic::mul::lemma_mul_nonnegative(k, 65536int / sides);
    lemma_mod_bound(rotation + k * (65536int / sides), 65536);
    lemma_cos_bounds(a);
    lemma_sin_bounds(a);
    lemma_offset_within_radius(radius, cos_spec(a));
    lemma_offset_within_radius(radius, sin_spec(a));
    let tx = fx_trunc_spec(radius * cos_spec(a));
    let ty = fx_trunc_spec(radius * sin_spec(a));
    lemma_trunc_monotone(cx - radius, cx + tx);
    lemma_trunc_monotone(cx + tx, cx + radius);
    lemma_trunc_monotone(cy - radius, cy + ty);
    lemma_trunc_monotone(cy + ty, cy + radius);
    lemma_envelope_near_center(cx, radius);
    lemma_envelope_near_center(cy, radius);
}

/// The pixels of a point moved a nonnegative distance each way lie within
/// two pixels beyond that distance of the point's own pixel.
proof fn lemma_envelope_near_center(c: int, radius: int)
    requires
        0 <= radius,
    ensures
        fx_trunc_spec(c + radius) <= fx_trunc_spec(c) + radius / 65536 + 2,
        fx_trunc_spec(c - radius) >= fx_trunc_spec(c) - radius / 65536 - 2,
{
    lemma_trunc_vs_floor(c + radius);
    lemma_trunc_vs_floor(c - radius);
    lemma_trunc_vs_floor(c);
    lemma_div_sum_upper(c, radius, 65536);
    lemma_div_sum_lower(c, -radius, 65536);
    lemma_neg_div(radius, 65536);
    lemma_div_sum_upper(radius, 65535, 65536);
    assert((radius + 65535) / 65536 <= radius / 65536 + 1);
}

/// Law: when the raw vertex list does not collapse, the generator yields
/// exactly `sides` vertices, each within two pixels beyond the radius of
/// the center pixel on each axis.
pub proof fn lemma_polygon_shape(cx: int, cy: int, radius: int, sides: int, rotation: int)
    requires
        sides >= 3,
        0 <= rotation,
        0 <= radius,
        !collapses(cx, cy, radius, sides, rotation),
    ensures
        polygon_spec(cx, cy, radius, sides, rotation).len() == sides,
        forall |k: int| 0 <= k < sides ==> {
            let (vx, vy) = #[trigger] polygon_spec(cx, cy, radius, sides, rotation)[k];
            &&& fx_trunc_spec(cx) - radius / 65536 - 2 <= vx
                <= fx_trunc_spec(cx) + radius / 65536 + 2
            &&& fx_trunc_spec(cy) - radius / 65536 - 2 <= vy
                <= fx_trunc_spec(cy) + radius / 65536 + 2
        },
{
    assert forall |k: int| 0 <= k < sides implies {
        let (vx, vy) = #[trigger] polygon_spec(cx, cy, radius, sides, rotation)[k];
        &&& fx_trunc_spec(cx) - radius / 65536 - 2 <= vx
            <= fx_trunc_spec(cx) + radius / 65536 + 2
        &&& fx_trunc_spec(cy) - radius / 65536 - 2 <= vy
            <= fx_trunc_spec(cy) + radius / 65536 + 2
    } by {
        lemma_vertex_near_center(cx, cy, radius, sides, rotation, k);
    }
}

/// Law: whatever the center, radius and rotation, the generator's output
/// is usable for a fill or an outline: it has at least two points, and its
/// first and last points differ, so downstream drawing never receives a
/// single-point or closed vertex list.
pub proof fn lemma_polygon_drawable(cx: int, cy: int, radius: int, sides: int, rotation: int)
    requires
        sides >= 3,
    ensures
        polygon_spec(cx, cy, radius, sides, rotation).len() >= 2,
        polygon_spec(cx, cy, radius, sides, rotation)[0]
            != polygon_spec(cx, cy, radius, sides, rotation)[
                polygon_spec(cx, cy, radius, sides, rotation).len() - 1],
{
}

/// Truncating a point moved up by at least two whole units lands at least
/// one pixel higher; moved down, at least one pixel lower.
proof fn lemma_trunc_gap(c: int, radius: int)
    requires
        2 * 65536 <= radius,
    ensures
        fx_trunc_spec(c + radius) >= fx_trunc_spec(c) + 1,
        fx_trunc_spec(c - radius) <= fx_trunc_spec(c) - 1,
{
    lemma_trunc_vs_floor(c);
    lemma_trunc_vs_floor(c + radius);
    lemma_trunc_vs_floor(c - radius);
    lemma_div_sum_lower(c, radius, 65536);
    lemma_div_sum_lower(c - radius, radius, 65536);
    lemma_div_is_ordered(2int * 65536, radius, 65536);
}

/// Law: one proved record of adjacent-vertex distinctness. For a square at
/// rotation zero with a radius of at least two whole pixels, the four
/// quarter-point angles are exact in the trig approximation, the vertices
/// sit a full radius from the center on alternating axes, and no two
/// adjacent vertices coincide, nor do the first and last, whatever the
/// center.
pub proof fn lemma_square_adjacent_distinct(cx: int, cy: int, radius: int)
    requires
        2 * 65536 <= radius,
    ensures
        ({
            let pts = polygon_spec(cx, cy, radius, 4, 0);
            &&& pts.len() == 4
            &&& pts[0] != pts[1]
            &&& pts[1] != pts[2]
            &&& pts[2] != pts[3]
            &&& pts[0] != pts[3]
        }),
{
    let den_peak: int = 5 * 32768 * 32768 - 4 * 16384 * (32768 - 16384);
    assert(den_peak == 0x1_0000_0000);
    assert(16 * 16384 * (32768 - 16384) * 65536 == 65536 * den_peak);
    lemma_div_by_multiple(65536int, den_peak);
    assert(sin_half_spec(16384) == 65536);
    let den_edge: int = 5int * 32768 * 32768;
    lemma_div_by_multiple(0int, den_edge);
    assert(sin_half_spec(0) == 0);
    assert(sin_half_spec(32768) == 0);
    assert(sin_spec(0) == 0);
    assert(sin_spec(16384) == 65536);
    assert(sin_spec(32768) == 0);
    assert(sin_spec(49152) == -65536);
    assert((0int + 16384) % 65536 == 16384);
    assert((16384int + 16384) % 65536 == 32768);
    assert((32768int + 16384) % 65536 == 49152);
    assert((49152int + 16384) % 65536 == 0);
    assert(cos_spec(0) == sin_spec(16384));
    assert(cos_spec(16384) == sin_spec(32768));
    assert(cos_spec(32768) == sin_spec(49152));
    assert(cos_spec(49152) == sin_spec(0));
    assert(vertex_angle(0, 4, 0) == 0);
    assert(vertex_angle(0, 4, 1) == 16384);
    assert(vertex_angle(0, 4, 2) == 32768);
    assert(vertex_angle(0, 4, 3) == 49152);
    lemma_div_by_multiple(radius, 65536);
    assert(radius * 65536 >= 0 && -(radius * (-65536)) == radius * 65536
        && radius * (-65536) <= 0 && radius * 0 == 0) by (nonlinear_arith)
        requires radius >= 0;
    assert(fx_trunc_spec(radius * 65536) == radius);
    assert(fx_trunc_spec(radius * (-65536)) == -radius);
    assert(fx_trunc_spec(radius * 0) == 0);
    lemma_trunc_gap(cx, radius);
    lemma_trunc_gap(cy, radius);
    let raw = raw_polygon_spec(cx, cy, radius, 4, 0);
    assert(raw[0] == (fx_trunc_spec(cx + radius), fx_trunc_spec(cy)));
    assert(raw[1] == (fx_trunc_spec(cx), fx_trunc_spec(cy + radius)));
    assert(raw[2] == (fx_trunc_spec(cx - radius), fx_trunc_spec(cy)));
    assert(raw[3] == (fx_trunc_spec(cx), fx_trunc_spec(cy - radius)));
    assert(!collapses(cx, cy, radius, 4, 0));
}

/// Law: when the raw vertex list collapses to a repeated point, the
/// generator returns exactly the two-point stand-in, the center pixel and
/// the pixel one step down-right of it.
pub proof fn lemma_polygon_collapse(cx: int, cy: int, radius: int, sides: int, rotation: int)
    requires
        sides >= 3,
        collapses(cx, cy, radius, sides, rotation),
    ensures
        polygon_spec(cx, cy, radius, sides, rotation)
            == seq![(fx_trunc_spec(cx), fx_trunc_spec(cy)),
                (fx_trunc_spec(cx) + 1, fx_trunc_spec(cy) + 1)],
{
}

} // verus!
