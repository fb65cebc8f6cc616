//! The stroke painter: owns the source image, the canvas and the evolving
//! stroke state; each cycle samples a random source pixel, stamps a
//! polygon of its color at the scaled, jittered position, outlines it once
//! the stroke has shrunk past the inversion threshold, and decays the
//! stroke size while growing the alpha.

use vstd::prelude::*;
use vstd::arithmetic::div_mod::{
    lemma_div_by_multiple, lemma_div_is_ordered, lemma_div_pos_is_pos,
    lemma_fundamental_div_mod, lemma_mod_bound,
};
use vstd::arithmetic::mul::{lemma_mul_inequality, lemma_mul_nonnegative};
use crate::canvas::{
    canvas_height, canvas_pix, canvas_width, color_view, draw_hollow_polygon_mut, fill_polygon,
    image_dimensions, image_height, image_pix, image_pixel, image_width, new_canvas,
    polygon_blend, segments_blend, Canvas, SourceImage,
};
use crate::color::{clamp_channel, clamp_channel_spec, edge_color, edge_color_spec, Color};
use crate::fixed::MAX_DIM;
use crate::geometry::{point_view, points_view, polygon_spec, regular_polygon_points, PixelPoint};
use crate::params::{ConfigError, UserParams};
use crate::rng::RandomSource;

verus! {

/// The painter. Fields evolve only through `update`; the canvas leaves
/// through `output`, which consumes the painter.
pub struct Sketch {
    pub params: UserParams,
    pub source: SourceImage,
    pub destination: Canvas,
    pub source_width: u32,
    pub source_height: u32,
    pub x_scale: u64,
    pub y_scale: u64,
    pub stroke_size: u64,
    pub initial_stroke_size: u64,
    pub current_alpha: u64,
}

/// One decay step of the fixed-point stroke size: it loses the reduction
/// fraction of itself, dropped to whole fixed-point units.
pub open spec fn decay_spec(size: int, reduction: int) -> int {
    size - reduction * size / 65536
}

/// One alpha step: the fixed-point alpha grows by the increment,
/// saturating at the integer cap (clamping to the channel range happens at
/// the point of use).
pub open spec fn alpha_step_spec(alpha: int, inc: int) -> int {
    if alpha + inc <= u64::MAX {
        alpha + inc
    } else {
        u64::MAX as int
    }
}

/// The stroke size after `n` cycles of decay.
pub open spec fn decay_n(size: int, reduction: int, n: nat) -> int
    decreases n,
{
    if n == 0 {
        size
    } else {
        decay_spec(decay_n(size, reduction, (n - 1) as nat), reduction)
    }
}

/// The alpha after `n` cycles of growth.
pub open spec fn alpha_n(alpha: int, inc: int, n: nat) -> int
    decreases n,
{
    if n == 0 {
        alpha
    } else {
        alpha_step_spec(alpha_n(alpha, inc, (n - 1) as nat), inc)
    }
}

/// Whether a cycle of this painter owes an outline: the stroke has shrunk
/// to or past the inversion threshold's share of the initial stroke size.
pub open spec fn outline_due(s: Sketch) -> bool {
    s.stroke_size
        <= s.params.stroke_inversion_threshold * s.initial_stroke_size / 65536
}

/// A cycle's fill color: the sampled source pixel with its alpha replaced
/// by the clamped current alpha.
pub open spec fn fill_color_spec(pix: (u8, u8, u8, u8), alpha: int) -> Color {
    Color { r: pix.0, g: pix.1, b: pix.2, a: clamp_channel_spec(alpha) as u8 }
}

/// What one cycle did to the painter, given the six random draws: the
/// source pixel `(sx, sy)`, the jitter pair `(jx, jy)`, the side count and
/// the rotation. The canvas gains the filled polygon, and the outline over
/// its closed vertex loop exactly when one was due.
pub open spec fn cycle_witness(pre: Sketch, post: Sketch, sx: int, sy: int, jx: int, jy: int,
    sides: int, rot: int) -> bool {
    &&& 0 <= sx < pre.source_width
    &&& 0 <= sy < pre.source_height
    &&& -(pre.params.stroke_jitter as int) <= jx <= pre.params.stroke_jitter as int
    &&& -(pre.params.stroke_jitter as int) <= jy <= pre.params.stroke_jitter as int
    &&& pre.params.min_edge_count <= sides <= pre.params.max_edge_count
    &&& 0 <= rot < 65536
    &&& {
        let cx = sx * pre.x_scale + jx;
        let cy = sy * pre.y_scale + jy;
        let pts = polygon_spec(cx, cy, pre.stroke_size as int, sides, rot);
        let fill = fill_color_spec(image_pix(pre.source)[(sx, sy)], pre.current_alpha as int);
        let width = canvas_width(pre.destination);
        let height = canvas_height(pre.destination);
        let after_fill = polygon_blend(canvas_pix(pre.destination), width, height, pts,
            color_view(fill));
        canvas_pix(post.destination) == if outline_due(pre) {
            segments_blend(after_fill, width, height, pts.push(pts[0]),
                color_view(edge_color_spec(fill, pre.current_alpha as int)))
        } else {
            after_fill
        }
    }
}

/// What `n` cycles did to the painter: a chain of `n` single-cycle
/// relations, each with its own six random draws, threading the painter
/// through intermediate states that keep the run's fixed data.
pub open spec fn cycles_witness(pre: Sketch, post: Sketch, n: nat) -> bool
    decreases n,
{
    if n == 0 {
        post == pre
    } else {
        exists |mid: Sketch, sx: int, sy: int, jx: int, jy: int, sides: int, rot: int|
            {
                &&& cycles_witness(pre, mid, (n - 1) as nat)
                &&& #[trigger] cycle_witness(mid, post, sx, sy, jx, jy, sides, rot)
                &&& mid.params == pre.params
                &&& mid.initial_stroke_size == pre.initial_stroke_size
            }
    }
}

impl Sketch {
    /// Everything construction establishes and every cycle preserves.
    pub open spec fn wf(self) -> bool {
        &&& self.params.wf()
        &&& self.params.config_ok()
        &&& 1 <= self.source_width <= MAX_DIM
        &&& 1 <= self.source_height <= MAX_DIM
        &&& self.source_width == image_width(self.source)
        &&& self.source_height == image_height(self.source)
        &&& canvas_width(self.destination) == self.params.destination_width
        &&& canvas_height(self.destination) == self.params.destination_height
        &&& self.x_scale == self.params.destination_width * 65536 / self.source_width as int
        &&& self.y_scale == self.params.destination_height * 65536 / self.source_height as int
        &&& self.stroke_size <= self.initial_stroke_size
        &&& self.initial_stroke_size == self.params.stroke_ratio * self.params.destination_width
        &&& self.initial_stroke_size <= 0x4000_0000
    }

    /// Build a painter over a source image: check the configuration,
    /// capture the scale factors and the initial stroke size and alpha,
    /// and allocate a fully transparent canvas of the configured size.
    /// Refused exactly when the destination is empty or the edge-count
    /// range is malformed, in that order of checks.
    pub fn new(source: SourceImage, params: UserParams) -> (r: Result<Sketch, ConfigError>)
        requires
            params.wf(),
            1 <= image_width(source) <= MAX_DIM,
            1 <= image_height(source) <= MAX_DIM,
        ensures
            r.is_ok() <==> params.config_ok(),
            r is Err ==> r->Err_0 == config_error_for(params),
            r is Ok ==> {
                let s = r->Ok_0;
                &&& s.wf()
                &&& s.params == params
                &&& s.source == source
                &&& s.stroke_size == params.stroke_ratio * params.destination_width
                &&& s.initial_stroke_size == s.stroke_size
                &&& s.current_alpha == params.initial_alpha
                &&& canvas_width(s.destination) == params.destination_width
                &&& canvas_height(s.destination) == params.destination_height
                &&& forall |x: int, y: int| 0 <= x < params.destination_width
                    && 0 <= y < params.destination_height
                    ==> #[trigger] canvas_pix(s.destination)[(x, y)] == (0u8, 0u8, 0u8, 0u8)
            },
    {
        if params.destination_width == 0 || params.destination_height == 0 {
            return Err(ConfigError::EmptyDestination);
        }
        if params.min_edge_count < 3 {
            return Err(ConfigError::EdgeCountBelowThree);
        }
        if params.min_edge_count > params.max_edge_count {
            return Err(ConfigError::EdgeCountsOutOfOrder);
        }
        let (source_width, source_height) = image_dimensions(&source);
        proof {
            assert(params.stroke_ratio * params.destination_width <= 65536 * (MAX_DIM as int))
                by (nonlinear_arith)
                requires 0 < params.stroke_ratio <= 65536,
                    params.destination_width <= MAX_DIM as int;
            assert((params.destination_width as int) * 65536 <= 0x4000_0000_0000) by (nonlinear_arith)
                requires params.destination_width <= 16384;
            assert((params.destination_height as int) * 65536 <= 0x4000_0000_0000) by (nonlinear_arith)
                requires params.destination_height <= 16384;
            lemma_div_is_ordered((params.destination_width as int) * 65536, 0x4000_0000_0000,
                source_width as int);
            lemma_div_is_ordered((params.destination_height as int) * 65536, 0x4000_0000_0000,
                source_height as int);
            lemma_div_pos_is_pos((params.destination_width as int) * 65536, source_width as int);
            lemma_div_pos_is_pos((params.destination_height as int) * 65536, source_height as int);
        }
        let stroke_size: u64 = (params.stroke_ratio as u64) * (params.destination_width as u64);
        let x_scale: u64 = (params.destination_width as u64) * 65536 / (source_width as u64);
        let y_scale: u64 = (params.destination_height as u64) * 65536 / (source_height as u64);
        let destination = new_canvas(params.destination_width, params.destination_height);
        Ok(Sketch {
            params,
            source,
            destination,
            source_width,
            source_height,
            x_scale,
            y_scale,
            stroke_size,
            initial_stroke_size: stroke_size,
            current_alpha: params.initial_alpha,
        })
    }

    /// The outline color for a cycle of fill color `color`: present exactly
    /// when the stroke has shrunk to or past the inversion threshold, then
    /// contrasting white or black with doubled, clamped alpha.
    pub fn choose_edge_color(&self, color: &Color) -> (r: Option<Color>)
        requires
            self.wf(),
        ensures
            r == if outline_due(*self) {
                Some(edge_color_spec(*color, self.current_alpha as int))
            } else {
                None::<Color>
            },
    {
        proof {
            assert(self.params.stroke_inversion_threshold * self.initial_stroke_size
                <= 65536 * 0x4000_0000) by (nonlinear_arith)
                requires self.params.stroke_inversion_threshold <= 65536,
                    0 <= self.initial_stroke_size <= 0x4000_0000;
            lemma_mul_nonnegative(self.params.stroke_inversion_threshold as int,
                self.initial_stroke_size as int);
        }
        let bound: u64 = (self.params.stroke_inversion_threshold as u64)
            * self.initial_stroke_size / 65536;
        if self.stroke_size <= bound {
            Some(edge_color(*color, self.current_alpha))
        } else {
            None
        }
    }

    /// One cycle: sample a random source pixel, stamp a polygon of its
    /// color (alpha clamped) at the scaled, jittered destination point,
    /// outline its closed loop exactly when the stroke has shrunk past the
    /// inversion threshold, then decay the stroke size and grow the alpha.
    /// Returns whether the outline was drawn.
    pub fn update<R: RandomSource>(&mut self, rng: &mut R) -> (outlined: bool)
        requires
            old(self).wf(),
        ensures
            final(self).wf(),
            outlined == outline_due(*old(self)),
            final(self).stroke_size == decay_spec(old(self).stroke_size as int,
                old(self).params.stroke_reduction as int),
            final(self).current_alpha == alpha_step_spec(old(self).current_alpha as int,
                old(self).params.alpha_increase as int),
            final(self).params == old(self).params,
            final(self).source == old(self).source,
            final(self).source_width == old(self).source_width,
            final(self).source_height == old(self).source_height,
            final(self).x_scale == old(self).x_scale,
            final(self).y_scale == old(self).y_scale,
            final(self).initial_stroke_size == old(self).initial_stroke_size,
            canvas_width(final(self).destination) == canvas_width(old(self).destination),
            canvas_height(final(self).destination) == canvas_height(old(self).destination),
            exists |sx: int, sy: int, jx: int, jy: int, sides: int, rot: int|
                cycle_witness(*old(self), *final(self), sx, sy, jx, jy, sides, rot),
    {
        let sx: u32 = rng.pick_u32(0, self.source_width - 1);
        let sy: u32 = rng.pick_u32(0, self.source_height - 1);
        let j: u64 = self.params.stroke_jitter;
        let jx: i64 = rng.pick_i64(-(j as i64), j as i64);
        let jy: i64 = rng.pick_i64(-(j as i64), j as i64);
        proof {
            lemma_fundamental_div_mod(self.params.destination_width * 65536,
                self.source_width as int);
            lemma_mod_bound(self.params.destination_width * 65536, self.source_width as int);
            lemma_fundamental_div_mod(self.params.destination_height * 65536,
                self.source_height as int);
            lemma_mod_bound(self.params.destination_height * 65536, self.source_height as int);
            assert((self.params.destination_width as int) * 65536 <= 0x4000_0000)
                by (nonlinear_arith)
                requires self.params.destination_width <= 16384;
            assert((self.params.destination_height as int) * 65536 <= 0x4000_0000)
                by (nonlinear_arith)
                requires self.params.destination_height <= 16384;
            lemma_mul_inequality(sx as int, self.source_width as int, self.x_scale as int);
            lemma_mul_inequality(sy as int, self.source_height as int, self.y_scale as int);
            lemma_mul_nonnegative(sx as int, self.x_scale as int);
            lemma_mul_nonnegative(sy as int, self.y_scale as int);
        }
        let cx: i64 = (sx as i64) * (self.x_scale as i64) + jx;
        let cy: i64 = (sy as i64) * (self.y_scale as i64) + jy;
        let sides: u32 = rng.pick_u32(self.params.min_edge_count, self.params.max_edge_count);
        let rot: u32 = rng.pick_u32(0, 65535);
        let sampled: Color = image_pixel(&self.source, sx, sy);
        let fill = Color {
            r: sampled.r,
            g: sampled.g,
            b: sampled.b,
            a: clamp_channel(self.current_alpha),
        };
        let pts: Vec<PixelPoint> = regular_polygon_points(cx, cy, self.stroke_size, sides, rot);
        let ghost pts_spec = polygon_spec(cx as int, cy as int, self.stroke_size as int,
            sides as int, rot as int);
        proof {
            crate::geometry::lemma_polygon_drawable(cx as int, cy as int,
                self.stroke_size as int, sides as int, rot as int);
            assert(points_view(pts@).len() == pts@.len());
            assert(pts_spec.len() >= 2);
            assert(point_view(pts@[0]) == pts_spec[0]);
            assert(point_view(pts@[pts@.len() - 1]) == pts_spec[pts_spec.len() - 1]);
        }
        fill_polygon(&mut self.destination, &pts, fill);
        let edge: Option<Color> = self.choose_edge_color(&fill);
        let outlined: bool;
        match edge {
            Some(ec) => {
                let mut closed: Vec<PixelPoint> = pts;
                let first: PixelPoint = closed[0];
                closed.push(first);
                proof {
                    assert(points_view(closed@) =~= pts_spec.push(pts_spec[0]));
                }
                draw_hollow_polygon_mut(&mut self.destination, &closed, ec);
                outlined = true;
            },
            None => {
                outlined = false;
            },
        }
        proof {
            assert(self.params.stroke_reduction * self.stroke_size <= 65536 * 0x4000_0000)
                by (nonlinear_arith)
                requires 0 <= self.params.stroke_reduction <= 65536,
                    0 <= self.stroke_size <= 0x4000_0000;
            lemma_mul_nonnegative(self.params.stroke_reduction as int, self.stroke_size as int);
            lemma_mul_inequality(self.params.stroke_reduction as int, 65536,
                self.stroke_size as int);
            lemma_div_is_ordered(self.params.stroke_reduction * self.stroke_size,
                65536 * self.stroke_size, 65536);
            lemma_div_by_multiple(self.stroke_size as int, 65536);
            lemma_div_pos_is_pos(self.params.stroke_reduction * self.stroke_size, 65536);
            assert(65536 * self.stroke_size == self.stroke_size * 65536) by (nonlinear_arith);
        }
        let dec: u64 = (self.params.stroke_reduction as u64) * self.stroke_size / 65536;
        self.stroke_size = self.stroke_size - dec;
        let inc: u64 = self.params.alpha_increase;
        if self.current_alpha <= u64::MAX - inc {
            self.current_alpha = self.current_alpha + inc;
        } else {
            self.current_alpha = u64::MAX;
        }
        proof {
            assert(cycle_witness(*old(self), *self, sx as int, sy as int, jx as int, jy as int,
                sides as int, rot as int));
        }
        outlined
    }

    /// Run `number_of_cycles` cycles in strict sequence. With zero cycles
    /// the painter, its canvas included, is left exactly as constructed.
    pub fn run_cycles<R: RandomSource>(&mut self, number_of_cycles: usize, rng: &mut R)
        requires
            old(self).wf(),
        ensures
            final(self).wf(),
            final(self).stroke_size == decay_n(old(self).stroke_size as int,
                old(self).params.stroke_reduction as int, number_of_cycles as nat),
            final(self).current_alpha == alpha_n(old(self).current_alpha as int,
                old(self).params.alpha_increase as int, number_of_cycles as nat),
            final(self).params == old(self).params,
            final(self).source == old(self).source,
            final(self).initial_stroke_size == old(self).initial_stroke_size,
            final(self).x_scale == old(self).x_scale,
            final(self).y_scale == old(self).y_scale,
            canvas_width(final(self).destination) == canvas_width(old(self).destination),
            canvas_height(final(self).destination) == canvas_height(old(self).destination),
            cycles_witness(*old(self), *final(self), number_of_cycles as nat),
            number_of_cycles == 0 ==> *final(self) == *old(self),
    {
        let mut i: usize = 0;
        while i < number_of_cycles
            invariant
                self.wf(),
                i <= number_of_cycles,
                self.stroke_size == decay_n(old(self).stroke_size as int,
                    old(self).params.stroke_reduction as int, i as nat),
                self.current_alpha == alpha_n(old(self).current_alpha as int,
                    old(self).params.alpha_increase as int, i as nat),
                self.params == old(self).params,
                self.source == old(self).source,
                self.initial_stroke_size == old(self).initial_stroke_size,
                self.x_scale == old(self).x_scale,
                self.y_scale == old(self).y_scale,
                canvas_width(self.destination) == canvas_width(old(self).destination),
                canvas_height(self.destination) == canvas_height(old(self).destination),
                cycles_witness(*old(self), *self, i as nat),
                i == 0 ==> *self == *old(self),
            decreases number_of_cycles - i,
        {
            let ghost before = *self;
            let _ = self.update(rng);
            proof {
                let (sx, sy, jx, jy, sides, rot) = choose |sx: int, sy: int, jx: int, jy: int,
                    sides: int, rot: int| cycle_witness(before, *self, sx, sy, jx, jy, sides,
                    rot);
                assert(cycle_witness(before, *self, sx, sy, jx, jy, sides, rot));
                assert(cycles_witness(*old(self), *self, (i + 1) as nat));
            }
            i = i + 1;
        }
    }

    /// Hand the accumulated canvas out, consuming the painter: no further
    /// cycle can run on it afterwards.
    pub fn output(self) -> (r: Canvas)
        ensures
            r == self.destination,
    {
        self.destination
    }
}

/// Which error `Sketch::new` reports for a bad configuration: an empty
/// destination outranks a too-small edge count, which outranks a reversed
/// edge-count range.
pub open spec fn config_error_for(params: UserParams) -> ConfigError {
    if params.destination_width == 0 || params.destination_height == 0 {
        ConfigError::EmptyDestination
    } else if params.min_edge_count < 3 {
        ConfigError::EdgeCountBelowThree
    } else {
        ConfigError::EdgeCountsOutOfOrder
    }
}

/// Law: one decay step never grows the stroke size nor drives it negative,
/// and strictly shrinks it whenever the reduction's share of the size
/// amounts to at least one whole fixed-point unit.
pub proof fn lemma_stroke_decay_monotone(size: int, reduction: int)
    requires
        0 <= size,
        0 <= reduction < 65536,
    ensures
        decay_spec(size, reduction) <= size,
        0 <= decay_spec(size, reduction),
        reduction * size >= 65536 ==> decay_spec(size, reduction) < size,
{
    lemma_mul_nonnegative(reduction, size);
    lemma_div_pos_is_pos(reduction * size, 65536);
    lemma_mul_inequality(reduction, 65536, size);
    lemma_div_is_ordered(reduction * size, 65536 * size, 65536);
    lemma_div_by_multiple(size, 65536);
    assert(65536 * size == size * 65536) by (nonlinear_arith);
    if reduction * size >= 65536 {
        lemma_div_is_ordered(65536, reduction * size, 65536);
    }
}

/// Law: across cycles the stroke size never increases and never turns
/// negative, and the alpha never decreases nor exceeds its integer cap.
pub proof fn lemma_cycle_monotone(size: int, reduction: int, alpha: int, inc: int, n: nat)
    requires
        0 <= size,
        0 <= reduction < 65536,
        0 <= alpha <= u64::MAX,
        0 <= inc,
    ensures
        decay_n(size, reduction, n + 1) <= decay_n(size, reduction, n),
        0 <= decay_n(size, reduction, n) <= size,
        alpha_n(alpha, inc, n) <= alpha_n(alpha, inc, n + 1),
        alpha <= alpha_n(alpha, inc, n) <= u64::MAX,
    decreases n,
{
    if n == 0 {
        lemma_stroke_decay_monotone(size, reduction);
    } else {
        lemma_cycle_monotone(size, reduction, alpha, inc, (n - 1) as nat);
        lemma_stroke_decay_monotone(decay_n(size, reduction, (n - 1) as nat), reduction);
        lemma_stroke_decay_monotone(decay_n(size, reduction, n), reduction);
    }
}

/// Law: across a whole run, once the stroke size has decayed to or past a
/// fixed bound it stays there for every later cycle: the decayed sizes
/// form a non-increasing chain against the standing threshold share.
pub proof fn lemma_outline_suffix(size: int, reduction: int, bound: int, n: nat, m: nat)
    requires
        0 <= size,
        0 <= reduction < 65536,
        n <= m,
        decay_n(size, reduction, n) <= bound,
    ensures
        decay_n(size, reduction, m) <= bound,
    decreases m,
{
    if m > n {
        lemma_outline_suffix(size, reduction, bound, n, (m - 1) as nat);
        lemma_cycle_monotone(size, reduction, 0, 0, (m - 1) as nat);
    }
}

/// Law: the outline condition is monotone. Once a cycle owes an outline,
/// the next cycle owes one too: the stroke only shrinks while the
/// threshold and the initial stroke size stand still.
pub proof fn lemma_outline_monotone(pre: Sketch, post: Sketch)
    requires
        pre.params.stroke_reduction < 65536,
        outline_due(pre),
        post.stroke_size == decay_spec(pre.stroke_size as int,
            pre.params.stroke_reduction as int),
        post.params == pre.params,
        post.initial_stroke_size == pre.initial_stroke_size,
    ensures
        outline_due(post),
{
    lemma_stroke_decay_monotone(pre.stroke_size as int, pre.params.stroke_reduction as int);
}

} // verus!
