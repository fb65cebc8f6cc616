//! The pixel buffers: the source image and the blending canvas hold RGBA
//! buffers of the `image` crate (the canvas wrapped in `imageproc`'s
//! blending adapter). Verus cannot declare those generic buffer types, so
//! each lives inside an opaque struct here, seen by verified code only
//! through named views and a small set of trusted wrappers. Drawing goes
//! through `imageproc`'s blending polygon fill; outlines are drawn segment
//! by segment as degenerate two-point polygons.

use vstd::prelude::*;
use crate::color::Color;
use crate::fixed::MAX_DIM;
use crate::geometry::{point_view, points_in_range, points_view, PixelPoint};

verus! {

/// The immutable source image the painter samples from. The raw buffer is
/// reachable for unverified callers that decode or inspect files.
#[verifier::external_body]
pub struct SourceImage {
    pub buf: image::RgbaImage,
}

/// The destination canvas the painter composites onto: an RGBA buffer
/// behind `imageproc`'s alpha-blending adapter. The raw buffer is
/// reachable for unverified callers that encode or inspect the result.
#[verifier::external_body]
pub struct Canvas {
    pub buf: imageproc::drawing::Blend<image::RgbaImage>,
}

/// A color as a plain tuple of its four channels.
pub open spec fn color_view(c: Color) -> (u8, u8, u8, u8) {
    (c.r, c.g, c.b, c.a)
}

/// The width of a source image, in pixels.
pub uninterp spec fn image_width(img: SourceImage) -> nat;

/// The height of a source image, in pixels.
pub uninterp spec fn image_height(img: SourceImage) -> nat;

/// What a source image holds at each in-range pixel coordinate.
pub uninterp spec fn image_pix(img: SourceImage) -> Map<(int, int), (u8, u8, u8, u8)>;

/// The width of a canvas, in pixels.
pub uninterp spec fn canvas_width(c: Canvas) -> nat;

/// The height of a canvas, in pixels.
pub uninterp spec fn canvas_height(c: Canvas) -> nat;

/// What a canvas holds at each in-range pixel coordinate.
pub uninterp spec fn canvas_pix(c: Canvas) -> Map<(int, int), (u8, u8, u8, u8)>;

/// What `imageproc`'s blending polygon fill leaves on a canvas of the
/// given size: the old contents with the pixels covered by the polygon
/// over `pts` (an open vertex path, clipped to `width` by `height`)
/// alpha-blended with the color.
pub uninterp spec fn polygon_blend(pix: Map<(int, int), (u8, u8, u8, u8)>, width: nat,
    height: nat, pts: Seq<(int, int)>, color: (u8, u8, u8, u8))
    -> Map<(int, int), (u8, u8, u8, u8)>;

/// Relies on image::RgbaImage::new, which zeroes every pixel, wrapped in
/// imageproc's blending adapter: a fresh, fully transparent canvas.
#[verifier::external_body]
pub(crate) fn new_canvas(width: u32, height: u32) -> (r: Canvas)
    requires
        width <= MAX_DIM,
        height <= MAX_DIM,
    ensures
        canvas_width(r) == width,
        canvas_height(r) == height,
        forall |x: int, y: int| 0 <= x < width && 0 <= y < height
            ==> #[trigger] canvas_pix(r)[(x, y)] == (0u8, 0u8, 0u8, 0u8),
{
    Canvas { buf: imageproc::drawing::Blend(image::RgbaImage::new(width, height)) }
}

/// Relies on image::ImageBuffer::dimensions: the buffer's width and height.
#[verifier::external_body]
pub(crate) fn image_dimensions(img: &SourceImage) -> (r: (u32, u32))
    ensures
        r.0 == image_width(*img),
        r.1 == image_height(*img),
{
    img.buf.dimensions()
}

/// Relies on image::ImageBuffer::get_pixel: the four channels at an
/// in-range coordinate (out of range it panics, so the bounds are owed).
#[verifier::external_body]
pub(crate) fn image_pixel(img: &SourceImage, x: u32, y: u32) -> (r: Color)
    requires
        x < image_width(*img),
        y < image_height(*img),
    ensures
        color_view(r) == image_pix(*img)[(x as int, y as int)],
{
    let p = img.buf.get_pixel(x, y);
    Color { r: p.0[0], g: p.0[1], b: p.0[2], a: p.0[3] }
}

/// Whether a row lies strictly outside the vertical range of a vertex
/// list: every vertex sits strictly below it, or every one strictly above.
pub open spec fn row_outside(pts: Seq<(int, int)>, y: int) -> bool {
    ||| forall |i: int| 0 <= i < pts.len() ==> y < (#[trigger] pts[i]).1
    ||| forall |i: int| 0 <= i < pts.len() ==> y > (#[trigger] pts[i]).1
}

/// Relies on imageproc::drawing::draw_polygon_mut: alpha-blends the filled
/// polygon over the open vertex path `pts` onto the canvas, clipped to the
/// canvas bounds, leaving the dimensions unchanged. Its scanline writes
/// only rows that some polygon edge spans, so rows outside the vertices'
/// vertical range keep their value. It panics on a closed path, so the
/// path's ends must differ; its scanline clamp still visits row zero of a
/// zero-height canvas and its interpolation subtracts raw coordinates, so
/// the canvas must be nonempty and the coordinates must leave headroom.
#[verifier::external_body]
pub(crate) fn fill_polygon(canvas: &mut Canvas, pts: &Vec<PixelPoint>, color: Color)
    requires
        canvas_width(*old(canvas)) >= 1,
        canvas_height(*old(canvas)) >= 1,
        pts@.len() >= 2,
        point_view(pts@[0]) != point_view(pts@[pts@.len() - 1]),
        points_in_range(pts@),
    ensures
        canvas_width(*final(canvas)) == canvas_width(*old(canvas)),
        canvas_height(*final(canvas)) == canvas_height(*old(canvas)),
        canvas_pix(*final(canvas)) == polygon_blend(canvas_pix(*old(canvas)),
            canvas_width(*old(canvas)), canvas_height(*old(canvas)), points_view(pts@),
            color_view(color)),
        forall |x: int, y: int| row_outside(points_view(pts@), y)
            ==> #[trigger] canvas_pix(*final(canvas))[(x, y)]
                == canvas_pix(*old(canvas))[(x, y)],
{
    let poly: Vec<imageproc::point::Point<i32>> = pts.iter().map(
        |p: &PixelPoint| imageproc::point::Point::new(p.x, p.y)).collect();
    imageproc::drawing::draw_polygon_mut(&mut canvas.buf, &poly, image::Rgba([color.r, color.g,
        color.b, color.a]));
}

/// The contents of a canvas of the given size after blending the outline
/// along the consecutive pairs of `pts`, in order, each pair as a
/// two-point polygon, zero-length segments skipped.
pub open spec fn segments_blend(pix: Map<(int, int), (u8, u8, u8, u8)>, width: nat, height: nat,
    pts: Seq<(int, int)>, color: (u8, u8, u8, u8)) -> Map<(int, int), (u8, u8, u8, u8)>
    decreases pts.len(),
{
    if pts.len() < 2 {
        pix
    } else {
        let prev = segments_blend(pix, width, height, pts.drop_last(), color);
        if pts[pts.len() - 2] == pts[pts.len() - 1] {
            prev
        } else {
            polygon_blend(prev, width, height, seq![pts[pts.len() - 2], pts[pts.len() - 1]],
                color)
        }
    }
}

/// Blend an outline along each consecutive pair of `pts` onto the canvas,
/// in order. Each pair is composited as a degenerate two-point polygon of
/// the blending fill, not as a single line blend: the scanline pass and
/// the two edge plots lay a segment's pixels down up to three times each,
/// so outline pixels come out more opaque than one line blend would leave
/// them. (A single line blend is out of reach here: this crate holds no
/// floating point, and imageproc's line functions take floating-point
/// endpoints.) Pairs of equal points are skipped entirely, where a single
/// line blend would touch that one pixel once. A closed shape is drawn by
/// passing a vertex list whose last point repeats its first; anything
/// outside the canvas bounds is clipped.
pub fn draw_hollow_polygon_mut(canvas: &mut Canvas, pts: &Vec<PixelPoint>, color: Color)
    requires
        canvas_width(*old(canvas)) >= 1,
        canvas_height(*old(canvas)) >= 1,
        points_in_range(pts@),
    ensures
        canvas_width(*final(canvas)) == canvas_width(*old(canvas)),
        canvas_height(*final(canvas)) == canvas_height(*old(canvas)),
        canvas_pix(*final(canvas)) == segments_blend(canvas_pix(*old(canvas)),
            canvas_width(*old(canvas)), canvas_height(*old(canvas)), points_view(pts@),
            color_view(color)),
{
    let ghost pix0 = canvas_pix(*canvas);
    let n: usize = pts.len();
    if n < 2 {
        return;
    }
    let mut i: usize = 0;
    while i < n - 1
        invariant
            2 <= n == pts@.len(),
            i <= n - 1,
            points_in_range(pts@),
            canvas_width(*old(canvas)) >= 1,
            canvas_height(*old(canvas)) >= 1,
            canvas_width(*canvas) == canvas_width(*old(canvas)),
            canvas_height(*canvas) == canvas_height(*old(canvas)),
            pix0 == canvas_pix(*old(canvas)),
            canvas_pix(*canvas) == segments_blend(pix0, canvas_width(*old(canvas)),
                canvas_height(*old(canvas)), points_view(pts@).take(i + 1), color_view(color)),
        decreases n - i,
    {
        let p: PixelPoint = pts[i];
        let q: PixelPoint = pts[i + 1];
        proof {
            assert(points_view(pts@).take(i + 2).drop_last() =~= points_view(pts@).take(i + 1));
        }
        if p.x != q.x || p.y != q.y {
            let mut seg: Vec<PixelPoint> = Vec::new();
            seg.push(p);
            seg.push(q);
            proof {
                assert(p == pts@[i as int] && q == pts@[i + 1]);
                assert(forall |j: int| 0 <= j < seg@.len()
                    ==> #[trigger] seg@[j] == pts@[i + j]);
            }
            fill_polygon(canvas, &seg, color);
            proof {
                assert(points_view(seg@) =~= seq![point_view(p), point_view(q)]);
            }
        }
        i = i + 1;
    }
    proof {
        assert(points_view(pts@).take(n as int) =~= points_view(pts@));
    }
}

} // verus!
