//! Proportional resizing, placement of two images on one canvas, and the
//! final scale to a requested width.

use vstd::prelude::*;
use vstd::arithmetic::div_mod::{lemma_fundamental_div_mod, lemma_mod_pos_bound};
use vstd::math::min;
use crate::bitmap::{Bitmap, blank_pixel, pixel_of};

verus! {

#[verifier::external_type_specification]
#[verifier::external_body]
pub struct ExImageError(image::ImageError);

/// Why two images could not be placed on one canvas.
#[derive(Clone, Copy, Debug, PartialEq, Eq, Structural)]
pub enum ComposeError {
    /// One of the images has no pixels.
    EmptyImage,
    /// The result would not fit in 32-bit dimensions or in memory.
    TooLarge,
}

pub open spec fn max1(v: int) -> int {
    if v < 1 { 1 } else { v }
}

/// `a / b` rounded to the nearest integer, halves upwards.
pub open spec fn round_div(a: int, b: int) -> int {
    (2 * a + b) / (2 * b)
}

/// The largest size with the aspect ratio of `w` by `h` that fits in `bw` by
/// `bh`, each side rounded to the nearest integer and at least 1.
pub open spec fn fit_within(w: int, h: int, bw: int, bh: int) -> (int, int) {
    if bw * h <= bh * w {
        (max1(bw), max1(round_div(h * bw, w)))
    } else {
        (max1(round_div(w * bh, h)), max1(bh))
    }
}

/// Resampled samples of an image of `w` by `h` pixels at `nw` by `nh` pixels,
/// with the Lanczos filter of radius 3.
pub uninterp spec fn lanczos3_resample(data: Seq<u8>, w: u32, h: u32, nw: u32, nh: u32) -> Seq<u8>;

/// The samples of `img` resized to `nw` by `nh`: the image itself where the
/// size does not change.
pub open spec fn resampled(img: Bitmap, nw: int, nh: int) -> Seq<u8> {
    if nw == img.width && nh == img.height {
        img.data@
    } else {
        lanczos3_resample(img.data@, img.width, img.height, nw as u32, nh as u32)
    }
}

/// The side that both images share once fitted: the smaller width when
/// stacking vertically, the smaller height otherwise.
pub open spec fn common_edge(img1: Bitmap, img2: Bitmap, vertical: bool) -> int {
    if vertical {
        if img1.width <= img2.width { img1.width as int } else { img2.width as int }
    } else {
        if img1.height <= img2.height { img1.height as int } else { img2.height as int }
    }
}

/// The size of `img` fitted to the shared side `edge`.
pub open spec fn fitted(img: Bitmap, edge: int, vertical: bool) -> (int, int) {
    if vertical {
        fit_within(img.width as int, img.height as int, edge, img.height as int)
    } else {
        fit_within(img.width as int, img.height as int, img.width as int, edge)
    }
}

/// Where the second image starts on the canvas.
pub open spec fn second_offset(img1: Bitmap, img2: Bitmap, vertical: bool, margin: int) -> (int, int) {
    let (w1, h1) = fitted(img1, common_edge(img1, img2, vertical), vertical);
    if vertical { (0, h1 + margin) } else { (w1 + margin, 0) }
}

/// The size of the canvas that holds both fitted images and the margin.
pub open spec fn canvas_size(img1: Bitmap, img2: Bitmap, vertical: bool, margin: int) -> (int, int) {
    let e = common_edge(img1, img2, vertical);
    let (w1, h1) = fitted(img1, e, vertical);
    let (w2, h2) = fitted(img2, e, vertical);
    if vertical { (e, h1 + h2 + margin) } else { (w1 + w2 + margin, e) }
}

/// What the composed canvas shows at `(x, y)`: the first fitted image, the
/// second at its offset, and the blank canvas elsewhere.
pub open spec fn composed_pixel(
    img1: Bitmap,
    img2: Bitmap,
    vertical: bool,
    margin: int,
    x: int,
    y: int,
) -> Seq<u8> {
    let e = common_edge(img1, img2, vertical);
    let (w1, h1) = fitted(img1, e, vertical);
    let (w2, h2) = fitted(img2, e, vertical);
    let (ox, oy) = second_offset(img1, img2, vertical, margin);
    if x < w1 && y < h1 {
        pixel_of(resampled(img1, w1, h1), w1, x, y)
    } else if ox <= x < ox + w2 && oy <= y < oy + h2 {
        pixel_of(resampled(img2, w2, h2), w2, x - ox, y - oy)
    } else {
        blank_pixel(img1.alpha)
    }
}

/// Bounds on `round_div`: twice the quotient times `b` is within `b` of `2 * a`.
proof fn lemma_round_div_bounds(a: int, b: int)
    requires
        a >= 0,
        b >= 1,
    ensures
        2 * a - b < 2 * b * round_div(a, b) <= 2 * a + b,
        round_div(a, b) >= 0,
{
    let n = 2 * a + b;
    let d = 2 * b;
    lemma_fundamental_div_mod(n, d);
    lemma_mod_pos_bound(n, d);
    let q = n / d;
    assert(q >= 0) by (nonlinear_arith)
        requires
            n == d * q + n % d,
            0 <= n % d < d,
            n >= 0,
            d > 0,
    ;
}

/// `round_div(a, b)` stays at or below `c` where `a <= c * b`.
proof fn lemma_round_div_at_most(a: int, b: int, c: int)
    requires
        a >= 0,
        b >= 1,
        a <= c * b,
    ensures
        round_div(a, b) <= c,
{
    lemma_round_div_bounds(a, b);
    let q = round_div(a, b);
    assert(q <= c) by (nonlinear_arith)
        requires
            2 * b * q <= 2 * a + b,
            a <= c * b,
            b >= 1,
    ;
}

/// Rounding an exact quotient gives the quotient.
proof fn lemma_round_div_exact(c: int, b: int)
    requires
        c >= 0,
        b >= 1,
    ensures
        round_div(c * b, b) == c,
{
    assert(c * b >= 0) by (nonlinear_arith)
        requires
            c >= 0,
            b >= 1,
    ;
    lemma_round_div_bounds(c * b, b);
    lemma_round_div_at_most(c * b, b, c);
    let q = round_div(c * b, b);
    assert(q >= c) by (nonlinear_arith)
        requires
            2 * (c * b) - b < 2 * b * q,
            b >= 1,
    ;
}

/// The fitted size never exceeds the box, whose sides are at least 1.
proof fn lemma_fit_within_box(w: int, h: int, bw: int, bh: int)
    requires
        w >= 1,
        h >= 1,
        bw >= 1,
        bh >= 1,
    ensures
        1 <= fit_within(w, h, bw, bh).0 <= bw,
        1 <= fit_within(w, h, bw, bh).1 <= bh,
{
    assert(h * bw >= 0 && w * bh >= 0) by (nonlinear_arith)
        requires
            w >= 1,
            h >= 1,
            bw >= 1,
            bh >= 1,
    ;
    if bw * h <= bh * w {
        assert(h * bw <= bh * w) by (nonlinear_arith)
            requires
                bw * h <= bh * w,
        ;
        lemma_round_div_at_most(h * bw, w, bh);
    } else {
        assert(w * bh <= bw * h) by (nonlinear_arith)
            requires
                bw * h > bh * w,
        ;
        lemma_round_div_at_most(w * bh, h, bw);
    }
}

/// Fitting to a shared side no longer than the image's own keeps that side
/// exactly.
proof fn lemma_fitted_edge(img: Bitmap, edge: int, vertical: bool)
    requires
        img.width >= 1,
        img.height >= 1,
        1 <= edge,
        vertical ==> edge <= img.width,
        !vertical ==> edge <= img.height,
    ensures
        vertical ==> fitted(img, edge, vertical).0 == edge,
        !vertical ==> fitted(img, edge, vertical).1 == edge,
        1 <= fitted(img, edge, vertical).0 <= img.width,
        1 <= fitted(img, edge, vertical).1 <= img.height,
{
    let w = img.width as int;
    let h = img.height as int;
    if vertical {
        lemma_fit_within_box(w, h, edge, h);
        assert(edge * h <= h * w) by (nonlinear_arith)
            requires
                edge <= w,
                h >= 1,
        ;
    } else {
        lemma_fit_within_box(w, h, w, edge);
        if w * h <= edge * w {
            assert(h <= edge) by (nonlinear_arith)
                requires
                    w * h <= edge * w,
                    w >= 1,
            ;
            assert(h * w == edge * w);
            lemma_round_div_exact(edge, w);
        }
    }
}

/// The size that `fit_within` gives, for an image with sides of at least 1.
pub fn fit_dimensions(w: u32, h: u32, bw: u32, bh: u32) -> (r: (u32, u32))
    requires
        w >= 1,
        h >= 1,
    ensures
        r.0 as int == fit_within(w as int, h as int, bw as int, bh as int).0,
        r.1 as int == fit_within(w as int, h as int, bw as int, bh as int).1,
{
    let w2: u128 = w as u128;
    let h2: u128 = h as u128;
    let bw2: u128 = bw as u128;
    let bh2: u128 = bh as u128;
    proof {
        assert(0 <= bw * h <= 0xFFFF_FFFF * 0xFFFF_FFFF && 0 <= bh * w <= 0xFFFF_FFFF
            * 0xFFFF_FFFF) by (nonlinear_arith)
            requires
                bw <= 0xFFFF_FFFF,
                bh <= 0xFFFF_FFFF,
                w <= 0xFFFF_FFFF,
                h <= 0xFFFF_FFFF,
        ;
    }
    if bw2 * h2 <= bh2 * w2 {
        let q = (2 * (h2 * bw2) + w2) / (2 * w2);
        proof {
            assert(h * bw <= bh * w) by (nonlinear_arith)
                requires
                    bw * h <= bh * w,
            ;
            lemma_round_div_at_most(h * bw, w as int, bh as int);
            lemma_round_div_bounds(h * bw, w as int);
        }
        let nw: u32 = if bw < 1 { 1 } else { bw };
        let nh: u32 = if q < 1 { 1 } else { q as u32 };
        (nw, nh)
    } else {
        let q = (2 * (w2 * bh2) + h2) / (2 * h2);
        proof {
            assert(w * bh <= bw * h) by (nonlinear_arith)
                requires
                    bw * h > bh * w,
            ;
            lemma_round_div_at_most(w * bh, h as int, bw as int);
            lemma_round_div_bounds(w * bh, h as int);
        }
        let nw: u32 = if q < 1 { 1 } else { q as u32 };
        let nh: u32 = if bh < 1 { 1 } else { bh };
        (nw, nh)
    }
}

/// Relies on `image::imageops::resize` with `FilterType::Lanczos3` on an RGBA
/// buffer: the result has the requested size, and where that size is the
/// source's own it is a copy of the source.
#[verifier::external_body]
fn resize_exact(img: &Bitmap, nw: u32, nh: u32) -> (r: Bitmap)
    requires
        img.wf(),
        img.width >= 1,
        img.height >= 1,
        nw >= 1,
        nh >= 1,
        nw as int * nh as int * 4 <= usize::MAX,
    ensures
        r.wf(),
        r.width == nw,
        r.height == nh,
        r.alpha == img.alpha,
        nw == img.width && nh == img.height ==> r.data@ == img.data@,
        !(nw == img.width && nh == img.height) ==> r.data@ == lanczos3_resample(
            img.data@,
            img.width,
            img.height,
            nw,
            nh,
        ),
{
    let src = image::RgbaImage::from_raw(img.width, img.height, img.data.clone()).unwrap();
    let out = image::imageops::resize(&src, nw, nh, image::imageops::FilterType::Lanczos3);
    Bitmap { width: out.width(), height: out.height(), alpha: img.alpha, data: out.into_raw() }
}

/// Relies on `image::GenericImage::copy_from` on RGBA buffers: the source's
/// pixels replace those of the canvas from `(x, y)` on, and the rest stays;
/// it succeeds where the source fits inside the canvas at that place.
#[verifier::external_body]
fn copy_from(canvas: &mut Bitmap, src: &Bitmap, x: u32, y: u32) -> (r: Result<(), image::ImageError>)
    requires
        old(canvas).wf(),
        src.wf(),
        src.width + x <= old(canvas).width,
        src.height + y <= old(canvas).height,
    ensures
        r is Ok,
        final(canvas).wf(),
        final(canvas).width == old(canvas).width,
        final(canvas).height == old(canvas).height,
        final(canvas).alpha == old(canvas).alpha,
        forall|px: int, py: int|
            final(canvas).in_bounds(px, py) ==> #[trigger] final(canvas).pixel(px, py) == if x
                <= px < x + src.width && y <= py < y + src.height {
                src.pixel(px - x, py - y)
            } else {
                old(canvas).pixel(px, py)
            },
{
    let mut buf = image::RgbaImage::from_raw(canvas.width, canvas.height, std::mem::take(&mut canvas.data)).unwrap();
    let part = image::RgbaImage::from_raw(src.width, src.height, src.data.clone()).unwrap();
    let placed = image::GenericImage::copy_from(&mut buf, &part, x, y);
    canvas.data = buf.into_raw();
    placed
}

proof fn lemma_product_le(a: int, b: int, c: int, d: int)
    requires
        0 <= a <= c,
        0 <= b <= d,
    ensures
        a * b <= c * d,
{
    assert(a * b <= c * d) by (nonlinear_arith)
        requires
            0 <= a <= c,
            0 <= b <= d,
    ;
}

/// Places two images on one canvas. Both are first resized, keeping their
/// aspect ratio, to the smaller of their widths (`vertical`) or heights (side
/// by side); the second follows the first after `margin` blank pixels. The
/// canvas takes the color mode of the first image.
pub fn compose(img1: &Bitmap, img2: &Bitmap, vertical: bool, margin: u32) -> (r: Result<Bitmap, ComposeError>)
    requires
        img1.wf(),
        img2.wf(),
    ensures
        (img1.width == 0 || img1.height == 0 || img2.width == 0 || img2.height == 0) <==> r
            == Err::<Bitmap, ComposeError>(ComposeError::EmptyImage),
        r == Err::<Bitmap, ComposeError>(ComposeError::TooLarge) <==> (!(img1.width == 0
            || img1.height == 0 || img2.width == 0 || img2.height == 0) && ({
            let (cw, ch) = canvas_size(*img1, *img2, vertical, margin as int);
            cw > u32::MAX || ch > u32::MAX || cw * ch * 4 > usize::MAX
        })),
        r is Ok ==> {
            let c = r->Ok_0;
            &&& c.wf()
            &&& (c.width as int, c.height as int) == canvas_size(*img1, *img2, vertical, margin as int)
            &&& c.alpha == img1.alpha
            &&& forall|x: int, y: int|
                c.in_bounds(x, y) ==> #[trigger] c.pixel(x, y) == composed_pixel(
                    *img1,
                    *img2,
                    vertical,
                    margin as int,
                    x,
                    y,
                )
        },
{
    if img1.width == 0 || img1.height == 0 || img2.width == 0 || img2.height == 0 {
        return Err(ComposeError::EmptyImage);
    }
    let edge: u32 = if vertical {
        if img1.width <= img2.width { img1.width } else { img2.width }
    } else {
        if img1.height <= img2.height { img1.height } else { img2.height }
    };
    let (aw, ah) = if vertical {
        fit_dimensions(img1.width, img1.height, edge, img1.height)
    } else {
        fit_dimensions(img1.width, img1.height, img1.width, edge)
    };
    let (bw, bh) = if vertical {
        fit_dimensions(img2.width, img2.height, edge, img2.height)
    } else {
        fit_dimensions(img2.width, img2.height, img2.width, edge)
    };
    proof {
        lemma_fitted_edge(*img1, edge as int, vertical);
        lemma_fitted_edge(*img2, edge as int, vertical);
    }
    let cw: u64 = if vertical { edge as u64 } else { aw as u64 + bw as u64 + margin as u64 };
    let ch: u64 = if vertical { ah as u64 + bh as u64 + margin as u64 } else { edge as u64 };
    if cw > u32::MAX as u64 || ch > u32::MAX as u64 {
        return Err(ComposeError::TooLarge);
    }
    let (ox, oy): (u32, u32) = if vertical { (0, ah + margin) } else { (aw + margin, 0) };
    let mut canvas = match Bitmap::blank(cw as u32, ch as u32, img1.alpha) {
        Some(c) => c,
        None => return Err(ComposeError::TooLarge),
    };
    proof {
        lemma_product_le(aw as int, ah as int, cw as int, ch as int);
        lemma_product_le(bw as int, bh as int, cw as int, ch as int);
    }
    let a = resize_exact(img1, aw, ah);
    let b = resize_exact(img2, bw, bh);
    let ghost empty = canvas;
    let _ = copy_from(&mut canvas, &a, 0, 0);
    let ghost first = canvas;
    let _ = copy_from(&mut canvas, &b, ox, oy);
    assert forall|x: int, y: int| canvas.in_bounds(x, y) implies #[trigger] canvas.pixel(x, y)
        == composed_pixel(*img1, *img2, vertical, margin as int, x, y) by {
        assert(first.in_bounds(x, y));
        assert(empty.in_bounds(x, y));
    }
    Ok(canvas)
}

/// Resizes an image to `width` pixels across, its height following from its
/// aspect ratio (the height bound is the largest 32-bit value).
pub fn scale_to_width(img: &Bitmap, width: u32) -> (r: Result<Bitmap, ComposeError>)
    requires
        img.wf(),
    ensures
        (img.width == 0 || img.height == 0) <==> r == Err::<Bitmap, ComposeError>(
            ComposeError::EmptyImage,
        ),
        r == Err::<Bitmap, ComposeError>(ComposeError::TooLarge) <==> (!(img.width == 0
            || img.height == 0) && ({
            let (nw, nh) = fit_within(img.width as int, img.height as int, width as int, u32::MAX as int);
            nw * nh * 4 > usize::MAX
        })),
        r is Ok ==> {
            let c = r->Ok_0;
            let (nw, nh) = fit_within(img.width as int, img.height as int, width as int, u32::MAX as int);
            &&& c.wf()
            &&& c.width == nw
            &&& c.height == nh
            &&& c.alpha == img.alpha
            &&& c.data@ == resampled(*img, nw, nh)
        },
{
    if img.width == 0 || img.height == 0 {
        return Err(ComposeError::EmptyImage);
    }
    let (nw, nh) = fit_dimensions(img.width, img.height, width, u32::MAX);
    proof {
        lemma_product_le(nw as int, nh as int, u32::MAX as int, u32::MAX as int);
    }
    if nw as u128 * nh as u128 * 4 > usize::MAX as u128 {
        return Err(ComposeError::TooLarge);
    }
    Ok(resize_exact(img, nw, nh))
}

/// The canvas of two images: side by side, both are fitted to the smaller
/// height, which is the canvas height, and the canvas width is the two fitted
/// widths plus the margin; stacked, the same holds with width and height
/// exchanged. Neither image grows.
pub proof fn lemma_layout_extent(img1: Bitmap, img2: Bitmap, vertical: bool, margin: int)
    requires
        img1.width >= 1,
        img1.height >= 1,
        img2.width >= 1,
        img2.height >= 1,
    ensures
        ({
            let e = common_edge(img1, img2, vertical);
            let (w1, h1) = fitted(img1, e, vertical);
            let (w2, h2) = fitted(img2, e, vertical);
            &&& 1 <= w1 <= img1.width && 1 <= h1 <= img1.height
            &&& 1 <= w2 <= img2.width && 1 <= h2 <= img2.height
            &&& vertical ==> {
                &&& e == min(img1.width as int, img2.width as int)
                &&& w1 == e && w2 == e
                &&& canvas_size(img1, img2, vertical, margin) == (e, h1 + h2 + margin)
            }
            &&& !vertical ==> {
                &&& e == min(img1.height as int, img2.height as int)
                &&& h1 == e && h2 == e
                &&& canvas_size(img1, img2, vertical, margin) == (w1 + w2 + margin, e)
            }
        }),
{
    let e = common_edge(img1, img2, vertical);
    lemma_fitted_edge(img1, e, vertical);
    lemma_fitted_edge(img2, e, vertical);
}

/// Scaling to a width keeps the aspect ratio: where the width is reachable
/// under the height bound, the result is exactly that wide, and its height is
/// the proportional height rounded to the nearest integer (at least 1).
pub proof fn lemma_scale_keeps_aspect(w: u32, h: u32, width: u32)
    requires
        w >= 1,
        h >= 1,
        width >= 1,
        width as int * h as int <= u32::MAX as int * w as int,
    ensures
        ({
            let (nw, nh) = fit_within(w as int, h as int, width as int, u32::MAX as int);
            &&& nw == width
            &&& 2 * (h as int * width as int) - w < 2 * w * nh
            &&& nh == 1 || 2 * w * nh <= 2 * (h as int * width as int) + w
        }),
{
    assert(h as int * width as int >= 0) by (nonlinear_arith)
        requires
            h >= 1,
            width >= 1,
    ;
    let a = h as int * width as int;
    lemma_round_div_bounds(a, w as int);
    let q = round_div(a, w as int);
    assert(width as int * h as int == a) by (nonlinear_arith)
        requires
            a == h as int * width as int,
    ;
    if q < 1 {
        assert(2 * a - w < 2 * w * 1) by (nonlinear_arith)
            requires
                2 * a - w < 2 * w * q,
                q <= 0,
                w >= 1,
        ;
    }
}

/// Two copies of one image, side by side or stacked with no margin, make a
/// canvas exactly twice the image's extent along the stacking axis; both
/// copies keep their size, and the second starts where the first ends.
pub proof fn lemma_twin_canvas(img: Bitmap, vertical: bool)
    requires
        img.width >= 1,
        img.height >= 1,
    ensures
        fitted(img, common_edge(img, img, vertical), vertical) == (img.width as int, img.height as int),
        canvas_size(img, img, vertical, 0) == if vertical {
            (img.width as int, 2 * img.height)
        } else {
            (2 * img.width, img.height as int)
        },
        second_offset(img, img, vertical, 0) == if vertical {
            (0, img.height as int)
        } else {
            (img.width as int, 0)
        },
{
    let w = img.width as int;
    let h = img.height as int;
    assert(w * h == h * w) by (nonlinear_arith);
    lemma_round_div_exact(h, w);
    assert(fit_within(w, h, w, h) == (w, h));
}

} // verus!
