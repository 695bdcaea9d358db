//! Orientation correction: the flips and quarter turns that the EXIF
//! orientation codes ask for.

use vstd::prelude::*;
use crate::bitmap::Bitmap;

verus! {

/// Whether orientation `code` exchanges width and height.
pub open spec fn swaps_axes(code: u8) -> bool {
    5 <= code <= 8
}

/// The size of an image of `w` by `h` pixels once `code` is applied.
pub open spec fn oriented_size(code: u8, w: int, h: int) -> (int, int) {
    if swaps_axes(code) { (h, w) } else { (w, h) }
}

/// The source pixel that lands at `(x, y)` once `code` is applied to an image
/// of `w` by `h` pixels: 1 keeps it, 2 mirrors left to right, 3 turns it half a
/// turn, 4 mirrors top to bottom, 5 transposes it, 6 turns it a quarter turn
/// clockwise, 7 turns it a quarter turn counter-clockwise and mirrors it left
/// to right, 8 turns it a quarter turn counter-clockwise.
pub open spec fn oriented_source(code: u8, w: int, h: int, x: int, y: int) -> (int, int) {
    if code == 2 {
        (w - 1 - x, y)
    } else if code == 3 {
        (w - 1 - x, h - 1 - y)
    } else if code == 4 {
        (x, h - 1 - y)
    } else if code == 5 {
        (y, x)
    } else if code == 6 {
        (y, h - 1 - x)
    } else if code == 7 {
        (w - 1 - y, h - 1 - x)
    } else if code == 8 {
        (w - 1 - y, x)
    } else {
        (x, y)
    }
}

/// Relies on `image::imageops::flip_horizontal`: pixel `(x, y)` of the result
/// is pixel `(w - 1 - x, y)` of the source.
#[verifier::external_body]
fn flip_horizontal(img: &Bitmap) -> (r: Bitmap)
    requires
        img.wf(),
    ensures
        r.wf(),
        r.width == img.width,
        r.height == img.height,
        r.alpha == img.alpha,
        forall|x: int, y: int|
            r.in_bounds(x, y) ==> #[trigger] r.pixel(x, y) == img.pixel(img.width - 1 - x, y),
{
    let src = image::RgbaImage::from_raw(img.width, img.height, img.data.clone()).unwrap();
    let out = image::imageops::flip_horizontal(&src);
    Bitmap { width: out.width(), height: out.height(), alpha: img.alpha, data: out.into_raw() }
}

/// Relies on `image::imageops::flip_vertical`: pixel `(x, y)` of the result is
/// pixel `(x, h - 1 - y)` of the source.
#[verifier::external_body]
fn flip_vertical(img: &Bitmap) -> (r: Bitmap)
    requires
        img.wf(),
    ensures
        r.wf(),
        r.width == img.width,
        r.height == img.height,
        r.alpha == img.alpha,
        forall|x: int, y: int|
            r.in_bounds(x, y) ==> #[trigger] r.pixel(x, y) == img.pixel(x, img.height - 1 - y),
{
    let src = image::RgbaImage::from_raw(img.width, img.height, img.data.clone()).unwrap();
    let out = image::imageops::flip_vertical(&src);
    Bitmap { width: out.width(), height: out.height(), alpha: img.alpha, data: out.into_raw() }
}

/// Relies on `image::imageops::rotate90` (clockwise): source pixel `(x, y)`
/// goes to `(h - 1 - y, x)`.
#[verifier::external_body]
fn rotate90(img: &Bitmap) -> (r: Bitmap)
    requires
        img.wf(),
    ensures
        r.wf(),
        r.width == img.height,
        r.height == img.width,
        r.alpha == img.alpha,
        forall|x: int, y: int|
            r.in_bounds(x, y) ==> #[trigger] r.pixel(x, y) == img.pixel(y, img.height - 1 - x),
{
    let src = image::RgbaImage::from_raw(img.width, img.height, img.data.clone()).unwrap();
    let out = image::imageops::rotate90(&src);
    Bitmap { width: out.width(), height: out.height(), alpha: img.alpha, data: out.into_raw() }
}

/// Relies on `image::imageops::rotate180`: source pixel `(x, y)` goes to
/// `(w - 1 - x, h - 1 - y)`.
#[verifier::external_body]
fn rotate180(img: &Bitmap) -> (r: Bitmap)
    requires
        img.wf(),
    ensures
        r.wf(),
        r.width == img.width,
        r.height == img.height,
        r.alpha == img.alpha,
        forall|x: int, y: int|
            r.in_bounds(x, y) ==> #[trigger] r.pixel(x, y) == img.pixel(
                img.width - 1 - x,
                img.height - 1 - y,
            ),
{
    let src = image::RgbaImage::from_raw(img.width, img.height, img.data.clone()).unwrap();
    let out = image::imageops::rotate180(&src);
    Bitmap { width: out.width(), height: out.height(), alpha: img.alpha, data: out.into_raw() }
}

/// Relies on `image::imageops::rotate270` (clockwise): source pixel `(x, y)`
/// goes to `(y, w - 1 - x)`.
#[verifier::external_body]
fn rotate270(img: &Bitmap) -> (r: Bitmap)
    requires
        img.wf(),
    ensures
        r.wf(),
        r.width == img.height,
        r.height == img.width,
        r.alpha == img.alpha,
        forall|x: int, y: int|
            r.in_bounds(x, y) ==> #[trigger] r.pixel(x, y) == img.pixel(img.width - 1 - y, x),
{
    let src = image::RgbaImage::from_raw(img.width, img.height, img.data.clone()).unwrap();
    let out = image::imageops::rotate270(&src);
    Bitmap { width: out.width(), height: out.height(), alpha: img.alpha, data: out.into_raw() }
}

/// Applies the transform of orientation `code` to an image. The color mode is
/// kept; a code outside `2..=8` leaves the image as it is.
pub fn rotate(img: Bitmap, orientation: u8) -> (r: Bitmap)
    requires
        img.wf(),
    ensures
        r.wf(),
        r.alpha == img.alpha,
        (r.width as int, r.height as int) == oriented_size(
            orientation,
            img.width as int,
            img.height as int,
        ),
        forall|x: int, y: int|
            r.in_bounds(x, y) ==> {
                let (sx, sy) = oriented_source(
                    orientation,
                    img.width as int,
                    img.height as int,
                    x,
                    y,
                );
                #[trigger] r.pixel(x, y) == img.pixel(sx, sy)
            },
{
    if orientation == 2 {
        flip_horizontal(&img)
    } else if orientation == 3 {
        rotate180(&img)
    } else if orientation == 4 {
        flip_vertical(&img)
    } else if orientation == 5 {
        let t = rotate90(&img);
        let r = flip_horizontal(&t);
        assert forall|x: int, y: int| r.in_bounds(x, y) implies #[trigger] r.pixel(x, y)
            == img.pixel(y, x) by {
            assert(t.in_bounds(t.width - 1 - x, y));
        }
        r
    } else if orientation == 6 {
        rotate90(&img)
    } else if orientation == 7 {
        let t = rotate270(&img);
        let r = flip_horizontal(&t);
        assert forall|x: int, y: int| r.in_bounds(x, y) implies #[trigger] r.pixel(x, y)
            == img.pixel(img.width - 1 - y, img.height - 1 - x) by {
            assert(t.in_bounds(t.width - 1 - x, y));
        }
        r
    } else if orientation == 8 {
        rotate270(&img)
    } else {
        img
    }
}

} // verus!
