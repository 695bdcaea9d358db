//! Turning JPEG files into upright bitmaps, and bitmaps back into JPEG bytes.

use vstd::prelude::*;
use crate::bitmap::{Bitmap, pixel_of};
use crate::orientation::{exif_orientation_tag, get_jpeg_orientation, orientation_or_default};
use crate::transform::{oriented_size, oriented_source, rotate};

verus! {

/// Why a file could not be loaded.
#[derive(Clone, Copy, Debug, PartialEq, Eq, Structural)]
pub enum LoadError {
    /// Its EXIF container could not be read.
    Metadata,
    /// Its image data could not be decoded.
    Decode,
}

/// What the image decoder makes of a file's bytes: width, height, whether the
/// color mode has an alpha channel, and the pixels as RGBA samples; `None`
/// where the bytes do not decode.
pub uninterp spec fn decoded_image(data: Seq<u8>) -> Option<(u32, u32, bool, Seq<u8>)>;

/// The JPEG encoding (default quality) of an image given as RGBA samples, its
/// alpha samples dropped; `None` where the encoder refuses it.
pub uninterp spec fn jpeg_encoding(data: Seq<u8>, w: u32, h: u32) -> Option<Seq<u8>>;

/// Relies on `image::load_from_memory` to decode, on
/// `DynamicImage::color().has_alpha()` for the color mode and on
/// `DynamicImage::to_rgba8` for the samples, which come four per pixel.
#[verifier::external_body]
fn decode(data: &[u8]) -> (r: Result<Bitmap, image::ImageError>)
    ensures
        match decoded_image(data@) {
            Some((w, h, a, d)) => r is Ok && r->Ok_0.width == w && r->Ok_0.height == h
                && r->Ok_0.alpha == a && r->Ok_0.data@ == d,
            None => r is Err,
        },
        r is Ok ==> r->Ok_0.wf(),
{
    let img = image::load_from_memory(data)?;
    let alpha = img.color().has_alpha();
    Ok(Bitmap { width: img.width(), height: img.height(), alpha, data: img.to_rgba8().into_raw() })
}

/// Relies on `DynamicImage::into_rgb8` to drop the alpha samples and on
/// `DynamicImage::write_to` with `ImageFormat::Jpeg` to encode.
#[verifier::external_body]
fn encode_jpeg(img: &Bitmap) -> (r: Result<Vec<u8>, image::ImageError>)
    requires
        img.wf(),
    ensures
        match jpeg_encoding(img.data@, img.width, img.height) {
            Some(bytes) => r is Ok && r->Ok_0@ == bytes,
            None => r is Err,
        },
{
    let rgba = image::RgbaImage::from_raw(img.width, img.height, img.data.clone()).unwrap();
    let rgb = image::DynamicImage::ImageRgba8(rgba).into_rgb8();
    let mut out = std::io::Cursor::new(Vec::new());
    rgb.write_to(&mut out, image::ImageFormat::Jpeg)?;
    Ok(out.into_inner())
}

/// Loads a JPEG file's contents and turns the image upright as its EXIF
/// orientation tag says. The color mode of the decoded image is kept.
pub fn load_jpg(data: &[u8]) -> (r: Result<Bitmap, LoadError>)
    ensures
        exif_orientation_tag(data@) is None ==> r == Err::<Bitmap, LoadError>(LoadError::Metadata),
        exif_orientation_tag(data@) is Some && decoded_image(data@) is None ==> r == Err::<
            Bitmap,
            LoadError,
        >(LoadError::Decode),
        exif_orientation_tag(data@) is Some && decoded_image(data@) is Some ==> r is Ok,
        r is Ok ==> {
            let code = orientation_or_default(exif_orientation_tag(data@)->Some_0) as u8;
            let (w, h, a, d) = decoded_image(data@)->Some_0;
            let img = r->Ok_0;
            &&& img.wf()
            &&& img.alpha == a
            &&& (img.width as int, img.height as int) == oriented_size(code, w as int, h as int)
            &&& forall|x: int, y: int|
                img.in_bounds(x, y) ==> {
                    let (sx, sy) = oriented_source(code, w as int, h as int, x, y);
                    #[trigger] img.pixel(x, y) == pixel_of(d, w as int, sx, sy)
                }
        },
{
    let orientation = match get_jpeg_orientation(data) {
        Ok(v) => v,
        Err(_) => return Err(LoadError::Metadata),
    };
    let img = match decode(data) {
        Ok(img) => img,
        Err(_) => return Err(LoadError::Decode),
    };
    Ok(rotate(img, orientation as u8))
}

/// The JPEG bytes of an image, `None` where the encoder refuses it.
pub fn to_jpeg(img: &Bitmap) -> (r: Option<Vec<u8>>)
    requires
        img.wf(),
    ensures
        match jpeg_encoding(img.data@, img.width, img.height) {
            Some(bytes) => r is Some && r->Some_0@ == bytes,
            None => r is None,
        },
{
    match encode_jpeg(img) {
        Ok(bytes) => Some(bytes),
        Err(_) => None,
    }
}

} // verus!
