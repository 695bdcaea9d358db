use imgcat::bitmap::Bitmap;
use imgcat::codec::{load_jpg, to_jpeg, LoadError};
use imgcat::layout::{compose, fit_dimensions, scale_to_width, ComposeError};
use imgcat::orientation::{get_jpeg_orientation, orientation_from_tag};
use imgcat::transform::rotate;

/// A bitmap whose pixel (x, y) is [x, y, tag, 255].
fn grid(width: u32, height: u32, tag: u8) -> Bitmap {
    let mut data = Vec::new();
    for y in 0..height {
        for x in 0..width {
            data.extend_from_slice(&[x as u8, y as u8, tag, 255]);
        }
    }
    Bitmap::new(width, height, false, data).unwrap()
}

fn px(img: &Bitmap, x: u32, y: u32) -> [u8; 4] {
    let i = ((y * img.width + x) * 4) as usize;
    [img.data[i], img.data[i + 1], img.data[i + 2], img.data[i + 3]]
}

fn plain_jpeg(width: u32, height: u32) -> Vec<u8> {
    let img = image::RgbImage::from_pixel(width, height, image::Rgb([200, 40, 40]));
    let mut out = std::io::Cursor::new(Vec::new());
    image::DynamicImage::ImageRgb8(img)
        .write_to(&mut out, image::ImageFormat::Jpeg)
        .unwrap();
    out.into_inner()
}

/// JPEG bytes with an EXIF block whose orientation tag (a SHORT) holds `code`,
/// placed right after the start-of-image marker of `jpeg`.
fn with_orientation(jpeg: &[u8], code: u16) -> Vec<u8> {
    let mut segment = vec![0xFF, 0xE1, 0x00, 0x22];
    segment.extend_from_slice(b"Exif\0\0");
    segment.extend_from_slice(&[b'I', b'I', 0x2A, 0x00, 0x08, 0x00, 0x00, 0x00]);
    segment.extend_from_slice(&[0x01, 0x00]);
    segment.extend_from_slice(&[0x12, 0x01, 0x03, 0x00, 0x01, 0x00, 0x00, 0x00]);
    segment.extend_from_slice(&[(code & 0xFF) as u8, (code >> 8) as u8, 0x00, 0x00]);
    segment.extend_from_slice(&[0x00, 0x00, 0x00, 0x00]);
    let mut out = jpeg[..2].to_vec();
    out.extend_from_slice(&segment);
    out.extend_from_slice(&jpeg[2..]);
    out
}

#[test]
fn orientation_tag_in_range_is_kept() {
    for v in 1..=8u32 {
        assert_eq!(orientation_from_tag(Some(v)), v);
    }
}

#[test]
fn orientation_defaults_to_one() {
    assert_eq!(orientation_from_tag(None), 1);
    assert_eq!(orientation_from_tag(Some(0)), 1);
    assert_eq!(orientation_from_tag(Some(9)), 1);
    assert_eq!(orientation_from_tag(Some(u32::MAX)), 1);
}

#[test]
fn orientation_read_from_exif() {
    let jpeg = plain_jpeg(4, 2);
    assert_eq!(get_jpeg_orientation(&with_orientation(&jpeg, 6)), Ok(6));
    assert_eq!(get_jpeg_orientation(&with_orientation(&jpeg, 3)), Ok(3));
}

#[test]
fn orientation_out_of_range_in_exif_defaults() {
    let jpeg = plain_jpeg(4, 2);
    assert_eq!(get_jpeg_orientation(&with_orientation(&jpeg, 9)), Ok(1));
    assert_eq!(get_jpeg_orientation(&with_orientation(&jpeg, 0)), Ok(1));
}

#[test]
fn orientation_of_unreadable_container_fails() {
    assert_eq!(get_jpeg_orientation(b"not an image at all"), Err(()));
    assert_eq!(get_jpeg_orientation(&plain_jpeg(4, 2)), Err(()));
}

#[test]
fn rotate_each_code_moves_pixels() {
    let img = grid(3, 2, 7);
    let (w, h) = (3u32, 2u32);
    for code in 1..=8u8 {
        let r = rotate(img.clone(), code);
        let swapped = code >= 5;
        assert_eq!((r.width, r.height), if swapped { (h, w) } else { (w, h) });
        assert_eq!(r.alpha, img.alpha);
        for y in 0..r.height {
            for x in 0..r.width {
                let (sx, sy) = match code {
                    2 => (w - 1 - x, y),
                    3 => (w - 1 - x, h - 1 - y),
                    4 => (x, h - 1 - y),
                    5 => (y, x),
                    6 => (y, h - 1 - x),
                    7 => (w - 1 - y, h - 1 - x),
                    8 => (w - 1 - y, x),
                    _ => (x, y),
                };
                assert_eq!(px(&r, x, y), px(&img, sx, sy), "code {code} at ({x}, {y})");
            }
        }
    }
}

#[test]
fn rotate_six_turns_clockwise() {
    // A row [A, B] turned clockwise becomes a column with A on top.
    let img = grid(2, 1, 0);
    let r = rotate(img, 6);
    assert_eq!((r.width, r.height), (1, 2));
    assert_eq!(px(&r, 0, 0), [0, 0, 0, 255]);
    assert_eq!(px(&r, 0, 1), [1, 0, 0, 255]);
}

#[test]
fn rotate_keeps_alpha_mode() {
    let mut img = grid(2, 2, 1);
    img.alpha = true;
    assert!(rotate(img.clone(), 6).alpha);
    assert!(!rotate(grid(2, 2, 1), 6).alpha);
}

#[test]
fn load_applies_orientation() {
    let jpeg = with_orientation(&plain_jpeg(4, 2), 6);
    let img = load_jpg(&jpeg).unwrap();
    assert_eq!((img.width, img.height), (2, 4));
    assert!(!img.alpha);
    assert_eq!(img.data.len(), 2 * 4 * 4);
    let img = load_jpg(&with_orientation(&plain_jpeg(4, 2), 1)).unwrap();
    assert_eq!((img.width, img.height), (4, 2));
}

#[test]
fn load_errors() {
    assert_eq!(load_jpg(b"garbage").unwrap_err(), LoadError::Metadata);
    let header_only = with_orientation(&[0xFF, 0xD8, 0xFF, 0xD9], 1);
    assert_eq!(get_jpeg_orientation(&header_only), Ok(1));
    assert_eq!(load_jpg(&header_only).unwrap_err(), LoadError::Decode);
}

#[test]
fn fit_dimensions_values() {
    assert_eq!(fit_dimensions(3, 2, 2, u32::MAX), (2, 1));
    assert_eq!(fit_dimensions(4, 6, 1, u32::MAX), (1, 2));
    assert_eq!(fit_dimensions(100, 50, 640, u32::MAX), (640, 320));
    assert_eq!(fit_dimensions(2, 4, 2, 2), (1, 2));
    assert_eq!(fit_dimensions(4, 2, 2, 2), (2, 1));
    assert_eq!(fit_dimensions(5, 5, 0, 7), (1, 1));
}

#[test]
fn horizontal_layout_sizes() {
    let a = grid(4, 2, 1);
    let b = grid(2, 4, 2);
    let c = compose(&a, &b, false, 3).unwrap();
    assert_eq!((c.width, c.height), (4 + 1 + 3, 2));
    assert_eq!(c.data.len(), 8 * 2 * 4);
    // First image untouched at the left, margin blank.
    assert_eq!(px(&c, 3, 1), px(&a, 3, 1));
    assert_eq!(px(&c, 4, 0), [0, 0, 0, 255]);
    assert_eq!(px(&c, 6, 1), [0, 0, 0, 255]);
}

#[test]
fn vertical_layout_sizes() {
    let a = grid(4, 2, 1);
    let b = grid(2, 4, 2);
    let c = compose(&a, &b, true, 5).unwrap();
    assert_eq!((c.width, c.height), (2, 1 + 4 + 5));
    // Second image unresized below the margin.
    assert_eq!(px(&c, 1, 6), px(&b, 1, 0));
    assert_eq!(px(&c, 1, 9), px(&b, 1, 3));
    assert_eq!(px(&c, 0, 3), [0, 0, 0, 255]);
}

#[test]
fn twin_images_double_extent() {
    let a = grid(3, 2, 9);
    let h = compose(&a, &a, false, 0).unwrap();
    assert_eq!((h.width, h.height), (6, 2));
    for y in 0..2 {
        for x in 0..3 {
            assert_eq!(px(&h, x, y), px(&a, x, y));
            assert_eq!(px(&h, x + 3, y), px(&a, x, y));
        }
    }
    let v = compose(&a, &a, true, 0).unwrap();
    assert_eq!((v.width, v.height), (3, 4));
    assert_eq!(px(&v, 2, 3), px(&a, 2, 1));
}

#[test]
fn canvas_takes_first_color_mode() {
    let mut a = grid(2, 2, 1);
    a.alpha = true;
    let c = compose(&a, &grid(2, 2, 2), false, 1).unwrap();
    assert!(c.alpha);
    assert_eq!(px(&c, 2, 0), [0, 0, 0, 0]);
}

#[test]
fn compose_errors() {
    let empty = Bitmap::new(0, 3, false, Vec::new()).unwrap();
    let a = grid(2, 2, 1);
    assert_eq!(compose(&empty, &a, false, 0).unwrap_err(), ComposeError::EmptyImage);
    assert_eq!(compose(&a, &empty, true, 0).unwrap_err(), ComposeError::EmptyImage);
    assert_eq!(compose(&a, &a, false, u32::MAX).unwrap_err(), ComposeError::TooLarge);
    assert_eq!(compose(&a, &a, true, u32::MAX - 3).unwrap_err(), ComposeError::TooLarge);
}

#[test]
fn final_scale_sets_width() {
    let c = scale_to_width(&grid(8, 2, 0), 4).unwrap();
    assert_eq!((c.width, c.height), (4, 1));
    assert_eq!(c.data.len(), 4 * 1 * 4);
    let c = scale_to_width(&grid(100, 50, 0), 640).unwrap();
    assert_eq!((c.width, c.height), (640, 320));
    let same = grid(5, 3, 4);
    let c = scale_to_width(&same, 5).unwrap();
    assert_eq!(c.data, same.data);
}

#[test]
fn final_scale_errors() {
    let empty = Bitmap::new(3, 0, false, Vec::new()).unwrap();
    assert_eq!(scale_to_width(&empty, 10).unwrap_err(), ComposeError::EmptyImage);
}

#[test]
fn bitmap_new_checks_length() {
    assert!(Bitmap::new(2, 2, false, vec![0; 15]).is_none());
    assert!(Bitmap::new(2, 2, false, vec![0; 16]).is_some());
}

#[test]
fn blank_canvas_pixels() {
    let b = Bitmap::blank(3, 2, false).unwrap();
    assert_eq!(b.data.len(), 24);
    assert_eq!(px(&b, 2, 1), [0, 0, 0, 255]);
    let b = Bitmap::blank(1, 1, true).unwrap();
    assert_eq!(b.data, vec![0, 0, 0, 0]);
}

#[test]
fn jpeg_encoding_round_trips_size() {
    let bytes = to_jpeg(&grid(6, 3, 50)).unwrap();
    assert_eq!(&bytes[..2], &[0xFF, 0xD8]);
    let back = image::load_from_memory(&bytes).unwrap();
    assert_eq!((back.width(), back.height()), (6, 3));
}
