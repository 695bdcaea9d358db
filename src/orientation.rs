//! Reading the EXIF orientation tag and turning it into an orientation code.

use vstd::prelude::*;

verus! {

#[verifier::external_type_specification]
#[verifier::external_body]
pub struct ExExifError(exif::Error);

/// The orientation tag of the primary image, as the EXIF reader sees it in a
/// file's bytes: `None` where the container or its EXIF block cannot be read,
/// `Some(None)` where the tag is absent or has no unsigned integer value.
pub uninterp spec fn exif_orientation_tag(data: Seq<u8>) -> Option<Option<u32>>;

/// The orientation code that a tag value stands for: values outside `1..=8`,
/// and a missing tag, mean "no transform".
pub open spec fn orientation_or_default(tag: Option<u32>) -> u32 {
    match tag {
        Some(v) => if 1 <= v <= 8 { v } else { 1 },
        None => 1,
    }
}

/// Relies on `exif::Reader::read_from_container` to parse the container, then
/// on `Exif::get_field(Tag::Orientation, In::PRIMARY)` and `Value::get_uint(0)`
/// to read the tag; the outcome depends on the bytes alone.
#[verifier::external_body]
fn read_orientation_tag(data: &[u8]) -> (r: Result<Option<u32>, exif::Error>)
    ensures
        match exif_orientation_tag(data@) {
            Some(tag) => r is Ok && r->Ok_0 == tag,
            None => r is Err,
        },
{
    let exif = exif::Reader::new().read_from_container(&mut std::io::Cursor::new(data))?;
    match exif.get_field(exif::Tag::Orientation, exif::In::PRIMARY) {
        Some(field) => Ok(field.value.get_uint(0)),
        None => Ok(None),
    }
}

/// The orientation code for a tag value: the value itself where it lies in
/// `1..=8`, else 1.
pub fn orientation_from_tag(tag: Option<u32>) -> (r: u32)
    ensures
        r == orientation_or_default(tag),
        1 <= r <= 8,
{
    match tag {
        Some(v) => if 1 <= v && v <= 8 { v } else { 1 },
        None => 1,
    }
}

/// The orientation code of a JPEG file's contents. `Err` where the EXIF
/// container cannot be read; otherwise the code of its orientation tag, 1 where
/// the tag is missing or out of range.
pub fn get_jpeg_orientation(data: &[u8]) -> (r: Result<u32, ()>)
    ensures
        match exif_orientation_tag(data@) {
            Some(tag) => r == Ok::<u32, ()>(orientation_or_default(tag)),
            None => r is Err,
        },
        r is Ok ==> 1 <= r->Ok_0 <= 8,
{
    match read_orientation_tag(data) {
        Ok(tag) => Ok(orientation_from_tag(tag)),
        Err(_) => Err(()),
    }
}

} // verus!
