//! Encoding bitmaps into an icon container.
//!
//! The payload block of each image is made by the `ico` crate. The header and the table
//! around the payloads are written by [`serialize`], so that every byte of them is the one
//! that [`crate::layout`] states.

use crate::container::{entry_views, serialize, IconEntry};
use crate::error::invalid_input;
use crate::layout::{
    container, encodable, entry_start, lemma_directory_integrity, lemma_order_preserved,
    lemma_stored_entry, stored_count, stored_height, stored_payload, stored_size, stored_width,
    EntryView,
};
use crate::raster::{lemma_area_bound, rgba_len, RasterImage, RasterView};
use vstd::prelude::*;

verus! {

/// The payload block that the icon encoder makes of a bitmap of `width` by `height` pixels
/// with the bytes `rgba`, or `None` where it reports a failure.
pub uninterp spec fn encoded_payload(width: u32, height: u32, rgba: Seq<u8>) -> Option<Seq<u8>>;

/// The payload block of one bitmap.
///
/// Not verified: this calls `ico::IconDirEntry::encode` on the bitmap as an
/// `ico::IconImage` and copies what `ico::IconDirEntry::data` returns. The encoder chooses by
/// the bitmap's content between an uncompressed bitmap and a PNG. `IconImage::from_rgba_data`
/// panics on a width or height of 0 and on a buffer of another length than four bytes for
/// each pixel, and `encode` multiplies width and height as `u32`: such input is left out.
/// What comes back depends on the bitmap alone, and goes by the name [`encoded_payload`].
#[verifier::external_body]
fn encode_payload(width: u32, height: u32, rgba: &Vec<u8>) -> (r: Result<Vec<u8>, std::io::Error>)
    requires
        width >= 1,
        height >= 1,
        width * height <= u32::MAX,
        rgba@.len() == rgba_len(width, height),
    ensures
        r matches Ok(payload) ==> encoded_payload(width, height, rgba@) == Some(payload@),
        r.is_err() ==> encoded_payload(width, height, rgba@).is_none(),
{
    let image = ico::IconImage::from_rgba_data(width, height, rgba.clone());
    ico::IconDirEntry::encode(&image).map(|entry| entry.data().to_vec())
}

/// What a list of images is, image by image.
pub open spec fn raster_views(images: Seq<RasterImage>) -> Seq<RasterView> {
    images.map_values(|image: RasterImage| image@)
}

/// The images that have a payload: they have pixels, no more of them than `u32::MAX`, and the
/// encoder does not fail on them.
pub open spec fn has_payload(image: RasterView) -> bool {
    &&& image.width >= 1
    &&& image.height >= 1
    &&& image.width * image.height <= u32::MAX
    &&& encoded_payload(image.width, image.height, image.pixels).is_some()
}

/// The container entry of an image: its size, and its payload as the encoder makes it.
pub open spec fn entry_of(image: RasterView) -> EntryView {
    EntryView {
        width: image.width,
        height: image.height,
        payload: encoded_payload(image.width, image.height, image.pixels).unwrap(),
    }
}

/// The container entries of a list of images, in the same order.
pub open spec fn entries_of(images: Seq<RasterView>) -> Seq<EntryView> {
    images.map_values(|image: RasterView| entry_of(image))
}

/// The lists of images that have a container: each has a payload, and their entries fit one
/// container.
pub open spec fn can_create_ico(images: Seq<RasterView>) -> bool {
    &&& forall|i: int| 0 <= i < images.len() ==> has_payload(#[trigger] images[i])
    &&& encodable(entries_of(images))
}

/// Encodes `images` into one icon container, in their order: a header with their number, a
/// table with one entry for each, and their payload blocks.
///
/// Fails exactly for the lists that have no container; see [`can_create_ico`].
pub fn create_ico(images: Vec<RasterImage>) -> (r: Result<Vec<u8>, std::io::Error>)
    ensures
        r.is_ok() == can_create_ico(raster_views(images@)),
        r matches Ok(bytes) ==> bytes@ == container(entries_of(raster_views(images@))),
{
    let ghost views = raster_views(images@);
    let mut entries: Vec<IconEntry> = Vec::new();
    let mut index: usize = 0;
    while index < images.len()
        invariant
            views == raster_views(images@),
            index <= images.len(),
            entries@.len() == index,
            forall|i: int| 0 <= i < index ==> has_payload(#[trigger] views[i]),
            forall|i: int|
                0 <= i < index ==> (#[trigger] entries@[i])@ == entry_of(views[i]),
        decreases images.len() - index,
    {
        let image = &images[index];
        assert(views[index as int] == image@);
        let width = image.width();
        let height = image.height();
        if width == 0 || height == 0 {
            return Err(invalid_input("an image without pixels has no icon entry"));
        }
        proof {
            lemma_area_bound(width, height);
        }
        if (width as u64) * (height as u64) > u32::MAX as u64 {
            return Err(invalid_input("an image of this size has no icon entry"));
        }
        let payload = match encode_payload(width, height, image.pixels()) {
            Ok(payload) => payload,
            Err(error) => {
                return Err(error);
            },
        };
        entries.push(IconEntry { width, height, payload });
        index = index + 1;
    }
    assert(entry_views(entries@) =~= entries_of(views));
    serialize(&entries)
}

/// What reading the container of `images` gives back. The count field is the number of
/// images, and entry `index` describes image `index`: its first two bytes are the low eight
/// bits of that image's width and height, so that it declares the width and height
/// themselves for sizes up to 256; it declares the length of that image's payload, and
/// points at that payload.
pub proof fn lemma_images_in_order(images: Seq<RasterView>, index: int)
    requires
        can_create_ico(images),
        0 <= index < images.len(),
    ensures
        stored_count(container(entries_of(images))) == images.len(),
        container(entries_of(images))[entry_start(index)] == images[index].width % 256,
        container(entries_of(images))[entry_start(index) + 1] == images[index].height % 256,
        images[index].width <= 256 ==> stored_width(container(entries_of(images)), index)
            == images[index].width,
        images[index].height <= 256 ==> stored_height(container(entries_of(images)), index)
            == images[index].height,
        Some(stored_payload(container(entries_of(images)), index)) == encoded_payload(
            images[index].width,
            images[index].height,
            images[index].pixels,
        ),
        stored_size(container(entries_of(images)), index) == stored_payload(
            container(entries_of(images)),
            index,
        ).len(),
{
    let entries = entries_of(images);
    assert(has_payload(images[index]));
    lemma_directory_integrity(entries);
    lemma_stored_entry(entries, index);
    lemma_order_preserved(entries, index);
}

} // verus!
