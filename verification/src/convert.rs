//! The whole conversion: one scene, several sizes, one container.

use crate::encode::{can_create_ico, create_ico, entries_of, raster_views};
use crate::error::Error;
use crate::layout::{container, EntryView, MAX_ENTRIES};
use crate::raster::{fitted_size, is_buffer_size, rasterize, RasterImage, RasterView};
use vstd::prelude::*;

verus! {

/// The image is one that `scene` is rasterized to for `target`: it has the size that the
/// scene is fitted to, a size that a buffer can have, four bytes for each pixel, and alpha
/// apart from the colours.
pub open spec fn rasterized_at(scene: usvg::Tree, image: RasterView, target: u16) -> bool {
    &&& image.fits(target)
    &&& image.has_straight_alpha()
    &&& fitted_size(scene, target) == Some((image.width, image.height))
    &&& is_buffer_size(image.width, image.height)
}

/// The images were made of `scene` for the sizes, one for each and in their order.
pub open spec fn rasterized_for(
    scene: usvg::Tree,
    images: Seq<RasterView>,
    sizes: Seq<u16>,
) -> bool {
    &&& images.len() == sizes.len()
    &&& forall|i: int|
        0 <= i < images.len() ==> rasterized_at(scene, #[trigger] images[i], sizes[i])
}

/// Makes an icon container of `svg`, with one image for each of `ico_entry_sizes`, in their
/// order. Each size is the side, in pixels, of the square that its image is fitted into.
///
/// The sizes are rasterized one after the other, and the first that fails ends the
/// conversion with [`Error::RasterizeError`]; a size of 0 always fails, and so does a size
/// that the scene cannot be fitted to, or at which it would need a buffer of a size that no
/// buffer can have. Only then are the images encoded, and a list of images that has no
/// container gives an [`Error::IoError`]. Without any size there is nothing to rasterize or
/// to encode, and the container is the bare header.
pub fn svg_to_ico(svg: &usvg::Tree, ico_entry_sizes: &[u16]) -> (r: Result<Vec<u8>, Error>)
    ensures
        ico_entry_sizes@.len() == 0 ==> (r matches Ok(bytes) && bytes@ == container(
            Seq::<EntryView>::empty(),
        )),
        (exists|i: int| 0 <= i < ico_entry_sizes@.len() && #[trigger] ico_entry_sizes@[i] == 0)
            ==> r matches Err(Error::RasterizeError),
        (exists|i: int|
            0 <= i < ico_entry_sizes@.len() && fitted_size(
                *svg,
                #[trigger] ico_entry_sizes@[i],
            ).is_none()) ==> r matches Err(Error::RasterizeError),
        (exists|i: int|
            0 <= i < ico_entry_sizes@.len() && (fitted_size(
                *svg,
                #[trigger] ico_entry_sizes@[i],
            ) matches Some(size) && !is_buffer_size(size.0, size.1))) ==> r matches Err(
            Error::RasterizeError,
        ),
        r matches Ok(bytes) ==> exists|images: Seq<RasterView>|
            #[trigger] rasterized_for(*svg, images, ico_entry_sizes@) && can_create_ico(images)
                && bytes@ == container(entries_of(images)),
        r matches Err(e) ==> e is RasterizeError || e is IoError,
        r matches Err(Error::IoError(_)) ==> exists|images: Seq<RasterView>|
            #[trigger] rasterized_for(*svg, images, ico_entry_sizes@) && !can_create_ico(images),
        ico_entry_sizes@.len() > MAX_ENTRIES ==> r.is_err(),
{
    let mut images: Vec<RasterImage> = Vec::new();
    let mut index: usize = 0;
    while index < ico_entry_sizes.len()
        invariant
            index <= ico_entry_sizes@.len(),
            images@.len() == index,
            forall|i: int| 0 <= i < index ==> ico_entry_sizes@[i] != 0,
            forall|i: int|
                0 <= i < index ==> (fitted_size(*svg, #[trigger] ico_entry_sizes@[i]) matches Some(
                    size,
                ) && is_buffer_size(size.0, size.1)),
            forall|i: int|
                0 <= i < index ==> rasterized_at(
                    *svg,
                    (#[trigger] images@[i])@,
                    ico_entry_sizes@[i],
                ),
        decreases ico_entry_sizes@.len() - index,
    {
        let image = match rasterize(svg, ico_entry_sizes[index]) {
            Ok(image) => image,
            Err(error) => {
                return Err(error);
            },
        };
        images.push(image);
        index = index + 1;
    }
    let ghost views = raster_views(images@);
    assert(rasterized_for(*svg, views, ico_entry_sizes@));
    assert(ico_entry_sizes@.len() == 0 ==> entries_of(views) =~= Seq::<EntryView>::empty());
    match create_ico(images) {
        Ok(bytes) => Ok(bytes),
        Err(error) => Err(Error::from(error)),
    }
}

} // verus!
