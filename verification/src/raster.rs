//! Rasterization of a parsed scene at a requested pixel size.
//!
//! The scene, its size and the pixel buffer it is painted on belong to `usvg`, `tiny_skia` and
//! `resvg`. What this module decides is which size to ask for, when a request fails, and that
//! what it hands out is a buffer of exactly `4 * width * height` bytes, with alpha apart from
//! the colours.

use crate::error::Error;
use vstd::prelude::*;

verus! {

/// `usvg::Tree`, a parsed scene. Nothing is known here of what one holds.
#[verifier::external_type_specification]
#[verifier::external_body]
pub struct ExTree(usvg::Tree);

/// `tiny_skia::Size`, a width and a height that are positive and finite but need not be whole
/// numbers. Nothing is known here of what one holds.
#[verifier::external_type_specification]
#[verifier::external_body]
pub struct ExSize(tiny_skia::Size);

/// `tiny_skia::Transform`, an affine map of the plane. Nothing is known here of what one
/// holds.
#[verifier::external_type_specification]
#[verifier::external_body]
pub struct ExTransform(tiny_skia::Transform);

/// `tiny_skia::Pixmap`, a pixel buffer that knows its width and height. Its bytes are spoken
/// of as [`pixmap_bytes`].
#[verifier::external_type_specification]
#[verifier::external_body]
pub struct ExPixmap(tiny_skia::Pixmap);

/// The bytes a pixmap holds, row by row, four to a pixel.
pub uninterp spec fn pixmap_bytes(pixmap: tiny_skia::Pixmap) -> Seq<u8>;

/// The pixels `premultiplied`, four bytes each, with the colours of each divided by its
/// alpha: what was painted with alpha multiplied into the colours, as pixels with alpha
/// apart from them.
pub uninterp spec fn straight_alpha(premultiplied: Seq<u8>) -> Seq<u8>;

/// The number of bytes that `width * height` pixels take, at four bytes each.
pub open spec fn rgba_len(width: u32, height: u32) -> int {
    4 * (width * height)
}

/// The pixels of an image whose sides are `u32` numbers are fewer than 2^64.
pub(crate) proof fn lemma_area_bound(width: u32, height: u32)
    ensures
        width * height <= 0xffff_ffff * 0xffff_ffff,
{
    assert(width * height <= 0xffff_ffff * 0xffff_ffff) by (nonlinear_arith)
        requires
            width <= 0xffff_ffff,
            height <= 0xffff_ffff,
    ;
}

/// What a [`RasterImage`] is: its size in pixels and its bytes.
pub struct RasterView {
    pub width: u32,
    pub height: u32,
    pub pixels: Seq<u8>,
}

impl RasterView {
    /// There are four bytes for each pixel, and no others.
    pub open spec fn is_consistent(self) -> bool {
        self.pixels.len() == rgba_len(self.width, self.height)
    }

    /// The pixels have alpha apart from the colours: they are what [`straight_alpha`] makes
    /// of some painted bitmap of the image's size.
    pub open spec fn has_straight_alpha(self) -> bool {
        exists|painted: Seq<u8>|
            painted.len() == rgba_len(self.width, self.height) && self.pixels
                == #[trigger] straight_alpha(painted)
    }

    /// The image was made for the target `target`: it is consistent, not empty, and one of its
    /// sides is exactly `target` pixels long.
    pub open spec fn fits(self, target: u16) -> bool {
        &&& self.is_consistent()
        &&& self.width >= 1
        &&& self.height >= 1
        &&& (self.height == target || self.width == target)
    }
}

/// A bitmap: `width * height` pixels of four bytes each (red, green, blue, alpha), row by row
/// from the top, with alpha not multiplied into the colours.
///
/// No value of this type has a buffer of another length than `4 * width * height`.
#[derive(Debug)]
pub struct RasterImage {
    width: u32,
    height: u32,
    pixels: Vec<u8>,
}

impl View for RasterImage {
    type V = RasterView;

    closed spec fn view(&self) -> RasterView {
        RasterView { width: self.width, height: self.height, pixels: self.pixels@ }
    }
}

impl RasterImage {
    #[verifier::type_invariant]
    spec fn well_formed(self) -> bool {
        self.pixels@.len() == rgba_len(self.width, self.height)
    }

    /// Wraps a buffer as an image, or returns `None` if its length is not
    /// `4 * width * height`.
    pub fn new(width: u32, height: u32, pixels: Vec<u8>) -> (r: Option<RasterImage>)
        ensures
            r.is_some() == (pixels@.len() == rgba_len(width, height)),
            r matches Some(image) ==> image@ == (RasterView { width, height, pixels: pixels@ }),
    {
        proof {
            lemma_area_bound(width, height);
        }
        let area: u128 = (width as u128) * (height as u128);
        if pixels.len() as u128 == 4 * area {
            Some(RasterImage { width, height, pixels })
        } else {
            None
        }
    }

    /// The width in pixels.
    pub fn width(&self) -> (r: u32)
        ensures
            r == self@.width,
    {
        self.width
    }

    /// The height in pixels.
    pub fn height(&self) -> (r: u32)
        ensures
            r == self@.height,
    {
        self.height
    }

    /// The pixel bytes, which are `4 * width * height` in number.
    pub fn pixels(&self) -> (r: &Vec<u8>)
        ensures
            r@ == self@.pixels,
            self@.is_consistent(),
    {
        proof {
            use_type_invariant(self);
        }
        &self.pixels
    }

    /// Gives up the image for its pixel bytes.
    pub fn take(self) -> (r: Vec<u8>)
        ensures
            r@ == self@.pixels,
            self@.is_consistent(),
    {
        proof {
            use_type_invariant(&self);
        }
        self.pixels
    }
}

/// The whole pixels that the scene's own size covers once it is scaled to the height
/// `target`, or `None` where the scaled size is not a positive finite number.
pub uninterp spec fn height_scaled(scene: usvg::Tree, target: u16) -> Option<(u32, u32)>;

/// The whole pixels that the scene's own size covers once it is scaled to the width
/// `target`, or `None` where the scaled size is not a positive finite number.
pub uninterp spec fn width_scaled(scene: usvg::Tree, target: u16) -> Option<(u32, u32)>;

/// How the width of the scene, scaled to the height `target`, compares with `target`, before
/// any rounding: `None` where there is no such scaled size.
pub uninterp spec fn width_order(scene: usvg::Tree, target: u16) -> Option<core::cmp::Ordering>;

/// Whether the scene, scaled to the height `target`, is at least `target` wide, before any
/// rounding. It is not where there is no such scaled size.
pub open spec fn fills_width(scene: usvg::Tree, target: u16) -> bool {
    match width_order(scene, target) {
        Some(core::cmp::Ordering::Greater) => true,
        Some(core::cmp::Ordering::Equal) => true,
        Some(core::cmp::Ordering::Less) => false,
        None => false,
    }
}

/// The size in whole pixels at which a scene is rasterized for `target`: scaled to the
/// height `target`, unless that makes it at least `target` wide, and then scaled to the
/// width `target`.
pub open spec fn fitted_size(scene: usvg::Tree, target: u16) -> Option<(u32, u32)> {
    if height_scaled(scene, target).is_none() {
        None
    } else if fills_width(scene, target) {
        width_scaled(scene, target)
    } else {
        height_scaled(scene, target)
    }
}

/// A size that a scene was scaled to: the exact size, and the whole pixels it covers.
struct ScaledSize {
    size: tiny_skia::Size,
    width: u32,
    height: u32,
}

/// The scene's own size scaled to the height `target`, with its proportions kept.
///
/// Not verified: this calls `tiny_skia::Size::scale_to_height` on `usvg::Tree::size` and
/// rounds the result to whole pixels with `tiny_skia::Size::to_int_size`. `scale_to_height`
/// returns `None` where the new width or height is not a positive finite number, which
/// includes the height 0. Otherwise the new height is `target` itself, which rounding leaves
/// as it is, and `to_int_size` gives no side below 1. The whole pixels depend on the scene
/// and on `target` alone, and go by the name [`height_scaled`].
#[verifier::external_body]
fn scale_to_height(scene: &usvg::Tree, target: u16) -> (r: Option<ScaledSize>)
    ensures
        target == 0 ==> r.is_none(),
        r.is_none() ==> height_scaled(*scene, target).is_none(),
        r matches Some(scaled) ==> height_scaled(*scene, target) == Some(
            (scaled.width, scaled.height),
        ),
        r matches Some(scaled) ==> scaled.height == target && scaled.width >= 1,
{
    let size = scene.size().scale_to_height(target.into())?;
    let pixels = size.to_int_size();
    Some(ScaledSize { size, width: pixels.width(), height: pixels.height() })
}

/// The scene's own size scaled to the width `target`, with its proportions kept.
///
/// Not verified: this calls `tiny_skia::Size::scale_to_width` on `usvg::Tree::size` and
/// rounds the result to whole pixels with `tiny_skia::Size::to_int_size`. `scale_to_width`
/// returns `None` where the new width or height is not a positive finite number, which
/// includes the width 0. Otherwise the new width is `target` itself, which rounding leaves as
/// it is, and `to_int_size` gives no side below 1. The whole pixels depend on the scene and
/// on `target` alone, and go by the name [`width_scaled`].
#[verifier::external_body]
fn scale_to_width(scene: &usvg::Tree, target: u16) -> (r: Option<ScaledSize>)
    ensures
        target == 0 ==> r.is_none(),
        r.is_none() ==> width_scaled(*scene, target).is_none(),
        r matches Some(scaled) ==> width_scaled(*scene, target) == Some(
            (scaled.width, scaled.height),
        ),
        r matches Some(scaled) ==> scaled.width == target && scaled.height >= 1,
{
    let size = scene.size().scale_to_width(target.into())?;
    let pixels = size.to_int_size();
    Some(ScaledSize { size, width: pixels.width(), height: pixels.height() })
}

/// How the width of the scene, scaled to the height `target`, compares with `target`.
///
/// Not verified: this calls `tiny_skia::Size::scale_to_height` on `usvg::Tree::size` and
/// hands what `tiny_skia::Size::width` returns of the result, which need not be a whole
/// number, to `partial_cmp` together with `target`. The answer depends on the scene and on
/// `target` alone, and goes by the name [`width_order`].
#[verifier::external_body]
fn order_of_width(scene: &usvg::Tree, target: u16) -> (r: Option<core::cmp::Ordering>)
    ensures
        r == width_order(*scene, target),
{
    match scene.size().scale_to_height(target.into()) {
        Some(size) => size.width().partial_cmp(&target.into()),
        None => None,
    }
}

/// Whether the scene, scaled to the height `target`, is at least `target` wide.
fn reaches_width(scene: &usvg::Tree, target: u16) -> (r: bool)
    ensures
        r == fills_width(*scene, target),
{
    match order_of_width(scene, target) {
        Some(core::cmp::Ordering::Greater) => true,
        Some(core::cmp::Ordering::Equal) => true,
        Some(core::cmp::Ordering::Less) => false,
        None => false,
    }
}

/// The map that stretches the scene's own size onto `scaled`.
///
/// Not verified: this calls `tiny_skia::Transform::from_scale` with the ratio of the two
/// widths and the ratio of the two heights, none of which need be whole numbers. Nothing is
/// claimed of the map.
#[verifier::external_body]
fn scale_onto(scene: &usvg::Tree, scaled: &ScaledSize) -> (r: tiny_skia::Transform) {
    let from = scene.size();
    tiny_skia::Transform::from_scale(
        scaled.size.width() / from.width(),
        scaled.size.height() / from.height(),
    )
}

/// A pixmap of `width` by `height` pixels that holds the bytes `data`.
///
/// Not verified: this calls `tiny_skia::Pixmap::from_vec`, which keeps the buffer it is
/// given and allocates nothing. It refuses a width or height of 0 (for which there is no
/// `tiny_skia::IntSize`), a row of more than `i32::MAX` bytes, and a buffer of another length
/// than `4 * width * height`, and nothing else.
#[verifier::external_body]
fn pixmap_of(data: Vec<u8>, width: u32, height: u32) -> (r: Option<tiny_skia::Pixmap>)
    ensures
        r.is_some() == (width >= 1 && height >= 1 && 4 * width <= i32::MAX && data@.len()
            == rgba_len(width, height)),
        r matches Some(pixmap) ==> pixmap_bytes(pixmap) == data@,
{
    tiny_skia::Pixmap::from_vec(data, tiny_skia::IntSize::from_wh(width, height)?)
}

/// Paints the scene through `transform` on the pixmap.
///
/// Not verified: this calls `resvg::render`, which writes into the buffer that it is lent
/// and so cannot change its length. Nothing is claimed of the bytes it writes.
#[verifier::external_body]
fn paint(scene: &usvg::Tree, transform: tiny_skia::Transform, pixmap: &mut tiny_skia::Pixmap)
    ensures
        pixmap_bytes(*final(pixmap)).len() == pixmap_bytes(*old(pixmap)).len(),
{
    resvg::render(scene, transform, &mut pixmap.as_mut());
}

/// Not verified: `tiny_skia::Pixmap::take_demultiplied` divides each pixel's colours by its
/// alpha, in place, and hands out the pixmap's buffer: as many bytes as the pixmap held. What
/// they are depends on the pixmap's bytes alone, and goes by the name [`straight_alpha`].
pub assume_specification[ tiny_skia::Pixmap::take_demultiplied ](pixmap: tiny_skia::Pixmap) -> (r:
    Vec<u8>)
    ensures
        r@ == straight_alpha(pixmap_bytes(pixmap)),
        r@.len() == pixmap_bytes(pixmap).len(),
;

/// The sizes that a pixel buffer can have: not empty, with rows of no more than `i32::MAX`
/// bytes, and of no more than `isize::MAX` bytes in all.
pub open spec fn is_buffer_size(width: u32, height: u32) -> bool {
    &&& width >= 1
    &&& height >= 1
    &&& 4 * width <= i32::MAX
    &&& rgba_len(width, height) <= isize::MAX
}

/// A buffer of `len` bytes, all zero, or `None` where the memory for it cannot be had. An
/// empty buffer needs no memory and is always had.
fn zeroed(len: usize) -> (r: Option<Vec<u8>>)
    ensures
        len == 0 ==> r.is_some(),
        r matches Some(data) ==> data@ == Seq::new(len as nat, |i: int| 0u8),
{
    let mut data: Vec<u8> = Vec::new();
    if len == 0 {
        assert(data@ =~= Seq::new(len as nat, |i: int| 0u8));
        return Some(data);
    }
    match data.try_reserve(len) {
        Ok(_) => {
            data.resize(len, 0);
            assert(data@ =~= Seq::new(len as nat, |i: int| 0u8));
            Some(data)
        },
        Err(_) => None,
    }
}

/// A fully transparent bitmap of `width` by `height` pixels as bytes, all zero, or `None`
/// where it would be longer than `isize::MAX` bytes or the memory for it cannot be had. A
/// bitmap without pixels needs no memory and is always had.
fn blank(width: u32, height: u32) -> (r: Option<Vec<u8>>)
    ensures
        rgba_len(width, height) == 0 ==> r.is_some(),
        rgba_len(width, height) > isize::MAX ==> r.is_none(),
        r matches Some(data) ==> data@ == Seq::new(rgba_len(width, height) as nat, |i: int| 0u8),
{
    proof {
        lemma_area_bound(width, height);
    }
    let len: u128 = 4 * ((width as u128) * (height as u128));
    if len > isize::MAX as u128 {
        return None;
    }
    zeroed(len as usize)
}

/// Paints `svg` through `transform` over the pixels in `data`, taken as a bitmap of `width`
/// by `height` pixels with alpha multiplied into the colours, and hands the bitmap out with
/// alpha not multiplied into the colours: what [`straight_alpha`] makes of the painted
/// bitmap.
///
/// Fails with [`Error::RasterizeError`] exactly where `data` is no such bitmap: a side is 0,
/// a row has more than `i32::MAX` bytes, or `data` is not `4 * width * height` bytes long.
pub fn render_into(
    svg: &usvg::Tree,
    transform: tiny_skia::Transform,
    width: u32,
    height: u32,
    data: Vec<u8>,
) -> (r: Result<RasterImage, Error>)
    ensures
        r.is_ok() == (width >= 1 && height >= 1 && 4 * width <= i32::MAX && data@.len()
            == rgba_len(width, height)),
        r matches Ok(image) ==> image@.width == width && image@.height == height
            && image@.is_consistent(),
        r matches Ok(image) ==> image@.has_straight_alpha(),
        r matches Err(e) ==> e is RasterizeError,
{
    match pixmap_of(data, width, height) {
        Some(mut pixmap) => {
            paint(svg, transform, &mut pixmap);
            let ghost painted = pixmap_bytes(pixmap);
            let pixels = pixmap.take_demultiplied();
            assert(pixels@ == straight_alpha(painted));
            Ok(RasterImage { width, height, pixels })
        },
        None => Err(Error::RasterizeError),
    }
}

/// Paints `svg` through `transform` on a fresh, fully transparent bitmap of `width` by
/// `height` pixels, and hands it out with alpha not multiplied into the colours.
///
/// Fails with [`Error::RasterizeError`] for a size that no buffer can have, see
/// [`is_buffer_size`], and where the memory for the buffer cannot be had. Once the buffer is
/// there, [`render_into`] does the rest and does not fail.
pub fn render(svg: &usvg::Tree, transform: tiny_skia::Transform, width: u32, height: u32) -> (r:
    Result<RasterImage, Error>)
    ensures
        !is_buffer_size(width, height) ==> r.is_err(),
        r matches Ok(image) ==> image@.width == width && image@.height == height
            && image@.is_consistent(),
        r matches Ok(image) ==> image@.has_straight_alpha(),
        r matches Err(e) ==> e is RasterizeError,
{
    match blank(width, height) {
        Some(data) => render_into(svg, transform, width, height, data),
        None => Err(Error::RasterizeError),
    }
}

/// Rasterizes `svg` so that it fits a square of `height_in_pixels` pixels, keeping its
/// proportions: a scene that is not wider than high gets exactly that height, a wider one
/// exactly that width. The other side is rounded to the nearest whole pixel, halves upwards,
/// and is never below one pixel.
///
/// The scene is first scaled to the requested height; if that makes it at least as wide as
/// the square, it is scaled to the square's width instead. The same scale is used in both
/// directions. Pixels that the scene does not paint stay fully transparent. The size of the
/// image is [`fitted_size`].
///
/// Fails with [`Error::RasterizeError`], and with no other error: for the height 0, for a
/// scene whose scaled size is not a positive finite number, and where no buffer of the scaled
/// size can be had, be it for the size or for want of memory. Once the buffer is there,
/// [`render_into`] does the rest and does not fail.
pub fn rasterize(svg: &usvg::Tree, height_in_pixels: u16) -> (r: Result<RasterImage, Error>)
    ensures
        height_in_pixels == 0 ==> r.is_err(),
        fitted_size(*svg, height_in_pixels).is_none() ==> r.is_err(),
        fitted_size(*svg, height_in_pixels) matches Some(size) && !is_buffer_size(size.0, size.1)
            ==> r.is_err(),
        r matches Ok(image) ==> fitted_size(*svg, height_in_pixels) == Some(
            (image@.width, image@.height),
        ),
        r matches Ok(image) ==> image@.fits(height_in_pixels),
        r matches Ok(image) ==> image@.has_straight_alpha(),
        r matches Ok(image) ==> if fills_width(*svg, height_in_pixels) {
            image@.width == height_in_pixels
        } else {
            image@.height == height_in_pixels
        },
        r matches Err(e) ==> e is RasterizeError,
{
    let by_height = match scale_to_height(svg, height_in_pixels) {
        Some(scaled) => scaled,
        None => {
            return Err(Error::RasterizeError);
        },
    };
    let scaled = if reaches_width(svg, height_in_pixels) {
        match scale_to_width(svg, height_in_pixels) {
            Some(scaled) => scaled,
            None => {
                return Err(Error::RasterizeError);
            },
        }
    } else {
        by_height
    };
    let transform = scale_onto(svg, &scaled);
    match blank(scaled.width, scaled.height) {
        Some(data) => render_into(svg, transform, scaled.width, scaled.height, data),
        None => Err(Error::RasterizeError),
    }
}

} // verus!
