use svg_to_ico::raster::{render, render_into};
use svg_to_ico::{rasterize, Error, RasterImage};

const SQUARE: &str = r##"<svg xmlns="http://www.w3.org/2000/svg" width="24" height="24" viewBox="0 0 24 24">
  <rect x="0" y="0" width="24" height="24" fill="#326496"/>
</svg>"##;

const LANDSCAPE: &str = r##"<svg xmlns="http://www.w3.org/2000/svg" width="48" height="24" viewBox="0 0 48 24">
  <rect x="0" y="0" width="48" height="24" fill="#326496"/>
</svg>"##;

const UPRIGHT: &str = r##"<svg xmlns="http://www.w3.org/2000/svg" width="24" height="48" viewBox="0 0 24 48">
  <rect x="0" y="0" width="24" height="48" fill="#326496"/>
</svg>"##;

const LEFT_HALF: &str = r##"<svg xmlns="http://www.w3.org/2000/svg" width="24" height="24" viewBox="0 0 24 24">
  <rect x="0" y="0" width="12" height="24" fill="#326496"/>
</svg>"##;

const TRANSLUCENT: &str = r##"<svg xmlns="http://www.w3.org/2000/svg" width="24" height="24" viewBox="0 0 24 24">
  <rect x="0" y="0" width="24" height="24" fill="#ff0000" fill-opacity="0.2"/>
</svg>"##;

const THIRDS: &str = r##"<svg xmlns="http://www.w3.org/2000/svg" width="10" height="30" viewBox="0 0 10 30">
  <rect x="0" y="0" width="10" height="30" fill="#000000"/>
</svg>"##;

fn load_svg(text: &str) -> usvg::Tree {
    let opt = usvg::Options { dpi: 96.0, ..Default::default() };
    usvg::Tree::from_data(text.as_bytes(), &opt).unwrap()
}

fn pixel(image: &RasterImage, x: usize, y: usize) -> Vec<u8> {
    let index = y * image.width() as usize + x;
    image.pixels()[index * 4..(index + 1) * 4].to_vec()
}

#[test]
fn rasterize_should_scale_svg_to_given_height() {
    let svg = load_svg(SQUARE);

    assert_eq!(24.0, svg.size().height());
    assert_eq!(24.0, svg.size().width());

    let image = rasterize(&svg, 400).unwrap();
    assert_eq!(400, image.height());
    assert_eq!(400, image.width());
}

#[test]
fn rasterize_should_set_pixel_colour_correctly() {
    let svg = load_svg(SQUARE);

    let image = rasterize(&svg, 24).unwrap();
    let pixel_index = 24 * 6 + 12;
    let pixel = &image.take()[pixel_index * 4..(pixel_index + 1) * 4];

    assert_eq!(&[50, 100, 150, 255], pixel);
}

#[test]
fn rasterize_should_scale_svg_with_width_longer_than_height() {
    let svg = load_svg(LANDSCAPE);

    assert_eq!(24.0, svg.size().height());
    assert_eq!(48.0, svg.size().width());

    let image = rasterize(&svg, 400).unwrap();
    assert_eq!(200, image.height());
    assert_eq!(400, image.width());
}

#[test]
fn rasterize_gives_a_higher_scene_the_requested_height() {
    let svg = load_svg(UPRIGHT);

    let image = rasterize(&svg, 400).unwrap();
    assert_eq!(400, image.height());
    assert_eq!(200, image.width());
}

#[test]
fn rasterize_rounds_the_derived_side_to_the_nearest_pixel() {
    let svg = load_svg(THIRDS);

    // 10 * 16 / 30 = 5.33, 10 * 5 / 30 = 1.67, 10 * 1 / 30 = 0.33
    let image = rasterize(&svg, 16).unwrap();
    assert_eq!((5, 16), (image.width(), image.height()));
    let image = rasterize(&svg, 5).unwrap();
    assert_eq!((2, 5), (image.width(), image.height()));
    let image = rasterize(&svg, 1).unwrap();
    assert_eq!((1, 1), (image.width(), image.height()));
}

#[test]
fn rasterize_rounds_a_half_pixel_upwards() {
    let svg = load_svg(
        r##"<svg xmlns="http://www.w3.org/2000/svg" width="10" height="20"/>"##,
    );

    let image = rasterize(&svg, 3).unwrap();
    assert_eq!((2, 3), (image.width(), image.height()));
    let image = rasterize(&svg, 1).unwrap();
    assert_eq!((1, 1), (image.width(), image.height()));
    let image = rasterize(&svg, 2001).unwrap();
    assert_eq!((1001, 2001), (image.width(), image.height()));
}

#[test]
fn rasterize_fills_a_buffer_of_four_bytes_for_each_pixel() {
    let svg = load_svg(LANDSCAPE);

    for size in [1u16, 2, 16, 31, 48, 256, 400] {
        let image = rasterize(&svg, size).unwrap();
        let expected = image.width() as usize * image.height() as usize * 4;
        assert_eq!(expected, image.pixels().len());
        assert!(image.width() == size as u32 || image.height() == size as u32);
    }
}

#[test]
fn rasterize_refuses_a_height_of_zero() {
    let svg = load_svg(SQUARE);

    assert!(matches!(rasterize(&svg, 0), Err(Error::RasterizeError)));
}

#[test]
fn rasterize_refuses_a_scene_whose_scaled_size_is_not_finite() {
    let svg = load_svg(
        r##"<svg xmlns="http://www.w3.org/2000/svg" width="1e30" height="1e-10"/>"##,
    );

    assert!(matches!(rasterize(&svg, 400), Err(Error::RasterizeError)));
}

#[test]
fn rasterize_leaves_unpainted_pixels_transparent() {
    let svg = load_svg(LEFT_HALF);

    let image = rasterize(&svg, 24).unwrap();
    assert_eq!(vec![50, 100, 150, 255], pixel(&image, 3, 10));
    assert_eq!(vec![0, 0, 0, 0], pixel(&image, 20, 10));
}

#[test]
fn rasterize_scales_what_it_paints() {
    let svg = load_svg(LEFT_HALF);

    let image = rasterize(&svg, 48).unwrap();
    assert_eq!((48, 48), (image.width(), image.height()));
    assert_eq!(vec![50, 100, 150, 255], pixel(&image, 20, 40));
    assert_eq!(vec![0, 0, 0, 0], pixel(&image, 30, 40));

    let image = rasterize(&svg, 12).unwrap();
    assert_eq!(vec![50, 100, 150, 255], pixel(&image, 4, 10));
    assert_eq!(vec![0, 0, 0, 0], pixel(&image, 8, 10));
}

#[test]
fn rasterize_keeps_colours_apart_from_alpha() {
    let svg = load_svg(TRANSLUCENT);

    let image = rasterize(&svg, 24).unwrap();
    assert_eq!(vec![255, 0, 0, 51], pixel(&image, 12, 12));
}

#[test]
fn rasterize_twice_gives_the_same_image() {
    let svg = load_svg(LEFT_HALF);

    let first = rasterize(&svg, 40).unwrap();
    let second = rasterize(&svg, 40).unwrap();
    assert_eq!(first.pixels(), second.pixels());
}

#[test]
fn render_paints_through_the_given_transform() {
    let svg = load_svg(LEFT_HALF);

    let image = render(&svg, tiny_skia::Transform::from_scale(2.0, 1.0), 48, 24).unwrap();
    assert_eq!((48, 24), (image.width(), image.height()));
    assert_eq!(48 * 24 * 4, image.pixels().len());
    assert_eq!(vec![50, 100, 150, 255], pixel(&image, 20, 10));
    assert_eq!(vec![0, 0, 0, 0], pixel(&image, 30, 10));
}

#[test]
fn render_refuses_sizes_without_a_buffer() {
    let svg = load_svg(SQUARE);
    let identity = tiny_skia::Transform::identity();

    assert!(matches!(render(&svg, identity, 0, 24), Err(Error::RasterizeError)));
    assert!(matches!(render(&svg, identity, 24, 0), Err(Error::RasterizeError)));
    assert!(matches!(render(&svg, identity, 0x2000_0000, 1), Err(Error::RasterizeError)));
}

#[test]
fn render_into_takes_a_buffer_of_the_right_length_only() {
    let svg = load_svg(SQUARE);
    let identity = tiny_skia::Transform::identity();

    let image = render_into(&svg, identity, 3, 2, vec![0; 24]).unwrap();
    assert_eq!((3, 2), (image.width(), image.height()));
    assert_eq!(24, image.pixels().len());

    for length in [0usize, 23, 25, 48] {
        let refused = render_into(&svg, identity, 3, 2, vec![0; length]);
        assert!(matches!(refused, Err(Error::RasterizeError)));
    }
    assert!(matches!(render_into(&svg, identity, 0, 2, Vec::new()), Err(Error::RasterizeError)));
    assert!(matches!(render_into(&svg, identity, 3, 0, Vec::new()), Err(Error::RasterizeError)));
    let too_wide = render_into(&svg, identity, 0x2000_0000, 1, Vec::new());
    assert!(matches!(too_wide, Err(Error::RasterizeError)));
}

#[test]
fn render_into_paints_over_what_the_buffer_holds() {
    let svg = load_svg(LEFT_HALF);
    let identity = tiny_skia::Transform::identity();
    let backdrop: Vec<u8> = (0..24 * 24).flat_map(|_| [10u8, 20, 30, 255]).collect();

    let image = render_into(&svg, identity, 24, 24, backdrop).unwrap();
    assert_eq!(vec![50, 100, 150, 255], pixel(&image, 3, 10));
    assert_eq!(vec![10, 20, 30, 255], pixel(&image, 20, 10));
}

#[test]
fn render_is_render_into_a_transparent_buffer() {
    let svg = load_svg(TRANSLUCENT);
    let scale = tiny_skia::Transform::from_scale(0.5, 0.25);

    let fresh = render(&svg, scale, 12, 6).unwrap();
    let given = render_into(&svg, scale, 12, 6, vec![0; 12 * 6 * 4]).unwrap();
    assert_eq!(fresh.pixels(), given.pixels());
    assert_eq!(vec![255, 0, 0, 51], pixel(&fresh, 5, 3));
}

#[test]
fn raster_image_takes_a_buffer_of_the_right_length_only() {
    let image = RasterImage::new(2, 3, vec![7; 24]).unwrap();
    assert_eq!(2, image.width());
    assert_eq!(3, image.height());
    assert_eq!(&vec![7u8; 24], image.pixels());
    assert_eq!(vec![7u8; 24], image.take());

    assert!(RasterImage::new(2, 3, vec![7; 23]).is_none());
    assert!(RasterImage::new(2, 3, vec![7; 25]).is_none());
    assert!(RasterImage::new(2, 3, Vec::new()).is_none());
    assert!(RasterImage::new(0, 3, vec![7; 12]).is_none());
    assert!(RasterImage::new(u32::MAX, u32::MAX, vec![7; 4]).is_none());
}

#[test]
fn raster_image_may_be_empty() {
    let image = RasterImage::new(0, 5, Vec::new()).unwrap();
    assert_eq!(0, image.width());
    assert_eq!(5, image.height());
    assert!(image.pixels().is_empty());
}
