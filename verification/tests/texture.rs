use diorama::color::Color;
use diorama::texture::Texture;
use image::{DynamicImage, GrayImage, Luma, Rgb, RgbImage, Rgba, RgbaImage};

fn three_by_two() -> DynamicImage {
    let mut img = RgbImage::new(3, 2);
    img.put_pixel(0, 0, Rgb([10, 11, 12]));
    img.put_pixel(1, 0, Rgb([20, 21, 22]));
    img.put_pixel(2, 0, Rgb([30, 31, 32]));
    img.put_pixel(0, 1, Rgb([40, 41, 42]));
    img.put_pixel(1, 1, Rgb([50, 51, 52]));
    img.put_pixel(2, 1, Rgb([60, 61, 62]));
    DynamicImage::ImageRgb8(img)
}

#[test]
fn texture_takes_the_size_of_the_image() {
    let texture = Texture::new(&three_by_two());
    assert_eq!(texture.width(), 3);
    assert_eq!(texture.height(), 2);
}

#[test]
fn texture_copies_every_pixel_to_its_place() {
    let texture = Texture::new(&three_by_two());
    assert_eq!(texture.get_color(0, 0), Color::new(10, 11, 12));
    assert_eq!(texture.get_color(1, 0), Color::new(20, 21, 22));
    assert_eq!(texture.get_color(2, 0), Color::new(30, 31, 32));
    assert_eq!(texture.get_color(0, 1), Color::new(40, 41, 42));
    assert_eq!(texture.get_color(1, 1), Color::new(50, 51, 52));
    assert_eq!(texture.get_color(2, 1), Color::new(60, 61, 62));
}

#[test]
fn out_of_range_lookup_is_magenta() {
    let texture = Texture::new(&three_by_two());
    let magenta = Color::from_hex(0xFF00FF);
    assert_eq!(magenta, Color::new(255, 0, 255));
    assert_eq!(texture.get_color(3, 0), magenta);
    assert_eq!(texture.get_color(0, 2), magenta);
    assert_eq!(texture.get_color(3, 2), magenta);
    assert_eq!(texture.get_color(usize::MAX, 0), magenta);
    assert_eq!(texture.get_color(0, usize::MAX), magenta);
    assert_eq!(texture.get_color(usize::MAX, usize::MAX), magenta);
}

#[test]
fn empty_image_gives_an_empty_texture() {
    let texture = Texture::new(&DynamicImage::ImageRgb8(RgbImage::new(0, 0)));
    assert_eq!(texture.width(), 0);
    assert_eq!(texture.height(), 0);
    assert_eq!(texture.get_color(0, 0), Color::new(255, 0, 255));
}

#[test]
fn grey_pixels_become_equal_channels() {
    let mut img = GrayImage::new(2, 1);
    img.put_pixel(0, 0, Luma([100]));
    img.put_pixel(1, 0, Luma([7]));
    let texture = Texture::new(&DynamicImage::ImageLuma8(img));
    assert_eq!(texture.get_color(0, 0), Color::new(100, 100, 100));
    assert_eq!(texture.get_color(1, 0), Color::new(7, 7, 7));
}

#[test]
fn alpha_is_dropped() {
    let mut img = RgbaImage::new(1, 2);
    img.put_pixel(0, 0, Rgba([1, 2, 3, 0]));
    img.put_pixel(0, 1, Rgba([4, 5, 6, 255]));
    let texture = Texture::new(&DynamicImage::ImageRgba8(img));
    assert_eq!(texture.width(), 1);
    assert_eq!(texture.height(), 2);
    assert_eq!(texture.get_color(0, 0), Color::new(1, 2, 3));
    assert_eq!(texture.get_color(0, 1), Color::new(4, 5, 6));
}

#[test]
fn from_colors_lays_rows_out_from_the_top() {
    let colors = vec![
        Color::new(1, 0, 0),
        Color::new(2, 0, 0),
        Color::new(3, 0, 0),
        Color::new(4, 0, 0),
        Color::new(5, 0, 0),
        Color::new(6, 0, 0),
    ];
    let texture = Texture::from_colors(2, 3, colors).unwrap();
    assert_eq!(texture.width(), 2);
    assert_eq!(texture.height(), 3);
    assert_eq!(texture.get_color(0, 0), Color::new(1, 0, 0));
    assert_eq!(texture.get_color(1, 0), Color::new(2, 0, 0));
    assert_eq!(texture.get_color(0, 1), Color::new(3, 0, 0));
    assert_eq!(texture.get_color(1, 2), Color::new(6, 0, 0));
    assert_eq!(texture.get_color(2, 0), Color::new(255, 0, 255));
}

#[test]
fn from_colors_wants_whole_rows() {
    assert!(Texture::from_colors(2, 2, vec![Color::black(); 3]).is_none());
    assert!(Texture::from_colors(2, 2, vec![Color::black(); 5]).is_none());
    assert!(Texture::from_colors(2, 2, vec![Color::black(); 4]).is_some());
    assert!(Texture::from_colors(0, 7, Vec::new()).is_some());
    assert!(Texture::from_colors(usize::MAX, 2, Vec::new()).is_none());
    assert!(Texture::from_colors(usize::MAX, usize::MAX, vec![Color::black()]).is_none());
}

#[test]
fn clone_keeps_the_pixels() {
    let texture = Texture::new(&three_by_two());
    let copy = texture.clone();
    assert_eq!(copy.width(), 3);
    assert_eq!(copy.height(), 2);
    assert_eq!(copy.get_color(2, 1), Color::new(60, 61, 62));
    assert_eq!(texture.get_color(2, 1), Color::new(60, 61, 62));
}
