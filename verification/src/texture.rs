//! Textures: a decoded image kept as a grid of colors, read by pixel
//! coordinate. Decoding is the `image` crate's work; this module copies the
//! pixels out of a decoded image and answers lookups from its own copy.

use crate::color::Color;
use crate::grid::{cell_index, lemma_cell_index};
use image::{DynamicImage, GenericImageView, Pixel};
use vstd::prelude::*;

verus! {

/// `image::DynamicImage`, a decoded image of any pixel format. Nothing inside
/// it is visible to the proofs.
#[verifier::external_type_specification]
#[verifier::external_body]
pub struct ExDynamicImage(image::DynamicImage);

/// Number of pixel columns of a decoded image, as `DynamicImage::width` reports it.
pub uninterp spec fn image_width(image: DynamicImage) -> u32;

/// Number of pixel rows of a decoded image, as `DynamicImage::height` reports it.
pub uninterp spec fn image_height(image: DynamicImage) -> u32;

/// Red, green and blue of the pixel in column `x` of row `y`, as
/// `get_pixel(x, y).to_rgb()` converts it to 8 bits per channel.
pub uninterp spec fn image_rgb(image: DynamicImage, x: u32, y: u32) -> (u8, u8, u8);

/// Calls `DynamicImage::width`. Trusted: the result is the image's width, the
/// same on every call for the same image.
#[verifier::external_body]
fn width_of(image: &DynamicImage) -> (width: u32)
    ensures
        width == image_width(*image),
{
    image.width()
}

/// Calls `DynamicImage::height`. Trusted: the result is the image's height,
/// the same on every call for the same image.
#[verifier::external_body]
fn height_of(image: &DynamicImage) -> (height: u32)
    ensures
        height == image_height(*image),
{
    image.height()
}

/// Calls `GenericImageView::get_pixel` on a `DynamicImage` and `Pixel::to_rgb`
/// on the pixel it returns. Trusted: inside the image's bounds the call
/// returns (outside them it panics), and the three channels depend on the
/// image and the position alone.
#[verifier::external_body]
fn rgb_at(image: &DynamicImage, x: u32, y: u32) -> (rgb: (u8, u8, u8))
    requires
        x < image_width(*image),
        y < image_height(*image),
    ensures
        rgb == image_rgb(*image, x, y),
{
    let pixel = image.get_pixel(x, y).to_rgb();
    (pixel[0], pixel[1], pixel[2])
}

/// The color returned for a position outside a texture.
pub open spec fn out_of_range_color() -> Color {
    Color { r: 0xFF, g: 0, b: 0xFF }
}

/// What a texture is: its dimensions and its colors, row by row from the top.
pub struct TextureView {
    pub width: nat,
    pub height: nat,
    pub pixels: Seq<Color>,
}

impl TextureView {
    /// The color at column `x` of row `y`; the out-of-range color for a
    /// position that the texture does not have.
    pub open spec fn color_at(self, x: int, y: int) -> Color {
        if 0 <= x < self.width && 0 <= y < self.height {
            self.pixels[cell_index(self.width as int, x, y)]
        } else {
            out_of_range_color()
        }
    }
}

/// The color of the pixel of `image` that lands at position `i` of a
/// row-major copy.
pub open spec fn image_color(image: DynamicImage, i: int) -> Color {
    let width = image_width(image) as int;
    let rgb = image_rgb(image, (i % width) as u32, (i / width) as u32);
    Color { r: rgb.0, g: rgb.1, b: rgb.2 }
}

/// The texture that holds the pixels of `image`.
pub open spec fn texture_of(image: DynamicImage) -> TextureView {
    TextureView {
        width: image_width(image) as nat,
        height: image_height(image) as nat,
        pixels: Seq::new(
            (image_width(image) * image_height(image)) as nat,
            |i: int| image_color(image, i),
        ),
    }
}

/// A grid of colors, fixed once built.
#[derive(Debug)]
pub struct Texture {
    width: usize,
    height: usize,
    color_array: Vec<Color>,
}

impl View for Texture {
    type V = TextureView;

    closed spec fn view(&self) -> TextureView {
        TextureView {
            width: self.width as nat,
            height: self.height as nat,
            pixels: self.color_array@,
        }
    }
}

impl Clone for Texture {
    fn clone(&self) -> (copy: Texture)
        ensures
            copy@ == self@,
    {
        proof {
            use_type_invariant(self);
        }
        let color_array = self.color_array.clone();
        assert(color_array@ =~= self.color_array@);
        Texture { width: self.width, height: self.height, color_array }
    }
}

impl Texture {
    #[verifier::type_invariant]
    spec fn holds_whole_rows(&self) -> bool {
        self.color_array@.len() == self.width * self.height
    }

    /// The texture of the given colors, row by row from the top. `None`
    /// unless `colors` holds exactly `width * height` colors.
    pub fn from_colors(width: usize, height: usize, colors: Vec<Color>) -> (texture: Option<
        Texture,
    >)
        ensures
            texture.is_some() <==> colors@.len() == width * height,
            texture matches Some(t) ==> t@ == (TextureView {
                width: width as nat,
                height: height as nat,
                pixels: colors@,
            }),
    {
        let held: usize = colors.len();
        match width.checked_mul(height) {
            Some(count) => {
                if held == count {
                    Some(Texture { width, height, color_array: colors })
                } else {
                    None
                }
            },
            None => None,
        }
    }

    /// Copies the pixels of a decoded image, each converted to 8-bit RGB.
    pub fn new(image: &DynamicImage) -> (texture: Texture)
        ensures
            texture@ == texture_of(*image),
    {
        let width: u32 = width_of(image);
        let height: u32 = height_of(image);
        let color_array = Texture::load_color_array(image, width, height);
        Texture { width: width as usize, height: height as usize, color_array }
    }

    fn load_color_array(image: &DynamicImage, width: u32, height: u32) -> (colors: Vec<Color>)
        requires
            width == image_width(*image),
            height == image_height(*image),
        ensures
            colors@ == texture_of(*image).pixels,
    {
        let ghost pixels = texture_of(*image).pixels;
        let mut colors: Vec<Color> = Vec::new();
        let mut y: u32 = 0;
        assert(colors@ =~= pixels.take(0));
        while y < height
            invariant
                y <= height,
                width == image_width(*image),
                height == image_height(*image),
                pixels == texture_of(*image).pixels,
                0 <= y * width <= pixels.len(),
                colors@ == pixels.take(y * width),
            decreases height - y,
        {
            let mut x: u32 = 0;
            while x < width
                invariant
                    x <= width,
                    y < height,
                    width == image_width(*image),
                    height == image_height(*image),
                    pixels == texture_of(*image).pixels,
                    0 <= y * width + x <= pixels.len(),
                    colors@ == pixels.take(y * width + x),
                decreases width - x,
            {
                let rgb = rgb_at(image, x, y);
                let color = Color::new(rgb.0, rgb.1, rgb.2);
                proof {
                    lemma_cell_index(width as int, height as int, x as int, y as int);
                    assert(pixels[y * width + x] == color);
                    assert(pixels.take(y * width + x).push(color) =~= pixels.take(
                        y * width + x + 1,
                    ));
                }
                colors.push(color);
                x += 1;
            }
            proof {
                assert(y * width + width == (y + 1) * width) by (nonlinear_arith);
            }
            y += 1;
        }
        proof {
            assert(height * width == width * height) by (nonlinear_arith);
            assert(pixels.take(pixels.len() as int) =~= pixels);
        }
        colors
    }

    /// Number of pixel columns.
    pub fn width(&self) -> (width: usize)
        ensures
            width == self@.width,
    {
        self.width
    }

    /// Number of pixel rows.
    pub fn height(&self) -> (height: usize)
        ensures
            height == self@.height,
    {
        self.height
    }

    /// The color at column `x` of row `y`, counted from the top left; magenta
    /// for a position outside the texture.
    pub fn get_color(&self, x: usize, y: usize) -> (color: Color)
        ensures
            color == self@.color_at(x as int, y as int),
    {
        if x >= self.width || y >= self.height {
            Color::from_hex(0xFF00FF)
        } else {
            proof {
                use_type_invariant(self);
                assert(self.color_array@.len() == self.color_array.len());
                lemma_cell_index(self.width as int, self.height as int, x as int, y as int);
            }
            self.color_array[y * self.width + x]
        }
    }
}

} // verus!
