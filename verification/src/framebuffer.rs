//! The frame being drawn: a grid of packed `0xRRGGBB` pixels with a current
//! drawing color, and the render pass that fills it pixel by pixel.

use crate::color::Color;
use crate::grid::{cell_index, lemma_cell_index};
use vstd::prelude::*;

verus! {

/// What a framebuffer is: its dimensions, its pixels row by row from the
/// top, and the color that `point` draws with.
pub struct FramebufferView {
    pub width: nat,
    pub height: nat,
    pub pixels: Seq<u32>,
    pub current_color: u32,
}

impl FramebufferView {
    /// The pixel in column `x` of row `y`.
    pub open spec fn pixel(self, x: int, y: int) -> u32
        recommends
            0 <= x < self.width,
            0 <= y < self.height,
    {
        self.pixels[cell_index(self.width as int, x, y)]
    }
}

/// A `width` by `height` grid of packed pixels.
#[derive(Debug)]
pub struct Framebuffer {
    width: usize,
    height: usize,
    buffer: Vec<u32>,
    current_color: u32,
}

impl View for Framebuffer {
    type V = FramebufferView;

    closed spec fn view(&self) -> FramebufferView {
        FramebufferView {
            width: self.width as nat,
            height: self.height as nat,
            pixels: self.buffer@,
            current_color: self.current_color,
        }
    }
}

impl Framebuffer {
    #[verifier::type_invariant]
    spec fn holds_whole_rows(&self) -> bool {
        self.buffer@.len() == self.width * self.height
    }

    /// A framebuffer with every pixel black and white as the drawing color.
    pub fn new(width: usize, height: usize) -> (framebuffer: Framebuffer)
        requires
            width * height <= usize::MAX,
        ensures
            framebuffer@ == (FramebufferView {
                width: width as nat,
                height: height as nat,
                pixels: Seq::new((width * height) as nat, |i: int| 0u32),
                current_color: 0xFFFFFF,
            }),
    {
        let buffer: Vec<u32> = vec![0; width * height];
        assert(buffer@ =~= Seq::new((width * height) as nat, |i: int| 0u32));
        Framebuffer { width, height, buffer, current_color: 0xFFFFFF }
    }

    /// Number of pixel columns.
    pub fn width(&self) -> (width: usize)
        ensures
            width == self@.width,
    {
        self.width
    }

    /// Number of pixel rows.
    pub fn height(&self) -> (height: usize)
        ensures
            height == self@.height,
    {
        self.height
    }

    /// The pixels, row by row from the top, `width * height` of them.
    pub fn buffer(&self) -> (pixels: &Vec<u32>)
        ensures
            pixels@ == self@.pixels,
            pixels@.len() == self@.width * self@.height,
    {
        proof {
            use_type_invariant(self);
        }
        &self.buffer
    }

    /// Chooses the color that `point` draws with.
    pub fn set_current_color(&mut self, color: u32)
        ensures
            final(self)@ == (FramebufferView { current_color: color, ..old(self)@ }),
    {
        proof {
            use_type_invariant(&*self);
        }
        self.current_color = color;
    }

    /// Gives the pixel in column `x` of row `y` the current color. A
    /// position outside the frame changes nothing.
    pub fn point(&mut self, x: usize, y: usize)
        ensures
            x < old(self)@.width && y < old(self)@.height ==> final(self)@ == (FramebufferView {
                pixels: old(self)@.pixels.update(
                    cell_index(old(self)@.width as int, x as int, y as int),
                    old(self)@.current_color,
                ),
                ..old(self)@
            }),
            !(x < old(self)@.width && y < old(self)@.height) ==> final(self)@ == old(self)@,
    {
        proof {
            use_type_invariant(&*self);
            assert(self.buffer@.len() == self.buffer.len());
        }
        if x < self.width && y < self.height {
            proof {
                lemma_cell_index(self.width as int, self.height as int, x as int, y as int);
            }
            let index: usize = y * self.width + x;
            self.buffer[index] = self.current_color;
        }
    }
}

/// Whether `hex` is the packed form of a color that `shade` may return for
/// the pixel in column `x` of row `y`.
pub open spec fn shaded_by<F: Fn(usize, usize) -> Color>(
    shade: F,
    x: usize,
    y: usize,
    hex: u32,
) -> bool {
    exists|color: Color| #[trigger] call_ensures(shade, (x, y), color) && hex == color.spec_to_hex()
}

/// Fills the frame: asks `shade` for the color of every pixel, row by row
/// from the top and left to right within a row, and stores each packed. The
/// drawing color is left at the color of the last pixel.
pub fn render<F: Fn(usize, usize) -> Color>(framebuffer: &mut Framebuffer, shade: F)
    requires
        forall|x: usize, y: usize|
            x < old(framebuffer)@.width && y < old(framebuffer)@.height ==> call_requires(
                shade,
                (x, y),
            ),
    ensures
        final(framebuffer)@.width == old(framebuffer)@.width,
        final(framebuffer)@.height == old(framebuffer)@.height,
        final(framebuffer)@.pixels.len() == old(framebuffer)@.width * old(framebuffer)@.height,
        forall|x: usize, y: usize|
            x < old(framebuffer)@.width && y < old(framebuffer)@.height ==> shaded_by(
                shade,
                x,
                y,
                #[trigger] final(framebuffer)@.pixel(x as int, y as int),
            ),
        final(framebuffer)@.current_color == if final(framebuffer)@.pixels.len() == 0 {
            old(framebuffer)@.current_color
        } else {
            final(framebuffer)@.pixels.last()
        },
{
    proof {
        use_type_invariant(&*framebuffer);
    }
    let width: usize = framebuffer.width();
    let height: usize = framebuffer.height();
    let mut y: usize = 0;
    while y < height
        invariant
            y <= height,
            framebuffer@.width == width == old(framebuffer)@.width,
            framebuffer@.height == height == old(framebuffer)@.height,
            framebuffer@.pixels.len() == width * height,
            forall|x: usize, y: usize| x < width && y < height ==> call_requires(shade, (x, y)),
            forall|i: usize, j: usize|
                i < width && j < y ==> shaded_by(
                    shade,
                    i,
                    j,
                    #[trigger] framebuffer@.pixel(i as int, j as int),
                ),
            framebuffer@.current_color == if y * width == 0 {
                old(framebuffer)@.current_color
            } else {
                framebuffer@.pixels[y * width - 1]
            },
        decreases height - y,
    {
        let mut x: usize = 0;
        while x < width
            invariant
                x <= width,
                y < height,
                framebuffer@.width == width == old(framebuffer)@.width,
                framebuffer@.height == height == old(framebuffer)@.height,
                framebuffer@.pixels.len() == width * height,
                forall|x: usize, y: usize| x < width && y < height ==> call_requires(shade, (x, y)),
                forall|i: usize, j: usize|
                    i < width && j < y ==> shaded_by(
                        shade,
                        i,
                        j,
                        #[trigger] framebuffer@.pixel(i as int, j as int),
                    ),
                forall|i: usize|
                    i < x ==> shaded_by(shade, i, y, #[trigger] framebuffer@.pixel(i as int, y as int)),
                framebuffer@.current_color == if y * width + x == 0 {
                    old(framebuffer)@.current_color
                } else {
                    framebuffer@.pixels[y * width + x - 1]
                },
            decreases width - x,
        {
            let pixel_color = shade(x, y);
            let ghost before = framebuffer@;
            framebuffer.set_current_color(pixel_color.to_hex());
            framebuffer.point(x, y);
            proof {
                let at = cell_index(width as int, x as int, y as int);
                lemma_cell_index(width as int, height as int, x as int, y as int);
                assert(framebuffer@.pixels == before.pixels.update(at, pixel_color.spec_to_hex()));
                assert forall|i: usize, j: usize| i < width && j < y implies shaded_by(
                    shade,
                    i,
                    j,
                    #[trigger] framebuffer@.pixel(i as int, j as int),
                ) by {
                    lemma_cell_index(width as int, height as int, i as int, j as int);
                    assert(cell_index(width as int, i as int, j as int) != at);
                    assert(framebuffer@.pixel(i as int, j as int) == before.pixel(
                        i as int,
                        j as int,
                    ));
                }
                assert forall|i: usize| i < x + 1 implies shaded_by(
                    shade,
                    i,
                    y,
                    #[trigger] framebuffer@.pixel(i as int, y as int),
                ) by {
                    lemma_cell_index(width as int, height as int, i as int, y as int);
                    if i < x {
                        assert(framebuffer@.pixel(i as int, y as int) == before.pixel(
                            i as int,
                            y as int,
                        ));
                    }
                }
            }
            x += 1;
        }
        proof {
            assert(y * width + width == (y + 1) * width) by (nonlinear_arith);
        }
        y += 1;
    }
    proof {
        assert(height * width == width * height) by (nonlinear_arith);
    }
}

} // verus!
