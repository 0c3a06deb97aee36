//! The verified side of a small recursive ray tracer.
//!
//! The tracer renders a scene of boxes with diffuse and specular light,
//! mirrors, glass, hard shadows, textures and surfaces that give off light.
//! Its arithmetic is floating-point work and is done by the caller; this
//! library holds everything that is decided on integers or by comparing
//! distances, and every function in it is proved against its contract:
//!
//! - [`color`]: 8-bit colors with saturating addition and `0xRRGGBB` packing;
//! - [`texture`]: the pixels of a decoded image, looked up by position;
//! - [`distance`]: the integer scale on which distances are compared;
//! - [`cube`] and [`sphere`]: the slab test of ray and box with the faces of
//!   a box, and the choice of the root for a sphere;
//! - [`trace`]: the recursion of the tracer, bounded in depth, with the
//!   nearest-hit scan and the shadow test;
//! - [`framebuffer`]: the frame of packed pixels and the pass that fills it;
//! - [`bmp`]: the bitmap file of a finished frame;
//! - [`sky`] and [`redraw`]: the day/night switch and the redraw flag of the
//!   frame loop;
//! - [`grid`]: row-major addressing, shared by the modules above.

pub mod bmp;
pub mod color;
pub mod cube;
pub mod distance;
pub mod framebuffer;
pub mod grid;
pub mod redraw;
pub mod sky;
pub mod sphere;
pub mod texture;
pub mod trace;
