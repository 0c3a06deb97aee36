//! The box primitive, as far as it is decided by comparing distances: where a
//! ray enters an axis-aligned box, and which face a point of its surface lies
//! on. The caller divides and subtracts; the distances it hands over are on
//! the scale of the module `distance`, with `None` for what is not a number.

use crate::distance::{INFINITE_DISTANCE, MINUS_INFINITE_DISTANCE, ZERO_DISTANCE};
use vstd::prelude::*;

verus! {

/// How close to the plane of a face a point must lie to count as on the face:
/// one ten-thousandth, as a distance.
pub const FACE_TOLERANCE: u32 = 0xB8D1_B717;

/// Where the line of a ray crosses the two planes that bound a box along one
/// axis: the plane through the corner `min` and the plane through the corner
/// `max`. Along an axis in which the ray does not move, a crossing lies at
/// infinity, or is not a number where the ray starts in the plane.
#[derive(Debug, Clone, Copy, PartialEq, Eq, Structural)]
pub struct Crossing {
    pub at_min: Option<u32>,
    pub at_max: Option<u32>,
}

impl Crossing {
    /// The crossing of the `min` plane, infinitely far behind where it is not
    /// a number.
    pub open spec fn first(self) -> u32 {
        match self.at_min {
            Some(distance) => distance,
            None => MINUS_INFINITE_DISTANCE,
        }
    }

    /// The crossing of the `max` plane, infinitely far ahead where it is not
    /// a number.
    pub open spec fn second(self) -> u32 {
        match self.at_max {
            Some(distance) => distance,
            None => INFINITE_DISTANCE,
        }
    }

    /// Where the ray comes between the two planes: the nearer crossing.
    pub open spec fn enter(self) -> u32 {
        if self.first() <= self.second() {
            self.first()
        } else {
            self.second()
        }
    }

    /// Where the ray leaves the space between the two planes: the farther
    /// crossing.
    pub open spec fn leave(self) -> u32 {
        if self.first() <= self.second() {
            self.second()
        } else {
            self.first()
        }
    }
}

/// Where the ray is inside the box for the first time: the last of the three
/// entries.
pub open spec fn box_entry(x: Crossing, y: Crossing, z: Crossing) -> u32 {
    if x.enter() >= y.enter() && x.enter() >= z.enter() {
        x.enter()
    } else if y.enter() >= z.enter() {
        y.enter()
    } else {
        z.enter()
    }
}

/// Where the ray is inside the box for the last time: the first of the three
/// exits.
pub open spec fn box_exit(x: Crossing, y: Crossing, z: Crossing) -> u32 {
    if x.leave() <= y.leave() && x.leave() <= z.leave() {
        x.leave()
    } else if y.leave() <= z.leave() {
        y.leave()
    } else {
        z.leave()
    }
}

/// The distance at which the ray hits the box: its entry, where it enters
/// before it leaves and the box does not lie behind the start of the ray
/// altogether. A ray that starts inside the box has its entry behind it.
pub open spec fn spec_ray_box(x: Crossing, y: Crossing, z: Crossing) -> Option<u32> {
    if box_entry(x, y, z) <= box_exit(x, y, z) && box_exit(x, y, z) >= ZERO_DISTANCE {
        Some(box_entry(x, y, z))
    } else {
        None
    }
}

/// The two crossings of an axis in the order in which the ray meets them.
fn in_order(crossing: Crossing) -> (span: (u32, u32))
    ensures
        span.0 == crossing.enter(),
        span.1 == crossing.leave(),
{
    let mut tmin: u32 = match crossing.at_min {
        Some(distance) => distance,
        None => MINUS_INFINITE_DISTANCE,
    };
    let mut tmax: u32 = match crossing.at_max {
        Some(distance) => distance,
        None => INFINITE_DISTANCE,
    };
    if tmin > tmax {
        let swapped: u32 = tmin;
        tmin = tmax;
        tmax = swapped;
    }
    (tmin, tmax)
}

/// The slab test: takes the stretch of the ray between the planes of each
/// axis and cuts the three stretches with one another, axis by axis. As soon
/// as nothing is left the ray misses the box; it also misses a box that lies
/// behind its start.
pub fn ray_box(x: Crossing, y: Crossing, z: Crossing) -> (distance: Option<u32>)
    ensures
        distance == spec_ray_box(x, y, z),
{
    let (mut tmin, mut tmax) = in_order(x);
    let (tymin, tymax) = in_order(y);

    if tmin > tymax || tymin > tmax {
        return None;
    }
    if tymin > tmin {
        tmin = tymin;
    }
    if tymax < tmax {
        tmax = tymax;
    }

    let (tzmin, tzmax) = in_order(z);

    if tmin > tzmax || tzmin > tmax {
        return None;
    }
    if tzmin > tmin {
        tmin = tzmin;
    }
    if tzmax < tmax {
        tmax = tzmax;
    }

    if tmin < ZERO_DISTANCE && tmax < ZERO_DISTANCE {
        return None;
    }
    Some(tmin)
}

/// The three axes.
#[derive(Debug, Clone, Copy, PartialEq, Eq, Structural)]
pub enum Axis {
    X,
    Y,
    Z,
}

/// The six faces of a box, named by the corner whose plane they lie in and
/// the axis they face.
#[derive(Debug, Clone, Copy, PartialEq, Eq, Structural)]
pub enum Face {
    MinX,
    MaxX,
    MinY,
    MaxY,
    MinZ,
    MaxZ,
}

impl Face {
    /// The unit normal of the face, pointing out of the box.
    pub open spec fn spec_normal(self) -> (i8, i8, i8) {
        match self {
            Face::MinX => (-1i8, 0i8, 0i8),
            Face::MaxX => (1i8, 0i8, 0i8),
            Face::MinY => (0i8, -1i8, 0i8),
            Face::MaxY => (0i8, 1i8, 0i8),
            Face::MinZ => (0i8, 0i8, -1i8),
            Face::MaxZ => (0i8, 0i8, 1i8),
        }
    }

    /// The axes along which the texture coordinates `u` and `v` run on the
    /// face.
    pub open spec fn spec_texture_axes(self) -> (Axis, Axis) {
        match self {
            Face::MinY | Face::MaxY => (Axis::X, Axis::Z),
            Face::MinX | Face::MaxX => (Axis::Z, Axis::Y),
            Face::MinZ | Face::MaxZ => (Axis::X, Axis::Y),
        }
    }

    /// The unit normal of the face, pointing out of the box.
    pub fn normal(&self) -> (normal: (i8, i8, i8))
        ensures
            normal == self.spec_normal(),
    {
        match self {
            Face::MinX => (-1, 0, 0),
            Face::MaxX => (1, 0, 0),
            Face::MinY => (0, -1, 0),
            Face::MaxY => (0, 1, 0),
            Face::MinZ => (0, 0, -1),
            Face::MaxZ => (0, 0, 1),
        }
    }

    /// The axes of `u` and `v` on the face: across and into the box on top
    /// and bottom, into the box and up on the sides, across and up on front
    /// and back.
    pub fn texture_axes(&self) -> (axes: (Axis, Axis))
        ensures
            axes == self.spec_texture_axes(),
    {
        match self {
            Face::MinY | Face::MaxY => (Axis::X, Axis::Z),
            Face::MinX | Face::MaxX => (Axis::Z, Axis::Y),
            Face::MinZ | Face::MaxZ => (Axis::X, Axis::Y),
        }
    }
}

/// How far a point lies from the planes of five faces of a box, as absolute
/// distances. The sixth face, `MaxZ`, is the one a point is taken to lie on
/// when it lies on none of these.
#[derive(Debug, Clone, Copy, PartialEq, Eq, Structural)]
pub struct FaceOffsets {
    pub min_x: Option<u32>,
    pub max_x: Option<u32>,
    pub min_y: Option<u32>,
    pub max_y: Option<u32>,
    pub min_z: Option<u32>,
}

/// Whether an offset puts a point on a face: it is a number, and below the
/// tolerance.
pub open spec fn on_face(offset: Option<u32>) -> bool {
    offset is Some && offset.unwrap() < FACE_TOLERANCE
}

impl FaceOffsets {
    /// The face that gives a point its normal: the first it lies on, taking
    /// the faces in the order `MinX`, `MaxX`, `MinY`, `MaxY`, `MinZ`.
    pub open spec fn spec_normal_face(self) -> Face {
        if on_face(self.min_x) {
            Face::MinX
        } else if on_face(self.max_x) {
            Face::MaxX
        } else if on_face(self.min_y) {
            Face::MinY
        } else if on_face(self.max_y) {
            Face::MaxY
        } else if on_face(self.min_z) {
            Face::MinZ
        } else {
            Face::MaxZ
        }
    }

    /// The face that gives a point its texture coordinates: the first it
    /// lies on, taking the faces in the order `MaxY`, `MinY`, `MinX`, `MaxX`,
    /// `MinZ`.
    pub open spec fn spec_texture_face(self) -> Face {
        if on_face(self.max_y) {
            Face::MaxY
        } else if on_face(self.min_y) {
            Face::MinY
        } else if on_face(self.min_x) {
            Face::MinX
        } else if on_face(self.max_x) {
            Face::MaxX
        } else if on_face(self.min_z) {
            Face::MinZ
        } else {
            Face::MaxZ
        }
    }

    /// The face whose normal the point takes. On an edge or a corner the
    /// left and right faces come before bottom and top, and these before the
    /// front.
    pub fn normal_face(&self) -> (face: Face)
        ensures
            face == self.spec_normal_face(),
    {
        if is_on_face(self.min_x) {
            Face::MinX
        } else if is_on_face(self.max_x) {
            Face::MaxX
        } else if is_on_face(self.min_y) {
            Face::MinY
        } else if is_on_face(self.max_y) {
            Face::MaxY
        } else if is_on_face(self.min_z) {
            Face::MinZ
        } else {
            Face::MaxZ
        }
    }

    /// The face whose texture the point takes. On an edge or a corner top
    /// and bottom come before the left and right faces, and these before
    /// the front.
    pub fn texture_face(&self) -> (face: Face)
        ensures
            face == self.spec_texture_face(),
    {
        if is_on_face(self.max_y) {
            Face::MaxY
        } else if is_on_face(self.min_y) {
            Face::MinY
        } else if is_on_face(self.min_x) {
            Face::MinX
        } else if is_on_face(self.max_x) {
            Face::MaxX
        } else if is_on_face(self.min_z) {
            Face::MinZ
        } else {
            Face::MaxZ
        }
    }
}

fn is_on_face(offset: Option<u32>) -> (on: bool)
    ensures
        on == on_face(offset),
{
    match offset {
        Some(distance) => distance < FACE_TOLERANCE,
        None => false,
    }
}

/// A ray that starts inside the box hits it, at an entry that lies behind
/// the start or at it.
pub proof fn lemma_inside_hits(x: Crossing, y: Crossing, z: Crossing)
    requires
        x.enter() <= ZERO_DISTANCE <= x.leave(),
        y.enter() <= ZERO_DISTANCE <= y.leave(),
        z.enter() <= ZERO_DISTANCE <= z.leave(),
    ensures
        spec_ray_box(x, y, z) == Some(box_entry(x, y, z)),
        box_entry(x, y, z) <= ZERO_DISTANCE,
{
}

/// The hit is the same whichever of the two planes of an axis is called the
/// first, as long as both crossings are numbers.
pub proof fn lemma_planes_may_swap(x: Crossing, y: Crossing, z: Crossing)
    requires
        x.at_min is Some,
        x.at_max is Some,
    ensures
        spec_ray_box(Crossing { at_min: x.at_max, at_max: x.at_min }, y, z) == spec_ray_box(
            x,
            y,
            z,
        ),
{
}

/// Where the ray hits the box, the hit lies between the planes of every
/// axis: not before the entry of any axis and not past the exit of any.
pub proof fn lemma_hit_lies_in_every_slab(x: Crossing, y: Crossing, z: Crossing)
    requires
        spec_ray_box(x, y, z) is Some,
    ensures
        x.enter() <= spec_ray_box(x, y, z).unwrap() <= x.leave(),
        y.enter() <= spec_ray_box(x, y, z).unwrap() <= y.leave(),
        z.enter() <= spec_ray_box(x, y, z).unwrap() <= z.leave(),
{
}

} // verus!
