use diorama::cube::{ray_box, Axis, Crossing, Face, FaceOffsets, FACE_TOLERANCE};
use diorama::distance::{distance_bits, distance_key};

fn key(value: f32) -> Option<u32> {
    distance_key(value.to_bits())
}

fn number(distance: u32) -> f32 {
    f32::from_bits(distance_bits(distance))
}

/// The crossings of a ray with the box between `min` and `max`, axis by axis.
fn crossings(min: [f32; 3], max: [f32; 3], origin: [f32; 3], direction: [f32; 3]) -> [Crossing; 3] {
    let axis = |i: usize| Crossing {
        at_min: key((min[i] - origin[i]) / direction[i]),
        at_max: key((max[i] - origin[i]) / direction[i]),
    };
    [axis(0), axis(1), axis(2)]
}

fn hit(min: [f32; 3], max: [f32; 3], origin: [f32; 3], direction: [f32; 3]) -> Option<f32> {
    let [x, y, z] = crossings(min, max, origin, direction);
    ray_box(x, y, z).map(number)
}

/// The offsets of a point from the faces of the box between `min` and `max`.
fn offsets(min: [f32; 3], max: [f32; 3], point: [f32; 3]) -> FaceOffsets {
    FaceOffsets {
        min_x: key((point[0] - min[0]).abs()),
        max_x: key((point[0] - max[0]).abs()),
        min_y: key((point[1] - min[1]).abs()),
        max_y: key((point[1] - max[1]).abs()),
        min_z: key((point[2] - min[2]).abs()),
    }
}

const LOW: [f32; 3] = [-1.0, -1.0, -1.0];
const HIGH: [f32; 3] = [1.0, 1.0, 1.0];

#[test]
fn ray_down_the_z_axis_hits_the_unit_box_at_four() {
    let distance = hit(LOW, HIGH, [0.0, 0.0, 5.0], [0.0, 0.0, -1.0]);
    assert_eq!(distance, Some(4.0));
    // The hit point is (0, 0, 5) + 4 (0, 0, -1) = (0, 0, 1).
    let face = offsets(LOW, HIGH, [0.0, 0.0, 1.0]).normal_face();
    assert_eq!(face, Face::MaxZ);
    assert_eq!(face.normal(), (0, 0, 1));
}

#[test]
fn rays_along_the_other_axes_hit_at_four_too() {
    assert_eq!(hit(LOW, HIGH, [5.0, 0.0, 0.0], [-1.0, 0.0, 0.0]), Some(4.0));
    assert_eq!(hit(LOW, HIGH, [-5.0, 0.0, 0.0], [1.0, 0.0, 0.0]), Some(4.0));
    assert_eq!(hit(LOW, HIGH, [0.0, 5.0, 0.0], [0.0, -1.0, 0.0]), Some(4.0));
    assert_eq!(hit(LOW, HIGH, [0.0, 0.0, -5.0], [0.0, 0.0, 1.0]), Some(4.0));
    assert_eq!(offsets(LOW, HIGH, [1.0, 0.0, 0.0]).normal_face().normal(), (1, 0, 0));
    assert_eq!(offsets(LOW, HIGH, [-1.0, 0.0, 0.0]).normal_face().normal(), (-1, 0, 0));
    assert_eq!(offsets(LOW, HIGH, [0.0, 1.0, 0.0]).normal_face().normal(), (0, 1, 0));
    assert_eq!(offsets(LOW, HIGH, [0.0, 0.0, -1.0]).normal_face().normal(), (0, 0, -1));
}

#[test]
fn ray_past_the_box_misses() {
    assert_eq!(hit(LOW, HIGH, [5.0, 0.0, 5.0], [0.0, 0.0, -1.0]), None);
    assert_eq!(hit(LOW, HIGH, [0.0, 1.5, 5.0], [0.0, 0.0, -1.0]), None);
    assert_eq!(hit(LOW, HIGH, [0.0, 0.0, 5.0], [1.0, 0.0, 0.0]), None);
    assert_eq!(hit(LOW, HIGH, [3.0, 3.0, 0.0], [-1.0, 0.0, -1.0]), None);
}

#[test]
fn box_behind_the_ray_misses() {
    assert_eq!(hit(LOW, HIGH, [0.0, 0.0, 5.0], [0.0, 0.0, 1.0]), None);
    assert_eq!(hit(LOW, HIGH, [-5.0, 0.0, 0.0], [-1.0, 0.0, 0.0]), None);
}

#[test]
fn ray_from_inside_has_its_entry_behind_it() {
    assert_eq!(hit(LOW, HIGH, [0.0, 0.0, 0.0], [0.0, 0.0, -1.0]), Some(-1.0));
    assert_eq!(hit(LOW, HIGH, [0.5, 0.0, 0.0], [1.0, 0.0, 0.0]), Some(-1.5));
}

#[test]
fn slanted_ray_enters_where_the_last_slab_begins() {
    // From (-3, -2, 0) along (1, 1, 0): x is entered at 2, y at 1, both are left at 3 or later.
    assert_eq!(hit(LOW, HIGH, [-3.0, -2.0, 0.0], [1.0, 1.0, 0.0]), Some(2.0));
    // From (-3, 0.5, 0) along (1, 1, 0): y is left at 0.5, before x is entered at 2.
    assert_eq!(hit(LOW, HIGH, [-3.0, 0.5, 0.0], [1.0, 1.0, 0.0]), None);
    // Through the edge: x is entered at 2, where y is left.
    assert_eq!(hit(LOW, HIGH, [-3.0, -1.0, 0.0], [1.0, 1.0, 0.0]), Some(2.0));
}

#[test]
fn corners_may_be_given_in_either_order() {
    let swapped_low = [-8.0, 7.0, -1.0];
    let swapped_high = [-6.0, 5.0, 1.0];
    let low = [-8.0, 5.0, -1.0];
    let high = [-6.0, 7.0, 1.0];
    let rays: [([f32; 3], [f32; 3]); 4] = [
        ([-7.0, 6.0, 5.0], [0.0, 0.0, -1.0]),
        ([-7.0, 10.0, 0.0], [0.0, -1.0, 0.0]),
        ([0.0, 6.0, 0.0], [-1.0, 0.0, 0.0]),
        ([0.0, 0.0, 0.0], [0.0, 1.0, 0.0]),
    ];
    for &(origin, direction) in rays.iter() {
        assert_eq!(
            hit(swapped_low, swapped_high, origin, direction),
            hit(low, high, origin, direction)
        );
    }
    assert_eq!(hit(swapped_low, swapped_high, [-7.0, 10.0, 0.0], [0.0, -1.0, 0.0]), Some(3.0));
}

#[test]
fn ray_that_starts_in_a_face_plane_and_runs_along_it() {
    // x: (-1 - 1) / 0 is minus infinity, (1 - 1) / 0 is not a number.
    let [x, y, z] = crossings(LOW, HIGH, [1.0, 0.0, 5.0], [0.0, 0.0, -1.0]);
    assert_eq!(x.at_max, None);
    assert_eq!(ray_box(x, y, z).map(number), Some(4.0));
    let [x, y, z] = crossings(LOW, HIGH, [-1.0, 0.0, 5.0], [0.0, 0.0, -1.0]);
    assert_eq!(x.at_min, None);
    assert_eq!(ray_box(x, y, z).map(number), Some(4.0));
}

#[test]
fn crossings_given_as_distances() {
    let whole = Crossing { at_min: key(f32::NEG_INFINITY), at_max: key(f32::INFINITY) };
    let span = |a: f32, b: f32| Crossing { at_min: key(a), at_max: key(b) };
    assert_eq!(ray_box(whole, whole, span(6.0, 4.0)), key(4.0));
    assert_eq!(ray_box(span(1.0, 5.0), span(2.0, 6.0), span(3.0, 7.0)), key(3.0));
    assert_eq!(ray_box(span(1.0, 5.0), span(2.0, 6.0), span(5.0, 7.0)), key(5.0));
    assert_eq!(ray_box(span(1.0, 5.0), span(2.0, 6.0), span(5.5, 7.0)), None);
    assert_eq!(ray_box(span(1.0, 2.0), span(3.0, 6.0), whole), None);
    assert_eq!(ray_box(span(3.0, 6.0), span(1.0, 2.0), whole), None);
    assert_eq!(ray_box(span(-5.0, -1.0), span(-4.0, -2.0), span(-6.0, -3.0)), None);
    assert_eq!(ray_box(span(-5.0, 0.0), span(-4.0, 2.0), span(-6.0, 3.0)), key(-4.0));
    let open = Crossing { at_min: None, at_max: None };
    assert_eq!(ray_box(open, open, span(2.0, 3.0)), key(2.0));
    assert_eq!(ray_box(open, open, open), key(f32::NEG_INFINITY));
}

#[test]
fn the_tolerance_is_a_ten_thousandth() {
    assert_eq!(key(1e-4), Some(FACE_TOLERANCE));
    let near = |offset: f32| FaceOffsets {
        min_x: key(offset),
        max_x: key(2.0),
        min_y: key(1.0),
        max_y: key(1.0),
        min_z: key(1.0),
    };
    assert_eq!(near(0.0).normal_face(), Face::MinX);
    assert_eq!(near(0.99e-4).normal_face(), Face::MinX);
    assert_eq!(near(1e-4).normal_face(), Face::MaxZ);
    assert_eq!(near(2e-4).normal_face(), Face::MaxZ);
    assert_eq!(near(f32::NAN).normal_face(), Face::MaxZ);
}

#[test]
fn every_face_is_found_from_a_point_on_it() {
    assert_eq!(offsets(LOW, HIGH, [-1.0, 0.2, 0.3]).normal_face(), Face::MinX);
    assert_eq!(offsets(LOW, HIGH, [1.0, 0.2, 0.3]).normal_face(), Face::MaxX);
    assert_eq!(offsets(LOW, HIGH, [0.1, -1.0, 0.3]).normal_face(), Face::MinY);
    assert_eq!(offsets(LOW, HIGH, [0.1, 1.0, 0.3]).normal_face(), Face::MaxY);
    assert_eq!(offsets(LOW, HIGH, [0.1, 0.2, -1.0]).normal_face(), Face::MinZ);
    assert_eq!(offsets(LOW, HIGH, [0.1, 0.2, 1.0]).normal_face(), Face::MaxZ);
    assert_eq!(offsets(LOW, HIGH, [-1.0, 0.2, 0.3]).texture_face(), Face::MinX);
    assert_eq!(offsets(LOW, HIGH, [1.0, 0.2, 0.3]).texture_face(), Face::MaxX);
    assert_eq!(offsets(LOW, HIGH, [0.1, -1.0, 0.3]).texture_face(), Face::MinY);
    assert_eq!(offsets(LOW, HIGH, [0.1, 1.0, 0.3]).texture_face(), Face::MaxY);
    assert_eq!(offsets(LOW, HIGH, [0.1, 0.2, -1.0]).texture_face(), Face::MinZ);
    assert_eq!(offsets(LOW, HIGH, [0.1, 0.2, 1.0]).texture_face(), Face::MaxZ);
}

#[test]
fn on_an_edge_normal_and_texture_take_their_own_face() {
    // The edge between the left face and the top.
    let edge = offsets(LOW, HIGH, [-1.0, 1.0, 0.0]);
    assert_eq!(edge.normal_face(), Face::MinX);
    assert_eq!(edge.texture_face(), Face::MaxY);
    // The corner of right, bottom and front.
    let corner = offsets(LOW, HIGH, [1.0, -1.0, -1.0]);
    assert_eq!(corner.normal_face(), Face::MaxX);
    assert_eq!(corner.texture_face(), Face::MinY);
    // The corner of left, right (a flat box), top and bottom.
    let flat = FaceOffsets {
        min_x: key(0.0),
        max_x: key(0.0),
        min_y: key(0.0),
        max_y: key(0.0),
        min_z: key(0.0),
    };
    assert_eq!(flat.normal_face(), Face::MinX);
    assert_eq!(flat.texture_face(), Face::MaxY);
}

#[test]
fn normals_point_out_of_the_box() {
    assert_eq!(Face::MinX.normal(), (-1, 0, 0));
    assert_eq!(Face::MaxX.normal(), (1, 0, 0));
    assert_eq!(Face::MinY.normal(), (0, -1, 0));
    assert_eq!(Face::MaxY.normal(), (0, 1, 0));
    assert_eq!(Face::MinZ.normal(), (0, 0, -1));
    assert_eq!(Face::MaxZ.normal(), (0, 0, 1));
}

#[test]
fn texture_axes_of_the_faces() {
    assert_eq!(Face::MaxY.texture_axes(), (Axis::X, Axis::Z));
    assert_eq!(Face::MinY.texture_axes(), (Axis::X, Axis::Z));
    assert_eq!(Face::MinX.texture_axes(), (Axis::Z, Axis::Y));
    assert_eq!(Face::MaxX.texture_axes(), (Axis::Z, Axis::Y));
    assert_eq!(Face::MinZ.texture_axes(), (Axis::X, Axis::Y));
    assert_eq!(Face::MaxZ.texture_axes(), (Axis::X, Axis::Y));
}

/// The slab test carried out in floating point, stage by stage.
fn staged(min: [f32; 3], max: [f32; 3], origin: [f32; 3], direction: [f32; 3]) -> Option<f32> {
    let mut tmin = (min[0] - origin[0]) / direction[0];
    let mut tmax = (max[0] - origin[0]) / direction[0];
    if tmin > tmax {
        std::mem::swap(&mut tmin, &mut tmax);
    }

    let mut tymin = (min[1] - origin[1]) / direction[1];
    let mut tymax = (max[1] - origin[1]) / direction[1];
    if tymin > tymax {
        std::mem::swap(&mut tymin, &mut tymax);
    }

    if tmin > tymax || tymin > tmax {
        return None;
    }
    tmin = tmin.max(tymin);
    tmax = tmax.min(tymax);

    let mut tzmin = (min[2] - origin[2]) / direction[2];
    let mut tzmax = (max[2] - origin[2]) / direction[2];
    if tzmin > tzmax {
        std::mem::swap(&mut tzmin, &mut tzmax);
    }

    if tmin > tzmax || tzmin > tmax {
        return None;
    }
    tmin = tmin.max(tzmin);
    tmax = tmax.min(tzmax);

    if tmin < 0.0 && tmax < 0.0 {
        return None;
    }
    Some(tmin)
}

#[test]
fn agrees_with_the_slab_test_in_floating_point() {
    let places: [f32; 9] = [-3.0, -1.5, -1.0, -0.25, 0.0, 0.5, 1.0, 2.0, 7.0];
    let ways: [f32; 7] = [-1.0, -0.3, -0.0, 0.0, 0.4, 1.0, 2.5];
    let boxes: [([f32; 3], [f32; 3]); 3] = [
        (LOW, HIGH),
        ([-8.0, 7.0, -1.0], [-6.0, 5.0, 1.0]),
        ([0.0, -1.0, -1.0], [2.0, 3.0, 1.0]),
    ];
    let mut hits = 0;
    let mut misses = 0;
    for &(min, max) in boxes.iter() {
        for &ox in places.iter() {
            for &oy in places.iter() {
                for &oz in places.iter() {
                    for &dx in ways.iter() {
                        for &dy in ways.iter() {
                            for &dz in ways.iter() {
                                if dx == 0.0 && dy == 0.0 && dz == 0.0 {
                                    continue;
                                }
                                let origin = [ox, oy, oz];
                                let direction = [dx, dy, dz];
                                let expected = staged(min, max, origin, direction);
                                assert_eq!(
                                    hit(min, max, origin, direction),
                                    expected,
                                    "box {:?} {:?}, ray {:?} {:?}",
                                    min,
                                    max,
                                    origin,
                                    direction
                                );
                                if expected.is_some() {
                                    hits += 1;
                                } else {
                                    misses += 1;
                                }
                            }
                        }
                    }
                }
            }
        }
    }
    assert!(hits > 1000);
    assert!(misses > 1000);
}
