//! The tracer's control: which of the primitives a ray hits first, how deep
//! secondary rays are followed, what a ray that hits nothing returns, and
//! which primitive shades a point from a light.
//!
//! Geometry and shading are the caller's. The primitives are numbered
//! `0 .. count`; `intersect` tests a ray against one of them, `bounces` names
//! the rays that leave a surface, and `shade` turns a hit and the colors of
//! those rays into the color of the ray. Distances come as integers that
//! order as the distances do; the module `distance` makes them.

use crate::color::Color;
use crate::distance::{INFINITE_DISTANCE, ZERO_DISTANCE};
use vstd::prelude::*;

verus! {

/// The deepest level at which a ray is still traced. The ray through a pixel
/// has depth 0, so four levels of rays are followed.
pub const MAX_DEPTH: u32 = 3;

/// A hit of a ray on a primitive. `distance` orders the hits along the ray:
/// the nearer hit has the smaller number, on the scale of the module
/// `distance`. `surface` is whatever shading needs to know of the place.
pub struct Hit<S> {
    pub distance: u32,
    pub surface: S,
}

/// The secondary rays that leave a surface: the reflected ray where the
/// surface reflects, the refracted ray where it lets light through.
pub struct Bounces<R> {
    pub reflected: Option<R>,
    pub refracted: Option<R>,
}

/// What stands between a surface point and a light.
pub enum Shadow<S> {
    /// Nothing is in the way.
    Clear,
    /// A primitive that gives off no light is in the way.
    Opaque,
    /// A primitive that gives off light is in the way, hit as given.
    Emissive(Hit<S>),
}

/// Whether `hits` can be what `intersect` reports for `ray` on the primitives
/// `0 .. hits.len()`, one entry for each.
pub open spec fn scanned<R, S, I: Fn(&R, usize) -> Option<Hit<S>>>(
    intersect: I,
    ray: R,
    hits: Seq<Option<Hit<S>>>,
) -> bool {
    forall|i: usize|
        i < hits.len() ==> call_ensures(intersect, (&ray, i), #[trigger] hits[i as int])
}

/// Whether a hit can be seen along the ray: there is one, not behind the
/// start of the ray and not infinitely far.
pub open spec fn visible<S>(hit: Option<Hit<S>>) -> bool {
    hit is Some && ZERO_DISTANCE <= hit.unwrap().distance < INFINITE_DISTANCE
}

/// Whether the hit at position `at` is the nearest that can be seen among
/// `hits`: none is nearer, and those before it are farther.
pub open spec fn nearest_at<S>(hits: Seq<Option<Hit<S>>>, at: int) -> bool {
    &&& 0 <= at < hits.len()
    &&& visible(hits[at])
    &&& forall|j: int|
        0 <= j < hits.len() && visible(#[trigger] hits[j]) ==> {
            &&& hits[at].unwrap().distance <= hits[j].unwrap().distance
            &&& j < at ==> hits[at].unwrap().distance < hits[j].unwrap().distance
        }
}

/// Whether `chosen` is the nearest hit that can be seen among `hits`, the
/// first of them where several are equally near; `None` stands for nothing
/// to be seen.
pub open spec fn is_nearest<S>(hits: Seq<Option<Hit<S>>>, chosen: Option<Hit<S>>) -> bool {
    match chosen {
        None => forall|i: int| 0 <= i < hits.len() ==> !visible(#[trigger] hits[i]),
        Some(hit) => exists|at: int| #[trigger] nearest_at(hits, at) && hits[at] == Some(hit),
    }
}

/// Whether a hit lies between the start of a ray and a light at
/// `light_distance`: there is one, and it is nearer than the light.
pub open spec fn blocks<S>(hit: Option<Hit<S>>, light_distance: u32) -> bool {
    hit is Some && hit.unwrap().distance < light_distance
}

/// Whether `hits` is a scan for the first primitive in the way of the light:
/// it ends with a hit that blocks, and no hit before that one does.
pub open spec fn ends_at_first_blocker<S>(hits: Seq<Option<Hit<S>>>, light_distance: u32) -> bool {
    &&& hits.len() > 0
    &&& blocks(hits.last(), light_distance)
    &&& forall|j: int| 0 <= j < hits.len() - 1 ==> !blocks(#[trigger] hits[j], light_distance)
}

/// Whether `color` can be the color of `ray` at `depth`.
///
/// Past `MAX_DEPTH` it is the background. Otherwise the primitives are
/// scanned and the nearest hit that can be seen is taken: with none the
/// color is the background; with one it is what `shade` makes of the hit and
/// of the colors of the reflected and the refracted ray, each traced one
/// level deeper, and black where the surface sends no such ray.
pub open spec fn ray_color<R, S, I, B, F>(
    count: usize,
    intersect: I,
    bounces: B,
    shade: F,
    ray: R,
    depth: u32,
    background: Color,
    color: Color,
) -> bool where
    I: Fn(&R, usize) -> Option<Hit<S>>,
    B: Fn(&R, &S) -> Bounces<R>,
    F: Fn(&R, &S, Color, Color) -> Color,

    decreases MAX_DEPTH + 1 - depth, 2int,
{
    if depth > MAX_DEPTH {
        color == background
    } else {
        exists|hits: Seq<Option<Hit<S>>>, chosen: Option<Hit<S>>|
            #![trigger scanned(intersect, ray, hits), is_nearest(hits, chosen)]
            {
                &&& hits.len() == count
                &&& scanned(intersect, ray, hits)
                &&& is_nearest(hits, chosen)
                &&& match chosen {
                    None => color == background,
                    Some(hit) => surface_color(
                        count,
                        intersect,
                        bounces,
                        shade,
                        ray,
                        hit.surface,
                        depth,
                        background,
                        color,
                    ),
                }
            }
    }
}

/// Whether `color` can be the color of `ray` at `depth` once it has hit
/// `surface`.
pub open spec fn surface_color<R, S, I, B, F>(
    count: usize,
    intersect: I,
    bounces: B,
    shade: F,
    ray: R,
    surface: S,
    depth: u32,
    background: Color,
    color: Color,
) -> bool where
    I: Fn(&R, usize) -> Option<Hit<S>>,
    B: Fn(&R, &S) -> Bounces<R>,
    F: Fn(&R, &S, Color, Color) -> Color,

    decreases MAX_DEPTH + 1 - depth, 1int,
{
    depth <= MAX_DEPTH && exists|onward: Bounces<R>, reflected: Color, refracted: Color|
        #![trigger
            call_ensures(bounces, (&ray, &surface), onward),
            call_ensures(shade, (&ray, &surface, reflected, refracted), color),
        ]
        {
            &&& call_ensures(bounces, (&ray, &surface), onward)
            &&& bounce_color(
                count,
                intersect,
                bounces,
                shade,
                onward.reflected,
                depth,
                background,
                reflected,
            )
            &&& bounce_color(
                count,
                intersect,
                bounces,
                shade,
                onward.refracted,
                depth,
                background,
                refracted,
            )
            &&& call_ensures(shade, (&ray, &surface, reflected, refracted), color)
        }
}

/// Whether `color` can be what a secondary ray brings back to a surface hit
/// at `depth`: the color of the ray one level deeper, or black where there
/// is no ray.
pub open spec fn bounce_color<R, S, I, B, F>(
    count: usize,
    intersect: I,
    bounces: B,
    shade: F,
    ray: Option<R>,
    depth: u32,
    background: Color,
    color: Color,
) -> bool where
    I: Fn(&R, usize) -> Option<Hit<S>>,
    B: Fn(&R, &S) -> Bounces<R>,
    F: Fn(&R, &S, Color, Color) -> Color,

    decreases MAX_DEPTH + 1 - depth, 0int,
{
    match ray {
        Some(next) => depth <= MAX_DEPTH && ray_color(
            count,
            intersect,
            bounces,
            shade,
            next,
            (depth + 1) as u32,
            background,
            color,
        ),
        None => color == Color { r: 0, g: 0, b: 0 },
    }
}

/// Tests `ray` against every primitive in order and keeps the nearest hit
/// that can be seen: one at or past the start of the ray, nearer than
/// infinity. Of hits that are equally near it keeps the first.
pub fn nearest_hit<R, S, I>(ray: &R, count: usize, intersect: &I) -> (nearest: Option<Hit<S>>) where
    I: Fn(&R, usize) -> Option<Hit<S>>,

    requires
        forall|i: usize| i < count ==> call_requires(*intersect, (ray, i)),
    ensures
        exists|hits: Seq<Option<Hit<S>>>|
            {
                &&& hits.len() == count
                &&& #[trigger] scanned(*intersect, *ray, hits)
                &&& is_nearest(hits, nearest)
            },
{
    let mut nearest: Option<Hit<S>> = None;
    let mut zbuffer: u32 = INFINITE_DISTANCE;
    let ghost mut hits: Seq<Option<Hit<S>>> = Seq::empty();
    let ghost mut at: int = 0;
    let mut i: usize = 0;
    while i < count
        invariant
            i <= count,
            forall|i: usize| i < count ==> call_requires(*intersect, (ray, i)),
            hits.len() == i,
            scanned(*intersect, *ray, hits),
            nearest is None ==> zbuffer == INFINITE_DISTANCE && forall|j: int|
                0 <= j < hits.len() ==> !visible(#[trigger] hits[j]),
            nearest is Some ==> nearest_at(hits, at) && hits[at] == nearest && zbuffer
                == nearest.unwrap().distance,
        decreases count - i,
    {
        let hit = intersect(ray, i);
        let ghost before = hits;
        proof {
            hits = before.push(hit);
            assert forall|j: usize| j < hits.len() implies call_ensures(
                *intersect,
                (ray, j),
                #[trigger] hits[j as int],
            ) by {
                if j < i {
                    assert(hits[j as int] == before[j as int]);
                }
            }
            assert forall|j: int| 0 <= j < i implies #[trigger] hits[j] == before[j] by {}
        }
        match hit {
            Some(found) => {
                if found.distance >= ZERO_DISTANCE && found.distance < zbuffer {
                    zbuffer = found.distance;
                    nearest = Some(found);
                    proof {
                        at = i as int;
                    }
                }
            },
            None => {},
        }
        proof {
            if nearest is Some {
                assert forall|j: int| 0 <= j < hits.len() && visible(#[trigger] hits[j]) implies {
                    &&& hits[at].unwrap().distance <= hits[j].unwrap().distance
                    &&& j < at ==> hits[at].unwrap().distance < hits[j].unwrap().distance
                } by {
                    if j < i {
                        assert(hits[j] == before[j]);
                        assert(visible(before[j]));
                    }
                }
            } else {
                assert forall|j: int| 0 <= j < hits.len() implies !visible(#[trigger] hits[j]) by {
                    if j < i {
                        assert(hits[j] == before[j]);
                    }
                }
            }
        }
        i += 1;
    }
    proof {
        assert(is_nearest(hits, nearest));
    }
    nearest
}

/// Looks along `ray`, which runs from a surface point towards a light, for
/// what shades the point. The primitives are tested in order, and the first
/// one that is hit nearer than `light_distance` decides: a primitive for which
/// `emissive` holds weakens the light, any other takes it away. Primitives
/// behind the first one in the way are not tested.
pub fn cast_shadow<R, S, I, E>(
    ray: &R,
    light_distance: u32,
    count: usize,
    intersect: &I,
    emissive: &E,
) -> (shadow: Shadow<S>) where I: Fn(&R, usize) -> Option<Hit<S>>, E: Fn(&S) -> bool
    requires
        forall|i: usize| i < count ==> call_requires(*intersect, (ray, i)),
        forall|surface: &S| call_requires(*emissive, (surface,)),
    ensures
        exists|hits: Seq<Option<Hit<S>>>|
            {
                &&& hits.len() <= count
                &&& #[trigger] scanned(*intersect, *ray, hits)
                &&& match shadow {
                    Shadow::Clear => hits.len() == count && forall|j: int|
                        0 <= j < hits.len() ==> !blocks(#[trigger] hits[j], light_distance),
                    Shadow::Opaque => ends_at_first_blocker(hits, light_distance) && call_ensures(
                        *emissive,
                        (&hits.last().unwrap().surface,),
                        false,
                    ),
                    Shadow::Emissive(hit) => ends_at_first_blocker(hits, light_distance)
                        && hits.last() == Some(hit) && call_ensures(
                        *emissive,
                        (&hit.surface,),
                        true,
                    ),
                }
            },
{
    let ghost mut hits: Seq<Option<Hit<S>>> = Seq::empty();
    let mut i: usize = 0;
    while i < count
        invariant
            i <= count,
            forall|i: usize| i < count ==> call_requires(*intersect, (ray, i)),
            forall|surface: &S| call_requires(*emissive, (surface,)),
            hits.len() == i,
            scanned(*intersect, *ray, hits),
            forall|j: int| 0 <= j < hits.len() ==> !blocks(#[trigger] hits[j], light_distance),
        decreases count - i,
    {
        let found = intersect(ray, i);
        let ghost before = hits;
        proof {
            hits = before.push(found);
            assert forall|j: usize| j < hits.len() implies call_ensures(
                *intersect,
                (ray, j),
                #[trigger] hits[j as int],
            ) by {
                if j < i {
                    assert(hits[j as int] == before[j as int]);
                }
            }
            assert forall|j: int| 0 <= j < hits.len() - 1 implies !blocks(
                #[trigger] hits[j],
                light_distance,
            ) by {
                assert(hits[j] == before[j]);
            }
        }
        match found {
            Some(hit) => {
                if hit.distance < light_distance {
                    let glows = emissive(&hit.surface);
                    proof {
                        assert(hits.last() == Some(hit));
                        assert(ends_at_first_blocker(hits, light_distance));
                        assert(call_ensures(*emissive, (&hits.last().unwrap().surface,), glows));
                        assert(scanned(*intersect, *ray, hits));
                    }
                    if glows {
                        return Shadow::Emissive(hit);
                    } else {
                        return Shadow::Opaque;
                    }
                }
            },
            None => {},
        }
        proof {
            assert forall|j: int| 0 <= j < hits.len() implies !blocks(
                #[trigger] hits[j],
                light_distance,
            ) by {
                if j < i {
                    assert(hits[j] == before[j]);
                }
            }
        }
        i += 1;
    }
    Shadow::Clear
}

/// The color that `ray` brings back. A ray deeper than `MAX_DEPTH` is not
/// traced and returns `background`; so does a ray with no hit to be seen.
/// A ray that hits is shaded from its nearest hit and from the colors of the
/// reflected and the refracted ray, followed one level deeper.
pub fn cast_ray<R, S, I, B, F>(
    ray: &R,
    depth: u32,
    background: Color,
    count: usize,
    intersect: &I,
    bounces: &B,
    shade: &F,
) -> (color: Color) where
    I: Fn(&R, usize) -> Option<Hit<S>>,
    B: Fn(&R, &S) -> Bounces<R>,
    F: Fn(&R, &S, Color, Color) -> Color,

    requires
        forall|r: &R, i: usize| i < count ==> call_requires(*intersect, (r, i)),
        forall|r: &R, s: &S| call_requires(*bounces, (r, s)),
        forall|r: &R, s: &S, reflected: Color, refracted: Color|
            call_requires(*shade, (r, s, reflected, refracted)),
    ensures
        ray_color(count, *intersect, *bounces, *shade, *ray, depth, background, color),
        depth > MAX_DEPTH ==> color == background,
    decreases MAX_DEPTH + 1 - depth,
{
    if depth > MAX_DEPTH {
        return background;
    }
    let nearest = nearest_hit(ray, count, intersect);
    let hit = match nearest {
        Some(hit) => hit,
        None => {
            return background;
        },
    };
    let onward = bounces(ray, &hit.surface);
    let reflected = match &onward.reflected {
        Some(next) => cast_ray(next, depth + 1, background, count, intersect, bounces, shade),
        None => Color::black(),
    };
    let refracted = match &onward.refracted {
        Some(next) => cast_ray(next, depth + 1, background, count, intersect, bounces, shade),
        None => Color::black(),
    };
    let color = shade(ray, &hit.surface, reflected, refracted);
    proof {
        assert(bounce_color(
            count,
            *intersect,
            *bounces,
            *shade,
            onward.reflected,
            depth,
            background,
            reflected,
        ));
        assert(bounce_color(
            count,
            *intersect,
            *bounces,
            *shade,
            onward.refracted,
            depth,
            background,
            refracted,
        ));
        assert(surface_color(
            count,
            *intersect,
            *bounces,
            *shade,
            *ray,
            hit.surface,
            depth,
            background,
            color,
        ));
    }
    color
}

/// A ray past the depth limit takes the background color, whatever the
/// scene holds.
pub proof fn lemma_too_deep_is_background<R, S, I, B, F>(
    count: usize,
    intersect: I,
    bounces: B,
    shade: F,
    ray: R,
    depth: u32,
    background: Color,
    color: Color,
) where
    I: Fn(&R, usize) -> Option<Hit<S>>,
    B: Fn(&R, &S) -> Bounces<R>,
    F: Fn(&R, &S, Color, Color) -> Color,

    requires
        depth > MAX_DEPTH,
        ray_color(count, intersect, bounces, shade, ray, depth, background, color),
    ensures
        color == background,
{
}

/// A ray that misses every primitive takes the background color, and so does
/// one whose hits all lie behind its start or infinitely far.
pub proof fn lemma_miss_is_background<R, S, I, B, F>(
    count: usize,
    intersect: I,
    bounces: B,
    shade: F,
    ray: R,
    depth: u32,
    background: Color,
    color: Color,
) where
    I: Fn(&R, usize) -> Option<Hit<S>>,
    B: Fn(&R, &S) -> Bounces<R>,
    F: Fn(&R, &S, Color, Color) -> Color,

    requires
        forall|i: usize, hit: Option<Hit<S>>|
            i < count && #[trigger] call_ensures(intersect, (&ray, i), hit) ==> !visible(hit),
        ray_color(count, intersect, bounces, shade, ray, depth, background, color),
    ensures
        color == background,
{
    if depth <= MAX_DEPTH {
        let (hits, chosen) = choose|hits: Seq<Option<Hit<S>>>, chosen: Option<Hit<S>>|
            #![trigger scanned(intersect, ray, hits), is_nearest(hits, chosen)]
            {
                &&& hits.len() == count
                &&& scanned(intersect, ray, hits)
                &&& is_nearest(hits, chosen)
                &&& match chosen {
                    None => color == background,
                    Some(hit) => surface_color(
                        count,
                        intersect,
                        bounces,
                        shade,
                        ray,
                        hit.surface,
                        depth,
                        background,
                        color,
                    ),
                }
            };
        if chosen is Some {
            let at = choose|at: int| #[trigger] nearest_at(hits, at) && hits[at] == chosen;
            assert(call_ensures(intersect, (&ray, at as usize), hits[at as usize as int]));
        }
    }
}

/// A surface whose shading hands the color of its reflected ray through
/// unchanged shows exactly what that ray brings back: nothing of the light
/// on the surface itself gets into the color.
pub proof fn lemma_mirror_shows_reflection<R, S, I, B, F>(
    count: usize,
    intersect: I,
    bounces: B,
    shade: F,
    ray: R,
    surface: S,
    depth: u32,
    background: Color,
    color: Color,
) where
    I: Fn(&R, usize) -> Option<Hit<S>>,
    B: Fn(&R, &S) -> Bounces<R>,
    F: Fn(&R, &S, Color, Color) -> Color,

    requires
        surface_color(count, intersect, bounces, shade, ray, surface, depth, background, color),
        forall|reflected: Color, refracted: Color, shaded: Color| #[trigger]
            call_ensures(shade, (&ray, &surface, reflected, refracted), shaded) ==> shaded
                == reflected,
    ensures
        exists|onward: Bounces<R>|
            {
                &&& #[trigger] call_ensures(bounces, (&ray, &surface), onward)
                &&& bounce_color(
                    count,
                    intersect,
                    bounces,
                    shade,
                    onward.reflected,
                    depth,
                    background,
                    color,
                )
            },
{
    let (onward, reflected, refracted) = choose|
        onward: Bounces<R>,
        reflected: Color,
        refracted: Color,
    |
        #![trigger
            call_ensures(bounces, (&ray, &surface), onward),
            call_ensures(shade, (&ray, &surface, reflected, refracted), color),
        ]
        {
            &&& call_ensures(bounces, (&ray, &surface), onward)
            &&& bounce_color(
                count,
                intersect,
                bounces,
                shade,
                onward.reflected,
                depth,
                background,
                reflected,
            )
            &&& bounce_color(
                count,
                intersect,
                bounces,
                shade,
                onward.refracted,
                depth,
                background,
                refracted,
            )
            &&& call_ensures(shade, (&ray, &surface, reflected, refracted), color)
        };
    assert(color == reflected);
}

} // verus!
