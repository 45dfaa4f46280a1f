//! The fan of rays: a bundle of paths from one origin, traced forwards and
//! backwards.
use vstd::prelude::*;
use crate::geometry::{deterministic, Geometry, Spread};
use crate::intersect::{
    all_on_surface, lemma_projection_on_surface, lemma_projects_unique, on_surface,
    project_vertical, projects,
};
use crate::path::{
    lemma_traced_on_surface, lemma_traced_unique, plot_path, same_path, traced, TraceResult,
};

verus! {

/// Where ray `index` of `count` stands in its fan: a single ray at the centre,
/// the rays of a larger fan evenly from edge to edge.
pub open spec fn spread_of(index: usize, count: usize) -> Spread {
    if count > 1 {
        Spread::Even { index, gaps: (count - 1) as usize }
    } else {
        Spread::Centre
    }
}

/// Places ray `index` of `count` in its fan.
pub fn spread(index: usize, count: usize) -> (place: Spread)
    ensures
        place == spread_of(index, count),
        place matches Spread::Even { gaps, .. } ==> gaps >= 1,
        count == 1 ==> place == Spread::Centre,
{
    if count > 1 {
        Spread::Even { index, gaps: count - 1 }
    } else {
        Spread::Centre
    }
}

/// The values from which a ray is begun: its first displacement, the point one
/// step behind the origin, and where that point came down on the surface.
pub struct Launch<G: Geometry> {
    pub delta: G::Point,
    pub back: G::Point,
    pub prev: Option<G::Point>,
}

/// `launch` holds the start of ray `index` of `count` from `origin`.
pub open spec fn launch_set<G: Geometry>(
    g: &G,
    origin: G::Point,
    index: usize,
    count: usize,
    reversed: bool,
    launch: Launch<G>,
) -> bool {
    &&& call_ensures(G::ray_delta, (g, spread_of(index, count), reversed), launch.delta)
    &&& call_ensures(G::minus, (g, &origin, &launch.delta), launch.back)
    &&& projects(g, launch.back, launch.prev)
}

/// `path` is an outcome of ray `index` of `count` from `origin`: the free path
/// from `origin` as reached from one step behind it, or nothing where the point
/// behind the origin did not come down on the surface.
pub open spec fn ray<G: Geometry>(
    g: &G,
    origin: G::Point,
    index: usize,
    count: usize,
    reversed: bool,
    path: Option<TraceResult<G::Point>>,
) -> bool {
    exists|launch: Launch<G>| #[trigger]
        launch_set(g, origin, index, count, reversed, launch) && match launch.prev {
            Some(q) => path matches Some(t) && t.wf() && traced(
                g,
                None,
                origin,
                q,
                t.vertices@,
                t.failed,
            ),
            None => path is None,
        }
}

/// `paths` are the `count` rays from `origin` in one direction, in order.
pub open spec fn bundle<G: Geometry>(
    g: &G,
    origin: G::Point,
    count: usize,
    reversed: bool,
    paths: Seq<Option<TraceResult<G::Point>>>,
) -> bool {
    &&& paths.len() == count
    &&& forall|i: int|
        0 <= i < count ==> ray(g, origin, i as usize, count, reversed, #[trigger] paths[i])
}

/// The two bundles of a fan, and whether its origin came down on the surface.
pub struct Fan<P> {
    pub paths: Vec<Option<TraceResult<P>>>,
    pub paths2: Vec<Option<TraceResult<P>>>,
    pub origin_ok: bool,
}

/// `fan` is an outcome of tracing `count` rays from the point `origin` on the
/// surface: one bundle forwards, one backwards, and the origin reported as
/// usable. A ray that could not be begun is missing from its bundle and leaves
/// the report as it is.
pub open spec fn fan_from<G: Geometry>(g: &G, origin: G::Point, count: usize, fan: Fan<G::Point>)
    -> bool {
    &&& bundle(g, origin, count, false, fan.paths@)
    &&& bundle(g, origin, count, true, fan.paths2@)
    &&& fan.origin_ok
}

/// `fan` is an outcome of tracing a fan of `count` rays. The origin is reported
/// as usable exactly where it came down on the surface. Where it did not, the
/// fan is abandoned: no ray is traced.
pub open spec fn fanned<G: Geometry>(g: &G, count: usize, fan: Fan<G::Point>) -> bool {
    exists|above: G::Point, origin: Option<G::Point>| #[trigger]
        call_ensures(G::ray_origin, (g,), above) && #[trigger] projects(g, above, origin)
            && match origin {
            Some(p) => fan_from(g, p, count, fan),
            None => fan.paths@.len() == 0 && fan.paths2@.len() == 0 && !fan.origin_ok,
        }
}

/// Traces ray `index` of `count` from `origin`. The point before the origin is
/// found one step back against the ray's first displacement; where it does not
/// come down on the surface the ray is not traced.
pub fn repath_aux<G: Geometry>(
    g: &G,
    origin: &G::Point,
    index: usize,
    count: usize,
    reversed: bool,
) -> (path: Option<TraceResult<G::Point>>)
    ensures
        ray(g, *origin, index, count, reversed, path),
{
    let delta = g.ray_delta(spread(index, count), reversed);
    let back = g.minus(origin, &delta);
    let prev = project_vertical(g, &back);
    proof {
        let launch = Launch::<G> { delta, back, prev };
        assert(launch_set(g, *origin, index, count, reversed, launch));
    }
    match prev {
        Some(q) => Some(plot_path(g, origin, &q)),
        None => None,
    }
}

/// Traces the `count` rays from `origin` in one direction.
fn trace_bundle<G: Geometry>(g: &G, origin: &G::Point, count: usize, reversed: bool) -> (paths:
    Vec<Option<TraceResult<G::Point>>>)
    ensures
        bundle(g, *origin, count, reversed, paths@),
{
    let mut paths: Vec<Option<TraceResult<G::Point>>> = Vec::new();
    let mut i: usize = 0;
    while i < count
        invariant
            i <= count,
            paths@.len() == i,
            forall|j: int|
                0 <= j < i ==> ray(g, *origin, j as usize, count, reversed, #[trigger] paths@[j]),
        decreases count - i,
    {
        let path = repath_aux(g, origin, i, count, reversed);
        paths.push(path);
        i += 1;
    }
    paths
}

/// Traces a fan of `count` rays: each ray once as given and once turned by
/// half a circle. The ray origin is first snapped onto the surface; where that
/// fails no ray is traced and the origin is reported as unusable.
pub fn trace_fan<G: Geometry>(g: &G, count: usize) -> (fan: Fan<G::Point>)
    ensures
        fanned(g, count, fan),
        fan_on_surface(g, fan),
{
    let above = g.ray_origin();
    let origin = project_vertical(g, &above);
    let fan = match origin {
        Some(p) => {
            let paths = trace_bundle(g, &p, count, false);
            let paths2 = trace_bundle(g, &p, count, true);
            Fan { paths, paths2, origin_ok: true }
        },
        None => Fan { paths: Vec::new(), paths2: Vec::new(), origin_ok: false },
    };
    proof {
        lemma_fanned_on_surface(g, count, fan);
    }
    fan
}

/// With deterministic numerics a ray has one outcome.
pub proof fn lemma_ray_unique<G: Geometry>(
    g: &G,
    origin: G::Point,
    index: usize,
    count: usize,
    reversed: bool,
    a: Option<TraceResult<G::Point>>,
    b: Option<TraceResult<G::Point>>,
)
    requires
        deterministic(g),
        ray(g, origin, index, count, reversed, a),
        ray(g, origin, index, count, reversed, b),
    ensures
        same_path(a, b),
{
    let s = choose|launch: Launch<G>| #[trigger]
        launch_set(g, origin, index, count, reversed, launch) && match launch.prev {
            Some(q) => a matches Some(t) && t.wf() && traced(
                g,
                None,
                origin,
                q,
                t.vertices@,
                t.failed,
            ),
            None => a is None,
        };
    let t = choose|launch: Launch<G>| #[trigger]
        launch_set(g, origin, index, count, reversed, launch) && match launch.prev {
            Some(q) => b matches Some(t) && t.wf() && traced(
                g,
                None,
                origin,
                q,
                t.vertices@,
                t.failed,
            ),
            None => b is None,
        };
    lemma_projects_unique(g, s.back, s.prev, t.prev);
    match s.prev {
        Some(q) => {
            lemma_traced_unique(
                g,
                None,
                origin,
                q,
                a->0.vertices@,
                a->0.failed,
                b->0.vertices@,
                b->0.failed,
            );
        },
        None => {},
    }
}

/// Tracing the fan is repeatable: with deterministic numerics, two results of
/// `trace_fan` for the same number of rays hold the same rays in both
/// directions and the same origin flag.
pub proof fn lemma_fanned_unique<G: Geometry>(
    g: &G,
    count: usize,
    a: Fan<G::Point>,
    b: Fan<G::Point>,
)
    requires
        deterministic(g),
        fanned(g, count, a),
        fanned(g, count, b),
    ensures
        a.origin_ok == b.origin_ok,
        a.paths@.len() == b.paths@.len(),
        a.paths2@.len() == b.paths2@.len(),
        forall|i: int| 0 <= i < a.paths@.len() ==> same_path(#[trigger] a.paths@[i], b.paths@[i]),
        forall|i: int|
            0 <= i < a.paths2@.len() ==> same_path(#[trigger] a.paths2@[i], b.paths2@[i]),
{
    let (above, origin) = choose|above: G::Point, origin: Option<G::Point>| #[trigger]
        call_ensures(G::ray_origin, (g,), above) && #[trigger] projects(g, above, origin)
            && match origin {
            Some(p) => fan_from(g, p, count, a),
            None => a.paths@.len() == 0 && a.paths2@.len() == 0 && !a.origin_ok,
        };
    let (other, second) = choose|above: G::Point, origin: Option<G::Point>| #[trigger]
        call_ensures(G::ray_origin, (g,), above) && #[trigger] projects(g, above, origin)
            && match origin {
            Some(p) => fan_from(g, p, count, b),
            None => b.paths@.len() == 0 && b.paths2@.len() == 0 && !b.origin_ok,
        };
    lemma_projects_unique(g, above, origin, second);
    match origin {
        Some(p) => {
            assert forall|i: int| 0 <= i < a.paths@.len() implies same_path(
                #[trigger] a.paths@[i],
                b.paths@[i],
            ) by {
                lemma_ray_unique(g, p, i as usize, count, false, a.paths@[i], b.paths@[i]);
            }
            assert forall|i: int| 0 <= i < a.paths2@.len() implies same_path(
                #[trigger] a.paths2@[i],
                b.paths2@[i],
            ) by {
                lemma_ray_unique(g, p, i as usize, count, true, a.paths2@[i], b.paths2@[i]);
            }
        },
        None => {},
    }
}

/// The origin flag says whether the origin came down on the surface: with
/// deterministic numerics it is set exactly where the vertical projection of
/// the ray origin gives a point, whatever became of the rays.
pub proof fn lemma_origin_flag<G: Geometry>(
    g: &G,
    count: usize,
    fan: Fan<G::Point>,
    above: G::Point,
    origin: Option<G::Point>,
)
    requires
        deterministic(g),
        fanned(g, count, fan),
        call_ensures(G::ray_origin, (g,), above),
        projects(g, above, origin),
    ensures
        fan.origin_ok == (origin is Some),
{
    let (other, found) = choose|other: G::Point, found: Option<G::Point>| #[trigger]
        call_ensures(G::ray_origin, (g,), other) && #[trigger] projects(g, other, found)
            && match found {
            Some(p) => fan_from(g, p, count, fan),
            None => fan.paths@.len() == 0 && fan.paths2@.len() == 0 && !fan.origin_ok,
        };
    lemma_projects_unique(g, above, origin, found);
}

/// A fan whose origin does not come down on the surface is abandoned: with
/// deterministic numerics it holds no ray in either direction, and reports the
/// origin as unusable.
pub proof fn lemma_fan_abandoned<G: Geometry>(g: &G, count: usize, fan: Fan<G::Point>, above: G::Point)
    requires
        deterministic(g),
        fanned(g, count, fan),
        call_ensures(G::ray_origin, (g,), above),
        projects(g, above, None),
    ensures
        fan.paths@.len() == 0,
        fan.paths2@.len() == 0,
        !fan.origin_ok,
{
    let (other, origin) = choose|other: G::Point, origin: Option<G::Point>| #[trigger]
        call_ensures(G::ray_origin, (g,), other) && #[trigger] projects(g, other, origin)
            && match origin {
            Some(p) => fan_from(g, p, count, fan),
            None => fan.paths@.len() == 0 && fan.paths2@.len() == 0 && !fan.origin_ok,
        };
    lemma_projects_unique(g, above, None, origin);
}

/// Every vertex of the ray, where it was traced, was found on the surface.
pub open spec fn path_on_surface<G: Geometry>(g: &G, path: Option<TraceResult<G::Point>>) -> bool {
    path matches Some(t) ==> all_on_surface(g, t.vertices@)
}

/// Every ray of both bundles keeps to the surface.
pub open spec fn fan_on_surface<G: Geometry>(g: &G, fan: Fan<G::Point>) -> bool {
    &&& forall|i: int| 0 <= i < fan.paths@.len() ==> path_on_surface(g, #[trigger] fan.paths@[i])
    &&& forall|i: int| 0 <= i < fan.paths2@.len() ==> path_on_surface(g, #[trigger] fan.paths2@[i])
}

/// A ray from an origin on the surface stays on the surface.
pub proof fn lemma_ray_on_surface<G: Geometry>(
    g: &G,
    origin: G::Point,
    index: usize,
    count: usize,
    reversed: bool,
    path: Option<TraceResult<G::Point>>,
)
    requires
        on_surface(g, origin),
        ray(g, origin, index, count, reversed, path),
    ensures
        path_on_surface(g, path),
{
    let launch = choose|launch: Launch<G>| #[trigger]
        launch_set(g, origin, index, count, reversed, launch) && match launch.prev {
            Some(q) => path matches Some(t) && t.wf() && traced(
                g,
                None,
                origin,
                q,
                t.vertices@,
                t.failed,
            ),
            None => path is None,
        };
    match launch.prev {
        Some(q) => {
            lemma_traced_on_surface(g, None, origin, q, path->0.vertices@, path->0.failed);
        },
        None => {},
    }
}

/// A fan stays on the surface: every vertex of every ray was found on it.
pub proof fn lemma_fanned_on_surface<G: Geometry>(g: &G, count: usize, fan: Fan<G::Point>)
    requires
        fanned(g, count, fan),
    ensures
        fan_on_surface(g, fan),
{
    let (above, origin) = choose|above: G::Point, origin: Option<G::Point>| #[trigger]
        call_ensures(G::ray_origin, (g,), above) && #[trigger] projects(g, above, origin)
            && match origin {
            Some(p) => fan_from(g, p, count, fan),
            None => fan.paths@.len() == 0 && fan.paths2@.len() == 0 && !fan.origin_ok,
        };
    match origin {
        Some(p) => {
            lemma_projection_on_surface(g, above, p);
            assert forall|i: int| 0 <= i < fan.paths@.len() implies path_on_surface(
                g,
                #[trigger] fan.paths@[i],
            ) by {
                lemma_ray_on_surface(g, p, i as usize, count, false, fan.paths@[i]);
            }
            assert forall|i: int| 0 <= i < fan.paths2@.len() implies path_on_surface(
                g,
                #[trigger] fan.paths2@[i],
            ) by {
                lemma_ray_on_surface(g, p, i as usize, count, true, fan.paths2@[i]);
            }
        },
        None => {},
    }
}

} // verus!
