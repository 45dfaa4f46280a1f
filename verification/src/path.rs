//! Paths over the surface, from a start point to the edge of the domain.
use vstd::prelude::*;
use crate::geometry::{deterministic, Geometry};
use crate::intersect::{
    all_on_surface, lemma_projection_on_surface, lemma_projects_unique, on_surface,
    project_vertical, projects,
};
use crate::stepper::{lemma_step_on_surface, lemma_steps_unique, step, steps};

verus! {

/// The number of points after which a path that has not left the domain is cut
/// off.
pub const MAX_STEPS: usize = 100_000;

/// The number of vertices that 32-bit indices can address.
pub const MAX_VERTICES: u64 = 0x1_0000_0000;

/// An open polyline: its vertices in order, the index pairs of its segments,
/// and whether it was cut off before it reached the edge of the domain.
pub struct TraceResult<P> {
    pub vertices: Vec<P>,
    pub segments: Vec<(u32, u32)>,
    pub failed: bool,
}

/// The segments of the polyline through the vertices with the indices from
/// `start` up to, not including, `len`: each vertex joined to the next. Fewer
/// than two vertices have no segment.
pub open spec fn polyline(start: nat, len: nat) -> Seq<(u32, u32)> {
    Seq::new(
        if len - start > 1 {
            (len - start - 1) as nat
        } else {
            0
        },
        |i: int| ((start + i) as u32, (start + i + 1) as u32),
    )
}

impl<P> TraceResult<P> {
    /// The segments join each vertex to the next.
    pub open spec fn wf(&self) -> bool {
        &&& self.vertices@.len() <= MAX_VERTICES
        &&& self.segments@ == polyline(0, self.vertices@.len())
    }
}

/// Appends the segments of the polyline through the vertices `start..len`, in
/// order. The indices must fit in 32 bits.
pub fn gen_indices(start: usize, len: usize, indices: &mut Vec<(u32, u32)>)
    requires
        len <= MAX_VERTICES,
    ensures
        final(indices)@ == old(indices)@ + polyline(start as nat, len as nat),
{
    if len == 0 || start >= len - 1 {
        return ;
    }
    let mut idx: usize = start;
    while idx < len - 1
        invariant
            start <= idx <= len - 1,
            len <= MAX_VERTICES,
            indices@ == old(indices)@ + polyline(start as nat, (idx + 1) as nat),
        decreases len - idx,
    {
        indices.push((idx as u32, (idx + 1) as u32));
        idx += 1;
    }
}

/// The values computed on the way from a point to the next: the direction of
/// motion, the displacement of one step, and the normal along which the step is
/// held to the surface.
pub struct Move<G: Geometry> {
    pub diff: G::Point,
    pub heading: G::Point,
    pub delta: G::Point,
    pub gradient: G::Point,
    pub flat: G::Point,
    pub normal: G::Point,
}

/// `m` holds the displacement and the normal for a step from `p`, which was
/// reached from `prev`. The displacement continues the motion from `prev` to
/// `p` at the length of one step. The normal is the unit gradient at `p`; under
/// a constraint the gradient first loses its component along the constraint.
pub open spec fn move_set<G: Geometry>(
    g: &G,
    constraint: Option<G::Point>,
    p: G::Point,
    prev: G::Point,
    m: Move<G>,
) -> bool {
    &&& call_ensures(G::minus, (g, &p, &prev), m.diff)
    &&& call_ensures(G::unit, (g, &m.diff), m.heading)
    &&& call_ensures(G::pace, (g, &m.heading), m.delta)
    &&& call_ensures(G::normal_at, (g, &p), m.gradient)
    &&& match constraint {
        Some(c) => call_ensures(G::reject, (g, &m.gradient, &c), m.flat),
        None => m.flat == m.gradient,
    }
    &&& call_ensures(G::unit, (g, &m.flat), m.normal)
}

/// `next` is an outcome of moving on from `p`, which was reached from `prev`:
/// the point that one step leads to, or nothing where the step found none.
pub open spec fn moves<G: Geometry>(
    g: &G,
    constraint: Option<G::Point>,
    p: G::Point,
    prev: G::Point,
    next: Option<G::Point>,
) -> bool {
    exists|m: Move<G>| #[trigger]
        move_set(g, constraint, p, prev, m) && steps(g, p, m.delta, m.normal, next)
}

/// The point from which `walk[i]` was reached; `prev` for the first, and for
/// `i == walk.len()` the point from which the walk goes on.
pub open spec fn before<P>(prev: P, walk: Seq<P>, i: int) -> P {
    if i <= 0 {
        prev
    } else {
        walk[i - 1]
    }
}

/// `walk[i]` was moved to from `walk[i - 1]`.
pub open spec fn moved_at<G: Geometry>(
    g: &G,
    constraint: Option<G::Point>,
    prev: G::Point,
    walk: Seq<G::Point>,
    i: int,
) -> bool {
    moves(g, constraint, walk[i - 1], before(prev, walk, i - 1), Some(walk[i]))
}

/// `walk` is a run of at most `MAX_STEPS` points inside the domain that begins
/// at `start`, each later one moved to from the one before.
pub open spec fn walked<G: Geometry>(
    g: &G,
    constraint: Option<G::Point>,
    start: G::Point,
    prev: G::Point,
    walk: Seq<G::Point>,
) -> bool {
    &&& walk.len() <= MAX_STEPS
    &&& walk.len() > 0 ==> walk[0] == start
    &&& forall|i: int|
        0 <= i < walk.len() ==> call_ensures(G::in_domain, (g, &#[trigger] walk[i]), true)
    &&& forall|i: int| 0 < i < walk.len() ==> #[trigger] moved_at(g, constraint, prev, walk, i)
}

/// `p` is the point that comes after `walk`: `start` itself for the empty walk,
/// else a point moved to from the last of `walk`.
pub open spec fn reaches<G: Geometry>(
    g: &G,
    constraint: Option<G::Point>,
    start: G::Point,
    prev: G::Point,
    walk: Seq<G::Point>,
    p: G::Point,
) -> bool {
    if walk.len() == 0 {
        p == start
    } else {
        moves(g, constraint, walk.last(), before(prev, walk, walk.len() - 1), Some(p))
    }
}

/// How a path ended after its walk.
pub enum Ending<P> {
    /// No step from the last point of the walk found the surface.
    Stuck,
    /// The point `next` after the walk lay outside the domain. The last
    /// segment was cut at `edge`, on the edge of the domain, and `end` is what
    /// snapping the cut onto the surface gave.
    Left { next: P, edge: P, end: Option<P> },
    /// The walk has `MAX_STEPS` points, and the point `next` after it is still
    /// inside the domain.
    Spent { next: P },
}

/// `walk` ended in `ending`.
pub open spec fn ended<G: Geometry>(
    g: &G,
    constraint: Option<G::Point>,
    start: G::Point,
    prev: G::Point,
    walk: Seq<G::Point>,
    ending: Ending<G::Point>,
) -> bool {
    match ending {
        Ending::Stuck => {
            &&& walk.len() > 0
            &&& moves(g, constraint, walk.last(), before(prev, walk, walk.len() - 1), None)
        },
        Ending::Left { next, edge, end } => {
            &&& reaches(g, constraint, start, prev, walk, next)
            &&& call_ensures(G::in_domain, (g, &next), false)
            &&& call_ensures(G::clip, (g, &next, &before(prev, walk, walk.len() as int)), edge)
            &&& projects(g, edge, end)
        },
        Ending::Spent { next } => {
            &&& walk.len() == MAX_STEPS
            &&& reaches(g, constraint, start, prev, walk, next)
            &&& call_ensures(G::in_domain, (g, &next), true)
        },
    }
}

/// The vertices and the failure flag of a path with the given walk and ending:
/// a path that found the edge of the domain is its walk and the point on the
/// edge; any other is its walk alone, and has failed.
pub open spec fn outcome<P>(walk: Seq<P>, ending: Ending<P>) -> (Seq<P>, bool) {
    match ending {
        Ending::Left { end: Some(e), .. } => (walk.push(e), false),
        _ => (walk, true),
    }
}

/// `walk` and `ending` are a course of the path from `start`, which was
/// reached from `prev`, and give `vertices` and `failed`.
pub open spec fn course<G: Geometry>(
    g: &G,
    constraint: Option<G::Point>,
    start: G::Point,
    prev: G::Point,
    walk: Seq<G::Point>,
    ending: Ending<G::Point>,
    vertices: Seq<G::Point>,
    failed: bool,
) -> bool {
    &&& walked(g, constraint, start, prev, walk)
    &&& ended(g, constraint, start, prev, walk, ending)
    &&& outcome(walk, ending) == (vertices, failed)
}

/// `vertices` and `failed` are an outcome of tracing a path from `start`, which
/// was reached from `prev`: there is a walk from `start` with an ending that
/// gives them.
pub open spec fn traced<G: Geometry>(
    g: &G,
    constraint: Option<G::Point>,
    start: G::Point,
    prev: G::Point,
    vertices: Seq<G::Point>,
    failed: bool,
) -> bool {
    exists|walk: Seq<G::Point>, ending: Ending<G::Point>| #[trigger]
        course(g, constraint, start, prev, walk, ending, vertices, failed)
}

/// Every vertex is the start point or was found on the surface.
pub open spec fn stays_on_surface<G: Geometry>(g: &G, start: G::Point, vertices: Seq<G::Point>)
    -> bool {
    forall|i: int|
        0 <= i < vertices.len() ==> #[trigger] vertices[i] == start || on_surface(g, vertices[i])
}

/// Every vertex but the last was found inside the domain.
pub open spec fn stays_in_domain<G: Geometry>(g: &G, vertices: Seq<G::Point>) -> bool {
    forall|i: int|
        0 <= i < vertices.len() - 1 ==> call_ensures(
            G::in_domain,
            (g, &#[trigger] vertices[i]),
            true,
        )
}

/// Moves on from `p`, which was reached from `prev`: one step in the direction
/// of motion, held to the surface along the normal at `p`.
fn advance<G: Geometry>(g: &G, constraint: Option<G::Point>, p: &G::Point, prev: &G::Point) -> (next:
    Option<G::Point>)
    ensures
        moves(g, constraint, *p, *prev, next),
{
    let diff = g.minus(p, prev);
    let heading = g.unit(&diff);
    let delta = g.pace(&heading);
    let gradient = g.normal_at(p);
    let flat = match constraint {
        Some(c) => g.reject(&gradient, &c),
        None => gradient,
    };
    let normal = g.unit(&flat);
    let next = step(g, p, &delta, &normal);
    proof {
        let m = Move::<G> { diff, heading, delta, gradient, flat, normal };
        assert(move_set(g, constraint, *p, *prev, m));
    }
    next
}

/// Traces a path from `point`, which was reached from `prev`, until it leaves
/// the domain, cannot go on, or has `MAX_STEPS` points.
fn trace<G: Geometry>(g: &G, constraint: Option<G::Point>, point: &G::Point, prev: &G::Point) -> (result:
    TraceResult<G::Point>)
    ensures
        result.wf(),
        result.vertices@.len() <= MAX_STEPS + 1,
        traced(g, constraint, *point, *prev, result.vertices@, result.failed),
        stays_on_surface(g, *point, result.vertices@),
        stays_in_domain(g, result.vertices@),
{
    let mut vertices: Vec<G::Point> = Vec::new();
    let mut p: G::Point = *point;
    let mut old_p: G::Point = *prev;
    let mut failed = false;
    let ghost mut ending: Ending<G::Point> = Ending::Stuck;
    loop
        invariant_except_break
            !failed,
            walked(g, constraint, *point, *prev, vertices@),
            reaches(g, constraint, *point, *prev, vertices@, p),
            old_p == before(*prev, vertices@, vertices@.len() as int),
        ensures
            vertices.len() <= MAX_STEPS + 1,
            traced(g, constraint, *point, *prev, vertices@, failed),
        decreases MAX_STEPS - vertices.len(),
    {
        let ghost walk = vertices@;
        if !g.in_domain(&p) {
            let edge = g.clip(&p, &old_p);
            let end = project_vertical(g, &edge);
            match end {
                Some(e) => {
                    vertices.push(e);
                },
                None => {
                    failed = true;
                },
            }
            proof {
                ending = Ending::Left { next: p, edge, end };
                assert(course(g, constraint, *point, *prev, walk, ending, vertices@, failed));
            }
            break ;
        }
        if vertices.len() >= MAX_STEPS {
            failed = true;
            proof {
                ending = Ending::Spent { next: p };
                assert(course(g, constraint, *point, *prev, walk, ending, vertices@, failed));
            }
            break ;
        }
        vertices.push(p);
        proof {
            assert forall|i: int| 0 < i < vertices@.len() implies #[trigger] moved_at(
                g,
                constraint,
                *prev,
                vertices@,
                i,
            ) by {
                if i < walk.len() {
                    assert(moved_at(g, constraint, *prev, walk, i));
                }
            }
        }
        match advance(g, constraint, &p, &old_p) {
            Some(q) => {
                old_p = p;
                p = q;
            },
            None => {
                failed = true;
                proof {
                    ending = Ending::Stuck;
                    assert(course(
                        g,
                        constraint,
                        *point,
                        *prev,
                        vertices@,
                        ending,
                        vertices@,
                        failed,
                    ));
                }
                break ;
            },
        }
    }
    let mut segments: Vec<(u32, u32)> = Vec::new();
    gen_indices(0, vertices.len(), &mut segments);
    proof {
        lemma_traced_on_surface(g, constraint, *point, *prev, vertices@, failed);
        lemma_traced_in_domain(g, constraint, *point, *prev, vertices@, failed);
    }
    TraceResult { vertices, segments, failed }
}

/// Traces a free-running path from `point`, which was reached from `prev`.
///
/// While the current point is inside the domain it is emitted, and the path
/// moves on by one step in the direction of the last displacement, held to the
/// surface along the unit normal. A step that finds no point ends the path as
/// failed. A point outside the domain ends it: the last segment is cut at the
/// edge of the domain and the cut, snapped onto the surface, is the last
/// vertex; where the cut finds no surface the path has failed. A path of
/// `MAX_STEPS` points that is still inside the domain is cut off as failed.
pub fn plot_path<G: Geometry>(g: &G, point: &G::Point, prev: &G::Point) -> (result: TraceResult<
    G::Point,
>)
    ensures
        result.wf(),
        result.vertices@.len() <= MAX_STEPS + 1,
        traced(g, None, *point, *prev, result.vertices@, result.failed),
        stays_on_surface(g, *point, result.vertices@),
        stays_in_domain(g, result.vertices@),
{
    trace(g, None, point, prev)
}

/// `result` is an outcome of tracing a path under `constraint`: nothing where
/// the constraint was found not to be of unit length, else a path traced with
/// normals that have no component along it.
pub open spec fn constrained<G: Geometry>(
    g: &G,
    start: G::Point,
    prev: G::Point,
    constraint: G::Point,
    result: Option<TraceResult<G::Point>>,
) -> bool {
    match result {
        Some(r) => {
            &&& call_ensures(G::is_unit, (g, &constraint), true)
            &&& r.wf()
            &&& traced(g, Some(constraint), start, prev, r.vertices@, r.failed)
        },
        None => call_ensures(G::is_unit, (g, &constraint), false),
    }
}

/// Traces a path as `plot_path` does, but with a normal that has no component
/// along `constraint`, so that a path which sets out across the constraint
/// stays in the plane across it. The constraint must be of unit length: it is
/// checked first, and a constraint that fails the check is rejected with no
/// path traced.
pub fn plot_path_constrained<G: Geometry>(
    g: &G,
    point: &G::Point,
    prev: &G::Point,
    constraint: &G::Point,
) -> (result: Option<TraceResult<G::Point>>)
    ensures
        constrained(g, *point, *prev, *constraint, result),
        result matches Some(r) ==> {
            &&& r.vertices@.len() <= MAX_STEPS + 1
            &&& stays_on_surface(g, *point, r.vertices@)
            &&& stays_in_domain(g, r.vertices@)
        },
{
    if !g.is_unit(constraint) {
        return None;
    }
    Some(trace(g, Some(*constraint), point, prev))
}

/// With deterministic numerics a move from a point has one outcome.
pub proof fn lemma_moves_unique<G: Geometry>(
    g: &G,
    constraint: Option<G::Point>,
    p: G::Point,
    prev: G::Point,
    a: Option<G::Point>,
    b: Option<G::Point>,
)
    requires
        deterministic(g),
        moves(g, constraint, p, prev, a),
        moves(g, constraint, p, prev, b),
    ensures
        a == b,
{
    let m = choose|m: Move<G>| #[trigger]
        move_set(g, constraint, p, prev, m) && steps(g, p, m.delta, m.normal, a);
    let n = choose|n: Move<G>| #[trigger]
        move_set(g, constraint, p, prev, n) && steps(g, p, n.delta, n.normal, b);
    assert(m == n);
    lemma_steps_unique(g, p, m.delta, m.normal, a, b);
}

/// Two walks from the same start agree on every point that both have.
proof fn lemma_walks_agree<G: Geometry>(
    g: &G,
    constraint: Option<G::Point>,
    start: G::Point,
    prev: G::Point,
    s: Seq<G::Point>,
    t: Seq<G::Point>,
    i: int,
)
    requires
        deterministic(g),
        walked(g, constraint, start, prev, s),
        walked(g, constraint, start, prev, t),
        0 <= i < s.len(),
        i < t.len(),
    ensures
        s[i] == t[i],
        before(prev, s, i) == before(prev, t, i),
    decreases i,
{
    if i > 0 {
        lemma_walks_agree(g, constraint, start, prev, s, t, i - 1);
        assert(moved_at(g, constraint, prev, s, i));
        assert(moved_at(g, constraint, prev, t, i));
        lemma_moves_unique(
            g,
            constraint,
            s[i - 1],
            before(prev, s, i - 1),
            Some(s[i]),
            Some(t[i]),
        );
    }
}

/// With deterministic numerics one point comes after a walk.
proof fn lemma_reaches_unique<G: Geometry>(
    g: &G,
    constraint: Option<G::Point>,
    start: G::Point,
    prev: G::Point,
    walk: Seq<G::Point>,
    p: G::Point,
    q: G::Point,
)
    requires
        deterministic(g),
        reaches(g, constraint, start, prev, walk, p),
        reaches(g, constraint, start, prev, walk, q),
    ensures
        p == q,
{
    if walk.len() > 0 {
        lemma_moves_unique(
            g,
            constraint,
            walk.last(),
            before(prev, walk, walk.len() - 1),
            Some(p),
            Some(q),
        );
    }
}

/// With deterministic numerics a walk that has ended goes no further: no walk
/// from the same start is longer.
proof fn lemma_ended_is_longest<G: Geometry>(
    g: &G,
    constraint: Option<G::Point>,
    start: G::Point,
    prev: G::Point,
    s: Seq<G::Point>,
    ending: Ending<G::Point>,
    t: Seq<G::Point>,
)
    requires
        deterministic(g),
        walked(g, constraint, start, prev, s),
        ended(g, constraint, start, prev, s, ending),
        walked(g, constraint, start, prev, t),
    ensures
        t.len() <= s.len(),
{
    if s.len() < t.len() {
        // `t` goes on to a point inside the domain where `s` has ended.
        let k = s.len() as int;
        if k > 0 {
            lemma_walks_agree(g, constraint, start, prev, s, t, k - 1);
            assert(moved_at(g, constraint, prev, t, k));
        }
        assert(reaches(g, constraint, start, prev, s, t[k]));
        match ending {
            Ending::Stuck => {
                lemma_moves_unique(
                    g,
                    constraint,
                    s.last(),
                    before(prev, s, k - 1),
                    None,
                    Some(t[k]),
                );
            },
            Ending::Left { next, .. } => {
                lemma_reaches_unique(g, constraint, start, prev, s, next, t[k]);
            },
            Ending::Spent { .. } => {},
        }
    }
}

/// With deterministic numerics a walk ends in one way.
proof fn lemma_ending_unique<G: Geometry>(
    g: &G,
    constraint: Option<G::Point>,
    start: G::Point,
    prev: G::Point,
    walk: Seq<G::Point>,
    a: Ending<G::Point>,
    b: Ending<G::Point>,
)
    requires
        deterministic(g),
        ended(g, constraint, start, prev, walk, a),
        ended(g, constraint, start, prev, walk, b),
    ensures
        outcome(walk, a) == outcome(walk, b),
{
    let last = before(prev, walk, walk.len() - 1);
    match (a, b) {
        (Ending::Stuck, Ending::Left { next, .. }) => {
            lemma_moves_unique(g, constraint, walk.last(), last, None, Some(next));
        },
        (Ending::Stuck, Ending::Spent { next }) => {
            lemma_moves_unique(g, constraint, walk.last(), last, None, Some(next));
        },
        (Ending::Left { next, .. }, Ending::Stuck) => {
            lemma_moves_unique(g, constraint, walk.last(), last, None, Some(next));
        },
        (Ending::Spent { next }, Ending::Stuck) => {
            lemma_moves_unique(g, constraint, walk.last(), last, None, Some(next));
        },
        (Ending::Left { next, .. }, Ending::Spent { next: other }) => {
            lemma_reaches_unique(g, constraint, start, prev, walk, next, other);
        },
        (Ending::Spent { next }, Ending::Left { next: other, .. }) => {
            lemma_reaches_unique(g, constraint, start, prev, walk, next, other);
        },
        (Ending::Left { next, edge, end }, Ending::Left { next: other, edge: cut, end: found }) => {
            lemma_reaches_unique(g, constraint, start, prev, walk, next, other);
            assert(edge == cut);
            lemma_projects_unique(g, edge, end, found);
        },
        _ => {},
    }
}

/// With deterministic numerics a path has one outcome: any two results that
/// tracing from the same two points may give hold the same vertices and the
/// same failure flag.
pub proof fn lemma_traced_unique<G: Geometry>(
    g: &G,
    constraint: Option<G::Point>,
    start: G::Point,
    prev: G::Point,
    a: Seq<G::Point>,
    a_failed: bool,
    b: Seq<G::Point>,
    b_failed: bool,
)
    requires
        deterministic(g),
        traced(g, constraint, start, prev, a, a_failed),
        traced(g, constraint, start, prev, b, b_failed),
    ensures
        a == b,
        a_failed == b_failed,
{
    let (s, ending_s) = choose|walk: Seq<G::Point>, ending: Ending<G::Point>| #[trigger]
        course(g, constraint, start, prev, walk, ending, a, a_failed);
    let (t, ending_t) = choose|walk: Seq<G::Point>, ending: Ending<G::Point>| #[trigger]
        course(g, constraint, start, prev, walk, ending, b, b_failed);
    lemma_ended_is_longest(g, constraint, start, prev, s, ending_s, t);
    lemma_ended_is_longest(g, constraint, start, prev, t, ending_t, s);
    assert(s =~= t) by {
        assert forall|i: int| 0 <= i < s.len() implies s[i] == t[i] by {
            lemma_walks_agree(g, constraint, start, prev, s, t, i);
        }
    }
    lemma_ending_unique(g, constraint, start, prev, s, ending_s, ending_t);
}

/// Two results hold the same polyline, or both are nothing.
pub open spec fn same_path<P>(a: Option<TraceResult<P>>, b: Option<TraceResult<P>>) -> bool {
    match (a, b) {
        (Some(s), Some(t)) => {
            &&& s.vertices@ == t.vertices@
            &&& s.segments@ == t.segments@
            &&& s.failed == t.failed
        },
        (None, None) => true,
        _ => false,
    }
}

/// Constrained tracing is repeatable: with deterministic numerics, two results
/// of `plot_path_constrained` from the same two points under the same
/// constraint are both nothing or the same polyline.
pub proof fn lemma_constrained_unique<G: Geometry>(
    g: &G,
    point: G::Point,
    prev: G::Point,
    constraint: G::Point,
    first: Option<TraceResult<G::Point>>,
    second: Option<TraceResult<G::Point>>,
)
    requires
        deterministic(g),
        constrained(g, point, prev, constraint, first),
        constrained(g, point, prev, constraint, second),
    ensures
        same_path(first, second),
{
    if let (Some(s), Some(t)) = (first, second) {
        lemma_traced_unique(
            g,
            Some(constraint),
            point,
            prev,
            s.vertices@,
            s.failed,
            t.vertices@,
            t.failed,
        );
    }
}

/// Tracing is repeatable: with deterministic numerics, two results of
/// `plot_path` from the same two points are the same polyline.
pub proof fn lemma_plot_path_repeatable<G: Geometry>(
    g: &G,
    point: G::Point,
    prev: G::Point,
    first: TraceResult<G::Point>,
    second: TraceResult<G::Point>,
)
    requires
        deterministic(g),
        first.wf(),
        traced(g, None, point, prev, first.vertices@, first.failed),
        second.wf(),
        traced(g, None, point, prev, second.vertices@, second.failed),
    ensures
        first.vertices@ == second.vertices@,
        first.segments@ == second.segments@,
        first.failed == second.failed,
{
    lemma_traced_unique(
        g,
        None,
        point,
        prev,
        first.vertices@,
        first.failed,
        second.vertices@,
        second.failed,
    );
}

/// A point that a move returns lies on the surface.
pub proof fn lemma_move_on_surface<G: Geometry>(
    g: &G,
    constraint: Option<G::Point>,
    p: G::Point,
    prev: G::Point,
    q: G::Point,
)
    requires
        moves(g, constraint, p, prev, Some(q)),
    ensures
        on_surface(g, q),
{
    let m = choose|m: Move<G>| #[trigger]
        move_set(g, constraint, p, prev, m) && steps(g, p, m.delta, m.normal, Some(q));
    lemma_step_on_surface(g, p, m.delta, m.normal, q);
}

/// A path stays on the surface: every vertex of a traced path is the start
/// point or lies on the surface, so from a start point on the surface every
/// vertex does.
pub proof fn lemma_traced_on_surface<G: Geometry>(
    g: &G,
    constraint: Option<G::Point>,
    start: G::Point,
    prev: G::Point,
    vertices: Seq<G::Point>,
    failed: bool,
)
    requires
        traced(g, constraint, start, prev, vertices, failed),
    ensures
        stays_on_surface(g, start, vertices),
        on_surface(g, start) ==> all_on_surface(g, vertices),
{
    let (walk, ending) = choose|walk: Seq<G::Point>, ending: Ending<G::Point>| #[trigger]
        course(g, constraint, start, prev, walk, ending, vertices, failed);
    assert forall|i: int| 0 <= i < vertices.len() implies #[trigger] vertices[i] == start
        || on_surface(g, vertices[i]) by {
        if 0 < i < walk.len() {
            assert(moved_at(g, constraint, prev, walk, i));
            lemma_move_on_surface(g, constraint, walk[i - 1], before(prev, walk, i - 1), walk[i]);
        } else if i >= walk.len() {
            match ending {
                Ending::Left { edge, end: Some(e), .. } => {
                    lemma_projection_on_surface(g, edge, e);
                },
                _ => {},
            }
        }
    }
}

/// A path stays inside the domain: every vertex of a traced path but the last
/// was found inside it.
pub proof fn lemma_traced_in_domain<G: Geometry>(
    g: &G,
    constraint: Option<G::Point>,
    start: G::Point,
    prev: G::Point,
    vertices: Seq<G::Point>,
    failed: bool,
)
    requires
        traced(g, constraint, start, prev, vertices, failed),
    ensures
        stays_in_domain(g, vertices),
{
    let (walk, ending) = choose|walk: Seq<G::Point>, ending: Ending<G::Point>| #[trigger]
        course(g, constraint, start, prev, walk, ending, vertices, failed);
    assert forall|i: int| 0 <= i < vertices.len() - 1 implies call_ensures(
        G::in_domain,
        (g, &#[trigger] vertices[i]),
        true,
    ) by {
        assert(vertices[i] == walk[i]);
    }
}

} // verus!
