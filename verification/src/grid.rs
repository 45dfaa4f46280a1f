//! The reference grid: lines of constant x and of constant y across the domain.
use vstd::prelude::*;
use crate::geometry::{deterministic, Axis, Function, Geometry};
use crate::intersect::{
    all_on_surface, lemma_projection_on_surface, lemma_projects_unique, project_vertical, projects,
};
use crate::path::{
    lemma_traced_on_surface, lemma_traced_unique, plot_path_constrained, polyline, traced,
    TraceResult,
};

verus! {

/// One line of the grid, with the axis that it was constrained by.
pub struct GridLine<P> {
    pub trace: TraceResult<P>,
    pub axis: Axis,
}

/// What a grid line is begun from: the unit vector along its axis, the two
/// points above the edge of the domain and one step behind it, and where each
/// point came down on the surface.
pub struct Seed<G: Geometry> {
    pub constraint: G::Point,
    pub above: G::Point,
    pub above_prev: G::Point,
    pub point: Option<G::Point>,
    pub prev: Option<G::Point>,
}

/// `seed` holds the constraint and the start points of line `idx` of the lines
/// that keep `axis` fixed, each point snapped onto the surface.
pub open spec fn seed_set<G: Geometry>(
    g: &G,
    axis: Axis,
    idx: usize,
    size: usize,
    mirrored: bool,
    seed: Seed<G>,
) -> bool {
    &&& call_ensures(G::axis, (g, axis), seed.constraint)
    &&& call_ensures(G::grid_seed, (g, axis, idx, size, mirrored), seed.above)
    &&& projects(g, seed.above, seed.point)
    &&& call_ensures(G::grid_seed_prev, (g, axis, idx, size, mirrored), seed.above_prev)
    &&& projects(g, seed.above_prev, seed.prev)
}

/// `vertices` and `failed` are an outcome of drawing a line from `seed`: the
/// path traced under the seed's constraint from its two points, or a failed
/// line without vertices where a point did not come down on the surface or the
/// constraint was found not to be of unit length.
pub open spec fn drawn<G: Geometry>(g: &G, seed: Seed<G>, vertices: Seq<G::Point>, failed: bool)
    -> bool {
    match (seed.point, seed.prev) {
        (Some(p), Some(q)) => {
            ||| {
                &&& call_ensures(G::is_unit, (g, &seed.constraint), true)
                &&& traced(g, Some(seed.constraint), p, q, vertices, failed)
            }
            ||| {
                &&& call_ensures(G::is_unit, (g, &seed.constraint), false)
                &&& vertices.len() == 0
                &&& failed
            }
        },
        _ => vertices.len() == 0 && failed,
    }
}

/// `line` is an outcome of drawing line `idx` of the lines that keep `axis`
/// fixed.
pub open spec fn grid_line<G: Geometry>(
    g: &G,
    axis: Axis,
    idx: usize,
    size: usize,
    mirrored: bool,
    line: GridLine<G::Point>,
) -> bool {
    &&& line.axis == axis
    &&& line.trace.wf()
    &&& exists|seed: Seed<G>| #[trigger]
        seed_set(g, axis, idx, size, mirrored, seed) && drawn(
            g,
            seed,
            line.trace.vertices@,
            line.trace.failed,
        )
}

/// `lines` are the `size + 1` lines that keep `axis` fixed, in order.
pub open spec fn sweep<G: Geometry>(
    g: &G,
    axis: Axis,
    mirrored: bool,
    size: usize,
    lines: Seq<GridLine<G::Point>>,
) -> bool {
    &&& lines.len() == size + 1
    &&& forall|idx: int|
        0 <= idx <= size ==> grid_line(g, axis, idx as usize, size, mirrored, #[trigger] lines[idx])
}

/// `lines` are the grid of resolution `size` for a surface of family `f`: the
/// lines of constant x, then those of constant y, and for a surface of two
/// sheets the same again for the mirrored sheet.
pub open spec fn grid<G: Geometry>(g: &G, f: Function, size: usize, lines: Seq<GridLine<G::Point>>)
    -> bool {
    let n = size + 1;
    &&& lines.len() == if f.two_sheeted() {
        4 * n
    } else {
        2 * n
    }
    &&& sweep(g, Axis::X, false, size, lines.subrange(0, n))
    &&& sweep(g, Axis::Y, false, size, lines.subrange(n, 2 * n))
    &&& f.two_sheeted() ==> {
        &&& sweep(g, Axis::X, true, size, lines.subrange(2 * n, 3 * n))
        &&& sweep(g, Axis::Y, true, size, lines.subrange(3 * n, 4 * n))
    }
}

/// `lines` are an outcome of building the grid of resolution `size`.
pub open spec fn gridded<G: Geometry>(g: &G, size: usize, lines: Seq<GridLine<G::Point>>) -> bool {
    exists|f: Function| call_ensures(G::function, (g,), f) && #[trigger] grid(g, f, size, lines)
}

/// A line without vertices, marked failed.
fn no_line<P>() -> (trace: TraceResult<P>)
    ensures
        trace.wf(),
        trace.vertices@.len() == 0,
        trace.failed,
{
    let trace = TraceResult { vertices: Vec::new(), segments: Vec::new(), failed: true };
    assert(trace.segments@ =~= polyline(0, 0));
    trace
}

/// Draws line `idx` of the lines that keep `axis` fixed.
fn draw_line<G: Geometry>(g: &G, axis: Axis, idx: usize, size: usize, mirrored: bool) -> (line:
    GridLine<G::Point>)
    ensures
        grid_line(g, axis, idx, size, mirrored, line),
{
    let constraint = g.axis(axis);
    let above = g.grid_seed(axis, idx, size, mirrored);
    let point = project_vertical(g, &above);
    let above_prev = g.grid_seed_prev(axis, idx, size, mirrored);
    let prev = project_vertical(g, &above_prev);
    proof {
        let seed = Seed::<G> { constraint, above, above_prev, point, prev };
        assert(seed_set(g, axis, idx, size, mirrored, seed));
    }
    let trace = match (point, prev) {
        (Some(p), Some(q)) => match plot_path_constrained(g, &p, &q, &constraint) {
            Some(trace) => trace,
            None => no_line(),
        },
        _ => no_line(),
    };
    GridLine { trace, axis }
}

/// Appends the `size + 1` lines that keep `axis` fixed.
fn build<G: Geometry>(
    g: &G,
    axis: Axis,
    mirrored: bool,
    size: usize,
    lines: &mut Vec<GridLine<G::Point>>,
)
    ensures
        final(lines)@.len() == old(lines)@.len() + size + 1,
        final(lines)@.subrange(0, old(lines)@.len() as int) == old(lines)@,
        sweep(
            g,
            axis,
            mirrored,
            size,
            final(lines)@.subrange(old(lines)@.len() as int, final(lines)@.len() as int),
        ),
{
    let ghost mut added: Seq<GridLine<G::Point>> = Seq::empty();
    let mut idx: usize = 0;
    loop
        invariant_except_break
            idx <= size,
            added.len() == idx,
            lines@ == old(lines)@ + added,
            forall|j: int|
                0 <= j < idx ==> grid_line(g, axis, j as usize, size, mirrored, #[trigger] added[j]),
        ensures
            lines@ == old(lines)@ + added,
            sweep(g, axis, mirrored, size, added),
        decreases size - idx,
    {
        let line = draw_line(g, axis, idx, size, mirrored);
        lines.push(line);
        proof {
            added = added.push(line);
        }
        if idx == size {
            break ;
        }
        idx += 1;
    }
}

/// Builds the reference grid of resolution `size`: for each of the two axes,
/// `size + 1` lines across the domain that keep that coordinate fixed, and for
/// a surface of two sheets the same lines on the mirrored sheet. Each line is
/// traced under the unit vector along its axis. A line that cannot be begun or
/// extended, or whose constraint fails the check of its length, is cut short
/// and marked failed; the lines after it are drawn all the same.
pub fn create_grid<G: Geometry>(g: &G, size: usize) -> (lines: Vec<GridLine<G::Point>>)
    ensures
        gridded(g, size, lines@),
        grid_on_surface(g, lines@),
{
    let mut lines: Vec<GridLine<G::Point>> = Vec::new();
    let f = g.function();
    let ghost n = size + 1;
    build(g, Axis::X, false, size, &mut lines);
    let ghost first = lines@;
    build(g, Axis::Y, false, size, &mut lines);
    let ghost second = lines@;
    proof {
        assert(first.subrange(0, n) =~= first);
    }
    if f.sheets() == 2 {
        build(g, Axis::X, true, size, &mut lines);
        let ghost third = lines@;
        build(g, Axis::Y, true, size, &mut lines);
        proof {
            assert(lines@.subrange(0, n) =~= second.subrange(0, n));
            assert(lines@.subrange(n, 2 * n) =~= second.subrange(n, 2 * n));
            assert(lines@.subrange(2 * n, 3 * n) =~= third.subrange(2 * n, 3 * n));
        }
    }
    proof {
        assert(grid(g, f, size, lines@));
        lemma_gridded_on_surface(g, size, lines@);
    }
    lines
}

/// Two grid lines hold the same polyline.
pub open spec fn same_line<P>(a: GridLine<P>, b: GridLine<P>) -> bool {
    &&& a.axis == b.axis
    &&& a.trace.vertices@ == b.trace.vertices@
    &&& a.trace.segments@ == b.trace.segments@
    &&& a.trace.failed == b.trace.failed
}

/// With deterministic numerics a grid line has one outcome.
pub proof fn lemma_grid_line_unique<G: Geometry>(
    g: &G,
    axis: Axis,
    idx: usize,
    size: usize,
    mirrored: bool,
    a: GridLine<G::Point>,
    b: GridLine<G::Point>,
)
    requires
        deterministic(g),
        grid_line(g, axis, idx, size, mirrored, a),
        grid_line(g, axis, idx, size, mirrored, b),
    ensures
        same_line(a, b),
{
    let s = choose|seed: Seed<G>| #[trigger]
        seed_set(g, axis, idx, size, mirrored, seed) && drawn(
            g,
            seed,
            a.trace.vertices@,
            a.trace.failed,
        );
    let t = choose|seed: Seed<G>| #[trigger]
        seed_set(g, axis, idx, size, mirrored, seed) && drawn(
            g,
            seed,
            b.trace.vertices@,
            b.trace.failed,
        );
    lemma_projects_unique(g, s.above, s.point, t.point);
    lemma_projects_unique(g, s.above_prev, s.prev, t.prev);
    assert(s == t);
    match (s.point, s.prev) {
        (Some(p), Some(q)) => {
            if call_ensures(G::is_unit, (g, &s.constraint), true) {
                lemma_traced_unique(
                    g,
                    Some(s.constraint),
                    p,
                    q,
                    a.trace.vertices@,
                    a.trace.failed,
                    b.trace.vertices@,
                    b.trace.failed,
                );
            } else {
                assert(a.trace.vertices@ =~= b.trace.vertices@);
            }
        },
        _ => {
            assert(a.trace.vertices@ =~= b.trace.vertices@);
        },
    }
}

/// With deterministic numerics line `k` of the lines that keep one axis fixed
/// has one outcome.
proof fn lemma_sweep_line_unique<G: Geometry>(
    g: &G,
    axis: Axis,
    mirrored: bool,
    size: usize,
    s: Seq<GridLine<G::Point>>,
    t: Seq<GridLine<G::Point>>,
    k: int,
)
    requires
        deterministic(g),
        sweep(g, axis, mirrored, size, s),
        sweep(g, axis, mirrored, size, t),
        0 <= k <= size,
    ensures
        same_line(s[k], t[k]),
{
    lemma_grid_line_unique(g, axis, k as usize, size, mirrored, s[k], t[k]);
}

/// With deterministic numerics the lines that keep one axis fixed have one
/// outcome, wherever they stand in two grids.
proof fn lemma_sweep_unique<G: Geometry>(
    g: &G,
    axis: Axis,
    mirrored: bool,
    size: usize,
    a: Seq<GridLine<G::Point>>,
    b: Seq<GridLine<G::Point>>,
    lo: int,
)
    requires
        deterministic(g),
        0 <= lo,
        lo + size + 1 <= a.len(),
        lo + size + 1 <= b.len(),
        sweep(g, axis, mirrored, size, a.subrange(lo, lo + size + 1)),
        sweep(g, axis, mirrored, size, b.subrange(lo, lo + size + 1)),
    ensures
        forall|i: int| lo <= i <= lo + size ==> same_line(#[trigger] a[i], b[i]),
{
    let s = a.subrange(lo, lo + size + 1);
    let t = b.subrange(lo, lo + size + 1);
    assert forall|i: int| lo <= i <= lo + size implies same_line(#[trigger] a[i], b[i]) by {
        lemma_sweep_line_unique(g, axis, mirrored, size, s, t, i - lo);
    }
}

/// Building the grid is repeatable: with deterministic numerics, two results of
/// `create_grid` for the same resolution hold the same lines in the same order.
pub proof fn lemma_gridded_unique<G: Geometry>(
    g: &G,
    size: usize,
    a: Seq<GridLine<G::Point>>,
    b: Seq<GridLine<G::Point>>,
)
    requires
        deterministic(g),
        gridded(g, size, a),
        gridded(g, size, b),
    ensures
        a.len() == b.len(),
        forall|i: int| 0 <= i < a.len() ==> same_line(#[trigger] a[i], b[i]),
{
    let f = choose|f: Function| call_ensures(G::function, (g,), f) && #[trigger] grid(g, f, size, a);
    let h = choose|h: Function| call_ensures(G::function, (g,), h) && #[trigger] grid(g, h, size, b);
    let n = size + 1;
    lemma_sweep_unique(g, Axis::X, false, size, a, b, 0);
    lemma_sweep_unique(g, Axis::Y, false, size, a, b, n);
    if f.two_sheeted() {
        lemma_sweep_unique(g, Axis::X, true, size, a, b, 2 * n);
        lemma_sweep_unique(g, Axis::Y, true, size, a, b, 3 * n);
    }
}

/// Every line keeps to the surface.
pub open spec fn grid_on_surface<G: Geometry>(g: &G, lines: Seq<GridLine<G::Point>>) -> bool {
    forall|i: int| 0 <= i < lines.len() ==> all_on_surface(g, #[trigger] lines[i].trace.vertices@)
}

/// A grid line stays on the surface: every vertex of it was found on the
/// surface.
pub proof fn lemma_grid_line_on_surface<G: Geometry>(
    g: &G,
    axis: Axis,
    idx: usize,
    size: usize,
    mirrored: bool,
    line: GridLine<G::Point>,
)
    requires
        grid_line(g, axis, idx, size, mirrored, line),
    ensures
        all_on_surface(g, line.trace.vertices@),
{
    let seed = choose|seed: Seed<G>| #[trigger]
        seed_set(g, axis, idx, size, mirrored, seed) && drawn(
            g,
            seed,
            line.trace.vertices@,
            line.trace.failed,
        );
    match (seed.point, seed.prev) {
        (Some(p), Some(q)) => {
            if line.trace.vertices@.len() > 0 {
                lemma_projection_on_surface(g, seed.above, p);
                lemma_traced_on_surface(
                    g,
                    Some(seed.constraint),
                    p,
                    q,
                    line.trace.vertices@,
                    line.trace.failed,
                );
            }
        },
        _ => {},
    }
}

/// The lines that keep one axis fixed stay on the surface, wherever they stand
/// in a grid.
proof fn lemma_sweep_on_surface<G: Geometry>(
    g: &G,
    axis: Axis,
    mirrored: bool,
    size: usize,
    lines: Seq<GridLine<G::Point>>,
    lo: int,
)
    requires
        0 <= lo,
        lo + size + 1 <= lines.len(),
        sweep(g, axis, mirrored, size, lines.subrange(lo, lo + size + 1)),
    ensures
        forall|i: int|
            lo <= i <= lo + size ==> all_on_surface(g, #[trigger] lines[i].trace.vertices@),
{
    let part = lines.subrange(lo, lo + size + 1);
    assert forall|i: int| lo <= i <= lo + size implies all_on_surface(
        g,
        #[trigger] lines[i].trace.vertices@,
    ) by {
        lemma_grid_line_on_surface(g, axis, (i - lo) as usize, size, mirrored, part[i - lo]);
    }
}

/// A grid stays on the surface: every vertex of every line was found on it.
pub proof fn lemma_gridded_on_surface<G: Geometry>(
    g: &G,
    size: usize,
    lines: Seq<GridLine<G::Point>>,
)
    requires
        gridded(g, size, lines),
    ensures
        grid_on_surface(g, lines),
{
    let f = choose|f: Function|
        call_ensures(G::function, (g,), f) && #[trigger] grid(g, f, size, lines);
    let n = size + 1;
    lemma_sweep_on_surface(g, Axis::X, false, size, lines, 0);
    lemma_sweep_on_surface(g, Axis::Y, false, size, lines, n);
    if f.two_sheeted() {
        lemma_sweep_on_surface(g, Axis::X, true, size, lines, 2 * n);
        lemma_sweep_on_surface(g, Axis::Y, true, size, lines, 3 * n);
    }
}

} // verus!
