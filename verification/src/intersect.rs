//! The line search: where a line meets the surface.
use vstd::prelude::*;
use crate::geometry::{deterministic, Geometry};

verus! {

/// The number of Newton iterates after which a line search gives up.
pub const MAX_ITER: usize = 10;

/// One iterate of a line search: a parameter, the point it stands for and the
/// value of the field there.
pub struct Probe<G: Geometry> {
    pub lambda: G::Scalar,
    pub guess: G::Point,
    pub value: G::Scalar,
}

/// `probe` is an evaluation of the line through `point` along `direction`.
pub open spec fn probed<G: Geometry>(
    g: &G,
    point: G::Point,
    direction: G::Point,
    probe: Probe<G>,
) -> bool {
    &&& call_ensures(G::along, (g, &point, &direction, &probe.lambda), probe.guess)
    &&& call_ensures(G::dist, (g, &probe.guess), probe.value)
}

/// `next` is the Newton update of a `probe` that is not on the surface.
pub open spec fn refined<G: Geometry>(
    g: &G,
    point: G::Point,
    direction: G::Point,
    probe: Probe<G>,
    next: G::Scalar,
) -> bool {
    &&& call_ensures(G::negligible, (g, &probe.value), false)
    &&& call_ensures(G::refine, (g, &point, &direction, &probe.lambda, &probe.value), next)
}

/// Iterate `i` of `run` was not on the surface, and iterate `i + 1` is its
/// Newton update.
pub open spec fn refined_at<G: Geometry>(
    g: &G,
    point: G::Point,
    direction: G::Point,
    run: Seq<Probe<G>>,
    i: int,
) -> bool {
    refined(g, point, direction, run[i], run[i + 1].lambda)
}

/// `run` is a Newton search on the line through `point` along `direction`: it
/// starts at the start parameter, and each later iterate is the update of the
/// one before, which was not on the surface.
pub open spec fn newton_run<G: Geometry>(
    g: &G,
    point: G::Point,
    direction: G::Point,
    run: Seq<Probe<G>>,
) -> bool {
    &&& 1 <= run.len() <= MAX_ITER
    &&& call_ensures(G::start, (g,), run[0].lambda)
    &&& forall|i: int| 0 <= i < run.len() ==> probed(g, point, direction, #[trigger] run[i])
    &&& forall|i: int|
        0 <= i < run.len() - 1 ==> #[trigger] refined_at(g, point, direction, run, i)
}

/// A search `run` that ends in `result`: the guess of its last iterate where
/// that lies on the surface, nothing where all of `MAX_ITER` iterates missed.
pub open spec fn run_ends<G: Geometry>(g: &G, run: Seq<Probe<G>>, result: Option<G::Point>) -> bool {
    match result {
        Some(p) => p == run.last().guess && call_ensures(G::negligible, (g, &run.last().value), true),
        None => run.len() == MAX_ITER && call_ensures(G::negligible, (g, &run.last().value), false),
    }
}

/// `result` is an outcome of the line search from `point` along `direction`.
pub open spec fn intersects<G: Geometry>(
    g: &G,
    point: G::Point,
    direction: G::Point,
    result: Option<G::Point>,
) -> bool {
    exists|run: Seq<Probe<G>>| #[trigger]
        newton_run(g, point, direction, run) && run_ends(g, run, result)
}

/// The field was evaluated at `p` and found within tolerance of zero.
pub open spec fn on_surface<G: Geometry>(g: &G, p: G::Point) -> bool {
    exists|value: G::Scalar| #[trigger]
        call_ensures(G::dist, (g, &p), value) && call_ensures(G::negligible, (g, &value), true)
}

/// Every point of `points` was found on the surface.
pub open spec fn all_on_surface<G: Geometry>(g: &G, points: Seq<G::Point>) -> bool {
    forall|i: int| 0 <= i < points.len() ==> on_surface(g, #[trigger] points[i])
}

/// Finds where the line through `point` along `direction` meets the surface, by
/// Newton's method from the start parameter. The search ends at the first
/// iterate that lies on the surface, and without a result after `MAX_ITER`
/// iterates.
pub fn intersect_line<G: Geometry>(g: &G, point: &G::Point, direction: &G::Point) -> (result:
    Option<G::Point>)
    ensures
        intersects(g, *point, *direction, result),
        result matches Some(p) ==> on_surface(g, p),
{
    let mut lambda = g.start();
    let ghost mut run: Seq<Probe<G>> = Seq::empty();
    let mut i: usize = 0;
    while i < MAX_ITER
        invariant
            i <= MAX_ITER,
            run.len() == i,
            i == 0 ==> call_ensures(G::start, (g,), lambda),
            i > 0 ==> newton_run(g, *point, *direction, run) && refined(
                g,
                *point,
                *direction,
                run.last(),
                lambda,
            ),
        decreases MAX_ITER - i,
    {
        let guess = g.along(point, direction, &lambda);
        let value = g.dist(&guess);
        let ghost before = run;
        proof {
            run = run.push(Probe { lambda, guess, value });
            assert forall|j: int| 0 <= j < run.len() - 1 implies #[trigger] refined_at(
                g,
                *point,
                *direction,
                run,
                j,
            ) by {
                if j < before.len() - 1 {
                    assert(refined_at(g, *point, *direction, before, j));
                }
            }
            assert(newton_run(g, *point, *direction, run));
        }
        if g.negligible(&value) {
            return Some(guess);
        }
        lambda = g.refine(point, direction, &lambda, &value);
        i += 1;
    }
    None
}

/// `result` is an outcome of the line search from `point` straight up.
pub open spec fn projects<G: Geometry>(g: &G, point: G::Point, result: Option<G::Point>) -> bool {
    exists|up: G::Point| #[trigger]
        call_ensures(G::vertical, (g,), up) && intersects(g, point, up, result)
}

/// Snaps `point` onto the surface along the vertical through it.
pub fn project_vertical<G: Geometry>(g: &G, point: &G::Point) -> (result: Option<G::Point>)
    ensures
        projects(g, *point, result),
        result matches Some(p) ==> on_surface(g, p),
{
    let up = g.vertical();
    intersect_line(g, point, &up)
}

/// Two Newton searches on the same line agree on every iterate that both have.
proof fn lemma_runs_agree<G: Geometry>(
    g: &G,
    point: G::Point,
    direction: G::Point,
    s: Seq<Probe<G>>,
    t: Seq<Probe<G>>,
    i: int,
)
    requires
        deterministic(g),
        newton_run(g, point, direction, s),
        newton_run(g, point, direction, t),
        0 <= i < s.len(),
        i < t.len(),
    ensures
        s[i] == t[i],
    decreases i,
{
    if i > 0 {
        lemma_runs_agree(g, point, direction, s, t, i - 1);
        assert(refined_at(g, point, direction, s, i - 1));
        assert(refined_at(g, point, direction, t, i - 1));
    }
}

/// With deterministic numerics a line search has one outcome.
pub proof fn lemma_intersects_unique<G: Geometry>(
    g: &G,
    point: G::Point,
    direction: G::Point,
    a: Option<G::Point>,
    b: Option<G::Point>,
)
    requires
        deterministic(g),
        intersects(g, point, direction, a),
        intersects(g, point, direction, b),
    ensures
        a == b,
{
    let s = choose|run: Seq<Probe<G>>| #[trigger]
        newton_run(g, point, direction, run) && run_ends(g, run, a);
    let t = choose|run: Seq<Probe<G>>| #[trigger]
        newton_run(g, point, direction, run) && run_ends(g, run, b);
    if s.len() < t.len() {
        lemma_runs_agree(g, point, direction, s, t, s.len() - 1);
        assert(refined_at(g, point, direction, t, s.len() - 1));
    } else if t.len() < s.len() {
        lemma_runs_agree(g, point, direction, s, t, t.len() - 1);
        assert(refined_at(g, point, direction, s, t.len() - 1));
    } else {
        lemma_runs_agree(g, point, direction, s, t, s.len() - 1);
    }
}

/// With deterministic numerics a vertical projection has one outcome.
pub proof fn lemma_projects_unique<G: Geometry>(
    g: &G,
    point: G::Point,
    a: Option<G::Point>,
    b: Option<G::Point>,
)
    requires
        deterministic(g),
        projects(g, point, a),
        projects(g, point, b),
    ensures
        a == b,
{
    let u = choose|up: G::Point| #[trigger]
        call_ensures(G::vertical, (g,), up) && intersects(g, point, up, a);
    let v = choose|up: G::Point| #[trigger]
        call_ensures(G::vertical, (g,), up) && intersects(g, point, up, b);
    lemma_intersects_unique(g, point, u, a, b);
}

/// A point that a line search returns lies on the surface.
pub proof fn lemma_intersection_on_surface<G: Geometry>(
    g: &G,
    point: G::Point,
    direction: G::Point,
    p: G::Point,
)
    requires
        intersects(g, point, direction, Some(p)),
    ensures
        on_surface(g, p),
{
    let run = choose|run: Seq<Probe<G>>| #[trigger]
        newton_run(g, point, direction, run) && run_ends(g, run, Some(p));
    assert(probed(g, point, direction, run.last()));
}

/// A point that a vertical projection returns lies on the surface.
pub proof fn lemma_projection_on_surface<G: Geometry>(g: &G, point: G::Point, p: G::Point)
    requires
        projects(g, point, Some(p)),
    ensures
        on_surface(g, p),
{
    let up = choose|up: G::Point| #[trigger]
        call_ensures(G::vertical, (g,), up) && intersects(g, point, up, Some(p));
    lemma_intersection_on_surface(g, point, up, p);
}

} // verus!
