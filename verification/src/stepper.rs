//! One step along the surface, retried with a shorter displacement where the
//! surface curves away.
use vstd::prelude::*;
use crate::geometry::{deterministic, Geometry};
use crate::intersect::{
    intersect_line, intersects, lemma_intersection_on_surface, lemma_intersects_unique, on_surface,
};

verus! {

/// The number of attempts after which a step gives up.
pub const MAX_TRIES: usize = 8;

/// One attempt of a step: the displacement tried, the point it leads to and
/// what the line search from there found.
pub struct Attempt<G: Geometry> {
    pub delta: G::Point,
    pub target: G::Point,
    pub found: Option<G::Point>,
}

/// `attempt` displaces `p` and searches along `norm` from there.
pub open spec fn attempted<G: Geometry>(g: &G, p: G::Point, norm: G::Point, attempt: Attempt<G>)
    -> bool {
    &&& call_ensures(G::plus, (g, &p, &attempt.delta), attempt.target)
    &&& intersects(g, attempt.target, norm, attempt.found)
}

/// `attempt` found nothing, and `next` is half its displacement.
pub open spec fn retried<G: Geometry>(g: &G, attempt: Attempt<G>, next: G::Point) -> bool {
    &&& attempt.found is None
    &&& call_ensures(G::halve, (g, &attempt.delta), next)
}

/// Attempt `i` of `run` found nothing, and attempt `i + 1` uses half its
/// displacement.
pub open spec fn retried_at<G: Geometry>(g: &G, run: Seq<Attempt<G>>, i: int) -> bool {
    retried(g, run[i], run[i + 1].delta)
}

/// `run` is a series of attempts to step from `p` by `delta`: the first uses
/// `delta` itself, and each later one half the displacement of the one before,
/// which found nothing.
pub open spec fn step_run<G: Geometry>(
    g: &G,
    p: G::Point,
    delta: G::Point,
    norm: G::Point,
    run: Seq<Attempt<G>>,
) -> bool {
    &&& 1 <= run.len() <= MAX_TRIES
    &&& run[0].delta == delta
    &&& forall|i: int| 0 <= i < run.len() ==> attempted(g, p, norm, #[trigger] run[i])
    &&& forall|i: int| 0 <= i < run.len() - 1 ==> #[trigger] retried_at(g, run, i)
}

/// `result` is an outcome of a step from `p` by `delta`, held to the surface
/// along `norm`: what the last attempt of a series found, which is nothing only
/// after `MAX_TRIES` attempts.
pub open spec fn steps<G: Geometry>(
    g: &G,
    p: G::Point,
    delta: G::Point,
    norm: G::Point,
    result: Option<G::Point>,
) -> bool {
    exists|run: Seq<Attempt<G>>| #[trigger]
        step_run(g, p, delta, norm, run) && result == run.last().found && (result is None
            ==> run.len() == MAX_TRIES)
}

/// Takes a step from `p` by `delta` and snaps the point reached back onto the
/// surface along `norm`. Where the line search finds nothing, it is tried again
/// from half the displacement, up to `MAX_TRIES` attempts in all.
pub fn step<G: Geometry>(g: &G, p: &G::Point, delta: &G::Point, norm: &G::Point) -> (result:
    Option<G::Point>)
    ensures
        steps(g, *p, *delta, *norm, result),
        result matches Some(q) ==> on_surface(g, q),
{
    let mut delta: G::Point = *delta;
    let ghost first = delta;
    let mut new_p: Option<G::Point> = None;
    let mut iter: usize = 0;
    let ghost mut run: Seq<Attempt<G>> = Seq::empty();
    while new_p.is_none() && iter < MAX_TRIES
        invariant
            iter <= MAX_TRIES,
            run.len() == iter,
            iter == 0 ==> delta == first && new_p is None,
            iter > 0 ==> step_run(g, *p, first, *norm, run) && new_p == run.last().found
                && call_ensures(G::halve, (g, &run.last().delta), delta),
            new_p matches Some(q) ==> on_surface(g, q),
        decreases MAX_TRIES - iter,
    {
        let target = g.plus(p, &delta);
        new_p = intersect_line(g, &target, norm);
        proof {
            let before = run;
            run = run.push(Attempt { delta, target, found: new_p });
            assert forall|j: int| 0 <= j < run.len() - 1 implies #[trigger] retried_at(g, run, j) by {
                if j < before.len() - 1 {
                    assert(retried_at(g, before, j));
                }
            }
        }
        delta = g.halve(&delta);
        iter += 1;
    }
    new_p
}

/// Two series of attempts at the same step agree on every attempt that both
/// have.
proof fn lemma_attempts_agree<G: Geometry>(
    g: &G,
    p: G::Point,
    delta: G::Point,
    norm: G::Point,
    s: Seq<Attempt<G>>,
    t: Seq<Attempt<G>>,
    i: int,
)
    requires
        deterministic(g),
        step_run(g, p, delta, norm, s),
        step_run(g, p, delta, norm, t),
        0 <= i < s.len(),
        i < t.len(),
    ensures
        s[i] == t[i],
    decreases i,
{
    if i > 0 {
        lemma_attempts_agree(g, p, delta, norm, s, t, i - 1);
        assert(retried_at(g, s, i - 1));
        assert(retried_at(g, t, i - 1));
    }
    lemma_intersects_unique(g, s[i].target, norm, s[i].found, t[i].found);
}

/// With deterministic numerics a step has one outcome.
pub proof fn lemma_steps_unique<G: Geometry>(
    g: &G,
    p: G::Point,
    delta: G::Point,
    norm: G::Point,
    a: Option<G::Point>,
    b: Option<G::Point>,
)
    requires
        deterministic(g),
        steps(g, p, delta, norm, a),
        steps(g, p, delta, norm, b),
    ensures
        a == b,
{
    let s = choose|run: Seq<Attempt<G>>| #[trigger]
        step_run(g, p, delta, norm, run) && a == run.last().found && (a is None ==> run.len()
            == MAX_TRIES);
    let t = choose|run: Seq<Attempt<G>>| #[trigger]
        step_run(g, p, delta, norm, run) && b == run.last().found && (b is None ==> run.len()
            == MAX_TRIES);
    if s.len() < t.len() {
        lemma_attempts_agree(g, p, delta, norm, s, t, s.len() - 1);
        assert(retried_at(g, t, s.len() - 1));
    } else if t.len() < s.len() {
        lemma_attempts_agree(g, p, delta, norm, s, t, t.len() - 1);
        assert(retried_at(g, s, t.len() - 1));
    } else {
        lemma_attempts_agree(g, p, delta, norm, s, t, s.len() - 1);
    }
}

/// A point that a step returns lies on the surface.
pub proof fn lemma_step_on_surface<G: Geometry>(
    g: &G,
    p: G::Point,
    delta: G::Point,
    norm: G::Point,
    q: G::Point,
)
    requires
        steps(g, p, delta, norm, Some(q)),
    ensures
        on_surface(g, q),
{
    let run = choose|run: Seq<Attempt<G>>| #[trigger]
        step_run(g, p, delta, norm, run) && Some(q) == run.last().found;
    lemma_intersection_on_surface(g, run.last().target, norm, q);
}

} // verus!
