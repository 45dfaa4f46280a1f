//! The surface family, the constraint axes and the numeric operations that the
//! tracer is built on.
use vstd::prelude::*;

verus! {

/// The analytic family that a surface belongs to.
#[derive(Clone, Copy, Debug, PartialEq, Eq, PartialOrd, Ord, Structural)]
pub enum Function {
    Plane,
    PosCurve,
    NegCurve,
    SinXLin,
    SinXQuad,
    Hole,
}

impl Function {
    /// The characters of the family's name.
    pub open spec fn label_text(self) -> Seq<char> {
        match self {
            Function::Plane => "Plane"@,
            Function::PosCurve => "Positive curvature"@,
            Function::NegCurve => "Negative curvature"@,
            Function::SinXLin => "Sin x Linear"@,
            Function::SinXQuad => "Sin x Quad"@,
            Function::Hole => "Wormhole"@,
        }
    }

    /// Whether the surface has two disjoint sheets, one above and one below
    /// the plane `z = 0`.
    pub open spec fn two_sheeted(self) -> bool {
        self == Function::Hole
    }

    /// The name under which the family is shown to a user.
    pub fn label(&self) -> (s: &'static str)
        ensures
            s@ == self.label_text(),
    {
        match self {
            Function::Plane => "Plane",
            Function::PosCurve => "Positive curvature",
            Function::NegCurve => "Negative curvature",
            Function::SinXLin => "Sin x Linear",
            Function::SinXQuad => "Sin x Quad",
            Function::Hole => "Wormhole",
        }
    }

    /// The number of sheets: two for the wormhole, one for every other family.
    pub fn sheets(&self) -> (n: usize)
        ensures
            n == if self.two_sheeted() { 2usize } else { 1usize },
    {
        match self {
            Function::Hole => 2,
            _ => 1,
        }
    }
}

/// A horizontal coordinate axis. A grid line constrained by an axis keeps that
/// coordinate fixed.
#[derive(Clone, Copy, Debug, PartialEq, Eq, Structural)]
pub enum Axis {
    X,
    Y,
}

/// Where a ray stands in its fan.
#[derive(Clone, Copy, Debug, PartialEq, Eq, Structural)]
pub enum Spread {
    /// The only ray of its fan. It keeps the centre heading: no spread is
    /// applied.
    Centre,
    /// Ray `index` of a fan whose rays are `gaps` equal gaps apart, counted
    /// from one edge of the fan to the other. There is at least one gap.
    Even { index: usize, gaps: usize },
}

/// The numeric side of the tracer.
///
/// An implementation owns the surface parameters and the ray, and computes on
/// coordinates. The tracer never looks inside a `Point` or a `Scalar`; it
/// decides which operation is applied to which value, how often, and what is
/// kept. The comment on each method says what the operation stands for.
///
/// No method carries a contract, so nothing is assumed of an implementation.
/// The contracts of the tracer speak of what an operation returned:
/// `call_ensures(G::dist, (g, &p), v)` says that `g.dist(&p)` may return `v`.
/// They hold of every implementation, and say as much of the result as the
/// implementation's own contracts say of its operations.
pub trait Geometry {
    /// A position or a displacement in space.
    type Point: Copy;

    /// A value of the scalar field, or a parameter along a line.
    type Scalar: Copy;

    /// The family of the surface.
    fn function(&self) -> Function;

    /// The scalar field at `p`. The surface is where it vanishes.
    fn dist(&self, p: &Self::Point) -> Self::Scalar;

    /// Whether a value of the field is within tolerance of zero.
    fn negligible(&self, value: &Self::Scalar) -> bool;

    /// The parameter at which a line search starts: zero.
    fn start(&self) -> Self::Scalar;

    /// The point `point + lambda * direction`.
    fn along(&self, point: &Self::Point, direction: &Self::Point, lambda: &Self::Scalar)
        -> Self::Point;

    /// One Newton update of `lambda`, given the field's value `value` at
    /// `point + lambda * direction`; the derivative is a forward difference.
    fn refine(
        &self,
        point: &Self::Point,
        direction: &Self::Point,
        lambda: &Self::Scalar,
        value: &Self::Scalar,
    ) -> Self::Scalar;

    /// The direction `(0, 0, 1)`.
    fn vertical(&self) -> Self::Point;

    /// The sum `a + b`.
    fn plus(&self, a: &Self::Point, b: &Self::Point) -> Self::Point;

    /// The difference `a - b`.
    fn minus(&self, a: &Self::Point, b: &Self::Point) -> Self::Point;

    /// Half of `v`.
    fn halve(&self, v: &Self::Point) -> Self::Point;

    /// `v` scaled to length one.
    fn unit(&self, v: &Self::Point) -> Self::Point;

    /// The unit vector `v` scaled to the length of one step.
    fn pace(&self, v: &Self::Point) -> Self::Point;

    /// `v` without its component along the unit vector `constraint`.
    fn reject(&self, v: &Self::Point, constraint: &Self::Point) -> Self::Point;

    /// Whether `v` has length one, within tolerance.
    fn is_unit(&self, v: &Self::Point) -> bool;

    /// The unit vector along `axis`.
    fn axis(&self, axis: Axis) -> Self::Point;

    /// The gradient of the field at `p` by finite differences, not normalised.
    fn normal_at(&self, p: &Self::Point) -> Self::Point;

    /// Whether `p` lies in the visible domain, the square `|x| <= 1`,
    /// `|y| <= 1`.
    fn in_domain(&self, p: &Self::Point) -> bool;

    /// The point at which the segment from `prev` to `p` crosses the edge of
    /// the domain, where `p` lies outside it.
    fn clip(&self, p: &Self::Point, prev: &Self::Point) -> Self::Point;

    /// The point above the edge of the domain from which grid line `idx` of
    /// `size + 1` is searched for, for the lines that keep `axis` fixed. For
    /// the mirrored sheet the point lies below the opposite edge.
    fn grid_seed(&self, axis: Axis, idx: usize, size: usize, mirrored: bool) -> Self::Point;

    /// The point one step outside the domain behind `grid_seed`.
    fn grid_seed_prev(&self, axis: Axis, idx: usize, size: usize, mirrored: bool)
        -> Self::Point;

    /// The point above the ray origin from which the origin is searched for.
    fn ray_origin(&self) -> Self::Point;

    /// The first horizontal displacement of the ray that stands at `spread`
    /// in the fan, turned by half a circle where `reversed` is set.
    fn ray_delta(&self, spread: Spread, reversed: bool) -> Self::Point;
}

/// Every operation of `g` is a function of its arguments: called twice on the
/// same values, it gives the same result.
pub open spec fn deterministic<G: Geometry>(g: &G) -> bool {
    &&& forall|a: Function, b: Function|
        #[trigger] call_ensures(G::function, (g,), a) && #[trigger] call_ensures(
            G::function,
            (g,),
            b,
        ) ==> a == b
    &&& forall|p: G::Point, a: G::Scalar, b: G::Scalar|
        #[trigger] call_ensures(G::dist, (g, &p), a) && #[trigger] call_ensures(
            G::dist,
            (g, &p),
            b,
        ) ==> a == b
    &&& forall|v: G::Scalar, a: bool, b: bool|
        #[trigger] call_ensures(G::negligible, (g, &v), a) && #[trigger] call_ensures(
            G::negligible,
            (g, &v),
            b,
        ) ==> a == b
    &&& forall|a: G::Scalar, b: G::Scalar|
        #[trigger] call_ensures(G::start, (g,), a) && #[trigger] call_ensures(G::start, (g,), b)
            ==> a == b
    &&& forall|p: G::Point, d: G::Point, l: G::Scalar, a: G::Point, b: G::Point|
        #[trigger] call_ensures(G::along, (g, &p, &d, &l), a) && #[trigger] call_ensures(
            G::along,
            (g, &p, &d, &l),
            b,
        ) ==> a == b
    &&& forall|p: G::Point, d: G::Point, l: G::Scalar, v: G::Scalar, a: G::Scalar, b: G::Scalar|
        #[trigger] call_ensures(G::refine, (g, &p, &d, &l, &v), a) && #[trigger] call_ensures(
            G::refine,
            (g, &p, &d, &l, &v),
            b,
        ) ==> a == b
    &&& forall|a: G::Point, b: G::Point|
        #[trigger] call_ensures(G::vertical, (g,), a) && #[trigger] call_ensures(
            G::vertical,
            (g,),
            b,
        ) ==> a == b
    &&& forall|p: G::Point, q: G::Point, a: G::Point, b: G::Point|
        #[trigger] call_ensures(G::plus, (g, &p, &q), a) && #[trigger] call_ensures(
            G::plus,
            (g, &p, &q),
            b,
        ) ==> a == b
    &&& forall|p: G::Point, q: G::Point, a: G::Point, b: G::Point|
        #[trigger] call_ensures(G::minus, (g, &p, &q), a) && #[trigger] call_ensures(
            G::minus,
            (g, &p, &q),
            b,
        ) ==> a == b
    &&& forall|v: G::Point, a: G::Point, b: G::Point|
        #[trigger] call_ensures(G::halve, (g, &v), a) && #[trigger] call_ensures(
            G::halve,
            (g, &v),
            b,
        ) ==> a == b
    &&& forall|v: G::Point, a: G::Point, b: G::Point|
        #[trigger] call_ensures(G::unit, (g, &v), a) && #[trigger] call_ensures(
            G::unit,
            (g, &v),
            b,
        ) ==> a == b
    &&& forall|v: G::Point, a: G::Point, b: G::Point|
        #[trigger] call_ensures(G::pace, (g, &v), a) && #[trigger] call_ensures(
            G::pace,
            (g, &v),
            b,
        ) ==> a == b
    &&& forall|v: G::Point, c: G::Point, a: G::Point, b: G::Point|
        #[trigger] call_ensures(G::reject, (g, &v, &c), a) && #[trigger] call_ensures(
            G::reject,
            (g, &v, &c),
            b,
        ) ==> a == b
    &&& forall|v: G::Point, a: bool, b: bool|
        #[trigger] call_ensures(G::is_unit, (g, &v), a) && #[trigger] call_ensures(
            G::is_unit,
            (g, &v),
            b,
        ) ==> a == b
    &&& forall|axis: Axis, a: G::Point, b: G::Point|
        #[trigger] call_ensures(G::axis, (g, axis), a) && #[trigger] call_ensures(
            G::axis,
            (g, axis),
            b,
        ) ==> a == b
    &&& forall|p: G::Point, a: G::Point, b: G::Point|
        #[trigger] call_ensures(G::normal_at, (g, &p), a) && #[trigger] call_ensures(
            G::normal_at,
            (g, &p),
            b,
        ) ==> a == b
    &&& forall|p: G::Point, a: bool, b: bool|
        #[trigger] call_ensures(G::in_domain, (g, &p), a) && #[trigger] call_ensures(
            G::in_domain,
            (g, &p),
            b,
        ) ==> a == b
    &&& forall|p: G::Point, q: G::Point, a: G::Point, b: G::Point|
        #[trigger] call_ensures(G::clip, (g, &p, &q), a) && #[trigger] call_ensures(
            G::clip,
            (g, &p, &q),
            b,
        ) ==> a == b
    &&& forall|axis: Axis, idx: usize, size: usize, mirrored: bool, a: G::Point, b: G::Point|
        #[trigger] call_ensures(G::grid_seed, (g, axis, idx, size, mirrored), a)
            && #[trigger] call_ensures(G::grid_seed, (g, axis, idx, size, mirrored), b) ==> a
            == b
    &&& forall|axis: Axis, idx: usize, size: usize, mirrored: bool, a: G::Point, b: G::Point|
        #[trigger] call_ensures(G::grid_seed_prev, (g, axis, idx, size, mirrored), a)
            && #[trigger] call_ensures(G::grid_seed_prev, (g, axis, idx, size, mirrored), b)
            ==> a == b
    &&& forall|a: G::Point, b: G::Point|
        #[trigger] call_ensures(G::ray_origin, (g,), a) && #[trigger] call_ensures(
            G::ray_origin,
            (g,),
            b,
        ) ==> a == b
    &&& forall|spread: Spread, reversed: bool, a: G::Point, b: G::Point|
        #[trigger] call_ensures(G::ray_delta, (g, spread, reversed), a)
            && #[trigger] call_ensures(G::ray_delta, (g, spread, reversed), b) ==> a == b
}

} // verus!
