use std::cell::{Cell, RefCell};

use geodesic_tracer::fan::{repath_aux, spread, trace_fan};
use geodesic_tracer::geometry::{Axis, Function, Geometry, Spread};
use geodesic_tracer::grid::create_grid;
use geodesic_tracer::intersect::{intersect_line, project_vertical, MAX_ITER};
use geodesic_tracer::path::{plot_path, plot_path_constrained, MAX_STEPS};
use geodesic_tracer::stepper::{step, MAX_TRIES};
use geodesic_tracer::tracer::{Tracer, DEFAULT_GRID_SIZE, DEFAULT_RAY_COUNT};

// A surface on the number line. A position is on the surface where `solid`
// says so; the domain is `|p| <= limit`; one step is `pace` long. The field is
// zero on the surface and one elsewhere, and a Newton update leaves the
// parameter where it was, so a line search either succeeds at its first
// iterate or never.
struct Line {
    function: Function,
    pace: i64,
    limit: i64,
    solid: fn(i64) -> bool,
    origin: i64,
    evaluations: Cell<usize>,
    refinements: Cell<usize>,
    targets: RefCell<Vec<i64>>,
    seeds: RefCell<Vec<(Axis, usize, usize, bool)>>,
    rays: RefCell<Vec<(Spread, bool)>>,
    across_x: i64,
    across_y: i64,
    constraints: RefCell<Vec<i64>>,
}

fn everywhere(_: i64) -> bool {
    true
}

fn nowhere(_: i64) -> bool {
    false
}

fn up_to_nine(p: i64) -> bool {
    p <= 9
}

fn not_positive(p: i64) -> bool {
    p <= 0
}

fn but_four(p: i64) -> bool {
    p != 4
}

fn but_the_edge(p: i64) -> bool {
    p != 10
}

fn but_the_origin(p: i64) -> bool {
    p != 0
}

fn but_behind_the_last_ray(p: i64) -> bool {
    p != -102 && p != 102
}

fn only_near_the_origin(p: i64) -> bool {
    p.abs() <= 10
}

fn but_behind_the_first_ray(p: i64) -> bool {
    p != -100 && p != 100
}

fn but_the_second_seed(p: i64) -> bool {
    p != 1001
}

impl Line {
    fn new(pace: i64, limit: i64, solid: fn(i64) -> bool) -> Line {
        Line {
            function: Function::Plane,
            pace,
            limit,
            solid,
            origin: 0,
            evaluations: Cell::new(0),
            refinements: Cell::new(0),
            targets: RefCell::new(Vec::new()),
            seeds: RefCell::new(Vec::new()),
            rays: RefCell::new(Vec::new()),
            across_x: 7,
            across_y: 9,
            constraints: RefCell::new(Vec::new()),
        }
    }
}

impl Geometry for Line {
    type Point = i64;
    type Scalar = i64;

    fn function(&self) -> Function {
        self.function
    }

    fn dist(&self, p: &i64) -> i64 {
        self.evaluations.set(self.evaluations.get() + 1);
        if (self.solid)(*p) {
            0
        } else {
            1
        }
    }

    fn negligible(&self, value: &i64) -> bool {
        *value == 0
    }

    fn start(&self) -> i64 {
        0
    }

    fn along(&self, point: &i64, direction: &i64, lambda: &i64) -> i64 {
        point + lambda * direction
    }

    fn refine(&self, _point: &i64, _direction: &i64, lambda: &i64, _value: &i64) -> i64 {
        self.refinements.set(self.refinements.get() + 1);
        *lambda
    }

    fn vertical(&self) -> i64 {
        1
    }

    fn plus(&self, a: &i64, b: &i64) -> i64 {
        self.targets.borrow_mut().push(a + b);
        a + b
    }

    fn minus(&self, a: &i64, b: &i64) -> i64 {
        a - b
    }

    fn halve(&self, v: &i64) -> i64 {
        v / 2
    }

    fn unit(&self, v: &i64) -> i64 {
        v.signum()
    }

    fn pace(&self, v: &i64) -> i64 {
        v * self.pace
    }

    fn reject(&self, v: &i64, constraint: &i64) -> i64 {
        self.constraints.borrow_mut().push(*constraint);
        *v
    }

    // On the line the vectors 7 and 9 stand for the two unit vectors.
    fn is_unit(&self, v: &i64) -> bool {
        *v == 7 || *v == 9
    }

    fn axis(&self, axis: Axis) -> i64 {
        match axis {
            Axis::X => self.across_x,
            Axis::Y => self.across_y,
        }
    }

    fn normal_at(&self, _p: &i64) -> i64 {
        1
    }

    fn in_domain(&self, p: &i64) -> bool {
        p.abs() <= self.limit
    }

    fn clip(&self, p: &i64, _prev: &i64) -> i64 {
        (*p).max(-self.limit).min(self.limit)
    }

    fn grid_seed(&self, axis: Axis, idx: usize, size: usize, mirrored: bool) -> i64 {
        self.seeds.borrow_mut().push((axis, idx, size, mirrored));
        let base = if mirrored { 2000 } else { 1000 };
        let lane = if axis == Axis::X { 0 } else { 100 };
        base + lane + idx as i64
    }

    fn grid_seed_prev(&self, axis: Axis, idx: usize, size: usize, mirrored: bool) -> i64 {
        self.grid_seed_quiet(axis, idx, size, mirrored) - 1
    }

    fn ray_origin(&self) -> i64 {
        self.origin
    }

    fn ray_delta(&self, spread: Spread, reversed: bool) -> i64 {
        self.rays.borrow_mut().push((spread, reversed));
        let reach = match spread {
            Spread::Centre => 100,
            Spread::Even { index, .. } => 100 + index as i64,
        };
        if reversed {
            -reach
        } else {
            reach
        }
    }
}

impl Line {
    fn grid_seed_quiet(&self, axis: Axis, idx: usize, _size: usize, mirrored: bool) -> i64 {
        let base = if mirrored { 2000 } else { 1000 };
        let lane = if axis == Axis::X { 0 } else { 100 };
        base + lane + idx as i64
    }
}

#[test]
fn line_search_returns_the_first_iterate_on_the_surface() {
    let line = Line::new(4, 10, everywhere);
    assert_eq!(intersect_line(&line, &7, &3), Some(7));
    assert_eq!(line.evaluations.get(), 1);
    assert_eq!(line.refinements.get(), 0);
}

#[test]
fn line_search_gives_up_after_ten_iterates() {
    let line = Line::new(4, 10, nowhere);
    assert_eq!(MAX_ITER, 10);
    assert_eq!(intersect_line(&line, &7, &3), None);
    assert_eq!(line.evaluations.get(), 10);
}

// The field of this surface is the distance to 12 along the line, and a
// Newton update is exact, so the search lands at its second iterate.
struct Slope;

impl Geometry for Slope {
    type Point = i64;
    type Scalar = i64;

    fn function(&self) -> Function {
        Function::Plane
    }

    fn dist(&self, p: &i64) -> i64 {
        p - 12
    }

    fn negligible(&self, value: &i64) -> bool {
        *value == 0
    }

    fn start(&self) -> i64 {
        0
    }

    fn along(&self, point: &i64, direction: &i64, lambda: &i64) -> i64 {
        point + lambda * direction
    }

    fn refine(&self, _point: &i64, direction: &i64, lambda: &i64, value: &i64) -> i64 {
        lambda - value / direction
    }

    fn vertical(&self) -> i64 {
        1
    }

    fn plus(&self, a: &i64, b: &i64) -> i64 {
        a + b
    }

    fn minus(&self, a: &i64, b: &i64) -> i64 {
        a - b
    }

    fn halve(&self, v: &i64) -> i64 {
        v / 2
    }

    fn unit(&self, v: &i64) -> i64 {
        v.signum()
    }

    fn pace(&self, v: &i64) -> i64 {
        *v
    }

    fn reject(&self, v: &i64, _constraint: &i64) -> i64 {
        *v
    }

    fn is_unit(&self, v: &i64) -> bool {
        *v == 1
    }

    fn axis(&self, _axis: Axis) -> i64 {
        1
    }

    fn normal_at(&self, _p: &i64) -> i64 {
        1
    }

    fn in_domain(&self, p: &i64) -> bool {
        p.abs() <= 100
    }

    fn clip(&self, p: &i64, _prev: &i64) -> i64 {
        *p
    }

    fn grid_seed(&self, _axis: Axis, idx: usize, _size: usize, _mirrored: bool) -> i64 {
        idx as i64
    }

    fn grid_seed_prev(&self, _axis: Axis, idx: usize, _size: usize, _mirrored: bool) -> i64 {
        idx as i64
    }

    fn ray_origin(&self) -> i64 {
        0
    }

    fn ray_delta(&self, _spread: Spread, _reversed: bool) -> i64 {
        1
    }
}

#[test]
fn line_search_follows_the_newton_updates() {
    assert_eq!(intersect_line(&Slope, &2, &5), Some(12));
    assert_eq!(intersect_line(&Slope, &20, &-2), Some(12));
    assert_eq!(intersect_line(&Slope, &12, &1), Some(12));
}

#[test]
fn project_vertical_searches_straight_up() {
    assert_eq!(project_vertical(&Slope, &-30), Some(12));
    let line = Line::new(4, 10, nowhere);
    assert_eq!(project_vertical(&line, &3), None);
}

#[test]
fn step_lands_at_the_first_attempt_that_finds_the_surface() {
    let line = Line::new(4, 10, everywhere);
    assert_eq!(step(&line, &1, &4, &1), Some(5));
    assert_eq!(*line.targets.borrow(), vec![5]);
}

#[test]
fn step_halves_the_displacement_after_a_miss() {
    let line = Line::new(4, 10, but_four);
    assert_eq!(step(&line, &0, &4, &1), Some(2));
    assert_eq!(*line.targets.borrow(), vec![4, 2]);
}

#[test]
fn step_gives_up_after_eight_attempts() {
    let line = Line::new(4, 10_000, not_positive);
    assert_eq!(MAX_TRIES, 8);
    assert_eq!(step(&line, &0, &1024, &1), None);
    assert_eq!(*line.targets.borrow(), vec![1024, 512, 256, 128, 64, 32, 16, 8]);
    assert_eq!(line.evaluations.get(), 80);
}

#[test]
fn step_succeeds_at_the_eighth_attempt() {
    let line = Line::new(4, 10_000, up_to_nine);
    assert_eq!(step(&line, &0, &1024, &1), Some(8));
    assert_eq!(line.targets.borrow().len(), 8);
}

#[test]
fn path_runs_to_the_edge_and_is_clipped() {
    let line = Line::new(4, 10, everywhere);
    let path = plot_path(&line, &0, &-1);
    assert_eq!(path.vertices, vec![0, 4, 8, 10]);
    assert_eq!(path.segments, vec![(0, 1), (1, 2), (2, 3)]);
    assert!(!path.failed);
}

#[test]
fn path_keeps_its_direction() {
    let line = Line::new(3, 10, everywhere);
    let path = plot_path(&line, &0, &1);
    assert_eq!(path.vertices, vec![0, -3, -6, -9, -10]);
    assert!(!path.failed);
}

#[test]
fn path_from_outside_the_domain_is_one_clipped_vertex() {
    let line = Line::new(4, 10, everywhere);
    let path = plot_path(&line, &25, &24);
    assert_eq!(path.vertices, vec![10]);
    assert!(path.segments.is_empty());
    assert!(!path.failed);
}

#[test]
fn path_that_cannot_be_extended_is_cut_short() {
    let line = Line::new(1024, 10_000, not_positive);
    let path = plot_path(&line, &0, &-1);
    assert_eq!(path.vertices, vec![0]);
    assert!(path.segments.is_empty());
    assert!(path.failed);
}

#[test]
fn path_whose_edge_is_off_the_surface_fails() {
    let line = Line::new(4, 10, but_the_edge);
    let path = plot_path(&line, &0, &-1);
    assert_eq!(path.vertices, vec![0, 4, 8]);
    assert_eq!(path.segments, vec![(0, 1), (1, 2)]);
    assert!(path.failed);
}

#[test]
fn path_that_never_leaves_is_cut_off() {
    let line = Line::new(0, 10, everywhere);
    let path = plot_path(&line, &3, &2);
    assert_eq!(path.vertices.len(), MAX_STEPS);
    assert_eq!(path.segments.len(), MAX_STEPS - 1);
    assert!(path.vertices.iter().all(|p| *p == 3));
    assert!(path.failed);
}

#[test]
fn free_path_asks_for_no_constraint() {
    let line = Line::new(4, 10, everywhere);
    plot_path(&line, &0, &-1);
    assert!(line.constraints.borrow().is_empty());
}

#[test]
fn constrained_path_flattens_every_normal() {
    let line = Line::new(4, 10, everywhere);
    let path = plot_path_constrained(&line, &0, &-1, &9).unwrap();
    assert_eq!(path.vertices, vec![0, 4, 8, 10]);
    assert_eq!(path.segments, vec![(0, 1), (1, 2), (2, 3)]);
    assert!(!path.failed);
    assert_eq!(*line.constraints.borrow(), vec![9, 9, 9]);
}

#[test]
fn constrained_path_checks_its_constraint_first() {
    let line = Line::new(4, 10, everywhere);
    assert!(plot_path_constrained(&line, &0, &-1, &5).is_none());
    assert!(line.constraints.borrow().is_empty());
    assert!(line.targets.borrow().is_empty());
    assert_eq!(line.evaluations.get(), 0);
}

#[test]
fn tracing_twice_gives_the_same_path() {
    let line = Line::new(4, 10, but_four);
    let first = plot_path(&line, &0, &-1);
    let second = plot_path(&line, &0, &-1);
    assert_eq!(first.vertices, second.vertices);
    assert_eq!(first.segments, second.segments);
    assert_eq!(first.failed, second.failed);
}

#[test]
fn grid_has_a_line_for_each_index_and_axis() {
    let line = Line::new(4, 10, everywhere);
    let grid = create_grid(&line, 2);
    assert_eq!(grid.len(), 6);
    let axes: Vec<Axis> = grid.iter().map(|l| l.axis).collect();
    assert_eq!(axes, vec![Axis::X, Axis::X, Axis::X, Axis::Y, Axis::Y, Axis::Y]);
    assert_eq!(
        *line.seeds.borrow(),
        vec![
            (Axis::X, 0, 2, false),
            (Axis::X, 1, 2, false),
            (Axis::X, 2, 2, false),
            (Axis::Y, 0, 2, false),
            (Axis::Y, 1, 2, false),
            (Axis::Y, 2, 2, false),
        ]
    );
    assert_eq!(*line.constraints.borrow(), Vec::<i64>::new());
    for l in &grid {
        assert_eq!(l.trace.vertices, vec![10]);
        assert!(!l.trace.failed);
    }
}

#[test]
fn grid_of_the_wormhole_has_a_mirrored_sheet() {
    let mut line = Line::new(4, 10, everywhere);
    line.function = Function::Hole;
    let grid = create_grid(&line, 1);
    assert_eq!(grid.len(), 8);
    let seeds = line.seeds.borrow();
    assert_eq!(
        *seeds,
        vec![
            (Axis::X, 0, 1, false),
            (Axis::X, 1, 1, false),
            (Axis::Y, 0, 1, false),
            (Axis::Y, 1, 1, false),
            (Axis::X, 0, 1, true),
            (Axis::X, 1, 1, true),
            (Axis::Y, 0, 1, true),
            (Axis::Y, 1, 1, true),
        ]
    );
}

#[test]
fn grid_of_resolution_zero_has_one_line_per_axis() {
    let line = Line::new(4, 10, everywhere);
    let grid = create_grid(&line, 0);
    assert_eq!(grid.len(), 2);
    assert_eq!(grid[0].axis, Axis::X);
    assert_eq!(grid[1].axis, Axis::Y);
}

#[test]
fn grid_lines_run_under_their_own_constraint() {
    let line = Line::new(4, 2000, everywhere);
    let grid = create_grid(&line, 0);
    assert_eq!(grid[0].trace.vertices, vec![1000, 1004, 1008]
        .into_iter()
        .chain((1012..=2000).step_by(4))
        .chain([2000])
        .collect::<Vec<i64>>());
    let constraints = line.constraints.borrow();
    let across_x = constraints.iter().filter(|a| **a == 7).count();
    let across_y = constraints.iter().filter(|a| **a == 9).count();
    assert_eq!(across_x, grid[0].trace.vertices.len() - 1);
    assert_eq!(across_y, grid[1].trace.vertices.len() - 1);
}

#[test]
fn grid_lines_under_a_constraint_that_is_not_unit_are_empty() {
    let mut line = Line::new(4, 10, everywhere);
    line.across_x = 8;
    let grid = create_grid(&line, 1);
    assert_eq!(grid.len(), 4);
    for l in &grid[..2] {
        assert_eq!(l.axis, Axis::X);
        assert!(l.trace.failed);
        assert!(l.trace.vertices.is_empty());
        assert!(l.trace.segments.is_empty());
    }
    for l in &grid[2..] {
        assert_eq!(l.axis, Axis::Y);
        assert!(!l.trace.failed);
        assert_eq!(l.trace.vertices, vec![10]);
    }
}

#[test]
fn grid_line_without_a_seed_is_empty_and_the_rest_is_drawn() {
    let line = Line::new(4, 10, but_the_second_seed);
    let grid = create_grid(&line, 2);
    assert_eq!(grid.len(), 6);
    assert!(grid[1].trace.failed);
    assert!(grid[1].trace.vertices.is_empty());
    assert!(grid[1].trace.segments.is_empty());
    // The line after it starts one step behind the missing seed.
    assert!(grid[2].trace.failed);
    assert!(grid[2].trace.vertices.is_empty());
    for i in [0, 3, 4, 5] {
        assert!(!grid[i].trace.failed);
        assert_eq!(grid[i].trace.vertices, vec![10]);
    }
}

#[test]
fn fan_of_one_ray_traces_one_heading_each_way() {
    let line = Line::new(4, 10, everywhere);
    let fan = trace_fan(&line, 1);
    assert_eq!(fan.paths.len(), 1);
    assert_eq!(fan.paths2.len(), 1);
    assert!(fan.origin_ok);
    assert_eq!(*line.rays.borrow(), vec![(Spread::Centre, false), (Spread::Centre, true)]);
    assert_eq!(fan.paths[0].as_ref().unwrap().vertices, vec![0, 4, 8, 10]);
    assert_eq!(fan.paths2[0].as_ref().unwrap().vertices, vec![0, -4, -8, -10]);
}

#[test]
fn fan_traces_every_ray_forwards_then_backwards() {
    let line = Line::new(4, 10, everywhere);
    let fan = trace_fan(&line, 3);
    assert_eq!(fan.paths.len(), 3);
    assert_eq!(fan.paths2.len(), 3);
    let place = |index| Spread::Even { index, gaps: 2 };
    assert_eq!(
        *line.rays.borrow(),
        vec![
            (place(0), false),
            (place(1), false),
            (place(2), false),
            (place(0), true),
            (place(1), true),
            (place(2), true),
        ]
    );
    assert!(fan.paths.iter().all(|p| p.is_some()));
    assert!(fan.paths2.iter().all(|p| p.is_some()));
}

#[test]
fn single_ray_stands_at_the_centre() {
    assert_eq!(spread(0, 1), Spread::Centre);
    assert_eq!(spread(0, 0), Spread::Centre);
    assert_eq!(spread(0, 2), Spread::Even { index: 0, gaps: 1 });
    assert_eq!(spread(1, 2), Spread::Even { index: 1, gaps: 1 });
    assert_eq!(spread(4, 10), Spread::Even { index: 4, gaps: 9 });
    assert_eq!(spread(29, 30), Spread::Even { index: 29, gaps: 29 });
}

#[test]
fn fan_without_rays_is_empty() {
    let line = Line::new(4, 10, everywhere);
    let fan = trace_fan(&line, 0);
    assert!(fan.paths.is_empty());
    assert!(fan.paths2.is_empty());
    assert!(fan.origin_ok);
    assert!(line.rays.borrow().is_empty());
}

#[test]
fn fan_from_an_origin_off_the_surface_is_abandoned() {
    let line = Line::new(4, 10, but_the_origin);
    let fan = trace_fan(&line, 5);
    assert!(!fan.origin_ok);
    assert!(fan.paths.is_empty());
    assert!(fan.paths2.is_empty());
    assert!(line.rays.borrow().is_empty());
}

#[test]
fn ray_without_a_point_behind_it_is_not_traced() {
    let line = Line::new(4, 10, but_behind_the_first_ray);
    assert!(repath_aux(&line, &0, 0, 3, false).is_none());
    assert!(repath_aux(&line, &0, 1, 3, false).is_some());
    assert!(repath_aux(&line, &0, 0, 3, true).is_none());
}

#[test]
fn origin_flag_follows_the_origin_alone() {
    // The first ray each way cannot be begun.
    let line = Line::new(4, 10, but_behind_the_first_ray);
    let fan = trace_fan(&line, 3);
    assert!(fan.paths[0].is_none());
    assert!(fan.paths2[0].is_none());
    assert!(fan.paths[1].is_some());
    assert!(fan.paths2[2].is_some());
    assert!(fan.origin_ok);

    // The last ray each way cannot be begun.
    let line = Line::new(4, 10, but_behind_the_last_ray);
    let fan = trace_fan(&line, 3);
    assert!(fan.paths[0].is_some());
    assert!(fan.paths[2].is_none());
    assert!(fan.paths2[2].is_none());
    assert!(fan.origin_ok);

    // No ray can be begun, but the origin is on the surface.
    let line = Line::new(4, 10, only_near_the_origin);
    let fan = trace_fan(&line, 3);
    assert_eq!(fan.paths.len(), 3);
    assert_eq!(fan.paths2.len(), 3);
    assert!(fan.paths.iter().all(|p| p.is_none()));
    assert!(fan.paths2.iter().all(|p| p.is_none()));
    assert!(fan.origin_ok);

    // The origin is off the surface, though every ray could be begun.
    let line = Line::new(4, 10, but_the_origin);
    let fan = trace_fan(&line, 3);
    assert!(!fan.origin_ok);
    assert!(fan.paths.is_empty());
    assert!(fan.paths2.is_empty());
}

#[test]
fn new_tracer_has_the_default_settings() {
    let tracer = Tracer::new(Line::new(4, 10, everywhere));
    assert_eq!(DEFAULT_GRID_SIZE, 30);
    assert_eq!(DEFAULT_RAY_COUNT, 10);
    assert_eq!(tracer.grid_size, 30);
    assert_eq!(tracer.ray_count, 10);
    assert!(tracer.origin_ok);
    assert!(tracer.grid.is_empty());
    assert!(tracer.paths.is_empty());
    assert!(tracer.paths2.is_empty());
}

#[test]
fn regrid_rebuilds_the_grid_only() {
    let mut tracer = Tracer::new(Line::new(4, 10, everywhere));
    tracer.grid_size = 3;
    tracer.regrid();
    assert_eq!(tracer.grid.len(), 8);
    assert!(tracer.paths.is_empty());
    assert!(tracer.paths2.is_empty());
    assert!(tracer.geometry.rays.borrow().is_empty());
}

#[test]
fn repath_rebuilds_the_rays_only() {
    let mut tracer = Tracer::new(Line::new(4, 10, everywhere));
    tracer.ray_count = 2;
    tracer.repath();
    assert_eq!(tracer.paths.len(), 2);
    assert_eq!(tracer.paths2.len(), 2);
    assert!(tracer.origin_ok);
    assert!(tracer.grid.is_empty());
    assert!(tracer.geometry.seeds.borrow().is_empty());
}

#[test]
fn repath_reports_an_unusable_origin() {
    let mut tracer = Tracer::new(Line::new(4, 10, but_the_origin));
    tracer.repath();
    assert!(!tracer.origin_ok);
    assert!(tracer.paths.is_empty());
    assert!(tracer.paths2.is_empty());
    tracer.geometry.solid = everywhere;
    tracer.repath();
    assert!(tracer.origin_ok);
    assert_eq!(tracer.paths.len(), 10);
}

#[test]
fn refresh_recomputes_what_is_stale() {
    let mut tracer = Tracer::new(Line::new(4, 10, everywhere));
    tracer.grid_size = 1;
    tracer.ray_count = 1;
    tracer.refresh(false, false);
    assert!(tracer.grid.is_empty());
    assert!(tracer.paths.is_empty());

    tracer.refresh(false, true);
    assert!(tracer.grid.is_empty());
    assert_eq!(tracer.paths.len(), 1);
    assert_eq!(tracer.paths2.len(), 1);

    tracer.ray_count = 2;
    tracer.refresh(true, false);
    assert_eq!(tracer.grid.len(), 4);
    assert_eq!(tracer.paths.len(), 2);
    assert_eq!(tracer.paths2.len(), 2);
}
