//! The tracer: one surface with its current grid and ray bundles.
use vstd::prelude::*;
use crate::fan::{fanned, trace_fan, Fan};
use crate::geometry::Geometry;
use crate::grid::{create_grid, gridded, GridLine};
use crate::path::TraceResult;

verus! {

/// The grid resolution of a new tracer.
pub const DEFAULT_GRID_SIZE: usize = 30;

/// The number of rays in the fan of a new tracer.
pub const DEFAULT_RAY_COUNT: usize = 10;

/// A surface together with what was last traced over it: the grid, the forward
/// and the backward bundle of the ray fan, and whether the ray origin came down
/// on the surface. Geometry is recomputed whole; nothing is updated in place.
pub struct Tracer<G: Geometry> {
    pub geometry: G,
    pub grid_size: usize,
    pub ray_count: usize,
    pub origin_ok: bool,
    pub grid: Vec<GridLine<G::Point>>,
    pub paths: Vec<Option<TraceResult<G::Point>>>,
    pub paths2: Vec<Option<TraceResult<G::Point>>>,
}

impl<G: Geometry> Tracer<G> {
    /// The ray bundles and the origin flag, as one fan.
    pub open spec fn fan(&self) -> Fan<G::Point> {
        Fan { paths: self.paths, paths2: self.paths2, origin_ok: self.origin_ok }
    }

    /// The grid is an outcome of `create_grid` for the current settings.
    pub open spec fn grid_current(&self) -> bool {
        gridded(&self.geometry, self.grid_size, self.grid@)
    }

    /// The ray bundles are an outcome of `trace_fan` for the current settings.
    pub open spec fn paths_current(&self) -> bool {
        fanned(&self.geometry, self.ray_count, self.fan())
    }

    /// A tracer over `geometry` with the default resolution and ray count, and
    /// nothing traced yet.
    pub fn new(geometry: G) -> (tracer: Self)
        ensures
            tracer.geometry == geometry,
            tracer.grid_size == DEFAULT_GRID_SIZE,
            tracer.ray_count == DEFAULT_RAY_COUNT,
            tracer.origin_ok,
            tracer.grid@.len() == 0,
            tracer.paths@.len() == 0,
            tracer.paths2@.len() == 0,
    {
        Tracer {
            geometry,
            grid_size: DEFAULT_GRID_SIZE,
            ray_count: DEFAULT_RAY_COUNT,
            origin_ok: true,
            grid: Vec::new(),
            paths: Vec::new(),
            paths2: Vec::new(),
        }
    }

    /// Replaces the grid by one built for the current settings. The ray
    /// bundles are left as they are.
    pub fn regrid(&mut self)
        ensures
            final(self).grid_current(),
            final(self).geometry == old(self).geometry,
            final(self).grid_size == old(self).grid_size,
            final(self).ray_count == old(self).ray_count,
            final(self).fan() == old(self).fan(),
    {
        self.grid = create_grid(&self.geometry, self.grid_size);
    }

    /// Replaces both ray bundles and the origin flag by those of a fan traced
    /// for the current settings. The grid is left as it is.
    pub fn repath(&mut self)
        ensures
            final(self).paths_current(),
            final(self).geometry == old(self).geometry,
            final(self).grid_size == old(self).grid_size,
            final(self).ray_count == old(self).ray_count,
            final(self).grid == old(self).grid,
    {
        let fan = trace_fan(&self.geometry, self.ray_count);
        self.paths = fan.paths;
        self.paths2 = fan.paths2;
        self.origin_ok = fan.origin_ok;
    }

    /// Recomputes what a change of settings has made stale: the grid where the
    /// grid settings changed, and the ray bundles where those or the ray
    /// settings changed. What is not recomputed is left as it is.
    pub fn refresh(&mut self, grid_changed: bool, ray_changed: bool)
        ensures
            final(self).geometry == old(self).geometry,
            final(self).grid_size == old(self).grid_size,
            final(self).ray_count == old(self).ray_count,
            if grid_changed {
                final(self).grid_current()
            } else {
                final(self).grid == old(self).grid
            },
            if grid_changed || ray_changed {
                final(self).paths_current()
            } else {
                final(self).fan() == old(self).fan()
            },
    {
        if grid_changed {
            self.regrid();
        }
        if grid_changed || ray_changed {
            self.repath();
        }
    }
}

} // verus!
