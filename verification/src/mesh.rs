//! The buffers handed to a renderer: the vertices of many polylines laid end to
//! end, and the index pairs of their segments.
use vstd::prelude::*;
use crate::grid::GridLine;
use crate::path::{gen_indices, polyline, TraceResult, MAX_VERTICES};

verus! {

/// The vertices and the segments of several polylines in one pair of buffers.
/// Indices are 32 bits wide.
pub struct Mesh<P> {
    pub vertices: Vec<P>,
    pub segments: Vec<(u32, u32)>,
}

/// The vertices of the polylines `parts` laid end to end.
pub open spec fn joined_vertices<P>(parts: Seq<Seq<P>>) -> Seq<P>
    decreases parts.len(),
{
    if parts.len() == 0 {
        Seq::empty()
    } else {
        joined_vertices(parts.drop_last()) + parts.last()
    }
}

/// The segments of the polylines `parts` laid end to end: each polyline joins
/// its own vertices, and no segment joins one polyline to the next.
pub open spec fn joined_segments<P>(parts: Seq<Seq<P>>) -> Seq<(u32, u32)>
    decreases parts.len(),
{
    if parts.len() == 0 {
        Seq::empty()
    } else {
        let base = joined_vertices(parts.drop_last()).len();
        joined_segments(parts.drop_last()) + polyline(base, base + parts.last().len())
    }
}

/// The vertex runs of the lines of a grid.
pub open spec fn grid_parts<P>(lines: Seq<GridLine<P>>) -> Seq<Seq<P>> {
    Seq::new(lines.len(), |i: int| lines[i].trace.vertices@)
}

/// The vertex runs of the rays of a bundle; a ray that was not traced has none.
pub open spec fn bundle_parts<P>(paths: Seq<Option<TraceResult<P>>>) -> Seq<Seq<P>> {
    Seq::new(
        paths.len(),
        |i: int|
            match paths[i] {
                Some(t) => t.vertices@,
                None => Seq::empty(),
            },
    )
}

/// The segment index pairs written out one index after the other.
pub open spec fn flat(segments: Seq<(u32, u32)>) -> Seq<u32> {
    Seq::new(
        2 * segments.len(),
        |i: int|
            if i % 2 == 0 {
                segments[i / 2].0
            } else {
                segments[i / 2].1
            },
    )
}

impl<P: Copy> Mesh<P> {
    /// The mesh holds exactly the polylines `parts`, in order.
    pub open spec fn holds(&self, parts: Seq<Seq<P>>) -> bool {
        &&& self.vertices@ == joined_vertices(parts)
        &&& self.segments@ == joined_segments(parts)
    }

    /// A mesh without vertices.
    pub fn new() -> (mesh: Self)
        ensures
            mesh.vertices@.len() == 0,
            mesh.segments@.len() == 0,
            mesh.holds(Seq::empty()),
    {
        Mesh { vertices: Vec::new(), segments: Vec::new() }
    }

    /// Adds one polyline behind those that the mesh holds. Where the vertices
    /// would outgrow 32-bit indices, nothing is added and `false` comes back.
    pub fn append(&mut self, vertices: &Vec<P>) -> (fits: bool)
        ensures
            fits == (old(self).vertices@.len() + vertices@.len() <= MAX_VERTICES),
            fits ==> final(self).vertices@ == old(self).vertices@ + vertices@,
            fits ==> final(self).segments@ == old(self).segments@ + polyline(
                old(self).vertices@.len(),
                old(self).vertices@.len() + vertices@.len(),
            ),
            !fits ==> *final(self) == *old(self),
            forall|parts: Seq<Seq<P>>|
                fits && old(self).holds(parts) ==> final(self).holds(#[trigger] parts.push(vertices@)),
    {
        let base = self.vertices.len();
        let count = vertices.len();
        if base as u64 > MAX_VERTICES || count as u64 > MAX_VERTICES - base as u64 {
            return false;
        }
        let mut i: usize = 0;
        while i < count
            invariant
                i <= count,
                count == vertices@.len(),
                self.vertices@ == old(self).vertices@ + vertices@.subrange(0, i as int),
                self.segments@ == old(self).segments@,
            decreases count - i,
        {
            self.vertices.push(vertices[i]);
            i += 1;
        }
        assert(vertices@.subrange(0, count as int) =~= vertices@);
        let len = self.vertices.len();
        gen_indices(base, len, &mut self.segments);
        proof {
            assert forall|parts: Seq<Seq<P>>| old(self).holds(parts) implies self.holds(
                #[trigger] parts.push(vertices@),
            ) by {
                let more = parts.push(vertices@);
                assert(more.drop_last() =~= parts);
            }
        }
        true
    }

    /// The index buffer: the two indices of each segment, one after the other.
    pub fn indices(&self) -> (buffer: Vec<u32>)
        ensures
            buffer@ == flat(self.segments@),
    {
        let mut buffer: Vec<u32> = Vec::new();
        let mut i: usize = 0;
        while i < self.segments.len()
            invariant
                i <= self.segments@.len(),
                buffer@ == flat(self.segments@.subrange(0, i as int)),
            decreases self.segments@.len() - i,
        {
            let pair = self.segments[i];
            buffer.push(pair.0);
            buffer.push(pair.1);
            i += 1;
            assert(buffer@ =~= flat(self.segments@.subrange(0, i as int)));
        }
        buffer
    }
}

/// Gathers the lines of a grid into one mesh, or nothing where the grid has
/// more vertices than 32-bit indices can address.
pub fn grid_mesh<P: Copy>(lines: &Vec<GridLine<P>>) -> (mesh: Option<Mesh<P>>)
    ensures
        match mesh {
            Some(m) => m.holds(grid_parts(lines@)) && in_range(m.vertices@.len(), m.segments@),
            None => joined_vertices(grid_parts(lines@)).len() > MAX_VERTICES,
        },
{
    let mut mesh: Mesh<P> = Mesh::new();
    let mut i: usize = 0;
    while i < lines.len()
        invariant
            i <= lines@.len(),
            mesh.vertices@.len() <= MAX_VERTICES,
            mesh.holds(grid_parts(lines@).subrange(0, i as int)),
        decreases lines@.len() - i,
    {
        let ghost parts = grid_parts(lines@).subrange(0, i as int);
        let ghost more = grid_parts(lines@).subrange(0, i + 1);
        proof {
            assert(more.drop_last() =~= parts);
        }
        if !mesh.append(&lines[i].trace.vertices) {
            proof {
                lemma_joined_grows(grid_parts(lines@), i + 1);
            }
            return None;
        }
        i += 1;
    }
    proof {
        assert(grid_parts(lines@).subrange(0, i as int) =~= grid_parts(lines@));
        lemma_joined_in_range(grid_parts(lines@));
    }
    Some(mesh)
}

/// Gathers the rays of a bundle into one mesh, or nothing where the bundle has
/// more vertices than 32-bit indices can address.
pub fn bundle_mesh<P: Copy>(paths: &Vec<Option<TraceResult<P>>>) -> (mesh: Option<Mesh<P>>)
    ensures
        match mesh {
            Some(m) => m.holds(bundle_parts(paths@)) && in_range(m.vertices@.len(), m.segments@),
            None => joined_vertices(bundle_parts(paths@)).len() > MAX_VERTICES,
        },
{
    let mut mesh: Mesh<P> = Mesh::new();
    let empty: Vec<P> = Vec::new();
    let mut i: usize = 0;
    while i < paths.len()
        invariant
            i <= paths@.len(),
            empty@.len() == 0,
            mesh.vertices@.len() <= MAX_VERTICES,
            mesh.holds(bundle_parts(paths@).subrange(0, i as int)),
        decreases paths@.len() - i,
    {
        let ghost parts = bundle_parts(paths@).subrange(0, i as int);
        let ghost more = bundle_parts(paths@).subrange(0, i + 1);
        let fits = match &paths[i] {
            Some(t) => mesh.append(&t.vertices),
            None => {
                assert(empty@ =~= Seq::empty());
                mesh.append(&empty)
            },
        };
        proof {
            assert(more.drop_last() =~= parts);
        }
        if !fits {
            proof {
                lemma_joined_grows(bundle_parts(paths@), i + 1);
            }
            return None;
        }
        i += 1;
    }
    proof {
        assert(bundle_parts(paths@).subrange(0, i as int) =~= bundle_parts(paths@));
        lemma_joined_in_range(bundle_parts(paths@));
    }
    Some(mesh)
}

/// A mesh has at least as many vertices as the mesh of its first `n` parts.
pub proof fn lemma_joined_grows<P>(parts: Seq<Seq<P>>, n: int)
    requires
        0 <= n <= parts.len(),
    ensures
        joined_vertices(parts.subrange(0, n)).len() <= joined_vertices(parts).len(),
    decreases parts.len(),
{
    if n == parts.len() {
        assert(parts.subrange(0, n) =~= parts);
    } else {
        lemma_joined_grows(parts.drop_last(), n);
        assert(parts.drop_last().subrange(0, n) =~= parts.subrange(0, n));
    }
}

/// Every segment joins a vertex to the one after it, and both exist.
pub open spec fn in_range(vertices: nat, segments: Seq<(u32, u32)>) -> bool {
    forall|k: int|
        0 <= k < segments.len() ==> (#[trigger] segments[k]).0 + 1 == segments[k].1
            && segments[k].1 < vertices
}

/// The segments of polylines laid end to end refer to vertices that exist, as
/// long as 32-bit indices can address them all.
pub proof fn lemma_joined_in_range<P>(parts: Seq<Seq<P>>)
    requires
        joined_vertices(parts).len() <= MAX_VERTICES,
    ensures
        in_range(joined_vertices(parts).len(), joined_segments(parts)),
    decreases parts.len(),
{
    if parts.len() > 0 {
        lemma_joined_in_range(parts.drop_last());
    }
}

} // verus!
