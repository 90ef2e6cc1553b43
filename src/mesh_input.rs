use vstd::prelude::*;

verus! {

/// The index buffer of a source mesh, in either of the two widths a mesh may carry.
pub enum IndexBuffer {
    U16(Vec<u16>),
    U32(Vec<u32>),
}

/// Most triangles a captured mesh may have, so that its index count fits in 32 bits.
pub const MAX_TRIANGLES: u32 = 1431655765;

/// Three vertex indices naming one triangle of a triangle list.
#[derive(Clone, Copy, Debug, PartialEq, Eq)]
pub struct Triangle {
    pub a: u32,
    pub b: u32,
    pub c: u32,
}

/// Why a mesh cannot be captured for conversion.
#[derive(Clone, Copy, Debug, PartialEq, Eq)]
pub enum CaptureError {
    /// Fewer than three indices: nothing to convert.
    NoTriangles,
    /// More indices than a 32-bit count can describe.
    TooManyTriangles,
    /// A triangle refers to a vertex that the mesh does not have.
    IndexOutOfRange,
}

/// A 16-bit index list widened to 32 bits.
pub open spec fn widened(xs: Seq<u16>) -> Seq<u32> {
    Seq::new(xs.len(), |i: int| xs[i] as u32)
}

/// The implicit index list `0, 1, ..., n - 1` of a mesh without an index buffer.
pub open spec fn sequential(n: nat) -> Seq<u32> {
    Seq::new(n, |i: int| i as u32)
}

/// The flat index list that a mesh with `vertex_count` vertices describes.
pub open spec fn resolved_indices(ib: Option<IndexBuffer>, vertex_count: nat) -> Seq<u32> {
    match ib {
        Some(IndexBuffer::U16(xs)) => widened(xs@),
        Some(IndexBuffer::U32(xs)) => xs@,
        None => sequential(vertex_count),
    }
}

/// Number of whole triangles in a flat index list.
pub open spec fn triangle_count_spec(indices: Seq<u32>) -> nat {
    indices.len() / 3
}

/// Triangle `i` of a flat triangle list.
pub open spec fn triangle_at(indices: Seq<u32>, i: int) -> Triangle {
    Triangle { a: indices[3 * i], b: indices[3 * i + 1], c: indices[3 * i + 2] }
}

/// The whole triangles of a flat index list; a trailing partial triangle is dropped.
pub open spec fn triangles_spec(indices: Seq<u32>) -> Seq<Triangle> {
    Seq::new(triangle_count_spec(indices), |i: int| triangle_at(indices, i))
}

/// Every index names one of the `vertex_count` vertices.
pub open spec fn indices_in_range(indices: Seq<u32>, vertex_count: nat) -> bool {
    forall|i: int| 0 <= i < indices.len() ==> (#[trigger] indices[i] as nat) < vertex_count
}

/// What capturing a mesh yields: its whole-triangle index list and triangle count, or why not.
pub open spec fn capture_spec(ib: Option<IndexBuffer>, vertex_count: nat) -> Result<
    (Seq<u32>, nat),
    CaptureError,
> {
    let all = resolved_indices(ib, vertex_count);
    let t = triangle_count_spec(all);
    let kept = all.take(3 * t as int);
    if t == 0 {
        Err(CaptureError::NoTriangles)
    } else if t > MAX_TRIANGLES {
        Err(CaptureError::TooManyTriangles)
    } else if !indices_in_range(kept, vertex_count) {
        Err(CaptureError::IndexOutOfRange)
    } else {
        Ok((kept, t))
    }
}

/// Resolves the flat 32-bit index list of a mesh: widened from 16 bits, taken as
/// is, or synthesised as `0..vertex_count` when the mesh has no index buffer.
pub fn resolve_indices(ib: Option<&IndexBuffer>, vertex_count: u32) -> (r: Vec<u32>)
    ensures
        r@ == resolved_indices(
            match ib {
                Some(b) => Some(*b),
                None => None,
            },
            vertex_count as nat,
        ),
{
    match ib {
        Some(IndexBuffer::U16(xs)) => {
            let mut r: Vec<u32> = Vec::new();
            let mut i: usize = 0;
            while i < xs.len()
                invariant
                    i <= xs@.len(),
                    r@ =~= widened(xs@).take(i as int),
                decreases xs@.len() - i,
            {
                r.push(xs[i] as u32);
                i = i + 1;
            }
            assert(r@ =~= widened(xs@));
            r
        },
        Some(IndexBuffer::U32(xs)) => xs.clone(),
        None => {
            let mut r: Vec<u32> = Vec::new();
            let mut i: u32 = 0;
            while i < vertex_count
                invariant
                    i <= vertex_count,
                    r@ =~= sequential(i as nat),
                decreases vertex_count - i,
            {
                r.push(i);
                i = i + 1;
            }
            r
        },
    }
}

/// Splits a flat index list into its whole triangles, in order.
pub fn triangles_from(indices: &[u32]) -> (r: Vec<Triangle>)
    ensures
        r@ == triangles_spec(indices@),
{
    let n = indices.len() / 3;
    let mut r: Vec<Triangle> = Vec::new();
    let mut i: usize = 0;
    let mut j: usize = 0;
    while i < n
        invariant
            n == indices@.len() / 3,
            i <= n,
            j == 3 * i,
            r@ =~= triangles_spec(indices@).take(i as int),
        decreases n - i,
    {
        let t = Triangle { a: indices[j], b: indices[j + 1], c: indices[j + 2] };
        r.push(t);
        i = i + 1;
        j = j + 3;
    }
    r
}

/// CPU-side conversion input captured from a mesh: its vertex count, its flat
/// triangle-list indices and its triangle count.
#[derive(Clone)]
pub struct TriToSplatCpuInput {
    vertex_count: u32,
    indices: Vec<u32>,
    tri_count: u32,
}

impl TriToSplatCpuInput {
    /// `indices.len() == 3 * tri_count`, at least one triangle, and every index in range.
    pub open spec fn wf(&self) -> bool {
        &&& self.indices_spec().len() == 3 * self.tri_count_spec()
        &&& self.tri_count_spec() > 0
        &&& self.tri_count_spec() <= MAX_TRIANGLES
        &&& self.vertex_count_spec() <= u32::MAX
        &&& indices_in_range(self.indices_spec(), self.vertex_count_spec())
    }

    pub closed spec fn vertex_count_spec(&self) -> nat {
        self.vertex_count as nat
    }

    pub closed spec fn indices_spec(&self) -> Seq<u32> {
        self.indices@
    }

    pub closed spec fn tri_count_spec(&self) -> nat {
        self.tri_count as nat
    }

    /// Captures a mesh of `vertex_count` vertices for conversion. The index list is
    /// resolved as `resolve_indices` does and cut to whole triangles; a mesh without
    /// a triangle, with too many, or with an index past its last vertex is refused.
    pub fn capture(vertex_count: u32, ib: Option<&IndexBuffer>) -> (r: Result<
        TriToSplatCpuInput,
        CaptureError,
    >)
        ensures
            ({
                let spec_ib = match ib {
                    Some(b) => Some(*b),
                    None => None,
                };
                match (r, capture_spec(spec_ib, vertex_count as nat)) {
                    (Ok(m), Ok((kept, t))) => m.wf() && m.vertex_count_spec() == vertex_count
                        && m.indices_spec() == kept && m.tri_count_spec() == t,
                    (Err(e), Err(f)) => e == f,
                    _ => false,
                }
            }),
    {
        let ghost spec_ib = match ib {
            Some(b) => Some(*b),
            None => None,
        };
        let all = resolve_indices(ib, vertex_count);
        let t = all.len() / 3;
        if t == 0 {
            return Err(CaptureError::NoTriangles);
        }
        if t > MAX_TRIANGLES as usize {
            return Err(CaptureError::TooManyTriangles);
        }
        let whole = all.len() - all.len() % 3;
        let mut kept: Vec<u32> = Vec::new();
        let mut i: usize = 0;
        while i < whole
            invariant
                t == all@.len() / 3,
                all@ == resolved_indices(spec_ib, vertex_count as nat),
                spec_ib == match ib {
                    Some(b) => Some(*b),
                    None => None,
                },
                0 < t <= MAX_TRIANGLES,
                whole == 3 * t,
                whole <= all@.len(),
                i <= whole,
                kept@ =~= all@.take(i as int),
                indices_in_range(kept@, vertex_count as nat),
            decreases whole - i,
        {
            let x = all[i];
            if x >= vertex_count {
                proof {
                    let full = all@.take(3 * t as int);
                    assert(full[i as int] == x);
                    assert(!indices_in_range(full, vertex_count as nat));
                }
                return Err(CaptureError::IndexOutOfRange);
            }
            kept.push(x);
            i = i + 1;
        }
        proof {
            assert(all@ == resolved_indices(spec_ib, vertex_count as nat));
            assert(kept@ =~= all@.take(3 * t as int));
        }
        Ok(TriToSplatCpuInput { vertex_count, indices: kept, tri_count: t as u32 })
    }

    pub fn vertex_count(&self) -> (r: u32)
        ensures
            r as nat == self.vertex_count_spec(),
    {
        self.vertex_count
    }

    pub fn indices(&self) -> (r: &[u32])
        ensures
            r@ == self.indices_spec(),
    {
        self.indices.as_slice()
    }

    pub fn tri_count(&self) -> (r: u32)
        ensures
            r as nat == self.tri_count_spec(),
    {
        self.tri_count
    }

    /// The triangle behind each splat in one-splat-per-triangle mode: splat `i` is
    /// centred on triangle `i`, and there are exactly `indices.len() / 3` of them.
    pub fn splat_triangles(&self) -> (r: Vec<Triangle>)
        requires
            self.wf(),
        ensures
            r@ == triangles_spec(self.indices_spec()),
            r@.len() == self.tri_count_spec(),
            forall|i: int|
                0 <= i < r@.len() ==> (#[trigger] r@[i]).a < self.vertex_count_spec()
                    && r@[i].b < self.vertex_count_spec() && r@[i].c < self.vertex_count_spec(),
    {
        let r = triangles_from(self.indices.as_slice());
        assert forall|i: int| 0 <= i < r@.len() implies (#[trigger] r@[i]).a < self.vertex_count
            && r@[i].b < self.vertex_count && r@[i].c < self.vertex_count by {
            assert(self.indices@[3 * i] < self.vertex_count);
            assert(self.indices@[3 * i + 1] < self.vertex_count);
            assert(self.indices@[3 * i + 2] < self.vertex_count);
        }
        r
    }
}

} // verus!
