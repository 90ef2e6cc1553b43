use vstd::prelude::*;

verus! {

/// Material number of a voxel: 256 materials.
pub type MaterialId = u8;

/// Edge length of a chunk, in voxels.
pub const CHUNK_SIZE: usize = 32;

/// Number of cells of a chunk.
pub const CHUNK_CELLS: usize = 32768;

/// Integer grid coordinates of a voxel.
#[derive(Clone, Copy, Debug, PartialEq, Eq, Hash)]
pub struct Voxel {
    pub x: i32,
    pub y: i32,
    pub z: i32,
}

/// Compact voxel data: a material and an index into a table of normals.
#[derive(Clone, Copy, Debug, PartialEq, Eq)]
pub struct VoxelData {
    pub material: MaterialId,
    pub normal_index: u8,
}

impl VoxelData {
    pub fn new(material: MaterialId, normal_index: u8) -> (r: VoxelData)
        ensures
            r == (VoxelData { material, normal_index }),
    {
        VoxelData { material, normal_index }
    }

    /// A voxel of `material` with the default normal, index zero.
    pub fn with_material(material: MaterialId) -> (r: VoxelData)
        ensures
            r == (VoxelData { material, normal_index: 0 }),
    {
        VoxelData { material, normal_index: 0 }
    }
}

/// `p` lies inside a chunk of edge `size`.
pub open spec fn in_chunk(p: Voxel, size: int) -> bool {
    0 <= p.x < size && 0 <= p.y < size && 0 <= p.z < size
}

/// Cell of `p` in a chunk of edge `size`, x fastest, then y, then z.
pub open spec fn cell_index(p: Voxel, size: int) -> int {
    p.z * size * size + p.y * size + p.x
}

/// The grid position of cell `i` in a chunk of edge `size`.
pub open spec fn cell_pos(i: int, size: int) -> Voxel {
    Voxel { x: (i % size) as i32, y: ((i / size) % size) as i32, z: (i / (size * size)) as i32 }
}

/// The set voxels among the first `k` cells, in cell order, with their positions.
pub open spec fn occupied(cells: Seq<Option<VoxelData>>, k: int, size: int) -> Seq<(Voxel, VoxelData)>
    decreases k,
{
    if k <= 0 {
        Seq::empty()
    } else {
        let rest = occupied(cells, k - 1, size);
        match cells[k - 1] {
            Some(d) => rest.push((cell_pos(k - 1, size), d)),
            None => rest,
        }
    }
}

/// Number of set cells among the first `k`.
pub open spec fn set_count(cells: Seq<Option<VoxelData>>, k: int) -> nat
    decreases k,
{
    if k <= 0 {
        0
    } else {
        set_count(cells, k - 1) + if cells[k - 1] is Some {
            1nat
        } else {
            0nat
        }
    }
}

proof fn lemma_occupied_len(cells: Seq<Option<VoxelData>>, k: int, size: int)
    ensures
        occupied(cells, k, size).len() == set_count(cells, k),
        set_count(cells, k) <= if k < 0 { 0 } else { k },
    decreases k,
{
    if k > 0 {
        lemma_occupied_len(cells, k - 1, size);
    }
}

/// Dense storage for one 32 by 32 by 32 chunk: one optional voxel per cell.
pub struct VoxelChunkSimple {
    data: Vec<Option<VoxelData>>,
    size: usize,
}

impl VoxelChunkSimple {
    pub closed spec fn cells(&self) -> Seq<Option<VoxelData>> {
        self.data@
    }

    pub closed spec fn size_spec(&self) -> int {
        self.size as int
    }

    pub open spec fn wf(&self) -> bool {
        &&& self.size_spec() == CHUNK_SIZE
        &&& self.cells().len() == CHUNK_CELLS
    }

    /// The voxel at `p`, `None` outside the chunk or where nothing is set.
    pub open spec fn voxel_at(&self, p: Voxel) -> Option<VoxelData> {
        if in_chunk(p, self.size_spec()) {
            self.cells()[cell_index(p, self.size_spec())]
        } else {
            None
        }
    }

    /// An empty chunk.
    pub fn new() -> (r: VoxelChunkSimple)
        ensures
            r.wf(),
            forall|i: int| 0 <= i < CHUNK_CELLS ==> #[trigger] r.cells()[i] is None,
    {
        let mut data: Vec<Option<VoxelData>> = Vec::new();
        let mut i: usize = 0;
        while i < CHUNK_CELLS
            invariant
                i <= CHUNK_CELLS,
                data@.len() == i,
                forall|k: int| 0 <= k < i ==> #[trigger] data@[k] is None,
            decreases CHUNK_CELLS - i,
        {
            data.push(None);
            i = i + 1;
        }
        VoxelChunkSimple { data, size: CHUNK_SIZE }
    }

    proof fn lemma_index_in_range(p: Voxel)
        requires
            in_chunk(p, 32),
        ensures
            0 <= cell_index(p, 32) < CHUNK_CELLS,
            cell_pos(cell_index(p, 32), 32) == p,
    {
        let i = cell_index(p, 32);
        assert(0 <= i < 32768) by (nonlinear_arith)
            requires
                0 <= p.x < 32,
                0 <= p.y < 32,
                0 <= p.z < 32,
                i == p.z * 32 * 32 + p.y * 32 + p.x,
        ;
        assert(i % 32 == p.x && (i / 32) % 32 == p.y && i / 1024int == p.z) by (nonlinear_arith)
            requires
                0 <= p.x < 32,
                0 <= p.y < 32,
                0 <= p.z < 32,
                i == p.z * 32 * 32 + p.y * 32 + p.x,
        ;
    }

    /// Cell of `p`, or `None` when `p` lies outside the chunk.
    fn pos_to_index(&self, p: Voxel) -> (r: Option<usize>)
        requires
            self.wf(),
        ensures
            in_chunk(p, self.size_spec()) ==> r == Some(cell_index(p, self.size_spec()) as usize)
                && cell_index(p, self.size_spec()) < CHUNK_CELLS,
            !in_chunk(p, self.size_spec()) ==> r is None,
    {
        let s = self.size as i32;
        if p.x < 0 || p.y < 0 || p.z < 0 || p.x >= s || p.y >= s || p.z >= s {
            return None;
        }
        proof {
            Self::lemma_index_in_range(p);
        }
        let size = self.size;
        Some((p.z as usize) * size * size + (p.y as usize) * size + p.x as usize)
    }

    /// Sets the voxel at `p` to `material` with the default normal; outside the
    /// chunk nothing changes.
    pub fn set(&mut self, p: Voxel, material: MaterialId)
        requires
            old(self).wf(),
        ensures
            final(self).wf(),
            in_chunk(p, 32) ==> final(self).cells() == old(self).cells().update(
                cell_index(p, 32),
                Some(VoxelData { material, normal_index: 0 }),
            ),
            !in_chunk(p, 32) ==> final(self).cells() == old(self).cells(),
    {
        if let Some(index) = self.pos_to_index(p) {
            self.data.set(index, Some(VoxelData::with_material(material)));
        }
    }

    /// Sets the voxel at `p` to `material` and `normal_index`; outside the chunk
    /// nothing changes.
    pub fn set_with_normal(&mut self, p: Voxel, material: MaterialId, normal_index: u8)
        requires
            old(self).wf(),
        ensures
            final(self).wf(),
            in_chunk(p, 32) ==> final(self).cells() == old(self).cells().update(
                cell_index(p, 32),
                Some(VoxelData { material, normal_index }),
            ),
            !in_chunk(p, 32) ==> final(self).cells() == old(self).cells(),
    {
        if let Some(index) = self.pos_to_index(p) {
            self.data.set(index, Some(VoxelData::new(material, normal_index)));
        }
    }

    /// Empties the cell at `p`; outside the chunk nothing changes.
    pub fn clear(&mut self, p: Voxel)
        requires
            old(self).wf(),
        ensures
            final(self).wf(),
            in_chunk(p, 32) ==> final(self).cells() == old(self).cells().update(cell_index(p, 32), None),
            !in_chunk(p, 32) ==> final(self).cells() == old(self).cells(),
    {
        if let Some(index) = self.pos_to_index(p) {
            self.data.set(index, None);
        }
    }

    pub fn get(&self, p: Voxel) -> (r: Option<VoxelData>)
        requires
            self.wf(),
        ensures
            r == self.voxel_at(p),
    {
        match self.pos_to_index(p) {
            Some(index) => self.data[index],
            None => None,
        }
    }

    pub fn is_set(&self, p: Voxel) -> (r: bool)
        requires
            self.wf(),
        ensures
            r == self.voxel_at(p) is Some,
    {
        self.get(p).is_some()
    }

    /// Every set voxel with its position, in cell order.
    pub fn iter(&self) -> (r: Vec<(Voxel, VoxelData)>)
        requires
            self.wf(),
        ensures
            r@ == occupied(self.cells(), CHUNK_CELLS as int, 32),
    {
        let mut r: Vec<(Voxel, VoxelData)> = Vec::new();
        let mut i: usize = 0;
        let size = self.size;
        while i < self.data.len()
            invariant
                self.wf(),
                size == 32,
                i <= CHUNK_CELLS,
                r@ == occupied(self.cells(), i as int, 32),
            decreases CHUNK_CELLS - i,
        {
            if let Some(d) = self.data[i] {
                assert(i / 32 < 1024 && (i / 32) % 32 < 32 && i % 32 < 32 && i / 1024 < 32) by (nonlinear_arith)
                    requires
                        i < 32768,
                ;
                let x = (i % size) as i32;
                let y = ((i / size) % size) as i32;
                let z = (i / (size * size)) as i32;
                r.push((Voxel { x, y, z }, d));
            }
            i = i + 1;
        }
        r
    }

    /// Positions of the set voxels, in cell order.
    pub fn positions(&self) -> (r: Vec<Voxel>)
        requires
            self.wf(),
        ensures
            r@ == occupied(self.cells(), CHUNK_CELLS as int, 32).map_values(|e: (Voxel, VoxelData)| e.0),
    {
        let all = self.iter();
        let mut r: Vec<Voxel> = Vec::new();
        let mut i: usize = 0;
        while i < all.len()
            invariant
                i <= all@.len(),
                r@ =~= all@.take(i as int).map_values(|e: (Voxel, VoxelData)| e.0),
            decreases all@.len() - i,
        {
            r.push(all[i].0);
            i = i + 1;
        }
        assert(all@.take(all@.len() as int) =~= all@);
        r
    }

    /// Number of set voxels.
    pub fn count(&self) -> (r: usize)
        requires
            self.wf(),
        ensures
            r == set_count(self.cells(), CHUNK_CELLS as int),
    {
        let mut n: usize = 0;
        let mut i: usize = 0;
        while i < self.data.len()
            invariant
                self.wf(),
                i <= CHUNK_CELLS,
                n == set_count(self.cells(), i as int),
            decreases CHUNK_CELLS - i,
        {
            proof {
                lemma_occupied_len(self.cells(), i as int, 32);
            }
            if self.data[i].is_some() {
                n = n + 1;
            }
            i = i + 1;
        }
        n
    }
}

impl Default for VoxelChunkSimple {
    fn default() -> (r: VoxelChunkSimple)
        ensures
            r.wf(),
            forall|i: int| 0 <= i < CHUNK_CELLS ==> #[trigger] r.cells()[i] is None,
    {
        VoxelChunkSimple::new()
    }
}

} // verus!
