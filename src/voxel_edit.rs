use vstd::prelude::*;
use crate::voxel::Voxel;
use crate::voxel::VoxelChunkSimple;
use crate::voxel::VoxelData;
use crate::voxel::cell_index;
use crate::voxel::in_chunk;

verus! {

/// A pending change to the voxel world.
#[derive(Clone, Copy, Debug, PartialEq, Eq)]
pub enum EditOp {
    /// Set the voxel at the position to the default material.
    SetVoxel(Voxel),
    /// Empty the voxel at the position.
    ClearVoxel(Voxel),
}

/// Material that a `Set` edit writes.
pub const EDIT_MATERIAL: u8 = 1;

/// Edits queued since they were last applied, in order.
pub struct EditBatch {
    pub ops: Vec<EditOp>,
}

/// The edited chunk, and whether it changed since its surface was last extracted.
pub struct VoxelWorld {
    pub chunk: VoxelChunkSimple,
    pub dirty: bool,
}

/// The cells after one edit.
pub open spec fn apply_op(cells: Seq<Option<VoxelData>>, op: EditOp) -> Seq<Option<VoxelData>> {
    match op {
        EditOp::SetVoxel(p) => if in_chunk(p, 32) {
            cells.update(cell_index(p, 32), Some(VoxelData { material: EDIT_MATERIAL, normal_index: 0 }))
        } else {
            cells
        },
        EditOp::ClearVoxel(p) => if in_chunk(p, 32) {
            cells.update(cell_index(p, 32), None)
        } else {
            cells
        },
    }
}

/// The cells after the first `k` edits, applied in order.
pub open spec fn apply_ops(cells: Seq<Option<VoxelData>>, ops: Seq<EditOp>, k: int) -> Seq<Option<VoxelData>>
    decreases k,
{
    if k <= 0 {
        cells
    } else {
        apply_op(apply_ops(cells, ops, k - 1), ops[k - 1])
    }
}

impl EditBatch {
    pub fn new() -> (r: EditBatch)
        ensures
            r.ops@ == Seq::<EditOp>::empty(),
    {
        EditBatch { ops: Vec::new() }
    }
}

impl VoxelWorld {
    /// An empty, clean world.
    pub fn new() -> (r: VoxelWorld)
        ensures
            r.chunk.wf(),
            !r.dirty,
            forall|i: int| 0 <= i < 32768 ==> #[trigger] r.chunk.cells()[i] is None,
    {
        VoxelWorld { chunk: VoxelChunkSimple::new(), dirty: false }
    }
}

/// Queues setting the voxel at `p`.
pub fn queue_set(batch: &mut EditBatch, p: Voxel)
    ensures
        final(batch).ops@ == old(batch).ops@.push(EditOp::SetVoxel(p)),
{
    batch.ops.push(EditOp::SetVoxel(p));
}

/// Applies the queued edits to the chunk in order and empties the batch; returns
/// how many edits were applied. The world is marked dirty when there was any.
pub fn apply_edits(world: &mut VoxelWorld, batch: &mut EditBatch) -> (applied: u64)
    requires
        old(world).chunk.wf(),
    ensures
        final(world).chunk.wf(),
        final(world).chunk.cells() == apply_ops(old(world).chunk.cells(), old(batch).ops@, old(batch).ops@.len() as int),
        final(world).dirty == (old(world).dirty || old(batch).ops@.len() > 0),
        final(batch).ops@ == Seq::<EditOp>::empty(),
        applied as nat == old(batch).ops@.len(),
{
    if batch.ops.len() == 0 {
        return 0;
    }
    let n = batch.ops.len();
    let mut i: usize = 0;
    while i < n
        invariant
            n == batch.ops@.len(),
            batch.ops@ == old(batch).ops@,
            i <= n,
            world.chunk.wf(),
            world.chunk.cells() == apply_ops(old(world).chunk.cells(), batch.ops@, i as int),
        decreases n - i,
    {
        match batch.ops[i] {
            EditOp::SetVoxel(p) => world.chunk.set(p, EDIT_MATERIAL),
            EditOp::ClearVoxel(p) => world.chunk.clear(p),
        }
        i = i + 1;
    }
    batch.ops.clear();
    world.dirty = true;
    n as u64
}

} // verus!
