use vstd::prelude::*;
use crate::mesh_input::TriToSplatCpuInput;
use crate::workgroups::workgroup_count;
use crate::workgroups::workgroups_spec;

verus! {

/// The inputs binding of one entity (positions, indices and constants, read-only),
/// the triangle count of the mesh uploaded behind it, and the number of workgroups
/// its conversion needs.
#[derive(Clone, Copy, Debug, PartialEq, Eq)]
pub struct TriToSplatGpu {
    pub bind_group_inputs: u64,
    pub workgroups: u32,
    pub tri_count: u32,
}

/// The inputs binding made for a mesh of `tri_count` triangles: its dispatch
/// covers every triangle, `ceil(tri_count / K)` workgroups.
pub open spec fn inputs_for(bind_group_inputs: u64, tri_count: nat) -> TriToSplatGpu {
    TriToSplatGpu {
        bind_group_inputs,
        workgroups: workgroups_spec(tri_count) as u32,
        tri_count: tri_count as u32,
    }
}

/// An inputs binding sized for its mesh: at least one triangle, and exactly
/// `ceil(tri_count / K)` workgroups.
pub open spec fn sized(g: TriToSplatGpu) -> bool {
    g.tri_count > 0 && g.workgroups as nat == workgroups_spec(g.tri_count as nat)
}

/// Every inputs binding in the slots is sized for its mesh.
pub open spec fn slots_sized(slots: Seq<EntitySlot>) -> bool {
    forall|e: int| 0 <= e < slots.len() && (#[trigger] slots[e]).inputs is Some ==> sized(slots[e].inputs->Some_0)
}

/// The read-write binding of a cloud's four storage fields, by device handle.
#[derive(Clone, Copy, Debug, PartialEq, Eq)]
pub struct PlanarStorageBindGroupRw {
    pub bind_group: u64,
}

/// What the render side knows of one convertible entity: the read-write binding
/// of its splat-cloud storage and the binding of its uploaded mesh inputs, each
/// once it exists. Bindings are named by the handles that the device side issued.
#[derive(Clone, Copy, Debug, PartialEq, Eq)]
pub struct EntitySlot {
    pub storage: Option<PlanarStorageBindGroupRw>,
    pub inputs: Option<TriToSplatGpu>,
}

/// What to do about the storage binding of a cloud this frame.
#[derive(Clone, Copy, Debug, PartialEq, Eq)]
pub enum StorageStep {
    /// Its storage is not instantiated yet; look again next frame.
    NotReady,
    /// It already has its binding; nothing to create.
    AlreadyBound,
    /// Create the read-write binding now.
    Create,
}

/// What to do about the inputs binding of an entity this frame.
#[derive(Clone, Copy, Debug, PartialEq, Eq)]
pub enum InputsStep {
    /// No storage binding or no captured mesh yet; look again next frame.
    Wait,
    /// Its inputs are uploaded already.
    AlreadyUploaded,
    /// Upload the captured mesh and create its inputs binding now.
    Upload,
}

pub open spec fn storage_step_spec(slot: EntitySlot, storage_available: bool) -> StorageStep {
    if slot.storage is Some {
        StorageStep::AlreadyBound
    } else if storage_available {
        StorageStep::Create
    } else {
        StorageStep::NotReady
    }
}

pub open spec fn inputs_step_spec(slot: EntitySlot, has_capture: bool) -> InputsStep {
    if slot.inputs is Some {
        InputsStep::AlreadyUploaded
    } else if slot.storage is Some && has_capture {
        InputsStep::Upload
    } else {
        InputsStep::Wait
    }
}

/// The slot after recording a storage binding: a slot that has one keeps it.
pub open spec fn with_storage(slot: EntitySlot, binding: PlanarStorageBindGroupRw) -> EntitySlot {
    if slot.storage is Some {
        slot
    } else {
        EntitySlot { storage: Some(binding), ..slot }
    }
}

/// The slot after recording an inputs binding: a slot that has one keeps it.
pub open spec fn with_inputs(slot: EntitySlot, inputs: TriToSplatGpu) -> EntitySlot {
    if slot.inputs is Some {
        slot
    } else {
        EntitySlot { inputs: Some(inputs), ..slot }
    }
}

/// An entity is ready for conversion once it has both bindings.
pub open spec fn slot_ready(slot: EntitySlot) -> bool {
    slot.storage is Some && slot.inputs is Some
}

/// Recording the same storage binding twice changes nothing past the first time,
/// whatever handle the second call carries.
pub proof fn lemma_storage_binding_idempotent(
    slot: EntitySlot,
    first: PlanarStorageBindGroupRw,
    second: PlanarStorageBindGroupRw,
)
    ensures
        with_storage(with_storage(slot, first), second) == with_storage(slot, first),
{
}

/// Bind-group cache of the render side: one slot per convertible entity,
/// entities being numbered from zero in the order they were registered.
pub struct BindGroupCache {
    slots: Vec<EntitySlot>,
}

impl BindGroupCache {
    pub closed spec fn slots_spec(&self) -> Seq<EntitySlot> {
        self.slots@
    }

    /// Inputs bindings enter only through `record_inputs_binding`, which sizes
    /// them from the captured mesh.
    pub open spec fn wf(&self) -> bool {
        slots_sized(self.slots_spec())
    }

    pub fn new() -> (r: BindGroupCache)
        ensures
            r.wf(),
            r.slots_spec() == Seq::<EntitySlot>::empty(),
    {
        BindGroupCache { slots: Vec::new() }
    }

    pub fn len(&self) -> (r: usize)
        ensures
            r == self.slots_spec().len(),
    {
        self.slots.len()
    }

    /// Adds an entity with neither binding and returns its number.
    pub fn register_entity(&mut self) -> (r: usize)
        requires
            old(self).wf(),
        ensures
            final(self).wf(),
            r == old(self).slots_spec().len(),
            final(self).slots_spec() == old(self).slots_spec().push(
                EntitySlot { storage: None, inputs: None },
            ),
    {
        let r = self.slots.len();
        self.slots.push(EntitySlot { storage: None, inputs: None });
        proof {
            assert forall|e: int| 0 <= e < self.slots@.len() && (#[trigger] self.slots@[e]).inputs is Some implies sized(
                self.slots@[e].inputs->Some_0,
            ) by {
                assert(self.slots@[e] == old(self).slots@[e]);
            }
        }
        r
    }

    pub fn slot(&self, entity: usize) -> (r: EntitySlot)
        requires
            entity < self.slots_spec().len(),
        ensures
            r == self.slots_spec()[entity as int],
    {
        self.slots[entity]
    }

    /// Decides whether the storage binding of `entity` must be created this
    /// frame; `storage_available` says whether its cloud storage is instantiated.
    pub fn storage_step(&self, entity: usize, storage_available: bool) -> (r: StorageStep)
        requires
            entity < self.slots_spec().len(),
        ensures
            r == storage_step_spec(self.slots_spec()[entity as int], storage_available),
    {
        let slot = self.slots[entity];
        match slot.storage {
            Some(_) => StorageStep::AlreadyBound,
            None => if storage_available {
                StorageStep::Create
            } else {
                StorageStep::NotReady
            },
        }
    }

    /// Records the read-write storage binding of `entity`. On an entity that is
    /// bound already this is a no-op and returns `false`.
    pub fn ensure_storage_binding(&mut self, entity: usize, binding: PlanarStorageBindGroupRw) -> (r: bool)
        requires
            old(self).wf(),
            entity < old(self).slots_spec().len(),
        ensures
            final(self).wf(),
            r == (old(self).slots_spec()[entity as int].storage is None),
            final(self).slots_spec() == old(self).slots_spec().update(
                entity as int,
                with_storage(old(self).slots_spec()[entity as int], binding),
            ),
            !r ==> final(self).slots_spec() == old(self).slots_spec(),
    {
        let slot = self.slots[entity];
        match slot.storage {
            Some(_) => {
                assert(old(self).slots_spec().update(entity as int, slot) =~= old(self).slots_spec());
                false
            },
            None => {
                self.slots.set(entity, EntitySlot { storage: Some(binding), inputs: slot.inputs });
                proof {
                    self.lemma_sized_after_set(old(self).slots@, entity as int);
                }
                true
            },
        }
    }

    /// Decides whether the mesh inputs of `entity` must be uploaded this frame;
    /// `has_capture` says whether a captured mesh is attached to it.
    pub fn inputs_step(&self, entity: usize, has_capture: bool) -> (r: InputsStep)
        requires
            entity < self.slots_spec().len(),
        ensures
            r == inputs_step_spec(self.slots_spec()[entity as int], has_capture),
    {
        let slot = self.slots[entity];
        match slot.inputs {
            Some(_) => InputsStep::AlreadyUploaded,
            None => if slot.storage.is_some() && has_capture {
                InputsStep::Upload
            } else {
                InputsStep::Wait
            },
        }
    }

    /// Records the inputs binding `bind_group_inputs` made for the captured mesh
    /// `input`, sizing its dispatch from the mesh's triangle count. Inputs are
    /// uploaded once: on an entity that has them already this is a no-op and
    /// returns `false`.
    pub fn record_inputs_binding(&mut self, entity: usize, bind_group_inputs: u64, input: &TriToSplatCpuInput) -> (r: bool)
        requires
            old(self).wf(),
            input.wf(),
            entity < old(self).slots_spec().len(),
        ensures
            final(self).wf(),
            r == (old(self).slots_spec()[entity as int].inputs is None),
            final(self).slots_spec() == old(self).slots_spec().update(
                entity as int,
                with_inputs(old(self).slots_spec()[entity as int], inputs_for(bind_group_inputs, input.tri_count_spec())),
            ),
            !r ==> final(self).slots_spec() == old(self).slots_spec(),
    {
        let t = input.tri_count();
        let inputs = TriToSplatGpu { bind_group_inputs, workgroups: workgroup_count(t), tri_count: t };
        let slot = self.slots[entity];
        match slot.inputs {
            Some(_) => {
                assert(old(self).slots_spec().update(entity as int, slot) =~= old(self).slots_spec());
                false
            },
            None => {
                self.slots.set(entity, EntitySlot { storage: slot.storage, inputs: Some(inputs) });
                proof {
                    self.lemma_sized_after_set(old(self).slots@, entity as int);
                }
                true
            },
        }
    }

    /// Drops the inputs binding of `entity`, so that its refreshed mesh is uploaded
    /// again; the storage binding stays.
    pub fn invalidate_inputs(&mut self, entity: usize)
        requires
            old(self).wf(),
            entity < old(self).slots_spec().len(),
        ensures
            final(self).wf(),
            final(self).slots_spec() == old(self).slots_spec().update(
                entity as int,
                EntitySlot { inputs: None, ..old(self).slots_spec()[entity as int] },
            ),
    {
        let slot = self.slots[entity];
        self.slots.set(entity, EntitySlot { storage: slot.storage, inputs: None });
        proof {
            self.lemma_sized_after_set(old(self).slots@, entity as int);
        }
    }

    /// Drops both bindings of `entity`, as when its cloud storage is replaced by a
    /// cloud of another size: both are made again for the new storage.
    pub fn forget_bindings(&mut self, entity: usize)
        requires
            old(self).wf(),
            entity < old(self).slots_spec().len(),
        ensures
            final(self).wf(),
            final(self).slots_spec() == old(self).slots_spec().update(
                entity as int,
                EntitySlot { storage: None, inputs: None },
            ),
    {
        self.slots.set(entity, EntitySlot { storage: None, inputs: None });
        proof {
            self.lemma_sized_after_set(old(self).slots@, entity as int);
        }
    }

    /// Overwriting one slot with a slot whose inputs are sized, or absent, keeps
    /// every inputs binding sized.
    proof fn lemma_sized_after_set(&self, before: Seq<EntitySlot>, entity: int)
        requires
            slots_sized(before),
            0 <= entity < before.len(),
            self.slots@ == before.update(entity, self.slots@[entity]),
            self.slots@[entity].inputs is Some ==> sized(self.slots@[entity].inputs->Some_0),
        ensures
            slots_sized(self.slots@),
    {
        assert forall|e: int| 0 <= e < self.slots@.len() && (#[trigger] self.slots@[e]).inputs is Some implies sized(
            self.slots@[e].inputs->Some_0,
        ) by {
            if e != entity {
                assert(self.slots@[e] == before[e]);
            }
        }
    }
}

/// Flag `e` of a per-entity flag list; entities past its end count as `false`.
pub open spec fn flag_at(flags: Seq<bool>, e: int) -> bool {
    e < flags.len() && flags[e]
}

/// Among the first `k` entities, in order, those whose storage binding must be
/// created: storage available and no binding yet.
pub open spec fn storage_candidates(slots: Seq<EntitySlot>, available: Seq<bool>, k: int) -> Seq<usize>
    decreases k,
{
    if k <= 0 {
        Seq::empty()
    } else {
        let rest = storage_candidates(slots, available, k - 1);
        if storage_step_spec(slots[k - 1], flag_at(available, k - 1)) == StorageStep::Create {
            rest.push((k - 1) as usize)
        } else {
            rest
        }
    }
}

/// Among the first `k` entities, in order, those whose inputs must be uploaded:
/// storage bound, a captured mesh attached, and no inputs binding yet.
pub open spec fn upload_candidates(slots: Seq<EntitySlot>, has_capture: Seq<bool>, k: int) -> Seq<usize>
    decreases k,
{
    if k <= 0 {
        Seq::empty()
    } else {
        let rest = upload_candidates(slots, has_capture, k - 1);
        if inputs_step_spec(slots[k - 1], flag_at(has_capture, k - 1)) == InputsStep::Upload {
            rest.push((k - 1) as usize)
        } else {
            rest
        }
    }
}

/// The entities whose read-write storage binding is to be created this frame, in
/// entity order: `available[e]` says whether the storage of entity `e` is
/// instantiated. Entities that are bound already are left out, so no storage is
/// ever bound twice.
pub fn queue_planar_cloud_rw_bind_group(cache: &BindGroupCache, available: &[bool]) -> (r: Vec<usize>)
    ensures
        r@ == storage_candidates(cache.slots_spec(), available@, cache.slots_spec().len() as int),
{
    let n = cache.len();
    let mut r: Vec<usize> = Vec::new();
    let mut e: usize = 0;
    while e < n
        invariant
            n == cache.slots_spec().len(),
            e <= n,
            r@ == storage_candidates(cache.slots_spec(), available@, e as int),
        decreases n - e,
    {
        let flag = e < available.len() && available[e];
        match cache.storage_step(e, flag) {
            StorageStep::Create => r.push(e),
            _ => {},
        }
        e = e + 1;
    }
    r
}

/// The entities whose mesh inputs are to be uploaded this frame, in entity order:
/// `has_capture[e]` says whether entity `e` carries a captured mesh. Entities
/// uploaded already are left out, so each mesh is uploaded once.
pub fn tri_to_splat_upload_candidates(cache: &BindGroupCache, has_capture: &[bool]) -> (r: Vec<usize>)
    ensures
        r@ == upload_candidates(cache.slots_spec(), has_capture@, cache.slots_spec().len() as int),
{
    let n = cache.len();
    let mut r: Vec<usize> = Vec::new();
    let mut e: usize = 0;
    while e < n
        invariant
            n == cache.slots_spec().len(),
            e <= n,
            r@ == upload_candidates(cache.slots_spec(), has_capture@, e as int),
        decreases n - e,
    {
        let flag = e < has_capture.len() && has_capture[e];
        match cache.inputs_step(e, flag) {
            InputsStep::Upload => r.push(e),
            _ => {},
        }
        e = e + 1;
    }
    r
}

} // verus!
