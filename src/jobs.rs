use vstd::prelude::*;
use crate::bindings::BindGroupCache;
use crate::bindings::EntitySlot;
use crate::bindings::slot_ready;
use crate::bindings::slots_sized;
use crate::bindings::upload_candidates;
use crate::bindings::inputs_for;
use crate::bindings::InputsStep;
use crate::mesh_input::TriToSplatCpuInput;
use crate::upload::plan_upload;
use crate::upload::plan_matches;
use crate::upload::UploadPlan;
use crate::workgroups::workgroups_spec;

verus! {

/// A fully resolved unit of work: the entity it converts, its two bindings and
/// its workgroup count. Made and consumed within one frame.
#[derive(Clone, Copy, Debug, PartialEq, Eq)]
pub struct ConversionJob {
    pub entity: usize,
    pub inputs_binding: u64,
    pub storage_binding: u64,
    pub workgroup_count: u32,
}

/// The job that a ready slot stands for.
pub open spec fn job_for(entity: usize, slot: EntitySlot) -> ConversionJob {
    ConversionJob {
        entity,
        inputs_binding: slot.inputs->Some_0.bind_group_inputs,
        storage_binding: slot.storage->Some_0.bind_group,
        workgroup_count: slot.inputs->Some_0.workgroups,
    }
}

/// The entities that have both bindings.
pub open spec fn ready_set(slots: Seq<EntitySlot>) -> Set<usize> {
    Set::new(|e: usize| (e as int) < slots.len() && slot_ready(slots[e as int]))
}

/// The entities that a sequence of jobs converts, in order.
pub open spec fn job_entities(jobs: Seq<ConversionJob>) -> Seq<usize> {
    jobs.map_values(|j: ConversionJob| j.entity)
}

/// Every job is the job of a ready entity, and no entity has two jobs.
pub open spec fn jobs_consistent(jobs: Seq<ConversionJob>, slots: Seq<EntitySlot>) -> bool {
    &&& forall|i: int|
        0 <= i < jobs.len() ==> {
            let e = (#[trigger] jobs[i]).entity;
            &&& (e as int) < slots.len()
            &&& slot_ready(slots[e as int])
            &&& jobs[i] == job_for(e, slots[e as int])
        }
    &&& job_entities(jobs).no_duplicates()
}

/// A queue that holds the job of each ready entity once, and nothing else, holds
/// exactly as many jobs as there are ready entities.
pub proof fn lemma_full_queue_size(jobs: Seq<ConversionJob>, slots: Seq<EntitySlot>)
    requires
        jobs_consistent(jobs, slots),
        job_entities(jobs).to_set() == ready_set(slots),
    ensures
        jobs.len() == ready_set(slots).len(),
{
    job_entities(jobs).unique_seq_to_set();
}

/// The per-frame staging queue: cleared at the start of each frame, filled during
/// preparation, read by the dispatch stage. It holds at most one job per entity.
pub struct TriToSplatJobQueue {
    jobs: Vec<ConversionJob>,
}

impl TriToSplatJobQueue {
    pub closed spec fn jobs_spec(&self) -> Seq<ConversionJob> {
        self.jobs@
    }

    pub fn new() -> (r: TriToSplatJobQueue)
        ensures
            r.jobs_spec() == Seq::<ConversionJob>::empty(),
    {
        TriToSplatJobQueue { jobs: Vec::new() }
    }

    pub fn len(&self) -> (r: usize)
        ensures
            r == self.jobs_spec().len(),
    {
        self.jobs.len()
    }

    pub fn job(&self, i: usize) -> (r: ConversionJob)
        requires
            i < self.jobs_spec().len(),
        ensures
            r == self.jobs_spec()[i as int],
    {
        self.jobs[i]
    }

    /// Empties the queue; it runs first in each frame's preparation.
    pub fn clear(&mut self)
        ensures
            final(self).jobs_spec() == Seq::<ConversionJob>::empty(),
    {
        self.jobs.clear();
    }

    /// Whether `entity` has a job in the queue.
    pub fn contains(&self, entity: usize) -> (r: bool)
        ensures
            r == job_entities(self.jobs_spec()).contains(entity),
    {
        let mut i: usize = 0;
        while i < self.jobs.len()
            invariant
                i <= self.jobs@.len(),
                forall|k: int| 0 <= k < i ==> (#[trigger] self.jobs@[k]).entity != entity,
            decreases self.jobs@.len() - i,
        {
            if self.jobs[i].entity == entity {
                assert(job_entities(self.jobs@)[i as int] == entity);
                return true;
            }
            i = i + 1;
        }
        proof {
            if job_entities(self.jobs@).contains(entity) {
                let k = choose|k: int|
                    0 <= k < job_entities(self.jobs@).len() && job_entities(self.jobs@)[k]
                        == entity;
                assert(self.jobs@[k].entity == entity);
            }
        }
        false
    }

    /// Queues the job of `entity` if it is ready and not queued yet; returns
    /// whether a job was added. Both the first-time path (an entity that has just
    /// received its inputs binding) and the recurring path go through here.
    pub fn enqueue(&mut self, cache: &BindGroupCache, entity: usize) -> (r: bool)
        requires
            entity < cache.slots_spec().len(),
            jobs_consistent(old(self).jobs_spec(), cache.slots_spec()),
        ensures
            jobs_consistent(final(self).jobs_spec(), cache.slots_spec()),
            r == (slot_ready(cache.slots_spec()[entity as int]) && !job_entities(
                old(self).jobs_spec(),
            ).contains(entity)),
            r ==> final(self).jobs_spec() == old(self).jobs_spec().push(
                job_for(entity, cache.slots_spec()[entity as int]),
            ),
            !r ==> final(self).jobs_spec() == old(self).jobs_spec(),
    {
        let slot = cache.slot(entity);
        let queued = self.contains(entity);
        if queued {
            return false;
        }
        match (slot.storage, slot.inputs) {
            (Some(storage), Some(inputs)) => {
                let job = ConversionJob {
                    entity,
                    inputs_binding: inputs.bind_group_inputs,
                    storage_binding: storage.bind_group,
                    workgroup_count: inputs.workgroups,
                };
                let ghost before = self.jobs@;
                self.jobs.push(job);
                proof {
                    assert(job_entities(self.jobs@) =~= job_entities(before).push(entity));
                    let s = job_entities(self.jobs@);
                    assert forall|a: int, b: int|
                        0 <= a < s.len() && 0 <= b < s.len() && a != b implies s[a] != s[b] by {
                        if a < before.len() && b < before.len() {
                            assert(job_entities(before)[a] == s[a]);
                            assert(job_entities(before)[b] == s[b]);
                        } else if a == before.len() {
                            assert(job_entities(before)[b] == s[b]);
                        } else {
                            assert(job_entities(before)[a] == s[a]);
                        }
                    }
                    assert forall|i: int| 0 <= i < self.jobs@.len() implies {
                        let e = (#[trigger] self.jobs@[i]).entity;
                        &&& (e as int) < cache.slots_spec().len()
                        &&& slot_ready(cache.slots_spec()[e as int])
                        &&& self.jobs@[i] == job_for(e, cache.slots_spec()[e as int])
                    } by {
                        if i < before.len() {
                            assert(self.jobs@[i] == before[i]);
                        }
                    }
                }
                true
            },
            _ => false,
        }
    }
}

/// Queues the job of every ready entity that has none yet. After it, the queue
/// holds exactly one job per ready entity, whether queued here or before, so
/// its length is the number of ready entities.
pub fn requeue_existing_tri_to_splat_jobs(queue: &mut TriToSplatJobQueue, cache: &BindGroupCache)
    requires
        jobs_consistent(old(queue).jobs_spec(), cache.slots_spec()),
    ensures
        jobs_consistent(final(queue).jobs_spec(), cache.slots_spec()),
        job_entities(final(queue).jobs_spec()).to_set() == ready_set(cache.slots_spec()),
        final(queue).jobs_spec().len() == ready_set(cache.slots_spec()).len(),
        old(queue).jobs_spec().is_prefix_of(final(queue).jobs_spec()),
{
    let n = cache.len();
    let mut e: usize = 0;
    let ghost start = queue.jobs@;
    while e < n
        invariant
            n == cache.slots_spec().len(),
            e <= n,
            jobs_consistent(queue.jobs_spec(), cache.slots_spec()),
            start.is_prefix_of(queue.jobs_spec()),
            forall|k: usize|
                k < e && slot_ready(cache.slots_spec()[k as int]) ==> job_entities(
                    queue.jobs_spec(),
                ).contains(k),
        decreases n - e,
    {
        let ghost before = queue.jobs@;
        assert(forall|k: usize|
            k < e && slot_ready(cache.slots_spec()[k as int]) ==> job_entities(before).contains(k));
        queue.enqueue(cache, e);
        proof {
            assert forall|k: usize|
                k < e + 1 && slot_ready(cache.slots_spec()[k as int]) implies job_entities(
                queue.jobs_spec(),
            ).contains(k) by {
                if k < e {
                    assert(job_entities(before).contains(k));
                    if queue.jobs@ != before {
                        let i = choose|i: int|
                            0 <= i < job_entities(before).len() && job_entities(before)[i]
                                == k;
                        assert(job_entities(queue.jobs@)[i] == k);
                    }
                } else {
                    if queue.jobs@ != before {
                        assert(job_entities(queue.jobs@)[before.len() as int] == k);
                    }
                }
            }
            assert(start.is_prefix_of(queue.jobs@)) by {
                if queue.jobs@ != before {
                    assert forall|i: int| 0 <= i < start.len() implies start[i]
                        == queue.jobs@[i] by {
                        assert(before[i] == start[i]);
                    }
                }
            }
        }
        e = e + 1;
    }
    proof {
        let s = job_entities(queue.jobs@);
        assert forall|k: usize| s.to_set().contains(k) == ready_set(cache.slots_spec()).contains(
            k,
        ) by {
            if s.to_set().contains(k) {
                let i = choose|i: int| 0 <= i < s.len() && s[i] == k;
                assert(queue.jobs@[i].entity == k);
            }
        }
        assert(s.to_set() =~= ready_set(cache.slots_spec()));
        lemma_full_queue_size(queue.jobs@, cache.slots_spec());
    }
}

/// In a consistent queue over sized slots, every job dispatches exactly
/// `ceil(T / K)` workgroups for the `T > 0` triangles of its entity's mesh, so no
/// job is ever empty or too small for its mesh.
pub proof fn lemma_jobs_cover_their_meshes(jobs: Seq<ConversionJob>, slots: Seq<EntitySlot>)
    requires
        jobs_consistent(jobs, slots),
        slots_sized(slots),
    ensures
        forall|i: int|
            0 <= i < jobs.len() ==> {
                let t = slots[(#[trigger] jobs[i]).entity as int].inputs->Some_0.tri_count;
                &&& t > 0
                &&& jobs[i].workgroup_count as nat == workgroups_spec(t as nat)
                &&& jobs[i].workgroup_count >= 1
            },
{
    assert forall|i: int| 0 <= i < jobs.len() implies {
        let t = slots[(#[trigger] jobs[i]).entity as int].inputs->Some_0.tri_count;
        &&& t > 0
        &&& jobs[i].workgroup_count as nat == workgroups_spec(t as nat)
        &&& jobs[i].workgroup_count >= 1
    } by {
        let e = jobs[i].entity as int;
        assert(slots[e].inputs is Some);
        let t = slots[e].inputs->Some_0.tri_count;
        assert(workgroups_spec(t as nat) >= 1);
    }
}

/// A consistent queue stays consistent when a slot that no job can refer to (it
/// was not ready) changes.
proof fn lemma_consistent_after_unready_update(
    jobs: Seq<ConversionJob>,
    before: Seq<EntitySlot>,
    after: Seq<EntitySlot>,
    e: int,
)
    requires
        jobs_consistent(jobs, before),
        0 <= e < before.len(),
        !slot_ready(before[e]),
        after == before.update(e, after[e]),
    ensures
        jobs_consistent(jobs, after),
{
    assert forall|i: int| 0 <= i < jobs.len() implies {
        let k = (#[trigger] jobs[i]).entity;
        &&& (k as int) < after.len()
        &&& slot_ready(after[k as int])
        &&& jobs[i] == job_for(k, after[k as int])
    } by {
        let k = jobs[i].entity;
        assert(k as int != e);
        assert(after[k as int] == before[k as int]);
    }
}

/// Whether each entity carries a captured mesh.
pub open spec fn capture_flags(captures: Seq<Option<TriToSplatCpuInput>>) -> Seq<bool> {
    captures.map_values(|c: Option<TriToSplatCpuInput>| c is Some)
}

/// The handle `h` was made by `create` for entity `e` from the upload plan of `input`.
pub open spec fn made_from<F: Fn(usize, UploadPlan) -> u64>(
    create: F,
    e: usize,
    input: TriToSplatCpuInput,
    h: u64,
) -> bool {
    exists|p: UploadPlan| plan_matches(p, input) && #[trigger] create.ensures((e, p), h)
}

/// What `queue_tri_to_splat_inputs` leaves in the slot of a first-time entity:
/// its storage binding as it was, and inputs sized for its capture, made by
/// `create` from that capture's upload plan.
pub open spec fn uploaded<F: Fn(usize, UploadPlan) -> u64>(
    create: F,
    e: usize,
    before: EntitySlot,
    after: EntitySlot,
    input: TriToSplatCpuInput,
) -> bool {
    &&& after.storage == before.storage
    &&& after.inputs is Some
    &&& after.inputs->Some_0 == inputs_for(after.inputs->Some_0.bind_group_inputs, input.tri_count_spec())
    &&& made_from(create, e, input, after.inputs->Some_0.bind_group_inputs)
}

/// The upload stage of one frame. Each entity that has its storage binding and a
/// captured mesh (`captures[e]`) but no inputs binding yet is a candidate; for each,
/// in entity order, the upload is planned, `create` makes the device buffers and
/// the inputs bind group from that plan and returns its handle, the binding is
/// recorded with `ceil(T / K)` workgroups for the mesh's `T` triangles, and the
/// entity's first-time job is queued. Returns the candidates; every other slot and
/// every job queued before stay as they were.
pub fn queue_tri_to_splat_inputs<F: Fn(usize, UploadPlan) -> u64>(
    cache: &mut BindGroupCache,
    queue: &mut TriToSplatJobQueue,
    captures: &[Option<TriToSplatCpuInput>],
    create: F,
) -> (first_time: Vec<usize>)
    requires
        old(cache).wf(),
        jobs_consistent(old(queue).jobs_spec(), old(cache).slots_spec()),
        forall|e: int| 0 <= e < captures@.len() && (#[trigger] captures@[e]) is Some ==> captures@[e]->Some_0.wf(),
        forall|e: usize, p: UploadPlan| create.requires((e, p)),
    ensures
        final(cache).wf(),
        first_time@ == upload_candidates(
            old(cache).slots_spec(),
            capture_flags(captures@),
            old(cache).slots_spec().len() as int,
        ),
        final(cache).slots_spec().len() == old(cache).slots_spec().len(),
        forall|e: usize|
            (e as int) < old(cache).slots_spec().len() && !first_time@.contains(e) ==> #[trigger] final(cache).slots_spec()[e as int]
                == old(cache).slots_spec()[e as int],
        forall|j: int|
            0 <= j < first_time@.len() ==> {
                let e = #[trigger] first_time@[j];
                &&& (e as int) < captures@.len()
                &&& captures@[e as int] is Some
                &&& uploaded(
                    create,
                    e,
                    old(cache).slots_spec()[e as int],
                    final(cache).slots_spec()[e as int],
                    captures@[e as int]->Some_0,
                )
            },
        final(queue).jobs_spec() == old(queue).jobs_spec() + first_time@.map_values(
            |e: usize| job_for(e, final(cache).slots_spec()[e as int]),
        ),
        jobs_consistent(final(queue).jobs_spec(), final(cache).slots_spec()),
{
    let ghost slots0 = cache.slots_spec();
    let ghost jobs0 = queue.jobs_spec();
    let ghost flags = capture_flags(captures@);
    let n = cache.len();
    let mut first_time: Vec<usize> = Vec::new();
    let mut e: usize = 0;
    while e < n
        invariant
            n == slots0.len(),
            e <= n,
            flags == capture_flags(captures@),
            cache.wf(),
            cache.slots_spec().len() == n,
            forall|k: int| 0 <= k < captures@.len() && (#[trigger] captures@[k]) is Some ==> captures@[k]->Some_0.wf(),
            forall|k: usize, p: UploadPlan| create.requires((k, p)),
            first_time@ == upload_candidates(slots0, flags, e as int),
            forall|j: int| 0 <= j < first_time@.len() ==> (#[trigger] first_time@[j] as int) < e,
            forall|k: usize|
                e <= (k as int) < n ==> #[trigger] cache.slots_spec()[k as int] == slots0[k as int],
            forall|k: usize|
                (k as int) < e && !first_time@.contains(k) ==> #[trigger] cache.slots_spec()[k as int] == slots0[k as int],
            forall|j: int|
                0 <= j < first_time@.len() ==> {
                    let k = #[trigger] first_time@[j];
                    &&& (k as int) < captures@.len()
                    &&& captures@[k as int] is Some
                    &&& uploaded(create, k, slots0[k as int], cache.slots_spec()[k as int], captures@[k as int]->Some_0)
                },
            queue.jobs_spec() == jobs0 + first_time@.map_values(|k: usize| job_for(k, cache.slots_spec()[k as int])),
            jobs_consistent(queue.jobs_spec(), cache.slots_spec()),
        decreases n - e,
    {
        let has = e < captures.len() && captures[e].is_some();
        proof {
            assert(has == crate::bindings::flag_at(flags, e as int));
        }
        let step = cache.inputs_step(e, has);
        let ghost before_slots = cache.slots_spec();
        let ghost before_jobs = queue.jobs_spec();
        let ghost before_first = first_time@;
        match step {
            InputsStep::Upload => {
                let c = match &captures[e] {
                    Some(c) => c,
                    None => {
                        return first_time;
                    },
                };
                let plan = plan_upload(c);
                let ghost p = plan;
                let h = create(e, plan);
                cache.record_inputs_binding(e, h, c);
                proof {
                    lemma_consistent_after_unready_update(before_jobs, before_slots, cache.slots_spec(), e as int);
                    assert(plan_matches(p, *c) && create.ensures((e, p), h));
                    assert(made_from(create, e, *c, h));
                    assert(!job_entities(before_jobs).contains(e)) by {
                        if job_entities(before_jobs).contains(e) {
                            let i = choose|i: int| 0 <= i < job_entities(before_jobs).len() && job_entities(before_jobs)[i] == e;
                            assert(before_jobs[i].entity == e);
                        }
                    }
                }
                queue.enqueue(cache, e);
                first_time.push(e);
                proof {
                    let s = cache.slots_spec();
                    assert(first_time@ == before_first.push(e));
                    assert forall|j: int| 0 <= j < before_first.len() implies #[trigger] s[before_first[j] as int]
                        == before_slots[before_first[j] as int] by {
                        assert(before_first[j] < e);
                    }
                    assert(queue.jobs_spec() =~= jobs0 + first_time@.map_values(|k: usize| job_for(k, s[k as int])));
                    assert forall|k: usize| (k as int) < e + 1 && !first_time@.contains(k) implies #[trigger] s[k as int]
                        == slots0[k as int] by {
                        if (k as int) < e {
                            if before_first.contains(k) {
                                let j = choose|j: int| 0 <= j < before_first.len() && before_first[j] == k;
                                assert(first_time@[j] == k);
                            }
                        } else {
                            assert(first_time@[before_first.len() as int] == k);
                        }
                    }
                    assert forall|j: int| 0 <= j < first_time@.len() implies {
                        let k = #[trigger] first_time@[j];
                        &&& (k as int) < captures@.len()
                        &&& captures@[k as int] is Some
                        &&& uploaded(create, k, slots0[k as int], s[k as int], captures@[k as int]->Some_0)
                    } by {
                        if j < before_first.len() {
                            assert(first_time@[j] == before_first[j]);
                        }
                    }
                }
            },
            _ => {
                proof {
                    assert forall|k: usize| (k as int) < e + 1 && !first_time@.contains(k) implies #[trigger] cache.slots_spec()[k as int]
                        == slots0[k as int] by {
                    }
                }
            },
        }
        e = e + 1;
    }
    first_time
}

/// One frame's preparation of the queue: clear it, run the upload stage (which
/// queues the first-time jobs), then requeue every other ready entity. However the
/// ready entities split between first-time and recurring, the queue ends with
/// exactly one job per ready entity, each sized for its mesh.
pub fn prepare_jobs<F: Fn(usize, UploadPlan) -> u64>(
    queue: &mut TriToSplatJobQueue,
    cache: &mut BindGroupCache,
    captures: &[Option<TriToSplatCpuInput>],
    create: F,
) -> (first_time: Vec<usize>)
    requires
        old(cache).wf(),
        forall|e: int| 0 <= e < captures@.len() && (#[trigger] captures@[e]) is Some ==> captures@[e]->Some_0.wf(),
        forall|e: usize, p: UploadPlan| create.requires((e, p)),
    ensures
        final(cache).wf(),
        first_time@ == upload_candidates(
            old(cache).slots_spec(),
            capture_flags(captures@),
            old(cache).slots_spec().len() as int,
        ),
        jobs_consistent(final(queue).jobs_spec(), final(cache).slots_spec()),
        job_entities(final(queue).jobs_spec()).to_set() == ready_set(final(cache).slots_spec()),
        final(queue).jobs_spec().len() == ready_set(final(cache).slots_spec()).len(),
        forall|i: int|
            0 <= i < final(queue).jobs_spec().len() ==> (#[trigger] final(queue).jobs_spec()[i]).workgroup_count >= 1,
{
    queue.clear();
    proof {
        assert(job_entities(queue.jobs_spec()) =~= Seq::<usize>::empty());
    }
    let first_time = queue_tri_to_splat_inputs(cache, queue, captures, create);
    requeue_existing_tri_to_splat_jobs(queue, cache);
    proof {
        lemma_jobs_cover_their_meshes(queue.jobs_spec(), cache.slots_spec());
    }
    first_time
}

} // verus!
